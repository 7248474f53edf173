use bulletrl::field::BULLET_LIMIT;
use bulletrl::pool::SlotPool;

fn slots(pool: &SlotPool<u32>) -> Vec<Option<u32>> {
    (0..pool.capacity()).map(|i| pool.get(i).copied()).collect()
}

#[test]
fn new_pool_is_empty() {
    let pool: SlotPool<u32> = SlotPool::new(BULLET_LIMIT);
    assert_eq!(pool.capacity(), 640);
    assert!((0..640).all(|i| pool.get(i).is_none()));
    assert!(pool.get(640).is_none());
    assert!(pool.get(usize::MAX).is_none());
    let none: SlotPool<u32> = SlotPool::new(0);
    assert_eq!(none.capacity(), 0);
}

#[test]
fn insert_takes_the_first_empty_slot() {
    let mut pool: SlotPool<u32> = SlotPool::new(4);
    assert_eq!(pool.insert(10), Some(0));
    assert_eq!(pool.insert(11), Some(1));
    assert_eq!(pool.insert(12), Some(2));
    assert_eq!(slots(&pool), vec![Some(10), Some(11), Some(12), None]);
    // empty slot 1; the next item goes there, not to the end
    pool.advance(|v: &u32| if *v == 11 { None } else { Some(*v) });
    assert_eq!(slots(&pool), vec![Some(10), None, Some(12), None]);
    assert_eq!(pool.insert(13), Some(1));
    assert_eq!(pool.insert(14), Some(3));
    assert_eq!(slots(&pool), vec![Some(10), Some(13), Some(12), Some(14)]);
}

#[test]
fn insert_into_a_full_pool_drops_the_item() {
    let mut pool: SlotPool<u32> = SlotPool::new(2);
    assert_eq!(pool.insert(1), Some(0));
    assert_eq!(pool.insert(2), Some(1));
    assert_eq!(pool.insert(3), None);
    assert_eq!(slots(&pool), vec![Some(1), Some(2)]);
    assert_eq!(pool.capacity(), 2);
    let mut none: SlotPool<u32> = SlotPool::new(0);
    assert_eq!(none.insert(1), None);
}

#[test]
fn advance_steps_every_item_in_place() {
    let mut pool: SlotPool<u32> = SlotPool::new(5);
    for v in [1, 2, 3, 4] {
        pool.insert(v);
    }
    pool.advance(|v: &u32| if *v % 2 == 0 { None } else { Some(*v + 10) });
    assert_eq!(slots(&pool), vec![Some(11), None, Some(13), None, None]);
    pool.advance(|v: &u32| Some(*v + 1));
    assert_eq!(slots(&pool), vec![Some(12), None, Some(14), None, None]);
    pool.advance(|_: &u32| None);
    assert_eq!(slots(&pool), vec![None, None, None, None, None]);
    assert_eq!(pool.capacity(), 5);
}

#[test]
fn any_finds_an_item_and_stops_there() {
    let mut pool: SlotPool<u32> = SlotPool::new(5);
    assert!(!pool.any(|_: &u32| true));
    for v in [1, 2, 3] {
        pool.insert(v);
    }
    assert!(pool.any(|v: &u32| *v == 3));
    assert!(pool.any(|v: &u32| *v == 1));
    assert!(!pool.any(|v: &u32| *v == 4));
    let asked = std::cell::Cell::new(0u32);
    let hit = pool.any(|v: &u32| {
        asked.set(asked.get() + 1);
        *v == 2
    });
    assert!(hit);
    assert_eq!(asked.get(), 2);
}
