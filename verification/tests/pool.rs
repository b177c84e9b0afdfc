use entitypool::Entity;
use entitypool::EntityPool;

#[test]
fn it_works() {
    let mut pool = EntityPool::new();
    let mut entities = Vec::<Entity>::new();
    for i in 0..5 {
        let (index, e) = pool.create_entity();
        assert_eq!(i, index);
        assert_eq!(e, pool.entity_at(index));
        assert_eq!(index, pool.index_of(e));
        assert!(!entities.contains(&e));
        assert!(pool.is_alive(e));
        entities.push(e);
    }
    let mut alive = 5;
    for e in entities.iter() {
        pool.return_entity(*e);
        assert!(!pool.is_alive(*e));
        alive -= 1;
        let mut expected_alive = 0;
        for (i_alive, e_alive) in pool.iter().into_iter().enumerate() {
            assert!(pool.is_alive(e_alive));
            assert_eq!(i_alive, pool.index_of(e_alive));
            assert_eq!(e_alive, pool.entity_at(i_alive));
            expected_alive += 1;
        }
        assert_eq!(expected_alive, alive);
    }
    for i in 0..5 {
        let (index, e) = pool.create_entity();
        assert_eq!(i, index);
        assert_eq!(e, pool.entity_at(index));
        assert_eq!(index, pool.index_of(e));
        assert!(!entities.contains(&e));
        assert!(pool.is_alive(e));
        entities.push(e);
    }
    let mut count = 0;
    for (index, e) in pool.iter().into_iter().enumerate() {
        assert_eq!(index, pool.index_of(e));
        assert_eq!(e, pool.entity_at(index));
        assert!(pool.is_alive(e));
        count += 1;
    }
    assert_eq!(5, count);
}

#[test]
fn fresh_creates_are_unique_and_in_order() {
    let mut pool = EntityPool::new();
    let mut entities = Vec::<Entity>::new();
    for i in 0..8 {
        let (index, e) = pool.create_entity();
        assert_eq!(i, index);
        assert_eq!(e.key(), i as u32);
        assert_eq!(e.gen(), 0);
        assert!(!entities.contains(&e));
        entities.push(e);
    }
    assert_eq!(pool.len(), 8);
    for a in 0..8 {
        for b in 0..8 {
            if a != b {
                assert_ne!(entities[a], entities[b]);
            }
        }
    }
}

#[test]
fn recycle_changes_identity() {
    let mut pool = EntityPool::new();
    let (_, e1) = pool.create_entity();
    pool.return_entity(e1);
    assert!(!pool.is_alive(e1));
    let (_, e2) = pool.create_entity();
    assert_ne!(e1, e2);
    assert_eq!(e1.key(), e2.key());
    assert_eq!(e1.gen().wrapping_add(1), e2.gen());
    assert!(pool.is_alive(e2));
    assert!(!pool.is_alive(e1));
}

#[test]
fn release_swaps_and_compacts() {
    let mut pool = EntityPool::new();
    let mut entities = Vec::<Entity>::new();
    for _ in 0..5 {
        let (_, e) = pool.create_entity();
        entities.push(e);
    }
    // Release the middle entity: the last one is swapped into its slot.
    pool.return_entity(entities[2]);
    assert_eq!(pool.len(), 4);
    assert!(!pool.is_alive(entities[2]));
    assert_eq!(pool.entity_at(2), entities[4]);
    assert_eq!(pool.index_of(entities[4]), 2);
    for e in [entities[0], entities[1], entities[3], entities[4]] {
        assert!(pool.is_alive(e));
        assert_eq!(pool.entity_at(pool.index_of(e)), e);
    }
    // Releasing the last entity moves nothing.
    pool.return_entity(entities[3]);
    assert_eq!(pool.len(), 3);
    assert_eq!(pool.entity_at(0), entities[0]);
    assert_eq!(pool.entity_at(1), entities[1]);
    assert_eq!(pool.entity_at(2), entities[4]);
}

#[test]
fn dead_entity_stays_dead() {
    let mut pool = EntityPool::new();
    let (_, e0) = pool.create_entity();
    let (_, e1) = pool.create_entity();
    pool.return_entity(e0);
    assert!(!pool.is_alive(e0));
    let (_, e2) = pool.create_entity();
    // e0's key was recycled into e2, but e0 itself is still dead.
    assert_eq!(e0.key(), e2.key());
    assert!(!pool.is_alive(e0));
    assert!(pool.is_alive(e1));
    assert!(pool.is_alive(e2));
    pool.return_entity(e1);
    assert!(!pool.is_alive(e0));
    assert!(!pool.is_alive(e1));
}

#[test]
fn iteration_agrees_with_positions() {
    let mut pool = EntityPool::new();
    for _ in 0..6 {
        pool.create_entity();
    }
    let e1 = pool.entity_at(1);
    pool.return_entity(e1);
    let listed = pool.iter();
    assert_eq!(listed.len(), pool.len());
    for (i, e) in listed.into_iter().enumerate() {
        assert!(pool.is_alive(e));
        assert_eq!(pool.index_of(e), i);
        assert_eq!(pool.entity_at(i), e);
    }
}

#[test]
fn reset_clears_everything() {
    let mut pool = EntityPool::new();
    for _ in 0..4 {
        pool.create_entity();
    }
    let e = pool.entity_at(3);
    pool.return_entity(e);
    assert_eq!(pool.len(), 3);
    assert_eq!(pool.len_returned(), 1);
    pool.reset();
    assert_eq!(pool.len(), 0);
    assert_eq!(pool.len_returned(), 0);
    // Keys are issued again from 0 under generation 0.
    let (index, e) = pool.create_entity();
    assert_eq!(index, 0);
    assert_eq!(e.key(), 0);
    assert_eq!(e.gen(), 0);
}

#[test]
fn free_stack_is_lifo() {
    let mut pool = EntityPool::new();
    let (_, e0) = pool.create_entity();
    let (_, e1) = pool.create_entity();
    pool.return_entity(e0);
    pool.return_entity(e1);
    assert_eq!(pool.len_returned(), 2);
    // The most recently released key comes back first.
    let (_, r1) = pool.create_entity();
    assert_eq!(r1.key(), e1.key());
    assert_eq!(r1.gen(), e1.gen().wrapping_add(1));
    assert_eq!(pool.len_returned(), 1);
    let (_, r0) = pool.create_entity();
    assert_eq!(r0.key(), e0.key());
    assert_eq!(r0.gen(), e0.gen().wrapping_add(1));
    assert_eq!(pool.len_returned(), 0);
}

#[test]
fn sentinel_is_never_allocated() {
    let sentinel = Entity::default();
    assert_eq!(sentinel.key(), u32::MAX);
    assert_eq!(sentinel.gen(), u32::MAX);
    let mut pool = EntityPool::new();
    for _ in 0..100 {
        let (_, e) = pool.create_entity();
        assert_ne!(e, sentinel);
    }
}

#[test]
fn capacity_management_preserves_contents() {
    let mut pool = EntityPool::with_capacity(10, 4);
    assert!(pool.capacity() >= 10);
    assert!(pool.capacity_returned() >= 4);
    assert_eq!(pool.len(), 0);
    let mut entities = Vec::<Entity>::new();
    for _ in 0..3 {
        let (_, e) = pool.create_entity();
        entities.push(e);
    }
    pool.reserve(100);
    pool.reserve_returned(50);
    assert!(pool.capacity() >= pool.len());
    assert!(pool.capacity_returned() >= pool.len_returned());
    pool.return_entity(entities[0]);
    pool.shrink_to_fit();
    assert_eq!(pool.len(), 2);
    assert_eq!(pool.len_returned(), 1);
    assert!(pool.capacity() >= pool.len());
    for e in [entities[1], entities[2]] {
        assert!(pool.is_alive(e));
        assert_eq!(pool.entity_at(pool.index_of(e)), e);
    }
}

#[test]
fn default_pool_is_empty() {
    let pool = EntityPool::default();
    assert_eq!(pool.len(), 0);
    assert_eq!(pool.len_returned(), 0);
    assert_eq!(pool.iter().len(), 0);
}
