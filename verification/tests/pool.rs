use mongobar::client_pool::{ClientPool, Handout};

/// Hands a client to the next caller of a pool whose clients can all be made.
fn serve(pool: &mut ClientPool) -> Handout {
    let handout = pool.get().unwrap();
    pool.commit();
    handout
}

#[test]
fn handouts_come_in_blocks() {
    let mut pool = ClientPool::new("mongodb://h", 3);
    let given: Vec<Handout> = (0..7).map(|_| serve(&mut pool)).collect();
    let clients: Vec<usize> = given.iter().map(|h| h.client).collect();
    let created: Vec<bool> = given.iter().map(|h| h.created).collect();
    assert_eq!(clients, vec![0, 0, 0, 1, 1, 1, 2]);
    assert_eq!(
        created,
        vec![true, false, false, true, false, false, true]
    );
    assert_eq!(pool.len(), 3);
    assert_eq!(pool.uri(), "mongodb://h");
    assert_eq!(pool.shutdown(), 3);
}

#[test]
fn distinct_clients_are_calls_over_block_size_rounded_up() {
    for k in 1u32..6 {
        for m in 0usize..40 {
            let mut pool = ClientPool::new("u", k);
            let mut seen = Vec::new();
            for _ in 0..m {
                let h = serve(&mut pool);
                if !seen.contains(&h.client) {
                    seen.push(h.client);
                }
            }
            let expected = (m + k as usize - 1) / k as usize;
            assert_eq!(seen.len(), expected);
            assert_eq!(pool.len(), expected);
        }
    }
}

#[test]
fn a_client_that_cannot_be_made_is_not_counted() {
    let mut pool = ClientPool::new("not an address", 2);
    let first = pool.get();
    assert_eq!(first, Some(Handout { client: 0, created: true }));
    // The client could not be made: nothing is committed, and the next caller
    // meets the pool as the first did.
    assert_eq!(pool.len(), 0);
    assert_eq!(pool.get(), first);
    assert_eq!(pool.get(), first);
    assert_eq!(pool.len(), 0);
    // Now the client is made.
    pool.commit();
    assert_eq!(pool.len(), 1);
    assert_eq!(pool.get(), Some(Handout { client: 0, created: false }));
    pool.commit();
    // The second client fails once, then is made.
    let second = pool.get();
    assert_eq!(second, Some(Handout { client: 1, created: true }));
    assert_eq!(pool.len(), 1);
    assert_eq!(pool.get(), second);
    pool.commit();
    assert_eq!(pool.len(), 2);
    assert_eq!(pool.shutdown(), 2);
}

#[test]
fn a_pool_of_empty_blocks_hands_out_nothing() {
    let mut pool = ClientPool::new("u", 0);
    assert_eq!(pool.get(), None);
    pool.commit();
    assert_eq!(pool.get(), None);
    assert_eq!(pool.len(), 0);
}

#[test]
fn pool_sizes_of_a_client() {
    let pool = ClientPool::new("u", 3200);
    assert_eq!(pool.max_pool_size(), 3201);
    assert_eq!(pool.min_pool_size(), 33);
    let small = ClientPool::new("u", 99);
    assert_eq!(small.max_pool_size(), 100);
    assert_eq!(small.min_pool_size(), 1);
    let huge = ClientPool::new("u", u32::MAX);
    assert_eq!(huge.max_pool_size(), u32::MAX);
    assert_eq!(huge.min_pool_size(), 42949673);
}
