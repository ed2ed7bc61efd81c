use xpr_app::map_chunks::{budget_bytes, eviction, merge_queue, request_plan, CachedChunk, ChunkKey, CHUNK_BYTES};
use xpr_app::route_rows::{
    accepted_quantity, drop_placement, drop_target_row, selected_event_ids, DropPos, RowSelection,
};

fn key(level: u8, cx: u32) -> ChunkKey {
    ChunkKey { scope: None, level, cx, cy: 0, night: false }
}

fn cached(cx: u32, level: u8, last_used: u64) -> CachedChunk {
    CachedChunk { key: key(level, cx), level, last_used }
}

#[test]
fn chunk_budget_and_requests() {
    assert_eq!(budget_bytes(8), 32 * 1024 * 1024);
    assert_eq!(budget_bytes(64), 64 * 1024 * 1024);
    let wanted = vec![key(0, 1), key(0, 2), key(0, 3)];
    let cachedk = vec![key(0, 2)];
    assert_eq!(request_plan(&wanted, &cachedk, &Vec::new()), Some(vec![key(0, 1), key(0, 3)]));
    // the same list as last time is not sent again
    assert_eq!(request_plan(&wanted, &cachedk, &vec![key(0, 1), key(0, 3)]), None);
    // everything cached: nothing to ask
    assert_eq!(request_plan(&vec![key(0, 2)], &cachedk, &Vec::new()), None);
    // the new list goes first, then what was queued, once each, none done
    let q = merge_queue(&vec![key(0, 5), key(0, 1)], &vec![key(0, 1), key(0, 7), key(0, 9)], &vec![key(0, 9)]);
    assert_eq!(q, vec![key(0, 5), key(0, 1), key(0, 7)]);
}

#[test]
fn chunk_eviction_drops_the_least_recently_drawn() {
    let cs = vec![cached(1, 0, 5), cached(2, 1, 3), cached(3, 2, 1), cached(4, 0, 9), cached(5, 0, 3)];
    // four fine chunks against a budget of two: three leave (one more than
    // the overshoot), the least recently drawn first, ties by listing
    let out = eviction(&cs, 2 * CHUNK_BYTES, 10);
    assert_eq!(out, vec![true, true, false, false, true]);
    // within the budget nothing leaves
    assert_eq!(eviction(&cs, 4 * CHUNK_BYTES, 10), vec![false; 5]);
    // a chunk drawn this frame stays
    let out = eviction(&cs, 2 * CHUNK_BYTES, 5);
    assert_eq!(out, vec![false, true, false, false, true]);
}

#[test]
fn drops_selection_and_quantities() {
    assert_eq!(drop_target_row(4, &vec![1, 2], None), Some(4));
    assert_eq!(drop_target_row(2, &vec![1, 2], None), None);
    assert_eq!(drop_target_row(4, &vec![1], Some(Some(3))), Some(3));
    assert_eq!(drop_target_row(4, &vec![1], Some(None)), None);
    assert_eq!(drop_placement(None, false, None, 0, Some(9)), Some((0, Some(9), None)));
    assert_eq!(drop_placement(Some((5, DropPos::On)), true, Some(0), 0, None), Some((5, None, None)));
    assert_eq!(drop_placement(Some((5, DropPos::On)), false, Some(1), 0, None), Some((1, Some(5), None)));
    assert_eq!(drop_placement(Some((5, DropPos::Above)), true, Some(1), 0, None), Some((1, None, Some(5))));
    assert_eq!(drop_placement(Some((5, DropPos::Below)), false, Some(1), 0, None), Some((1, Some(5), None)));
    assert_eq!(drop_placement(Some((5, DropPos::Below)), false, None, 0, None), None);
    assert_eq!(accepted_quantity(" 12 "), Some(12));
    assert_eq!(accepted_quantity("0"), Some(1));
    assert_eq!(accepted_quantity("-3"), Some(1));
    assert_eq!(accepted_quantity("x"), None);

    let sel = vec![10, 11, 20, 21];
    // 11 is an item of 10, 21 an item of group 30 (not selected)
    let info = vec![(false, None), (true, Some(10)), (false, Some(1)), (true, Some(30))];
    assert_eq!(selected_event_ids(&sel, &info, true), vec![10, 20, 21]);
    assert_eq!(selected_event_ids(&sel, &info, false), vec![10, 20]);
    let mut s = RowSelection::new();
    s.set_all(vec![3, 4]);
    assert_eq!(s.selection, vec![3, 4]);
    assert_eq!(s.anchor, Some(4));
    s.set_all(Vec::new());
    assert_eq!(s.anchor, None);
}
