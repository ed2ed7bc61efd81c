//! The map's chunk cache decisions: which chunks to ask the compositor
//! for, the order the compositor works through its queue, and which fine
//! chunks leave the cache when it is over its byte budget (least recently
//! used first, never one drawn this frame; the coarse levels stay).

use vstd::prelude::*;

verus! {

/// A square of world pixels at a level of detail: the scope (`None`: the
/// world, else a map's id), the level, the chunk's column and row, and
/// whether it is drawn at night.
#[derive(Clone, Copy, Debug, PartialEq, Eq, Structural, Hash)]
pub struct ChunkKey {
    pub scope: Option<u32>,
    pub level: u8,
    pub cx: u32,
    pub cy: u32,
    pub night: bool,
}

/// The side of a chunk in world pixels at level 0.
pub const CHUNK_PX: u64 = 512;

/// The bytes of one chunk's RGBA texture.
pub const CHUNK_BYTES: u64 = 1048576;

/// The byte budget of the fine levels for a setting in megabytes (at least
/// 32).
pub open spec fn budget_of(budget_mb: u64) -> int {
    (if budget_mb >= 32 { budget_mb as int } else { 32 }) * 1024 * 1024
}

pub fn budget_bytes(budget_mb: u64) -> (r: u64)
    requires
        budget_of(budget_mb) <= usize::MAX,
    ensures
        r == budget_of(budget_mb),
{
    let mb: u64 = if budget_mb >= 32 { budget_mb } else { 32 };
    mb * 1024 * 1024
}

/// Whether `k` is in `s`.
pub open spec fn listed(s: Seq<ChunkKey>, k: ChunkKey) -> bool {
    s.contains(k)
}

fn contains_key(s: &Vec<ChunkKey>, k: ChunkKey) -> (r: bool)
    ensures
        r == s@.contains(k),
{
    let mut i: usize = 0;
    while i < s.len()
        invariant
            i <= s.len(),
            forall|j: int| 0 <= j < i ==> s@[j] != k,
        decreases s.len() - i,
    {
        if s[i] == k {
            assert(s@[i as int] == k);
            return true;
        }
        i = i + 1;
    }
    false
}

/// The chunks of `wanted` not cached yet, in order.
pub open spec fn missing(wanted: Seq<ChunkKey>, cached: Seq<ChunkKey>) -> Seq<ChunkKey> {
    wanted.filter(|k: ChunkKey| !cached.contains(k))
}

/// The chunks to send the compositor, the wanted ones not
/// cached, unless there are none or they are what was sent last.
pub fn request_plan(wanted: &Vec<ChunkKey>, cached: &Vec<ChunkKey>, last_wanted: &Vec<ChunkKey>) -> (r: Option<Vec<ChunkKey>>)
    ensures
        match r {
            Some(w) => w@ == missing(wanted@, cached@) && w@.len() > 0 && w@ != last_wanted@,
            None => missing(wanted@, cached@).len() == 0 || missing(wanted@, cached@) == last_wanted@,
        },
{
    let mut out: Vec<ChunkKey> = Vec::new();
    let mut i: usize = 0;
    while i < wanted.len()
        invariant
            i <= wanted.len(),
            out@ == missing(wanted@.subrange(0, i as int), cached@),
        decreases wanted.len() - i,
    {
        let ghost pre = wanted@.subrange(0, i + 1);
        proof {
            assert(pre.drop_last() =~= wanted@.subrange(0, i as int));
            reveal(Seq::filter);
        }
        if !contains_key(cached, wanted[i]) {
            out.push(wanted[i]);
        }
        proof {
            assert(out@ =~= missing(pre, cached@));
        }
        i = i + 1;
    }
    assert(wanted@.subrange(0, wanted.len() as int) =~= wanted@);
    if out.len() == 0 || same_keys(&out, last_wanted) {
        None
    } else {
        Some(out)
    }
}

fn same_keys(a: &Vec<ChunkKey>, b: &Vec<ChunkKey>) -> (r: bool)
    ensures
        r == (a@ == b@),
{
    if a.len() != b.len() {
        return false;
    }
    let mut i: usize = 0;
    while i < a.len()
        invariant
            a.len() == b.len(),
            i <= a.len(),
            forall|j: int| 0 <= j < i ==> a@[j] == b@[j],
        decreases a.len() - i,
    {
        if a[i] != b[i] {
            return false;
        }
        i = i + 1;
    }
    assert(a@ =~= b@);
    true
}

/// The compositor's queue after a new render list: the list first (what
/// is visible now), then the old queue, each chunk once and none already
/// rendered for this game.
pub open spec fn merged_queue(incoming: Seq<ChunkKey>, done: Seq<ChunkKey>) -> Seq<ChunkKey>
    decreases incoming.len(),
{
    if incoming.len() == 0 {
        Seq::empty()
    } else {
        let q = merged_queue(incoming.drop_last(), done);
        let k = incoming.last();
        if done.contains(k) || q.contains(k) {
            q
        } else {
            q.push(k)
        }
    }
}

pub fn merge_queue(list: &Vec<ChunkKey>, old: &Vec<ChunkKey>, done: &Vec<ChunkKey>) -> (r: Vec<ChunkKey>)
    requires
        list.len() + old.len() <= usize::MAX,
    ensures
        r@ == merged_queue(list@ + old@, done@),
{
    let ghost all = list@ + old@;
    let mut q: Vec<ChunkKey> = Vec::new();
    let n = list.len() + old.len();
    let mut i: usize = 0;
    while i < n
        invariant
            n == list.len() + old.len(),
            all == list@ + old@,
            i <= n,
            q@ == merged_queue(all.subrange(0, i as int), done@),
        decreases n - i,
    {
        let k = if i < list.len() { list[i] } else { old[i - list.len()] };
        assert(k == all[i as int]);
        let ghost pre = all.subrange(0, i + 1);
        assert(pre.drop_last() =~= all.subrange(0, i as int));
        if !contains_key(done, k) && !contains_key(&q, k) {
            q.push(k);
        }
        i = i + 1;
    }
    assert(all.subrange(0, n as int) =~= all);
    q
}

/// The compositor's queue never holds a chunk twice.
pub proof fn law_queue_has_no_repeats(incoming: Seq<ChunkKey>, done: Seq<ChunkKey>)
    ensures
        merged_queue(incoming, done).no_duplicates(),
    decreases incoming.len(),
{
    if incoming.len() > 0 {
        law_queue_has_no_repeats(incoming.drop_last(), done);
    }
}

/// Every chunk asked for that is not rendered yet ends up in the queue.
pub proof fn law_queue_keeps_requests(incoming: Seq<ChunkKey>, done: Seq<ChunkKey>, k: ChunkKey)
    requires
        incoming.contains(k),
        !done.contains(k),
    ensures
        merged_queue(incoming, done).contains(k),
    decreases incoming.len(),
{
    let last = incoming.last();
    let q = merged_queue(incoming.drop_last(), done);
    if last == k {
        if q.contains(k) {
            let i = choose|i: int| 0 <= i < q.len() && q[i] == k;
            assert(merged_queue(incoming, done) == q);
        } else {
            assert(merged_queue(incoming, done) == q.push(k));
            assert(q.push(k)[q.len() as int] == k);
        }
    } else {
        let j = choose|j: int| 0 <= j < incoming.len() && incoming[j] == k;
        assert(incoming.drop_last()[j] == k);
        law_queue_keeps_requests(incoming.drop_last(), done, k);
        let i = choose|i: int| 0 <= i < q.len() && q[i] == k;
        if !(done.contains(last) || q.contains(last)) {
            assert(q.push(last)[i] == k);
        }
    }
}

/// A cached chunk as the eviction sees it: its level and the frame it was
/// last drawn in.
#[derive(Clone, Copy, Debug, PartialEq, Eq, Structural)]
pub struct CachedChunk {
    pub key: ChunkKey,
    pub level: u8,
    pub last_used: u64,
}

/// Whether a chunk is of the fine levels, which the budget covers.
pub open spec fn is_fine(c: CachedChunk) -> bool {
    c.level <= 1
}

/// How many fine chunks come before chunk `i` when they are ordered by
/// when they were last drawn, earlier listing first among equals.
pub open spec fn lru_rank(cs: Seq<CachedChunk>, i: int, n: int) -> nat
    decreases n,
{
    if n <= 0 {
        0
    } else {
        lru_rank(cs, i, n - 1) + if is_fine(cs[n - 1]) && (cs[n - 1].last_used < cs[i].last_used || (
        cs[n - 1].last_used == cs[i].last_used && n - 1 < i)) {
            1nat
        } else {
            0nat
        }
    }
}

/// The number of fine chunks among the first `n`.
pub open spec fn fine_count(cs: Seq<CachedChunk>, n: int) -> nat
    decreases n,
{
    if n <= 0 {
        0
    } else {
        fine_count(cs, n - 1) + if is_fine(cs[n - 1]) {
            1nat
        } else {
            0nat
        }
    }
}

/// How many chunks the eviction tries to free: none within the budget,
/// else one more than the overshoot in whole chunks.
pub open spec fn to_free(fine: int, budget: int) -> int {
    if fine * (CHUNK_BYTES as int) <= budget {
        0
    } else {
        (fine * (CHUNK_BYTES as int) - budget) / (CHUNK_BYTES as int) + 1
    }
}

/// Whether the eviction drops chunk `i`: a fine chunk among the
/// `to_free` least recently drawn, not drawn this `frame`.
pub open spec fn evicted(cs: Seq<CachedChunk>, budget: int, frame: u64, i: int) -> bool {
    is_fine(cs[i]) && lru_rank(cs, i, cs.len() as int) < to_free(fine_count(cs, cs.len() as int) as int, budget)
        && cs[i].last_used < frame
}

/// Per cached chunk, whether it leaves the cache.
pub fn eviction(cs: &Vec<CachedChunk>, budget: u64, frame: u64) -> (r: Vec<bool>)
    requires
        fine_count(cs@, cs.len() as int) * (CHUNK_BYTES as int) <= usize::MAX,
    ensures
        r.len() == cs.len(),
        forall|i: int| 0 <= i < cs.len() ==> #[trigger] r@[i] == evicted(cs@, budget as int, frame, i),
{
    let n = cs.len();
    let mut fine: u64 = 0;
    let mut k: usize = 0;
    while k < n
        invariant
            n == cs.len(),
            k <= n,
            fine == fine_count(cs@, k as int),
            fine <= k,
        decreases n - k,
    {
        if cs[k].level <= 1 {
            fine = fine + 1;
        }
        k = k + 1;
    }
    let bytes: u64 = fine * CHUNK_BYTES;
    let free: u64 = if bytes <= budget { 0 } else { (bytes - budget) / CHUNK_BYTES + 1 };
    let mut out: Vec<bool> = Vec::new();
    let mut i: usize = 0;
    while i < n
        invariant
            n == cs.len(),
            i <= n,
            out.len() == i,
            free == to_free(fine_count(cs@, n as int) as int, budget as int),
            forall|t: int| 0 <= t < i ==> #[trigger] out@[t] == evicted(cs@, budget as int, frame, t),
        decreases n - i,
    {
        let mut rank: u64 = 0;
        let mut j: usize = 0;
        while j < n
            invariant
                n == cs.len(),
                i < n,
                j <= n,
                rank == lru_rank(cs@, i as int, j as int),
                rank <= j,
            decreases n - j,
        {
            let c = cs[j];
            if c.level <= 1 && (c.last_used < cs[i].last_used || (c.last_used == cs[i].last_used && j < i)) {
                rank = rank + 1;
            }
            j = j + 1;
        }
        let drop = cs[i].level <= 1 && rank < free && cs[i].last_used < frame;
        out.push(drop);
        i = i + 1;
    }
    out
}


/// Within the budget nothing leaves the cache.
pub proof fn law_within_budget_keeps_all(cs: Seq<CachedChunk>, budget: int, frame: u64, i: int)
    requires
        0 <= i < cs.len(),
        fine_count(cs, cs.len() as int) * (CHUNK_BYTES as int) <= budget,
    ensures
        !evicted(cs, budget, frame, i),
{
}

/// Least recently used first: when a chunk leaves, every fine chunk drawn
/// before it (and not this frame) leaves too.
pub proof fn law_eviction_is_lru(cs: Seq<CachedChunk>, budget: int, frame: u64, i: int, j: int)
    requires
        0 <= i < cs.len(),
        0 <= j < cs.len(),
        evicted(cs, budget, frame, i),
        is_fine(cs[j]),
        cs[j].last_used < cs[i].last_used,
    ensures
        evicted(cs, budget, frame, j),
{
    lemma_rank_below(cs, i, j, cs.len() as int);
}

proof fn lemma_rank_below(cs: Seq<CachedChunk>, i: int, j: int, n: int)
    requires
        0 <= i < cs.len(),
        0 <= j < cs.len(),
        n <= cs.len(),
        is_fine(cs[j]),
        cs[j].last_used < cs[i].last_used,
    ensures
        j < n ==> lru_rank(cs, j, n) < lru_rank(cs, i, n),
        lru_rank(cs, j, n) <= lru_rank(cs, i, n),
    decreases n,
{
    if n > 0 {
        lemma_rank_below(cs, i, j, n - 1);
    }
}

// ---------------------------------------------------------------------------
// the coarse levels
// ---------------------------------------------------------------------------

/// The world pixels a chunk spans at a level: twice as many each level up.
pub open spec fn span(level: nat) -> int
    decreases level,
{
    if level == 0 {
        CHUNK_PX as int
    } else {
        2 * span((level - 1) as nat)
    }
}

proof fn lemma_span_min(l: nat)
    ensures
        span(l) >= CHUNK_PX,
    decreases l,
{
    if l > 0 {
        lemma_span_min((l - 1) as nat);
    }
}

proof fn lemma_span_grows(a: nat, b: nat)
    requires
        a <= b,
    ensures
        CHUNK_PX <= span(a) <= span(b),
    decreases b,
{
    lemma_span_min(a);
    if b > a {
        lemma_span_grows(a, (b - 1) as nat);
        lemma_span_min((b - 1) as nat);
    }
}

proof fn lemma_span_22()
    ensures
        span(22) == 0x8000_0000,
{
    reveal_with_fuel(span, 23);
}

proof fn lemma_span_24()
    ensures
        span(24) == 0x2_0000_0000,
{
    reveal_with_fuel(span, 25);
}

proof fn lemma_span_21()
    ensures
        span(21) == 0x4000_0000,
{
    reveal_with_fuel(span, 22);
}

/// The chunk span of a level as a 32-bit pixel count: the doubling wraps
/// to the most negative count at level 22 and to nothing past it.
pub fn span_of(level: u8) -> (r: i32)
    requires
        level < 32,
    ensures
        r == (if level <= 21 {
            span(level as nat)
        } else if level == 22 {
            i32::MIN as int
        } else {
            0
        }),
{
    if level == 22 {
        return i32::MIN;
    }
    if level > 22 {
        return 0;
    }
    let mut s: i32 = 512;
    let mut l: u8 = 0;
    while l < level
        invariant
            l <= level <= 21,
            s == span(l as nat),
        decreases level - l,
    {
        proof {
            lemma_span_grows((l + 1) as nat, 21);
            lemma_span_21();
        }
        s = s * 2;
        l = l + 1;
    }
    s
}

/// The chunk span of a level, as a count that does not wrap.
fn level_span(level: u8) -> (r: i64)
    requires
        level <= 22,
    ensures
        r == span(level as nat),
{
    let mut s: i64 = 512;
    let mut l: u8 = 0;
    while l < level
        invariant
            l <= level <= 22,
            s == span(l as nat),
        decreases level - l,
    {
        proof {
            lemma_span_grows((l + 1) as nat, 22);
            lemma_span_22();
        }
        s = s * 2;
        l = l + 1;
    }
    s
}

/// The coarsest level a scope needs: the first whose one chunk covers the
/// scope's longer side.
pub fn max_level(width: u32, height: u32) -> (r: u8)
    ensures
        span(r as nat) >= (if width >= height { width } else { height }),
        r == 0 || span((r - 1) as nat) < (if width >= height { width } else { height }),
{
    let side: u64 = if width >= height { width as u64 } else { height as u64 };
    let mut s: u64 = 512;
    let mut l: u8 = 0;
    while s < side
        invariant
            s == span(l as nat),
            l <= 24,
            side <= 0xffff_ffff,
            l == 0 || span((l - 1) as nat) < side,
        decreases 24 - l,
    {
        proof {
            lemma_span_min(l as nat);
            if l == 24 {
                lemma_span_24();
            }
        }
        s = s * 2;
        l = l + 1;
    }
    l
}

/// The chunks across an extent at a level: enough to reach its last pixel.
pub open spec fn chunks_across(extent: int, level: nat) -> int {
    (if extent - 1 > 0 {
        extent - 1
    } else {
        0
    }) / span(level) + 1
}

/// One row of chunks of a level.
pub open spec fn row_keys(scope: Option<u32>, level: u8, cy: int, cols: int, night: bool) -> Seq<ChunkKey> {
    Seq::new(cols as nat, |cx: int| ChunkKey { scope, level, cx: cx as u32, cy: cy as u32, night })
}

/// The chunks of a level, row by row.
pub open spec fn level_keys(scope: Option<u32>, level: u8, rows: int, cols: int, night: bool) -> Seq<ChunkKey>
    decreases rows,
{
    if rows <= 0 {
        Seq::empty()
    } else {
        level_keys(scope, level, rows - 1, cols, night) + row_keys(scope, level, rows - 1, cols, night)
    }
}

/// The chunks of the levels from `level` down to `lowest`, coarsest first,
/// for a scope reaching to `(x1, y1)`.
pub open spec fn overview_spec(scope: Option<u32>, x1: i32, y1: i32, night: bool, level: int, lowest: int) -> Seq<
    ChunkKey,
>
    decreases level - lowest + 1,
{
    if level < lowest || level < 0 {
        Seq::empty()
    } else {
        level_keys(
            scope,
            level as u8,
            chunks_across(y1 as int, level as nat),
            chunks_across(x1 as int, level as nat),
            night,
        ) + overview_spec(scope, x1, y1, night, level - 1, lowest)
    }
}

/// The chunks of the coarse levels of a scope (`from_level` and up to the
/// scope's coarsest level), to be rendered ahead so zooming out shows no
/// holes.
pub fn overview_keys(scope: Option<u32>, x1: i32, y1: i32, night: bool, max_lvl: u8, from_level: u8) -> (r: Vec<
    ChunkKey,
>)
    requires
        max_lvl <= 22,
    ensures
        r@ == overview_spec(
            scope,
            x1,
            y1,
            night,
            max_lvl as int,
            (if from_level <= max_lvl {
                from_level
            } else {
                max_lvl
            }) as int,
        ),
{
    let lowest: u8 = if from_level <= max_lvl { from_level } else { max_lvl };
    let mut out: Vec<ChunkKey> = Vec::new();
    let ghost total = overview_spec(scope, x1, y1, night, max_lvl as int, lowest as int);
    let mut k: u8 = 0;
    while k <= max_lvl - lowest
        invariant
            lowest <= max_lvl <= 22,
            k <= max_lvl - lowest + 1,
            total == overview_spec(scope, x1, y1, night, max_lvl as int, lowest as int),
            out@ + overview_spec(scope, x1, y1, night, max_lvl - k, lowest as int) == total,
        decreases max_lvl - lowest + 1 - k,
    {
        let level: u8 = max_lvl - k;
        let sp = level_span(level);
        proof {
            lemma_span_grows(0, level as nat);
        }
        let ex: i64 = if (x1 as i64) - 1 > 0 { (x1 as i64) - 1 } else { 0 };
        let ey: i64 = if (y1 as i64) - 1 > 0 { (y1 as i64) - 1 } else { 0 };
        let cols: i64 = ex / sp + 1;
        let rows: i64 = ey / sp + 1;
        let ghost head = out@;
        let mut cy: i64 = 0;
        while cy < rows
            invariant
                0 <= cy <= rows,
                rows == chunks_across(y1 as int, level as nat),
                cols == chunks_across(x1 as int, level as nat),
                1 <= cols <= 0x8000_0000,
                rows <= 0x8000_0000,
                out@ == head + level_keys(scope, level, cy as int, cols as int, night),
            decreases rows - cy,
        {
            let ghost row_head = out@;
            let mut cx: i64 = 0;
            while cx < cols
                invariant
                    0 <= cx <= cols <= 0x8000_0000,
                    0 <= cy < rows <= 0x8000_0000,
                    out@ == row_head + row_keys(scope, level, cy as int, cx as int, night),
                decreases cols - cx,
            {
                out.push(ChunkKey { scope, level, cx: cx as u32, cy: cy as u32, night });
                proof {
                    assert(out@ =~= row_head + row_keys(scope, level, cy as int, cx + 1, night));
                }
                cx = cx + 1;
            }
            proof {
                assert(level_keys(scope, level, cy + 1, cols as int, night) == level_keys(
                    scope,
                    level,
                    cy as int,
                    cols as int,
                    night,
                ) + row_keys(scope, level, cy as int, cols as int, night));
                assert(out@ =~= head + level_keys(scope, level, cy + 1, cols as int, night));
            }
            cy = cy + 1;
        }
        proof {
            let rest = overview_spec(scope, x1, y1, night, level - 1, lowest as int);
            assert(overview_spec(scope, x1, y1, night, level as int, lowest as int) == level_keys(
                scope,
                level,
                rows as int,
                cols as int,
                night,
            ) + rest);
            assert(head + (level_keys(scope, level, rows as int, cols as int, night) + rest) =~= out@ + rest);
        }
        k = k + 1;
    }
    proof {
        assert(overview_spec(scope, x1, y1, night, max_lvl - k, lowest as int) =~= Seq::<ChunkKey>::empty());
        assert(out@ + Seq::<ChunkKey>::empty() =~= out@);
    }
    out
}

} // verus!
