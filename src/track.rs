//! The track pool: a contiguous run of segment rows, three lanes to a row,
//! extended ahead of the camera and recycled behind it.
use vstd::prelude::*;
use crate::placed::{at_or_ahead, coord_ok, lemma_filter_suffix, player_pos_ok, Placed};

verus! {

/// Length of a track segment.
pub const SEGMENT_LENGTH: i64 = 40_000;
/// Only segments nearer than this ahead of the camera count as the frontier.
pub const LIVE_WINDOW: i64 = 500_000;
/// The pool is extended while its frontier is nearer than this ahead of the camera.
pub const EXTEND_AHEAD: i64 = 100_000;
/// Where the camera stands at the start of a run.
pub const START_CAMERA_Z: i64 = -10_000;

#[derive(Clone, Copy, PartialEq, Eq, Debug, Structural)]
pub struct TrackSegment {
    pub track_index: u8,
    pub segment_id: u32,
    /// Longitudinal position of the segment's centre.
    pub z: i64,
}

impl Placed for TrackSegment {
    open spec fn pos(&self) -> i64 {
        self.z
    }

    fn z(&self) -> (r: i64) {
        self.z
    }
}

/// The segments alive on the track, and those recycled from it.
pub struct TrackPool {
    pub available_segments: Vec<TrackSegment>,
    pub active_segments: Vec<TrackSegment>,
    pub max_pool_size: usize,
}

/// `s` is `n` rows of segments, row `r` holding lanes 0, 1 and 2 in that
/// order at position `base + r * SEGMENT_LENGTH`.
pub open spec fn rows_from(s: Seq<TrackSegment>, base: int, n: int) -> bool {
    &&& 0 <= n
    &&& s.len() == 3 * n
    &&& forall|r: int, l: int|
        0 <= r < n && 0 <= l < 3 ==> (#[trigger] s[3 * r + l]).track_index == l && s[3 * r + l].z
            == base + SEGMENT_LENGTH * r
}

/// `s` is a contiguous run of rows starting at or behind camera position `c`
/// and reaching more than sixty units, and less than the live window, ahead of it.
pub open spec fn window_ok(s: Seq<TrackSegment>, c: int) -> bool {
    exists|base: int, n: int|
        #[trigger] rows_from(s, base, n) && n > 0 && base <= c && c + 60_000 < base + SEGMENT_LENGTH * (
        n - 1) < c + LIVE_WINDOW && coord_ok(base) && coord_ok(base + SEGMENT_LENGTH * (n - 1))
}

/// The largest of camera position `c` and the positions of segments of `s`
/// that lie less than the live window ahead of it.
pub open spec fn furthest_in_window(s: Seq<TrackSegment>, c: i64) -> i64
    decreases s.len(),
{
    if s.len() == 0 {
        c
    } else {
        let m = furthest_in_window(s.drop_last(), c);
        let z = s.last().z;
        if z > m && z < c + LIVE_WINDOW {
            z
        } else {
            m
        }
    }
}

/// A row of three segments at `z`, numbered from `first_id`.
pub open spec fn row_at(first_id: int, z: i64) -> Seq<TrackSegment> {
    seq![
        TrackSegment { track_index: 0, segment_id: first_id as u32, z },
        TrackSegment { track_index: 1, segment_id: (first_id + 1) as u32, z },
        TrackSegment { track_index: 2, segment_id: (first_id + 2) as u32, z },
    ]
}

/// The active segments after extending at camera position `c`: when the
/// frontier is less than a hundred units ahead, one row one segment past it.
pub open spec fn extended(s: Seq<TrackSegment>, c: i64) -> Seq<TrackSegment> {
    let m = furthest_in_window(s, c);
    if m < c + EXTEND_AHEAD {
        s + row_at(s.len() as int, (m + SEGMENT_LENGTH) as i64)
    } else {
        s
    }
}

/// The active segments after recycling at camera position `c`.
pub open spec fn recycled(s: Seq<TrackSegment>, c: i64) -> Seq<TrackSegment> {
    s.filter(at_or_ahead::<TrackSegment>((c - SEGMENT_LENGTH) as i64))
}

/// The segments of the starting window, numbered from `first_id`: rows from
/// one segment behind the start to five ahead of it, lanes 0 to 2 in each row.
pub open spec fn window_from(first_id: int) -> Seq<TrackSegment> {
    Seq::new(
        21,
        |i: int|
            TrackSegment {
                track_index: (i % 3) as u8,
                segment_id: (first_id + i) as u32,
                z: (SEGMENT_LENGTH * (i / 3 - 1)) as i64,
            },
    )
}

/// The starting window of an empty pool.
pub open spec fn initial_window() -> Seq<TrackSegment> {
    window_from(0)
}

impl TrackPool {
    pub fn new(max_pool_size: usize) -> (r: TrackPool)
        ensures
            r.available_segments@.len() == 0,
            r.active_segments@.len() == 0,
            r.max_pool_size == max_pool_size,
    {
        TrackPool { available_segments: Vec::new(), active_segments: Vec::new(), max_pool_size }
    }
}

/// Records a segment of a lane at `z_position`.
pub fn spawn_track_segment(
    active: &mut Vec<TrackSegment>,
    track_index: u8,
    segment_id: u32,
    z_position: i64,
) -> (r: TrackSegment)
    ensures
        r == (TrackSegment { track_index, segment_id, z: z_position }),
        final(active)@ == old(active)@.push(r),
{
    let r = TrackSegment { track_index, segment_id, z: z_position };
    active.push(r);
    r
}

fn spawn_row(active: &mut Vec<TrackSegment>, z: i64) -> (row: Vec<TrackSegment>)
    ensures
        row@ == row_at(old(active)@.len() as int, z),
        final(active)@ == old(active)@ + row@,
{
    let ghost start = active@;
    let mut row: Vec<TrackSegment> = Vec::new();
    let mut lane: u8 = 0;
    while lane < 3
        invariant
            0 <= lane <= 3,
            row@ == row_at(start.len() as int, z).take(lane as int),
            active@ == start + row@,
        decreases 3 - lane,
    {
        let id = active.len() as u32;
        let seg = spawn_track_segment(active, lane, id, z);
        row.push(seg);
        assert(row_at(start.len() as int, z).take(lane + 1) =~= row_at(start.len() as int, z).take(
            lane as int,
        ).push(TrackSegment { track_index: lane, segment_id: id, z }));
        lane += 1;
    }
    assert(row_at(start.len() as int, z).take(3) =~= row_at(start.len() as int, z));
    row
}

/// Appends the starting window to the active segments: for segment offsets
/// -1 to 5, one segment on each lane, numbered on from the active count.
pub fn generate_track_segments(pool: &mut TrackPool)
    ensures
        final(pool).active_segments@ == old(pool).active_segments@ + window_from(
            old(pool).active_segments@.len() as int,
        ),
        final(pool).available_segments@ == old(pool).available_segments@,
        final(pool).max_pool_size == old(pool).max_pool_size,
{
    let ghost start = pool.active_segments@;
    let ghost window = window_from(start.len() as int);
    let mut offset: i64 = -1;
    while offset < 6
        invariant
            -1 <= offset <= 6,
            window == window_from(start.len() as int),
            pool.active_segments@ == start + window.take(3 * (offset + 1)),
            pool.available_segments@ == old(pool).available_segments@,
            pool.max_pool_size == old(pool).max_pool_size,
        decreases 6 - offset,
    {
        spawn_row(&mut pool.active_segments, offset * SEGMENT_LENGTH);
        assert(pool.active_segments@ =~= start + window.take(3 * (offset + 2)));
        offset += 1;
    }
    assert(window.take(21) =~= window);
}

/// Keeps a segment that stands behind `limit`.
pub open spec fn behind(limit: i64) -> spec_fn(TrackSegment) -> bool {
    |t: TrackSegment| t.z < limit
}

/// Removes from the active list every segment more than one segment length
/// behind the camera and moves it to the recycled list; the result marks,
/// index by index, the active segments removed.
pub fn recycle_track_segments(pool: &mut TrackPool, camera_z: i64) -> (removed: Vec<bool>)
    requires
        coord_ok(camera_z as int),
    ensures
        final(pool).active_segments@ == recycled(old(pool).active_segments@, camera_z),
        final(pool).available_segments@ == old(pool).available_segments@ + old(pool).active_segments@.filter(
            behind((camera_z - SEGMENT_LENGTH) as i64),
        ),
        final(pool).max_pool_size == old(pool).max_pool_size,
        removed@.len() == old(pool).active_segments@.len(),
        forall|i: int|
            0 <= i < removed@.len() ==> removed@[i] == (old(pool).active_segments@[i].z < camera_z - SEGMENT_LENGTH),
{
    let limit = camera_z - SEGMENT_LENGTH;
    let ghost orig = pool.active_segments@;
    let ghost spare = pool.available_segments@;
    let mut kept: Vec<TrackSegment> = Vec::new();
    let mut removed: Vec<bool> = Vec::new();
    let mut i: usize = 0;
    while i < pool.active_segments.len()
        invariant
            pool.active_segments@ == orig,
            pool.max_pool_size == old(pool).max_pool_size,
            0 <= i <= orig.len(),
            kept@ == orig.take(i as int).filter(at_or_ahead::<TrackSegment>(limit)),
            pool.available_segments@ == spare + orig.take(i as int).filter(behind(limit)),
            removed@.len() == i,
            forall|j: int| 0 <= j < i ==> removed@[j] == (orig[j].z < limit),
        decreases orig.len() - i,
    {
        proof {
            reveal(Seq::filter);
            assert(orig.take(i + 1).drop_last() =~= orig.take(i as int));
        }
        let seg = pool.active_segments[i];
        let gone = seg.z < limit;
        if gone {
            pool.available_segments.push(seg);
        } else {
            kept.push(seg);
        }
        removed.push(gone);
        i += 1;
    }
    assert(orig.take(orig.len() as int) =~= orig);
    pool.active_segments = kept;
    removed
}

/// Extends the pool at camera position `camera_z`. The frontier is the
/// furthest segment less than the live window ahead of the camera, or the
/// camera itself; while it is less than a hundred units ahead, one new row
/// is placed one segment length past it. Returns the segments placed.
pub fn extend_tracks_infinitely(pool: &mut TrackPool, camera_z: i64) -> (placed: Vec<TrackSegment>)
    requires
        player_pos_ok(camera_z as int),
    ensures
        final(pool).active_segments@ == extended(old(pool).active_segments@, camera_z),
        final(pool).active_segments@ == old(pool).active_segments@ + placed@,
        final(pool).available_segments@ == old(pool).available_segments@,
        final(pool).max_pool_size == old(pool).max_pool_size,
{
    let ghost orig = pool.active_segments@;
    let mut m = camera_z;
    let mut i: usize = 0;
    while i < pool.active_segments.len()
        invariant
            pool.active_segments@ == orig,
            player_pos_ok(camera_z as int),
            0 <= i <= orig.len(),
            m == furthest_in_window(orig.take(i as int), camera_z),
            camera_z <= m < camera_z + LIVE_WINDOW,
        decreases orig.len() - i,
    {
        assert(orig.take(i + 1).drop_last() =~= orig.take(i as int));
        let z = pool.active_segments[i].z;
        if z > m && z < camera_z + LIVE_WINDOW {
            m = z;
        }
        i += 1;
    }
    assert(orig.take(orig.len() as int) =~= orig);
    if m < camera_z + EXTEND_AHEAD {
        spawn_row(&mut pool.active_segments, m + SEGMENT_LENGTH)
    } else {
        let placed: Vec<TrackSegment> = Vec::new();
        assert(pool.active_segments@ =~= orig + placed@);
        placed
    }
}

/// The starting window is a contiguous run of seven rows from one segment
/// behind the start, and satisfies [`window_ok`] for the starting camera.
pub proof fn lemma_initial_window()
    ensures
        rows_from(initial_window(), -SEGMENT_LENGTH as int, 7),
        window_ok(initial_window(), START_CAMERA_Z as int),
{
    let s = initial_window();
    assert forall|r: int, l: int| 0 <= r < 7 && 0 <= l < 3 implies (#[trigger] s[3 * r + l]).track_index == l
        && s[3 * r + l].z == -SEGMENT_LENGTH + SEGMENT_LENGTH * r by {
        assert((3 * r + l) / 3 == r && (3 * r + l) % 3 == l) by (nonlinear_arith)
            requires
                0 <= l < 3,
        ;
    }
    assert(rows_from(s, -SEGMENT_LENGTH as int, 7));
}

/// Furthest segment in the live window, when every segment lies short of its far end.
proof fn lemma_window_frontier(s: Seq<TrackSegment>, c: i64)
    requires
        forall|i: int| 0 <= i < s.len() ==> (#[trigger] s[i]).z < c + LIVE_WINDOW,
    ensures
        furthest_in_window(s, c) >= c,
        forall|i: int| 0 <= i < s.len() ==> furthest_in_window(s, c) >= (#[trigger] s[i]).z,
        furthest_in_window(s, c) == c || exists|i: int| 0 <= i < s.len() && furthest_in_window(s, c) == (#[trigger] s[i]).z,
    decreases s.len(),
{
    if s.len() > 0 {
        let d = s.drop_last();
        assert forall|i: int| 0 <= i < d.len() implies (#[trigger] d[i]).z < c + LIVE_WINDOW by {
            assert(d[i] == s[i]);
        }
        lemma_window_frontier(d, c);
        let m = furthest_in_window(d, c);
        assert forall|i: int| 0 <= i < s.len() implies furthest_in_window(s, c) >= (#[trigger] s[i]).z by {
            if i < d.len() {
                assert(d[i] == s[i]);
            }
        }
        if furthest_in_window(s, c) != c && furthest_in_window(s, c) != s.last().z {
            let j = choose|j: int| 0 <= j < d.len() && m == (#[trigger] d[j]).z;
            assert(d[j] == s[j]);
        }
    }
}

/// Recycling a run of rows leaves the rows from the first that is not behind.
proof fn lemma_recycle_rows(s: Seq<TrackSegment>, base: int, n: int, limit: i64) -> (k: int)
    requires
        rows_from(s, base, n),
        n > 0,
        limit <= base + SEGMENT_LENGTH * (n - 1),
    ensures
        0 <= k < n,
        s.filter(at_or_ahead::<TrackSegment>(limit)) == s.subrange(3 * k, 3 * n),
        rows_from(s.subrange(3 * k, 3 * n), base + SEGMENT_LENGTH * k, n - k),
        k == 0 || base + SEGMENT_LENGTH * k < limit + SEGMENT_LENGTH,
{
    let k: int = if limit <= base {
        0
    } else {
        (limit - base + SEGMENT_LENGTH - 1) / (SEGMENT_LENGTH as int)
    };
    if limit > base {
        assert(SEGMENT_LENGTH * k >= limit - base && SEGMENT_LENGTH * k < limit - base + SEGMENT_LENGTH && k < n)
            by (nonlinear_arith)
            requires
                k == (limit - base + SEGMENT_LENGTH - 1) / (SEGMENT_LENGTH as int),
                limit > base,
                limit <= base + SEGMENT_LENGTH * (n - 1),
        ;
    }
    assert forall|i: int| 0 <= i < 3 * k implies (#[trigger] s[i]).pos() < limit by {
        let r = i / 3;
        let l = i % 3;
        assert(i == 3 * r + l && 0 <= l < 3 && r < k) by (nonlinear_arith)
            requires
                0 <= i < 3 * k,
                r == i / 3,
                l == i % 3,
        ;
        assert(s[3 * r + l].z == base + SEGMENT_LENGTH * r);
        assert(SEGMENT_LENGTH * r < SEGMENT_LENGTH * k - SEGMENT_LENGTH + 1) by (nonlinear_arith)
            requires
                r < k,
        ;
    }
    assert forall|i: int| 3 * k <= i < s.len() implies (#[trigger] s[i]).pos() >= limit by {
        let r = i / 3;
        let l = i % 3;
        assert(i == 3 * r + l && 0 <= l < 3 && k <= r < n) by (nonlinear_arith)
            requires
                3 * k <= i < 3 * n,
                r == i / 3,
                l == i % 3,
        ;
        assert(s[3 * r + l].z == base + SEGMENT_LENGTH * r);
        assert(SEGMENT_LENGTH * r >= SEGMENT_LENGTH * k) by (nonlinear_arith)
            requires
                r >= k,
        ;
    }
    lemma_filter_suffix(s, limit, 3 * k);
    let t = s.subrange(3 * k, 3 * n);
    assert forall|r: int, l: int| 0 <= r < n - k && 0 <= l < 3 implies (#[trigger] t[3 * r + l]).track_index == l
        && t[3 * r + l].z == base + SEGMENT_LENGTH * k + SEGMENT_LENGTH * r by {
        assert(t[3 * r + l] == s[3 * (r + k) + l]);
    }
    k
}

/// Each tick in which the camera moves forward by at most one segment length,
/// recycling and then extending the pool keeps it a contiguous run of rows,
/// one segment per lane and row, that starts at or behind the camera and
/// reaches more than sixty units ahead of it.
pub proof fn lemma_track_window_tick(s: Seq<TrackSegment>, c: i64, c2: i64)
    requires
        window_ok(s, c as int),
        c <= c2 <= c + SEGMENT_LENGTH,
        player_pos_ok(c2 as int),
    ensures
        window_ok(extended(recycled(s, c2), c2), c2 as int),
{
    let (base, n) = choose|base: int, n: int|
        #[trigger] rows_from(s, base, n) && n > 0 && base <= c && c + 60_000 < base + SEGMENT_LENGTH * (
        n - 1) < c + LIVE_WINDOW && coord_ok(base) && coord_ok(base + SEGMENT_LENGTH * (n - 1));
    let last = base + SEGMENT_LENGTH * (n - 1);
    let limit = (c2 - SEGMENT_LENGTH) as i64;
    let k = lemma_recycle_rows(s, base, n, limit);
    let t = recycled(s, c2);
    let b2 = base + SEGMENT_LENGTH * k;
    assert(t == s.subrange(3 * k, 3 * n));
    assert(rows_from(t, b2, n - k));
    assert(b2 + SEGMENT_LENGTH * (n - k - 1) == last) by (nonlinear_arith)
        requires
            b2 == base + SEGMENT_LENGTH * k,
            last == base + SEGMENT_LENGTH * (n - 1),
    ;
    assert forall|i: int| 0 <= i < t.len() implies (#[trigger] t[i]).z < c2 + LIVE_WINDOW by {
        let r = i / 3;
        let l = i % 3;
        assert(i == 3 * r + l && 0 <= l < 3 && 0 <= r < n - k) by (nonlinear_arith)
            requires
                0 <= i < 3 * (n - k),
                r == i / 3,
                l == i % 3,
        ;
        assert(t[3 * r + l].z == b2 + SEGMENT_LENGTH * r);
        assert(SEGMENT_LENGTH * r <= SEGMENT_LENGTH * (n - k - 1)) by (nonlinear_arith)
            requires
                r <= n - k - 1,
        ;
    }
    lemma_window_frontier(t, c2);
    let top = 3 * (n - k - 1);
    assert(t[top + 0].z == last);
    let m = furthest_in_window(t, c2);
    if m != c2 {
        let j = choose|j: int| 0 <= j < t.len() && m == (#[trigger] t[j]).z;
        let r = j / 3;
        let l = j % 3;
        assert(j == 3 * r + l && 0 <= l < 3 && 0 <= r < n - k) by (nonlinear_arith)
            requires
                0 <= j < 3 * (n - k),
                r == j / 3,
                l == j % 3,
        ;
        assert(t[3 * r + l].z == b2 + SEGMENT_LENGTH * r);
        assert(SEGMENT_LENGTH * r <= SEGMENT_LENGTH * (n - k - 1)) by (nonlinear_arith)
            requires
                r <= n - k - 1,
        ;
    }
    assert(m == last);
    let e = extended(t, c2);
    if m < c2 + EXTEND_AHEAD {
        let z = (m + SEGMENT_LENGTH) as i64;
        assert(e == t + row_at(t.len() as int, z));
        assert forall|r: int, l: int| 0 <= r < n - k + 1 && 0 <= l < 3 implies (#[trigger] e[3 * r + l]).track_index
            == l && e[3 * r + l].z == b2 + SEGMENT_LENGTH * r by {
            if r < n - k {
                assert(e[3 * r + l] == t[3 * r + l]);
            } else {
                assert(e[3 * r + l] == row_at(t.len() as int, z)[l]);
                assert(SEGMENT_LENGTH * r == SEGMENT_LENGTH * (n - k - 1) + SEGMENT_LENGTH) by (nonlinear_arith)
                    requires
                        r == n - k,
                ;
            }
        }
        assert(rows_from(e, b2, n - k + 1));
        assert(b2 + SEGMENT_LENGTH * (n - k + 1 - 1) == last + SEGMENT_LENGTH) by (nonlinear_arith)
            requires
                b2 + SEGMENT_LENGTH * (n - k - 1) == last,
        ;
    } else {
        assert(rows_from(e, b2, n - k));
    }
}

/// In a pool that satisfies [`window_ok`] for camera position `c`, every
/// lane has a segment under every position from the camera to sixty units
/// ahead of it: no lane has a gap there.
pub proof fn lemma_window_has_no_gaps(s: Seq<TrackSegment>, c: int, lane: int, p: int)
    requires
        window_ok(s, c),
        0 <= lane < 3,
        c <= p <= c + 60_000,
    ensures
        exists|i: int|
            0 <= i < s.len() && (#[trigger] s[i]).track_index == lane && s[i].z <= p < s[i].z + SEGMENT_LENGTH,
{
    let (base, n) = choose|base: int, n: int|
        #[trigger] rows_from(s, base, n) && n > 0 && base <= c && c + 60_000 < base + SEGMENT_LENGTH * (
        n - 1) < c + LIVE_WINDOW && coord_ok(base) && coord_ok(base + SEGMENT_LENGTH * (n - 1));
    let r = (p - base) / (SEGMENT_LENGTH as int);
    assert(base + SEGMENT_LENGTH * r <= p < base + SEGMENT_LENGTH * r + SEGMENT_LENGTH && 0 <= r < n)
        by (nonlinear_arith)
        requires
            r == (p - base) / (SEGMENT_LENGTH as int),
            base <= p,
            p < base + SEGMENT_LENGTH * (n - 1),
    ;
    assert(s[3 * r + lane].z == base + SEGMENT_LENGTH * r);
}

} // verus!
