//! The chunk map: where on the timeline each chunk starts and how long it is.
//!
//! Boundaries follow from time, so that a disc without chapter marks is cut as well as any other.
//! Each boundary may then move to the nearest keyframe within `max_snap_delta_ms`; one without a
//! keyframe in reach stays where it is. Chapter annotations are left unset.
use vstd::prelude::*;

use crate::protocol::config::StreamConfig;
use crate::protocol::manifest::ChunkBoundary;

verus! {

/// The distance between two positions.
pub open spec fn distance(a: int, b: int) -> int {
    if a <= b {
        b - a
    } else {
        a - b
    }
}

/// Keyframes stand in ascending order.
pub open spec fn ascending(keyframes: Seq<i64>) -> bool {
    forall|i: int, j: int| 0 <= i <= j < keyframes.len() ==> keyframes[i] <= keyframes[j]
}

/// The nearest whole number of milliseconds, a half rounded away from zero.
pub open spec fn nearest_ms(us: int) -> int {
    if us >= 0 {
        (us + 500) / 1000
    } else {
        -((-us + 500) / 1000)
    }
}

/// `n`, or the nearest number that an `i32` can hold.
pub open spec fn within_i32(n: int) -> int {
    if n < i32::MIN {
        i32::MIN as int
    } else if n > i32::MAX {
        i32::MAX as int
    } else {
        n
    }
}

/// Some keyframe lies within `window` of `target`.
pub open spec fn in_reach(target: int, keyframes: Seq<i64>, window: int) -> bool {
    exists|i: int| 0 <= i < keyframes.len() && distance(#[trigger] keyframes[i] as int, target) <= window
}

/// Where a binary search between `low` and `high` for the first keyframe at or after `target` ends.
pub open spec fn split_point(keyframes: Seq<i64>, target: int, low: int, high: int) -> int
    decreases high - low,
{
    if low < high {
        let mid = low + (high - low) / 2;
        if keyframes[mid] < target {
            split_point(keyframes, target, mid + 1, high)
        } else {
            split_point(keyframes, target, low, mid)
        }
    } else {
        low
    }
}

/// The keyframe that a boundary at `target` may move to: the nearer one of the two where the search
/// ends, the first of them where they are equally near.
pub open spec fn neighbour(target: int, keyframes: Seq<i64>) -> Option<i64> {
    let at = split_point(keyframes, target, 0, keyframes.len() as int);
    if 0 < at < keyframes.len() {
        if distance(keyframes[at] as int, target) < distance(keyframes[at - 1] as int, target) {
            Some(keyframes[at])
        } else {
            Some(keyframes[at - 1])
        }
    } else if 0 < at <= keyframes.len() {
        Some(keyframes[at - 1])
    } else if 0 <= at < keyframes.len() {
        Some(keyframes[at])
    } else {
        None
    }
}

/// A boundary at `target` does not move.
pub open spec fn stays(target: int, r: (i64, i32, bool)) -> bool {
    r.0 == target && r.1 == 0 && !r.2
}

/// `(pts, delta_ms, snapped)` is what becomes of a boundary at `target`.
///
/// A boundary that does not move stays at `target`; one that moves goes to a keyframe within
/// `window`, and `delta_ms` is how far it went. Where the keyframes are in ascending order, it
/// moves whenever one is in reach, and goes to the nearest; of two at the same distance, to the
/// earlier. In any order, the keyframe that counts is the `neighbour` of `target`.
pub open spec fn snaps(
    target: int,
    keyframes: Seq<i64>,
    window: int,
    r: (i64, i32, bool),
) -> bool {
    &&& !r.2 ==> stays(target, r)
    &&& r.2 ==> {
        &&& keyframes.contains(r.0)
        &&& distance(r.0 as int, target) <= window
        &&& r.1 == within_i32(nearest_ms(r.0 - target))
    }
    &&& ascending(keyframes) ==> {
        &&& r.2 == in_reach(target, keyframes, window)
        &&& r.2 ==> forall|i: int|
            0 <= i < keyframes.len() ==> {
                let d = distance(#[trigger] keyframes[i] as int, target);
                let chosen = distance(r.0 as int, target);
                chosen < d || (chosen == d && r.0 <= keyframes[i])
            }
    }
    &&& match neighbour(target, keyframes) {
        Some(kf) => r.2 == (distance(kf as int, target) <= window) && (r.2 ==> r.0 == kf),
        None => !r.2,
    }
}

/// Microseconds in a chunk.
pub open spec fn chunk_us(config: StreamConfig) -> int {
    config.chunk_duration_ms * 1000
}

/// How many chunks a duration takes: the duration over that of a chunk, rounded up.
pub open spec fn chunk_count(duration_us: int, chunk_us: int) -> nat {
    if duration_us <= 0 {
        0
    } else {
        ((duration_us + chunk_us - 1) / chunk_us) as nat
    }
}

/// Where the chunk after the one at `i` starts: the last one runs to the end of the media.
pub open spec fn next_pts(map: Seq<ChunkBoundary>, duration_us: int, i: int) -> int {
    if i + 1 < map.len() {
        map[i + 1].pts_us as int
    } else {
        duration_us
    }
}

/// `b` is the boundary of chunk `i`, its duration left open.
pub open spec fn boundary_at(
    b: ChunkBoundary,
    i: int,
    keyframes: Seq<i64>,
    config: StreamConfig,
) -> bool {
    let target = i * chunk_us(config);
    let place = (b.pts_us, b.snap_delta_ms, b.keyframe_snapped);
    &&& b.sequence == i
    &&& if config.keyframe_snap {
        snaps(target, keyframes, config.max_snap_delta_ms * 1000, place)
    } else {
        stays(target, place)
    }
    &&& b.byte_offset is None
    &&& b.byte_length is None
    &&& !b.is_chapter_start
    &&& b.chapter_index is None
    &&& b.chapter_title is None
}

/// `map` is the chunk map of media of the given duration.
pub open spec fn is_chunk_map(
    map: Seq<ChunkBoundary>,
    duration_us: int,
    keyframes: Seq<i64>,
    config: StreamConfig,
) -> bool {
    &&& map.len() == chunk_count(duration_us, chunk_us(config))
    &&& forall|i: int| 0 <= i < map.len() ==> boundary_at(#[trigger] map[i], i, keyframes, config)
    &&& forall|i: int|
        0 <= i < map.len() ==> {
            map[i].duration_us == positive(
                next_pts(map, duration_us, i) - (#[trigger] map[i]).pts_us,
            )
        }
}

/// The index of the first keyframe at or after `target`, where keyframes are in ascending order.
fn first_at_or_after(keyframes: &Vec<i64>, target: i64) -> (r: usize)
    ensures
        r <= keyframes.len(),
        r == split_point(keyframes@, target as int, 0, keyframes@.len() as int),
        ascending(keyframes@) ==> {
            &&& forall|i: int| 0 <= i < r ==> #[trigger] keyframes@[i] < target
            &&& forall|i: int| r <= i < keyframes.len() ==> #[trigger] keyframes@[i] >= target
        },
{
    let mut low: usize = 0;
    let mut high: usize = keyframes.len();
    while low < high
        invariant
            low <= high <= keyframes.len(),
            split_point(keyframes@, target as int, 0, keyframes@.len() as int) == split_point(
                keyframes@,
                target as int,
                low as int,
                high as int,
            ),
            ascending(keyframes@) ==> {
                &&& forall|i: int| 0 <= i < low ==> #[trigger] keyframes@[i] < target
                &&& forall|i: int| high <= i < keyframes.len() ==> #[trigger] keyframes@[i] >= target
            },
        decreases high - low,
    {
        let mid: usize = low + (high - low) / 2;
        if keyframes[mid] < target {
            low = mid + 1;
        } else {
            high = mid;
        }
    }
    low
}

fn gap(a: i64, b: i64) -> (r: i128)
    ensures
        r == distance(a as int, b as int),
{
    if a <= b {
        b as i128 - a as i128
    } else {
        a as i128 - b as i128
    }
}

/// How far a boundary moved, in milliseconds.
fn delta_ms(from: i64, to: i64) -> (r: i32)
    ensures
        r == within_i32(nearest_ms(to - from)),
{
    let us: i128 = to as i128 - from as i128;
    let ms: i128 = if us >= 0 {
        (us + 500) / 1000
    } else {
        -((-us + 500) / 1000)
    };
    if ms < i32::MIN as i128 {
        i32::MIN
    } else if ms > i32::MAX as i128 {
        i32::MAX
    } else {
        ms as i32
    }
}

/// The nearest keyframe to `target` within `window_us`, as `(pts, delta_ms, snapped)`.
pub fn snap_to_keyframe(target: i64, keyframes: &Vec<i64>, window_us: i64) -> (r: (i64, i32, bool))
    ensures
        snaps(target as int, keyframes@, window_us as int, r),
{
    let at = first_at_or_after(keyframes, target);
    let best: Option<i64> = if at > 0 && at < keyframes.len() {
        if gap(keyframes[at], target) < gap(keyframes[at - 1], target) {
            Some(keyframes[at])
        } else {
            Some(keyframes[at - 1])
        }
    } else if at > 0 {
        Some(keyframes[at - 1])
    } else if at < keyframes.len() {
        Some(keyframes[at])
    } else {
        None
    };
    match best {
        Some(kf) => {
            assert(keyframes@.contains(kf));
            if gap(kf, target) <= window_us as i128 {
                (kf, delta_ms(target, kf), true)
            } else {
                (target, 0, false)
            }
        },
        None => (target, 0, false),
    }
}

/// The chunk map of media of the given duration.
///
/// `keyframes` are the positions of keyframes in ascending order; without any, nothing snaps.
pub fn build_chunk_map(duration_us: i64, keyframes: &Vec<i64>, config: &StreamConfig) -> (r: Vec<
    ChunkBoundary,
>)
    requires
        duration_us > 0 ==> config.chunk_duration_ms > 0,
    ensures
        is_chunk_map(r@, duration_us as int, keyframes@, *config),
{
    let chunk: i64 = config.chunk_duration_ms as i64 * 1000;
    let window: i64 = config.max_snap_delta_ms as i64 * 1000;
    let total: u64 = if duration_us <= 0 {
        0
    } else {
        proof {
            lemma_ceiling(duration_us as int, chunk as int);
        }
        ((duration_us - 1) / chunk + 1) as u64
    };
    assert(total == chunk_count(duration_us as int, chunk as int));

    // Where each chunk starts.
    let mut places: Vec<(i64, i32, bool)> = Vec::new();
    let mut seq: u64 = 0;
    while seq < total
        invariant
            seq <= total,
            seq == places.len(),
            total == chunk_count(duration_us as int, chunk as int),
            chunk == chunk_us(*config),
            window == config.max_snap_delta_ms * 1000,
            duration_us > 0 ==> chunk > 0,
            forall|i: int|
                0 <= i < places.len() ==> if config.keyframe_snap {
                    snaps(i * chunk, keyframes@, window as int, #[trigger] places@[i])
                } else {
                    stays(i * chunk, places@[i])
                },
        decreases total - seq,
    {
        proof {
            lemma_target(duration_us as int, chunk as int, seq as int);
        }
        let target: i64 = (seq as i128 * chunk as i128) as i64;
        let place = if config.keyframe_snap {
            snap_to_keyframe(target, keyframes, window)
        } else {
            (target, 0, false)
        };
        places.push(place);
        seq = seq + 1;
    }

    // How long each chunk is: up to the start of the next one, or the end of the media.
    let mut map: Vec<ChunkBoundary> = Vec::new();
    let mut i: usize = 0;
    while i < places.len()
        invariant
            i <= places.len(),
            i == map.len(),
            places.len() == total,
            total == chunk_count(duration_us as int, chunk as int),
            chunk == chunk_us(*config),
            window == config.max_snap_delta_ms * 1000,
            forall|j: int|
                0 <= j < places.len() ==> if config.keyframe_snap {
                    snaps(j * chunk, keyframes@, window as int, #[trigger] places@[j])
                } else {
                    stays(j * chunk, places@[j])
                },
            forall|j: int|
                0 <= j < i ==> boundary_at(#[trigger] map@[j], j, keyframes@, *config)
                    && map@[j].pts_us == places@[j].0 && map@[j].duration_us == positive(
                    (if j + 1 < places.len() {
                        places@[j + 1].0
                    } else {
                        duration_us
                    }) - places@[j].0,
                ),
        decreases places.len() - i,
    {
        let (pts_us, snap_delta_ms, keyframe_snapped) = places[i];
        let next: i64 = if i + 1 < places.len() {
            places[i + 1].0
        } else {
            duration_us
        };
        let length: i128 = next as i128 - pts_us as i128;
        let boundary = ChunkBoundary {
            sequence: i as u64,
            pts_us,
            duration_us: if length > 0 {
                length as u64
            } else {
                0
            },
            byte_offset: None,
            byte_length: None,
            keyframe_snapped,
            snap_delta_ms,
            is_chapter_start: false,
            chapter_index: None,
            chapter_title: None,
        };
        map.push(boundary);
        i = i + 1;
    }
    map
}

/// `n`, or nothing where it is negative.
pub open spec fn positive(n: int) -> int {
    if n > 0 {
        n
    } else {
        0
    }
}

proof fn lemma_ceiling(duration: int, chunk: int)
    requires
        duration > 0,
        chunk > 0,
    ensures
        (duration + chunk - 1) / chunk == (duration - 1) / chunk + 1,
        0 <= (duration - 1) / chunk <= duration - 1,
{
    vstd::arithmetic::div_mod::lemma_div_plus_one(duration - 1, chunk);
    vstd::arithmetic::div_mod::lemma_div_nonincreasing(duration - 1, chunk);
    vstd::arithmetic::div_mod::lemma_div_pos_is_pos(duration - 1, chunk);
}

/// Every chunk starts before the media ends.
proof fn lemma_target(duration: int, chunk: int, seq: int)
    requires
        0 <= seq < chunk_count(duration, chunk),
        chunk > 0,
    ensures
        0 <= seq * chunk < duration,
{
    lemma_ceiling(duration, chunk);
    let q = (duration - 1) / chunk;
    vstd::arithmetic::div_mod::lemma_fundamental_div_mod(duration - 1, chunk);
    assert(0 <= seq * chunk <= chunk * q) by (nonlinear_arith)
        requires
            0 <= seq <= q,
            chunk > 0,
    ;
}

// ── Laws ──────────────────────────────────────────────────────────────────────

/// The durations of all chunks, added up.
pub open spec fn total_duration(map: Seq<ChunkBoundary>) -> int
    decreases map.len(),
{
    if map.len() == 0 {
        0
    } else {
        total_duration(map.drop_last()) + map.last().duration_us
    }
}

/// A boundary stays within `max_snap_delta_ms` of the time it was derived from, and `snap_delta_ms`
/// says how far it moved.
pub proof fn law_boundaries_stay_near(
    map: Seq<ChunkBoundary>,
    duration_us: int,
    keyframes: Seq<i64>,
    config: StreamConfig,
    i: int,
)
    requires
        is_chunk_map(map, duration_us, keyframes, config),
        0 <= i < map.len(),
    ensures
        distance(map[i].pts_us as int, i * chunk_us(config)) <= config.max_snap_delta_ms * 1000,
        map[i].snap_delta_ms == within_i32(nearest_ms(map[i].pts_us - i * chunk_us(config))),
        map[i].snap_delta_ms < 0 ==> map[i].pts_us < i * chunk_us(config),
        map[i].snap_delta_ms > 0 ==> map[i].pts_us > i * chunk_us(config),
        !map[i].keyframe_snapped ==> map[i].pts_us == i * chunk_us(config),
        map[i].keyframe_snapped ==> config.keyframe_snap && keyframes.contains(map[i].pts_us),
{
    assert(boundary_at(map[i], i, keyframes, config));
}

/// The chunk map is a function of the duration, the keyframes and the configuration; with snapping
/// off, of the duration and the configuration alone.
pub proof fn law_chunk_map_is_determined(
    a: Seq<ChunkBoundary>,
    b: Seq<ChunkBoundary>,
    duration_us: int,
    keyframes_a: Seq<i64>,
    keyframes_b: Seq<i64>,
    config: StreamConfig,
)
    requires
        is_chunk_map(a, duration_us, keyframes_a, config),
        is_chunk_map(b, duration_us, keyframes_b, config),
        keyframes_a == keyframes_b || !config.keyframe_snap,
    ensures
        a == b,
{
    assert forall|i: int| 0 <= i < a.len() implies (#[trigger] a[i]).pts_us == b[i].pts_us by {
        assert(boundary_at(a[i], i, keyframes_a, config));
        assert(boundary_at(b[i], i, keyframes_b, config));
    }
    assert forall|i: int| 0 <= i < a.len() implies #[trigger] a[i] == b[i] by {
        assert(boundary_at(a[i], i, keyframes_a, config));
        assert(boundary_at(b[i], i, keyframes_b, config));
        assert(next_pts(a, duration_us, i) == next_pts(b, duration_us, i)) by {
            if i + 1 < a.len() {
                assert(a[i + 1].pts_us == b[i + 1].pts_us);
            }
        }
    }
    assert(a =~= b);
}

/// Two neighbouring boundaries keep their order, although each is snapped on its own.
proof fn lemma_neighbours_in_order(
    map: Seq<ChunkBoundary>,
    duration_us: int,
    keyframes: Seq<i64>,
    config: StreamConfig,
    i: int,
)
    requires
        is_chunk_map(map, duration_us, keyframes, config),
        config.keyframe_snap ==> ascending(keyframes),
        0 <= i,
        i + 1 < map.len(),
    ensures
        map[i].pts_us <= map[i + 1].pts_us,
{
    let a = map[i];
    let b = map[i + 1];
    let ta = i * chunk_us(config);
    let tb = (i + 1) * chunk_us(config);
    let window = config.max_snap_delta_ms * 1000;
    assert(boundary_at(a, i, keyframes, config));
    assert(boundary_at(b, i + 1, keyframes, config));
    assert(ta <= tb) by (nonlinear_arith)
        requires
            ta == i * chunk_us(config),
            tb == (i + 1) * chunk_us(config),
            chunk_us(config) >= 0,
    ;
    if config.keyframe_snap && a.pts_us > b.pts_us {
        if a.keyframe_snapped {
            let k = keyframes.index_of(a.pts_us);
            assert(keyframes[k] == a.pts_us);
            if b.keyframe_snapped {
                let l = keyframes.index_of(b.pts_us);
                assert(keyframes[l] == b.pts_us);
            } else {
                assert(distance(keyframes[k] as int, tb) <= window);
            }
        } else if b.keyframe_snapped {
            let l = keyframes.index_of(b.pts_us);
            assert(keyframes[l] == b.pts_us);
            assert(distance(keyframes[l] as int, ta) <= window);
        }
    }
}

/// Chunks start in the order of their sequence numbers.
pub proof fn law_boundaries_in_order(
    map: Seq<ChunkBoundary>,
    duration_us: int,
    keyframes: Seq<i64>,
    config: StreamConfig,
    i: int,
    j: int,
)
    requires
        is_chunk_map(map, duration_us, keyframes, config),
        config.keyframe_snap ==> ascending(keyframes),
        0 <= i <= j < map.len(),
    ensures
        map[i].pts_us <= map[j].pts_us,
    decreases j - i,
{
    if i < j {
        law_boundaries_in_order(map, duration_us, keyframes, config, i, j - 1);
        lemma_neighbours_in_order(map, duration_us, keyframes, config, j - 1);
    }
}

/// The chunks before the one at `n` reach exactly to where it starts.
proof fn lemma_durations_telescope(
    map: Seq<ChunkBoundary>,
    duration_us: int,
    keyframes: Seq<i64>,
    config: StreamConfig,
    n: int,
)
    requires
        is_chunk_map(map, duration_us, keyframes, config),
        config.keyframe_snap ==> ascending(keyframes),
        0 <= n < map.len(),
    ensures
        total_duration(map.take(n)) == map[n].pts_us - map[0].pts_us,
    decreases n,
{
    if n > 0 {
        lemma_durations_telescope(map, duration_us, keyframes, config, n - 1);
        lemma_neighbours_in_order(map, duration_us, keyframes, config, n - 1);
        assert(map.take(n).drop_last() =~= map.take(n - 1));
        assert(map.take(n).last() == map[n - 1]);
    }
}

/// The durations add up to the media from the first boundary on: they leave no gap and do not
/// overlap. A last boundary that snapped beyond the end of the media ends the sum where it stands.
pub proof fn law_durations_cover_media(
    map: Seq<ChunkBoundary>,
    duration_us: int,
    keyframes: Seq<i64>,
    config: StreamConfig,
)
    requires
        is_chunk_map(map, duration_us, keyframes, config),
        config.keyframe_snap ==> ascending(keyframes),
        map.len() > 0,
    ensures
        total_duration(map) == (if map.last().pts_us > duration_us {
            map.last().pts_us as int
        } else {
            duration_us
        }) - map[0].pts_us,
{
    let last = map.len() - 1;
    lemma_durations_telescope(map, duration_us, keyframes, config, last);
    assert(map.drop_last() =~= map.take(last));
    assert(map[last].duration_us == positive(next_pts(map, duration_us, last) - map[last].pts_us));
}

/// The durations add up to that of the media wherever the first chunk starts at zero and the last
/// one starts within the media.
pub proof fn law_durations_sum_to_total(
    map: Seq<ChunkBoundary>,
    duration_us: int,
    keyframes: Seq<i64>,
    config: StreamConfig,
)
    requires
        is_chunk_map(map, duration_us, keyframes, config),
        config.keyframe_snap ==> ascending(keyframes),
        map.len() > 0,
        map[0].pts_us == 0,
        map.last().pts_us <= duration_us,
    ensures
        total_duration(map) == duration_us,
{
    law_durations_cover_media(map, duration_us, keyframes, config);
}

/// Without keyframes, or with snapping switched off, boundaries are multiples of the chunk duration
/// and the durations add up to that of the media.
pub proof fn law_unsnapped_map_follows_time(
    map: Seq<ChunkBoundary>,
    duration_us: int,
    keyframes: Seq<i64>,
    config: StreamConfig,
)
    requires
        is_chunk_map(map, duration_us, keyframes, config),
        duration_us > 0,
        config.chunk_duration_ms > 0,
        !config.keyframe_snap || keyframes.len() == 0,
    ensures
        forall|i: int|
            0 <= i < map.len() ==> (#[trigger] map[i]).pts_us == i * chunk_us(config)
                && !map[i].keyframe_snapped,
        total_duration(map) == duration_us,
{
    assert forall|i: int| 0 <= i < map.len() implies (#[trigger] map[i]).pts_us == i * chunk_us(
        config,
    ) && !map[i].keyframe_snapped by {
        assert(boundary_at(map[i], i, keyframes, config));
    }
    lemma_ceiling(duration_us, chunk_us(config));
    assert(map.len() > 0);
    assert(map[0].pts_us == 0 * chunk_us(config));
    let last = map.len() - 1;
    assert(map[last].pts_us == last * chunk_us(config));
    lemma_target(duration_us, chunk_us(config), last);
    law_durations_sum_to_total(map, duration_us, keyframes, config);
}

/// The chunk map has one entry for each started chunk duration: one chunk fewer would not cover the
/// media.
pub proof fn law_chunk_count_is_least(duration_us: int, chunk: int)
    requires
        duration_us > 0,
        chunk > 0,
    ensures
        chunk_count(duration_us, chunk) * chunk >= duration_us,
        (chunk_count(duration_us, chunk) - 1) * chunk < duration_us,
        chunk_count(duration_us, chunk) >= 1,
{
    lemma_ceiling(duration_us, chunk);
    let q = (duration_us - 1) / chunk;
    vstd::arithmetic::div_mod::lemma_fundamental_div_mod(duration_us - 1, chunk);
    vstd::arithmetic::div_mod::lemma_mod_bound(duration_us - 1, chunk);
    assert((q + 1) * chunk == chunk * q + chunk) by (nonlinear_arith);
    assert(q * chunk == chunk * q) by (nonlinear_arith);
}

/// A snap finds the nearest keyframe. Of keyframes in ascending order, one within the window means
/// that the boundary moves to a keyframe within the window that no other is nearer than, and to the
/// first of two that are equally near; no keyframe within the window means that it stays. How far it
/// moved is told to the nearest millisecond.
pub proof fn law_snap_finds_the_nearest(
    target: int,
    keyframes: Seq<i64>,
    window: int,
    r: (i64, i32, bool),
)
    requires
        snaps(target, keyframes, window, r),
        forall|i: int, j: int|
            0 <= i <= j < keyframes.len() ==> #[trigger] keyframes[i] <= #[trigger] keyframes[j],
    ensures
        r.2 <==> exists|k: int|
            0 <= k < keyframes.len() && -window <= #[trigger] keyframes[k] - target <= window,
        r.2 ==> -window <= r.0 - target <= window,
        r.2 ==> exists|k: int| 0 <= k < keyframes.len() && #[trigger] keyframes[k] == r.0,
        r.2 ==> forall|k: int|
            0 <= k < keyframes.len() ==> {
                let d = #[trigger] keyframes[k] - target;
                let moved = r.0 - target;
                d * d > moved * moved || (d * d == moved * moved && r.0 <= keyframes[k])
            },
        !r.2 ==> r.0 == target && r.1 == 0,
        r.2 && -2_000_000_000_000 < r.0 - target < 2_000_000_000_000 ==> -500 <= 1000 * r.1 - (r.0
            - target) <= 500,
        r.0 == target ==> r.1 == 0,
{
    if r.2 {
        assert(in_reach(target, keyframes, window));
        let c = keyframes.index_of(r.0);
        assert(0 <= c < keyframes.len() && keyframes[c] == r.0);
        assert forall|k: int| 0 <= k < keyframes.len() implies {
            let d = #[trigger] keyframes[k] - target;
            let moved = r.0 - target;
            d * d > moved * moved || (d * d == moved * moved && r.0 <= keyframes[k])
        } by {
            let d = keyframes[k] - target;
            let moved = r.0 - target;
            let e = distance(keyframes[k] as int, target);
            let f = distance(r.0 as int, target);
            assert(d * d == e * e) by (nonlinear_arith)
                requires
                    d == e || d == -e,
            ;
            assert(moved * moved == f * f) by (nonlinear_arith)
                requires
                    moved == f || moved == -f,
            ;
            assert(f < e ==> f * f < e * e) by (nonlinear_arith)
                requires
                    0 <= f,
                    0 <= e,
            ;
        }
    } else {
        assert(!in_reach(target, keyframes, window));
        assert forall|k: int| 0 <= k < keyframes.len() implies !(-window <= #[trigger] keyframes[k]
            - target <= window) by {
            assert(distance(keyframes[k] as int, target) > window);
        }
    }
}

/// Every boundary of a chunk map is snapped to the nearest keyframe within `max_snap_delta_ms` of the
/// time that it is derived from, whenever there is one, and stays at that time where there is none
/// or snapping is off.
pub proof fn law_boundaries_snap_to_the_nearest(
    map: Seq<ChunkBoundary>,
    duration_us: int,
    keyframes: Seq<i64>,
    config: StreamConfig,
    i: int,
)
    requires
        is_chunk_map(map, duration_us, keyframes, config),
        forall|a: int, b: int|
            0 <= a <= b < keyframes.len() ==> #[trigger] keyframes[a] <= #[trigger] keyframes[b],
        0 <= i < map.len(),
    ensures
        ({
            let target = i * (config.chunk_duration_ms * 1000);
            let window = config.max_snap_delta_ms * 1000;
            let moved = map[i].pts_us - target;
            &&& map[i].keyframe_snapped <==> config.keyframe_snap && exists|k: int|
                0 <= k < keyframes.len() && -window <= #[trigger] keyframes[k] - target <= window
            &&& map[i].keyframe_snapped ==> {
                &&& exists|k: int| 0 <= k < keyframes.len() && #[trigger] keyframes[k] == map[i].pts_us
                &&& forall|k: int|
                    0 <= k < keyframes.len() ==> {
                        let d = #[trigger] keyframes[k] - target;
                        d * d > moved * moved || (d * d == moved * moved && map[i].pts_us
                            <= keyframes[k])
                    }
            }
            &&& !map[i].keyframe_snapped ==> moved == 0 && map[i].snap_delta_ms == 0
            &&& -2_000_000_000_000 < moved < 2_000_000_000_000 ==> -500 <= 1000
                * map[i].snap_delta_ms - moved <= 500
        }),
{
    assert(boundary_at(map[i], i, keyframes, config));
    let target = i * (config.chunk_duration_ms * 1000);
    let place = (map[i].pts_us, map[i].snap_delta_ms, map[i].keyframe_snapped);
    if config.keyframe_snap {
        law_snap_finds_the_nearest(target, keyframes, config.max_snap_delta_ms * 1000, place);
    }
}

/// A chunk map has as many chunks as the media takes and no more, numbered in order, without any
/// annotation; media without a duration has none.
pub proof fn law_map_has_the_chunks_it_takes(
    map: Seq<ChunkBoundary>,
    duration_us: int,
    keyframes: Seq<i64>,
    config: StreamConfig,
)
    requires
        is_chunk_map(map, duration_us, keyframes, config),
        duration_us > 0 ==> config.chunk_duration_ms > 0,
    ensures
        map.len() == 0 <==> duration_us <= 0,
        duration_us > 0 ==> map.len() * (config.chunk_duration_ms * 1000) >= duration_us,
        duration_us > 0 ==> (map.len() - 1) * (config.chunk_duration_ms * 1000) < duration_us,
        forall|i: int|
            0 <= i < map.len() ==> {
                &&& (#[trigger] map[i]).sequence == i
                &&& map[i].byte_offset is None
                &&& map[i].byte_length is None
                &&& !map[i].is_chapter_start
                &&& map[i].chapter_index is None
                &&& map[i].chapter_title is None
            },
{
    if duration_us > 0 {
        law_chunk_count_is_least(duration_us, config.chunk_duration_ms * 1000);
    }
    assert forall|i: int| 0 <= i < map.len() implies {
        &&& (#[trigger] map[i]).sequence == i
        &&& map[i].byte_offset is None
        &&& map[i].byte_length is None
        &&& !map[i].is_chapter_start
        &&& map[i].chapter_index is None
        &&& map[i].chapter_title is None
    } by {
        assert(boundary_at(map[i], i, keyframes, config));
    }
}

/// Chunks meet without gap or overlap: each ends where the next one starts, and the last one where
/// the media ends, unless it starts behind that.
pub proof fn law_chunks_meet(
    map: Seq<ChunkBoundary>,
    duration_us: int,
    keyframes: Seq<i64>,
    config: StreamConfig,
    i: int,
)
    requires
        is_chunk_map(map, duration_us, keyframes, config),
        forall|a: int, b: int|
            0 <= a <= b < keyframes.len() ==> #[trigger] keyframes[a] <= #[trigger] keyframes[b],
        0 <= i < map.len(),
    ensures
        i + 1 < map.len() ==> map[i].pts_us + map[i].duration_us == map[i + 1].pts_us,
        i + 1 == map.len() && map[i].pts_us <= duration_us ==> map[i].pts_us + map[i].duration_us
            == duration_us,
        i + 1 == map.len() && map[i].pts_us > duration_us ==> map[i].duration_us == 0,
{
    if i + 1 < map.len() {
        law_boundaries_in_order(map, duration_us, keyframes, config, i, i + 1);
    }
    assert(map[i].duration_us == positive(next_pts(map, duration_us, i) - map[i].pts_us));
}

} // verus!
