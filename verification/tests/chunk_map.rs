use watch_party::disc::chunk_map::{build_chunk_map, snap_to_keyframe};
use watch_party::protocol::config::StreamConfig;

fn cfg(snap: bool) -> StreamConfig {
    StreamConfig { chunk_duration_ms: 2000, max_snap_delta_ms: 500, keyframe_snap: snap }
}

#[test]
fn no_keyframes_time_derived() {
    let map = build_chunk_map(10_000_000, &vec![], &cfg(true));
    assert_eq!(map.len(), 5);
    assert_eq!(map[0].pts_us, 0);
    assert_eq!(map[0].duration_us, 2_000_000);
    assert!(!map[0].keyframe_snapped);
}

#[test]
fn snaps_within_window() {
    // Target at 2.0 s; keyframe at 2.3 s, within the window of 500 ms.
    let keyframes = vec![0, 2_300_000, 4_000_000, 6_000_000, 8_000_000, 10_000_000];
    let map = build_chunk_map(10_000_000, &keyframes, &cfg(true));
    assert_eq!(map[1].pts_us, 2_300_000);
    assert!(map[1].keyframe_snapped);
    assert_eq!(map[1].snap_delta_ms, 300);
}

#[test]
fn no_snap_outside_window() {
    // Target at 2.0 s; nearest keyframe at 2.6 s, outside the window of 500 ms.
    let keyframes = vec![0, 2_600_000, 4_000_000];
    let map = build_chunk_map(6_000_000, &keyframes, &cfg(true));
    assert_eq!(map[1].pts_us, 2_000_000);
    assert!(!map[1].keyframe_snapped);
}

#[test]
fn durations_sum_to_total() {
    let keyframes = vec![0, 1_900_000, 4_100_000, 6_000_000, 8_000_000];
    let map = build_chunk_map(10_000_000, &keyframes, &cfg(true));
    let total: u64 = map.iter().map(|c| c.duration_us).sum();
    assert_eq!(total, 10_000_000);
}

#[test]
fn count_is_rounded_up() {
    assert_eq!(build_chunk_map(10_000_001, &vec![], &cfg(true)).len(), 6);
    assert_eq!(build_chunk_map(1, &vec![], &cfg(true)).len(), 1);
    assert_eq!(build_chunk_map(2_000_000, &vec![], &cfg(true)).len(), 1);
}

#[test]
fn no_media_no_chunks() {
    assert!(build_chunk_map(0, &vec![0], &cfg(true)).is_empty());
    assert!(build_chunk_map(-5, &vec![0], &cfg(true)).is_empty());
    let zero = StreamConfig { chunk_duration_ms: 0, max_snap_delta_ms: 0, keyframe_snap: true };
    assert!(build_chunk_map(0, &vec![], &zero).is_empty());
}

#[test]
fn last_chunk_runs_to_the_end() {
    let map = build_chunk_map(5_500_000, &vec![], &cfg(true));
    assert_eq!(map.len(), 3);
    assert_eq!(map[2].pts_us, 4_000_000);
    assert_eq!(map[2].duration_us, 1_500_000);
    assert_eq!(map[2].sequence, 2);
}

#[test]
fn snapping_can_be_switched_off() {
    let keyframes = vec![0, 2_300_000];
    let map = build_chunk_map(10_000_000, &keyframes, &cfg(false));
    assert_eq!(map[1].pts_us, 2_000_000);
    assert_eq!(map[1].snap_delta_ms, 0);
    assert!(map.iter().all(|c| !c.keyframe_snapped));
}

#[test]
fn snaps_to_the_nearer_side() {
    let keyframes = vec![1_700_000, 2_200_000];
    assert_eq!(snap_to_keyframe(2_000_000, &keyframes, 500_000), (2_200_000, 200, true));
    assert_eq!(snap_to_keyframe(1_800_000, &keyframes, 500_000), (1_700_000, -100, true));
}

#[test]
fn equal_distances_go_to_the_earlier() {
    let keyframes = vec![1_800_000, 2_200_000];
    assert_eq!(snap_to_keyframe(2_000_000, &keyframes, 500_000), (1_800_000, -200, true));
}

#[test]
fn window_includes_its_edge() {
    assert_eq!(snap_to_keyframe(2_000_000, &vec![2_500_000], 500_000), (2_500_000, 500, true));
    assert_eq!(snap_to_keyframe(2_000_000, &vec![2_500_001], 500_000), (2_000_000, 0, false));
}

#[test]
fn deltas_round_to_milliseconds() {
    assert_eq!(snap_to_keyframe(0, &vec![1_500], 500_000).1, 2);
    assert_eq!(snap_to_keyframe(2_000, &vec![500], 500_000).1, -2);
    assert_eq!(snap_to_keyframe(0, &vec![1_499], 500_000).1, 1);
}

#[test]
fn durations_never_go_below_zero() {
    // The last boundary snaps beyond the end of the media.
    let map = build_chunk_map(2_100_000, &vec![0, 2_400_000], &cfg(true));
    assert_eq!(map.len(), 2);
    assert_eq!(map[1].pts_us, 2_400_000);
    assert_eq!(map[1].duration_us, 0);
    assert_eq!(map[0].duration_us, 2_400_000);
}

#[test]
fn annotations_are_left_unset() {
    let map = build_chunk_map(4_000_000, &vec![], &cfg(true));
    for c in &map {
        assert!(c.byte_offset.is_none() && c.byte_length.is_none());
        assert!(!c.is_chapter_start && c.chapter_index.is_none() && c.chapter_title.is_none());
    }
}

#[test]
fn boundaries_stay_in_order() {
    let keyframes: Vec<i64> = (0..200).map(|i| i * 137_000).collect();
    let map = build_chunk_map(27_000_000, &keyframes, &cfg(true));
    for pair in map.windows(2) {
        assert!(pair[0].pts_us <= pair[1].pts_us);
        assert_eq!(pair[0].duration_us as i64, pair[1].pts_us - pair[0].pts_us);
    }
}
