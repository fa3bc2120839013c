use omt_audio_out::output::recently;
use omt_audio_out::pcm::{
    decode_planes, limit_planes, limit_sample, packet_is_complete, plane_peak,
};
use omt_audio_out::resample::{
    resample_interleaved, resampled_frames, source_index, source_offset, Blend,
};
use omt_audio_out::ring::{push_samples, take_samples, RING_CAP_SAMPLES};
use omt_audio_out::timeline::{consume_pts_frames, PtsRun};
use std::collections::VecDeque;

fn run(pts_start: i64, pts_duration: i64, frames_total: u64) -> PtsRun {
    PtsRun {
        pts_start,
        pts_duration,
        frames_total,
        frames_consumed: 0,
    }
}

#[test]
fn playing_in_parts_is_playing_at_once() {
    let runs = VecDeque::from(vec![run(0, 100, 3), run(1_000, 10, 4), run(-50, 7, 2)]);
    for a in 0..=9u64 {
        for b in 0..=9u64 {
            let mut parts = runs.clone();
            let mut parts_head = None;
            consume_pts_frames(&mut parts, a, &mut parts_head);
            consume_pts_frames(&mut parts, b, &mut parts_head);
            let mut whole = runs.clone();
            let mut whole_head = None;
            consume_pts_frames(&mut whole, a + b, &mut whole_head);
            assert_eq!(parts, whole);
            assert_eq!(parts_head, whole_head);
        }
    }
}

#[test]
fn playhead_marks_are_rounded_down() {
    let mut runs = VecDeque::from(vec![run(10, 100, 3)]);
    let mut head = Some(-1);
    consume_pts_frames(&mut runs, 0, &mut head);
    assert_eq!(head, Some(-1));
    consume_pts_frames(&mut runs, 1, &mut head);
    assert_eq!(head, Some(43));
    consume_pts_frames(&mut runs, 1, &mut head);
    assert_eq!(head, Some(76));
    consume_pts_frames(&mut runs, 5, &mut head);
    assert_eq!(head, Some(110));
    assert!(runs.is_empty());
    consume_pts_frames(&mut runs, 1, &mut head);
    assert_eq!(head, Some(110));
}

#[test]
fn exhausted_runs_are_skipped() {
    let mut spent = run(0, 10, 2);
    spent.frames_consumed = 2;
    let mut runs = VecDeque::from(vec![spent, run(500, 10, 2)]);
    let mut head = None;
    consume_pts_frames(&mut runs, 1, &mut head);
    assert_eq!(head, Some(505));
    assert_eq!(runs.len(), 1);
}

#[test]
fn huge_products_saturate() {
    let mut runs = VecDeque::from(vec![run(0, i64::MAX, 4)]);
    let mut head = None;
    consume_pts_frames(&mut runs, 3, &mut head);
    assert_eq!(head, Some(i64::MAX / 4));
}

#[test]
fn ring_keeps_the_newest_samples() {
    let mut ring = VecDeque::new();
    let fill: Vec<u32> = (0..RING_CAP_SAMPLES as u32).collect();
    assert_eq!(push_samples(&mut ring, &fill, 2), 0);
    assert_eq!(push_samples(&mut ring, &vec![7, 8, 9], 2), 2);
    assert_eq!(ring.len(), RING_CAP_SAMPLES);
    assert_eq!(ring[0], 3);
    assert_eq!(ring[RING_CAP_SAMPLES - 1], 9);
}

#[test]
fn only_frames_that_start_in_a_full_ring_count_as_dropped() {
    let mut ring: VecDeque<u32> = (0..RING_CAP_SAMPLES as u32 - 1).collect();
    assert_eq!(push_samples(&mut ring, &vec![1, 2, 3, 4], 2), 1);
    assert_eq!(ring[0], 3);
}

#[test]
fn requests_past_the_end_get_silence() {
    let mut ring = VecDeque::from(vec![5, 6, 7]);
    assert_eq!(take_samples(&mut ring, 2), (vec![5, 6], 2));
    assert_eq!(take_samples(&mut ring, 3), (vec![7, 0, 0], 1));
    assert_eq!(take_samples(&mut ring, 1), (vec![0], 0));
}

#[test]
fn words_are_little_endian() {
    let data = [1u8, 2, 3, 4, 0xff, 0, 0, 0x80];
    assert_eq!(decode_planes(&data, 2, 1), vec![vec![0x0403_0201], vec![0x8000_00ff]]);
    assert_eq!(decode_planes(&data, 1, 2), vec![vec![0x0403_0201, 0x8000_00ff]]);
    assert!(packet_is_complete(8, 2, 1));
    assert!(!packet_is_complete(7, 2, 1));
    assert!(!packet_is_complete(8, 2, 0));
    assert!(packet_is_complete(8, 0, 2));
}

#[test]
fn limiting_matches_float_clamp() {
    for value in [
        0.0f32,
        -0.0,
        0.999,
        1.0,
        -1.0,
        1.000_000_1,
        -1.5,
        f32::INFINITY,
        f32::NEG_INFINITY,
        f32::MIN_POSITIVE,
    ] {
        assert_eq!(limit_sample(value.to_bits()), value.clamp(-1.0, 1.0).to_bits());
    }
    assert!(f32::from_bits(limit_sample(f32::NAN.to_bits())).is_nan());
    let planes = vec![vec![2.0f32.to_bits()], vec![(-0.5f32).to_bits()]];
    assert_eq!(
        limit_planes(&planes),
        vec![vec![1.0f32.to_bits()], vec![(-0.5f32).to_bits()]]
    );
}

#[test]
fn peak_matches_float_maximum() {
    let values = [0.1f32, -0.7, f32::NAN, 0.3, -0.0, 0.699_999_9];
    let expected = values.iter().fold(0.0f32, |top, v| top.max(v.abs()));
    let plane: Vec<u32> = values.iter().map(|v| v.to_bits()).collect();
    assert_eq!(f32::from_bits(plane_peak(&plane)), expected);
    assert_eq!(plane_peak(&Vec::new()), 0);
    assert_eq!(plane_peak(&vec![f32::NEG_INFINITY.to_bits()]), f32::INFINITY.to_bits());
}

#[test]
fn frame_counts_follow_the_rates() {
    assert_eq!(resampled_frames(480, 48_000, 48_000), 480);
    assert_eq!(resampled_frames(441, 44_100, 48_000), 480);
    assert_eq!(resampled_frames(480, 48_000, 44_100), 441);
    assert_eq!(resampled_frames(1, 48_000, 8_000), 1);
    assert_eq!(resampled_frames(5, 0, 0), 5);
    assert_eq!(resampled_frames(5, -7, 3), 15);
}

#[test]
fn extra_device_channels_stay_silent() {
    let planes = vec![vec![1, 2], vec![3, 4]];
    let out = resample_interleaved(&planes, 2, 3, 2);
    assert_eq!(
        out,
        vec![
            Blend::Mix { from: 1, to: 2, offset: 0 },
            Blend::Mix { from: 3, to: 4, offset: 0 },
            Blend::Silence,
            Blend::Mix { from: 2, to: 2, offset: 0 },
            Blend::Mix { from: 4, to: 4, offset: 0 },
            Blend::Silence,
        ]
    );
}

#[test]
fn extra_source_channels_are_left_out() {
    let planes = vec![vec![1], vec![2], vec![3]];
    let out = resample_interleaved(&planes, 1, 1, 1);
    assert_eq!(out, vec![Blend::Mix { from: 1, to: 1, offset: 0 }]);
}

#[test]
fn output_frames_are_spread_over_the_source() {
    let planes = vec![vec![10, 20]];
    assert_eq!(
        resample_interleaved(&planes, 2, 1, 3),
        vec![
            Blend::Mix { from: 10, to: 20, offset: 0 },
            Blend::Mix { from: 10, to: 20, offset: 2 },
            Blend::Mix { from: 20, to: 20, offset: 1 },
        ]
    );
    assert_eq!(resample_interleaved(&planes, 0, 1, 0), Vec::new());
    assert_eq!(resample_interleaved(&Vec::new(), 2, 1, 2), Vec::new());
}

#[test]
fn longer_planes_are_read_up_to_the_frame_count() {
    let planes = vec![vec![1, 2, 99], vec![3, 4, 99, 99]];
    assert_eq!(
        resample_interleaved(&planes, 2, 2, 2),
        vec![
            Blend::Mix { from: 1, to: 2, offset: 0 },
            Blend::Mix { from: 3, to: 4, offset: 0 },
            Blend::Mix { from: 2, to: 2, offset: 0 },
            Blend::Mix { from: 4, to: 4, offset: 0 },
        ]
    );
}

#[test]
fn constant_planes_are_mixed_from_one_value() {
    let planes = vec![vec![5, 5, 5]];
    for out_frames in 1..10usize {
        for blend in resample_interleaved(&planes, 3, 2, out_frames) {
            assert!(matches!(blend, Blend::Mix { from: 5, to: 5, .. }));
        }
    }
}

#[test]
fn source_frames_follow_the_ratio() {
    let indices: Vec<usize> = (0..6).map(|i| source_index(i, 4, 6)).collect();
    assert_eq!(indices, vec![0, 0, 1, 2, 2, 3]);
    let offsets: Vec<usize> = (0..6).map(|i| source_offset(i, 4, 6)).collect();
    assert_eq!(offsets, vec![0, 4, 2, 0, 4, 2]);
    for i in 0..480usize {
        let pos = i as f64 * 441.0 / 480.0;
        let index = source_index(i, 441, 480);
        assert_eq!(index, pos.floor() as usize);
        let weight = source_offset(i, 441, 480) as f64 / 480.0;
        assert!((weight - (pos - index as f64)).abs() < 1e-9);
        assert_eq!(i * 441, index * 480 + source_offset(i, 441, 480));
    }
    assert_eq!(source_index(usize::MAX - 1, usize::MAX, usize::MAX), usize::MAX - 1);
}

#[test]
fn recent_means_within_and_never_means_never() {
    assert!(recently(Some(10), 15, 5));
    assert!(!recently(Some(10), 16, 5));
    assert!(recently(Some(10), 3, 0));
    assert!(!recently(None, 0, u64::MAX));
}

#[test]
fn used_up_runs_leave_and_the_rest_stays() {
    let mut runs = VecDeque::from(vec![run(0, 100, 10), run(1_000, 100, 10)]);
    let mut head = None;
    consume_pts_frames(&mut runs, 15, &mut head);
    let mut rest = run(1_000, 100, 10);
    rest.frames_consumed = 5;
    assert_eq!(runs, VecDeque::from(vec![rest]));
    assert_eq!(head, Some(1_050));
    consume_pts_frames(&mut runs, 0, &mut head);
    assert_eq!(runs, VecDeque::from(vec![rest]));
}
