use omt_audio_out::output::{
    Admission, AudioOutput, AudioOutputStatus, PushStep, DEAD_OUTPUT_GRACE, STALL_REOPEN,
};
use omt_audio_out::resample::{resample_interleaved, Blend};

const MS: u64 = 1_000_000;

fn stub(status: AudioOutputStatus) -> AudioOutput {
    let mut audio = AudioOutput::new(false);
    audio.apply_status(status);
    audio
}

fn loud_packet() -> Vec<u8> {
    let sample = 0.75f32.to_le_bytes();
    let mut data = Vec::with_capacity(8);
    data.extend_from_slice(&sample);
    data.extend_from_slice(&sample);
    data
}

fn scale(planes: &[Vec<u32>], gain: f32) -> Vec<Vec<u32>> {
    planes
        .iter()
        .map(|plane| {
            plane
                .iter()
                .map(|bits| (f32::from_bits(*bits) * gain).to_bits())
                .collect()
        })
        .collect()
}

fn mix(blend: &Blend, out_frames: u64) -> u32 {
    match blend {
        Blend::Mix { from, to, offset } => {
            let a = f32::from_bits(*from);
            let b = f32::from_bits(*to);
            let frac = (*offset as f64 / out_frames as f64) as f32;
            (a + (b - a) * frac).to_bits()
        }
        Blend::Silence => 0.0f32.to_bits(),
    }
}

fn push(
    audio: &mut AudioOutput,
    now: u64,
    data: &[u8],
    channels: i32,
    samples: i32,
    rate: i32,
    pts: i64,
) -> bool {
    let packet = match audio.push_planar_f32(now, data, channels, samples, rate, pts) {
        PushStep::Accepted(packet) => packet,
        PushStep::Rejected | PushStep::Discarded => return false,
    };
    let boosted = scale(&packet.planes, 10f32.powf(packet.boost_db as f32 / 20.0));
    let plan = audio.meter_packet(&packet, &boosted);
    let heard = scale(&boosted, packet.volume_pct as f32 / 100.0);
    let samples: Vec<u32> = plan
        .lay_out(&heard)
        .iter()
        .map(|blend| mix(blend, plan.out_frames))
        .collect();
    audio.enqueue(now, &plan, &samples);
    true
}

fn buffered_ms(audio: &AudioOutput) -> f64 {
    let ratio = audio.buffered_ms();
    ratio.numer as f64 / f64::from(ratio.denom)
}

fn floats(bits: &[u32]) -> Vec<f32> {
    bits.iter().map(|b| f32::from_bits(*b)).collect()
}

fn planar(planes: &[&[f32]]) -> Vec<u8> {
    let mut data = Vec::new();
    for plane in planes {
        for sample in *plane {
            data.extend_from_slice(&sample.to_le_bytes());
        }
    }
    data
}

#[test]
fn unavailable_output_discards_pcm_and_vu() {
    let mut audio = stub(AudioOutputStatus::Unavailable);
    push(&mut audio, 0, &loud_packet(), 1, 1, 48_000, 10_000);
    let levels = audio.levels();
    assert_eq!(levels.frames, 1);
    assert_eq!(f32::from_bits(levels.peak_l), 0.0);
    assert_eq!(f32::from_bits(levels.peak_r), 0.0);
    assert!(audio.playhead_pts().is_none());
    assert_eq!(buffered_ms(&audio), 0.0);
    assert_eq!(audio.status(), AudioOutputStatus::Unavailable);
}

#[test]
fn idle_ready_stream_mutes_after_grace() {
    let mut audio = stub(AudioOutputStatus::Ready);
    push(&mut audio, 0, &loud_packet(), 1, 1, 48_000, 10_000);
    assert!(buffered_ms(&audio) > 0.0);
    assert_eq!(audio.status(), AudioOutputStatus::Ready);

    let later = DEAD_OUTPUT_GRACE + 50 * MS;
    push(&mut audio, later, &loud_packet(), 1, 1, 48_000, 20_000);
    assert_eq!(audio.status(), AudioOutputStatus::Unavailable);
    assert_eq!(buffered_ms(&audio), 0.0);
    assert!(audio.playhead_pts().is_none());
    let levels = audio.levels();
    assert_eq!(f32::from_bits(levels.peak_l), 0.0);
    assert_eq!(levels.frames, 2);
    assert!(!audio.take_reopen_request());
}

#[test]
fn callback_heartbeat_keeps_ready_after_grace() {
    let mut audio = stub(AudioOutputStatus::Ready);
    push(&mut audio, 0, &loud_packet(), 1, 1, 48_000, 10_000);
    let later = DEAD_OUTPUT_GRACE + 50 * MS;
    audio.render(later, 2, 2, false, false);
    push(&mut audio, later, &loud_packet(), 1, 1, 48_000, 20_000);
    assert_eq!(audio.status(), AudioOutputStatus::Ready);
    assert!(buffered_ms(&audio) > 0.0);
    assert!(f32::from_bits(audio.levels().peak_l) > 0.0);
}

#[test]
fn preroll_burst_on_long_idle_default_device_stays_ready() {
    let mut audio = stub(AudioOutputStatus::Ready);
    let start = 3_600_000 * MS;
    push(&mut audio, start, &loud_packet(), 1, 1, 48_000, 10_000);
    push(&mut audio, start, &loud_packet(), 1, 1, 48_000, 20_000);
    push(&mut audio, start, &loud_packet(), 1, 1, 48_000, 30_000);
    assert_eq!(audio.status(), AudioOutputStatus::Ready);
    assert!(buffered_ms(&audio) > 0.0);
    let levels = audio.levels();
    assert_eq!(levels.frames, 3);
    assert!(f32::from_bits(levels.peak_l) > 0.0);
}

#[test]
fn brief_callback_gap_does_not_reopen() {
    let mut audio = stub(AudioOutputStatus::Ready);
    push(&mut audio, 0, &loud_packet(), 1, 1, 48_000, 10_000);
    let now = DEAD_OUTPUT_GRACE + 5_000 * MS;
    audio.render(now - 400 * MS, 2, 2, false, false);
    push(&mut audio, now, &loud_packet(), 1, 1, 48_000, 20_000);
    assert_eq!(audio.status(), AudioOutputStatus::Ready);
    assert!(buffered_ms(&audio) > 0.0);
}

#[test]
fn linear_resample_interpolates_between_samples() {
    let planes = vec![vec![0.0f32.to_bits(), 1.0f32.to_bits()]];
    let out: Vec<f32> = resample_interleaved(&planes, 2, 1, 3)
        .iter()
        .map(|blend| f32::from_bits(mix(blend, 3)))
        .collect();
    assert_eq!(out.len(), 3);
    assert!((out[0] - 0.0).abs() < 1e-5);
    assert!(out[1] > 0.2 && out[1] < 0.8);
    assert!(out[2] > 0.5);
}

#[test]
fn volume_scales_ring_but_not_vu() {
    let mut audio = stub(AudioOutputStatus::Ready);
    audio.set_volume_pct(50);
    push(&mut audio, 0, &loud_packet(), 1, 1, 48_000, 10_000);
    assert!((f32::from_bits(audio.levels().peak_l) - 0.75).abs() < 1e-5);
    let sample = f32::from_bits(audio.render(0, 2, 2, true, true)[0]);
    assert!((sample - 0.375).abs() < 1e-5);
}

#[test]
fn short_packet_is_ignored() {
    let mut audio = stub(AudioOutputStatus::Ready);
    assert_eq!(
        audio.push_planar_f32(0, &[0u8; 7], 1, 2, 48_000, 0),
        PushStep::Rejected
    );
    assert_eq!(
        audio.push_planar_f32(0, &[0u8; 8], 1, 0, 48_000, 0),
        PushStep::Rejected
    );
    assert_eq!(
        audio.push_planar_f32(0, &[0u8; 8], i32::MAX, i32::MAX, 48_000, 0),
        PushStep::Rejected
    );
    assert_eq!(audio.levels().frames, 0);
    assert!(push(&mut audio, 0, &[0u8; 8], -3, 2, 48_000, 0));
    assert_eq!(audio.levels().channels, -3);
}

#[test]
fn packet_is_decoded_plane_by_plane() {
    let mut audio = stub(AudioOutputStatus::Ready);
    audio.set_boost_db(6);
    audio.set_volume_pct(130);
    let data = planar(&[&[0.25, -0.5], &[1.0, 0.125]]);
    match audio.push_planar_f32(0, &data, 2, 2, 44_100, 77) {
        PushStep::Accepted(packet) => {
            assert_eq!(packet.planes.len(), 2);
            assert_eq!(floats(&packet.planes[0]), vec![0.25, -0.5]);
            assert_eq!(floats(&packet.planes[1]), vec![1.0, 0.125]);
            assert_eq!(packet.frames, 2);
            assert_eq!(packet.sample_rate, 44_100);
            assert_eq!(packet.timestamp, 77);
            assert_eq!(packet.boost_db, 6);
            assert_eq!(packet.volume_pct, 100);
        }
        other => panic!("not accepted: {other:?}"),
    }
}

#[test]
fn stereo_peaks_are_peaks_before_volume() {
    let mut audio = stub(AudioOutputStatus::Ready);
    audio.set_volume_pct(0);
    let data = planar(&[&[0.25, -1.5, f32::NAN], &[-0.125, 0.0625, 0.0]]);
    push(&mut audio, 0, &data, 2, 3, 48_000, 0);
    let levels = audio.levels();
    assert_eq!(f32::from_bits(levels.peak_l), 1.0);
    assert_eq!(f32::from_bits(levels.peak_r), 0.125);
    assert_eq!(levels.sample_rate, 48_000);
    assert_eq!(levels.channels, 2);
}

#[test]
fn mono_packet_has_no_right_peak() {
    let mut audio = stub(AudioOutputStatus::Ready);
    push(&mut audio, 0, &loud_packet(), 1, 1, 48_000, 0);
    assert_eq!(f32::from_bits(audio.levels().peak_l), 0.75);
    assert_eq!(f32::from_bits(audio.levels().peak_r), 0.0);
}

#[test]
fn loud_samples_are_held_at_full_scale() {
    let mut audio = stub(AudioOutputStatus::Ready);
    let data = planar(&[&[2.0, -2.0, 0.5], &[-0.5, 1.0, f32::NEG_INFINITY]]);
    push(&mut audio, 0, &data, 2, 3, 48_000, 0);
    // The infinity sits in the last frame, so it meets nothing but itself.
    let out = floats(&audio.render(0, 5, 2, true, true));
    assert_eq!(out, vec![1.0, -0.5, -1.0, 1.0, 0.5]);
}

#[test]
fn mono_feeds_every_device_channel() {
    let mut audio = stub(AudioOutputStatus::Ready);
    push(&mut audio, 0, &planar(&[&[0.5, 0.25]]), 1, 2, 48_000, 0);
    let out = floats(&audio.render(0, 4, 2, true, true));
    assert_eq!(out, vec![0.5, 0.5, 0.25, 0.25]);
}

#[test]
fn playhead_follows_the_device() {
    let mut audio = stub(AudioOutputStatus::Ready);
    let data = planar(&[&[0.5; 480]]);
    push(&mut audio, 0, &data, 1, 480, 48_000, 1_000_000);
    push(&mut audio, 0, &data, 1, 480, 48_000, 2_000_000);
    assert_eq!(audio.playhead_pts(), Some(1_000_000));
    audio.render(0, 480, 2, true, true);
    assert_eq!(audio.playhead_pts(), Some(1_050_000));
    audio.render(0, 480, 2, true, true);
    assert_eq!(audio.playhead_pts(), Some(1_100_000));
    audio.render(0, 480, 2, true, true);
    assert_eq!(audio.playhead_pts(), Some(2_050_000));
    audio.render(0, 10_000, 2, true, true);
    assert_eq!(audio.playhead_pts(), Some(2_100_000));
    assert_eq!(audio.buffered_ms().numer, 0);
    audio.invalidate_playhead();
    assert_eq!(audio.playhead_pts(), None);
}

#[test]
fn busy_queues_do_not_stop_the_callback() {
    let mut audio = stub(AudioOutputStatus::Ready);
    push(&mut audio, 0, &planar(&[&[0.5; 10]]), 1, 10, 48_000, 5_000);
    assert_eq!(audio.render(1, 3, 2, false, true), vec![0, 0, 0]);
    assert!(!audio.playback_active(1));
    assert_eq!(floats(&audio.render(2, 2, 2, true, false)), vec![0.5, 0.5]);
    assert!(audio.playback_active(2));
    assert_eq!(audio.playhead_pts(), Some(5_000));
    assert_eq!(audio.buffered_ms().numer, 9_000);
}

#[test]
fn playback_is_active_for_a_quarter_second() {
    let mut audio = stub(AudioOutputStatus::Ready);
    push(&mut audio, 0, &loud_packet(), 1, 1, 48_000, 0);
    audio.render(100 * MS, 2, 2, true, true);
    assert!(audio.playback_active(350 * MS));
    assert!(!audio.playback_active(350 * MS + 1));
    assert!(audio.playback_active(0));
}

#[test]
fn stalled_callback_reopens_after_the_gap() {
    let mut audio = stub(AudioOutputStatus::Ready);
    push(&mut audio, 0, &loud_packet(), 1, 1, 48_000, 0);
    audio.render(10 * MS, 2, 2, false, false);
    assert!(push(&mut audio, 10 * MS + STALL_REOPEN, &loud_packet(), 1, 1, 48_000, 0));
    assert!(!push(&mut audio, 11 * MS + STALL_REOPEN, &loud_packet(), 1, 1, 48_000, 0));
    assert_eq!(audio.status(), AudioOutputStatus::Unavailable);
}

#[test]
fn dead_output_asks_its_worker_once() {
    let mut audio = AudioOutput::new(true);
    audio.apply_status(AudioOutputStatus::Ready);
    push(&mut audio, 0, &loud_packet(), 1, 1, 48_000, 0);
    audio.maybe_declare_dead_output(DEAD_OUTPUT_GRACE);
    assert_eq!(audio.status(), AudioOutputStatus::Ready);
    assert!(audio.should_discard_pcm(DEAD_OUTPUT_GRACE + 1));
    assert_eq!(audio.status(), AudioOutputStatus::Opening);
    audio.request_reopen();
    assert_eq!(audio.status(), AudioOutputStatus::Opening);
    assert!(audio.take_reopen_request());
    assert!(!audio.take_reopen_request());
}

#[test]
fn reopen_under_way_leaves_the_status_alone() {
    let mut audio = AudioOutput::new(true);
    audio.stream_error();
    assert_eq!(audio.status(), AudioOutputStatus::Opening);
    audio.apply_status(AudioOutputStatus::Ready);
    audio.request_reopen();
    assert_eq!(audio.status(), AudioOutputStatus::Ready);
}

#[test]
fn overflow_drops_the_oldest_with_their_marks() {
    let mut audio = stub(AudioOutputStatus::Ready);
    audio.configure(1, 1_000);
    let old = planar(&[&[0.25; 100_000]]);
    let new = planar(&[&[0.75; 100_000]]);
    push(&mut audio, 0, &old, 1, 100_000, 1_000, 0);
    push(&mut audio, 0, &new, 1, 100_000, 1_000, 5_000_000_000);
    assert_eq!(audio.buffered_ms().numer, 192_000_000);
    assert_eq!(audio.buffered_ms().denom, 1_000);
    assert_eq!(audio.playhead_pts(), Some(8_000 * 10_000));
    let out = floats(&audio.render(0, 192_000, 1, true, true));
    assert!(out[..92_000].iter().all(|sample| *sample == 0.25));
    assert!(out[92_000..].iter().all(|sample| *sample == 0.75));
    assert_eq!(audio.playhead_pts(), Some(5_000_000_000 + 100_000 * 10_000));
}

#[test]
fn rate_change_scales_the_frame_count() {
    let mut audio = stub(AudioOutputStatus::Ready);
    push(&mut audio, 0, &planar(&[&[0.5; 441]]), 1, 441, 44_100, 0);
    assert_eq!(audio.buffered_ms().numer, 480_000);
    audio.render(0, 960, 2, true, true);
    assert_eq!(audio.playhead_pts(), Some(100_000));
    push(&mut audio, 0, &planar(&[&[0.5]]), 1, 1, i32::MAX, 0);
    assert_eq!(audio.buffered_ms().numer, 1_000);
}

#[test]
fn clearing_keeps_status_and_settings() {
    let mut audio = stub(AudioOutputStatus::Ready);
    audio.set_boost_db(10);
    push(&mut audio, 0, &loud_packet(), 1, 1, 48_000, 9);
    audio.clear();
    assert_eq!(audio.buffered_ms().numer, 0);
    assert_eq!(audio.playhead_pts(), None);
    assert_eq!(audio.levels(), Default::default());
    assert_eq!(audio.status(), AudioOutputStatus::Ready);
    match audio.push_planar_f32(0, &loud_packet(), 1, 1, 48_000, 9) {
        PushStep::Accepted(packet) => assert_eq!(packet.boost_db, 10),
        other => panic!("not accepted: {other:?}"),
    }
}

#[test]
fn device_shape_is_never_zero() {
    let mut audio = stub(AudioOutputStatus::Ready);
    assert_eq!(audio.device_sample_rate(), 48_000);
    audio.configure(0, 0);
    assert_eq!(audio.device_sample_rate(), 1);
    push(&mut audio, 0, &loud_packet(), 1, 1, 1, 0);
    assert_eq!(audio.buffered_ms().numer, 1_000);
    assert_eq!(floats(&audio.render(0, 2, 0, true, true)), vec![0.75, 0.0]);
    assert_eq!(audio.playhead_pts(), Some(10_000_000));
}

#[test]
fn new_stream_gets_a_new_grace_time() {
    let mut audio = stub(AudioOutputStatus::Ready);
    push(&mut audio, 0, &loud_packet(), 1, 1, 48_000, 0);
    audio.apply_status(AudioOutputStatus::Ready);
    let later = 60_000 * MS;
    assert!(push(&mut audio, later, &loud_packet(), 1, 1, 48_000, 0));
    assert!(push(&mut audio, later + DEAD_OUTPUT_GRACE, &loud_packet(), 1, 1, 48_000, 0));
    assert!(!push(&mut audio, later + DEAD_OUTPUT_GRACE + 1, &loud_packet(), 1, 1, 48_000, 0));
}

#[test]
fn interpolated_samples_have_exact_weights() {
    let mut audio = stub(AudioOutputStatus::Ready);
    audio.configure(1, 4);
    push(&mut audio, 0, &planar(&[&[0.0, 1.0]]), 1, 2, 2, 0);
    let out = floats(&audio.render(0, 4, 1, true, true));
    assert_eq!(out, vec![0.0, 0.5, 1.0, 1.0]);
}

#[test]
fn boosted_peaks_stay_at_full_scale() {
    let mut audio = stub(AudioOutputStatus::Ready);
    audio.set_boost_db(20);
    push(&mut audio, 0, &planar(&[&[0.75], &[-0.05]]), 2, 1, 48_000, 0);
    assert_eq!(f32::from_bits(audio.levels().peak_l), 1.0);
    assert!((f32::from_bits(audio.levels().peak_r) - 0.5).abs() < 1e-5);
    push(&mut audio, 0, &planar(&[&[f32::INFINITY], &[-3.0]]), 2, 1, 48_000, 0);
    assert_eq!(f32::from_bits(audio.levels().peak_l), 1.0);
    assert_eq!(f32::from_bits(audio.levels().peak_r), 1.0);
}

#[test]
fn packet_longer_than_the_ring_ends_on_time() {
    let mut audio = stub(AudioOutputStatus::Ready);
    push(&mut audio, 0, &planar(&[&[0.0, 0.0, 0.0]]), 1, 3, 1, 0);
    assert_eq!(audio.buffered_ms().numer, 96_000_000);
    assert_eq!(audio.playhead_pts(), Some(10_000_000));
    audio.render(0, 96_000, 2, true, true);
    assert_eq!(audio.playhead_pts(), Some(20_000_000));
    audio.render(0, 96_000, 2, true, true);
    assert_eq!(audio.playhead_pts(), Some(30_000_000));
    assert_eq!(audio.buffered_ms().numer, 0);
    push(&mut audio, 0, &loud_packet(), 1, 1, 48_000, 90_000_000);
    audio.render(0, 2, 2, true, true);
    assert_eq!(audio.playhead_pts(), Some(90_000_208));
}

#[test]
fn long_packet_takes_what_was_queued_with_it() {
    let mut audio = stub(AudioOutputStatus::Ready);
    audio.configure(1, 1_000);
    push(&mut audio, 0, &planar(&[&[0.25; 10]]), 1, 10, 1_000, 7);
    push(&mut audio, 0, &planar(&[&[0.5; 200_000]]), 1, 200_000, 1_000, 1_000_000);
    assert_eq!(audio.buffered_ms().numer, 192_000_000);
    assert_eq!(audio.playhead_pts(), Some(1_000_000 + 8_000 * 10_000));
    audio.render(0, 192_000, 1, true, true);
    assert_eq!(audio.playhead_pts(), Some(1_000_000 + 200_000 * 10_000));
}

#[test]
fn admission_and_decoding_are_a_push() {
    let data = planar(&[&[0.5, -0.25], &[0.125, 1.0]]);
    let mut whole = stub(AudioOutputStatus::Ready);
    let mut parts = stub(AudioOutputStatus::Ready);
    let packet = match parts.admit_packet(3, data.len(), 2, 2, 44_100, 9) {
        Admission::Admitted(header) => header.decode(&data),
        other => panic!("not admitted: {other:?}"),
    };
    assert_eq!(
        whole.push_planar_f32(3, &data, 2, 2, 44_100, 9),
        PushStep::Accepted(packet)
    );
    assert_eq!(
        parts.admit_packet(3, data.len() - 1, 2, 2, 44_100, 9),
        Admission::Rejected
    );
    parts.apply_status(AudioOutputStatus::Opening);
    assert_eq!(
        parts.admit_packet(3, data.len(), 2, 2, 44_100, 9),
        Admission::Discarded
    );
    assert_eq!(parts.levels().frames, 1);
}

#[test]
fn last_timestamps_wrap_around() {
    let mut audio = stub(AudioOutputStatus::Ready);
    push(&mut audio, 0, &planar(&[&[0.5, 0.5]]), 1, 2, 48_000, i64::MAX - 300);
    assert_eq!(audio.playhead_pts(), Some(i64::MAX - 300));
    audio.render(0, 2, 2, true, true);
    assert_eq!(audio.playhead_pts(), Some(i64::MAX - 92));
    audio.render(0, 2, 2, true, true);
    assert_eq!(audio.playhead_pts(), Some(i64::MIN + 115));
}
