use voicy::audio::{
    abort_capture, begin_capture, clear_audio_buffer, end_capture, ensure_not_capturing,
    get_audio_buffer_samples, init_audio_buffer, is_capturing, level_bin_range, record_samples,
    reference_recording, CaptureState,
};

#[test]
fn fresh_state_has_no_buffer() {
    let st: CaptureState<i32> = CaptureState::new();
    assert!(!is_capturing(&st));
    assert_eq!(get_audio_buffer_samples(&st), 0);
    assert!(st.samples().is_none());
    assert_eq!(st.input_sample_rate(), 48000);
}

#[test]
fn capture_without_buffer_is_refused() {
    let mut st: CaptureState<i32> = CaptureState::new();
    assert_eq!(begin_capture(&mut st, 44100), Err("Audio buffer not initialized".to_string()));
    assert!(!is_capturing(&st));
    assert_eq!(st.input_sample_rate(), 44100);
}

#[test]
fn recording_concatenates_chunks() {
    let mut st: CaptureState<i32> = CaptureState::new();
    init_audio_buffer(&mut st);
    assert_eq!(ensure_not_capturing(&st), Ok(()));
    assert_eq!(begin_capture(&mut st, 16000), Ok(()));
    assert!(is_capturing(&st));
    record_samples(&mut st, vec![1, 2, 3]);
    record_samples(&mut st, vec![]);
    record_samples(&mut st, vec![4, 5]);
    assert_eq!(st.samples(), Some(&vec![1, 2, 3, 4, 5]));
    assert_eq!(end_capture(&mut st), Ok(5));
    assert!(!is_capturing(&st));
    // Chunks after the stop are dropped.
    record_samples(&mut st, vec![9]);
    assert_eq!(get_audio_buffer_samples(&st), 5);
}

#[test]
fn second_start_is_refused() {
    let mut st: CaptureState<i32> = CaptureState::new();
    init_audio_buffer(&mut st);
    begin_capture(&mut st, 16000).unwrap();
    assert_eq!(ensure_not_capturing(&st), Err("Capture already active".to_string()));
}

#[test]
fn stop_without_capture_is_refused() {
    let mut st: CaptureState<i32> = CaptureState::new();
    init_audio_buffer(&mut st);
    assert_eq!(end_capture(&mut st), Err("Capture not active".to_string()));
}

#[test]
fn new_capture_starts_empty() {
    let mut st: CaptureState<i32> = CaptureState::new();
    init_audio_buffer(&mut st);
    begin_capture(&mut st, 16000).unwrap();
    record_samples(&mut st, vec![1, 2]);
    end_capture(&mut st).unwrap();
    begin_capture(&mut st, 16000).unwrap();
    assert_eq!(get_audio_buffer_samples(&st), 0);
}

#[test]
fn init_keeps_existing_samples() {
    let mut st: CaptureState<i32> = CaptureState::new();
    init_audio_buffer(&mut st);
    begin_capture(&mut st, 16000).unwrap();
    record_samples(&mut st, vec![7, 8]);
    init_audio_buffer(&mut st);
    assert_eq!(get_audio_buffer_samples(&st), 2);
    clear_audio_buffer(&mut st);
    assert_eq!(get_audio_buffer_samples(&st), 0);
    assert!(is_capturing(&st));
}

#[test]
fn abort_stops_capture() {
    let mut st: CaptureState<i32> = CaptureState::new();
    init_audio_buffer(&mut st);
    begin_capture(&mut st, 16000).unwrap();
    abort_capture(&mut st);
    assert!(!is_capturing(&st));
}

#[test]
fn reference_needs_more_than_16000_samples() {
    let mut st: CaptureState<u8> = CaptureState::new();
    init_audio_buffer(&mut st);
    begin_capture(&mut st, 16000).unwrap();
    record_samples(&mut st, vec![0u8; 16000]);
    assert!(reference_recording(&st).is_none());
    record_samples(&mut st, vec![0u8; 1]);
    assert_eq!(reference_recording(&st).map(|b| b.len()), Some(16001));
}

#[test]
fn level_bins_split_the_block() {
    assert_eq!(level_bin_range(0, 0), None);
    assert_eq!(level_bin_range(64, 0), Some((0, 2)));
    assert_eq!(level_bin_range(64, 31), Some((62, 64)));
    assert_eq!(level_bin_range(10, 9), Some((9, 10)));
    assert_eq!(level_bin_range(10, 10), None);
    assert_eq!(level_bin_range(100, 31), Some((93, 96)));
    assert_eq!(level_bin_range(100, 0), Some((0, 3)));
    assert_eq!(level_bin_range(40, 0), Some((0, 1)));
}

#[test]
fn level_bins_are_ordered_and_inside() {
    for len in [0usize, 1, 5, 31, 32, 33, 64, 100, 1000, 1023] {
        let ranges: Vec<(usize, usize)> = (0..32).filter_map(|i| level_bin_range(len, i)).collect();
        for w in ranges.windows(2) {
            assert!(w[0].0 < w[0].1 && w[0].1 <= w[1].0);
        }
        for r in &ranges {
            assert!(r.0 < r.1 && r.1 <= len);
        }
    }
}
