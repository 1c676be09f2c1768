use speakoflow::audio::framer::SampleFramer;

#[test]
fn samples_are_cut_into_whole_frames() {
    let mut framer: SampleFramer<u32> = SampleFramer::new(4);
    let frames = framer.push(&[1, 2, 3]);
    assert!(frames.is_empty());
    assert_eq!(framer.pending_len(), 3);
    let frames = framer.push(&[4, 5, 6, 7, 8, 9, 10]);
    assert_eq!(frames, vec![vec![1, 2, 3, 4], vec![5, 6, 7, 8]]);
    assert_eq!(framer.pending_len(), 2);
    assert_eq!(framer.frame_len(), 4);
}

#[test]
fn the_last_frame_is_padded_when_a_recording_ends() {
    let mut framer: SampleFramer<f32> = SampleFramer::new(3);
    assert!(framer.push(&[0.5, -0.25]).is_empty());
    assert_eq!(framer.finish(0.0), Some(vec![0.5, -0.25, 0.0]));
    assert_eq!(framer.pending_len(), 0);
    assert_eq!(framer.finish(0.0), None);
}

#[test]
fn back_to_back_recordings_do_not_share_samples() {
    let mut framer: SampleFramer<i16> = SampleFramer::new(4);
    assert!(framer.push(&[9, 9, 9]).is_empty());
    framer.reset();
    assert_eq!(framer.pending_len(), 0);
    let frames = framer.push(&[1, 2, 3, 4, 5]);
    assert_eq!(frames, vec![vec![1, 2, 3, 4]]);
    assert_eq!(framer.finish(0), Some(vec![5, 0, 0, 0]));
}
