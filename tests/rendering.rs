use ambisonic::frames::StereoFrames;
use ambisonic::hrtf::{HrtfBank, RateMismatch};

#[test]
fn stereo_frames_emit_left_then_right() {
    let frames = vec![(1i16, 2i16), (3, 4), (5, 6)];
    let mut out = StereoFrames::new(frames.into_iter());
    let mut got = Vec::new();
    while let Some(x) = out.next() {
        got.push(x);
    }
    assert_eq!(got, vec![1, 2, 3, 4, 5, 6]);
    assert_eq!(out.next(), None);
}

#[test]
fn stereo_frames_single_frame() {
    let mut out = StereoFrames::new(vec![(-7i16, 9i16)].into_iter());
    assert_eq!(out.next(), Some(-7));
    assert_eq!(out.next(), Some(9));
    assert_eq!(out.next(), None);
}

#[test]
fn stereo_frames_empty_input() {
    let mut out = StereoFrames::new(Vec::<(i16, i16)>::new().into_iter());
    assert_eq!(out.next(), None);
}

#[test]
fn hrtf_bank_rejects_other_sample_rate() {
    let r = HrtfBank::<i16>::new(vec![(vec![1], vec![1])], 44100, 48000);
    assert_eq!(r.err(), Some(RateMismatch { declared: 44100, input: 48000 }));
}

#[test]
fn hrtf_bank_accepts_same_sample_rate() {
    assert!(HrtfBank::<i16>::new(vec![(vec![1], vec![1])], 48000, 48000).is_ok());
}

#[test]
fn hrtf_bank_convolves_and_sums_speakers() {
    // speaker 0: left [1, 2], right [3]; speaker 1: left [10], right [0, 1]
    let mut bank = HrtfBank::<i16>::new(
        vec![(vec![1, 2], vec![3]), (vec![10], vec![0, 1])],
        48000,
        48000,
    )
    .unwrap();
    assert_eq!(bank.render(&vec![1, 2]), (1 + 20, 3 + 0));
    // histories: speaker 0 [5, 1], speaker 1 [6, 2]
    assert_eq!(bank.render(&vec![5, 6]), (5 + 2 + 60, 15 + 2));
}
