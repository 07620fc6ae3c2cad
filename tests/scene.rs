use ambisonic::config::{HrtfConfig, PlaybackConfiguration, StereoConfig};
use ambisonic::control::{glide_commands, jump_commands, Command, StreamControl};
use ambisonic::mixer::mix_and_retire;

#[test]
fn jump_sets_weights_target_and_speed() {
    let mut c: StreamControl<i16, u32> = StreamControl::new(1, 100);
    let stopped = c.apply(&jump_commands(5, 90));
    assert!(!stopped);
    assert_eq!((c.weights, c.target, c.speed, c.stopped), (5, 5, 90, false));
}

#[test]
fn glide_sets_only_target_and_speed() {
    let mut c: StreamControl<i16, u32> = StreamControl::new(1, 100);
    c.apply(&glide_commands(5, 110));
    assert_eq!((c.weights, c.target, c.speed), (1, 5, 110));
}

#[test]
fn stop_preempts_later_commands() {
    let mut c: StreamControl<i16, u32> = StreamControl::new(1, 100);
    let cmds = vec![Command::SetTarget(3), Command::Stop, Command::SetWeights(9), Command::SetSpeed(7)];
    assert!(c.apply(&cmds));
    assert_eq!((c.weights, c.target, c.speed, c.stopped), (1, 3, 100, true));
    assert!(c.apply(&vec![Command::SetWeights(4)]));
    assert_eq!(c.weights, 1);
}

#[test]
fn mixing_silent_streams_is_silent() {
    let mut active = vec!["a", "b", "c"];
    let mix = mix_and_retire(&mut active, &vec![Some(0i16), Some(0), None]);
    assert_eq!(mix, 0);
    assert_eq!(active, vec!["a", "b"]);
}

#[test]
fn mixing_one_voice_with_silence_gives_that_voice() {
    let mut active = vec![1, 2, 3, 4];
    let mix = mix_and_retire(&mut active, &vec![Some(0i16), Some(-1234), Some(0), Some(0)]);
    assert_eq!(mix, -1234);
    assert_eq!(active.len(), 4);
}

#[test]
fn ended_streams_leave_and_mixer_keeps_going() {
    let mut active = vec!["a", "b", "c", "d"];
    let mix = mix_and_retire(&mut active, &vec![Some(1i16), None, Some(2), None]);
    assert_eq!(mix, 3);
    assert_eq!(active, vec!["a", "c"]);
    let mix = mix_and_retire(&mut active, &vec![None::<i16>, None]);
    assert_eq!(mix, 0);
    assert!(active.is_empty());
    let mix = mix_and_retire(&mut active, &Vec::<Option<i16>>::new());
    assert_eq!(mix, 0);
}

#[test]
fn mixing_saturates() {
    let mut active = vec![(), ()];
    assert_eq!(mix_and_retire(&mut active, &vec![Some(i16::MIN), Some(-1)]), i16::MIN);
}

#[test]
fn default_playback_is_stereo() {
    assert!(matches!(PlaybackConfiguration::default(), PlaybackConfiguration::Stereo(_)));
    let p: PlaybackConfiguration = StereoConfig::default().into();
    assert!(matches!(p, PlaybackConfiguration::Stereo(_)));
    let p: PlaybackConfiguration = HrtfConfig::from_data(b"48000\n".to_vec()).into();
    match p {
        PlaybackConfiguration::Hrtf(cfg) => assert_eq!(cfg.hrir_data, b"48000\n".to_vec()),
        _ => panic!("expected headphone playback"),
    }
    assert!(HrtfConfig::default().hrir_data.is_empty());
}
