use kama_core::mixer::{audible_channels, ChannelType};

#[test]
fn muted_channels_are_silent() {
    assert_eq!(audible_channels(&[false, true, false], &[false, false, false]), vec![true, false, true]);
}

#[test]
fn solo_silences_the_other_channels() {
    assert_eq!(
        audible_channels(&[false, false, false, true], &[false, true, false, true]),
        vec![false, true, false, false]
    );
    assert!(audible_channels(&[], &[]).is_empty());
    assert_ne!(ChannelType::Mono, ChannelType::Stereo);
}
