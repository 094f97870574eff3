use owlbot::speech::speech_pause_secs;

#[test]
fn speech_pause_is_clamped() {
    assert_eq!(speech_pause_secs(0), 5);
    assert_eq!(speech_pause_secs(99), 5);
    assert_eq!(speech_pause_secs(100), 7);
    assert_eq!(speech_pause_secs(250), 14);
    assert_eq!(speech_pause_secs(299), 14);
    assert_eq!(speech_pause_secs(300), 18);
    assert_eq!(speech_pause_secs(usize::MAX), 18);
}
