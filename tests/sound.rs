use doomwad::audio::{DmxDecoder, DMX_SAMPLE_RATE};

#[test]
fn samples_are_centred_and_scaled() {
    let mut d = DmxDecoder::new(vec![0, 128, 255, 129], DMX_SAMPLE_RATE);
    assert_eq!(d.next_sample(), Some(-32768));
    assert_eq!(d.next_sample(), Some(0));
    assert_eq!(d.next_sample(), Some(32512));
    assert_eq!(d.next_sample(), Some(256));
    assert_eq!(d.next_sample(), None);
    assert_eq!(d.next_sample(), None);
}

#[test]
fn decoder_is_mono_at_given_rate() {
    let d = DmxDecoder::new(vec![], 11025);
    assert_eq!(d.channels(), 1);
    assert_eq!(d.sample_rate(), 11025);
    let mut d = d;
    assert_eq!(d.next_sample(), None);
}
