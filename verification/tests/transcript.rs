use dory::arithmetic::Field;
use dory::bn254::Fr;
use dory::toy_transcript::ToyTranscript;
use dory::transcript::Transcript;

#[test]
fn transcript_consistency() {
    let mut t1 = ToyTranscript::new(b"demo");
    let mut t2 = ToyTranscript::new(b"demo");

    // same sequence of messages => same challenge
    t1.append_bytes(b"m", b"hello");
    t2.append_bytes(b"m", b"hello");
    assert_eq!(t1.challenge_scalar(b"x"), t2.challenge_scalar(b"x"));
}

#[test]
fn challenges_depend_on_label_message_and_domain() {
    let mut a = ToyTranscript::new(b"demo");
    a.append_bytes(b"m", b"hello");
    let ca = a.challenge_scalar(b"x").unwrap();
    assert_ne!(Some(ca), a.challenge_scalar(b"y"));

    let mut b = ToyTranscript::new(b"demo");
    b.append_bytes(b"m", b"hellp");
    assert_ne!(Some(ca), b.challenge_scalar(b"x"));

    let mut c = ToyTranscript::new(b"other");
    c.append_bytes(b"m", b"hello");
    assert_ne!(Some(ca), c.challenge_scalar(b"x"));

    // framing: the label and the bytes are kept apart by the length prefix
    let mut d = ToyTranscript::new(b"demo");
    d.append_bytes(b"mh", b"ello");
    assert_ne!(Some(ca), d.challenge_scalar(b"x"));
}

#[test]
fn drawing_a_challenge_does_not_change_the_transcript() {
    let mut a = ToyTranscript::new(b"demo");
    let first = a.challenge_scalar(b"x");
    let second = a.challenge_scalar(b"x");
    assert_eq!(first, second);
    assert!(first.is_some());
    assert!(!first.unwrap().is_zero());
}

#[test]
fn reset_restarts_the_transcript() {
    let mut a = ToyTranscript::new(b"demo");
    a.append_bytes(b"m", b"hello");
    a.reset(b"demo");
    let mut b = ToyTranscript::new(b"demo");
    assert_eq!(a.challenge_scalar(b"x"), b.challenge_scalar(b"x"));
}

#[test]
fn appended_field_and_group_elements_are_their_bytes() {
    let x = Fr::from_u64(12345);
    let mut a = ToyTranscript::new(b"demo");
    a.append_field(b"f", &x);
    let mut b = ToyTranscript::new(b"demo");
    b.append_bytes(b"f", &x.to_bytes_le());
    assert_eq!(a.challenge_scalar(b"x"), b.challenge_scalar(b"x"));

    let mut c = ToyTranscript::new(b"demo");
    c.append_group(b"f", &dory::bn254::FrAdditive(x));
    assert_eq!(c.challenge_scalar(b"x"), b.challenge_scalar(b"x"));
}

#[test]
fn u128_challenge_is_two_nonzero_limbs() {
    let mut a = ToyTranscript::new(b"demo");
    let c = a.challenge_u128(b"x").unwrap();
    assert!(c[0] != 0 || c[1] != 0);
    let mut b = ToyTranscript::new(b"demo");
    assert_eq!(b.challenge_u128(b"x"), Some(c));
    assert_ne!(b.challenge_u128(b"y"), Some(c));
}
