use offline_player::decode_stats::{frame_count_ok, update_integer_sample, PcmDigest, PcmStats};

#[test]
fn empty_digest_is_sha256_of_nothing() {
    assert_eq!(
        PcmDigest::new().finish_hex(),
        "e3b0c44298fc1c149afbf4c8996fb92427ae41e4649b934ca495991b7852b855"
    );
}

#[test]
fn samples_are_hashed_little_endian_and_tracked() {
    let mut stats = PcmStats::new();
    let mut digest = PcmDigest::new();
    stats.update(&mut digest, 1, 2, &[1, -1]);
    assert_eq!(stats.decoded_frames, 1);
    assert_eq!(stats.decoded_samples, 2);
    assert_eq!(stats.min_sample, -1);
    assert_eq!(stats.max_sample, 1);

    let mut same = PcmDigest::new();
    same.absorb_bytes(&[1, 0, 0, 0, 0xff, 0xff, 0xff, 0xff]);
    assert_eq!(digest.finish_hex(), same.finish_hex());
}

#[test]
fn single_sample_update() {
    let (mut min, mut max) = (i32::MAX, i32::MIN);
    let mut digest = PcmDigest::new();
    update_integer_sample(7, &mut min, &mut max, &mut digest);
    update_integer_sample(-3, &mut min, &mut max, &mut digest);
    assert_eq!((min, max), (-3, 7));
}

#[test]
fn frame_counts_match_only_when_known_and_equal() {
    assert!(frame_count_ok(Some(10), 10));
    assert!(!frame_count_ok(Some(10), 9));
    assert!(!frame_count_ok(None, 0));
}

#[test]
fn digest_of_abc_is_known() {
    let mut digest = PcmDigest::new();
    digest.absorb_bytes(b"abc");
    assert_eq!(
        digest.finish_hex(),
        "ba7816bf8f01cfea414140de5dae2223b00361a396177a9cb410ff61f20015ad"
    );
}
