use metastable::otp::{counter_at, generate_otp, generate_timebased_counter, otp_from_digest, verify_otp, verify_otp_at};

fn digest(first: [u8; 4]) -> [u8; 32] {
    let mut d = [0xffu8; 32];
    d[..4].copy_from_slice(&first);
    d
}

#[test]
fn code_of_a_digest() {
    assert_eq!(otp_from_digest(&digest([1, 0, 0, 0])), "000001");
    // 1_000_000 little-endian is 0x000F4240.
    assert_eq!(otp_from_digest(&digest([0x40, 0x42, 0x0f, 0x00])), "000000");
    // 123_456_789 is 0x075BCD15.
    assert_eq!(otp_from_digest(&digest([0x15, 0xcd, 0x5b, 0x07])), "456789");
    assert_eq!(otp_from_digest(&digest([0xff, 0xff, 0xff, 0xff])), "967295");
}

#[test]
fn code_is_the_digest_of_user_secret_and_step() {
    let code = generate_otp("email_a@b.c", 42, "s3cret");
    let d = blake3::hash("email_a@b.cs3cret42".as_bytes());
    assert_eq!(code, otp_from_digest(d.as_bytes()));
    assert_eq!(code.len(), 6);
    assert!(code.chars().all(|c| c.is_ascii_digit()));
}

#[test]
fn codes_are_accepted_within_ten_steps() {
    let code = generate_otp("u", 100, "k");
    assert!(verify_otp_at("u", &code, "k", 100));
    assert!(verify_otp_at("u", &code, "k", 90));
    assert!(verify_otp_at("u", &code, "k", 110));
    assert!(!verify_otp_at("u", "abcdef", "k", 100));
    // Negative steps are skipped.
    let early = generate_otp("u", 0, "k");
    assert!(verify_otp_at("u", &early, "k", -5));
}

#[test]
fn time_steps() {
    assert_eq!(counter_at(61), 2);
    assert_eq!(counter_at(0), 0);
    assert_eq!(counter_at(-1), u64::MAX / 30);
    let now = generate_timebased_counter();
    let code = generate_otp("user", now, "secret");
    assert!(verify_otp("user", &code, "secret"));
}
