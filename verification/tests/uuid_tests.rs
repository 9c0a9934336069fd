use dustcfg::uuid::{format_uuid_v4, generate_v4_uuid};
use regex::Regex;

#[test]
fn test_generate_v4_uuid() {
    let re = Regex::new(
        r"^[0-9a-fA-F]{8}\-[0-9a-fA-F]{4}\-[0-9a-fA-F]{4}\-[0-9a-fA-F]{4}\-[0-9a-fA-F]{12}$",
    )
    .unwrap();
    assert!(re.is_match(&generate_v4_uuid()));
}

#[test]
fn test_format_uuid_v4_exact() {
    let bytes: Vec<u8> = (0u8..16u8).collect();
    assert_eq!("00010203-0405-4607-8809-0a0b0c0d0e0f", format_uuid_v4(&bytes));
}

#[test]
fn test_format_uuid_v4_version_and_variant_pinned() {
    let bytes: Vec<u8> = vec![0xff; 16];
    let s = format_uuid_v4(&bytes);
    assert_eq!("ffffffff-ffff-4fff-bfff-ffffffffffff", s);
    assert_eq!(s.as_bytes()[14], b'4');
    assert!(matches!(s.as_bytes()[19], b'8' | b'9' | b'a' | b'b'));
}

#[test]
fn test_generate_v4_uuid_fresh_each_call() {
    // 122 random bits: two draws colliding would mean the generator is broken.
    assert_ne!(generate_v4_uuid(), generate_v4_uuid());
}
