use blog::address::find_blog_address;
use blog::error::BlogError;
use blog::key::Pubkey;
use blog::layout::{account_discriminator, text_len, BlogEntryState};

fn entry(title: &str, description: &str) -> BlogEntryState {
    BlogEntryState {
        owner: Pubkey::new_from_array([0xab; 32]),
        title: title.to_string(),
        description: description.to_string(),
    }
}

#[test]
fn discriminator_is_digest_prefix() {
    assert_eq!(account_discriminator(), [32, 194, 56, 21, 2, 166, 32, 91]);
}

#[test]
fn serialize_layout() {
    let bytes = entry("hi", "abc").serialize();
    assert_eq!(bytes.len(), 8 + 32 + 4 + 2 + 4 + 3);
    assert_eq!(&bytes[0..8], &[32, 194, 56, 21, 2, 166, 32, 91]);
    assert_eq!(&bytes[8..40], &[0xab; 32]);
    assert_eq!(&bytes[40..44], &[2, 0, 0, 0]);
    assert_eq!(&bytes[44..46], b"hi");
    assert_eq!(&bytes[46..50], &[3, 0, 0, 0]);
    assert_eq!(&bytes[50..53], b"abc");
}

#[test]
fn deserialize_round_trip() {
    let e = entry("title", "déscription");
    let back = BlogEntryState::try_deserialize(&e.serialize()).unwrap();
    assert_eq!(back.owner.bytes, e.owner.bytes);
    assert_eq!(back.title, e.title);
    assert_eq!(back.description, e.description);
}

#[test]
fn deserialize_ignores_trailing_bytes() {
    let mut bytes = entry("t", "short").serialize();
    bytes.extend_from_slice(b"old leftover bytes");
    let back = BlogEntryState::try_deserialize(&bytes).unwrap();
    assert_eq!(back.description, "short");
}

#[test]
fn deserialize_wrong_discriminator_is_corrupt() {
    let mut bytes = entry("t", "d").serialize();
    bytes[0] ^= 1;
    assert!(matches!(BlogEntryState::try_deserialize(&bytes), Err(BlogError::CorruptRecord)));
}

#[test]
fn deserialize_truncated_is_corrupt() {
    let bytes = entry("title", "description").serialize();
    for cut in [0usize, 7, 39, 43, 47, bytes.len() - 1] {
        assert!(matches!(BlogEntryState::try_deserialize(&bytes[..cut]), Err(BlogError::CorruptRecord)));
    }
}

#[test]
fn deserialize_oversized_length_is_corrupt() {
    let mut bytes = entry("t", "d").serialize();
    bytes[40] = 0xff;
    assert!(matches!(BlogEntryState::try_deserialize(&bytes), Err(BlogError::CorruptRecord)));
}

#[test]
fn deserialize_invalid_utf8_is_corrupt() {
    let mut bytes = entry("t", "d").serialize();
    bytes[44] = 0xff;
    assert!(matches!(BlogEntryState::try_deserialize(&bytes), Err(BlogError::CorruptRecord)));
}

#[test]
fn text_len_counts_bytes() {
    assert_eq!(text_len(&"abc".to_string()), 3);
    assert_eq!(text_len(&"ü".to_string()), 2);
    assert_eq!(text_len(&String::new()), 0);
}

#[test]
fn derivation_is_deterministic_and_scoped() {
    let program = Pubkey::new_from_array([200; 32]);
    let a = Pubkey::new_from_array([1; 32]);
    let b = Pubkey::new_from_array([2; 32]);
    let (x1, bump1) = find_blog_address(&a, "t", &program).unwrap();
    let (x2, bump2) = find_blog_address(&a, "t", &program).unwrap();
    assert_eq!(x1.bytes, x2.bytes);
    assert_eq!(bump1, bump2);
    let (y, _) = find_blog_address(&b, "t", &program).unwrap();
    let (z, _) = find_blog_address(&a, "u", &program).unwrap();
    assert_ne!(x1.bytes, y.bytes);
    assert_ne!(x1.bytes, z.bytes);
    assert_ne!(x1.bytes, a.bytes);
    assert_ne!(x1.bytes, program.bytes);
    assert!(find_blog_address(&a, &"t".repeat(33), &program).is_none());
}

#[test]
fn derivation_matches_host_derivation() {
    let program = anchor_lang::prelude::Pubkey::new_from_array([200; 32]);
    let owner = [1u8; 32];
    let (expected, bump) =
        anchor_lang::prelude::Pubkey::find_program_address(&[b"blog", &owner, b"t"], &program);
    let (got, got_bump) = find_blog_address(
        &Pubkey::new_from_array(owner),
        "t",
        &Pubkey::new_from_array([200; 32]),
    )
    .unwrap();
    assert_eq!(got.bytes, expected.to_bytes());
    assert_eq!(got_bump, bump);
}

#[test]
fn key_comparison() {
    let a = Pubkey::new_from_array([1; 32]);
    let mut raw = [1u8; 32];
    raw[31] = 2;
    let b = Pubkey::new_from_array(raw);
    assert!(a.same_as(&a));
    assert!(!a.same_as(&b));
    assert_eq!(a.to_vec(), vec![1u8; 32]);
}
