use identifier::hex::{decode_digits, digit_char, digit_of, encode, normalize};
use identifier::identifier::{format_raw, read_raw};
use identifier::{Id, Identifier, ParseError, RawValue, Strategy};

#[derive(Debug)]
struct Fixed128;

impl Strategy<u128> for Fixed128 {
    fn accepts(_: u128) -> bool {
        true
    }

    fn may_generate(v: u128) -> bool {
        v == 0x1234567890_abcdef_1234567890_abcdef
    }

    fn generate() -> u128 {
        0x1234567890_abcdef_1234567890_abcdef
    }

    fn validate(_: u128) -> bool {
        true
    }
}

type UserId = Id<u128, Fixed128>;

#[derive(Debug)]
struct Fixed64;

impl Strategy<u64> for Fixed64 {
    fn accepts(_: u64) -> bool {
        true
    }

    fn may_generate(v: u64) -> bool {
        v == 0x1234567890_abcdef
    }

    fn generate() -> u64 {
        0x1234567890_abcdef
    }

    fn validate(_: u64) -> bool {
        true
    }
}

#[derive(Debug)]
struct Fixed32;

impl Strategy<u32> for Fixed32 {
    fn accepts(_: u32) -> bool {
        true
    }

    fn may_generate(v: u32) -> bool {
        v == 0x12345678
    }

    fn generate() -> u32 {
        0x12345678
    }

    fn validate(_: u32) -> bool {
        true
    }
}

const PREFIX: u32 = 0x12345678;
const SUFFIX: u32 = 0x90abcdef;

fn generate_with(prefix: u32, suffix: u32) -> u128 {
    let rand: u128 = 0x01010101_10101010;
    ((prefix as u128) << 96) + (rand << 32) + suffix as u128
}

fn validate_with(value: u128, prefix: u32, suffix: u32) -> bool {
    (value >> 96) as u32 == prefix && value as u32 == suffix
}

#[derive(Debug)]
struct PrefixSuffix;

impl Strategy<u128> for PrefixSuffix {
    fn accepts(v: u128) -> bool {
        validate_with(v, PREFIX, SUFFIX)
    }

    fn may_generate(v: u128) -> bool {
        v == generate_with(PREFIX, SUFFIX)
    }

    fn generate() -> u128 {
        generate_with(PREFIX, SUFFIX)
    }

    fn validate(v: u128) -> bool {
        validate_with(v, PREFIX, SUFFIX)
    }
}

type ParamId = Id<u128, PrefixSuffix>;

const KIND_USER: u32 = 0x1111_ffff;
const SEED: u16 = 0xabcd;

fn generate_kind(kind: u32, seed: u16) -> u128 {
    let random_number = 0x1234_0000 + (seed as u128);
    ((kind as u128) << 96) + random_number
}

fn validate_kind(value: u128, kind: u32, _: u16) -> bool {
    (value >> 96) as u32 == kind
}

#[derive(Debug)]
struct KindUser;

impl Strategy<u128> for KindUser {
    fn accepts(v: u128) -> bool {
        validate_kind(v, KIND_USER, SEED)
    }

    fn may_generate(v: u128) -> bool {
        v == generate_kind(KIND_USER, SEED)
    }

    fn generate() -> u128 {
        generate_kind(KIND_USER, SEED)
    }

    fn validate(v: u128) -> bool {
        validate_kind(v, KIND_USER, SEED)
    }
}

type KindUserId = Id<u128, KindUser>;

/// A generator that makes values its validator rejects.
#[derive(Debug)]
struct Disagreeing;

impl Strategy<u32> for Disagreeing {
    fn accepts(v: u32) -> bool {
        v % 2 == 0
    }

    fn may_generate(v: u32) -> bool {
        v == 7
    }

    fn generate() -> u32 {
        7
    }

    fn validate(v: u32) -> bool {
        v % 2 == 0
    }
}

#[test]
fn simple_generate_matches_parsed() {
    let id = UserId::generate();
    let expected_id: UserId = "1234567890-abcdef-1234567890-abcdef".parse().unwrap();
    assert_eq!(id, expected_id);
}

#[test]
fn generate_gives_generator_value_and_format() {
    let id = UserId::generate();
    assert_eq!(id.inner_value(), 0x1234567890abcdef1234567890abcdef);
    assert_eq!(id.format(), "1234567890abcdef1234567890abcdef");
}

#[test]
fn parse_with_dashes_gives_generated_value() {
    let id = UserId::parse_str("1234567890-abcdef-1234567890-abcdef").unwrap();
    assert_eq!(id.inner_value(), 0x1234567890abcdef1234567890abcdef);
}

#[test]
fn parse_31_digits_is_invalid_length() {
    let r = UserId::parse_str("1234567890abcdef1234567890abcde");
    assert_eq!(r, Err(ParseError::InvalidLength));
}

#[test]
fn parse_trailing_g_is_invalid_chars() {
    let r = UserId::parse_str("1234567890abcdef1234567890abcdeg");
    assert_eq!(r, Err(ParseError::InvalidChars));
}

#[test]
fn params_generate_matches_parsed() {
    let id = ParamId::generate();
    let expected_id: ParamId = "12345678-01010101-10101010-90abcdef".parse().unwrap();
    assert_eq!(id, expected_id);
}

#[test]
fn params_prefix_mismatch_is_invalid() {
    let r = "00000000-01010101-10101010-12345678".parse::<ParamId>();
    assert_eq!(r, Err(ParseError::Invalid));
}

#[test]
fn params_suffix_mismatch_is_invalid() {
    let r = "12345678-01010101-10101010-00000000".parse::<ParamId>();
    assert_eq!(r, Err(ParseError::Invalid));
}

#[test]
fn u64_generate_matches_parsed() {
    let id = Id::<u64, Fixed64>::generate();
    let expected_id: Id<u64, Fixed64> = "1234567890-abcdef".parse().unwrap();
    assert_eq!(id, expected_id);
    assert_eq!(id.format(), "1234567890abcdef");
}

#[test]
fn u32_generate_matches_parsed() {
    let id = Id::<u32, Fixed32>::generate();
    let expected_id: Id<u32, Fixed32> = "12345678".parse().unwrap();
    assert_eq!(id, expected_id);
    assert_eq!(id.format(), "12345678");
}

#[test]
fn hex_lengths_follow_width() {
    assert_eq!(<u32 as RawValue>::hex_length(), 8);
    assert_eq!(<u64 as RawValue>::hex_length(), 16);
    assert_eq!(<u128 as RawValue>::hex_length(), 32);
}

#[test]
fn format_pads_with_zeros() {
    assert_eq!(Id::<u32, Fixed32>::new(0x1f).format(), "0000001f");
    assert_eq!(Id::<u64, Fixed64>::new(0).format(), "0000000000000000");
    assert_eq!(UserId::new(1).format(), "00000000000000000000000000000001");
}

#[test]
fn format_of_largest_values() {
    assert_eq!(Id::<u32, Fixed32>::new(u32::MAX).format(), "ffffffff");
    assert_eq!(Id::<u64, Fixed64>::new(u64::MAX).format(), "ffffffffffffffff");
    assert_eq!(UserId::new(u128::MAX).format(), "ffffffffffffffffffffffffffffffff");
}

#[test]
fn round_trip_of_several_values() {
    for v in [0u128, 1, 0xdeadbeef, u128::MAX, 0x0123456789abcdef0123456789abcdef] {
        let id = UserId::new(v);
        assert_eq!(UserId::parse_str(&id.format()), Ok(UserId::new(v)));
    }
    for v in [0u32, 9, 0xabcdef01, u32::MAX] {
        let id = Id::<u32, Fixed32>::new(v);
        assert_eq!(Id::<u32, Fixed32>::parse_str(&id.format()).unwrap().inner_value(), v);
    }
}

#[test]
fn uppercase_digits_are_accepted() {
    let r = Id::<u32, Fixed32>::parse_str("ABCDEF01").unwrap();
    assert_eq!(r.inner_value(), 0xabcdef01);
    assert_eq!(r.format(), "abcdef01");
    let m = Id::<u32, Fixed32>::parse_str("aBcD-eF01").unwrap();
    assert_eq!(m.inner_value(), 0xabcdef01);
}

#[test]
fn dashes_anywhere_are_ignored() {
    let plain = Id::<u32, Fixed32>::parse_str("12345678");
    for s in ["-12345678", "12345678-", "1-2-3-4-5-6-7-8", "--1234----5678--", "1234-5678"] {
        assert_eq!(Id::<u32, Fixed32>::parse_str(s), plain);
    }
    let bad = Id::<u32, Fixed32>::parse_str("1234567g");
    assert_eq!(Id::<u32, Fixed32>::parse_str("1234-567g"), bad);
    assert_eq!(bad, Err(ParseError::InvalidChars));
}

#[test]
fn length_is_checked_before_characters() {
    assert_eq!(Id::<u32, Fixed32>::parse_str("xyz"), Err(ParseError::InvalidLength));
    assert_eq!(Id::<u32, Fixed32>::parse_str("ggggggggg"), Err(ParseError::InvalidLength));
    assert_eq!(Id::<u32, Fixed32>::parse_str(""), Err(ParseError::InvalidLength));
    assert_eq!(Id::<u32, Fixed32>::parse_str("--------"), Err(ParseError::InvalidLength));
    assert_eq!(Id::<u32, Fixed32>::parse_str("123456789"), Err(ParseError::InvalidLength));
}

#[test]
fn non_digits_of_right_length_are_invalid_chars() {
    assert_eq!(Id::<u32, Fixed32>::parse_str("+1234567"), Err(ParseError::InvalidChars));
    assert_eq!(Id::<u32, Fixed32>::parse_str("1234 567"), Err(ParseError::InvalidChars));
    assert_eq!(Id::<u32, Fixed32>::parse_str("1234567\u{e9}"), Err(ParseError::InvalidChars));
    assert_eq!(Id::<u64, Fixed64>::parse_str("0x34567890abcdef"), Err(ParseError::InvalidChars));
}

#[test]
fn characters_are_checked_before_validator() {
    assert_eq!(
        ParamId::parse_str("zz345678-01010101-10101010-90abcdef"),
        Err(ParseError::InvalidChars)
    );
}

#[test]
fn generate_is_not_validated() {
    let id = Id::<u32, Disagreeing>::generate();
    assert_eq!(id.inner_value(), 7);
    assert_eq!(id.format(), "00000007");
    assert_eq!(Id::<u32, Disagreeing>::parse_str(&id.format()), Err(ParseError::Invalid));
    assert_eq!(Id::<u32, Disagreeing>::parse_str("00000008").unwrap().inner_value(), 8);
}

#[test]
fn new_and_inner_value_do_not_validate() {
    let id = ParamId::new(5);
    assert_eq!(id.inner_value(), 5);
    assert_ne!(ParamId::new(5), ParamId::new(6));
    assert_eq!(ParamId::new(6), ParamId::new(6));
}

#[test]
fn normalize_drops_only_dashes() {
    assert_eq!(normalize("1-2--3"), "123");
    assert_eq!(normalize("---"), "");
    assert_eq!(normalize("a_b c"), "a_b c");
    assert_eq!(normalize("AbC-d"), "AbCd");
}

#[test]
fn hex_digit_helpers() {
    assert_eq!(digit_of('0'), Some(0));
    assert_eq!(digit_of('9'), Some(9));
    assert_eq!(digit_of('a'), Some(10));
    assert_eq!(digit_of('F'), Some(15));
    assert_eq!(digit_of('g'), None);
    assert_eq!(digit_of('-'), None);
    assert_eq!(digit_char(0), '0');
    assert_eq!(digit_char(11), 'b');
    assert_eq!(digit_char(15), 'f');
}

#[test]
fn decode_and_encode_digits() {
    assert_eq!(decode_digits(&vec!['1', 'A']), Some(26));
    assert_eq!(decode_digits(&vec![]), Some(0));
    assert_eq!(decode_digits(&vec!['1', 'x']), None);
    assert_eq!(encode(26, 4), "001a");
    assert_eq!(encode(0x1234, 2), "34");
    assert_eq!(encode(5, 0), "");
}

#[test]
fn read_and_format_raw_values() {
    assert_eq!(read_raw::<u32>("0000-001F"), Ok(0x1f));
    assert_eq!(read_raw::<u64>("1"), Err(ParseError::InvalidLength));
    assert_eq!(read_raw::<u32>("0000001G"), Err(ParseError::InvalidChars));
    assert_eq!(format_raw(0xabu32), "000000ab");
    assert_eq!(format_raw(0xabu64), "00000000000000ab");
}

#[test]
fn kind_user_generate_matches_parsed() {
    let id = KindUserId::generate();
    let expected_id: KindUserId = "1111ffff-00000000-00000000-1234abcd".parse().unwrap();
    assert_eq!(id, expected_id);
    assert_eq!(id.inner_value(), 0x1111ffff_00000000_00000000_1234abcd);

    let parse_error = "0000ffff-00000000-00000000-1234abcd".parse::<KindUserId>();
    assert_eq!(parse_error, Err(ParseError::Invalid));
}

#[test]
fn uppercase_text_parses_through_from_str() {
    let upper: UserId = "1234567890ABCDEF-1234567890ABCDEF".parse().unwrap();
    let lower: UserId = "1234567890abcdef1234567890abcdef".parse().unwrap();
    assert_eq!(upper, lower);
    assert_eq!(upper.inner_value(), 0x1234567890abcdef1234567890abcdef);
}
