use matios_host::host_machine::HostMachine;
use matios_host::uuid::{ParseUuidError, Uuid};

#[test]
fn from_u128_round_trips() {
    let v: u128 = 0x1234_5678_9abc_def0_0fed_cba9_8765_4321;
    assert_eq!(Uuid::from_u128(v).as_u128(), v);
    assert_eq!(Uuid::from_u128(0).as_u128(), 0);
    assert_eq!(Uuid::from_u128(u128::MAX).as_u128(), u128::MAX);
}

#[test]
fn parses_hyphenated_lower_case() {
    let u = Uuid::parse_str("7b16bee9-d0b8-4bd5-86d7-8225840ce006").unwrap();
    assert_eq!(u.as_u128(), 0x7b16bee9_d0b8_4bd5_86d7_8225840ce006);
}

#[test]
fn parses_hyphenated_upper_case() {
    let u = Uuid::parse_str("7B16BEE9-D0B8-4BD5-86D7-8225840CE006").unwrap();
    assert_eq!(u.as_u128(), 0x7b16bee9_d0b8_4bd5_86d7_8225840ce006);
}

#[test]
fn parses_simple_braced_and_urn_forms_alike() {
    let h = Uuid::parse_str("bce7baa2-c3e2-4f7f-9d42-42c94065f5f0").unwrap();
    let s = Uuid::parse_str("bce7baa2c3e24f7f9d4242c94065f5f0").unwrap();
    let b = Uuid::parse_str("{bce7baa2-c3e2-4f7f-9d42-42c94065f5f0}").unwrap();
    let n = Uuid::parse_str("urn:uuid:bce7baa2-c3e2-4f7f-9d42-42c94065f5f0").unwrap();
    assert_eq!(h, s);
    assert_eq!(h, b);
    assert_eq!(h, n);
    assert_eq!(h.as_u128(), 0xbce7baa2_c3e2_4f7f_9d42_42c94065f5f0);
}

#[test]
fn parses_nil_and_max() {
    assert_eq!(Uuid::parse_str("00000000-0000-0000-0000-000000000000").unwrap().as_u128(), 0);
    assert_eq!(
        Uuid::parse_str("ffffffff-ffff-ffff-ffff-ffffffffffff").unwrap().as_u128(),
        u128::MAX
    );
}

#[test]
fn rejects_wrong_lengths() {
    assert_eq!(Uuid::parse_str(""), Err(ParseUuidError));
    assert_eq!(Uuid::parse_str("7b16bee9-d0b8-4bd5-86d7-8225840ce00"), Err(ParseUuidError));
    assert_eq!(Uuid::parse_str("7b16bee9-d0b8-4bd5-86d7-8225840ce0066"), Err(ParseUuidError));
}

#[test]
fn rejects_non_hex_digits() {
    assert_eq!(Uuid::parse_str("7b16bee9-d0b8-4bd5-86d7-8225840ce00g"), Err(ParseUuidError));
    assert_eq!(Uuid::parse_str("zb16bee9d0b84bd586d78225840ce006"), Err(ParseUuidError));
}

#[test]
fn rejects_misplaced_hyphens_and_bad_wrappers() {
    assert_eq!(Uuid::parse_str("7b16bee9d-0b8-4bd5-86d7-8225840ce006"), Err(ParseUuidError));
    assert_eq!(Uuid::parse_str("(7b16bee9-d0b8-4bd5-86d7-8225840ce006)"), Err(ParseUuidError));
    assert_eq!(Uuid::parse_str("urn:uuie:7b16bee9-d0b8-4bd5-86d7-8225840ce006"), Err(ParseUuidError));
    assert_eq!(Uuid::parse_str("7b16bee9-d0b8-4bd5-86d7-8225840ce0é6"), Err(ParseUuidError));
}

#[test]
fn host_machine_guid_is_fixed() {
    assert_eq!(
        HostMachine::getCurrentHostMachineGuid().as_u128(),
        0x00000000_0000_0000_0000_100000000000
    );
}
