use room_ops::error::ErrorKind;
use room_ops::ident::{alias_claim_check, custom_room_id_check, read_access, room_alias_check, AliasRequester};

#[test]
fn custom_room_id_is_qualified() {
    assert_eq!(custom_room_id_check("lobby", "example.com", false), Ok("!lobby:example.com".to_string()));
}

#[test]
fn custom_room_id_with_colon_is_invalid() {
    assert_eq!(custom_room_id_check("lobby:example.com", "example.com", false), Err(ErrorKind::InvalidParam));
}

#[test]
fn custom_room_id_with_space_is_invalid() {
    assert_eq!(custom_room_id_check("my room", "example.com", false), Err(ErrorKind::InvalidParam));
    assert_eq!(custom_room_id_check("tab\there", "example.com", false), Err(ErrorKind::InvalidParam));
    assert_eq!(custom_room_id_check("nbsp\u{a0}", "example.com", false), Err(ErrorKind::InvalidParam));
}

#[test]
fn separator_beats_forbidden_name() {
    assert_eq!(custom_room_id_check("a:b", "example.com", true), Err(ErrorKind::InvalidParam));
    assert_eq!(room_alias_check("a b", "example.com", true), Err(ErrorKind::InvalidParam));
}

#[test]
fn forbidden_custom_room_id_is_unknown() {
    assert_eq!(custom_room_id_check("admin", "example.com", true), Err(ErrorKind::Unknown));
}

#[test]
fn overlong_custom_room_id_fails_to_parse() {
    let long = "x".repeat(300);
    assert_eq!(custom_room_id_check(&long, "example.com", false), Err(ErrorKind::InvalidParam));
    let fits = "x".repeat(255 - ":example.com".len() - 1);
    assert!(custom_room_id_check(&fits, "example.com", false).is_ok());
}

#[test]
fn alias_is_qualified() {
    assert_eq!(room_alias_check("news", "example.com", false), Ok("#news:example.com".to_string()));
}

#[test]
fn alias_rules() {
    assert_eq!(room_alias_check("news:x", "example.com", false), Err(ErrorKind::InvalidParam));
    assert_eq!(room_alias_check("news\n", "example.com", false), Err(ErrorKind::InvalidParam));
    assert_eq!(room_alias_check("news", "example.com", true), Err(ErrorKind::Unknown));
}

#[test]
fn alias_on_bad_server_name_fails_to_parse() {
    assert_eq!(room_alias_check("news", "bad_host!", false), Err(ErrorKind::InvalidParam));
}

#[test]
fn alias_claims() {
    assert_eq!(alias_claim_check(true, AliasRequester::User { reserved: false }), Err(ErrorKind::RoomInUse));
    assert_eq!(alias_claim_check(false, AliasRequester::User { reserved: true }), Err(ErrorKind::Exclusive));
    assert_eq!(alias_claim_check(false, AliasRequester::User { reserved: false }), Ok(()));
    assert_eq!(alias_claim_check(false, AliasRequester::Appservice { in_namespace: false }), Err(ErrorKind::Exclusive));
    assert_eq!(alias_claim_check(false, AliasRequester::Appservice { in_namespace: true }), Ok(()));
    assert_eq!(alias_claim_check(true, AliasRequester::Appservice { in_namespace: true }), Err(ErrorKind::RoomInUse));
}

#[test]
fn read_access_rules() {
    assert_eq!(read_access(false, true), Err(ErrorKind::NotFound));
    assert_eq!(read_access(true, false), Err(ErrorKind::Forbidden));
    assert_eq!(read_access(true, true), Ok(()));
}
