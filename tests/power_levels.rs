use room_ops::error::ErrorKind;
use room_ops::memory::{memory_stats, memory_usage};
use room_ops::power_levels::{
    default_power_levels_content, demotion_level, power_levels_with_override, initial_user_levels, FieldValue, PowerLevelsContent, MAX_SAFE_INT,
};

fn field<'a>(c: &'a PowerLevelsContent, key: &str) -> Option<&'a FieldValue> {
    c.fields.iter().rev().find(|(k, _)| k == key).map(|(_, v)| v)
}

fn level(levels: &[(String, i64)], key: &str) -> Option<i64> {
    levels.iter().rev().find(|(k, _)| k == key).map(|(_, l)| *l)
}

fn events(c: &PowerLevelsContent) -> Vec<(String, i64)> {
    match field(c, "events") {
        Some(FieldValue::Levels(v)) => v.clone(),
        _ => panic!("events is not a level map"),
    }
}

const HARDENED: [&str; 5] = [
    "m.room.power_levels",
    "m.room.server_acl",
    "m.room.tombstone",
    "m.room.encryption",
    "m.room.history_visibility",
];

const CALLS: [&str; 5] = ["m.call.invite", "m.call", "m.call.member", "org.matrix.msc3401.call", "org.matrix.msc3401.call.member"];

#[test]
fn private_room_defaults() {
    let c = default_power_levels_content(None, false, vec![("@a:x".to_string(), 100)]).unwrap();
    let ev = events(&c);
    for k in HARDENED {
        assert_eq!(level(&ev, k), Some(100));
    }
    assert_eq!(level(&ev, "m.poll.response"), Some(0));
    assert_eq!(level(&ev, "org.matrix.msc3381.poll.response"), Some(0));
    for k in CALLS {
        assert_eq!(level(&ev, k), None);
    }
    match field(&c, "users") {
        Some(FieldValue::Levels(u)) => assert_eq!(level(u, "@a:x"), Some(100)),
        _ => panic!("users is not a level map"),
    }
}

#[test]
fn public_room_restricts_calls() {
    let c = default_power_levels_content(None, true, vec![]).unwrap();
    let ev = events(&c);
    for k in CALLS {
        assert_eq!(level(&ev, k), Some(50));
    }
}

#[test]
fn override_keeps_hardened_keys_when_events_untouched() {
    let c = default_power_levels_content(Some(r#"{"ban": 0, "kick": 10}"#), true, vec![]).unwrap();
    let ev = events(&c);
    for k in HARDENED {
        assert_eq!(level(&ev, k), Some(100));
    }
    for k in CALLS {
        assert_eq!(level(&ev, k), Some(50));
    }
    assert!(matches!(field(&c, "ban"), Some(FieldValue::Json(t)) if t == "0"));
    assert!(matches!(field(&c, "kick"), Some(FieldValue::Json(t)) if t == "10"));
}

#[test]
fn override_replaces_whole_events_field() {
    let c = default_power_levels_content(Some(r#"{"events": {"m.room.name": 20}}"#), false, vec![]).unwrap();
    assert!(matches!(field(&c, "events"), Some(FieldValue::Json(t)) if t == r#"{"m.room.name":20}"#));
}

#[test]
fn override_that_is_not_an_object_is_bad_json() {
    assert!(matches!(default_power_levels_content(Some("[1, 2]"), false, vec![]), Err(ErrorKind::BadJson)));
    assert!(matches!(default_power_levels_content(Some("{not json"), false, vec![]), Err(ErrorKind::BadJson)));
}

#[test]
fn trusted_private_chat_invitees_at_full_level() {
    let invites = vec!["@b:x".to_string(), "@c:x".to_string()];
    let users = initial_user_levels("@a:x", true, &invites);
    assert_eq!(level(&users, "@a:x"), Some(100));
    assert_eq!(level(&users, "@b:x"), Some(100));
    assert_eq!(level(&users, "@c:x"), Some(100));
    let users = initial_user_levels("@a:x", false, &invites);
    assert_eq!(users, vec![("@a:x".to_string(), 100)]);
}

#[test]
fn demotion_levels() {
    assert_eq!(demotion_level(0), Ok(50));
    assert_eq!(demotion_level(49), Ok(50));
    assert_eq!(demotion_level(50), Ok(51));
    assert_eq!(demotion_level(-MAX_SAFE_INT), Ok(50));
    assert_eq!(demotion_level(MAX_SAFE_INT - 1), Ok(MAX_SAFE_INT));
}

#[test]
fn demotion_at_max_int_is_reported() {
    assert_eq!(demotion_level(MAX_SAFE_INT), Err(ErrorKind::BadJson));
}

#[test]
fn memory_reports() {
    assert_eq!(memory_usage(), "");
    assert_eq!(memory_stats(), "Extended statistics are not available from hardened_malloc.");
}

#[test]
fn parsed_override_goes_on_top() {
    let c = power_levels_with_override(
        Some(vec![("users".to_string(), r#"{"@z:x":1}"#.to_string())]),
        false,
        vec![("@a:x".to_string(), 100)],
    );
    assert!(matches!(field(&c, "users"), Some(FieldValue::Json(t)) if t == r#"{"@z:x":1}"#));
    let ev = events(&c);
    assert_eq!(level(&ev, "m.room.tombstone"), Some(100));
}
