use room_ops::create::{
    add_version_fields, creation_follow_ups, FollowUp, create_event_content, creation_allowed, creation_run, publication_allowed, resolve_preset, resolve_room_version,
    room_id_free, InitialStateEvent, Profile, RoomPreset, RoomSet, Visibility,
};
use room_ops::error::ErrorKind;
use room_ops::pdu::{AppendRun, EventContent, GuestAccess, JoinRule, PduSpec, StateProjection, Step};
use room_ops::power_levels::{default_power_levels_content, initial_user_levels, MAX_SAFE_INT};
use room_ops::upgrade::{
    demote_fields, upgrade_create_fields, upgrade_version_check, demoted_power_levels, replacement_room_run, tombstone_event, transferable_state_events, upgraded_create_content,
};

fn field<'a>(fields: &'a [(String, String)], key: &str) -> Option<&'a str> {
    fields.iter().rev().find(|(k, _)| k == key).map(|(_, v)| v.as_str())
}

fn no_profile() -> Profile {
    Profile { displayname: None, avatar_url: None, blurhash: None }
}

fn types(events: &[PduSpec]) -> Vec<&str> {
    events.iter().map(|p| p.event_type.as_str()).collect()
}

fn run_for(
    preset: RoomPreset,
    alias: Option<String>,
    initial_state: Vec<Option<InitialStateEvent>>,
    name: Option<String>,
    topic: Option<String>,
) -> AppendRun {
    let content = create_event_content(None, "10", "@a:x").unwrap();
    let users = initial_user_levels("@a:x", preset == RoomPreset::TrustedPrivateChat, &vec![]);
    let levels = default_power_levels_content(None, preset == RoomPreset::PublicChat, users).unwrap();
    creation_run("@a:x", content, no_profile(), false, levels, alias, preset, initial_state, true, name, topic)
}

#[test]
fn public_room_without_custom_id() {
    let preset = resolve_preset(None, Visibility::Public);
    assert_eq!(preset, RoomPreset::PublicChat);
    let run = run_for(preset, None, vec![], None, None);
    assert_eq!(
        types(&run.events),
        vec!["m.room.create", "m.room.member", "m.room.power_levels", "m.room.join_rules", "m.room.history_visibility", "m.room.guest_access"]
    );
    assert!(matches!(run.events[3].content, EventContent::JoinRules(JoinRule::Public)));
    assert!(matches!(run.events[5].content, EventContent::GuestAccess(GuestAccess::Forbidden)));
    assert!(matches!(run.events[4].content, EventContent::SharedHistory));
    assert_eq!(run.trailing_error, None);
}

#[test]
fn private_room_is_invite_only() {
    let preset = resolve_preset(None, Visibility::Private);
    assert_eq!(preset, RoomPreset::PrivateChat);
    let run = run_for(preset, None, vec![], None, None);
    assert!(matches!(run.events[3].content, EventContent::JoinRules(JoinRule::Invite)));
    assert!(matches!(run.events[5].content, EventContent::GuestAccess(GuestAccess::CanJoin)));
    assert_eq!(resolve_preset(Some(RoomPreset::TrustedPrivateChat), Visibility::Public), RoomPreset::TrustedPrivateChat);
}

#[test]
fn full_creation_order() {
    let initial = vec![Some(InitialStateEvent {
        event_type: "m.room.avatar".to_string(),
        state_key: None,
        content: r#"{"url":"mxc://x/y"}"#.to_string(),
    })];
    let run = run_for(
        RoomPreset::PrivateChat,
        Some("#news:x".to_string()),
        initial,
        Some("News".to_string()),
        Some("Daily".to_string()),
    );
    assert_eq!(
        types(&run.events),
        vec![
            "m.room.create",
            "m.room.member",
            "m.room.power_levels",
            "m.room.canonical_alias",
            "m.room.join_rules",
            "m.room.history_visibility",
            "m.room.guest_access",
            "m.room.avatar",
            "m.room.name",
            "m.room.topic"
        ]
    );
    assert_eq!(run.events[1].state_key.as_deref(), Some("@a:x"));
    assert_eq!(run.events[7].state_key.as_deref(), Some(""));
    assert!(matches!(&run.events[3].content, EventContent::CanonicalAlias(a) if a == "#news:x"));
    assert!(matches!(&run.events[8].content, EventContent::Name(n) if n == "News"));
    assert!(matches!(&run.events[9].content, EventContent::Topic(t) if t == "Daily"));
}

#[test]
fn empty_object_initial_state_is_skipped() {
    let initial = vec![Some(InitialStateEvent {
        event_type: "m.room.avatar".to_string(),
        state_key: Some(String::new()),
        content: "{}".to_string(),
    })];
    let run = run_for(RoomPreset::PrivateChat, None, initial, None, None);
    assert_eq!(run.events.len(), 6);
    assert_eq!(run.trailing_error, None);
    assert_eq!(run.next_step(), Step::Append(0));
}

#[test]
fn encryption_skipped_when_disallowed() {
    let content = create_event_content(None, "11", "@a:x").unwrap();
    let users = initial_user_levels("@a:x", false, &vec![]);
    let levels = default_power_levels_content(None, false, users).unwrap();
    let initial = vec![Some(InitialStateEvent {
        event_type: "m.room.encryption".to_string(),
        state_key: None,
        content: r#"{"algorithm":"m.megolm.v1.aes-sha2"}"#.to_string(),
    })];
    let run = creation_run("@a:x", content, no_profile(), true, levels, None, RoomPreset::PrivateChat, initial, false, None, None);
    assert_eq!(run.events.len(), 6);
}

#[test]
fn unreadable_initial_state_stops_creation() {
    let run = run_for(RoomPreset::PrivateChat, None, vec![None], Some("News".to_string()), None);
    assert_eq!(run.events.len(), 6);
    assert_eq!(run.trailing_error, Some(ErrorKind::InvalidParam));
}

#[test]
fn append_run_stops_at_first_failure() {
    let mut run = run_for(RoomPreset::PrivateChat, None, vec![], None, None);
    assert_eq!(run.next_step(), Step::Append(0));
    run.record(Ok(()));
    assert_eq!(run.next_step(), Step::Append(1));
    run.record(Err(ErrorKind::Forbidden));
    assert_eq!(run.next_step(), Step::Finish(Some(ErrorKind::Forbidden)));
    assert_eq!(run.done, 1);
}

#[test]
fn append_run_finishes_after_last() {
    let mut run = AppendRun::new(vec![tombstone_event("!new:x".to_string())], None);
    run.record(Ok(()));
    assert_eq!(run.next_step(), Step::Finish(None));
}

#[test]
fn create_content_per_version() {
    let legacy = create_event_content(None, "10", "@a:x").unwrap();
    assert_eq!(field(&legacy, "creator"), Some("\"@a:x\""));
    assert_eq!(field(&legacy, "room_version"), Some("\"10\""));
    let modern = create_event_content(None, "11", "@a:x").unwrap();
    assert_eq!(field(&modern, "creator"), None);
    assert_eq!(field(&modern, "room_version"), Some("\"11\""));
    let given = create_event_content(Some(r#"{"m.federate": false, "room_version": "1"}"#), "9", "@a:x").unwrap();
    assert_eq!(field(&given, "m.federate"), Some("false"));
    assert_eq!(field(&given, "room_version"), Some("\"9\""));
    assert_eq!(field(&given, "creator"), Some("\"@a:x\""));
    assert!(matches!(create_event_content(Some("[]"), "9", "@a:x"), Err(ErrorKind::BadDatabase)));
}

#[test]
fn creation_gates() {
    assert_eq!(creation_allowed(false, false, false), Err(ErrorKind::Forbidden));
    assert_eq!(creation_allowed(false, true, false), Ok(()));
    assert_eq!(creation_allowed(false, false, true), Ok(()));
    assert_eq!(creation_allowed(true, false, false), Ok(()));
    assert_eq!(room_id_free(true), Err(ErrorKind::RoomInUse));
    assert_eq!(room_id_free(false), Ok(()));
    assert_eq!(publication_allowed(Visibility::Public, true, false, false), Err(ErrorKind::Forbidden));
    assert_eq!(publication_allowed(Visibility::Public, true, true, false), Ok(()));
    assert_eq!(publication_allowed(Visibility::Private, true, false, false), Ok(()));
}

#[test]
fn room_versions() {
    let supported = vec!["10".to_string(), "11".to_string()];
    assert_eq!(resolve_room_version(None, &supported, "10".to_string()), Ok("10".to_string()));
    assert_eq!(resolve_room_version(Some("11".to_string()), &supported, "10".to_string()), Ok("11".to_string()));
    assert_eq!(resolve_room_version(Some("1".to_string()), &supported, "10".to_string()), Err(ErrorKind::UnsupportedRoomVersion));
}

#[test]
fn custom_id_claimed_once() {
    let mut rooms = RoomSet::new();
    assert!(!rooms.contains("!lobby:x"));
    assert_eq!(rooms.claim("!lobby:x"), Ok(()));
    assert!(rooms.contains("!lobby:x"));
    assert_eq!(rooms.claim("!lobby:x"), Err(ErrorKind::RoomInUse));
}

#[test]
fn last_state_event_wins() {
    let mut state = StateProjection::new();
    for content in ["one", "two", "three"] {
        state.apply("m.room.topic", "", content);
    }
    state.apply("m.room.name", "", "n");
    assert_eq!(state.current("m.room.topic", ""), Some("three".to_string()));
    assert_eq!(state.current("m.room.name", ""), Some("n".to_string()));
    assert_eq!(state.current("m.room.avatar", ""), None);
}

#[test]
fn upgrade_names_predecessor() {
    let old = r#"{"creator":"@old:x","room_version":"10"}"#;
    let fields = upgraded_create_content(Some(old), "11", "@a:x", "!old:x", "$tomb").unwrap();
    assert_eq!(field(&fields, "predecessor"), Some(r#"{"event_id":"$tomb","room_id":"!old:x"}"#));
    assert_eq!(field(&fields, "room_version"), Some("\"11\""));
    assert_eq!(field(&fields, "creator"), None);
    let legacy = upgraded_create_content(Some(old), "9", "@a:x", "!old:x", "$tomb").unwrap();
    assert_eq!(field(&legacy, "creator"), Some("\"@a:x\""));
    assert!(matches!(upgraded_create_content(None, "11", "@a:x", "!old:x", "$t"), Err(ErrorKind::BadDatabase)));
}

#[test]
fn upgrade_transfers_present_state() {
    let content = upgraded_create_content(Some("{}"), "11", "@a:x", "!old:x", "$t").unwrap();
    let mut old_state: Vec<Option<String>> = vec![None; 9];
    old_state[2] = Some(r#"{"name":"N"}"#.to_string());
    old_state[8] = Some(r#"{"users_default":0}"#.to_string());
    let run = replacement_room_run(content, "@a:x", no_profile(), old_state);
    assert_eq!(types(&run.events), vec!["m.room.create", "m.room.member", "m.room.name", "m.room.power_levels"]);
    assert!(matches!(&run.events[2].content, EventContent::Raw(t) if t == r#"{"name":"N"}"#));
    assert_eq!(transferable_state_events().len(), 9);
}

#[test]
fn upgrade_demotes_old_room() {
    let fields = demoted_power_levels(Some(r#"{"users_default": 60, "ban": 50}"#), 60).unwrap();
    assert_eq!(field(&fields, "events_default"), Some("61"));
    assert_eq!(field(&fields, "invite"), Some("61"));
    assert_eq!(field(&fields, "ban"), Some("50"));
    let fields = demoted_power_levels(Some("{}"), 0).unwrap();
    assert_eq!(field(&fields, "events_default"), Some("50"));
    assert_eq!(field(&fields, "invite"), Some("50"));
}

#[test]
fn upgrade_demotion_overflow_is_reported() {
    assert!(matches!(demoted_power_levels(Some(r#"{"users_default": 9007199254740991}"#), MAX_SAFE_INT), Err(ErrorKind::BadJson)));
    assert!(matches!(demoted_power_levels(None, 0), Err(ErrorKind::BadDatabase)));
    assert!(matches!(demoted_power_levels(Some("nope"), 0), Err(ErrorKind::BadDatabase)));
}

#[test]
fn tombstone_content() {
    let t = tombstone_event("!new:x".to_string());
    assert_eq!(t.event_type, "m.room.tombstone");
    assert_eq!(t.state_key.as_deref(), Some(""));
    assert!(matches!(&t.content, EventContent::Tombstone { body, replacement_room }
        if body == "This room has been replaced" && replacement_room == "!new:x"));
}

#[test]
fn public_room_is_published_once() {
    let invites = vec!["@b:x".to_string(), "@c:x".to_string()];
    let steps = creation_follow_ups(&invites, Some("#news:x".to_string()), Visibility::Public);
    assert_eq!(steps.len(), 4);
    assert!(matches!(&steps[0], FollowUp::Invite(u) if u == "@b:x"));
    assert!(matches!(&steps[1], FollowUp::Invite(u) if u == "@c:x"));
    assert!(matches!(&steps[2], FollowUp::BindAlias(a) if a == "#news:x"));
    assert!(matches!(&steps[3], FollowUp::Publish));
    assert_eq!(steps.iter().filter(|s| matches!(s, FollowUp::Publish)).count(), 1);
    let private = creation_follow_ups(&invites, None, Visibility::Private);
    assert_eq!(private.len(), 2);
    assert!(!private.iter().any(|s| matches!(s, FollowUp::Publish)));
}

#[test]
fn version_fields_on_given_content() {
    let fields = add_version_fields(vec![("type".to_string(), "\"m.space\"".to_string())], "11", "@a:x");
    assert_eq!(field(&fields, "type"), Some("\"m.space\""));
    assert_eq!(field(&fields, "room_version"), Some("\"11\""));
    assert_eq!(field(&fields, "creator"), None);
}

#[test]
fn upgrade_fields_drop_creator_for_new_versions() {
    let old = vec![("creator".to_string(), "\"@old:x\"".to_string()), ("creator".to_string(), "\"@older:x\"".to_string())];
    let fields = upgrade_create_fields(old, "11", "@a:x", "!old:x", "$t");
    assert_eq!(field(&fields, "creator"), None);
    assert_eq!(field(&fields, "predecessor"), Some(r#"{"event_id":"$t","room_id":"!old:x"}"#));
}

#[test]
fn demote_fields_levels() {
    let fields = demote_fields(vec![], 100).unwrap();
    assert_eq!(field(&fields, "events_default"), Some("101"));
    assert_eq!(field(&fields, "invite"), Some("101"));
    assert!(matches!(demote_fields(vec![], MAX_SAFE_INT), Err(ErrorKind::BadJson)));
}

#[test]
fn room_lock_is_exclusive_per_room() {
    let mut held = RoomSet::new();
    assert_eq!(held.claim("!a:x"), Ok(()));
    assert_eq!(held.claim("!b:x"), Ok(()));
    assert_eq!(held.claim("!a:x"), Err(ErrorKind::RoomInUse));
    held.release("!a:x");
    assert!(!held.contains("!a:x"));
    assert!(held.contains("!b:x"));
    assert_eq!(held.claim("!a:x"), Ok(()));
}

#[test]
fn upgrade_needs_supported_version() {
    let supported = vec!["10".to_string(), "11".to_string()];
    assert_eq!(upgrade_version_check("11", &supported), Ok(()));
    assert_eq!(upgrade_version_check("12", &supported), Err(ErrorKind::UnsupportedRoomVersion));
}
