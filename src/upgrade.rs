use vstd::prelude::*;

use crate::create::{is_legacy_version, join_event, join_view, legacy_version, list_contains, Profile};
use crate::error::ErrorKind;
use crate::json::{
    canonical_object_fields, json_object_fields, json_string, json_string_of,
    parse_canonical_object, parse_json_object, remove_field, set_field, text_fields,
};
use crate::pdu::{
    pdus_view, room_state, state_event, AppendRun, ContentView, EventContent, PduSpec, PduView,
};
use crate::power_levels::{demoted_level, demotion_level, is_listed, MAX_SAFE_INT};

verus! {

/// A room can only be replaced by one of a version this server supports.
pub fn upgrade_version_check(new_version: &str, supported: &Vec<String>) -> (r: Result<(), ErrorKind>)
    ensures
        r == (if is_listed(supported@, new_version@) {
            Ok(())
        } else {
            Err(ErrorKind::UnsupportedRoomVersion)
        }),
{
    if list_contains(supported, new_version) {
        Ok(())
    } else {
        Err(ErrorKind::UnsupportedRoomVersion)
    }
}

/// The integer as serde_json writes it.
pub uninterp spec fn json_integer_of(i: int) -> Seq<char>;

/// Relies on serde_json's `Value::from(i64)` and its `Display`.
#[verifier::external_body]
fn json_integer(i: i64) -> (r: String)
    ensures
        r@ == json_integer_of(i as int),
{
    serde_json::Value::from(i).to_string()
}

/// The tombstone that closes a replaced room.
pub fn tombstone_event(replacement_room: String) -> (r: PduSpec)
    ensures
        r@ == room_state(
            "m.room.tombstone"@,
            ContentView::Tombstone {
                body: "This room has been replaced"@,
                replacement_room: replacement_room@,
            },
        ),
{
    state_event(
        "m.room.tombstone",
        EventContent::Tombstone {
            body: "This room has been replaced".to_owned(),
            replacement_room,
        },
    )
}

/// `{"event_id":<tombstone>,"room_id":<old room>}` in canonical form: the predecessor that a
/// replacement room's create event names.
pub open spec fn predecessor_json(room_id: Seq<char>, event_id: Seq<char>) -> Seq<char> {
    "{\"event_id\":"@ + json_string_of(event_id) + ",\"room_id\":"@ + json_string_of(room_id) + "}"@
}

fn predecessor_text(room_id: &str, event_id: &str) -> (r: String)
    ensures
        r@ == predecessor_json(room_id@, event_id@),
{
    let mut r = "{\"event_id\":".to_owned();
    r.append(json_string(event_id).as_str());
    r.append(",\"room_id\":");
    r.append(json_string(room_id).as_str());
    r.append("}");
    r
}

/// The replacement room's create-event fields made from the old room's: `creator` set to
/// the sender for a legacy target version and removed otherwise, `room_version` set to the
/// target version, and `predecessor` naming the old room and its tombstone.
pub open spec fn upgraded_create_fields(
    old: Map<Seq<char>, Seq<char>>,
    new_version: Seq<char>,
    sender: Seq<char>,
    old_room: Seq<char>,
    tombstone_event_id: Seq<char>,
) -> Map<Seq<char>, Seq<char>> {
    let f = if legacy_version(new_version) {
        old.insert("creator"@, json_string_of(sender))
    } else {
        old.remove("creator"@)
    };
    f.insert("room_version"@, json_string_of(new_version)).insert(
        "predecessor"@,
        predecessor_json(old_room, tombstone_event_id),
    )
}

/// Content of the replacement room's create event, from the old room's create content (JSON
/// text). A missing or unreadable old create event is `BadDatabase`.
pub fn upgraded_create_content(
    old_create: Option<&str>,
    new_version: &str,
    sender: &str,
    old_room: &str,
    tombstone_event_id: &str,
) -> (r: Result<Vec<(String, String)>, ErrorKind>)
    ensures
        match old_create {
            None => r == Err::<Vec<(String, String)>, ErrorKind>(ErrorKind::BadDatabase),
            Some(t) => match canonical_object_fields(t@) {
                None => r == Err::<Vec<(String, String)>, ErrorKind>(ErrorKind::BadDatabase),
                Some(old) => r matches Ok(f) && text_fields(f@) == upgraded_create_fields(
                    old,
                    new_version@,
                    sender@,
                    old_room@,
                    tombstone_event_id@,
                ),
            },
        },
{
    let t = match old_create {
        Some(t) => t,
        None => return Err(ErrorKind::BadDatabase),
    };
    match parse_canonical_object(t) {
        Ok(f) => Ok(upgrade_create_fields(f, new_version, sender, old_room, tombstone_event_id)),
        Err(()) => Err(ErrorKind::BadDatabase),
    }
}

/// Rewrites the old room's create-event fields for its replacement: see
/// `upgraded_create_fields`.
pub fn upgrade_create_fields(
    fields: Vec<(String, String)>,
    new_version: &str,
    sender: &str,
    old_room: &str,
    tombstone_event_id: &str,
) -> (r: Vec<(String, String)>)
    ensures
        text_fields(r@) == upgraded_create_fields(
            text_fields(fields@),
            new_version@,
            sender@,
            old_room@,
            tombstone_event_id@,
        ),
{
    let mut fields = fields;
    if is_legacy_version(new_version) {
        set_field(&mut fields, "creator", json_string(sender));
    } else {
        remove_field(&mut fields, "creator");
    }
    set_field(&mut fields, "room_version", json_string(new_version));
    set_field(&mut fields, "predecessor", predecessor_text(old_room, tombstone_event_id));
    fields
}

/// A replacement room's create content names the old room and its tombstone as the
/// predecessor; the old room's demoted power levels put `events_default` and `invite` both at
/// the greater of 50 and `users_default + 1`.
pub proof fn lemma_upgrade_links_and_demotes(
    old_create: Map<Seq<char>, Seq<char>>,
    new_version: Seq<char>,
    sender: Seq<char>,
    old_room: Seq<char>,
    tombstone_event_id: Seq<char>,
    old_power_levels: Map<Seq<char>, Seq<char>>,
    users_default: int,
)
    ensures
        upgraded_create_fields(old_create, new_version, sender, old_room, tombstone_event_id)["predecessor"@]
            == predecessor_json(old_room, tombstone_event_id),
        demoted_level(users_default) matches Some(l) ==> ({
            let m = old_power_levels.insert("events_default"@, json_integer_of(l)).insert(
                "invite"@,
                json_integer_of(l),
            );
            m["events_default"@] == json_integer_of(l) && m["invite"@] == json_integer_of(l) && l
                >= 50 && l >= users_default + 1 && (l == 50 || l == users_default + 1)
        }),
{
    reveal_strlit("events_default");
    reveal_strlit("invite");
    assert("events_default"@.len() == 14);
    assert("invite"@.len() == 6);
}

/// The state event types carried over to a replacement room, in order.
pub open spec fn transferable_types() -> Seq<Seq<char>> {
    seq![
        "m.room.server_acl"@,
        "m.room.encryption"@,
        "m.room.name"@,
        "m.room.avatar"@,
        "m.room.topic"@,
        "m.room.guest_access"@,
        "m.room.history_visibility"@,
        "m.room.join_rules"@,
        "m.room.power_levels"@,
    ]
}

pub fn transferable_state_events() -> (r: Vec<String>)
    ensures
        r@.len() == transferable_types().len(),
        forall|i: int| 0 <= i < r@.len() ==> #[trigger] r@[i]@ == transferable_types()[i],
{
    let mut r: Vec<String> = Vec::new();
    r.push("m.room.server_acl".to_owned());
    r.push("m.room.encryption".to_owned());
    r.push("m.room.name".to_owned());
    r.push("m.room.avatar".to_owned());
    r.push("m.room.topic".to_owned());
    r.push("m.room.guest_access".to_owned());
    r.push("m.room.history_visibility".to_owned());
    r.push("m.room.join_rules".to_owned());
    r.push("m.room.power_levels".to_owned());
    r
}

/// The transferred events: for each transferable type whose old content is present (JSON
/// text), that content verbatim under the same type; absent ones are skipped.
pub open spec fn transfer_pdus(old: Seq<Option<String>>) -> Seq<PduView>
    decreases old.len(),
{
    if old.len() == 0 {
        Seq::empty()
    } else {
        let prev = transfer_pdus(old.drop_last());
        match old.last() {
            Some(c) => prev.push(room_state(transferable_types()[old.len() - 1], ContentView::Raw(c@))),
            None => prev,
        }
    }
}

/// The run of appends in a replacement room: its create event, the sender's join, then the
/// transferred state. `old_state[i]` is the old room's content for the `i`-th transferable
/// type, if it has one.
pub fn replacement_room_run(
    create_content: Vec<(String, String)>,
    sender: &str,
    profile: Profile,
    old_state: Vec<Option<String>>,
) -> (r: AppendRun)
    requires
        old_state@.len() == transferable_types().len(),
    ensures
        r.wf(),
        r.done == 0,
        r.failed is None,
        r.trailing_error is None,
        pdus_view(r.events@) == seq![
            room_state("m.room.create"@, ContentView::Object(text_fields(create_content@))),
            join_view(sender@, profile, None),
        ] + transfer_pdus(old_state@),
{
    let ghost g_old = old_state@;
    let ghost g_head = seq![
        room_state("m.room.create"@, ContentView::Object(text_fields(create_content@))),
        join_view(sender@, profile, None),
    ];
    let types = transferable_state_events();
    let mut v: Vec<PduSpec> = Vec::new();
    let p0 = state_event("m.room.create", EventContent::Object(create_content));
    let p1 = join_event(sender, profile, None);
    proof {
        assert(pdus_view(v@.push(p0)) =~= pdus_view(v@).push(p0@));
    }
    v.push(p0);
    proof {
        assert(pdus_view(v@.push(p1)) =~= pdus_view(v@).push(p1@));
    }
    v.push(p1);
    proof {
        assert(pdus_view(v@) =~= g_head);
        assert(g_old.take(0) =~= Seq::<Option<String>>::empty());
        assert(g_head + transfer_pdus(g_old.take(0)) =~= g_head);
    }
    let mut rest = old_state;
    let mut i: usize = 0;
    while rest.len() > 0
        invariant
            i <= g_old.len(),
            g_old.len() == transferable_types().len(),
            types@.len() == transferable_types().len(),
            forall|j: int| 0 <= j < types@.len() ==> #[trigger] types@[j]@ == transferable_types()[j],
            rest@ == g_old.skip(i as int),
            pdus_view(v@) == g_head + transfer_pdus(g_old.take(i as int)),
        decreases rest@.len(),
    {
        let item = rest.remove(0);
        proof {
            assert(g_old.take(i + 1).drop_last() =~= g_old.take(i as int));
            assert(g_old.take(i + 1).last() == item);
            assert(rest@ =~= g_old.skip(i + 1));
        }
        if let Some(c) = item {
            let p = state_event(types[i].as_str(), EventContent::Raw(c));
            proof {
                assert(pdus_view(v@.push(p)) =~= pdus_view(v@).push(p@));
                assert((g_head + transfer_pdus(g_old.take(i as int))).push(p@) =~= g_head
                    + transfer_pdus(g_old.take(i as int)).push(p@));
            }
            v.push(p);
        }
        i += 1;
    }
    proof {
        assert(g_old.take(i as int) =~= g_old);
    }
    AppendRun::new(v, None)
}

/// The old room's power levels after it is replaced: its content (JSON text) with
/// `events_default` and `invite` both raised to `demoted_level(users_default)`. A missing or
/// unreadable content is `BadDatabase`; an increment out of the protocol's integer range is
/// `BadJson`.
pub fn demoted_power_levels(old_power_levels: Option<&str>, users_default: i64) -> (r: Result<
    Vec<(String, String)>,
    ErrorKind,
>)
    requires
        -MAX_SAFE_INT <= users_default <= MAX_SAFE_INT,
    ensures
        match old_power_levels {
            None => r == Err::<Vec<(String, String)>, ErrorKind>(ErrorKind::BadDatabase),
            Some(t) => match json_object_fields(t@) {
                None => r == Err::<Vec<(String, String)>, ErrorKind>(ErrorKind::BadDatabase),
                Some(old) => match demoted_level(users_default as int) {
                    None => r == Err::<Vec<(String, String)>, ErrorKind>(ErrorKind::BadJson),
                    Some(l) => r matches Ok(f) && text_fields(f@) == old.insert(
                        "events_default"@,
                        json_integer_of(l),
                    ).insert("invite"@, json_integer_of(l)),
                },
            },
        },
{
    let t = match old_power_levels {
        Some(t) => t,
        None => return Err(ErrorKind::BadDatabase),
    };
    match parse_json_object(t) {
        Ok(f) => demote_fields(f, users_default),
        Err(()) => Err(ErrorKind::BadDatabase),
    }
}

/// Power-levels fields with `events_default` and `invite` both raised to
/// `demoted_level(users_default)`; `BadJson` where the increment leaves the protocol's integer
/// range.
pub fn demote_fields(fields: Vec<(String, String)>, users_default: i64) -> (r: Result<
    Vec<(String, String)>,
    ErrorKind,
>)
    requires
        -MAX_SAFE_INT <= users_default <= MAX_SAFE_INT,
    ensures
        match demoted_level(users_default as int) {
            None => r == Err::<Vec<(String, String)>, ErrorKind>(ErrorKind::BadJson),
            Some(l) => r matches Ok(f) && text_fields(f@) == text_fields(fields@).insert(
                "events_default"@,
                json_integer_of(l),
            ).insert("invite"@, json_integer_of(l)),
        },
{
    let mut fields = fields;
    let level = demotion_level(users_default)?;
    set_field(&mut fields, "events_default", json_integer(level));
    set_field(&mut fields, "invite", json_integer(level));
    Ok(fields)
}

} // verus!
