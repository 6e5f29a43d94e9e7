use vstd::prelude::*;

use crate::error::ErrorKind;
use crate::json::{json_object_fields, parse_json_object, text_fields};

verus! {

/// Largest magnitude of a protocol integer (`Int`): 2^53 - 1.
pub const MAX_SAFE_INT: i64 = 9007199254740991;

/// The level map that a list of `(key, level)` entries denotes; a later entry replaces an
/// earlier one with the same key.
pub open spec fn levels_map(s: Seq<(String, i64)>) -> Map<Seq<char>, i64>
    decreases s.len(),
{
    if s.len() == 0 {
        Map::empty()
    } else {
        levels_map(s.drop_last()).insert(s.last().0@, s.last().1)
    }
}

/// One top-level field of power-levels content.
pub enum FieldValue {
    /// A map from key to level (`users`, `events`).
    Levels(Vec<(String, i64)>),
    /// Any JSON value, as text, taken from a caller's override.
    Json(String),
}

pub ghost enum FieldSpec {
    Levels(Map<Seq<char>, i64>),
    Json(Seq<char>),
}

impl View for FieldValue {
    type V = FieldSpec;

    open spec fn view(&self) -> FieldSpec {
        match self {
            FieldValue::Levels(v) => FieldSpec::Levels(levels_map(v@)),
            FieldValue::Json(t) => FieldSpec::Json(t@),
        }
    }
}

/// Power-levels content: the top-level fields that are set on top of the protocol's
/// structural defaults, applied in order.
pub struct PowerLevelsContent {
    pub fields: Vec<(String, FieldValue)>,
}

pub open spec fn fields_view(s: Seq<(String, FieldValue)>) -> Map<Seq<char>, FieldSpec>
    decreases s.len(),
{
    if s.len() == 0 {
        Map::empty()
    } else {
        fields_view(s.drop_last()).insert(s.last().0@, s.last().1@)
    }
}

impl View for PowerLevelsContent {
    type V = Map<Seq<char>, FieldSpec>;

    open spec fn view(&self) -> Map<Seq<char>, FieldSpec> {
        fields_view(self.fields@)
    }
}

/// Event types that moderators must not reach easily: fixed at 100.
pub open spec fn hardened_levels() -> Map<Seq<char>, i64> {
    Map::empty().insert("m.room.power_levels"@, 100i64).insert("m.room.server_acl"@, 100i64).insert(
        "m.room.tombstone"@,
        100i64,
    ).insert("m.room.encryption"@, 100i64).insert("m.room.history_visibility"@, 100i64)
}

/// Event levels of a new room: the hardened types at 100, poll responses at 0 and, in a
/// public room, call events at 50.
pub open spec fn default_event_levels(public: bool) -> Map<Seq<char>, i64> {
    let base = hardened_levels().insert("org.matrix.msc3381.poll.response"@, 0i64).insert(
        "m.poll.response"@,
        0i64,
    );
    if public {
        base.insert("m.call.invite"@, 50i64).insert("m.call"@, 50i64).insert(
            "m.call.member"@,
            50i64,
        ).insert("org.matrix.msc3401.call"@, 50i64).insert(
            "org.matrix.msc3401.call.member"@,
            50i64,
        )
    } else {
        base
    }
}

/// Content before any override: the given users and the default event levels.
pub open spec fn default_content(users: Map<Seq<char>, i64>, public: bool) -> Map<
    Seq<char>,
    FieldSpec,
> {
    Map::empty().insert("users"@, FieldSpec::Levels(users)).insert(
        "events"@,
        FieldSpec::Levels(default_event_levels(public)),
    )
}

/// `base` with each top-level field of an override put in place of the field of that name.
pub open spec fn with_override(
    base: Map<Seq<char>, FieldSpec>,
    fields: Map<Seq<char>, Seq<char>>,
) -> Map<Seq<char>, FieldSpec> {
    base.union_prefer_right(fields.map_values(|t: Seq<char>| FieldSpec::Json(t)))
}

fn push_level(v: &mut Vec<(String, i64)>, key: &str, level: i64)
    ensures
        levels_map(final(v)@) == levels_map(old(v)@).insert(key@, level),
{
    let k = key.to_owned();
    proof {
        assert(old(v)@.push((k, level)).drop_last() =~= old(v)@);
    }
    v.push((k, level));
}

fn push_field(v: &mut Vec<(String, FieldValue)>, key: String, value: FieldValue)
    ensures
        fields_view(final(v)@) == fields_view(old(v)@).insert(key@, value@),
{
    proof {
        assert(old(v)@.push((key, value)).drop_last() =~= old(v)@);
    }
    v.push((key, value));
}

fn default_event_level_entries(public: bool) -> (r: Vec<(String, i64)>)
    ensures
        levels_map(r@) == default_event_levels(public),
{
    let mut v: Vec<(String, i64)> = Vec::new();
    push_level(&mut v, "m.room.power_levels", 100);
    push_level(&mut v, "m.room.server_acl", 100);
    push_level(&mut v, "m.room.tombstone", 100);
    push_level(&mut v, "m.room.encryption", 100);
    push_level(&mut v, "m.room.history_visibility", 100);
    push_level(&mut v, "org.matrix.msc3381.poll.response", 0);
    push_level(&mut v, "m.poll.response", 0);
    if public {
        push_level(&mut v, "m.call.invite", 50);
        push_level(&mut v, "m.call", 50);
        push_level(&mut v, "m.call.member", 50);
        push_level(&mut v, "org.matrix.msc3401.call", 50);
        push_level(&mut v, "org.matrix.msc3401.call.member", 50);
    }
    v
}

/// Power-levels content of a new room, given the override already read as a JSON object.
pub fn power_levels_with_override(
    override_fields: Option<Vec<(String, String)>>,
    public: bool,
    users: Vec<(String, i64)>,
) -> (r: PowerLevelsContent)
    ensures
        r@ == with_override(
            default_content(levels_map(users@), public),
            match override_fields {
                Some(f) => text_fields(f@),
                None => Map::empty(),
            },
        ),
{
    let ghost base = default_content(levels_map(users@), public);
    let mut fields: Vec<(String, FieldValue)> = Vec::new();
    push_field(&mut fields, "users".to_owned(), FieldValue::Levels(users));
    push_field(&mut fields, "events".to_owned(), FieldValue::Levels(default_event_level_entries(public)));
    proof {
        assert(fields_view(fields@) == base);
    }
    match override_fields {
        None => {
            proof {
                assert(with_override(base, Map::empty()) =~= base);
            }
            PowerLevelsContent { fields }
        },
        Some(o) => {
            let mut i: usize = 0;
            while i < o.len()
                invariant
                    i <= o@.len(),
                    fields_view(fields@) == with_override(base, text_fields(o@.take(i as int))),
                decreases o@.len() - i,
            {
                let k = o[i].0.clone();
                let t = o[i].1.clone();
                proof {
                    assert(o@.take(i + 1).drop_last() =~= o@.take(i as int));
                    assert(text_fields(o@.take(i + 1)) == text_fields(o@.take(i as int)).insert(
                        k@,
                        t@,
                    ));
                    assert(with_override(base, text_fields(o@.take(i + 1))) =~= with_override(
                        base,
                        text_fields(o@.take(i as int)),
                    ).insert(k@, FieldSpec::Json(t@)));
                }
                push_field(&mut fields, k, FieldValue::Json(t));
                i += 1;
            }
            proof {
                assert(o@.take(o@.len() as int) =~= o@);
            }
            PowerLevelsContent { fields }
        },
    }
}

/// Power-levels content of a new room: `users` as the user levels, the hardened and default
/// event levels, then the caller's override (JSON text), field by field, on top.
/// An override that is not a JSON object is rejected with `BadJson`.
pub fn default_power_levels_content(
    power_level_content_override: Option<&str>,
    public: bool,
    users: Vec<(String, i64)>,
) -> (r: Result<PowerLevelsContent, ErrorKind>)
    ensures
        match power_level_content_override {
            None => r matches Ok(c) && c@ == default_content(levels_map(users@), public),
            Some(t) => match json_object_fields(t@) {
                None => r == Err::<PowerLevelsContent, ErrorKind>(ErrorKind::BadJson),
                Some(f) => r matches Ok(c) && c@ == with_override(
                    default_content(levels_map(users@), public),
                    f,
                ),
            },
        },
{
    match power_level_content_override {
        None => {
            let c = power_levels_with_override(None, public, users);
            proof {
                assert(with_override(default_content(levels_map(users@), public), Map::empty())
                    =~= default_content(levels_map(users@), public));
            }
            Ok(c)
        },
        Some(t) => match parse_json_object(t) {
            Err(()) => Err(ErrorKind::BadJson),
            Ok(f) => Ok(power_levels_with_override(Some(f), public, users)),
        },
    }
}

pub open spec fn is_listed(invites: Seq<String>, u: Seq<char>) -> bool {
    exists|j: int| 0 <= j < invites.len() && invites[j]@ == u
}

/// Initial user levels of a new room: the creator at 100 and, in a trusted private chat,
/// every invitee at 100 too.
pub open spec fn initial_levels(sender: Seq<char>, trusted: bool, invites: Seq<String>) -> Map<
    Seq<char>,
    i64,
> {
    Map::new(
        |u: Seq<char>| u == sender || (trusted && is_listed(invites, u)),
        |u: Seq<char>| 100i64,
    )
}

pub fn initial_user_levels(sender: &str, trusted_private: bool, invites: &Vec<String>) -> (r: Vec<
    (String, i64),
>)
    ensures
        levels_map(r@) == initial_levels(sender@, trusted_private, invites@),
{
    let mut r: Vec<(String, i64)> = Vec::new();
    push_level(&mut r, sender, 100);
    proof {
        assert(levels_map(r@) =~= initial_levels(sender@, trusted_private, invites@.take(0)));
    }
    if trusted_private {
        let mut i: usize = 0;
        while i < invites.len()
            invariant
                trusted_private,
                i <= invites@.len(),
                levels_map(r@) == initial_levels(sender@, true, invites@.take(i as int)),
            decreases invites@.len() - i,
        {
            push_level(&mut r, invites[i].as_str(), 100);
            proof {
                let prev = invites@.take(i as int);
                let next = invites@.take(i + 1);
                assert(next[i as int] == invites@[i as int]);
                assert forall|u: Seq<char>| #[trigger]
                    is_listed(next, u) <==> is_listed(prev, u) || u == invites@[i as int]@ by {
                    if exists|j: int| 0 <= j < next.len() && next[j]@ == u {
                        let j = choose|j: int| 0 <= j < next.len() && next[j]@ == u;
                        if j < i {
                            assert(prev[j] == next[j]);
                        }
                    }
                    if exists|j: int| 0 <= j < prev.len() && prev[j]@ == u {
                        let j = choose|j: int| 0 <= j < prev.len() && prev[j]@ == u;
                        assert(prev[j] == next[j]);
                    }
                };
                assert(levels_map(r@) =~= initial_levels(sender@, true, next));
            }
            i += 1;
        }
        proof {
            assert(invites@.take(invites@.len() as int) =~= invites@);
        }
    } else {
        proof {
            assert(levels_map(r@) =~= initial_levels(sender@, false, invites@));
        }
    }
    r
}

/// An override that leaves `events` alone keeps the five hardened event types at 100 and, in a
/// public room, the call event types at 50.
pub proof fn lemma_override_keeps_hardened_levels(
    users: Map<Seq<char>, i64>,
    public: bool,
    fields: Map<Seq<char>, Seq<char>>,
)
    requires
        !fields.contains_key("events"@),
    ensures
        with_override(default_content(users, public), fields).contains_key("events"@),
        with_override(default_content(users, public), fields)["events"@] matches FieldSpec::Levels(m)
            && m["m.room.power_levels"@] == 100 && m["m.room.server_acl"@] == 100
            && m["m.room.tombstone"@] == 100 && m["m.room.encryption"@] == 100
            && m["m.room.history_visibility"@] == 100 && (public ==> m["m.call.invite"@] == 50
            && m["m.call"@] == 50 && m["m.call.member"@] == 50 && m["org.matrix.msc3401.call"@]
            == 50 && m["org.matrix.msc3401.call.member"@] == 50),
{
    reveal_strlit("events");
    reveal_strlit("users");
    reveal_strlit("m.room.power_levels");
    reveal_strlit("m.room.server_acl");
    reveal_strlit("m.room.tombstone");
    reveal_strlit("m.room.encryption");
    reveal_strlit("m.room.history_visibility");
    reveal_strlit("org.matrix.msc3381.poll.response");
    reveal_strlit("m.poll.response");
    reveal_strlit("m.call.invite");
    reveal_strlit("m.call");
    reveal_strlit("m.call.member");
    reveal_strlit("org.matrix.msc3401.call");
    reveal_strlit("org.matrix.msc3401.call.member");
    assert("events"@.len() == 6);
    assert("users"@.len() == 5);
    assert("m.room.power_levels"@.len() == 19);
    assert("m.room.server_acl"@.len() == 17);
    assert("m.room.tombstone"@.len() == 16);
    assert("m.room.encryption"@.len() == 17);
    assert("m.room.history_visibility"@.len() == 25);
    assert("org.matrix.msc3381.poll.response"@.len() == 32);
    assert("m.poll.response"@.len() == 15);
    assert("m.call.invite"@.len() == 13);
    assert("m.call"@.len() == 6);
    assert("m.call.member"@.len() == 13);
    assert("org.matrix.msc3401.call"@.len() == 23);
    assert("org.matrix.msc3401.call.member"@.len() == 30);
    let merged = with_override(default_content(users, public), fields);
    assert(merged["events"@] == FieldSpec::Levels(default_event_levels(public)));
    let m = default_event_levels(public);
    assert("m.room.server_acl"@[7] != "m.room.encryption"@[7]);
    assert("m.call.invite"@[7] != "m.call.member"@[7]);
}

/// In a trusted private chat every invitee starts at level 100 beside the creator, unless
/// an override replaces `users`.
pub proof fn lemma_trusted_invitees_at_full_level(
    sender: Seq<char>,
    invites: Seq<String>,
    public: bool,
    fields: Map<Seq<char>, Seq<char>>,
    j: int,
)
    requires
        0 <= j < invites.len(),
        !fields.contains_key("users"@),
    ensures
        with_override(default_content(initial_levels(sender, true, invites), public), fields)["users"@]
            matches FieldSpec::Levels(m) && m.contains_key(invites[j]@) && m[invites[j]@] == 100
            && m.contains_key(sender) && m[sender] == 100,
{
    reveal_strlit("events");
    reveal_strlit("users");
    assert("events"@.len() == 6);
    assert("users"@.len() == 5);
    assert(is_listed(invites, invites[j]@));
}

/// The level that a room's `events_default` and `invite` are raised to when it is replaced:
/// the greater of 50 and `users_default + 1`. The increment may not leave the protocol's
/// integer range; where it would, the result is `BadJson`.
pub open spec fn demoted_level(users_default: int) -> Option<int> {
    if users_default + 1 > MAX_SAFE_INT {
        None
    } else if users_default + 1 > 50 {
        Some(users_default + 1)
    } else {
        Some(50)
    }
}

pub fn demotion_level(users_default: i64) -> (r: Result<i64, ErrorKind>)
    requires
        -MAX_SAFE_INT <= users_default <= MAX_SAFE_INT,
    ensures
        match demoted_level(users_default as int) {
            None => r == Err::<i64, ErrorKind>(ErrorKind::BadJson),
            Some(l) => r == Ok::<i64, ErrorKind>(l as i64),
        },
{
    if users_default >= MAX_SAFE_INT {
        return Err(ErrorKind::BadJson);
    }
    let raised = users_default + 1;
    if raised > 50 {
        Ok(raised)
    } else {
        Ok(50)
    }
}

} // verus!
