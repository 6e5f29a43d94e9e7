use vstd::prelude::*;

use crate::error::ErrorKind;
use crate::json::{
    canonical_object_fields, json_string, json_string_of, parse_canonical_object, set_field,
    text_fields,
};
use crate::pdu::{
    pdus_view, room_state, state_event, AppendRun, ContentView, EventContent, GuestAccess,
    JoinRule, PduSpec, PduView, opt_view,
};
use crate::power_levels::{is_listed, PowerLevelsContent};

verus! {

#[derive(Clone, Copy, Debug, PartialEq, Eq, Structural)]
pub enum Visibility {
    Public,
    Private,
}

#[derive(Clone, Copy, Debug, PartialEq, Eq, Structural)]
pub enum RoomPreset {
    PrivateChat,
    PublicChat,
    TrustedPrivateChat,
}

pub fn same_text(a: &str, b: &str) -> (r: bool)
    ensures
        r == (a@ == b@),
{
    let n = a.unicode_len();
    if n != b.unicode_len() {
        return false;
    }
    let mut i: usize = 0;
    while i < n
        invariant
            n == a@.len(),
            n == b@.len(),
            i <= n,
            forall|j: int| 0 <= j < i ==> a@[j] == b@[j],
        decreases n - i,
    {
        if a.get_char(i) != b.get_char(i) {
            return false;
        }
        i += 1;
    }
    proof {
        assert(a@ =~= b@);
    }
    true
}

/// Room creation may be switched off for everyone but admins and appservices.
pub fn creation_allowed(allow_room_creation: bool, is_appservice: bool, is_admin: bool) -> (r:
    Result<(), ErrorKind>)
    ensures
        r == (if !allow_room_creation && !is_appservice && !is_admin {
            Err(ErrorKind::Forbidden)
        } else {
            Ok(())
        }),
{
    if !allow_room_creation && !is_appservice && !is_admin {
        Err(ErrorKind::Forbidden)
    } else {
        Ok(())
    }
}

/// A set of room IDs: those that name a room on this server, or those whose lock is held.
pub struct RoomSet {
    pub ids: Vec<String>,
}

impl View for RoomSet {
    type V = Set<Seq<char>>;

    open spec fn view(&self) -> Set<Seq<char>> {
        Set::new(|id: Seq<char>| is_listed(self.ids@, id))
    }
}

impl RoomSet {
    pub fn new() -> (r: RoomSet)
        ensures
            r@ == Set::<Seq<char>>::empty(),
    {
        let r = RoomSet { ids: Vec::new() };
        proof {
            assert(r@ =~= Set::<Seq<char>>::empty());
        }
        r
    }

    pub fn contains(&self, room_id: &str) -> (r: bool)
        ensures
            r == self@.contains(room_id@),
    {
        list_contains(&self.ids, room_id)
    }

    /// Takes `room_id` for a new room: `RoomInUse` where it already names one.
    pub fn claim(&mut self, room_id: &str) -> (r: Result<(), ErrorKind>)
        ensures
            r == claim_outcome(old(self)@, room_id@),
            final(self)@ == old(self)@.insert(room_id@),
    {
        if self.contains(room_id) {
            proof {
                assert(self@ =~= self@.insert(room_id@));
            }
            return Err(ErrorKind::RoomInUse);
        }
        let id = room_id.to_owned();
        proof {
            lemma_listed_push(self.ids@, id);
        }
        self.ids.push(id);
        proof {
            assert(self@ =~= old(self)@.insert(room_id@));
        }
        Ok(())
    }
}

impl RoomSet {
    /// Gives `room_id` back.
    pub fn release(&mut self, room_id: &str)
        ensures
            final(self)@ == old(self)@.remove(room_id@),
    {
        let key = room_id.to_owned();
        let mut kept: Vec<String> = Vec::new();
        let mut i: usize = 0;
        while i < self.ids.len()
            invariant
                i <= self.ids@.len(),
                key@ == room_id@,
                forall|x: Seq<char>| #[trigger]
                    is_listed(kept@, x) <==> is_listed(self.ids@.take(i as int), x) && x != room_id@,
            decreases self.ids@.len() - i,
        {
            let id = self.ids[i].clone();
            let ghost prev = self.ids@.take(i as int);
            let ghost next = self.ids@.take(i + 1);
            let ghost before = kept@;
            proof {
                assert(next =~= prev.push(id));
                lemma_listed_push(prev, id);
            }
            if !id.eq(&key) {
                proof {
                    lemma_listed_push(before, id);
                }
                kept.push(id);
            }
            i += 1;
        }
        proof {
            assert(self.ids@.take(i as int) =~= self.ids@);
        }
        self.ids = kept;
        proof {
            assert(self@ =~= old(self)@.remove(room_id@));
        }
    }
}

proof fn lemma_listed_push(s: Seq<String>, e: String)
    ensures
        forall|x: Seq<char>| #[trigger] is_listed(s.push(e), x) <==> is_listed(s, x) || x == e@,
{
    assert forall|x: Seq<char>| #[trigger] is_listed(s.push(e), x) <==> is_listed(s, x) || x == e@ by {
        let t = s.push(e);
        if is_listed(t, x) {
            let j = choose|j: int| 0 <= j < t.len() && t[j]@ == x;
            if j < s.len() {
                assert(s[j] == t[j]);
            }
        }
        if is_listed(s, x) {
            let j = choose|j: int| 0 <= j < s.len() && s[j]@ == x;
            assert(s[j] == t[j]);
        }
        if x == e@ {
            assert(t[s.len() as int]@ == x);
        }
    }
}

/// Holding one room ID never decides a claim of another: claims of distinct rooms do not
/// block each other.
pub proof fn lemma_claims_independent(ids: Set<Seq<char>>, held: Seq<char>, room_id: Seq<char>)
    requires
        held != room_id,
    ensures
        claim_outcome(ids.insert(held), room_id) == claim_outcome(ids, room_id),
        claim_outcome(ids.remove(held), room_id) == claim_outcome(ids, room_id),
{
}

/// Two claims of one room ID: the first, on an ID that names no room, succeeds and leaves it
/// registered; the second is refused with `RoomInUse`.
pub proof fn lemma_one_claim_wins(ids: Set<Seq<char>>, room_id: Seq<char>)
    requires
        !ids.contains(room_id),
    ensures
        ids.insert(room_id).contains(room_id),
        claim_outcome(ids, room_id) == Ok::<(), ErrorKind>(()),
        claim_outcome(ids.insert(room_id), room_id) == Err::<(), ErrorKind>(ErrorKind::RoomInUse),
{
}

/// What claiming `room_id` returns when `ids` are taken.
pub open spec fn claim_outcome(ids: Set<Seq<char>>, room_id: Seq<char>) -> Result<(), ErrorKind> {
    if ids.contains(room_id) {
        Err(ErrorKind::RoomInUse)
    } else {
        Ok(())
    }
}

/// A room ID that already names a room cannot be created again.
pub fn room_id_free(room_exists: bool) -> (r: Result<(), ErrorKind>)
    ensures
        r == (if room_exists {
            Err(ErrorKind::RoomInUse)
        } else {
            Ok(())
        }),
{
    if room_exists {
        Err(ErrorKind::RoomInUse)
    } else {
        Ok(())
    }
}

/// While the public room directory is locked down, only admins and appservices may create
/// public rooms.
pub fn publication_allowed(
    visibility: Visibility,
    lockdown: bool,
    is_admin: bool,
    is_appservice: bool,
) -> (r: Result<(), ErrorKind>)
    ensures
        r == (if visibility == Visibility::Public && lockdown && !is_admin && !is_appservice {
            Err(ErrorKind::Forbidden)
        } else {
            Ok(())
        }),
{
    if visibility == Visibility::Public && lockdown && !is_admin && !is_appservice {
        Err(ErrorKind::Forbidden)
    } else {
        Ok(())
    }
}

/// Whether `text` is one of `list`.
pub fn list_contains(list: &Vec<String>, text: &str) -> (r: bool)
    ensures
        r == is_listed(list@, text@),
{
    let mut i: usize = 0;
    while i < list.len()
        invariant
            i <= list@.len(),
            forall|j: int| 0 <= j < i ==> list@[j]@ != text@,
        decreases list@.len() - i,
    {
        if same_text(list[i].as_str(), text) {
            return true;
        }
        i += 1;
    }
    false
}

/// The room version of a new room: the requested one if this server supports it, else
/// `UnsupportedRoomVersion`; the server's default when none is requested.
pub fn resolve_room_version(
    requested: Option<String>,
    supported: &Vec<String>,
    default_version: String,
) -> (r: Result<String, ErrorKind>)
    ensures
        match requested {
            None => r == Ok::<String, ErrorKind>(default_version),
            Some(v) => if is_listed(supported@, v@) {
                r == Ok::<String, ErrorKind>(v)
            } else {
                r == Err::<String, ErrorKind>(ErrorKind::UnsupportedRoomVersion)
            },
        },
{
    match requested {
        None => Ok(default_version),
        Some(v) => if list_contains(supported, v.as_str()) {
            Ok(v)
        } else {
            Err(ErrorKind::UnsupportedRoomVersion)
        },
    }
}

pub open spec fn preset_of(preset: Option<RoomPreset>, visibility: Visibility) -> RoomPreset {
    match preset {
        Some(p) => p,
        None => if visibility == Visibility::Public {
            RoomPreset::PublicChat
        } else {
            RoomPreset::PrivateChat
        },
    }
}

/// The preset that applies: the requested one, else public chat for a public room and
/// private chat otherwise.
pub fn resolve_preset(preset: Option<RoomPreset>, visibility: Visibility) -> (r: RoomPreset)
    ensures
        r == preset_of(preset, visibility),
{
    match preset {
        Some(p) => p,
        None => if visibility == Visibility::Public {
            RoomPreset::PublicChat
        } else {
            RoomPreset::PrivateChat
        },
    }
}

/// Room versions 1 to 10, whose create event names its creator.
pub open spec fn legacy_version(v: Seq<char>) -> bool {
    v == "1"@ || v == "2"@ || v == "3"@ || v == "4"@ || v == "5"@ || v == "6"@ || v == "7"@
        || v == "8"@ || v == "9"@ || v == "10"@
}

pub fn is_legacy_version(v: &str) -> (r: bool)
    ensures
        r == legacy_version(v@),
{
    same_text(v, "1") || same_text(v, "2") || same_text(v, "3") || same_text(v, "4")
        || same_text(v, "5") || same_text(v, "6") || same_text(v, "7") || same_text(v, "8")
        || same_text(v, "9") || same_text(v, "10")
}

/// Create-event fields with the version-specific fields put in: `creator` for a legacy
/// version, and `room_version` always.
pub open spec fn with_version_fields(
    fields: Map<Seq<char>, Seq<char>>,
    version: Seq<char>,
    sender: Seq<char>,
) -> Map<Seq<char>, Seq<char>> {
    let f = if legacy_version(version) {
        fields.insert("creator"@, json_string_of(sender))
    } else {
        fields
    };
    f.insert("room_version"@, json_string_of(version))
}

/// Puts the version-specific fields into create-event fields: `creator` (the sender) for a
/// legacy version, and `room_version` always.
pub fn add_version_fields(fields: Vec<(String, String)>, room_version: &str, sender: &str) -> (r: Vec<
    (String, String),
>)
    ensures
        text_fields(r@) == with_version_fields(text_fields(fields@), room_version@, sender@),
{
    let mut fields = fields;
    if is_legacy_version(room_version) {
        set_field(&mut fields, "creator", json_string(sender));
    }
    set_field(&mut fields, "room_version", json_string(room_version));
    fields
}

/// Content of a new room's create event: the caller's creation content (JSON text, read as
/// canonical JSON; `BadDatabase` where it cannot be), or an empty object, with `creator` set
/// for legacy versions and `room_version` set always.
pub fn create_event_content(creation_content: Option<&str>, room_version: &str, sender: &str) -> (r:
    Result<Vec<(String, String)>, ErrorKind>)
    ensures
        match creation_content {
            None => r matches Ok(f) && text_fields(f@) == with_version_fields(
                Map::empty(),
                room_version@,
                sender@,
            ),
            Some(t) => match canonical_object_fields(t@) {
                None => r == Err::<Vec<(String, String)>, ErrorKind>(ErrorKind::BadDatabase),
                Some(base) => r matches Ok(f) && text_fields(f@) == with_version_fields(
                    base,
                    room_version@,
                    sender@,
                ),
            },
        },
{
    let fields: Vec<(String, String)> = match creation_content {
        None => Vec::new(),
        Some(t) => match parse_canonical_object(t) {
            Ok(f) => f,
            Err(()) => return Err(ErrorKind::BadDatabase),
        },
    };
    proof {
        if creation_content is None {
            assert(text_fields(fields@) =~= Map::<Seq<char>, Seq<char>>::empty());
        }
    }
    Ok(add_version_fields(fields, room_version, sender))
}

/// A state event that a caller asks to have in a new room from the start. `content` is
/// JSON text.
pub struct InitialStateEvent {
    pub event_type: String,
    pub state_key: Option<String>,
    pub content: String,
}

/// What an initial-state event becomes: nothing when its content is exactly `{}`, or when it
/// is an encryption event and encryption is disallowed; otherwise a state event, with the
/// empty state key when none is given.
pub open spec fn initial_state_pdu(e: InitialStateEvent, allow_encryption: bool) -> Option<PduView> {
    if e.content@ == "{}"@ {
        None
    } else if e.event_type@ == "m.room.encryption"@ && !allow_encryption {
        None
    } else {
        Some(
            PduView {
                event_type: e.event_type@,
                state_key: Some(
                    match e.state_key {
                        Some(k) => k@,
                        None => Seq::empty(),
                    },
                ),
                content: ContentView::Raw(e.content@),
            },
        )
    }
}

/// The events that a list of initial-state events gives, in order, and whether one of them
/// (`None`: it could not be read) stopped the list there.
pub open spec fn initial_state_pdus(evs: Seq<Option<InitialStateEvent>>, allow_encryption: bool) -> (
    Seq<PduView>,
    bool,
)
    decreases evs.len(),
{
    if evs.len() == 0 {
        (Seq::empty(), false)
    } else {
        let (prev, stopped) = initial_state_pdus(evs.drop_last(), allow_encryption);
        if stopped {
            (prev, true)
        } else {
            match evs.last() {
                None => (prev, true),
                Some(e) => match initial_state_pdu(e, allow_encryption) {
                    None => (prev, false),
                    Some(p) => (prev.push(p), false),
                },
            }
        }
    }
}

fn push_pdu(v: &mut Vec<PduSpec>, p: PduSpec)
    ensures
        pdus_view(final(v)@) == pdus_view(old(v)@).push(p@),
{
    proof {
        assert(pdus_view(old(v)@.push(p)) =~= pdus_view(old(v)@).push(p@));
    }
    v.push(p);
}

/// Turns one initial-state event into the event to append, if any.
pub fn initial_state_step(e: InitialStateEvent, allow_encryption: bool) -> (r: Option<PduSpec>)
    ensures
        match r {
            Some(p) => initial_state_pdu(e, allow_encryption) == Some(p@),
            None => initial_state_pdu(e, allow_encryption) is None,
        },
{
    proof {
        reveal_strlit("{}");
        reveal_strlit("m.room.encryption");
    }
    if same_text(e.content.as_str(), "{}") {
        return None;
    }
    if same_text(e.event_type.as_str(), "m.room.encryption") && !allow_encryption {
        return None;
    }
    let key = match e.state_key {
        Some(k) => k,
        None => String::new(),
    };
    let p = PduSpec { event_type: e.event_type, state_key: Some(key), content: EventContent::Raw(e.content) };
    Some(p)
}

pub open spec fn join_rule_of(preset: RoomPreset) -> JoinRule {
    if preset == RoomPreset::PublicChat {
        JoinRule::Public
    } else {
        JoinRule::Invite
    }
}

pub open spec fn guest_access_of(preset: RoomPreset) -> GuestAccess {
    if preset == RoomPreset::PublicChat {
        GuestAccess::Forbidden
    } else {
        GuestAccess::CanJoin
    }
}

/// The profile that a joining user's member event carries.
pub struct Profile {
    pub displayname: Option<String>,
    pub avatar_url: Option<String>,
    pub blurhash: Option<String>,
}

pub open spec fn join_view(sender: Seq<char>, profile: Profile, is_direct: Option<bool>) -> PduView {
    PduView {
        event_type: "m.room.member"@,
        state_key: Some(sender),
        content: ContentView::Join {
            displayname: opt_view(profile.displayname),
            avatar_url: opt_view(profile.avatar_url),
            blurhash: opt_view(profile.blurhash),
            is_direct,
        },
    }
}

pub fn join_event(sender: &str, profile: Profile, is_direct: Option<bool>) -> (r: PduSpec)
    ensures
        r@ == join_view(sender@, profile, is_direct),
{
    PduSpec {
        event_type: "m.room.member".to_owned(),
        state_key: Some(sender.to_owned()),
        content: EventContent::Join {
            displayname: profile.displayname,
            avatar_url: profile.avatar_url,
            blurhash: profile.blurhash,
            is_direct,
        },
    }
}

pub open spec fn optional_state(event_type: Seq<char>, content: Option<ContentView>) -> Seq<PduView> {
    match content {
        Some(c) => seq![room_state(event_type, c)],
        None => Seq::empty(),
    }
}

pub open spec fn opt_content(o: Option<String>, f: spec_fn(Seq<char>) -> ContentView) -> Option<
    ContentView,
> {
    match o {
        Some(s) => Some(f(s@)),
        None => None,
    }
}

/// The events of a new room, in the order they are appended under its lock.
pub open spec fn creation_pdus(
    sender: Seq<char>,
    create_content: Map<Seq<char>, Seq<char>>,
    profile: Profile,
    is_direct: bool,
    power_levels: Map<Seq<char>, crate::power_levels::FieldSpec>,
    alias: Option<String>,
    preset: RoomPreset,
    initial_state: Seq<Option<InitialStateEvent>>,
    allow_encryption: bool,
    name: Option<String>,
    topic: Option<String>,
) -> (Seq<PduView>, bool) {
    let (initial, stopped) = initial_state_pdus(initial_state, allow_encryption);
    let head = seq![
        room_state("m.room.create"@, ContentView::Object(create_content)),
        join_view(sender, profile, Some(is_direct)),
        room_state("m.room.power_levels"@, ContentView::PowerLevels(power_levels)),
    ] + optional_state(
        "m.room.canonical_alias"@,
        opt_content(alias, |a: Seq<char>| ContentView::CanonicalAlias(a)),
    ) + seq![
        room_state("m.room.join_rules"@, ContentView::JoinRules(join_rule_of(preset))),
        room_state("m.room.history_visibility"@, ContentView::SharedHistory),
        room_state("m.room.guest_access"@, ContentView::GuestAccess(guest_access_of(preset))),
    ] + initial;
    if stopped {
        (head, true)
    } else {
        (head + optional_state("m.room.name"@, opt_content(name, |n: Seq<char>| ContentView::Name(n)))
            + optional_state(
            "m.room.topic"@,
            opt_content(topic, |t: Seq<char>| ContentView::Topic(t)),
        ), false)
    }
}

/// The run of appends that creates a room: create event, the creator's join, power levels,
/// canonical alias (if one was requested), join rules, history visibility, guest access, the
/// caller's initial state, name and topic. An initial-state event that could not be read
/// (`None`) ends the list there, with `InvalidParam` reported after the appends.
pub fn creation_run(
    sender: &str,
    create_content: Vec<(String, String)>,
    profile: Profile,
    is_direct: bool,
    power_levels: PowerLevelsContent,
    alias: Option<String>,
    preset: RoomPreset,
    initial_state: Vec<Option<InitialStateEvent>>,
    allow_encryption: bool,
    name: Option<String>,
    topic: Option<String>,
) -> (r: AppendRun)
    ensures
        r.wf(),
        r.done == 0,
        r.failed is None,
        ({
            let (pdus, stopped) = creation_pdus(
                sender@,
                text_fields(create_content@),
                profile,
                is_direct,
                power_levels@,
                alias,
                preset,
                initial_state@,
                allow_encryption,
                name,
                topic,
            );
            pdus_view(r.events@) == pdus && r.trailing_error == (if stopped {
                Some(ErrorKind::InvalidParam)
            } else {
                None
            })
        }),
{
    let ghost g_create = text_fields(create_content@);
    let ghost g_power = power_levels@;
    let ghost g_profile = profile;
    let ghost g_alias = alias;
    let ghost g_initial = initial_state@;
    let ghost g_name = name;
    let ghost g_topic = topic;
    let mut v: Vec<PduSpec> = Vec::new();
    push_pdu(&mut v, state_event("m.room.create", EventContent::Object(create_content)));
    push_pdu(&mut v, join_event(sender, profile, Some(is_direct)));
    push_pdu(&mut v, state_event("m.room.power_levels", EventContent::PowerLevels(power_levels)));
    if let Some(a) = alias {
        push_pdu(&mut v, state_event("m.room.canonical_alias", EventContent::CanonicalAlias(a)));
    }
    let join_rule = if preset == RoomPreset::PublicChat {
        JoinRule::Public
    } else {
        JoinRule::Invite
    };
    let guest = if preset == RoomPreset::PublicChat {
        GuestAccess::Forbidden
    } else {
        GuestAccess::CanJoin
    };
    push_pdu(&mut v, state_event("m.room.join_rules", EventContent::JoinRules(join_rule)));
    push_pdu(&mut v, state_event("m.room.history_visibility", EventContent::SharedHistory));
    push_pdu(&mut v, state_event("m.room.guest_access", EventContent::GuestAccess(guest)));
    let ghost head0 = pdus_view(v@);
    proof {
        assert(head0 =~= seq![
            room_state("m.room.create"@, ContentView::Object(g_create)),
            join_view(sender@, g_profile, Some(is_direct)),
            room_state("m.room.power_levels"@, ContentView::PowerLevels(g_power)),
        ] + optional_state(
            "m.room.canonical_alias"@,
            opt_content(g_alias, |a: Seq<char>| ContentView::CanonicalAlias(a)),
        ) + seq![
            room_state("m.room.join_rules"@, ContentView::JoinRules(join_rule_of(preset))),
            room_state("m.room.history_visibility"@, ContentView::SharedHistory),
            room_state("m.room.guest_access"@, ContentView::GuestAccess(guest_access_of(preset))),
        ]);
    }
    let mut stopped = false;
    let total = initial_state.len();
    let mut rest = initial_state;
    let mut i: usize = 0;
    proof {
        assert(g_initial.take(0) =~= Seq::<Option<InitialStateEvent>>::empty());
        assert(rest@ =~= g_initial.skip(0));
        assert(head0 + Seq::<PduView>::empty() =~= head0);
    }
    while rest.len() > 0
        invariant
            i <= g_initial.len(),
            g_initial.len() == total,
            rest@ == g_initial.skip(i as int),
            ({
                let (pdus, st) = initial_state_pdus(g_initial.take(i as int), allow_encryption);
                pdus_view(v@) == head0 + pdus && stopped == st
            }),
        decreases rest@.len(),
    {
        let item = rest.remove(0);
        proof {
            assert(g_initial.take(i + 1).drop_last() =~= g_initial.take(i as int));
            assert(g_initial.take(i + 1).last() == item);
            assert(rest@ =~= g_initial.skip(i + 1));
        }
        if !stopped {
            match item {
                None => {
                    stopped = true;
                },
                Some(e) => match initial_state_step(e, allow_encryption) {
                    Some(p) => {
                        push_pdu(&mut v, p);
                        proof {
                            let (pdus, st) = initial_state_pdus(g_initial.take(i as int), allow_encryption);
                            assert(head0 + pdus.push(p@) =~= (head0 + pdus).push(p@));
                        }
                    },
                    None => {},
                },
            }
        }
        i += 1;
    }
    proof {
        assert(g_initial.take(i as int) =~= g_initial);
    }
    let ghost after_initial = pdus_view(v@);
    if stopped {
        return AppendRun::new(v, Some(ErrorKind::InvalidParam));
    }
    if let Some(n) = name {
        push_pdu(&mut v, state_event("m.room.name", EventContent::Name(n)));
    }
    let ghost after_name = pdus_view(v@);
    proof {
        assert(after_name =~= after_initial + optional_state(
            "m.room.name"@,
            opt_content(g_name, |n: Seq<char>| ContentView::Name(n)),
        ));
    }
    if let Some(t) = topic {
        push_pdu(&mut v, state_event("m.room.topic", EventContent::Topic(t)));
    }
    proof {
        assert(pdus_view(v@) =~= after_name + optional_state(
            "m.room.topic"@,
            opt_content(g_topic, |t: Seq<char>| ContentView::Topic(t)),
        ));
    }
    AppendRun::new(v, None)
}

/// Work done once a new room's lock is released, each step on its own: invite a user, bind
/// the requested alias to the room, publish the room to the directory.
pub enum FollowUp {
    Invite(String),
    BindAlias(String),
    Publish,
}

pub ghost enum FollowUpView {
    Invite(Seq<char>),
    BindAlias(Seq<char>),
    Publish,
}

impl View for FollowUp {
    type V = FollowUpView;

    open spec fn view(&self) -> FollowUpView {
        match self {
            FollowUp::Invite(u) => FollowUpView::Invite(u@),
            FollowUp::BindAlias(a) => FollowUpView::BindAlias(a@),
            FollowUp::Publish => FollowUpView::Publish,
        }
    }
}

/// Every invitee in order, then the alias binding if an alias was requested, then
/// publication if the room is public.
pub open spec fn follow_ups_view(invites: Seq<String>, alias: Option<String>, public: bool) -> Seq<
    FollowUpView,
> {
    invites.map_values(|u: String| FollowUpView::Invite(u@)) + match alias {
        Some(a) => seq![FollowUpView::BindAlias(a@)],
        None => Seq::empty(),
    } + if public {
        seq![FollowUpView::Publish]
    } else {
        Seq::empty()
    }
}

pub fn creation_follow_ups(invites: &Vec<String>, alias: Option<String>, visibility: Visibility) -> (r:
    Vec<FollowUp>)
    ensures
        r@.map_values(|f: FollowUp| f@) == follow_ups_view(
            invites@,
            alias,
            visibility == Visibility::Public,
        ),
{
    let ghost g_alias = alias;
    let mut r: Vec<FollowUp> = Vec::new();
    let mut i: usize = 0;
    while i < invites.len()
        invariant
            i <= invites@.len(),
            r@.map_values(|f: FollowUp| f@) == invites@.take(i as int).map_values(
                |u: String| FollowUpView::Invite(u@),
            ),
        decreases invites@.len() - i,
    {
        let u = invites[i].clone();
        proof {
            assert(invites@.take(i + 1).map_values(|u: String| FollowUpView::Invite(u@))
                =~= invites@.take(i as int).map_values(|u: String| FollowUpView::Invite(u@)).push(
                FollowUpView::Invite(u@),
            ));
            assert(r@.push(FollowUp::Invite(u)).map_values(|f: FollowUp| f@) =~= r@.map_values(
                |f: FollowUp| f@,
            ).push(FollowUpView::Invite(u@)));
        }
        r.push(FollowUp::Invite(u));
        i += 1;
    }
    proof {
        assert(invites@.take(i as int) =~= invites@);
    }
    let ghost invited = r@.map_values(|f: FollowUp| f@);
    if let Some(a) = alias {
        let f = FollowUp::BindAlias(a);
        proof {
            assert(r@.push(f).map_values(|f: FollowUp| f@) =~= r@.map_values(|f: FollowUp| f@).push(
                f@,
            ));
        }
        r.push(f);
    }
    let ghost bound = r@.map_values(|f: FollowUp| f@);
    proof {
        assert(bound =~= invited + match g_alias {
            Some(a) => seq![FollowUpView::BindAlias(a@)],
            None => Seq::empty(),
        });
    }
    if visibility == Visibility::Public {
        proof {
            assert(r@.push(FollowUp::Publish).map_values(|f: FollowUp| f@) =~= r@.map_values(
                |f: FollowUp| f@,
            ).push(FollowUpView::Publish));
        }
        r.push(FollowUp::Publish);
    }
    proof {
        assert(r@.map_values(|f: FollowUp| f@) =~= follow_ups_view(
            invites@,
            g_alias,
            visibility == Visibility::Public,
        ));
    }
    r
}

/// A new room is published to the directory exactly once when it is public, and never
/// otherwise.
pub proof fn lemma_publish_once(invites: Seq<String>, alias: Option<String>, public: bool)
    ensures
        ({
            let f = follow_ups_view(invites, alias, public);
            &&& public ==> f.len() > 0 && f.last() == FollowUpView::Publish
            &&& forall|i: int|
                0 <= i < f.len() && #[trigger] f[i] == FollowUpView::Publish ==> public && i == f.len()
                    - 1
        }),
{
    let f = follow_ups_view(invites, alias, public);
    let head = invites.map_values(|u: String| FollowUpView::Invite(u@)) + match alias {
        Some(a) => seq![FollowUpView::BindAlias(a@)],
        None => Seq::empty(),
    };
    assert forall|i: int| 0 <= i < head.len() implies head[i] != FollowUpView::Publish by {
        if i < invites.len() {
            assert(head[i] == FollowUpView::Invite(invites[i]@));
        }
    }
    assert forall|i: int|
        0 <= i < f.len() && #[trigger] f[i] == FollowUpView::Publish implies public && i == f.len()
            - 1 by {
        if i < head.len() {
            assert(f[i] == head[i]);
        }
    }
}

} // verus!
