use vstd::prelude::*;

use crate::error::ErrorKind;
use crate::json::text_fields;
use crate::power_levels::{FieldSpec, PowerLevelsContent};

verus! {

#[derive(Clone, Copy, Debug, PartialEq, Eq, Structural)]
pub enum JoinRule {
    Public,
    Invite,
}

#[derive(Clone, Copy, Debug, PartialEq, Eq, Structural)]
pub enum GuestAccess {
    CanJoin,
    Forbidden,
}

/// Content of an event that room operations write.
pub enum EventContent {
    /// A JSON object, field by field (key, JSON text); later fields replace earlier ones.
    Object(Vec<(String, String)>),
    /// A join of the sender, with the sender's profile.
    Join {
        displayname: Option<String>,
        avatar_url: Option<String>,
        blurhash: Option<String>,
        is_direct: Option<bool>,
    },
    PowerLevels(PowerLevelsContent),
    CanonicalAlias(String),
    JoinRules(JoinRule),
    /// History visibility `shared`.
    SharedHistory,
    GuestAccess(GuestAccess),
    Name(String),
    Topic(String),
    /// The room is replaced by `replacement_room`; `body` says so to people.
    Tombstone { body: String, replacement_room: String },
    /// Content handed over as JSON text.
    Raw(String),
}

pub ghost enum ContentView {
    Object(Map<Seq<char>, Seq<char>>),
    Join {
        displayname: Option<Seq<char>>,
        avatar_url: Option<Seq<char>>,
        blurhash: Option<Seq<char>>,
        is_direct: Option<bool>,
    },
    PowerLevels(Map<Seq<char>, FieldSpec>),
    CanonicalAlias(Seq<char>),
    JoinRules(JoinRule),
    SharedHistory,
    GuestAccess(GuestAccess),
    Name(Seq<char>),
    Topic(Seq<char>),
    Tombstone { body: Seq<char>, replacement_room: Seq<char> },
    Raw(Seq<char>),
}

pub open spec fn opt_view(o: Option<String>) -> Option<Seq<char>> {
    match o {
        Some(s) => Some(s@),
        None => None,
    }
}

impl View for EventContent {
    type V = ContentView;

    open spec fn view(&self) -> ContentView {
        match self {
            EventContent::Object(f) => ContentView::Object(text_fields(f@)),
            EventContent::Join { displayname, avatar_url, blurhash, is_direct } => ContentView::Join {
                displayname: opt_view(*displayname),
                avatar_url: opt_view(*avatar_url),
                blurhash: opt_view(*blurhash),
                is_direct: *is_direct,
            },
            EventContent::PowerLevels(c) => ContentView::PowerLevels(c@),
            EventContent::CanonicalAlias(a) => ContentView::CanonicalAlias(a@),
            EventContent::JoinRules(j) => ContentView::JoinRules(*j),
            EventContent::SharedHistory => ContentView::SharedHistory,
            EventContent::GuestAccess(g) => ContentView::GuestAccess(*g),
            EventContent::Name(n) => ContentView::Name(n@),
            EventContent::Topic(t) => ContentView::Topic(t@),
            EventContent::Tombstone { body, replacement_room } => ContentView::Tombstone {
                body: body@,
                replacement_room: replacement_room@,
            },
            EventContent::Raw(t) => ContentView::Raw(t@),
        }
    }
}

/// An event to append to a room: its type, its state key (present for a state event) and
/// its content.
pub struct PduSpec {
    pub event_type: String,
    pub state_key: Option<String>,
    pub content: EventContent,
}

pub ghost struct PduView {
    pub event_type: Seq<char>,
    pub state_key: Option<Seq<char>>,
    pub content: ContentView,
}

impl View for PduSpec {
    type V = PduView;

    open spec fn view(&self) -> PduView {
        PduView {
            event_type: self.event_type@,
            state_key: opt_view(self.state_key),
            content: self.content@,
        }
    }
}

pub open spec fn pdus_view(s: Seq<PduSpec>) -> Seq<PduView> {
    s.map_values(|p: PduSpec| p@)
}

/// A state event with the empty state key.
pub open spec fn room_state(event_type: Seq<char>, content: ContentView) -> PduView {
    PduView { event_type, state_key: Some(Seq::empty()), content }
}

pub fn state_event(event_type: &str, content: EventContent) -> (r: PduSpec)
    ensures
        r@ == room_state(event_type@, content@),
{
    PduSpec { event_type: event_type.to_owned(), state_key: Some(String::new()), content }
}

/// A room's current state: for each (event type, state key), the content of the latest
/// state event appended with it.
pub struct StateProjection {
    pub entries: Vec<(String, String, String)>,
}

pub open spec fn projection_map(s: Seq<(String, String, String)>) -> Map<(Seq<char>, Seq<char>), Seq<char>>
    decreases s.len(),
{
    if s.len() == 0 {
        Map::empty()
    } else {
        projection_map(s.drop_last()).insert((s.last().0@, s.last().1@), s.last().2@)
    }
}

impl View for StateProjection {
    type V = Map<(Seq<char>, Seq<char>), Seq<char>>;

    open spec fn view(&self) -> Map<(Seq<char>, Seq<char>), Seq<char>> {
        projection_map(self.entries@)
    }
}

/// Current state after folding state events `(type, key, content)` in order into `start`.
pub open spec fn fold_state(
    start: Map<(Seq<char>, Seq<char>), Seq<char>>,
    events: Seq<(Seq<char>, Seq<char>, Seq<char>)>,
) -> Map<(Seq<char>, Seq<char>), Seq<char>>
    decreases events.len(),
{
    if events.len() == 0 {
        start
    } else {
        fold_state(start, events.drop_last()).insert(
            (events.last().0, events.last().1),
            events.last().2,
        )
    }
}

impl StateProjection {
    pub fn new() -> (r: StateProjection)
        ensures
            r@ == Map::<(Seq<char>, Seq<char>), Seq<char>>::empty(),
    {
        StateProjection { entries: Vec::new() }
    }

    /// Folds one state event in: it becomes the current state for its (type, key).
    pub fn apply(&mut self, event_type: &str, state_key: &str, content: &str)
        ensures
            final(self)@ == old(self)@.insert((event_type@, state_key@), content@),
    {
        let e = (event_type.to_owned(), state_key.to_owned(), content.to_owned());
        proof {
            assert(self.entries@.push(e).drop_last() =~= self.entries@);
        }
        self.entries.push(e);
    }

    /// The current content for (type, key), if any.
    pub fn current(&self, event_type: &str, state_key: &str) -> (r: Option<String>)
        ensures
            r matches Some(c) ==> self@.contains_key((event_type@, state_key@)) && c@ == self@[(
                event_type@,
                state_key@,
            )],
            r is None ==> !self@.contains_key((event_type@, state_key@)),
    {
        let t = event_type.to_owned();
        let k = state_key.to_owned();
        let mut i: usize = self.entries.len();
        proof {
            assert(self.entries@.take(i as int) =~= self.entries@);
            assert(self.entries@.skip(i as int) =~= Seq::<(String, String, String)>::empty());
            assert(projection_map(self.entries@).union_prefer_right(
                projection_map(Seq::<(String, String, String)>::empty()),
            ) =~= projection_map(self.entries@));
        }
        while i > 0
            invariant
                i <= self.entries@.len(),
                t@ == event_type@,
                k@ == state_key@,
                projection_map(self.entries@) == projection_map(self.entries@.take(i as int)).union_prefer_right(
                    projection_map(self.entries@.skip(i as int)),
                ),
                !projection_map(self.entries@.skip(i as int)).contains_key((t@, k@)),
            decreases i,
        {
            proof {
                lemma_projection_split(self.entries@, (i - 1) as int);
            }
            let e = &self.entries[i - 1];
            if e.0.eq(&t) && e.1.eq(&k) {
                return Some(e.2.clone());
            }
            i -= 1;
        }
        proof {
            assert(self.entries@.take(0) =~= Seq::<(String, String, String)>::empty());
        }
        None
    }
}

proof fn lemma_projection_append(a: Seq<(String, String, String)>, b: Seq<(String, String, String)>)
    ensures
        projection_map(a + b) == projection_map(a).union_prefer_right(projection_map(b)),
    decreases b.len(),
{
    if b.len() == 0 {
        assert(a + b =~= a);
        assert(projection_map(a).union_prefer_right(projection_map(b)) =~= projection_map(a));
    } else {
        assert((a + b).drop_last() =~= a + b.drop_last());
        lemma_projection_append(a, b.drop_last());
        assert(projection_map(a + b) =~= projection_map(a).union_prefer_right(projection_map(b)));
    }
}

proof fn lemma_projection_split(s: Seq<(String, String, String)>, i: int)
    requires
        0 <= i < s.len(),
    ensures
        projection_map(s.take(i + 1)) == projection_map(s.take(i)).insert(
            (s[i].0@, s[i].1@),
            s[i].2@,
        ),
        projection_map(s.skip(i)) == projection_map(seq![s[i]]).union_prefer_right(
            projection_map(s.skip(i + 1)),
        ),
        projection_map(s) == projection_map(s.take(i)).union_prefer_right(projection_map(s.skip(i))),
        projection_map(seq![s[i]]) == Map::<(Seq<char>, Seq<char>), Seq<char>>::empty().insert(
            (s[i].0@, s[i].1@),
            s[i].2@,
        ),
{
    assert(s.take(i + 1).drop_last() =~= s.take(i));
    assert(s.skip(i) =~= seq![s[i]] + s.skip(i + 1));
    lemma_projection_append(seq![s[i]], s.skip(i + 1));
    assert(s =~= s.take(i) + s.skip(i));
    lemma_projection_append(s.take(i), s.skip(i));
    assert(seq![s[i]].drop_last() =~= Seq::<(String, String, String)>::empty());
    assert(seq![s[i]].last() == s[i]);
    assert(projection_map(Seq::<(String, String, String)>::empty()) == Map::<
        (Seq<char>, Seq<char>),
        Seq<char>,
    >::empty());
}

/// Appending state events that share one (type, key) leaves exactly the content of the last
/// of them as the current state for that (type, key), and touches no other key.
pub proof fn lemma_last_append_wins(
    start: Map<(Seq<char>, Seq<char>), Seq<char>>,
    events: Seq<(Seq<char>, Seq<char>, Seq<char>)>,
    event_type: Seq<char>,
    state_key: Seq<char>,
)
    requires
        events.len() > 0,
        forall|i: int| 0 <= i < events.len() ==> #[trigger] events[i].0 == event_type && events[i].1
            == state_key,
    ensures
        fold_state(start, events) == start.insert((event_type, state_key), events.last().2),
    decreases events.len(),
{
    assert(events[events.len() - 1].0 == event_type && events[events.len() - 1].1 == state_key);
    if events.len() == 1 {
        assert(events.drop_last() =~= Seq::<(Seq<char>, Seq<char>, Seq<char>)>::empty());
        assert(fold_state(start, events.drop_last()) == start);
    } else {
        let prev = events.drop_last();
        assert forall|i: int| 0 <= i < prev.len() implies #[trigger] prev[i].0 == event_type
            && prev[i].1 == state_key by {
            assert(prev[i] == events[i]);
        }
        lemma_last_append_wins(start, prev, event_type, state_key);
        assert(events[events.len() - 1] == events.last());
        assert(fold_state(start, events) =~= start.insert((event_type, state_key), events.last().2));
    }
}

/// What a run of appends asks for next.
#[derive(Clone, Copy, Debug, PartialEq, Eq, Structural)]
pub enum Step {
    /// Append the event at this index of the run.
    Append(usize),
    /// The run is over, with this outcome.
    Finish(Option<ErrorKind>),
}

/// An ordered run of appends to one room, made under that room's lock: each event is
/// appended only after every earlier one succeeded, and the first failure ends the run.
/// Nothing appended is undone.
pub struct AppendRun {
    pub events: Vec<PduSpec>,
    /// How many events have been appended.
    pub done: usize,
    /// The error of the append that failed, if one did.
    pub failed: Option<ErrorKind>,
    /// An error to report once every event is appended.
    pub trailing_error: Option<ErrorKind>,
}

impl AppendRun {
    pub open spec fn wf(&self) -> bool {
        self.done <= self.events@.len() && (self.failed is Some ==> self.done < self.events@.len())
    }

    pub fn new(events: Vec<PduSpec>, trailing_error: Option<ErrorKind>) -> (r: AppendRun)
        ensures
            r.wf(),
            r.events@ == events@,
            r.done == 0,
            r.failed is None,
            r.trailing_error == trailing_error,
    {
        AppendRun { events, done: 0, failed: None, trailing_error }
    }

    /// The next thing to do: append the next event, or report the outcome.
    pub fn next_step(&self) -> (r: Step)
        requires
            self.wf(),
        ensures
            r == (match self.failed {
                Some(e) => Step::Finish(Some(e)),
                None => if self.done < self.events@.len() {
                    Step::Append(self.done)
                } else {
                    Step::Finish(self.trailing_error)
                },
            }),
    {
        match self.failed {
            Some(e) => Step::Finish(Some(e)),
            None => if self.done < self.events.len() {
                Step::Append(self.done)
            } else {
                Step::Finish(self.trailing_error)
            },
        }
    }

    /// Records the result of appending the event at index `done`.
    pub fn record(&mut self, result: Result<(), ErrorKind>)
        requires
            old(self).wf(),
            old(self).failed is None,
            old(self).done < old(self).events@.len(),
        ensures
            final(self).wf(),
            final(self).events@ == old(self).events@,
            final(self).trailing_error == old(self).trailing_error,
            match result {
                Ok(()) => final(self).done == old(self).done + 1 && final(self).failed is None,
                Err(e) => final(self).done == old(self).done && final(self).failed == Some(e),
            },
    {
        match result {
            Ok(()) => {
                let n = self.events.len();
                assert(self.done < n);
                self.done = self.done + 1;
            },
            Err(e) => {
                self.failed = Some(e);
            },
        }
    }
}

} // verus!
