use vstd::prelude::*;
use vstd::utf8::encode_utf8;

use crate::error::ErrorKind;

verus! {

/// The Unicode `White_Space` property, which `char::is_whitespace` tests.
pub open spec fn is_white_space(c: char) -> bool {
    let u = c as u32;
    (0x9 <= u && u <= 0xd) || u == 0x20 || u == 0x85 || u == 0xa0 || u == 0x1680
        || (0x2000 <= u && u <= 0x200a) || u == 0x2028 || u == 0x2029 || u == 0x202f
        || u == 0x205f || u == 0x3000
}

pub open spec fn has_char(s: Seq<char>, c: char) -> bool {
    exists|i: int| 0 <= i < s.len() && s[i] == c
}

pub open spec fn has_white_space(s: Seq<char>) -> bool {
    exists|i: int| 0 <= i < s.len() && is_white_space(#[trigger] s[i])
}

/// `"<sigil><localpart>:<server_name>"`.
pub open spec fn qualified(sigil: char, localpart: Seq<char>, server_name: Seq<char>) -> Seq<char> {
    seq![sigil] + localpart + seq![':'] + server_name
}

/// What ruma accepts as a room ID: at most 255 bytes of UTF-8, starting with `!`.
pub open spec fn valid_room_id(s: Seq<char>) -> bool {
    encode_utf8(s).len() <= 255 && s.len() > 0 && s[0] == '!'
}

/// Whether ruma accepts `s` as a room alias.
pub uninterp spec fn room_alias_parses(s: Seq<char>) -> bool;

fn is_white_space_char(c: char) -> (r: bool)
    ensures
        r == is_white_space(c),
{
    let u = c as u32;
    (0x9 <= u && u <= 0xd) || u == 0x20 || u == 0x85 || u == 0xa0 || u == 0x1680
        || (0x2000 <= u && u <= 0x200a) || u == 0x2028 || u == 0x2029 || u == 0x202f
        || u == 0x205f || u == 0x3000
}

pub fn contains_char(s: &str, c: char) -> (r: bool)
    ensures
        r == has_char(s@, c),
{
    let n = s.unicode_len();
    let mut i: usize = 0;
    while i < n
        invariant
            n == s@.len(),
            i <= n,
            forall|j: int| 0 <= j < i ==> s@[j] != c,
        decreases n - i,
    {
        if s.get_char(i) == c {
            return true;
        }
        i += 1;
    }
    false
}

pub fn contains_white_space(s: &str) -> (r: bool)
    ensures
        r == has_white_space(s@),
{
    let n = s.unicode_len();
    let mut i: usize = 0;
    while i < n
        invariant
            n == s@.len(),
            i <= n,
            forall|j: int| 0 <= j < i ==> !is_white_space(#[trigger] s@[j]),
        decreases n - i,
    {
        if is_white_space_char(s.get_char(i)) {
            return true;
        }
        i += 1;
    }
    false
}

fn qualify(sigil: &str, localpart: &str, server_name: &str) -> (r: String)
    ensures
        r@ == sigil@ + localpart@ + seq![':'] + server_name@,
{
    let mut r = sigil.to_owned();
    r.append(localpart);
    r.append(":");
    r.append(server_name);
    proof { reveal_strlit(":"); }
    r
}

/// Relies on ruma's `RoomId::parse`, which checks the length (255 bytes at most) and the
/// leading `!`.
#[verifier::external_body]
fn parse_room_id(s: &str) -> (r: Result<String, ()>)
    ensures
        r is Ok <==> valid_room_id(s@),
        r matches Ok(id) ==> id@ == s@,
{
    ruma::RoomId::parse(s).map(|id| id.as_str().to_owned()).map_err(|_| ())
}

/// Relies on ruma's `RoomAliasId::parse`.
#[verifier::external_body]
fn parse_room_alias(s: &str) -> (r: Result<String, ()>)
    ensures
        r is Ok <==> room_alias_parses(s@),
        r matches Ok(a) ==> a@ == s@,
{
    ruma::RoomAliasId::parse(s).map(|a| a.as_str().to_owned()).map_err(|_| ())
}

/// The local-part rules shared by custom room IDs and aliases: no `:`, no white space, not
/// forbidden by name.
pub open spec fn localpart_error(localpart: Seq<char>, forbidden: bool) -> Option<ErrorKind> {
    if has_char(localpart, ':') {
        Some(ErrorKind::InvalidParam)
    } else if has_white_space(localpart) {
        Some(ErrorKind::InvalidParam)
    } else if forbidden {
        Some(ErrorKind::Unknown)
    } else {
        None
    }
}

fn check_localpart(localpart: &str, forbidden: bool) -> (r: Result<(), ErrorKind>)
    ensures
        r == (match localpart_error(localpart@, forbidden) {
            Some(e) => Err(e),
            None => Ok(()),
        }),
{
    if contains_char(localpart, ':') {
        Err(ErrorKind::InvalidParam)
    } else if contains_white_space(localpart) {
        Err(ErrorKind::InvalidParam)
    } else if forbidden {
        Err(ErrorKind::Unknown)
    } else {
        Ok(())
    }
}

/// Validates a caller-supplied room ID local-part and builds `!<localpart>:<server_name>`.
/// `forbidden` tells whether the server's forbidden-name pattern matches the local-part.
pub fn custom_room_id_check(custom_room_id: &str, server_name: &str, forbidden: bool) -> (r: Result<
    String,
    ErrorKind,
>)
    ensures
        localpart_error(custom_room_id@, forbidden) matches Some(e) ==> r == Err::<String, ErrorKind>(e),
        localpart_error(custom_room_id@, forbidden) is None ==> {
            let full = qualified('!', custom_room_id@, server_name@);
            if valid_room_id(full) {
                r matches Ok(id) && id@ == full
            } else {
                r == Err::<String, ErrorKind>(ErrorKind::InvalidParam)
            }
        },
{
    check_localpart(custom_room_id, forbidden)?;
    let full = qualify("!", custom_room_id, server_name);
    proof {
        reveal_strlit("!");
        assert(full@ =~= qualified('!', custom_room_id@, server_name@));
    }
    match parse_room_id(full.as_str()) {
        Ok(id) => Ok(id),
        Err(()) => Err(ErrorKind::InvalidParam),
    }
}

/// Validates a requested alias local-part and builds `#<localpart>:<server_name>`.
/// `forbidden` tells whether the server's forbidden-name pattern matches the local-part.
pub fn room_alias_check(room_alias_name: &str, server_name: &str, forbidden: bool) -> (r: Result<
    String,
    ErrorKind,
>)
    ensures
        localpart_error(room_alias_name@, forbidden) matches Some(e) ==> r == Err::<String, ErrorKind>(e),
        localpart_error(room_alias_name@, forbidden) is None ==> {
            let full = qualified('#', room_alias_name@, server_name@);
            if room_alias_parses(full) {
                r matches Ok(a) && a@ == full
            } else {
                r == Err::<String, ErrorKind>(ErrorKind::InvalidParam)
            }
        },
{
    check_localpart(room_alias_name, forbidden)?;
    let full = qualify("#", room_alias_name, server_name);
    proof {
        reveal_strlit("#");
        assert(full@ =~= qualified('#', room_alias_name@, server_name@));
    }
    match parse_room_alias(full.as_str()) {
        Ok(a) => Ok(a),
        Err(()) => Err(ErrorKind::InvalidParam),
    }
}

/// A local-part with `:` or white space is rejected as `InvalidParam`, before any other rule
/// and whatever the forbidden-name policy says.
pub proof fn lemma_separator_or_space_is_invalid(localpart: Seq<char>, forbidden: bool)
    requires
        has_char(localpart, ':') || has_white_space(localpart),
    ensures
        localpart_error(localpart, forbidden) == Some(ErrorKind::InvalidParam),
{
}

/// Whether a user may read something of a room: `NotFound` when it does not exist,
/// `Forbidden` when the user may not see it.
pub fn read_access(exists: bool, can_see: bool) -> (r: Result<(), ErrorKind>)
    ensures
        r == (if !exists {
            Err(ErrorKind::NotFound)
        } else if !can_see {
            Err(ErrorKind::Forbidden)
        } else {
            Ok(())
        }),
{
    if !exists {
        Err(ErrorKind::NotFound)
    } else if !can_see {
        Err(ErrorKind::Forbidden)
    } else {
        Ok(())
    }
}

/// Who asks for an alias, for the namespace rules.
#[derive(Clone, Copy, Debug, PartialEq, Eq, Structural)]
pub enum AliasRequester {
    /// An ordinary user; `reserved` tells whether some appservice holds the alias exclusively.
    User { reserved: bool },
    /// An appservice; `in_namespace` tells whether the alias lies in its own namespace.
    Appservice { in_namespace: bool },
}

pub open spec fn alias_claim_error(taken: bool, requester: AliasRequester) -> Option<ErrorKind> {
    if taken {
        Some(ErrorKind::RoomInUse)
    } else {
        match requester {
            AliasRequester::User { reserved } => if reserved {
                Some(ErrorKind::Exclusive)
            } else {
                None
            },
            AliasRequester::Appservice { in_namespace } => if in_namespace {
                None
            } else {
                Some(ErrorKind::Exclusive)
            },
        }
    }
}

/// Decides whether a well-formed alias may be claimed: it must not resolve to a room yet
/// (`taken`), and must respect the appservice namespaces.
pub fn alias_claim_check(taken: bool, requester: AliasRequester) -> (r: Result<(), ErrorKind>)
    ensures
        r == (match alias_claim_error(taken, requester) {
            Some(e) => Err(e),
            None => Ok(()),
        }),
{
    if taken {
        return Err(ErrorKind::RoomInUse);
    }
    match requester {
        AliasRequester::User { reserved } => if reserved {
            Err(ErrorKind::Exclusive)
        } else {
            Ok(())
        },
        AliasRequester::Appservice { in_namespace } => if in_namespace {
            Ok(())
        } else {
            Err(ErrorKind::Exclusive)
        },
    }
}

} // verus!
