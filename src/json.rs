use vstd::prelude::*;

verus! {

/// The object that a list of `(key, JSON text)` fields denotes: a later field replaces an
/// earlier one with the same key, as assigning keys of a JSON object in order does.
pub open spec fn text_fields(s: Seq<(String, String)>) -> Map<Seq<char>, Seq<char>>
    decreases s.len(),
{
    if s.len() == 0 {
        Map::empty()
    } else {
        text_fields(s.drop_last()).insert(s.last().0@, s.last().1@)
    }
}

pub proof fn lemma_text_fields_push(s: Seq<(String, String)>, k: String, v: String)
    ensures
        text_fields(s.push((k, v))) == text_fields(s).insert(k@, v@),
{
    assert(s.push((k, v)).drop_last() =~= s);
}

/// The top-level fields of `text` as serde_json reads it into a JSON object, each value
/// written back as compact JSON; `None` where it is not a JSON object.
pub uninterp spec fn json_object_fields(text: Seq<char>) -> Option<Map<Seq<char>, Seq<char>>>;

/// The top-level fields of `text` read as a canonical JSON object by ruma, each value written
/// back in canonical form; `None` where it is not one.
pub uninterp spec fn canonical_object_fields(text: Seq<char>) -> Option<Map<Seq<char>, Seq<char>>>;

/// The JSON string literal that serde_json writes for `s`.
pub uninterp spec fn json_string_of(s: Seq<char>) -> Seq<char>;

/// Relies on `serde_json::from_str` into a `serde_json::Map`, and on `Value`'s `Display`
/// for each value.
#[verifier::external_body]
pub(crate) fn parse_json_object(text: &str) -> (r: Result<Vec<(String, String)>, ()>)
    ensures
        r is Ok <==> json_object_fields(text@) is Some,
        r matches Ok(v) ==> text_fields(v@) == json_object_fields(text@)->Some_0,
{
    serde_json::from_str::<serde_json::Map<String, serde_json::Value>>(text)
        .map(|m| m.into_iter().map(|(k, v)| (k, v.to_string())).collect())
        .map_err(|_| ())
}

/// Relies on `serde_json::from_str` into ruma's `CanonicalJsonObject`, and on
/// `CanonicalJsonValue`'s `Display` for each value.
#[verifier::external_body]
pub(crate) fn parse_canonical_object(text: &str) -> (r: Result<Vec<(String, String)>, ()>)
    ensures
        r is Ok <==> canonical_object_fields(text@) is Some,
        r matches Ok(v) ==> text_fields(v@) == canonical_object_fields(text@)->Some_0,
{
    serde_json::from_str::<ruma::CanonicalJsonObject>(text)
        .map(|m| m.into_iter().map(|(k, v)| (k, v.to_string())).collect())
        .map_err(|_| ())
}

/// Relies on serde_json's `Value::String` and its `Display`: the string as a JSON literal.
#[verifier::external_body]
pub(crate) fn json_string(s: &str) -> (r: String)
    ensures
        r@ == json_string_of(s@),
{
    serde_json::Value::String(s.to_owned()).to_string()
}

/// Sets `key` to `value` in a field list.
pub fn set_field(fields: &mut Vec<(String, String)>, key: &str, value: String)
    ensures
        text_fields(final(fields)@) == text_fields(old(fields)@).insert(key@, value@),
{
    let k = key.to_owned();
    proof { lemma_text_fields_push(fields@, k, value); }
    fields.push((k, value));
}

/// Removes every field named `key`.
pub fn remove_field(fields: &mut Vec<(String, String)>, key: &str)
    ensures
        text_fields(final(fields)@) == text_fields(old(fields)@).remove(key@),
{
    let key_owned = key.to_owned();
    let mut kept: Vec<(String, String)> = Vec::new();
    let mut i: usize = 0;
    while i < fields.len()
        invariant
            i <= fields@.len(),
            key_owned@ == key@,
            text_fields(kept@) == text_fields(fields@.take(i as int)).remove(key@),
        decreases fields@.len() - i,
    {
        let k = fields[i].0.clone();
        let v = fields[i].1.clone();
        proof {
            assert(fields@.take(i + 1).drop_last() =~= fields@.take(i as int));
            assert(text_fields(fields@.take(i + 1)) == text_fields(fields@.take(i as int)).insert(
                k@,
                v@,
            ));
        }
        if !k.eq(&key_owned) {
            proof {
                lemma_text_fields_push(kept@, k, v);
                assert(text_fields(kept@.push((k, v))) =~= text_fields(
                    fields@.take(i + 1),
                ).remove(key@));
            }
            kept.push((k, v));
        } else {
            proof {
                assert(text_fields(kept@) =~= text_fields(fields@.take(i + 1)).remove(key@));
            }
        }
        i += 1;
    }
    proof { assert(fields@.take(fields@.len() as int) =~= fields@); }
    *fields = kept;
}

} // verus!
