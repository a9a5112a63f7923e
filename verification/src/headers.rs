//! Header blocks of the `http` crate, seen as sequences of fields.
//!
//! A header block is modelled by the sequence of its `(name, value)` byte
//! pairs in the order in which the block hands them out. The functions of
//! this module that call into `http` are not proved: Verus takes their
//! contracts on trust.

use vstd::prelude::*;

verus! {

#[verifier::external_type_specification]
#[verifier::external_body]
#[verifier::reject_recursive_types(T)]
pub struct ExHeaderMap<T>(http::HeaderMap<T>);

#[verifier::external_type_specification]
#[verifier::external_body]
pub struct ExHeaderValue(http::HeaderValue);

/// The fields of a header block, in the block's iteration order: each name
/// with one of its values, a name with several values once per value.
pub uninterp spec fn header_fields(map: http::HeaderMap<http::HeaderValue>) -> Seq<
    (Seq<u8>, Seq<u8>),
>;

/// The bytes that a header value holds.
pub uninterp spec fn value_bytes(value: http::HeaderValue) -> Seq<u8>;

/// A header block could not take another field.
#[derive(Clone, Copy, Debug, PartialEq, Eq)]
pub struct HeadersFull;

/// One header field as plain bytes.
#[derive(Debug, PartialEq, Eq)]
pub struct Field {
    pub name: Vec<u8>,
    pub value: Vec<u8>,
}

impl View for Field {
    type V = (Seq<u8>, Seq<u8>);

    open spec fn view(&self) -> (Seq<u8>, Seq<u8>) {
        (self.name@, self.value@)
    }
}

/// The fields of a list, each as a pair of byte sequences.
pub open spec fn fields_view(fields: Seq<Field>) -> Seq<(Seq<u8>, Seq<u8>)> {
    fields.map_values(|f: Field| f@)
}

/// The bytes of a text whose characters are all ASCII.
pub open spec fn ascii(text: Seq<char>) -> Seq<u8> {
    text.map_values(|c: char| c as u8)
}

/// A character that may stand in a field name handed to this module: a lower
/// case letter, a digit or a hyphen.
pub open spec fn is_name_char(c: char) -> bool {
    ('a' <= c && c <= 'z') || ('0' <= c && c <= '9') || c == '-'
}

/// A field name that this module accepts: one to sixty-four name characters.
pub open spec fn is_field_name(name: Seq<char>) -> bool {
    &&& 1 <= name.len() <= 64
    &&& forall|i: int| 0 <= i < name.len() ==> is_name_char(#[trigger] name[i])
}

/// A byte that a header value may hold: a tab, or anything from the space
/// upwards but the delete character.
pub open spec fn is_value_byte(b: u8) -> bool {
    (b >= 32 && b != 127) || b == 9
}

/// A byte sequence that is accepted as a header value.
pub open spec fn is_field_value(value: Seq<u8>) -> bool {
    forall|i: int| 0 <= i < value.len() ==> is_value_byte(#[trigger] value[i])
}

/// The number of fields up to which a header block is sure to take one more.
///
/// A block of `http` refuses a field only where it would have to grow beyond
/// 32768 slots, or holds that many names. It grows only where its names fill
/// three quarters of its slots or, after many collisions, a fifth of them.
/// So a block that refuses a field has more than 16384 slots and its names
/// fill at least a fifth of them: it holds more than 3276 names.
pub const SURE_ROOM: usize = 3276;

/// A sequence of fields so short that the block that holds it is sure to
/// take one more.
pub open spec fn has_room(fields: Seq<(Seq<u8>, Seq<u8>)>) -> bool {
    fields.len() <= SURE_ROOM
}

/// The values that a sequence of fields holds under one name, in order.
pub open spec fn values_of(fields: Seq<(Seq<u8>, Seq<u8>)>, name: Seq<u8>) -> Seq<Seq<u8>>
    decreases fields.len(),
{
    if fields.len() == 0 {
        Seq::empty()
    } else if fields.last().0 == name {
        values_of(fields.drop_last(), name).push(fields.last().1)
    } else {
        values_of(fields.drop_last(), name)
    }
}

/// `after` is `before` with `name` set to the single value `value`: every
/// other name keeps its values.
pub open spec fn is_set(
    before: Seq<(Seq<u8>, Seq<u8>)>,
    after: Seq<(Seq<u8>, Seq<u8>)>,
    name: Seq<u8>,
    value: Seq<u8>,
) -> bool {
    forall|n: Seq<u8>| #[trigger]
        values_of(after, n) == if n == name {
            seq![value]
        } else {
            values_of(before, n)
        }
}

/// `after` is `before` without any field called `name`: every other name
/// keeps its values.
pub open spec fn is_unset(
    before: Seq<(Seq<u8>, Seq<u8>)>,
    after: Seq<(Seq<u8>, Seq<u8>)>,
    name: Seq<u8>,
) -> bool {
    forall|n: Seq<u8>| #[trigger]
        values_of(after, n) == if n == name {
            Seq::<Seq<u8>>::empty()
        } else {
            values_of(before, n)
        }
}

/// How many fields of a sequence are called `name` (`same`), or are called
/// otherwise (not `same`).
pub open spec fn tally(fields: Seq<(Seq<u8>, Seq<u8>)>, name: Seq<u8>, same: bool) -> nat
    decreases fields.len(),
{
    if fields.len() == 0 {
        0
    } else {
        tally(fields.drop_last(), name, same) + if (fields.last().0 == name) == same {
            1nat
        } else {
            0nat
        }
    }
}

/// A name has as many values as there are fields called by it.
pub proof fn lemma_tally_values(fields: Seq<(Seq<u8>, Seq<u8>)>, name: Seq<u8>)
    ensures
        values_of(fields, name).len() == tally(fields, name, true),
    decreases fields.len(),
{
    if fields.len() > 0 {
        lemma_tally_values(fields.drop_last(), name);
    }
}

/// Every field is called `name` or is not.
pub proof fn lemma_tally_split(fields: Seq<(Seq<u8>, Seq<u8>)>, name: Seq<u8>)
    ensures
        fields.len() == tally(fields, name, true) + tally(fields, name, false),
    decreases fields.len(),
{
    if fields.len() > 0 {
        lemma_tally_split(fields.drop_last(), name);
    }
}

/// Taking one field out takes one from the tally that counts it.
pub proof fn lemma_tally_remove(
    fields: Seq<(Seq<u8>, Seq<u8>)>,
    at: int,
    name: Seq<u8>,
    same: bool,
)
    requires
        0 <= at < fields.len(),
    ensures
        tally(fields, name, same) == tally(fields.remove(at), name, same) + if (fields[at].0
            == name) == same {
            1nat
        } else {
            0nat
        },
    decreases fields.len(),
{
    if at == fields.len() - 1 {
        assert(fields.remove(at) =~= fields.drop_last());
    } else {
        assert(fields.remove(at).drop_last() =~= fields.drop_last().remove(at));
        assert(fields.remove(at).last() == fields.last());
        lemma_tally_remove(fields.drop_last(), at, name, same);
    }
}

/// A name with a value is the name of some field.
pub proof fn lemma_tally_found(fields: Seq<(Seq<u8>, Seq<u8>)>, name: Seq<u8>) -> (at: int)
    requires
        tally(fields, name, true) > 0,
    ensures
        0 <= at < fields.len(),
        fields[at].0 == name,
    decreases fields.len(),
{
    if fields.last().0 == name {
        fields.len() - 1
    } else {
        lemma_tally_found(fields.drop_last(), name)
    }
}

/// Where no name but `name` has more fields in `a` than in `b`, `a` has no
/// more fields called otherwise than `b` has.
pub proof fn lemma_tally_others(
    a: Seq<(Seq<u8>, Seq<u8>)>,
    b: Seq<(Seq<u8>, Seq<u8>)>,
    name: Seq<u8>,
)
    requires
        forall|n: Seq<u8>| n != name ==> #[trigger] tally(a, n, true) <= tally(b, n, true),
    ensures
        tally(a, name, false) <= tally(b, name, false),
    decreases a.len(),
{
    if a.len() > 0 {
        let rest = a.drop_last();
        let m = a.last().0;
        if m == name {
            assert forall|n: Seq<u8>| n != name implies #[trigger] tally(rest, n, true) <= tally(
                b,
                n,
                true,
            ) by {
                assert(tally(a, n, true) <= tally(b, n, true));
            }
            lemma_tally_others(rest, b, name);
        } else {
            assert(tally(a, m, true) <= tally(b, m, true));
            let at = lemma_tally_found(b, m);
            let less = b.remove(at);
            assert forall|n: Seq<u8>| n != name implies #[trigger] tally(rest, n, true) <= tally(
                less,
                n,
                true,
            ) by {
                assert(tally(a, n, true) <= tally(b, n, true));
                lemma_tally_remove(b, at, n, true);
            }
            lemma_tally_others(rest, less, name);
            lemma_tally_remove(b, at, name, false);
        }
    }
}

/// Setting a field adds at most one field to a sequence.
pub proof fn lemma_set_adds_one(
    before: Seq<(Seq<u8>, Seq<u8>)>,
    after: Seq<(Seq<u8>, Seq<u8>)>,
    name: Seq<u8>,
    value: Seq<u8>,
)
    requires
        is_set(before, after, name, value),
    ensures
        after.len() <= before.len() + 1,
{
    assert forall|n: Seq<u8>| n != name implies #[trigger] tally(after, n, true) <= tally(
        before,
        n,
        true,
    ) by {
        lemma_tally_values(after, n);
        lemma_tally_values(before, n);
        assert(values_of(after, n) == values_of(before, n));
    }
    lemma_tally_others(after, before, name);
    lemma_tally_values(after, name);
    assert(values_of(after, name) == seq![value]);
    lemma_tally_split(after, name);
    lemma_tally_split(before, name);
}

/// Calls `http::HeaderValue::from_bytes`. The value is made exactly when
/// every byte is one that a header value may hold, and then holds the bytes
/// it was made from.
#[verifier::external_body]
pub(crate) fn new_value(bytes: &[u8]) -> (made: Option<http::HeaderValue>)
    ensures
        made.is_some() == is_field_value(bytes@),
        made matches Some(v) ==> value_bytes(v) == bytes@,
{
    http::HeaderValue::from_bytes(bytes).ok()
}

/// Calls `http::HeaderMap::try_insert` with a static name. On success the
/// name holds the new value alone and no other name is touched; the call
/// fails only when the block cannot grow, and then the block keeps its
/// fields. It does not fail on a block that has room.
#[verifier::external_body]
pub(crate) fn try_set(
    map: &mut http::HeaderMap<http::HeaderValue>,
    name: &'static str,
    value: http::HeaderValue,
) -> (done: bool)
    requires
        is_field_name(name@),
    ensures
        has_room(header_fields(*old(map))) ==> done,
        done ==> is_set(
            header_fields(*old(map)),
            header_fields(*final(map)),
            ascii(name@),
            value_bytes(value),
        ),
        !done ==> header_fields(*final(map)) == header_fields(*old(map)),
{
    map.try_insert(name, value).is_ok()
}

/// Calls `http::HeaderMap::remove`. Afterwards the name has no value and no
/// other name is touched.
#[verifier::external_body]
pub(crate) fn unset(map: &mut http::HeaderMap<http::HeaderValue>, name: &str)
    requires
        is_field_name(name@),
    ensures
        is_unset(header_fields(*old(map)), header_fields(*final(map)), ascii(name@)),
{
    map.remove(name);
}

/// Calls `http::HeaderMap::get` and copies the value found. The result is
/// the first value that the block holds under the name, if it holds one.
#[verifier::external_body]
pub(crate) fn first_value(map: &http::HeaderMap<http::HeaderValue>, name: &str) -> (found: Option<
    Vec<u8>,
>)
    requires
        is_field_name(name@),
    ensures
        found.is_some() == (values_of(header_fields(*map), ascii(name@)).len() > 0),
        found matches Some(v) ==> v@ == values_of(header_fields(*map), ascii(name@))[0],
{
    map.get(name).map(|v| v.as_bytes().to_vec())
}

/// Walks `http::HeaderMap::iter` and copies each field. The result is the
/// block's fields in iteration order.
#[verifier::external_body]
pub(crate) fn all_fields(map: &http::HeaderMap<http::HeaderValue>) -> (fields: Vec<Field>)
    ensures
        fields_view(fields@) == header_fields(*map),
{
    map.iter()
        .map(|(name, value)| Field {
            name: name.as_str().as_bytes().to_vec(),
            value: value.as_bytes().to_vec(),
        })
        .collect()
}

} // verus!
