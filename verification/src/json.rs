//! Reading JSON.
//!
//! The documents come from other programs and from translation services; what
//! they hold is reached through `serde_json`, and [`Json`] is what its values
//! stand for.
use crate::text;
use vstd::prelude::*;

verus! {

/// What a JSON value holds. Numbers that are not whole are told apart from
/// everything else, not from one another.
pub enum Json {
    Null,
    Bool(bool),
    Integer(int),
    Fraction,
    Text(Seq<char>),
    List(Seq<Json>),
    Fields(Map<Seq<char>, Json>),
}

/// `serde_json::Value`, a parsed value. [`json_of`] names what it holds.
#[verifier::external_type_specification]
#[verifier::external_body]
pub struct ExValue(serde_json::Value);

/// What a parsed value holds.
pub uninterp spec fn json_of(value: serde_json::Value) -> Json;

/// What a document holds, or what is wrong with it.
pub uninterp spec fn document(bytes: Seq<u8>) -> Result<Json, Seq<char>>;

/// Calls `serde_json::from_slice`, and `to_string` on its error. What it returns
/// depends on the bytes alone.
#[verifier::external_body]
pub(crate) fn parse_document(bytes: &Vec<u8>) -> (result: Result<serde_json::Value, String>)
    ensures
        match result {
            Ok(value) => document(bytes@) == Ok::<Json, Seq<char>>(json_of(value)),
            Err(complaint) => document(bytes@) == Err::<Json, Seq<char>>(complaint@),
        },
{
    serde_json::from_slice(bytes).map_err(|error| error.to_string())
}

/// What a stream of bytes holds, or what is wrong with it.
pub uninterp spec fn stream(bytes: Seq<u8>) -> Result<Json, Seq<char>>;

/// Calls `serde_json::from_reader` on the bytes, and `to_string` on its error.
/// What it returns depends on the bytes alone.
#[verifier::external_body]
pub(crate) fn read_stream(bytes: &Vec<u8>) -> (result: Result<serde_json::Value, String>)
    ensures
        match result {
            Ok(value) => stream(bytes@) == Ok::<Json, Seq<char>>(json_of(value)),
            Err(complaint) => stream(bytes@) == Err::<Json, Seq<char>>(complaint@),
        },
{
    serde_json::from_reader(bytes.as_slice())
        .map_err(|error: serde_json::Error| error.to_string())
}

/// What a list of values holds.
pub open spec fn list_of(values: Seq<serde_json::Value>) -> Seq<Json> {
    values.map_values(|value: serde_json::Value| json_of(value))
}

/// What a value that may be missing holds.
pub open spec fn some_json(value: Option<&serde_json::Value>) -> Option<Json> {
    match value {
        Some(value) => Some(json_of(*value)),
        None => None,
    }
}

impl Json {
    /// The entry of an object.
    pub open spec fn field(self, key: Seq<char>) -> Option<Json> {
        match self {
            Json::Fields(fields) => if fields.contains_key(key) {
                Some(fields[key])
            } else {
                None
            },
            _ => None,
        }
    }

    /// The element of an array.
    pub open spec fn element(self, index: int) -> Option<Json> {
        match self {
            Json::List(list) => if 0 <= index < list.len() {
                Some(list[index])
            } else {
                None
            },
            _ => None,
        }
    }

    /// One step of a JSON pointer: a key of an object, or the position in an
    /// array, written in decimal without a sign or leading zeros.
    pub open spec fn step(self, token: Seq<char>) -> Option<Json> {
        match self {
            Json::Fields(_) => self.field(token),
            Json::List(_) => if token.len() > 0 && text::all_digits(token) && (token[0] == '0'
                ==> token.len() == 1) {
                self.element(text::digits_value(token))
            } else {
                None
            },
            _ => None,
        }
    }

    /// Where the steps of a JSON pointer lead.
    pub open spec fn walk(self, tokens: Seq<Seq<char>>) -> Option<Json>
        decreases tokens.len(),
    {
        if tokens.len() == 0 {
            Some(self)
        } else {
            match self.step(tokens[0]) {
                Some(next) => next.walk(tokens.skip(1)),
                None => None,
            }
        }
    }
}

/// `Value::as_bool` gives the truth value, and nothing for any other value.
pub assume_specification[ serde_json::Value::as_bool ](value: &serde_json::Value) -> (result: Option<
    bool,
>)
    ensures
        result == match json_of(*value) {
            Json::Bool(b) => Some(b),
            _ => None,
        },
;

/// `Value::as_i64` gives a whole number that fits, and nothing for any other
/// value.
pub assume_specification[ serde_json::Value::as_i64 ](value: &serde_json::Value) -> (result: Option<
    i64,
>)
    ensures
        match result {
            Some(n) => json_of(*value) == Json::Integer(n as int),
            None => !(json_of(*value) matches Json::Integer(n) && i64::MIN <= n <= i64::MAX),
        },
;

/// `Value::as_str` gives the text of a string, and nothing for any other value.
pub assume_specification[ serde_json::Value::as_str ](value: &serde_json::Value) -> (result: Option<
    &str,
>)
    ensures
        match result {
            Some(text) => json_of(*value) == Json::Text(text@),
            None => !(json_of(*value) is Text),
        },
;

/// `Value::as_array` gives the elements of an array, and nothing for any other
/// value.
pub assume_specification[ serde_json::Value::as_array ](value: &serde_json::Value) -> (result: Option<
    &Vec<serde_json::Value>,
>)
    ensures
        match result {
            Some(list) => json_of(*value) == Json::List(list_of(list@)),
            None => !(json_of(*value) is List),
        },
;

/// `Value::pointer` follows a JSON pointer: the steps between its slashes, which
/// here hold none of the characters that the notation escapes.
pub assume_specification<'a>[ serde_json::Value::pointer ](
    value: &'a serde_json::Value,
    pointer: &str,
) -> (result: Option<&'a serde_json::Value>)
    requires
        pointer@.len() > 0,
        pointer@[0] == '/',
        !pointer@.contains('~'),
    ensures
        some_json(result) == json_of(*value).walk(text::split(pointer@, '/').skip(1)),
;

/// Calls `Value::get` with a key: the entry of an object under that key.
#[verifier::external_body]
pub(crate) fn get_field<'a>(value: &'a serde_json::Value, key: &str) -> (result: Option<
    &'a serde_json::Value,
>)
    ensures
        some_json(result) == json_of(*value).field(key@),
{
    value.get(key)
}

/// Calls `Value::get` with a position: the element of an array at it.
#[verifier::external_body]
pub(crate) fn get_element<'a>(value: &'a serde_json::Value, index: usize) -> (result: Option<
    &'a serde_json::Value,
>)
    ensures
        some_json(result) == json_of(*value).element(index as int),
{
    value.get(index)
}

/// A whole number of 64 bits.
pub open spec fn as_integer(value: Option<Json>) -> Option<i64> {
    match value {
        Some(Json::Integer(n)) => if i64::MIN <= n <= i64::MAX {
            Some(n as i64)
        } else {
            None
        },
        _ => None,
    }
}

/// A truth value.
pub open spec fn as_truth(value: Option<Json>) -> Option<bool> {
    match value {
        Some(Json::Bool(b)) => Some(b),
        _ => None,
    }
}

/// A text.
pub open spec fn as_text(value: Option<Json>) -> Option<Seq<char>> {
    match value {
        Some(Json::Text(text)) => Some(text),
        _ => None,
    }
}

/// The JSON pointer with the given steps.
pub open spec fn pointer_to(tokens: Seq<Seq<char>>) -> Seq<char>
    decreases tokens.len(),
{
    if tokens.len() == 0 {
        Seq::empty()
    } else {
        seq!['/'] + tokens[0] + pointer_to(tokens.skip(1))
    }
}

/// Steps that a JSON pointer can hold without escaping anything.
pub open spec fn plain_steps(tokens: Seq<Seq<char>>) -> bool {
    forall|i: int|
        0 <= i < tokens.len() ==> !(#[trigger] tokens[i]).contains('/') && !tokens[i].contains('~')
}

proof fn lemma_split_after(start: Seq<char>, tokens: Seq<Seq<char>>)
    requires
        !start.contains('/'),
        plain_steps(tokens),
    ensures
        text::split(start + pointer_to(tokens), '/') == seq![start] + tokens,
    decreases tokens.len(),
{
    let whole = start + pointer_to(tokens);
    assert forall|j: int| 0 <= j < start.len() implies whole[j] != '/' by {
        assert(whole[j] == start[j]);
    }
    text::lemma_first_index_is(whole, '/', start.len() as int);
    if tokens.len() == 0 {
        assert(whole =~= start);
        assert(text::split(whole, '/') =~= seq![start] + tokens);
    } else {
        let rest = tokens.skip(1);
        assert(!tokens[0].contains('/'));
        assert forall|i: int| 0 <= i < rest.len() implies !(#[trigger] rest[i]).contains('/')
            && !rest[i].contains('~') by {
            assert(rest[i] == tokens[i + 1]);
        }
        lemma_split_after(tokens[0], rest);
        assert(whole.take(start.len() as int) =~= start);
        assert(whole.skip(start.len() as int + 1) =~= tokens[0] + pointer_to(rest));
        assert(seq![tokens[0]] + rest =~= tokens);
        assert(text::split(whole, '/') =~= seq![start] + tokens);
    }
}

proof fn lemma_nothing_escaped(tokens: Seq<Seq<char>>)
    requires
        plain_steps(tokens),
    ensures
        !pointer_to(tokens).contains('~'),
    decreases tokens.len(),
{
    let whole = pointer_to(tokens);
    if tokens.len() > 0 {
        let rest = tokens.skip(1);
        assert forall|i: int| 0 <= i < rest.len() implies !(#[trigger] rest[i]).contains('/')
            && !rest[i].contains('~') by {
            assert(rest[i] == tokens[i + 1]);
        }
        lemma_nothing_escaped(rest);
        if whole.contains('~') {
            let k = choose|k: int| 0 <= k < whole.len() && whole[k] == '~';
            let first = tokens[0];
            if 1 <= k < 1 + first.len() {
                assert(first[k - 1] == '~');
                assert(first.contains('~'));
            } else if k >= 1 + first.len() {
                assert(pointer_to(rest)[k - 1 - first.len()] == '~');
            }
        }
    }
}

/// A pointer leads where its steps lead.
pub proof fn lemma_pointer(tokens: Seq<Seq<char>>)
    requires
        tokens.len() > 0,
        plain_steps(tokens),
    ensures
        pointer_to(tokens).len() > 0,
        pointer_to(tokens)[0] == '/',
        !pointer_to(tokens).contains('~'),
        text::split(pointer_to(tokens), '/').skip(1) == tokens,
{
    lemma_nothing_escaped(tokens);
    let none = Seq::<char>::empty();
    lemma_split_after(none, tokens);
    assert(none + pointer_to(tokens) =~= pointer_to(tokens));
    assert((seq![none] + tokens).skip(1) =~= tokens);
}

/// The value that a pointer leads to.
pub(crate) fn follow<'a>(
    value: &'a serde_json::Value,
    pointer: &str,
    Ghost(tokens): Ghost<Seq<Seq<char>>>,
) -> (result: Option<&'a serde_json::Value>)
    requires
        tokens.len() > 0,
        plain_steps(tokens),
        pointer@ == pointer_to(tokens),
    ensures
        some_json(result) == json_of(*value).walk(tokens),
{
    proof {
        lemma_pointer(tokens);
    }
    value.pointer(pointer)
}

} // verus!
