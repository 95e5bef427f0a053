use vstd::prelude::*;

verus! {

/// A parsed JSON document, holding as plain values everything this library
/// reads: structure, strings, booleans and integer numbers. A number that
/// does not fit `i64` (or is fractional) keeps its place in the structure
/// as `OtherNum` but its value is not modeled; no decoder here accepts it.
#[derive(Debug)]
pub enum JsonValue {
    Null,
    Bool(bool),
    Int(i64),
    OtherNum,
    Str(String),
    Array(Vec<JsonValue>),
    Object(Vec<(String, JsonValue)>),
}

/// The document that parsing a given text yields: `None` when the text is
/// not well-formed JSON. Parsing is a function of the text alone.
pub uninterp spec fn json_model_of(text: Seq<char>) -> Option<JsonValue>;

/// serde_json's parsed-value type, opaque here; only the trusted functions
/// below touch it.
#[verifier::external_type_specification]
#[verifier::external_body]
pub struct ExValue(serde_json::Value);

/// Relies on serde_json::from_str: parses JSON text into a document; the
/// result is a function of the text alone, named `json_model_of`.
#[verifier::external_body]
pub fn parse_json(text: &str) -> (r: Option<JsonValue>)
    ensures
        r == json_model_of(text@),
{
    match serde_json::from_str::<serde_json::Value>(text) {
        Ok(v) => Some(value_model(&v)),
        Err(_) => None,
    }
}

/// Relies on serde_json::Value: rebuilds a parsed value arm by arm as the
/// library's own JsonValue, so that verified code can read it.
#[verifier::external_body]
fn value_model(v: &serde_json::Value) -> JsonValue {
    match v {
        serde_json::Value::Null => JsonValue::Null,
        serde_json::Value::Bool(b) => JsonValue::Bool(*b),
        serde_json::Value::Number(n) => match n.as_i64() {
            Some(i) => JsonValue::Int(i),
            None => JsonValue::OtherNum,
        },
        serde_json::Value::String(s) => JsonValue::Str(s.clone()),
        serde_json::Value::Array(a) => JsonValue::Array(a.iter().map(value_model).collect()),
        serde_json::Value::Object(o) => JsonValue::Object(
            o.iter().map(|(k, x)| (k.clone(), value_model(x))).collect(),
        ),
    }
}

/// The value under `key` among `entries`, searching from the front.
pub open spec fn spec_entries_get(entries: Seq<(String, JsonValue)>, key: Seq<char>) -> Option<
    JsonValue,
>
    decreases entries.len(),
{
    if entries.len() == 0 {
        None
    } else if entries[0].0@ == key {
        Some(entries[0].1)
    } else {
        spec_entries_get(entries.drop_first(), key)
    }
}

/// The value under `key` when `v` is an object holding it.
pub open spec fn spec_get(v: JsonValue, key: Seq<char>) -> Option<JsonValue> {
    match v {
        JsonValue::Object(entries) => spec_entries_get(entries@, key),
        _ => None,
    }
}

proof fn lemma_entries_get_prefix(entries: Seq<(String, JsonValue)>, key: Seq<char>, i: int)
    requires
        0 <= i <= entries.len(),
        forall|j: int| 0 <= j < i ==> entries[j].0@ != key,
    ensures
        spec_entries_get(entries, key) == spec_entries_get(
            entries.subrange(i, entries.len() as int),
            key,
        ),
    decreases i,
{
    if i == 0 {
        assert(entries.subrange(0, entries.len() as int) =~= entries);
    } else {
        lemma_entries_get_prefix(entries, key, i - 1);
        let rest = entries.subrange(i - 1, entries.len() as int);
        assert(rest[0] == entries[i - 1]);
        assert(rest.drop_first() =~= entries.subrange(i, entries.len() as int));
    }
}

impl JsonValue {
    /// Looks up `key` when `self` is an object; `None` on any other shape
    /// or when the key is absent.
    pub fn get<'a>(&'a self, key: &str) -> (r: Option<&'a JsonValue>)
        ensures
            match r {
                Some(v) => spec_get(*self, key@) == Some(*v),
                None => spec_get(*self, key@) is None,
            },
    {
        match self {
            JsonValue::Object(entries) => {
                let n = entries.len();
                let mut i: usize = 0;
                while i < n
                    invariant
                        i <= n,
                        n == entries@.len(),
                        *self is Object,
                        self->Object_0 == *entries,
                        forall|j: int| 0 <= j < i ==> entries@[j].0@ != key@,
                    decreases n - i,
                {
                    let ks: &String = &entries[i].0;
                    if ks.as_str().eq(key) {
                        proof {
                            lemma_entries_get_prefix(entries@, key@, i as int);
                            let rest = entries@.subrange(i as int, entries@.len() as int);
                            assert(rest.len() > 0);
                            assert(rest[0] == entries@[i as int]);
                            assert(spec_entries_get(rest, key@) == Some(rest[0].1));
                            assert(*self is Object);
                            assert(self->Object_0 == *entries);
                            assert(spec_get(*self, key@) == spec_entries_get(entries@, key@));
                        }
                        return Some(&entries[i].1);
                    }
                    i = i + 1;
                }
                proof {
                    lemma_entries_get_prefix(entries@, key@, n as int);
                    assert(entries@.subrange(n as int, n as int) =~= Seq::<(
                        String,
                        JsonValue,
                    )>::empty());
                }
                None
            },
            _ => None,
        }
    }
}

/// Relies on str's PartialEq: equality of two string slices is equality of
/// their character sequences.
pub assume_specification[ str::eq ](a: &str, b: &str) -> (r: bool)
    ensures
        r == (a@ == b@),
;

} // verus!
