//! A TOML document held as plain values, and the lookups the library makes
//! in it (the same as `toml::Value`'s `get`, `as_str` and `as_array`).
use vstd::prelude::*;

verus! {

/// One TOML value. A float is kept only as the fact that it is one.
#[derive(Debug)]
pub enum TomlValue {
    String(String),
    Integer(i64),
    Float,
    Boolean(bool),
    Datetime(String),
    Array(Vec<TomlValue>),
    Table(Vec<(String, TomlValue)>),
}

/// The value of the first entry whose key is `key`.
pub open spec fn table_lookup(entries: Seq<(String, TomlValue)>, key: Seq<char>) -> Option<
    TomlValue,
>
    decreases entries.len(),
{
    if entries.len() == 0 {
        None
    } else if entries[0].0@ == key {
        Some(entries[0].1)
    } else {
        table_lookup(entries.drop_first(), key)
    }
}

/// The entry at `i` is the first whose key is `key`.
pub open spec fn first_with_key(entries: Seq<(String, TomlValue)>, key: Seq<char>, i: int) -> bool {
    &&& 0 <= i < entries.len()
    &&& entries[i].0@ == key
    &&& forall|j: int| 0 <= j < i ==> (#[trigger] entries[j]).0@ != key
}

/// A lookup finds nothing exactly when no entry has the key, and otherwise
/// gives the value of the first entry that has it (a later entry with the
/// same key is not seen).
pub proof fn lemma_table_lookup_first(entries: Seq<(String, TomlValue)>, key: Seq<char>)
    ensures
        table_lookup(entries, key) is None <==> forall|j: int|
            0 <= j < entries.len() ==> (#[trigger] entries[j]).0@ != key,
        forall|i: int|
            #[trigger] first_with_key(entries, key, i) ==> table_lookup(entries, key) == Some(
                entries[i].1,
            ),
    decreases entries.len(),
{
    if entries.len() > 0 {
        let rest = entries.drop_first();
        lemma_table_lookup_first(rest, key);
        assert forall|j: int| 0 <= j < rest.len() implies rest[j] == entries[j + 1] by {}
        if entries[0].0@ != key {
            assert((forall|j: int| 0 <= j < entries.len() ==> (#[trigger] entries[j]).0@ != key)
                <==> (forall|j: int| 0 <= j < rest.len() ==> (#[trigger] rest[j]).0@ != key)) by {
                if forall|j: int| 0 <= j < rest.len() ==> (#[trigger] rest[j]).0@ != key {
                    assert forall|j: int| 0 <= j < entries.len() implies (
                    #[trigger] entries[j]).0@ != key by {
                        if j > 0 {
                            assert(rest[j - 1] == entries[j]);
                        }
                    }
                }
            }
            assert forall|i: int| #[trigger] first_with_key(entries, key, i) implies table_lookup(
                entries,
                key,
            ) == Some(entries[i].1) by {
                assert(i > 0);
                assert(rest[i - 1] == entries[i]);
                assert forall|j: int| 0 <= j < i - 1 implies (#[trigger] rest[j]).0@ != key by {
                    assert(rest[j] == entries[j + 1]);
                }
                assert(first_with_key(rest, key, i - 1));
            }
        } else {
            assert forall|i: int| #[trigger] first_with_key(entries, key, i) implies i == 0 by {
                if i > 0 {
                    assert(entries[0].0@ != key);
                }
            }
        }
    }
}

impl TomlValue {
    /// The value under `key` when `self` is a table that has one.
    pub open spec fn lookup(self, key: Seq<char>) -> Option<TomlValue> {
        match self {
            TomlValue::Table(entries) => table_lookup(entries@, key),
            _ => None,
        }
    }

    /// The value under `key` when `self` is a table that has one.
    pub fn get(&self, key: &str) -> (r: Option<&TomlValue>)
        ensures
            match r {
                Some(v) => self.lookup(key@) == Some(*v),
                None => self.lookup(key@) is None,
            },
    {
        match self {
            TomlValue::Table(entries) => {
                let k = crate::text::owned(key);
                let mut i: usize = 0;
                assert(entries@.skip(0) =~= entries@);
                while i < entries.len()
                    invariant
                        i <= entries.len(),
                        k@ == key@,
                        self.lookup(key@) == table_lookup(
                            entries@.skip(i as int),
                            key@,
                        ),
                    decreases entries.len() - i,
                {
                    assert(entries@.skip(i as int)[0] == entries@[i as int]);
                    if entries[i].0 == k {
                        return Some(&entries[i].1);
                    }
                    assert(entries@.skip(i as int).drop_first() =~= entries@.skip(i + 1));
                    i = i + 1;
                }
                None
            },
            _ => None,
        }
    }

    /// The text when `self` is a string.
    pub fn as_str(&self) -> (r: Option<&String>)
        ensures
            match r {
                Some(s) => *self == TomlValue::String(*s),
                None => !(self is String),
            },
    {
        match self {
            TomlValue::String(s) => Some(s),
            _ => None,
        }
    }

    /// The items when `self` is an array.
    pub fn as_array(&self) -> (r: Option<&Vec<TomlValue>>)
        ensures
            match r {
                Some(items) => *self == TomlValue::Array(*items),
                None => !(self is Array),
            },
    {
        match self {
            TomlValue::Array(items) => Some(items),
            _ => None,
        }
    }
}

#[verifier::external_type_specification]
#[verifier::external_body]
pub struct ExTomlValue(toml::Value);

#[verifier::external_type_specification]
#[verifier::external_body]
pub struct ExTomlDeError(toml::de::Error);

/// The document `toml::from_str::<toml::Value>` reads from `text`, when it
/// accepts it.
pub uninterp spec fn parsed_toml(text: Seq<char>) -> Option<TomlValue>;

/// Moves a `toml::Value` into a `TomlValue`, variant for variant; a float's
/// number is dropped and a datetime is kept as its TOML text.
#[verifier::external_body]
fn toml_value_into_doc(v: toml::Value) -> TomlValue {
    match v {
        toml::Value::String(s) => TomlValue::String(s),
        toml::Value::Integer(i) => TomlValue::Integer(i),
        toml::Value::Float(_) => TomlValue::Float,
        toml::Value::Boolean(b) => TomlValue::Boolean(b),
        toml::Value::Datetime(d) => TomlValue::Datetime(d.to_string()),
        toml::Value::Array(a) => TomlValue::Array(a.into_iter().map(toml_value_into_doc).collect()),
        toml::Value::Table(t) => TomlValue::Table(
            t.into_iter().map(|(k, v)| (k, toml_value_into_doc(v))).collect(),
        ),
    }
}

/// Calls `toml::from_str::<toml::Value>` and moves the result into a
/// `TomlValue`. Trusted: the outcome depends on the text alone (the crate's
/// tables are ordered by key, its parser limits nesting) and is named
/// `parsed_toml`.
#[verifier::external_body]
pub(crate) fn parse_toml(text: &str) -> (r: Result<TomlValue, toml::de::Error>)
    ensures
        r is Ok <==> parsed_toml(text@) is Some,
        r matches Ok(d) ==> parsed_toml(text@) == Some(d),
{
    toml::from_str::<toml::Value>(text).map(toml_value_into_doc)
}

} // verus!
