//! Values of the YAML and JSON documents the library reads (skill frontmatter,
//! history records), with the lookups the readers make on them: a field of a
//! mapping, the truthiness of a flag, the strings of a list.

use vstd::prelude::*;

use crate::text::str_eq;

verus! {

/// A value of a YAML or JSON document.
pub enum DocValue {
    Null,
    Bool(bool),
    Str(String),
    /// A number: its value where it is a non-negative integer that fits in `u64`
    /// (`as_u64`), and whether it is non-zero.
    Number { unsigned: Option<u64>, nonzero: bool },
    List(Vec<DocValue>),
    /// A mapping, in document order (its keys are distinct).
    Mapping(Vec<(String, DocValue)>),
}

/// The value of the first entry named `key`.
pub open spec fn field_of(entries: Seq<(String, DocValue)>, key: Seq<char>) -> Option<DocValue>
    decreases entries.len(),
{
    if entries.len() == 0 {
        None
    } else if entries[0].0@ == key {
        Some(entries[0].1)
    } else {
        field_of(entries.drop_first(), key)
    }
}

/// The field `key` of a mapping; `None` for a missing field or a value that is not
/// a mapping.
pub open spec fn get_spec(v: DocValue, key: Seq<char>) -> Option<DocValue> {
    match v {
        DocValue::Mapping(m) => field_of(m@, key),
        _ => None,
    }
}

/// The field `key` of an optional value.
pub open spec fn get_opt(v: Option<DocValue>, key: Seq<char>) -> Option<DocValue> {
    match v {
        Some(x) => get_spec(x, key),
        None => None,
    }
}

/// Whether the value is a mapping.
pub open spec fn is_map(v: DocValue) -> bool {
    v is Mapping
}

/// Truthiness of a flag: `true`, a non-empty string or a non-zero number.
pub open spec fn truthy(v: DocValue) -> bool {
    match v {
        DocValue::Bool(b) => b,
        DocValue::Str(s) => s@.len() > 0,
        DocValue::Number { nonzero, .. } => nonzero,
        _ => false,
    }
}

/// Truthiness of an optional flag (a missing one is false).
pub open spec fn flag(v: Option<DocValue>) -> bool {
    match v {
        Some(x) => truthy(x),
        None => false,
    }
}

/// The strings among `items`, in order.
pub open spec fn strings_in(items: Seq<DocValue>) -> Seq<Seq<char>>
    decreases items.len(),
{
    if items.len() == 0 {
        Seq::empty()
    } else {
        let prev = strings_in(items.drop_last());
        match items.last() {
            DocValue::Str(s) => prev.push(s@),
            _ => prev,
        }
    }
}

/// The strings of a list value; empty for a missing value or one that is not a list.
pub open spec fn string_list_spec(v: Option<DocValue>) -> Seq<Seq<char>> {
    match v {
        Some(DocValue::List(items)) => strings_in(items@),
        _ => Seq::empty(),
    }
}

/// An optional reference as an optional value.
pub open spec fn opt_doc(r: Option<&DocValue>) -> Option<DocValue> {
    match r {
        Some(x) => Some(*x),
        None => None,
    }
}

/// The field `key` of `v` (see [`get_spec`]).
pub fn get<'a>(v: &'a DocValue, key: &str) -> (r: Option<&'a DocValue>)
    ensures
        opt_doc(r) == get_spec(*v, key@),
{
    match *v {
        DocValue::Mapping(ref m) => {
            let mut i: usize = 0;
            assert(m@.subrange(0, m@.len() as int) =~= m@);
            while i < m.len()
                invariant
                    i <= m@.len(),
                    get_spec(*v, key@) == field_of(m@, key@),
                    field_of(m@, key@) == field_of(m@.subrange(i as int, m@.len() as int), key@),
                decreases m@.len() - i,
            {
                let ghost rest = m@.subrange(i as int, m@.len() as int);
                assert(rest[0] == m@[i as int]);
                if str_eq(m[i].0.as_str(), key) {
                    assert(field_of(rest, key@) == Some(m@[i as int].1));
                    let r = Some(&m[i].1);
                    return r;
                }
                assert(rest.drop_first() =~= m@.subrange(i + 1, m@.len() as int));
                i = i + 1;
            }
            None
        },
        _ => None,
    }
}

/// The field `key` of an optional value.
pub fn get_in<'a>(v: Option<&'a DocValue>, key: &str) -> (r: Option<&'a DocValue>)
    ensures
        opt_doc(r) == get_opt(opt_doc(v), key@),
{
    match v {
        Some(x) => get(x, key),
        None => None,
    }
}

/// Whether an optional flag is truthy (see [`truthy`]).
pub fn is_truthy(v: Option<&DocValue>) -> (r: bool)
    ensures
        r == flag(opt_doc(v)),
{
    match v {
        Some(DocValue::Bool(b)) => *b,
        Some(DocValue::Str(s)) => crate::text::chars_of(s.as_str()).len() > 0,
        Some(DocValue::Number { nonzero, .. }) => *nonzero,
        _ => false,
    }
}

/// The strings of a list value (see [`string_list_spec`]).
pub fn string_list(v: Option<&DocValue>) -> (r: Vec<String>)
    ensures
        crate::text::texts(r@) == string_list_spec(opt_doc(v)),
{
    let mut out: Vec<String> = Vec::new();
    match v {
        Some(DocValue::List(items)) => {
            let mut i: usize = 0;
            while i < items.len()
                invariant
                    i <= items@.len(),
                    crate::text::texts(out@) == strings_in(items@.take(i as int)),
                decreases items@.len() - i,
            {
                assert(items@.take(i + 1).drop_last() =~= items@.take(i as int));
                match &items[i] {
                    DocValue::Str(s) => {
                        out.push(s.as_str().to_owned());
                        assert(crate::text::texts(out@) =~= crate::text::texts(out@.drop_last()).push(s@));
                    },
                    _ => {},
                }
                i = i + 1;
            }
            assert(items@.take(items@.len() as int) =~= items@);
        },
        _ => {
            assert(crate::text::texts(out@) =~= Seq::<Seq<char>>::empty());
        },
    }
    out
}

} // verus!
