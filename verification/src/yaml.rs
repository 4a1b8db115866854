//! A YAML document as plain values, and the lookups the manifest reader
//! makes in it.
//!
//! The lookups follow `serde_yaml::Value`'s own: [`get`] and [`string_of`] see
//! through tags, and a mapping key matches a name only when it is an untagged
//! string with exactly those characters.
use vstd::prelude::*;

use serde_yaml::Value as YamlTree;

use crate::text::{bool_string, bool_text, join, join_strings, owned, same_text, spec_trim, trimmed};

verus! {

/// A YAML node.
///
/// A number is kept as the text `serde_yaml` displays it with; a tagged node
/// keeps its value and drops the tag, which nothing here reads.
#[derive(Debug)]
pub enum YamlValue {
    Null,
    Bool(bool),
    Number(String),
    String(String),
    Sequence(Vec<YamlValue>),
    Mapping(Vec<(YamlValue, YamlValue)>),
    Tagged(Box<YamlValue>),
}

// ---------------------------------------------------------------------------
// Parsing
// ---------------------------------------------------------------------------

/// The tree `serde_yaml` parses a text into, opaque here: it is only carried
/// from the parse into [`lowered`].
#[verifier::external_type_specification]
#[verifier::external_body]
pub struct ExYamlTree(YamlTree);

/// What `serde_yaml::from_str::<serde_yaml::Value>` makes of a text: the tree
/// it parses, node for node, or the message of the error it returns.
pub uninterp spec fn yaml_parse(source: Seq<char>) -> Result<YamlValue, Seq<char>>;

/// Calls `serde_yaml::from_str::<serde_yaml::Value>` on the text, and converts
/// the tree into a [`YamlValue`] or the error into its message. Claims only
/// that the outcome is the named parse of the text.
#[verifier::external_body]
pub(crate) fn parse_document(source: &str) -> (r: Result<YamlValue, String>)
    ensures
        match r {
            Ok(doc) => yaml_parse(source@) == Ok::<YamlValue, Seq<char>>(doc),
            Err(message) => yaml_parse(source@) == Err::<YamlValue, Seq<char>>(message@),
        },
{
    match serde_yaml::from_str::<YamlTree>(source) {
        Ok(value) => Ok(lowered(value)),
        Err(error) => Err(error.to_string()),
    }
}

/// Converts a `serde_yaml::Value` into a [`YamlValue`] node for node, with a
/// number's `Display` text; used only by [`parse_document`], whose contract
/// covers the conversion. The tree is opaque to verified code, so its nodes
/// can only be taken apart here.
#[verifier::external_body]
fn lowered(value: YamlTree) -> YamlValue {
    match value {
        YamlTree::Null => YamlValue::Null,
        YamlTree::Bool(b) => YamlValue::Bool(b),
        YamlTree::Number(n) => YamlValue::Number(n.to_string()),
        YamlTree::String(s) => YamlValue::String(s),
        YamlTree::Sequence(items) => YamlValue::Sequence(items.into_iter().map(lowered).collect()),
        YamlTree::Mapping(m) => YamlValue::Mapping(m.into_iter().map(|(k, v)| (lowered(k), lowered(v))).collect()),
        YamlTree::Tagged(t) => YamlValue::Tagged(Box::new(lowered(t.value))),
    }
}

// ---------------------------------------------------------------------------
// Lookups
// ---------------------------------------------------------------------------

/// The node under any number of tags.
pub open spec fn untag(v: YamlValue) -> YamlValue
    decreases v,
{
    match v {
        YamlValue::Tagged(inner) => untag(*inner),
        _ => v,
    }
}

/// The text of a string node, seen through tags.
pub open spec fn string_of(v: YamlValue) -> Option<Seq<char>> {
    match untag(v) {
        YamlValue::String(s) => Some(s@),
        _ => None,
    }
}

/// The items of a sequence node, seen through tags.
pub open spec fn items_of(v: YamlValue) -> Option<Seq<YamlValue>> {
    match untag(v) {
        YamlValue::Sequence(items) => Some(items@),
        _ => None,
    }
}

/// A mapping key names `key`: it is an untagged string with those characters.
pub open spec fn names_key(k: YamlValue, key: Seq<char>) -> bool {
    k matches YamlValue::String(s) && s@ == key
}

/// The value of the first entry, at or after `i`, whose key names `key`.
pub open spec fn lookup_from(entries: Seq<(YamlValue, YamlValue)>, key: Seq<char>, i: int) -> Option<YamlValue>
    decreases entries.len() - i,
{
    if i < 0 || i >= entries.len() {
        None
    } else if names_key(entries[i].0, key) {
        Some(entries[i].1)
    } else {
        lookup_from(entries, key, i + 1)
    }
}

/// The value under `key` in a mapping node, seen through tags.
pub open spec fn get(v: YamlValue, key: Seq<char>) -> Option<YamlValue> {
    match untag(v) {
        YamlValue::Mapping(entries) => lookup_from(entries@, key, 0),
        _ => None,
    }
}

/// [`get`] on a node that may be missing.
pub open spec fn get_in(v: Option<YamlValue>, key: Seq<char>) -> Option<YamlValue> {
    match v {
        Some(x) => get(x, key),
        None => None,
    }
}

/// [`string_of`] on a node that may be missing.
pub open spec fn string_in(v: Option<YamlValue>) -> Option<Seq<char>> {
    match v {
        Some(x) => string_of(x),
        None => None,
    }
}

/// [`items_of`] on a node that may be missing.
pub open spec fn items_in(v: Option<YamlValue>) -> Option<Seq<YamlValue>> {
    match v {
        Some(x) => items_of(x),
        None => None,
    }
}

/// The trimmed text, unless nothing is left of it.
pub open spec fn non_empty_spec(s: Seq<char>) -> Option<Seq<char>> {
    if spec_trim(s).len() == 0 {
        None
    } else {
        Some(spec_trim(s))
    }
}

/// [`non_empty_spec`] on a text that may be missing.
pub open spec fn non_empty_in(s: Option<Seq<char>>) -> Option<Seq<char>> {
    match s {
        Some(t) => non_empty_spec(t),
        None => None,
    }
}

/// The node under any number of tags.
pub fn untagged(v: &YamlValue) -> (r: &YamlValue)
    ensures
        *r == untag(*v),
    decreases v,
{
    match v {
        YamlValue::Tagged(inner) => {
            proof {
                assert(decreases_to!(*v => *v->Tagged_0));
            }
            untagged(inner)
        },
        _ => v,
    }
}

/// The text of a string node, seen through tags.
pub fn text_of(v: &YamlValue) -> (r: Option<&str>)
    ensures
        match string_of(*v) {
            Some(s) => r matches Some(t) && t@ == s,
            None => r is None,
        },
{
    match untagged(v) {
        YamlValue::String(s) => Some(s.as_str()),
        _ => None,
    }
}

/// The items of a sequence node, seen through tags.
pub fn sequence_of(v: &YamlValue) -> (r: Option<&Vec<YamlValue>>)
    ensures
        match items_of(*v) {
            Some(s) => r matches Some(t) && t@ == s,
            None => r is None,
        },
{
    match untagged(v) {
        YamlValue::Sequence(items) => Some(items),
        _ => None,
    }
}

/// The value under `key` in a mapping node, seen through tags.
pub fn get_key<'a>(v: &'a YamlValue, key: &str) -> (r: Option<&'a YamlValue>)
    ensures
        match get(*v, key@) {
            Some(x) => r matches Some(y) && *y == x,
            None => r is None,
        },
{
    match untagged(v) {
        YamlValue::Mapping(entries) => {
            let mut i: usize = 0;
            while i < entries.len()
                invariant
                    i <= entries.len(),
                    get(*v, key@) == lookup_from(entries@, key@, i as int),
                decreases entries.len() - i,
            {
                if let YamlValue::String(s) = &entries[i].0 {
                    if same_text(s.as_str(), key) {
                        return Some(&entries[i].1);
                    }
                }
                i = i + 1;
            }
            None
        },
        _ => None,
    }
}

/// [`get_key`] on a node that may be missing.
pub fn get_key_in<'a>(v: Option<&'a YamlValue>, key: &str) -> (r: Option<&'a YamlValue>)
    ensures
        match get_in(
            match v {
                Some(x) => Some(*x),
                None => None,
            },
            key@,
        ) {
            Some(x) => r matches Some(y) && *y == x,
            None => r is None,
        },
{
    match v {
        Some(x) => get_key(x, key),
        None => None,
    }
}

/// The trimmed text, unless nothing is left of it.
pub fn non_empty(s: &str) -> (r: Option<String>)
    ensures
        match non_empty_spec(s@) {
            Some(t) => r matches Some(u) && u@ == t,
            None => r is None,
        },
{
    let t = trimmed(s);
    if t.unicode_len() == 0 {
        None
    } else {
        Some(owned(t))
    }
}

// ---------------------------------------------------------------------------
// One-line summaries
// ---------------------------------------------------------------------------

/// A node rendered on a single line, for display in evidence.
pub open spec fn summary(v: YamlValue) -> Seq<char>
    decreases v,
{
    match v {
        YamlValue::Null => "null"@,
        YamlValue::Bool(b) => bool_text(b),
        YamlValue::Number(n) => n@,
        YamlValue::String(s) => s@,
        YamlValue::Sequence(items) => join(item_summaries(items@), ", "@),
        YamlValue::Mapping(entries) => join(entry_summaries(entries@), ", "@),
        YamlValue::Tagged(inner) => summary(*inner),
    }
}

/// The summaries of the items of a sequence.
pub open spec fn item_summaries(items: Seq<YamlValue>) -> Seq<Seq<char>>
    decreases items,
{
    if items.len() == 0 {
        Seq::empty()
    } else {
        item_summaries(items.subrange(0, items.len() - 1)).push(summary(items[items.len() - 1]))
    }
}

/// The summaries of the entries of a mapping, each `key: value`.
pub open spec fn entry_summaries(entries: Seq<(YamlValue, YamlValue)>) -> Seq<Seq<char>>
    decreases entries,
{
    if entries.len() == 0 {
        Seq::empty()
    } else {
        let e = entries[entries.len() - 1];
        entry_summaries(entries.subrange(0, entries.len() - 1)).push(
            summary(e.0) + ": "@ + summary(e.1),
        )
    }
}

/// Render a node on a single line, for display in evidence.
pub fn summarise(v: &YamlValue) -> (r: String)
    ensures r@ == summary(*v),
    decreases v,
{
    match v {
        YamlValue::Null => owned("null"),
        YamlValue::Bool(b) => bool_string(*b),
        YamlValue::Number(n) => n.clone(),
        YamlValue::String(s) => s.clone(),
        YamlValue::Sequence(items) => {
            let mut parts: Vec<String> = Vec::new();
            let mut i: usize = 0;
            while i < items.len()
                invariant
                    i <= items.len(),
                    *v == YamlValue::Sequence(*items),
                    parts@.map_values(|s: String| s@) =~= item_summaries(items@.take(i as int)),
                decreases items.len() - i,
            {
                proof { assert(items@.take(i + 1).subrange(0, i as int) =~= items@.take(i as int)); }
                proof {
                    assert(decreases_to!(*v => v->Sequence_0));
                    assert(decreases_to!(*v => v->Sequence_0[i as int]));
                }
                let part = summarise(&items[i]);
                let ghost before = parts@;
                parts.push(part);
                proof { assert(parts@.map_values(|s: String| s@) =~= before.map_values(|s: String| s@).push(part@)); }
                i = i + 1;
            }
            proof { assert(items@.take(items.len() as int) =~= items@); }
            join_strings(&parts, ", ")
        },
        YamlValue::Mapping(entries) => {
            let mut parts: Vec<String> = Vec::new();
            let mut i: usize = 0;
            while i < entries.len()
                invariant
                    i <= entries.len(),
                    *v == YamlValue::Mapping(*entries),
                    parts@.map_values(|s: String| s@) =~= entry_summaries(entries@.take(i as int)),
                decreases entries.len() - i,
            {
                proof { assert(entries@.take(i + 1).subrange(0, i as int) =~= entries@.take(i as int)); }
                proof {
                    assert(decreases_to!(*v => v->Mapping_0));
                    assert(decreases_to!(*v => v->Mapping_0[i as int]));
                    assert(decreases_to!(*v => v->Mapping_0[i as int].0));
                    assert(decreases_to!(*v => v->Mapping_0[i as int].1));
                }
                let k = summarise(&entries[i].0);
                let val = summarise(&entries[i].1);
                let part = crate::text::concat3(k.as_str(), ": ", val.as_str());
                let ghost before = parts@;
                parts.push(part);
                proof { assert(parts@.map_values(|s: String| s@) =~= before.map_values(|s: String| s@).push(part@)); }
                i = i + 1;
            }
            proof { assert(entries@.take(entries.len() as int) =~= entries@); }
            join_strings(&parts, ", ")
        },
        YamlValue::Tagged(inner) => summarise(inner),
    }
}

} // verus!
