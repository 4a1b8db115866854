//! Reading [`ManifestFacts`] out of a parsed `manifest.yml`.
//!
//! Each field of the facts has a specification over the YAML tree below, and
//! [`ManifestFacts::from_document`] is proved to meet all of them together.
use vstd::prelude::*;

use crate::answers::opt_text;
use crate::facts::{
    entry_wf, host_product_of, is_non_user_facing, located_texts, scope_verb_of, EgressEntry,
    Error, HostProduct, HostProductView, Located, ManifestFacts, Remote, Scope,
    PLACEHOLDER_OPENER,
};
use crate::listing::texts;
use crate::text::{around_number, concat3, contains_seq, contains_text, decimal, owned};
use crate::yaml::{
    get, get_in, get_key, get_key_in, items_in, non_empty, non_empty_in, non_empty_spec,
    parse_document, sequence_of, string_in, string_of, summarise, summary, text_of, untag, untagged,
    yaml_parse, YamlValue,
};

verus! {

broadcast use vstd::string::group_string_axioms;

// ---------------------------------------------------------------------------
// Lists of names
// ---------------------------------------------------------------------------

/// The keys of a mapping that are strings (seen through tags), in order.
pub open spec fn string_keys(entries: Seq<(YamlValue, YamlValue)>) -> Seq<Seq<char>>
    decreases entries.len(),
{
    if entries.len() == 0 {
        Seq::empty()
    } else {
        let rest = string_keys(entries.drop_last());
        match string_of(entries.last().0) {
            Some(k) => rest.push(k),
            None => rest,
        }
    }
}

/// The items of a sequence that are strings (seen through tags), in order.
pub open spec fn string_items(items: Seq<YamlValue>) -> Seq<Seq<char>>
    decreases items.len(),
{
    if items.len() == 0 {
        Seq::empty()
    } else {
        let rest = string_items(items.drop_last());
        match string_of(items.last()) {
            Some(s) => rest.push(s),
            None => rest,
        }
    }
}

/// The string `key` of each item of a sequence that has one, in order.
pub open spec fn item_keys(items: Seq<YamlValue>) -> Seq<Seq<char>>
    decreases items.len(),
{
    if items.len() == 0 {
        Seq::empty()
    } else {
        let rest = item_keys(items.drop_last());
        match string_in(get(items.last(), "key"@)) {
            Some(k) => rest.push(k),
            None => rest,
        }
    }
}

/// [`string_items`] of a node, when it is a sequence.
pub open spec fn strings_in(v: Option<YamlValue>) -> Seq<Seq<char>> {
    match items_in(v) {
        Some(items) => string_items(items),
        None => Seq::empty(),
    }
}

/// [`item_keys`] of a node, when it is a sequence.
pub open spec fn keys_in(v: Option<YamlValue>) -> Seq<Seq<char>> {
    match items_in(v) {
        Some(items) => item_keys(items),
        None => Seq::empty(),
    }
}

/// The string keys of a mapping, in order.
fn keys_of_entries(entries: &Vec<(YamlValue, YamlValue)>) -> (r: Vec<String>)
    ensures
        texts(r@) == string_keys(entries@),
{
    let mut out: Vec<String> = Vec::new();
    let mut i: usize = 0;
    while i < entries.len()
        invariant
            i <= entries.len(),
            texts(out@) == string_keys(entries@.take(i as int)),
        decreases entries.len() - i,
    {
        proof {
            assert(entries@.take(i + 1).drop_last() =~= entries@.take(i as int));
        }
        if let Some(k) = text_of(&entries[i].0) {
            out.push(owned(k));
        }
        proof {
            assert(texts(out@) =~= string_keys(entries@.take(i + 1)));
        }
        i = i + 1;
    }
    proof {
        assert(entries@.take(entries.len() as int) =~= entries@);
    }
    out
}

/// The string items of a sequence, in order.
fn strings_of_items(items: &Vec<YamlValue>) -> (r: Vec<String>)
    ensures
        texts(r@) == string_items(items@),
{
    let mut out: Vec<String> = Vec::new();
    let mut i: usize = 0;
    while i < items.len()
        invariant
            i <= items.len(),
            texts(out@) == string_items(items@.take(i as int)),
        decreases items.len() - i,
    {
        proof {
            assert(items@.take(i + 1).drop_last() =~= items@.take(i as int));
        }
        if let Some(s) = text_of(&items[i]) {
            out.push(owned(s));
        }
        proof {
            assert(texts(out@) =~= string_items(items@.take(i + 1)));
        }
        i = i + 1;
    }
    proof {
        assert(items@.take(items.len() as int) =~= items@);
    }
    out
}

/// The string `key` of each item of a sequence that has one, in order.
fn keys_of_items(items: &Vec<YamlValue>) -> (r: Vec<String>)
    ensures
        texts(r@) == item_keys(items@),
{
    let mut out: Vec<String> = Vec::new();
    let mut i: usize = 0;
    while i < items.len()
        invariant
            i <= items.len(),
            texts(out@) == item_keys(items@.take(i as int)),
        decreases items.len() - i,
    {
        proof {
            assert(items@.take(i + 1).drop_last() =~= items@.take(i as int));
        }
        match get_key(&items[i], "key") {
            Some(k) => {
                if let Some(s) = text_of(k) {
                    out.push(owned(s));
                }
            },
            None => {},
        }
        proof {
            assert(texts(out@) =~= item_keys(items@.take(i + 1)));
        }
        i = i + 1;
    }
    proof {
        assert(items@.take(items.len() as int) =~= items@);
    }
    out
}

/// The string items of a node that may be missing, when it is a sequence.
fn strings_of_node(v: Option<&YamlValue>) -> (r: Vec<String>)
    ensures
        texts(r@) == strings_in(
            match v {
                Some(x) => Some(*x),
                None => None,
            },
        ),
{
    match v {
        Some(x) => match sequence_of(x) {
            Some(items) => strings_of_items(items),
            None => Vec::new(),
        },
        None => Vec::new(),
    }
}

/// The item keys of a node that may be missing, when it is a sequence.
fn keys_of_node(v: Option<&YamlValue>) -> (r: Vec<String>)
    ensures
        texts(r@) == keys_in(
            match v {
                Some(x) => Some(*x),
                None => None,
            },
        ),
{
    match v {
        Some(x) => match sequence_of(x) {
            Some(items) => keys_of_items(items),
            None => Vec::new(),
        },
        None => Vec::new(),
    }
}

// ---------------------------------------------------------------------------
// App identity and modules
// ---------------------------------------------------------------------------

/// `app.id`, when it is a string.
pub open spec fn app_id_of(doc: YamlValue) -> Option<Seq<char>> {
    string_in(get_in(get(doc, "app"@), "id"@))
}

/// `app.name`, trimmed, when it is a string with something in it.
pub open spec fn app_name_of(doc: YamlValue) -> Option<Seq<char>> {
    non_empty_in(string_in(get_in(get(doc, "app"@), "name"@)))
}

/// `app.runtime.name`, trimmed, when it is a string with something in it.
pub open spec fn runtime_of(doc: YamlValue) -> Option<Seq<char>> {
    non_empty_in(string_in(get_in(get_in(get(doc, "app"@), "runtime"@), "name"@)))
}

/// The string keys under `modules:`, in manifest order; none unless
/// `modules` is a mapping.
pub open spec fn module_types_of(doc: YamlValue) -> Seq<Seq<char>> {
    match get(doc, "modules"@) {
        Some(YamlValue::Mapping(entries)) => string_keys(entries@),
        _ => Seq::empty(),
    }
}

/// The module types that can surface a user interface.
pub open spec fn user_facing_of(types: Seq<Seq<char>>) -> Seq<Seq<char>>
    decreases types.len(),
{
    if types.len() == 0 {
        Seq::empty()
    } else {
        let rest = user_facing_of(types.drop_last());
        if is_non_user_facing(types.last()) {
            rest
        } else {
            rest.push(types.last())
        }
    }
}

/// The declared scopes: the string items of `permissions.scopes` when it is a
/// sequence, or its string keys when it is a mapping.
pub open spec fn scope_texts_of(doc: YamlValue) -> Seq<Seq<char>> {
    match get_in(get(doc, "permissions"@), "scopes"@) {
        Some(v) => match untag(v) {
            YamlValue::Sequence(items) => string_items(items@),
            YamlValue::Mapping(entries) => string_keys(entries@),
            _ => Seq::empty(),
        },
        None => Seq::empty(),
    }
}

/// `providers.auth[].key`.
pub open spec fn provider_keys_of(doc: YamlValue) -> Seq<Seq<char>> {
    keys_in(get_in(get(doc, "providers"@), "auth"@))
}

/// `resources[].key`.
pub open spec fn resource_keys_of(doc: YamlValue) -> Seq<Seq<char>> {
    keys_in(get(doc, "resources"@))
}

/// The pointer of the `i`-th item under `path`.
pub open spec fn index_path(path: Seq<char>, i: nat) -> Seq<char> {
    path + "["@ + decimal(i) + "]"@
}

/// The key a webtrigger is cited by: its string `key`, or `(unnamed)`.
pub open spec fn webtrigger_key(item: YamlValue) -> Seq<char> {
    match string_in(get(item, "key"@)) {
        Some(k) => k,
        None => "(unnamed)"@,
    }
}

/// Every item of `modules.webtrigger`, when it is a sequence, with the key it
/// is cited by.
pub open spec fn webtriggers_of(doc: YamlValue) -> Seq<(Seq<char>, Seq<char>)> {
    match get_in(get(doc, "modules"@), "webtrigger"@) {
        Some(YamlValue::Sequence(items)) => Seq::new(
            items@.len(),
            |i: int| (index_path("modules.webtrigger"@, i as nat) + ".key"@, webtrigger_key(items@[i])),
        ),
        _ => Seq::empty(),
    }
}

/// `app.id`, when it is a string.
fn app_id_text(doc: &YamlValue) -> (r: Option<&str>)
    ensures
        match app_id_of(*doc) {
            Some(s) => r matches Some(t) && t@ == s,
            None => r is None,
        },
{
    match get_key_in(get_key(doc, "app"), "id") {
        Some(v) => text_of(v),
        None => None,
    }
}

/// A text that may be missing, trimmed, unless nothing is left of it.
fn non_empty_text(s: Option<&str>) -> (r: Option<String>)
    ensures
        opt_text(r) == non_empty_in(
            match s {
                Some(t) => Some(t@),
                None => None,
            },
        ),
{
    match s {
        Some(t) => non_empty(t),
        None => None,
    }
}

/// `app.name`, trimmed, when it is a string with something in it.
fn app_name(doc: &YamlValue) -> (r: Option<String>)
    ensures
        opt_text(r) == app_name_of(*doc),
{
    let name = match get_key_in(get_key(doc, "app"), "name") {
        Some(v) => text_of(v),
        None => None,
    };
    non_empty_text(name)
}

/// `app.runtime.name`, trimmed, when it is a string with something in it.
fn runtime_name(doc: &YamlValue) -> (r: Option<String>)
    ensures
        opt_text(r) == runtime_of(*doc),
{
    let name = match get_key_in(get_key_in(get_key(doc, "app"), "runtime"), "name") {
        Some(v) => text_of(v),
        None => None,
    };
    non_empty_text(name)
}

/// The string keys under `modules:`, in manifest order.
fn declared_module_types(doc: &YamlValue) -> (r: Vec<String>)
    ensures
        texts(r@) == module_types_of(*doc),
{
    match get_key(doc, "modules") {
        Some(YamlValue::Mapping(entries)) => keys_of_entries(entries),
        _ => Vec::new(),
    }
}

/// The module types that can surface a user interface, in order.
fn user_facing_module_types(types: &Vec<String>) -> (r: Vec<String>)
    ensures
        texts(r@) == user_facing_of(texts(types@)),
{
    let ghost all = texts(types@);
    let mut out: Vec<String> = Vec::new();
    let mut i: usize = 0;
    while i < types.len()
        invariant
            i <= types.len(),
            all == texts(types@),
            texts(out@) == user_facing_of(all.take(i as int)),
        decreases types.len() - i,
    {
        proof {
            assert(all.take(i + 1).drop_last() =~= all.take(i as int));
        }
        if !crate::facts::non_user_facing(types[i].as_str()) {
            out.push(types[i].clone());
        }
        proof {
            assert(texts(out@) =~= user_facing_of(all.take(i + 1)));
        }
        i = i + 1;
    }
    proof {
        assert(all.take(types.len() as int) =~= all);
    }
    out
}

/// The declared scopes, each with its verb.
fn scopes(doc: &YamlValue) -> (r: Vec<Scope>)
    ensures
        r@.map_values(|s: Scope| s.raw@) == scope_texts_of(*doc),
        forall|i: int| 0 <= i < r@.len() ==> r@[i].verb == scope_verb_of(#[trigger] r@[i].raw@),
{
    let raw: Vec<String> = match get_key_in(get_key(doc, "permissions"), "scopes") {
        Some(v) => match untagged(v) {
            YamlValue::Sequence(items) => strings_of_items(items),
            YamlValue::Mapping(entries) => keys_of_entries(entries),
            _ => Vec::new(),
        },
        None => Vec::new(),
    };
    let mut out: Vec<Scope> = Vec::new();
    let mut i: usize = 0;
    while i < raw.len()
        invariant
            i <= raw.len(),
            texts(raw@) == scope_texts_of(*doc),
            out@.map_values(|s: Scope| s.raw@) =~= texts(raw@).take(i as int),
            forall|k: int| 0 <= k < out@.len() ==> out@[k].verb == scope_verb_of(#[trigger] out@[k].raw@),
        decreases raw.len() - i,
    {
        let ghost before = out@;
        let scope = Scope::from_raw(raw[i].clone());
        out.push(scope);
        proof {
            assert(out@.map_values(|s: Scope| s.raw@) =~= before.map_values(|s: Scope| s.raw@).push(
                raw@[i as int]@,
            ));
            assert(texts(raw@).take(i + 1) =~= texts(raw@).take(i as int).push(raw@[i as int]@));
        }
        i = i + 1;
    }
    proof {
        assert(texts(raw@).take(raw.len() as int) =~= texts(raw@));
    }
    out
}

/// Every `modules.webtrigger` item, with the key it is cited by.
fn webtriggers(doc: &YamlValue) -> (r: Vec<Located<String>>)
    ensures
        located_texts(r@) == webtriggers_of(*doc),
{
    let mut out: Vec<Located<String>> = Vec::new();
    match get_key_in(get_key(doc, "modules"), "webtrigger") {
        Some(YamlValue::Sequence(items)) => {
            let ghost want = webtriggers_of(*doc);
            let mut i: usize = 0;
            while i < items.len()
                invariant
                    i <= items.len(),
                    want.len() == items@.len(),
                    located_texts(out@) =~= want.take(i as int),
                    forall|k: int|
                        0 <= k < items@.len() ==> #[trigger] want[k] == (
                            index_path("modules.webtrigger"@, k as nat) + ".key"@,
                            webtrigger_key(items@[k]),
                        ),
                decreases items.len() - i,
            {
                let key = match get_key(&items[i], "key") {
                    Some(k) => text_of(k),
                    None => None,
                };
                let key_text = match key {
                    Some(k) => owned(k),
                    None => owned("(unnamed)"),
                };
                let pointer = around_number("modules.webtrigger[", i, "].key");
                proof {
                    reveal_strlit("modules.webtrigger[");
                    reveal_strlit("modules.webtrigger");
                    reveal_strlit("[");
                    reveal_strlit("].key");
                    reveal_strlit("]");
                    reveal_strlit(".key");
                    assert(pointer@ =~= index_path("modules.webtrigger"@, i as nat) + ".key"@);
                }
                let ghost before = out@;
                let entry = Located::new(pointer, key_text);
                out.push(entry);
                proof {
                    assert(located_texts(out@) =~= located_texts(before).push(
                        crate::facts::located_text(entry),
                    ));
                    assert(want.take(i + 1) =~= want.take(i as int).push(want[i as int]));
                }
                i = i + 1;
            }
            proof {
                assert(want.take(items.len() as int) =~= want);
            }
        },
        _ => {},
    }
    out
}

// ---------------------------------------------------------------------------
// String leaves: egress destinations and content-security relaxations
// ---------------------------------------------------------------------------

/// Every string leaf under a node, trimmed and with its pointer, skipping empty
/// strings and the subtrees under the keys in `skip`. Only the mapping keys
/// are seen through tags; a tagged node is not descended into.
pub open spec fn string_leaves(path: Seq<char>, v: YamlValue, skip: Seq<Seq<char>>) -> Seq<
    (Seq<char>, Seq<char>),
>
    decreases v,
{
    match v {
        YamlValue::String(s) => match non_empty_spec(s@) {
            Some(t) => seq![(path, t)],
            None => Seq::empty(),
        },
        YamlValue::Sequence(items) => item_leaves(path, items@, skip),
        YamlValue::Mapping(entries) => entry_leaves(path, entries@, skip),
        _ => Seq::empty(),
    }
}

/// The string leaves under the items of a sequence at `path`.
pub open spec fn item_leaves(path: Seq<char>, items: Seq<YamlValue>, skip: Seq<Seq<char>>) -> Seq<
    (Seq<char>, Seq<char>),
>
    decreases items,
{
    if items.len() == 0 {
        Seq::empty()
    } else {
        item_leaves(path, items.subrange(0, items.len() - 1), skip) + string_leaves(
            index_path(path, (items.len() - 1) as nat),
            items[items.len() - 1],
            skip,
        )
    }
}

/// The string leaves under the entries of a mapping at `path`.
pub open spec fn entry_leaves(
    path: Seq<char>,
    entries: Seq<(YamlValue, YamlValue)>,
    skip: Seq<Seq<char>>,
) -> Seq<(Seq<char>, Seq<char>)>
    decreases entries,
{
    if entries.len() == 0 {
        Seq::empty()
    } else {
        let rest = entry_leaves(path, entries.subrange(0, entries.len() - 1), skip);
        let e = entries[entries.len() - 1];
        match string_of(e.0) {
            Some(k) => if skip.contains(k) {
                rest
            } else {
                rest + string_leaves(path + "."@ + k, e.1, skip)
            },
            None => rest,
        }
    }
}

/// The texts of a list of names.
pub open spec fn name_texts(names: Seq<&str>) -> Seq<Seq<char>> {
    names.map_values(|n: &str| n@)
}

/// Whether `key` is one of `names`.
fn is_one_of(names: &[&str], key: &str) -> (r: bool)
    ensures
        r == name_texts(names@).contains(key@),
{
    let mut i: usize = 0;
    while i < names.len()
        invariant
            i <= names.len(),
            forall|k: int| 0 <= k < i ==> name_texts(names@)[k] != key@,
        decreases names.len() - i,
    {
        if crate::text::same_text(names[i], key) {
            proof {
                assert(name_texts(names@)[i as int] == key@);
            }
            return true;
        }
        i = i + 1;
    }
    false
}

/// Append every string leaf under `v` to `out`; see [`string_leaves`].
fn collect_string_leaves(path: &str, v: &YamlValue, skip: &[&str], out: &mut Vec<Located<String>>)
    ensures
        located_texts(final(out)@) == located_texts(old(out)@) + string_leaves(
            path@,
            *v,
            name_texts(skip@),
        ),
    decreases v,
{
    let ghost skipped = name_texts(skip@);
    match v {
        YamlValue::String(s) => {
            let ghost before = out@;
            match non_empty(s.as_str()) {
                Some(t) => {
                    let leaf = Located::new(owned(path), t);
                    out.push(leaf);
                    proof {
                        assert(located_texts(out@) =~= located_texts(before) + seq![
                            crate::facts::located_text(leaf),
                        ]);
                    }
                },
                None => {
                    proof {
                        assert(located_texts(out@) =~= located_texts(before) + Seq::empty());
                    }
                },
            }
        },
        YamlValue::Sequence(items) => {
            let mut i: usize = 0;
            while i < items.len()
                invariant
                    i <= items.len(),
                    *v == YamlValue::Sequence(*items),
                    skipped == name_texts(skip@),
                    located_texts(out@) == located_texts(old(out)@) + item_leaves(
                        path@,
                        items@.take(i as int),
                        skipped,
                    ),
                decreases items.len() - i,
            {
                proof {
                    assert(decreases_to!(*v => v->Sequence_0));
                    assert(decreases_to!(*v => v->Sequence_0[i as int]));
                    assert(items@.take(i + 1).subrange(0, i as int) =~= items@.take(i as int));
                }
                let opened = concat3(path, "[", "");
                let child = around_number(opened.as_str(), i, "]");
                proof {
                    assert(child@ =~= index_path(path@, i as nat)) by {
                        reveal_strlit("[");
                        reveal_strlit("]");
                        reveal_strlit("");
                    }
                }
                let ghost before = out@;
                collect_string_leaves(child.as_str(), &items[i], skip, out);
                proof {
                    assert(located_texts(out@) =~= located_texts(old(out)@) + item_leaves(
                        path@,
                        items@.take(i + 1),
                        skipped,
                    ));
                }
                i = i + 1;
            }
            proof {
                assert(items@.take(items.len() as int) =~= items@);
            }
        },
        YamlValue::Mapping(entries) => {
            let mut i: usize = 0;
            while i < entries.len()
                invariant
                    i <= entries.len(),
                    *v == YamlValue::Mapping(*entries),
                    skipped == name_texts(skip@),
                    located_texts(out@) == located_texts(old(out)@) + entry_leaves(
                        path@,
                        entries@.take(i as int),
                        skipped,
                    ),
                decreases entries.len() - i,
            {
                proof {
                    assert(decreases_to!(*v => v->Mapping_0));
                    assert(decreases_to!(*v => v->Mapping_0[i as int]));
                    assert(decreases_to!(*v => v->Mapping_0[i as int].1));
                    assert(entries@.take(i + 1).subrange(0, i as int) =~= entries@.take(i as int));
                }
                let ghost before = out@;
                match text_of(&entries[i].0) {
                    Some(k) => {
                        if !is_one_of(skip, k) {
                            let child = concat3(path, ".", k);
                            collect_string_leaves(child.as_str(), &entries[i].1, skip, out);
                        }
                    },
                    None => {},
                }
                proof {
                    assert(located_texts(out@) =~= located_texts(old(out)@) + entry_leaves(
                        path@,
                        entries@.take(i + 1),
                        skipped,
                    ));
                }
                i = i + 1;
            }
            proof {
                assert(entries@.take(entries.len() as int) =~= entries@);
            }
        },
        _ => {
            proof {
                assert(located_texts(out@) =~= located_texts(old(out)@) + Seq::empty());
            }
        },
    }
}

/// Each item that does not occur earlier in the sequence, in order.
pub open spec fn first_occurrences(s: Seq<(Seq<char>, Seq<char>)>) -> Seq<(Seq<char>, Seq<char>)>
    decreases s.len(),
{
    if s.len() == 0 {
        Seq::empty()
    } else {
        let rest = first_occurrences(s.drop_last());
        if s.drop_last().contains(s.last()) {
            rest
        } else {
            rest.push(s.last())
        }
    }
}

/// The leaves whose value starts with `unsafe-`.
pub open spec fn unsafe_relaxations(s: Seq<(Seq<char>, Seq<char>)>) -> Seq<(Seq<char>, Seq<char>)>
    decreases s.len(),
{
    if s.len() == 0 {
        Seq::empty()
    } else {
        let rest = unsafe_relaxations(s.drop_last());
        if crate::text::has_prefix(s.last().1, UNSAFE_PREFIX@) {
            rest.push(s.last())
        } else {
            rest
        }
    }
}

/// The keys under `permissions.external` whose string leaves are not
/// destinations.
pub open spec fn non_destination_keys() -> Seq<Seq<char>> {
    seq!["inspector"@]
}

/// The string leaves under `permissions.external`, outside the
/// non-destination keys.
pub open spec fn egress_leaves_of(doc: YamlValue) -> Seq<(Seq<char>, Seq<char>)> {
    match get_in(get(doc, "permissions"@), "external"@) {
        Some(external) => string_leaves("permissions.external"@, external, non_destination_keys()),
        None => Seq::empty(),
    }
}

/// The external destinations: each distinct leaf once, in manifest order.
pub open spec fn egress_of(doc: YamlValue) -> Seq<(Seq<char>, Seq<char>)> {
    first_occurrences(egress_leaves_of(doc))
}

/// The `unsafe-` relaxations among the string leaves of `permissions.content`.
pub open spec fn relaxations_of(doc: YamlValue) -> Seq<(Seq<char>, Seq<char>)> {
    match get_in(get(doc, "permissions"@), "content"@) {
        Some(content) => unsafe_relaxations(string_leaves("permissions.content"@, content, Seq::empty())),
        None => Seq::empty(),
    }
}

/// The prefix of a content-security value that relaxes the policy.
pub const UNSAFE_PREFIX: &'static str = "unsafe-";

/// The pointer and destination of an egress entry.
pub open spec fn egress_text(e: EgressEntry) -> (Seq<char>, Seq<char>) {
    (e.pointer@, e.value@)
}

/// Whether an earlier leaf has the same pointer and value as leaf `i`.
fn seen_before(leaves: &Vec<Located<String>>, i: usize) -> (r: bool)
    requires
        i < leaves.len(),
    ensures
        r == located_texts(leaves@).take(i as int).contains(located_texts(leaves@)[i as int]),
{
    let ghost all = located_texts(leaves@);
    let mut j: usize = 0;
    while j < i
        invariant
            j <= i < leaves.len(),
            all == located_texts(leaves@),
            forall|k: int| 0 <= k < j ==> all[k] != all[i as int],
        decreases i - j,
    {
        if crate::text::same_text(leaves[j].pointer.as_str(), leaves[i].pointer.as_str())
            && crate::text::same_text(leaves[j].value.as_str(), leaves[i].value.as_str()) {
            proof {
                assert(all.take(i as int)[j as int] == all[i as int]);
            }
            return true;
        }
        j = j + 1;
    }
    proof {
        assert forall|k: int| 0 <= k < i implies all.take(i as int)[k] != all[i as int] by {}
    }
    false
}

/// The external destinations: each distinct leaf under
/// `permissions.external` once, in manifest order, classified.
fn external_egress(doc: &YamlValue) -> (r: Vec<EgressEntry>)
    ensures
        r@.map_values(|e: EgressEntry| egress_text(e)) == egress_of(*doc),
        forall|i: int| 0 <= i < r@.len() ==> entry_wf(#[trigger] r@[i]),
{
    let mut leaves: Vec<Located<String>> = Vec::new();
    match get_key_in(get_key(doc, "permissions"), "external") {
        Some(external) => {
            let skip = ["inspector"];
            collect_string_leaves("permissions.external", external, &skip, &mut leaves);
            proof {
                assert(name_texts(skip@) =~= non_destination_keys());
                assert(located_texts(leaves@) =~= egress_leaves_of(*doc));
            }
        },
        None => {
            proof {
                assert(located_texts(leaves@) =~= egress_leaves_of(*doc));
            }
        },
    }
    let ghost all = located_texts(leaves@);
    let mut out: Vec<EgressEntry> = Vec::new();
    let mut i: usize = 0;
    while i < leaves.len()
        invariant
            i <= leaves.len(),
            all == located_texts(leaves@),
            all == egress_leaves_of(*doc),
            out@.map_values(|e: EgressEntry| egress_text(e)) == first_occurrences(all.take(i as int)),
            forall|k: int| 0 <= k < out@.len() ==> entry_wf(#[trigger] out@[k]),
        decreases leaves.len() - i,
    {
        proof {
            assert(all.take(i + 1).drop_last() =~= all.take(i as int));
        }
        let ghost before = out@;
        if !seen_before(&leaves, i) {
            let entry = EgressEntry::new(leaves[i].pointer.clone(), leaves[i].value.clone());
            out.push(entry);
            proof {
                assert(out@.map_values(|e: EgressEntry| egress_text(e)) =~= before.map_values(
                    |e: EgressEntry| egress_text(e),
                ).push(egress_text(entry)));
            }
        }
        proof {
            assert(out@.map_values(|e: EgressEntry| egress_text(e)) =~= first_occurrences(
                all.take(i + 1),
            ));
        }
        i = i + 1;
    }
    proof {
        assert(all.take(leaves.len() as int) =~= all);
    }
    out
}

/// The `unsafe-` relaxations in `permissions.content`, in manifest order.
fn content_security_relaxations(doc: &YamlValue) -> (r: Vec<Located<String>>)
    ensures
        located_texts(r@) == relaxations_of(*doc),
{
    let mut leaves: Vec<Located<String>> = Vec::new();
    let none: [&str; 0] = [];
    let found = match get_key_in(get_key(doc, "permissions"), "content") {
        Some(content) => {
            collect_string_leaves("permissions.content", content, &none, &mut leaves);
            proof {
                assert(name_texts(none@) =~= Seq::<Seq<char>>::empty());
            }
            true
        },
        None => false,
    };
    let ghost all = located_texts(leaves@);
    let mut out: Vec<Located<String>> = Vec::new();
    let mut i: usize = 0;
    while i < leaves.len()
        invariant
            i <= leaves.len(),
            all == located_texts(leaves@),
            located_texts(out@) == unsafe_relaxations(all.take(i as int)),
        decreases leaves.len() - i,
    {
        proof {
            assert(all.take(i + 1).drop_last() =~= all.take(i as int));
        }
        let ghost before = out@;
        if crate::text::starts_with(leaves[i].value.as_str(), UNSAFE_PREFIX) {
            let kept = crate::facts::copy_located(&leaves[i]);
            out.push(kept);
            proof {
                assert(located_texts(out@) =~= located_texts(before).push(
                    crate::facts::located_text(kept),
                ));
            }
        }
        proof {
            assert(located_texts(out@) =~= unsafe_relaxations(all.take(i + 1)));
        }
        i = i + 1;
    }
    proof {
        assert(all.take(leaves.len() as int) =~= all);
        if !found {
            assert(all =~= Seq::<(Seq<char>, Seq<char>)>::empty());
        }
    }
    out
}

// ---------------------------------------------------------------------------
// Display conditions
// ---------------------------------------------------------------------------

/// Every entry keyed `wanted` at any depth under a node, with its pointer and
/// its value summarised on one line. Such an entry is not descended into; only
/// the mapping keys are seen through tags.
pub open spec fn keyed_blocks(path: Seq<char>, v: YamlValue, wanted: Seq<char>) -> Seq<
    (Seq<char>, Seq<char>),
>
    decreases v,
{
    match v {
        YamlValue::Mapping(entries) => entry_blocks(path, entries@, wanted),
        YamlValue::Sequence(items) => item_blocks(path, items@, wanted),
        _ => Seq::empty(),
    }
}

/// The entries keyed `wanted` under the items of a sequence at `path`.
pub open spec fn item_blocks(path: Seq<char>, items: Seq<YamlValue>, wanted: Seq<char>) -> Seq<
    (Seq<char>, Seq<char>),
>
    decreases items,
{
    if items.len() == 0 {
        Seq::empty()
    } else {
        item_blocks(path, items.subrange(0, items.len() - 1), wanted) + keyed_blocks(
            index_path(path, (items.len() - 1) as nat),
            items[items.len() - 1],
            wanted,
        )
    }
}

/// The entries keyed `wanted` in and under the entries of a mapping at `path`.
pub open spec fn entry_blocks(
    path: Seq<char>,
    entries: Seq<(YamlValue, YamlValue)>,
    wanted: Seq<char>,
) -> Seq<(Seq<char>, Seq<char>)>
    decreases entries,
{
    if entries.len() == 0 {
        Seq::empty()
    } else {
        let rest = entry_blocks(path, entries.subrange(0, entries.len() - 1), wanted);
        let e = entries[entries.len() - 1];
        match string_of(e.0) {
            Some(k) => if k == wanted {
                rest.push((path + "."@ + k, summary(e.1)))
            } else {
                rest + keyed_blocks(path + "."@ + k, e.1, wanted)
            },
            None => rest,
        }
    }
}

/// Every `displayConditions` block under `modules`.
pub open spec fn display_conditions_of(doc: YamlValue) -> Seq<(Seq<char>, Seq<char>)> {
    match get(doc, "modules"@) {
        Some(modules) => keyed_blocks("modules"@, modules, "displayConditions"@),
        None => Seq::empty(),
    }
}

/// Append every entry keyed `wanted` under `v` to `out`; see [`keyed_blocks`].
fn collect_key(path: &str, v: &YamlValue, wanted: &str, out: &mut Vec<Located<String>>)
    ensures
        located_texts(final(out)@) == located_texts(old(out)@) + keyed_blocks(path@, *v, wanted@),
    decreases v,
{
    match v {
        YamlValue::Mapping(entries) => {
            let mut i: usize = 0;
            while i < entries.len()
                invariant
                    i <= entries.len(),
                    *v == YamlValue::Mapping(*entries),
                    located_texts(out@) == located_texts(old(out)@) + entry_blocks(
                        path@,
                        entries@.take(i as int),
                        wanted@,
                    ),
                decreases entries.len() - i,
            {
                proof {
                    assert(decreases_to!(*v => v->Mapping_0));
                    assert(decreases_to!(*v => v->Mapping_0[i as int]));
                    assert(decreases_to!(*v => v->Mapping_0[i as int].1));
                    assert(entries@.take(i + 1).subrange(0, i as int) =~= entries@.take(i as int));
                }
                let ghost before = out@;
                match text_of(&entries[i].0) {
                    Some(k) => {
                        let child = concat3(path, ".", k);
                        if crate::text::same_text(k, wanted) {
                            let block = Located::new(child, summarise(&entries[i].1));
                            out.push(block);
                            proof {
                                assert(located_texts(out@) =~= located_texts(before).push(
                                    crate::facts::located_text(block),
                                ));
                            }
                        } else {
                            collect_key(child.as_str(), &entries[i].1, wanted, out);
                        }
                    },
                    None => {},
                }
                proof {
                    assert(located_texts(out@) =~= located_texts(old(out)@) + entry_blocks(
                        path@,
                        entries@.take(i + 1),
                        wanted@,
                    ));
                }
                i = i + 1;
            }
            proof {
                assert(entries@.take(entries.len() as int) =~= entries@);
            }
        },
        YamlValue::Sequence(items) => {
            let mut i: usize = 0;
            while i < items.len()
                invariant
                    i <= items.len(),
                    *v == YamlValue::Sequence(*items),
                    located_texts(out@) == located_texts(old(out)@) + item_blocks(
                        path@,
                        items@.take(i as int),
                        wanted@,
                    ),
                decreases items.len() - i,
            {
                proof {
                    assert(decreases_to!(*v => v->Sequence_0));
                    assert(decreases_to!(*v => v->Sequence_0[i as int]));
                    assert(items@.take(i + 1).subrange(0, i as int) =~= items@.take(i as int));
                }
                let opened = concat3(path, "[", "");
                let child = around_number(opened.as_str(), i, "]");
                proof {
                    assert(child@ =~= index_path(path@, i as nat)) by {
                        reveal_strlit("[");
                        reveal_strlit("]");
                        reveal_strlit("");
                    }
                }
                collect_key(child.as_str(), &items[i], wanted, out);
                proof {
                    assert(located_texts(out@) =~= located_texts(old(out)@) + item_blocks(
                        path@,
                        items@.take(i + 1),
                        wanted@,
                    ));
                }
                i = i + 1;
            }
            proof {
                assert(items@.take(items.len() as int) =~= items@);
            }
        },
        _ => {
            proof {
                assert(located_texts(out@) =~= located_texts(old(out)@) + Seq::empty());
            }
        },
    }
}

/// Every `displayConditions` block under `modules`, in manifest order.
fn display_conditions(doc: &YamlValue) -> (r: Vec<Located<String>>)
    ensures
        located_texts(r@) == display_conditions_of(*doc),
{
    let mut found: Vec<Located<String>> = Vec::new();
    match get_key(doc, "modules") {
        Some(modules) => {
            collect_key("modules", modules, "displayConditions", &mut found);
            proof {
                assert(located_texts(found@) =~= display_conditions_of(*doc));
            }
        },
        None => {
            proof {
                assert(located_texts(found@) =~= display_conditions_of(*doc));
            }
        },
    }
    found
}

// ---------------------------------------------------------------------------
// Remotes
// ---------------------------------------------------------------------------

/// The items that have a string `key`, in order.
pub open spec fn keyed_items(items: Seq<YamlValue>) -> Seq<YamlValue>
    decreases items.len(),
{
    if items.len() == 0 {
        Seq::empty()
    } else {
        let rest = keyed_items(items.drop_last());
        if string_in(get(items.last(), "key"@)) is Some {
            rest.push(items.last())
        } else {
            rest
        }
    }
}

/// The declared remotes: the items of `remotes` that have a string `key`.
pub open spec fn remote_items_of(doc: YamlValue) -> Seq<YamlValue> {
    match items_in(get(doc, "remotes"@)) {
        Some(items) => keyed_items(items),
        None => Seq::empty(),
    }
}

/// `baseUrl`, trimmed, when it is a string with something in it.
pub open spec fn base_url_of(item: YamlValue) -> Option<Seq<char>> {
    non_empty_in(string_in(get(item, "baseUrl"@)))
}

/// An `auth` block is present and not null.
pub open spec fn declares_auth_spec(item: YamlValue) -> bool {
    match get(item, "auth"@) {
        Some(a) => !(untag(a) is Null),
        None => false,
    }
}

/// `auth.<token>.enabled` is `true`.
pub open spec fn token_enabled(item: YamlValue, token: Seq<char>) -> bool {
    match get_in(get_in(get(item, "auth"@), token), "enabled"@) {
        Some(b) => untag(b) == YamlValue::Bool(true),
        None => false,
    }
}

/// What a remote records of the manifest item it was read from.
pub open spec fn describes_remote(r: Remote, item: YamlValue) -> bool {
    &&& string_in(get(item, "key"@)) == Some(r.key@)
    &&& opt_text(r.base_url) == base_url_of(item)
    &&& r.base_url_is_interpolated == (base_url_of(item) matches Some(u) && contains_seq(
        u,
        PLACEHOLDER_OPENER@,
    ))
    &&& texts(r.operations@) == strings_in(get(item, "operations"@))
    &&& r.declares_auth == declares_auth_spec(item)
    &&& r.passes_user_token == token_enabled(item, "appUserToken"@)
    &&& r.passes_system_token == token_enabled(item, "appSystemToken"@)
}

/// Whether `auth.<token>.enabled` is `true`.
fn token_is_enabled(item: &YamlValue, token: &str) -> (r: bool)
    ensures
        r == token_enabled(*item, token@),
{
    match get_key_in(get_key_in(get_key(item, "auth"), token), "enabled") {
        Some(b) => match untagged(b) {
            YamlValue::Bool(true) => true,
            _ => false,
        },
        None => false,
    }
}

/// The remote a manifest item with string key `key` declares.
fn remote_from(item: &YamlValue, key: &str) -> (r: Remote)
    requires
        string_in(get(*item, "key"@)) == Some(key@),
    ensures
        describes_remote(r, *item),
{
    let base_url = match get_key(item, "baseUrl") {
        Some(v) => match text_of(v) {
            Some(t) => non_empty(t),
            None => None,
        },
        None => None,
    };
    let base_url_is_interpolated = match &base_url {
        Some(url) => contains_text(url.as_str(), PLACEHOLDER_OPENER),
        None => false,
    };
    let declares_auth = match get_key(item, "auth") {
        Some(a) => match untagged(a) {
            YamlValue::Null => false,
            _ => true,
        },
        None => false,
    };
    Remote {
        key: owned(key),
        base_url,
        base_url_is_interpolated,
        operations: strings_of_node(get_key(item, "operations")),
        declares_auth,
        passes_user_token: token_is_enabled(item, "appUserToken"),
        passes_system_token: token_is_enabled(item, "appSystemToken"),
    }
}

/// The declared remotes, in manifest order.
fn remotes(doc: &YamlValue) -> (r: Vec<Remote>)
    ensures
        r@.len() == remote_items_of(*doc).len(),
        forall|i: int| 0 <= i < r@.len() ==> describes_remote(#[trigger] r@[i], remote_items_of(*doc)[i]),
{
    let mut out: Vec<Remote> = Vec::new();
    match get_key(doc, "remotes") {
        Some(node) => match sequence_of(node) {
            Some(items) => {
                let mut i: usize = 0;
                while i < items.len()
                    invariant
                        i <= items.len(),
                        remote_items_of(*doc) == keyed_items(items@),
                        out@.len() == keyed_items(items@.take(i as int)).len(),
                        forall|k: int| 0 <= k < out@.len() ==> describes_remote(
                            #[trigger] out@[k],
                            keyed_items(items@.take(i as int))[k],
                        ),
                    decreases items.len() - i,
                {
                    proof {
                        assert(items@.take(i + 1).drop_last() =~= items@.take(i as int));
                    }
                    match get_key(&items[i], "key") {
                        Some(k) => match text_of(k) {
                            Some(key) => {
                                let remote = remote_from(&items[i], key);
                                out.push(remote);
                            },
                            None => {},
                        },
                        None => {},
                    }
                    i = i + 1;
                }
                proof {
                    assert(items@.take(items.len() as int) =~= items@);
                }
            },
            None => {},
        },
        None => {},
    }
    out
}

// ---------------------------------------------------------------------------
// Host products, sorted as `HostProduct`'s derived `Ord` orders them
// ---------------------------------------------------------------------------

/// `a` precedes `b` lexicographically, character by character by code point:
/// the order of `String`'s `Ord`, since UTF-8 keeps code-point order.
pub open spec fn text_lt(a: Seq<char>, b: Seq<char>) -> bool
    decreases a.len(),
{
    if b.len() == 0 {
        false
    } else if a.len() == 0 {
        true
    } else if (a[0] as int) < (b[0] as int) {
        true
    } else if a[0] == b[0] {
        text_lt(a.drop_first(), b.drop_first())
    } else {
        false
    }
}

/// The position of a host product's variant in the declaration of
/// [`HostProduct`].
pub open spec fn product_rank(p: HostProductView) -> int {
    match p {
        HostProductView::Jira => 0,
        HostProductView::JiraServiceManagement => 1,
        HostProductView::Confluence => 2,
        HostProductView::Compass => 3,
        HostProductView::Bitbucket => 4,
        HostProductView::Rovo => 5,
        HostProductView::Other(_) => 6,
    }
}

/// `a` precedes `b` in the order `derive(Ord)` gives [`HostProduct`]: by
/// variant, then an `Other`'s name by [`text_lt`].
pub open spec fn product_lt(a: HostProductView, b: HostProductView) -> bool {
    ||| product_rank(a) < product_rank(b)
    ||| (a matches HostProductView::Other(x) && b matches HostProductView::Other(y) && text_lt(x, y))
}

/// The views of a list of host products.
pub open spec fn product_views(v: Seq<HostProduct>) -> Seq<HostProductView> {
    v.map_values(|p: HostProduct| p@)
}

/// Each host product precedes the next.
pub open spec fn strictly_ascending(s: Seq<HostProductView>) -> bool {
    forall|i: int, j: int| 0 <= i < j < s.len() ==> product_lt(s[i], s[j])
}

/// Some module type in the list implies the host product `p`.
pub open spec fn implies_product(types: Seq<Seq<char>>, p: HostProductView) -> bool {
    exists|k: int| 0 <= k < types.len() && host_product_of(types[k]) == Some(p)
}

/// No text precedes itself.
pub proof fn lemma_text_lt_irreflexive(a: Seq<char>)
    ensures
        !text_lt(a, a),
    decreases a.len(),
{
    if a.len() > 0 {
        lemma_text_lt_irreflexive(a.drop_first());
    }
}

/// The order on texts is transitive.
pub proof fn lemma_text_lt_transitive(a: Seq<char>, b: Seq<char>, c: Seq<char>)
    requires
        text_lt(a, b),
        text_lt(b, c),
    ensures
        text_lt(a, c),
    decreases a.len(),
{
    if a.len() > 0 && a[0] == b[0] && b[0] == c[0] {
        lemma_text_lt_transitive(a.drop_first(), b.drop_first(), c.drop_first());
    }
}

/// Of two different texts, one precedes the other.
pub proof fn lemma_text_lt_total(a: Seq<char>, b: Seq<char>)
    requires
        a != b,
    ensures
        text_lt(a, b) || text_lt(b, a),
    decreases a.len(),
{
    if a.len() == 0 && b.len() == 0 {
        assert(a =~= b);
    } else if a.len() > 0 && b.len() > 0 && a[0] == b[0] {
        if a.drop_first() == b.drop_first() {
            assert(a =~= seq![a[0]] + a.drop_first());
            assert(b =~= seq![b[0]] + b.drop_first());
        } else {
            lemma_text_lt_total(a.drop_first(), b.drop_first());
        }
    }
}

/// The order on host products is a strict total order.
pub proof fn lemma_product_order(a: HostProductView, b: HostProductView, c: HostProductView)
    ensures
        !product_lt(a, a),
        product_lt(a, b) && product_lt(b, c) ==> product_lt(a, c),
        a != b ==> product_lt(a, b) || product_lt(b, a),
{
    if let HostProductView::Other(x) = a {
        lemma_text_lt_irreflexive(x);
        if let HostProductView::Other(y) = b {
            if x != y {
                lemma_text_lt_total(x, y);
            }
            if let HostProductView::Other(z) = c {
                if text_lt(x, y) && text_lt(y, z) {
                    lemma_text_lt_transitive(x, y, z);
                }
            }
        }
    }
}

/// Whether `a` precedes `b` character by character by code point.
pub fn text_precedes(a: &str, b: &str) -> (r: bool)
    ensures
        r == text_lt(a@, b@),
{
    let n = a.unicode_len();
    let m = b.unicode_len();
    let mut i: usize = 0;
    proof {
        assert(a@.skip(0) =~= a@);
        assert(b@.skip(0) =~= b@);
    }
    while i < n && i < m
        invariant
            i <= n,
            i <= m,
            n == a@.len(),
            m == b@.len(),
            text_lt(a@, b@) == text_lt(a@.skip(i as int), b@.skip(i as int)),
        decreases n - i,
    {
        let ca = a.get_char(i);
        let cb = b.get_char(i);
        if (ca as u32) < (cb as u32) {
            return true;
        }
        if ca != cb {
            return false;
        }
        proof {
            assert(a@.skip(i as int).drop_first() =~= a@.skip(i + 1));
            assert(b@.skip(i as int).drop_first() =~= b@.skip(i + 1));
        }
        i = i + 1;
    }
    i < m
}

/// The position of a host product's variant in its declaration.
fn product_rank_of(p: &HostProduct) -> (r: u8)
    ensures
        r as int == product_rank(p@),
{
    match p {
        HostProduct::Jira => 0,
        HostProduct::JiraServiceManagement => 1,
        HostProduct::Confluence => 2,
        HostProduct::Compass => 3,
        HostProduct::Bitbucket => 4,
        HostProduct::Rovo => 5,
        HostProduct::Other(_) => 6,
    }
}

/// Whether `a` precedes `b` in the order `derive(Ord)` gives host products.
pub fn product_precedes(a: &HostProduct, b: &HostProduct) -> (r: bool)
    ensures
        r == product_lt(a@, b@),
{
    let ra = product_rank_of(a);
    let rb = product_rank_of(b);
    if ra != rb {
        return ra < rb;
    }
    match (a, b) {
        (HostProduct::Other(x), HostProduct::Other(y)) => text_precedes(x.as_str(), y.as_str()),
        _ => false,
    }
}

/// Whether two host products are the same.
fn same_product(a: &HostProduct, b: &HostProduct) -> (r: bool)
    ensures
        r == (a@ == b@),
{
    match (a, b) {
        (HostProduct::Other(x), HostProduct::Other(y)) => crate::text::same_text(x.as_str(), y.as_str()),
        _ => product_rank_of(a) == product_rank_of(b),
    }
}

/// Insert `p` into a strictly ascending list, unless it is there already.
fn insert_product(out: &mut Vec<HostProduct>, p: HostProduct)
    requires
        strictly_ascending(product_views(old(out)@)),
    ensures
        strictly_ascending(product_views(final(out)@)),
        forall|q: HostProductView|
            product_views(final(out)@).contains(q) <==> (product_views(old(out)@).contains(q) || q
                == p@),
{
    let ghost olds = product_views(out@);
    let mut j: usize = 0;
    while j < out.len() && product_precedes(&out[j], &p)
        invariant
            j <= out.len(),
            olds == product_views(out@),
            strictly_ascending(olds),
            forall|k: int| 0 <= k < j ==> product_lt(#[trigger] olds[k], p@),
        decreases out.len() - j,
    {
        j = j + 1;
    }
    if j < out.len() && same_product(&out[j], &p) {
        proof {
            assert forall|q: HostProductView| product_views(out@).contains(q) <==> (olds.contains(q)
                || q == p@) by {
                if q == p@ {
                    assert(olds[j as int] == q);
                }
            }
        }
        return;
    }
    let ghost pv = p@;
    proof {
        assert forall|k: int| j <= k < olds.len() implies product_lt(pv, #[trigger] olds[k]) by {
            lemma_product_order(pv, olds[j as int], olds[k]);
            lemma_product_order(olds[j as int], pv, olds[k]);
            if k > j {
                lemma_product_order(pv, olds[j as int], olds[k]);
            }
        }
    }
    out.insert(j, p);
    proof {
        let news = product_views(out@);
        assert(news =~= olds.insert(j as int, pv));
        assert forall|a: int, b: int| 0 <= a < b < news.len() implies product_lt(news[a], news[b]) by {
            if b < j {
            } else if a < j && b == j {
            } else if a < j {
                lemma_product_order(olds[a], pv, olds[b - 1]);
            } else if a == j {
            } else {
            }
        }
        assert forall|q: HostProductView| news.contains(q) <==> (olds.contains(q) || q == pv) by {
            if news.contains(q) {
                let k = choose|k: int| 0 <= k < news.len() && news[k] == q;
                if k < j {
                    assert(olds[k] == q);
                } else if k > j {
                    assert(olds[k - 1] == q);
                }
            }
            if olds.contains(q) {
                let k = choose|k: int| 0 <= k < olds.len() && olds[k] == q;
                if k < j {
                    assert(news[k] == q);
                } else {
                    assert(news[k + 1] == q);
                }
            }
            if q == pv {
                assert(news[j as int] == q);
            }
        }
    }
}

/// The host products the module types imply, each once, in the order
/// `derive(Ord)` gives them.
fn host_products(types: &Vec<String>) -> (r: Vec<HostProduct>)
    ensures
        strictly_ascending(product_views(r@)),
        forall|p: HostProductView| product_views(r@).contains(p) <==> implies_product(texts(types@), p),
{
    let ghost all = texts(types@);
    let mut out: Vec<HostProduct> = Vec::new();
    let mut i: usize = 0;
    while i < types.len()
        invariant
            i <= types.len(),
            all == texts(types@),
            strictly_ascending(product_views(out@)),
            forall|p: HostProductView| product_views(out@).contains(p) <==> implies_product(all.take(i as int), p),
        decreases types.len() - i,
    {
        let implied = HostProduct::from_module_type(types[i].as_str());
        let ghost before = product_views(out@);
        match implied {
            Some(p) => insert_product(&mut out, p),
            None => {},
        }
        proof {
            assert forall|p: HostProductView| product_views(out@).contains(p) <==> implies_product(all.take(i + 1), p) by {
                if implies_product(all.take(i + 1), p) {
                    let k = choose|k: int| 0 <= k < all.take(i + 1).len() && #[trigger] host_product_of(all.take(i + 1)[k]) == Some(p);
                    if k < i {
                        assert(all.take(i as int)[k] == all.take(i + 1)[k]);
                    }
                }
                if implies_product(all.take(i as int), p) {
                    let k = choose|k: int| 0 <= k < all.take(i as int).len() && #[trigger] host_product_of(all.take(i as int)[k]) == Some(p);
                    assert(all.take(i + 1)[k] == all.take(i as int)[k]);
                }
                if host_product_of(all[i as int]) == Some(p) {
                    assert(all.take(i + 1)[i as int] == all[i as int]);
                }
            }
        }
        i = i + 1;
    }
    proof {
        assert(all.take(types.len() as int) =~= all);
    }
    out
}

// ---------------------------------------------------------------------------
// The whole manifest
// ---------------------------------------------------------------------------

/// What the facts read out of a document record of it, field by field.
pub open spec fn describes(f: ManifestFacts, doc: YamlValue) -> bool {
    &&& opt_text(f.app_id) == non_empty_in(app_id_of(doc))
    &&& opt_text(f.app_name) == app_name_of(doc)
    &&& opt_text(f.runtime) == runtime_of(doc)
    &&& texts(f.declared_module_types@) == module_types_of(doc)
    &&& strictly_ascending(product_views(f.host_products@))
    &&& forall|p: HostProductView|
        product_views(f.host_products@).contains(p) <==> implies_product(module_types_of(doc), p)
    &&& texts(f.user_facing_module_types@) == user_facing_of(module_types_of(doc))
    &&& f.scopes@.map_values(|s: Scope| s.raw@) == scope_texts_of(doc)
    &&& forall|i: int|
        0 <= i < f.scopes@.len() ==> f.scopes@[i].verb == scope_verb_of(#[trigger] f.scopes@[i].raw@)
    &&& located_texts(f.webtriggers@) == webtriggers_of(doc)
    &&& located_texts(f.display_conditions@) == display_conditions_of(doc)
    &&& f.remotes@.len() == remote_items_of(doc).len()
    &&& forall|i: int|
        0 <= i < f.remotes@.len() ==> describes_remote(#[trigger] f.remotes@[i], remote_items_of(doc)[i])
    &&& f.external_egress@.map_values(|e: EgressEntry| egress_text(e)) == egress_of(doc)
    &&& forall|i: int| 0 <= i < f.external_egress@.len() ==> entry_wf(#[trigger] f.external_egress@[i])
    &&& texts(f.oauth_providers@) == provider_keys_of(doc)
    &&& located_texts(f.content_security_relaxations@) == relaxations_of(doc)
    &&& texts(f.resource_keys@) == resource_keys_of(doc)
}

/// What is said of a manifest without an `app.id` string.
pub const MISSING_APP_ID: &'static str = "app: missing field `id`";

/// The outcome of reading a parsed document: the facts when `app.id` is a
/// string, else the error that says it is missing.
pub open spec fn reads_document(r: Result<ManifestFacts, Error>, doc: YamlValue) -> bool {
    match r {
        Ok(f) => app_id_of(doc) is Some && describes(f, doc),
        Err(e) => app_id_of(doc) is None && (e matches Error::Yaml(m) && m@ == MISSING_APP_ID@),
    }
}

impl ManifestFacts {
    /// Read every fact this tool understands out of a parsed manifest.
    ///
    /// `app.id` must be a string: without it the document does not have the
    /// shape of a Forge manifest.
    pub fn from_document(doc: &YamlValue) -> (r: Result<ManifestFacts, Error>)
        ensures
            reads_document(r, *doc),
    {
        let app_id = match app_id_text(doc) {
            Some(id) => non_empty(id),
            None => {
                return Err(Error::Yaml(owned(MISSING_APP_ID)));
            },
        };
        let declared_module_types = declared_module_types(doc);
        let host_products = host_products(&declared_module_types);
        let user_facing_module_types = user_facing_module_types(&declared_module_types);
        Ok(ManifestFacts {
            app_id,
            app_name: app_name(doc),
            runtime: runtime_name(doc),
            declared_module_types,
            host_products,
            user_facing_module_types,
            scopes: scopes(doc),
            webtriggers: webtriggers(doc),
            display_conditions: display_conditions(doc),
            remotes: remotes(doc),
            external_egress: external_egress(doc),
            oauth_providers: keys_of_node(get_key_in(get_key(doc, "providers"), "auth")),
            content_security_relaxations: content_security_relaxations(doc),
            resource_keys: keys_of_node(get_key(doc, "resources")),
        })
    }

    /// Read every fact this tool understands out of a `manifest.yml`.
    ///
    /// Text that is not YAML gives the parser's error; a document without an
    /// `app.id` string gives the error [`from_document`](Self::from_document)
    /// gives.
    pub fn from_yaml(source: &str) -> (r: Result<ManifestFacts, Error>)
        ensures
            match yaml_parse(source@) {
                Ok(doc) => reads_document(r, doc),
                Err(m) => r matches Err(Error::Yaml(t)) && t@ == m,
            },
    {
        match parse_document(source) {
            Ok(doc) => ManifestFacts::from_document(&doc),
            Err(message) => Err(Error::Yaml(message)),
        }
    }
}

/// Keeping first occurrences keeps every item once and nothing else.
proof fn lemma_first_occurrences(s: Seq<(Seq<char>, Seq<char>)>)
    ensures
        forall|x: (Seq<char>, Seq<char>)| first_occurrences(s).contains(x) <==> s.contains(x),
        forall|i: int, j: int|
            0 <= i < j < first_occurrences(s).len() ==> first_occurrences(s)[i]
                != first_occurrences(s)[j],
    decreases s.len(),
{
    if s.len() > 0 {
        let rest = s.drop_last();
        lemma_first_occurrences(rest);
        let f = first_occurrences(s);
        let g = first_occurrences(rest);
        assert(s =~= rest.push(s.last()));
        assert forall|x: (Seq<char>, Seq<char>)| f.contains(x) <==> s.contains(x) by {
            if s.contains(x) {
                let k = choose|k: int| 0 <= k < s.len() && s[k] == x;
                if k < s.len() - 1 {
                    assert(rest[k] == x);
                    assert(rest.contains(x));
                    assert(g.contains(x));
                    let m = choose|m: int| 0 <= m < g.len() && g[m] == x;
                    assert(f[m] == x);
                } else if !rest.contains(x) {
                    assert(f[f.len() - 1] == x);
                } else {
                    assert(g.contains(x));
                    let m = choose|m: int| 0 <= m < g.len() && g[m] == x;
                    assert(f[m] == x);
                }
            }
            if f.contains(x) {
                let m = choose|m: int| 0 <= m < f.len() && f[m] == x;
                if m < g.len() {
                    assert(g[m] == x);
                    assert(rest.contains(x));
                    let k = choose|k: int| 0 <= k < rest.len() && rest[k] == x;
                    assert(s[k] == x);
                } else {
                    assert(s[s.len() - 1] == x);
                }
            }
        }
    }
}

/// The external destinations name each distinct string leaf under
/// `permissions.external` (outside the non-destination keys) exactly once.
pub proof fn lemma_egress_entries_are_distinct(doc: YamlValue)
    ensures
        forall|x: (Seq<char>, Seq<char>)| egress_of(doc).contains(x) <==> egress_leaves_of(doc).contains(x),
        forall|i: int, j: int| 0 <= i < j < egress_of(doc).len() ==> egress_of(doc)[i] != egress_of(doc)[j],
{
    lemma_first_occurrences(egress_leaves_of(doc));
}

/// The `unsafe-` relaxations among some leaves are exactly the leaves whose
/// value begins with `unsafe-`: every such leaf is kept, and nothing else is.
proof fn lemma_unsafe_relaxations(s: Seq<(Seq<char>, Seq<char>)>)
    ensures
        forall|i: int|
            0 <= i < s.len() && crate::text::has_prefix(#[trigger] s[i].1, "unsafe-"@)
                ==> unsafe_relaxations(s).contains(s[i]),
        forall|j: int|
            0 <= j < unsafe_relaxations(s).len() ==> crate::text::has_prefix(
                #[trigger] unsafe_relaxations(s)[j].1,
                "unsafe-"@,
            ) && s.contains(unsafe_relaxations(s)[j]),
    decreases s.len(),
{
    if s.len() > 0 {
        let init = s.drop_last();
        lemma_unsafe_relaxations(init);
        let u = unsafe_relaxations(s);
        let v = unsafe_relaxations(init);
        assert forall|i: int|
            0 <= i < s.len() && crate::text::has_prefix(#[trigger] s[i].1, "unsafe-"@) implies u.contains(
            s[i],
        ) by {
            if i < s.len() - 1 {
                assert(s[i] == init[i]);
                let k = choose|k: int| 0 <= k < v.len() && v[k] == s[i];
                assert(u[k] == v[k]);
            } else {
                assert(s[i] == s.last());
                assert(u[u.len() - 1] == s.last());
            }
        }
        assert forall|j: int| 0 <= j < u.len() implies crate::text::has_prefix(#[trigger] u[j].1, "unsafe-"@)
            && s.contains(u[j]) by {
            if j < v.len() {
                assert(u[j] == v[j]);
                assert(v[j].1 == u[j].1);
                assert(init.contains(v[j]));
                let k = choose|k: int| 0 <= k < init.len() && #[trigger] init[k] == v[j];
                assert(s[k] == init[k]);
            } else {
                assert(u[j] == s.last());
                assert(s[s.len() - 1] == s.last());
            }
        }
    }
}

/// Every string under `permissions.content` whose value begins with
/// `unsafe-` (`unsafe-inline`, `unsafe-eval`, `unsafe-hashes`, ...) is a
/// content-security relaxation, cited where it was declared; every
/// relaxation is such a string; and a manifest without `permissions.content`
/// has none.
pub proof fn lemma_every_unsafe_directive_is_a_relaxation(doc: YamlValue)
    ensures
        match get_in(get(doc, "permissions"@), "content"@) {
            Some(content) => {
                let leaves = string_leaves("permissions.content"@, content, Seq::empty());
                &&& forall|i: int|
                    0 <= i < leaves.len() && crate::text::has_prefix(#[trigger] leaves[i].1, "unsafe-"@)
                        ==> relaxations_of(doc).contains(leaves[i])
                &&& forall|j: int|
                    0 <= j < relaxations_of(doc).len() ==> crate::text::has_prefix(
                        #[trigger] relaxations_of(doc)[j].1,
                        "unsafe-"@,
                    ) && leaves.contains(relaxations_of(doc)[j])
            },
            None => relaxations_of(doc).len() == 0,
        },
{
    match get_in(get(doc, "permissions"@), "content"@) {
        Some(content) => {
            lemma_unsafe_relaxations(string_leaves("permissions.content"@, content, Seq::empty()));
        },
        None => {},
    }
}

} // verus!
