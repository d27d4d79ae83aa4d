//! The list of models that the server offers, read from the body of its
//! answer. Two shapes are taken: an object whose member `models` is an
//! array of entries, and a bare array of names or entries. Whatever else
//! comes gives an empty list.

use crate::json::{
    items_of, json_document, json_tree, json_trees, member_of, read_document, text_of, JsonTree,
};
use vstd::prelude::*;

verus! {

/// The texts of a sequence of strings.
pub open spec fn texts(strings: Seq<String>) -> Seq<Seq<char>> {
    strings.map_values(|s: String| s@)
}

/// The name that an entry of a `models` array gives: its member `model`,
/// or without such a member its member `name`, where that is a string.
pub open spec fn listed_name(entry: JsonTree) -> Option<Seq<char>> {
    match entry.member("model"@) {
        Some(model) => model.text(),
        None => match entry.member("name"@) {
            Some(name) => name.text(),
            None => None,
        },
    }
}

/// The name that an item of a bare array gives: the item itself where it
/// is a string, else its member `name` where that is a string, else its
/// member `model` where that is a string.
pub open spec fn bare_name(item: JsonTree) -> Option<Seq<char>> {
    if item.text() is Some {
        item.text()
    } else if item.member("name"@) is Some && item.member("name"@)->0.text() is Some {
        item.member("name"@)->0.text()
    } else if item.member("model"@) is Some {
        item.member("model"@)->0.text()
    } else {
        None
    }
}

/// [`listed_name`] as a function value.
pub open spec fn by_listed_name() -> spec_fn(JsonTree) -> Option<Seq<char>> {
    |entry: JsonTree| listed_name(entry)
}

/// [`bare_name`] as a function value.
pub open spec fn by_bare_name() -> spec_fn(JsonTree) -> Option<Seq<char>> {
    |item: JsonTree| bare_name(item)
}

/// The names that a document gives, in its order, with repetitions.
pub open spec fn named_models(doc: JsonTree) -> Seq<Seq<char>> {
    match doc.member("models"@) {
        Some(JsonTree::Array(entries)) => entries.filter_map(by_listed_name()),
        _ => match doc {
            JsonTree::Array(items) => items.filter_map(by_bare_name()),
            _ => Seq::empty(),
        },
    }
}

/// The first occurrence of each item of `s`, in the order of `s`.
pub open spec fn distinct(s: Seq<Seq<char>>) -> Seq<Seq<char>>
    decreases s.len(),
{
    if s.len() == 0 {
        s
    } else {
        let before = distinct(s.drop_last());
        if before.contains(s.last()) {
            before
        } else {
            before.push(s.last())
        }
    }
}

/// The models that a document lists: each name once, in the order in
/// which the names first occur.
pub open spec fn model_list(doc: JsonTree) -> Seq<Seq<char>> {
    distinct(named_models(doc))
}

/// The choices that the model selector shows: the models on offer, and
/// before them the selected model where it is named and not on offer.
pub open spec fn choices(offered: Seq<Seq<char>>, selected: Seq<char>) -> Seq<Seq<char>> {
    if selected.len() > 0 && !offered.contains(selected) {
        seq![selected] + offered
    } else {
        offered
    }
}

/// No item occurs twice among the first occurrences, and they hold every
/// item of the sequence and nothing else.
pub proof fn lemma_distinct(s: Seq<Seq<char>>)
    ensures
        distinct(s).no_duplicates(),
        distinct(s).len() <= s.len(),
        forall|x: Seq<char>| #[trigger] distinct(s).contains(x) <==> s.contains(x),
    decreases s.len(),
{
    if s.len() > 0 {
        let front = s.drop_last();
        let before = distinct(front);
        lemma_distinct(front);
        assert forall|x: Seq<char>| #[trigger] distinct(s).contains(x) <==> s.contains(x) by {
            if s.contains(x) {
                let k = choose|k: int| 0 <= k < s.len() && s[k] == x;
                if k < s.len() - 1 {
                    assert(front[k] == x);
                    assert(before.contains(x));
                    let at = choose|at: int| 0 <= at < before.len() && before[at] == x;
                    assert(distinct(s)[at] == x);
                } else if !before.contains(x) {
                    assert(distinct(s)[before.len() as int] == x);
                } else {
                    let at = choose|at: int| 0 <= at < before.len() && before[at] == x;
                    assert(distinct(s)[at] == x);
                }
            }
            if distinct(s).contains(x) {
                let at = choose|at: int| 0 <= at < distinct(s).len() && distinct(s)[at] == x;
                if at < before.len() {
                    assert(before[at] == x);
                    assert(before.contains(x));
                    assert(front.contains(x));
                    let k = choose|k: int| 0 <= k < front.len() && front[k] == x;
                    assert(s[k] == x);
                } else {
                    assert(s[s.len() - 1] == x);
                }
            }
        }
    }
}

/// The first occurrences keep the order of the sequence: each stands in
/// the sequence where its item occurs first, and later ones stand later.
pub proof fn lemma_distinct_place(s: Seq<Seq<char>>, i: int) -> (at: int)
    requires
        0 <= i < distinct(s).len(),
    ensures
        0 <= at < s.len(),
        s[at] == distinct(s)[i],
        !s.take(at).contains(s[at]),
        distinct(s.take(at)).len() == i,
        distinct(s.take(at + 1)) == distinct(s).take(i + 1),
    decreases s.len(),
{
    let front = s.drop_last();
    let before = distinct(front);
    lemma_distinct(front);
    if i < before.len() {
        let at = lemma_distinct_place(front, i);
        assert(s.take(at) == front.take(at));
        assert(s.take(at + 1) == front.take(at + 1));
        assert(distinct(s).take(i + 1) == before.take(i + 1));
        at
    } else {
        let at = s.len() - 1;
        assert(s.take(at) == front);
        assert(s.take(at + 1) == s);
        assert(distinct(s).take(i + 1) == distinct(s));
        at
    }
}

/// Tells whether `name` is among `names`.
fn holds(names: &Vec<String>, name: &String) -> (r: bool)
    ensures
        r == texts(names@).contains(name@),
{
    let mut i: usize = 0;
    while i < names.len()
        invariant
            i <= names.len(),
            forall|k: int| 0 <= k < i ==> (#[trigger] texts(names@)[k]) != name@,
        decreases names.len() - i,
    {
        if names[i] == *name {
            assert(texts(names@)[i as int] == name@);
            return true;
        }
        i = i + 1;
    }
    false
}

/// Keeps the first occurrence of each name, in order. Each name is looked
/// for among those kept so far, so nothing occurs twice in what comes out.
pub fn distinct_names(names: Vec<String>) -> (r: Vec<String>)
    ensures
        texts(r@) == distinct(texts(names@)),
        texts(r@).no_duplicates(),
{
    proof {
        lemma_distinct(texts(names@));
    }
    broadcast use vstd::std_specs::vec::axiom_spec_into_iter;

    let ghost all = texts(names@);
    let mut kept: Vec<String> = Vec::new();
    assert(texts(kept@) =~= distinct(all.take(0)));
    for name in it: names
        invariant
            texts(it.seq()) == all,
            texts(kept@) == distinct(all.take(it.index())),
    {
        proof {
            all.lemma_take_succ_push(it.index());
            assert(all.take(it.index() + 1).drop_last() == all.take(it.index()));
        }
        if !holds(&kept, &name) {
            let ghost before = kept@;
            kept.push(name);
            assert(texts(kept@) =~= texts(before).push(name@));
        }
    }
    assert(all.take(all.len() as int) =~= all);
    kept
}

/// The choices that the model selector shows.
pub fn model_choices(offered: Vec<String>, selected: &str) -> (r: Vec<String>)
    ensures
        texts(r@) == choices(texts(offered@), selected@),
{
    let name = selected.to_owned();
    if selected.is_empty() || holds(&offered, &name) {
        return offered;
    }
    let mut offered = offered;
    let ghost before = offered@;
    offered.insert(0, name);
    assert(texts(offered@) =~= seq![selected@] + texts(before));
    offered
}

/// The name that an entry of a `models` array gives.
fn name_listed(entry: &serde_json::Value) -> (r: Option<String>)
    ensures
        match r {
            Some(name) => listed_name(json_tree(*entry)) == Some(name@),
            None => listed_name(json_tree(*entry)) is None,
        },
{
    let named = match member_of(entry, "model") {
        Some(model) => Some(model),
        None => member_of(entry, "name"),
    };
    match named {
        Some(value) => match text_of(value) {
            Some(name) => Some(name.to_owned()),
            None => None,
        },
        None => None,
    }
}

/// The name that an item of a bare array gives.
fn name_bare(item: &serde_json::Value) -> (r: Option<String>)
    ensures
        match r {
            Some(name) => bare_name(json_tree(*item)) == Some(name@),
            None => bare_name(json_tree(*item)) is None,
        },
{
    if let Some(name) = text_of(item) {
        return Some(name.to_owned());
    }
    if let Some(value) = member_of(item, "name") {
        if let Some(name) = text_of(value) {
            return Some(name.to_owned());
        }
    }
    if let Some(value) = member_of(item, "model") {
        if let Some(name) = text_of(value) {
            return Some(name.to_owned());
        }
    }
    None
}

/// The names that the entries of a `models` array give.
fn names_listed(entries: &Vec<serde_json::Value>) -> (r: Vec<String>)
    ensures
        texts(r@) == json_trees(entries@).filter_map(by_listed_name()),
{
    let ghost trees = json_trees(entries@);
    let mut names: Vec<String> = Vec::new();
    let mut i: usize = 0;
    assert(texts(names@) =~= trees.take(0).filter_map(by_listed_name()));
    while i < entries.len()
        invariant
            i <= entries.len(),
            trees == json_trees(entries@),
            texts(names@) == trees.take(i as int).filter_map(by_listed_name()),
        decreases entries.len() - i,
    {
        proof {
            trees.lemma_filter_map_take_succ(by_listed_name(), i as int);
        }
        if let Some(name) = name_listed(&entries[i]) {
            let ghost before = names@;
            names.push(name);
            assert(texts(names@) =~= texts(before).push(name@));
        }
        i = i + 1;
    }
    assert(trees.take(i as int) =~= trees);
    names
}

/// The names that the items of a bare array give.
fn names_bare(items: &Vec<serde_json::Value>) -> (r: Vec<String>)
    ensures
        texts(r@) == json_trees(items@).filter_map(by_bare_name()),
{
    let ghost trees = json_trees(items@);
    let mut names: Vec<String> = Vec::new();
    let mut i: usize = 0;
    assert(texts(names@) =~= trees.take(0).filter_map(by_bare_name()));
    while i < items.len()
        invariant
            i <= items.len(),
            trees == json_trees(items@),
            texts(names@) == trees.take(i as int).filter_map(by_bare_name()),
        decreases items.len() - i,
    {
        proof {
            trees.lemma_filter_map_take_succ(by_bare_name(), i as int);
        }
        if let Some(name) = name_bare(&items[i]) {
            let ghost before = names@;
            names.push(name);
            assert(texts(names@) =~= texts(before).push(name@));
        }
        i = i + 1;
    }
    assert(trees.take(i as int) =~= trees);
    names
}

/// The models that a document lists: each name once, in the order in
/// which the names first occur. A document of neither shape lists none.
pub fn models_in(doc: &serde_json::Value) -> (r: Vec<String>)
    ensures
        texts(r@) == model_list(json_tree(*doc)),
        texts(r@).no_duplicates(),
{
    proof {
        lemma_distinct(named_models(json_tree(*doc)));
    }
    let listed = match member_of(doc, "models") {
        Some(models) => items_of(models),
        None => None,
    };
    let names = match listed {
        Some(entries) => names_listed(entries),
        None => match items_of(doc) {
            Some(items) => names_bare(items),
            None => Vec::new(),
        },
    };
    distinct_names(names)
}

/// The models that the body of the server's answer lists. A body that is
/// no JSON document lists none.
pub fn list_models(body: &[u8]) -> (r: Vec<String>)
    ensures
        texts(r@) == match json_document(body@) {
            Some(doc) => model_list(doc),
            None => Seq::empty(),
        },
        texts(r@).no_duplicates(),
{
    match read_document(body) {
        Ok(doc) => models_in(&doc),
        Err(_) => Vec::new(),
    }
}

} // verus!
