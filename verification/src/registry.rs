//! The script registry: a store from script id to script text.
//!
//! The texts live in a `dashmap::DashMap`, a sharded concurrent hash map. The
//! registry's contracts describe it as the mathematical map from id to text
//! that it holds; entries are inserted and removed, never edited in place.

use crate::ids::{fresh_id, is_random_form, ScriptId};
use dashmap::DashMap;
use std::collections::hash_map::RandomState;
use vstd::prelude::*;

verus! {

/// `dashmap::DashMap`, taken as an opaque type: what a map holds is known
/// only through [`stored`] and the contracts of the functions below, each of
/// which makes one call on a map that the caller has exclusive or shared
/// access to as its signature says.
#[verifier::external_type_specification]
#[verifier::external_body]
#[verifier::reject_recursive_types(K)]
#[verifier::reject_recursive_types(V)]
#[verifier::reject_recursive_types(S)]
pub struct ExDashMap<K, V, S>(DashMap<K, V, S>);

/// The mathematical value of a registry: the text stored under each id.
pub type ScriptTable = Map<u128, Seq<char>>;

/// The entries that a map of scripts holds: each stored id with its text.
pub uninterp spec fn stored(scripts: DashMap<u128, String, RandomState>) -> Map<u128, Seq<char>>;

/// The mathematical value of a listing: each listed id with its text.
pub open spec fn entry_views(pairs: Seq<(u128, String)>) -> Seq<(u128, Seq<char>)> {
    pairs.map_values(|pair: (u128, String)| (pair.0, pair.1@))
}

/// Whether `listing` names every entry of `table` exactly once and nothing
/// else.
pub open spec fn lists_entries(listing: Seq<(u128, Seq<char>)>, table: ScriptTable) -> bool {
    &&& forall|i: int|
        0 <= i < listing.len() ==> table.contains_key((#[trigger] listing[i]).0)
            && table[listing[i].0] == listing[i].1
    &&& forall|i: int, j: int|
        0 <= i < j < listing.len() ==> (#[trigger] listing[i]).0 != (#[trigger] listing[j]).0
    &&& forall|id: u128|
        table.contains_key(id) ==> exists|i: int|
            0 <= i < listing.len() && (#[trigger] listing[i]).0 == id
}

/// `DashMap::new`: the new map holds no entry.
#[verifier::external_body]
fn map_new() -> (scripts: DashMap<u128, String, RandomState>)
    ensures
        stored(scripts) == ScriptTable::empty(),
{
    DashMap::new()
}

/// `DashMap::insert`: afterwards `id` maps to `text` and every other entry is
/// as before; the text that `id` mapped to before, if any, is returned.
#[verifier::external_body]
fn map_insert(
    scripts: &mut DashMap<u128, String, RandomState>,
    id: u128,
    text: String,
) -> (previous: Option<String>)
    ensures
        stored(*final(scripts)) == stored(*old(scripts)).insert(id, text@),
        previous is Some <==> stored(*old(scripts)).contains_key(id),
        previous is Some ==> previous->0@ == stored(*old(scripts))[id],
{
    scripts.insert(id, text)
}

/// `DashMap::get`: a copy of the text stored under `id`, if there is one.
#[verifier::external_body]
fn map_get(scripts: &DashMap<u128, String, RandomState>, id: u128) -> (text: Option<String>)
    ensures
        text is Some <==> stored(*scripts).contains_key(id),
        text is Some ==> text->0@ == stored(*scripts)[id],
{
    scripts.get(&id).map(|entry| entry.value().clone())
}

/// `DashMap::remove`: the entry under `id` leaves the map and is returned, if
/// there is one; every other entry stays.
#[verifier::external_body]
fn map_remove(
    scripts: &mut DashMap<u128, String, RandomState>,
    id: u128,
) -> (removed: Option<(u128, String)>)
    ensures
        stored(*final(scripts)) == stored(*old(scripts)).remove(id),
        removed is Some <==> stored(*old(scripts)).contains_key(id),
        removed matches Some(entry) ==> entry.0 == id && entry.1@ == stored(*old(scripts))[id],
{
    scripts.remove(&id)
}

/// `DashMap::iter`: walks every entry once, in an order that is not specified;
/// each is copied out as a pair.
#[verifier::external_body]
fn map_pairs(scripts: &DashMap<u128, String, RandomState>) -> (pairs: Vec<(u128, String)>)
    ensures
        lists_entries(entry_views(pairs@), stored(*scripts)),
{
    scripts.iter().map(|entry| (*entry.key(), entry.value().clone())).collect()
}

/// `DashMap::len`: the number of entries that the map holds.
#[verifier::external_body]
fn map_len(scripts: &DashMap<u128, String, RandomState>) -> (n: usize)
    ensures
        n == stored(*scripts).len(),
{
    scripts.len()
}

/// The store of submitted scripts.
pub struct Registry {
    scripts: DashMap<u128, String, RandomState>,
}

impl View for Registry {
    type V = ScriptTable;

    closed spec fn view(&self) -> ScriptTable {
        stored(self.scripts)
    }
}

impl Registry {
    /// An empty registry.
    pub fn new() -> (registry: Registry)
        ensures
            registry@ == ScriptTable::empty(),
    {
        Registry { scripts: map_new() }
    }

    /// Stores `text` under `id`, replacing what was stored there, and returns
    /// the replaced text if there was one.
    pub fn insert(&mut self, id: ScriptId, text: String) -> (previous: Option<String>)
        ensures
            final(self)@ == old(self)@.insert(id, text@),
            previous is Some <==> old(self)@.contains_key(id),
            previous is Some ==> previous->0@ == old(self)@[id],
    {
        map_insert(&mut self.scripts, id, text)
    }

    /// Stores `text` under a freshly drawn id and returns that id.
    ///
    /// The id is random and is not compared with the ids already in use: in
    /// the negligible case that it is, the new text replaces the old one.
    pub fn put(&mut self, text: String) -> (id: ScriptId)
        ensures
            is_random_form(id),
            final(self)@ == old(self)@.insert(id, text@),
    {
        let id: u128 = fresh_id();
        let _ = self.insert(id, text);
        id
    }

    /// The text stored under `id`, or `None` if there is none.
    pub fn get(&self, id: ScriptId) -> (text: Option<String>)
        ensures
            text is Some <==> self@.contains_key(id),
            text is Some ==> text->0@ == self@[id],
    {
        map_get(&self.scripts, id)
    }

    /// A snapshot of every entry, each listed once, in no particular order.
    pub fn list(&self) -> (pairs: Vec<(ScriptId, String)>)
        ensures
            lists_entries(entry_views(pairs@), self@),
            self@.dom().finite(),
            pairs@.len() == self@.len(),
    {
        let pairs = map_pairs(&self.scripts);
        proof {
            lemma_listing_length(entry_views(pairs@), self@);
        }
        pairs
    }

    /// Removes the entry under `id` and returns its text, or returns `None`
    /// and changes nothing if there is none.
    pub fn delete(&mut self, id: ScriptId) -> (text: Option<String>)
        ensures
            text is Some <==> old(self)@.contains_key(id),
            text is Some ==> text->0@ == old(self)@[id],
            text is Some ==> final(self)@ == old(self)@.remove(id),
            text is None ==> final(self)@ == old(self)@,
    {
        match map_remove(&mut self.scripts, id) {
            Some(entry) => Some(entry.1),
            None => {
                assert(old(self)@.remove(id) =~= old(self)@);
                None
            },
        }
    }

    /// The number of stored scripts.
    pub fn len(&self) -> (n: usize)
        ensures
            n == self@.len(),
    {
        map_len(&self.scripts)
    }
}

/// A listing that names every entry of a table exactly once is as long as the
/// table is large.
pub proof fn lemma_listing_length(pairs: Seq<(u128, Seq<char>)>, entries: ScriptTable)
    requires
        lists_entries(pairs, entries),
    ensures
        entries.dom().finite(),
        entries.len() == pairs.len(),
    decreases pairs.len(),
{
    if pairs.len() == 0 {
        assert(entries.dom() =~= Set::<u128>::empty());
    } else {
        let last = pairs.last();
        let rest = pairs.drop_last();
        let fewer = entries.remove(last.0);
        assert forall|id: u128| fewer.contains_key(id) implies exists|i: int|
            0 <= i < rest.len() && (#[trigger] rest[i]).0 == id by {
            let i = choose|i: int| 0 <= i < pairs.len() && (#[trigger] pairs[i]).0 == id;
            assert(rest[i] == pairs[i]);
        }
        assert(lists_entries(rest, fewer));
        lemma_listing_length(rest, fewer);
        assert(entries.contains_key(pairs[pairs.len() - 1].0));
        assert(entries.dom() =~= fewer.dom().insert(last.0));
    }
}

/// The table after the texts `texts` have been stored, one after the other,
/// under the ids `ids`.
pub open spec fn put_all(table: ScriptTable, ids: Seq<u128>, texts: Seq<Seq<char>>) -> ScriptTable
    decreases ids.len(),
{
    if ids.len() == 0 || texts.len() != ids.len() {
        table
    } else {
        put_all(table, ids.drop_last(), texts.drop_last()).insert(ids.last(), texts.last())
    }
}

/// A text that has been stored under an id is the text found under that id.
pub proof fn law_stored_text_is_found(table: ScriptTable, id: u128, text: Seq<char>)
    ensures
        table.insert(id, text).contains_key(id),
        table.insert(id, text)[id] == text,
        forall|other: u128|
            other != id && table.contains_key(other) ==> table.insert(id, text)[other]
                == table[other],
{
}

/// Deleting under an id that names no entry leaves the table as it is, in
/// size and in content.
pub proof fn law_delete_of_unknown_id_is_idle(table: ScriptTable, id: u128)
    requires
        !table.contains_key(id),
    ensures
        table.remove(id) == table,
        table.remove(id).len() == table.len(),
{
    assert(table.remove(id) =~= table);
}

/// Storing `n` texts under `n` ids that differ from each other and from the
/// ids already in use makes the table larger by exactly `n`, and every one of
/// the texts is found under its id.
pub proof fn law_distinct_ids_grow_the_table(
    table: ScriptTable,
    ids: Seq<u128>,
    texts: Seq<Seq<char>>,
)
    requires
        table.dom().finite(),
        texts.len() == ids.len(),
        ids.no_duplicates(),
        forall|i: int| 0 <= i < ids.len() ==> !table.contains_key(#[trigger] ids[i]),
    ensures
        put_all(table, ids, texts).dom().finite(),
        put_all(table, ids, texts).len() == table.len() + ids.len(),
        forall|i: int|
            0 <= i < ids.len() ==> put_all(table, ids, texts).contains_key(#[trigger] ids[i])
                && put_all(table, ids, texts)[ids[i]] == texts[i],
        forall|id: u128|
            table.contains_key(id) ==> #[trigger] put_all(table, ids, texts).contains_key(id)
                && put_all(table, ids, texts)[id] == table[id],
        forall|id: u128|
            #[trigger] put_all(table, ids, texts).contains_key(id) ==> table.contains_key(id)
                || ids.contains(id),
    decreases ids.len(),
{
    if ids.len() > 0 {
        let fewer_ids = ids.drop_last();
        let fewer_texts = texts.drop_last();
        let before = put_all(table, fewer_ids, fewer_texts);
        assert forall|i: int| 0 <= i < fewer_ids.len() implies !table.contains_key(
            #[trigger] fewer_ids[i],
        ) by {
            assert(fewer_ids[i] == ids[i]);
        }
        law_distinct_ids_grow_the_table(table, fewer_ids, fewer_texts);
        let last = ids.last();
        assert(!before.contains_key(last)) by {
            if before.contains_key(last) {
                assert(!table.contains_key(ids[ids.len() - 1]));
                let k = choose|k: int| 0 <= k < fewer_ids.len() && fewer_ids[k] == last;
                assert(ids[k] == ids[ids.len() - 1]);
            }
        }
        let after = put_all(table, ids, texts);
        assert(after == before.insert(last, texts.last()));
        assert forall|i: int| 0 <= i < ids.len() implies after.contains_key(#[trigger] ids[i])
            && after[ids[i]] == texts[i] by {
            if i < fewer_ids.len() {
                assert(fewer_ids[i] == ids[i]);
                assert(fewer_texts[i] == texts[i]);
                assert(before.contains_key(fewer_ids[i]));
            }
        }
        assert forall|id: u128| #[trigger] after.contains_key(id) implies table.contains_key(id)
            || ids.contains(id) by {
            if id == last {
                assert(ids[ids.len() - 1] == id);
            } else {
                assert(before.contains_key(id));
                if !table.contains_key(id) {
                    let k = choose|k: int| 0 <= k < fewer_ids.len() && fewer_ids[k] == id;
                    assert(ids[k] == id);
                }
            }
        }
    }
}

} // verus!
