//! In-memory key metadata store with the relational contract the services
//! rely on: durable rows, upsert-on-conflict for aliases and versions, and
//! cursor pagination ordered by surrogate identifier.
//!
//! Invariants: surrogate identifiers grow strictly along each table; alias
//! strings are unique across the whole keyspace; `(key, version)` pairs are
//! unique; and all version rows of one key agree on the key-wide attributes
//! (state, specification, usage, origin, primary version).

use vstd::prelude::*;

use crate::models::{
    metas_view, spec_with_primary, spec_with_state, KeyAliasModel, KeyMetaModel, KeyMetaView,
};
use crate::strutil::{contains_str, str_eq};
use crate::types::KeyState;

verus! {

broadcast use
    vstd::string::to_string_from_display_ensures_for_str,
    vstd::seq_lib::group_filter_ensures,
    Seq::lemma_filter_push;

// ---------------------------------------------------------------------------
// Table predicates
// ---------------------------------------------------------------------------

/// Alias surrogate identifiers grow strictly left to right.
pub open spec fn alias_ids_increasing(s: Seq<KeyAliasModel>) -> bool {
    forall|i: int, j: int| 0 <= i < j < s.len() ==> s[i].id < s[j].id
}

/// Alias strings are unique across the table.
pub open spec fn alias_strings_unique(s: Seq<KeyAliasModel>) -> bool {
    forall|i: int, j: int| 0 <= i < j < s.len() ==> s[i].alias@ != s[j].alias@
}

/// Every alias surrogate identifier lies below the allocator's next value.
pub open spec fn alias_ids_below(s: Seq<KeyAliasModel>, bound: i64) -> bool {
    forall|i: int| 0 <= i < s.len() ==> s[i].id < bound
}

/// The alias rows of one key, in table order.
pub open spec fn spec_aliases_of(s: Seq<KeyAliasModel>, key: Seq<char>) -> Seq<KeyAliasModel> {
    s.filter(|a: KeyAliasModel| a.key_id@ == key)
}

/// Some row carries this alias string.
pub open spec fn spec_has_alias(s: Seq<KeyAliasModel>, alias: Seq<char>) -> bool {
    exists|i: int| 0 <= i < s.len() && s[i].alias@ == alias
}

/// Index of the row carrying this alias string (unique under
/// [`alias_strings_unique`]).
pub open spec fn spec_alias_idx(s: Seq<KeyAliasModel>, alias: Seq<char>) -> int {
    choose|i: int| 0 <= i < s.len() && s[i].alias@ == alias
}

/// Version surrogate identifiers grow strictly left to right.
pub open spec fn meta_ids_increasing(s: Seq<KeyMetaView>) -> bool {
    forall|i: int, j: int| 0 <= i < j < s.len() ==> s[i].id < s[j].id
}

/// `(key, version)` pairs are unique across the table.
pub open spec fn meta_pairs_unique(s: Seq<KeyMetaView>) -> bool {
    forall|i: int, j: int|
        0 <= i < j < s.len() ==> !(s[i].key_id == s[j].key_id && s[i].version == s[j].version)
}

/// Every version surrogate identifier lies below the allocator's next value.
pub open spec fn meta_ids_below(s: Seq<KeyMetaView>, bound: i64) -> bool {
    forall|i: int| 0 <= i < s.len() ==> s[i].id < bound
}

/// The key-wide attributes two rows of one key must share.
pub open spec fn shared_attrs_agree(a: KeyMetaView, b: KeyMetaView) -> bool {
    &&& a.kms_id == b.kms_id
    &&& a.primary_version == b.primary_version
    &&& a.state == b.state
    &&& a.key_spec == b.key_spec
    &&& a.usage == b.usage
    &&& a.origin == b.origin
    &&& a.key_type == b.key_type
}

/// All rows of one key agree on the key-wide attributes.
pub open spec fn meta_rows_agree(s: Seq<KeyMetaView>) -> bool {
    forall|i: int, j: int|
        0 <= i < s.len() && 0 <= j < s.len() && s[i].key_id == s[j].key_id ==> shared_attrs_agree(
            s[i],
            s[j],
        )
}

/// The version rows of one key, in table order.
pub open spec fn spec_metas_of(s: Seq<KeyMetaView>, key: Seq<char>) -> Seq<KeyMetaView> {
    s.filter(|m: KeyMetaView| m.key_id == key)
}

/// The version table after the state of one key is rewritten.
pub open spec fn spec_rewrite_state(
    s: Seq<KeyMetaView>,
    key: Seq<char>,
    state: KeyState,
    now: u64,
) -> Seq<KeyMetaView> {
    s.map_values(
        |m: KeyMetaView|
            if m.key_id == key {
                spec_with_state(m, state, now)
            } else {
                m
            },
    )
}

/// The version table after the primary designation of one key is
/// rewritten.
pub open spec fn spec_rewrite_primary(
    s: Seq<KeyMetaView>,
    key: Seq<char>,
    primary: Seq<char>,
    now: u64,
) -> Seq<KeyMetaView> {
    s.map_values(
        |m: KeyMetaView|
            if m.key_id == key {
                spec_with_primary(m, primary, now)
            } else {
                m
            },
    )
}

/// Some row belongs to this key.
pub open spec fn spec_has_key(s: Seq<KeyMetaView>, key: Seq<char>) -> bool {
    exists|i: int| 0 <= i < s.len() && s[i].key_id == key
}

/// Some row carries this `(key, version)` pair.
pub open spec fn spec_has_version(s: Seq<KeyMetaView>, key: Seq<char>, version: Seq<char>) -> bool {
    exists|i: int| 0 <= i < s.len() && s[i].key_id == key && s[i].version == version
}

/// Index of the row carrying this `(key, version)` pair (unique under
/// [`meta_pairs_unique`]).
pub open spec fn spec_version_idx(s: Seq<KeyMetaView>, key: Seq<char>, version: Seq<char>) -> int {
    choose|i: int| 0 <= i < s.len() && s[i].key_id == key && s[i].version == version
}

// ---------------------------------------------------------------------------
// Pagination
// ---------------------------------------------------------------------------

/// Cursor-bearing page request: a page size and an optional surrogate
/// identifier after which the page starts.
#[derive(Clone, Copy, Debug)]
pub struct Paginator {
    /// Largest number of rows the page may hold.
    pub limit: usize,
    /// Identifier of the last row of the previous page, if any.
    pub cursor: Option<i64>,
}

/// One page of rows plus the continuation cursor (`None` at the end).
#[derive(Debug)]
pub struct Page<T> {
    /// The rows of the page, ordered by surrogate identifier ascending.
    pub items: Vec<T>,
    /// Cursor to pass for the next page; `None` when no rows remain.
    pub next_cursor: Option<i64>,
}

/// Whether a surrogate identifier lies after the cursor.
pub open spec fn spec_after_cursor(id: i64, cursor: Option<i64>) -> bool {
    match cursor {
        Option::None => true,
        Option::Some(c) => id > c,
    }
}

// ---------------------------------------------------------------------------
// The store
// ---------------------------------------------------------------------------

/// In-memory relational store for key-version rows and alias rows.
pub struct KeyMetaStore {
    /// Version rows, ordered by surrogate identifier.
    pub metas: Vec<KeyMetaModel>,
    /// Alias rows, ordered by surrogate identifier.
    pub aliases: Vec<KeyAliasModel>,
    /// Next surrogate identifier for a version row.
    pub next_meta_id: i64,
    /// Next surrogate identifier for an alias row.
    pub next_alias_id: i64,
}

impl KeyMetaStore {
    /// View of the version table.
    pub open spec fn meta_views(self) -> Seq<KeyMetaView> {
        metas_view(self.metas@)
    }

    /// Well-formedness of the alias table.
    pub open spec fn alias_wf(self) -> bool {
        &&& 0 <= self.next_alias_id
        &&& alias_ids_increasing(self.aliases@)
        &&& alias_strings_unique(self.aliases@)
        &&& alias_ids_below(self.aliases@, self.next_alias_id)
    }

    /// Well-formedness of the version table.
    pub open spec fn meta_wf(self) -> bool {
        &&& 0 <= self.next_meta_id
        &&& meta_ids_increasing(self.meta_views())
        &&& meta_pairs_unique(self.meta_views())
        &&& meta_ids_below(self.meta_views(), self.next_meta_id)
        &&& meta_rows_agree(self.meta_views())
    }

    /// Well-formedness of the whole store.
    pub open spec fn wf(self) -> bool {
        self.alias_wf() && self.meta_wf()
    }

    /// Fresh, empty store.
    pub fn new() -> (s: Self)
        ensures
            s.wf(),
            s.aliases@.len() == 0,
            s.metas@.len() == 0,
            s.next_meta_id == 0,
            s.next_alias_id == 0,
    {
        KeyMetaStore { metas: Vec::new(), aliases: Vec::new(), next_meta_id: 0, next_alias_id: 0 }
    }

    // -- alias reads --------------------------------------------------------

    /// Index of the row carrying this alias string, if any.
    fn find_alias_idx(&self, alias: &str) -> (r: Option<usize>)
        ensures
            match r {
                Option::Some(i) => i < self.aliases@.len() && self.aliases@[i as int].alias@
                    == alias@,
                Option::None => forall|j: int|
                    0 <= j < self.aliases@.len() ==> self.aliases@[j].alias@ != alias@,
            },
    {
        let mut k: usize = 0;
        while k < self.aliases.len()
            invariant
                0 <= k <= self.aliases@.len(),
                forall|j: int| 0 <= j < k ==> self.aliases@[j].alias@ != alias@,
            decreases self.aliases@.len() - k,
        {
            if str_eq(self.aliases[k].alias.as_str(), alias) {
                return Some(k);
            }
            k += 1;
        }
        None
    }

    /// Row owning the given alias string, if any: the alias is unique across
    /// the keyspace, so at most one row can own it.
    pub fn select_alias(&self, alias: &str) -> (r: Option<KeyAliasModel>)
        requires
            self.wf(),
        ensures
            match r {
                Option::Some(a) => spec_has_alias(self.aliases@, alias@) && a
                    == self.aliases@[spec_alias_idx(self.aliases@, alias@)] && a.alias@ == alias@,
                Option::None => !spec_has_alias(self.aliases@, alias@),
            },
    {
        match self.find_alias_idx(alias) {
            Some(i) => {
                let a = self.aliases[i].clone();
                proof {
                    self.lemma_alias_idx_is(i as int, alias@);
                }
                Some(a)
            },
            None => None,
        }
    }

    /// Under uniqueness, the chosen alias index is the found one.
    proof fn lemma_alias_idx_is(self, i: int, alias: Seq<char>)
        requires
            alias_strings_unique(self.aliases@),
            0 <= i < self.aliases@.len(),
            self.aliases@[i].alias@ == alias,
        ensures
            spec_has_alias(self.aliases@, alias),
            spec_alias_idx(self.aliases@, alias) == i,
    {
        assert(spec_has_alias(self.aliases@, alias));
        let c = spec_alias_idx(self.aliases@, alias);
        assert(0 <= c < self.aliases@.len() && self.aliases@[c].alias@ == alias);
        if c != i {
            assert(self.aliases@[c].alias@ != self.aliases@[i].alias@);
        }
    }

    /// All alias rows of one key, in table order.
    pub fn select_key_aliases(&self, key_id: &str) -> (r: Vec<KeyAliasModel>)
        ensures
            r@ == spec_aliases_of(self.aliases@, key_id@),
    {
        let mut out: Vec<KeyAliasModel> = Vec::new();
        let mut k: usize = 0;
        while k < self.aliases.len()
            invariant
                0 <= k <= self.aliases@.len(),
                out@ == spec_aliases_of(self.aliases@.subrange(0, k as int), key_id@),
            decreases self.aliases@.len() - k,
        {
            let a = &self.aliases[k];
            proof {
                assert(self.aliases@.subrange(0, k + 1) =~= self.aliases@.subrange(
                    0,
                    k as int,
                ).push(self.aliases@[k as int]));
            }
            if str_eq(a.key_id.as_str(), key_id) {
                out.push(a.clone());
            }
            k += 1;
        }
        proof {
            assert(self.aliases@.subrange(0, self.aliases@.len() as int) =~= self.aliases@);
        }
        out
    }

    // -- alias writes -------------------------------------------------------

    /// Upsert of an alias: a row already carrying the alias string is
    /// relinked to the new key (last writer wins); otherwise a fresh row is
    /// appended.  See [`spec_set_alias_post`].
    pub fn set_key_alias(&mut self, key_id: &str, alias: &str, now: u64)
        requires
            old(self).wf(),
            old(self).next_alias_id < i64::MAX,
        ensures
            final(self).wf(),
            spec_set_alias_post(*old(self), *final(self), key_id@, alias@, now),
    {
        match self.find_alias_idx(alias) {
            Some(i) => {
                let row = &self.aliases[i];
                let updated = KeyAliasModel {
                    id: row.id,
                    key_id: key_id.to_string(),
                    alias: row.alias.clone(),
                    created_at: row.created_at,
                    updated_at: now,
                };
                proof {
                    self.lemma_alias_idx_is(i as int, alias@);
                }
                self.aliases.set(i, updated);
                proof {
                    assert forall|x: int, y: int|
                        0 <= x < y < self.aliases@.len() implies self.aliases@[x].id
                        < self.aliases@[y].id by {
                        assert(old(self).aliases@[x].id < old(self).aliases@[y].id);
                    }
                    assert forall|x: int, y: int|
                        0 <= x < y < self.aliases@.len() implies self.aliases@[x].alias@
                        != self.aliases@[y].alias@ by {
                        assert(old(self).aliases@[x].alias@ != old(self).aliases@[y].alias@);
                    }
                }
            },
            None => {
                let row = KeyAliasModel {
                    id: self.next_alias_id,
                    key_id: key_id.to_string(),
                    alias: alias.to_string(),
                    created_at: now,
                    updated_at: now,
                };
                self.aliases.push(row);
                self.next_alias_id = self.next_alias_id + 1;
                proof {
                    assert(self.aliases@.subrange(0, old(self).aliases@.len() as int) =~= old(
                        self,
                    ).aliases@);
                }
            },
        }
    }

    /// Deletion of a key's aliases, optionally restricted to the given alias
    /// strings (an empty restriction deletes all of the key's aliases).
    /// Rows of other keys are untouched.
    pub fn delete_key_aliases(&mut self, key_id: &str, alias_filter: &Vec<String>)
        requires
            old(self).wf(),
        ensures
            final(self).wf(),
            final(self).metas == old(self).metas,
            final(self).next_meta_id == old(self).next_meta_id,
            final(self).next_alias_id == old(self).next_alias_id,
            final(self).aliases@ == spec_delete_aliases(
                old(self).aliases@,
                key_id@,
                alias_filter@,
            ),
    {
        let mut out: Vec<KeyAliasModel> = Vec::new();
        let mut k: usize = 0;
        while k < self.aliases.len()
            invariant
                0 <= k <= self.aliases@.len(),
                out@ == spec_delete_aliases(
                    self.aliases@.subrange(0, k as int),
                    key_id@,
                    alias_filter@,
                ),
            decreases self.aliases@.len() - k,
        {
            let a = &self.aliases[k];
            proof {
                assert(self.aliases@.subrange(0, k + 1) =~= self.aliases@.subrange(
                    0,
                    k as int,
                ).push(self.aliases@[k as int]));
                self.aliases@.subrange(0, k as int).lemma_filter_push(
                    self.aliases@[k as int],
                    |x: KeyAliasModel| !spec_alias_removed(x, key_id@, alias_filter@),
                );
            }
            let matches_key = str_eq(a.key_id.as_str(), key_id);
            let in_filter = alias_filter.len() == 0 || contains_str(alias_filter, a.alias.as_str());
            if !(matches_key && in_filter) {
                out.push(a.clone());
            }
            k += 1;
        }
        proof {
            assert(self.aliases@.subrange(0, self.aliases@.len() as int) =~= self.aliases@);
            lemma_alias_filter_keeps_wf(
                self.aliases@,
                |x: KeyAliasModel| !spec_alias_removed(x, key_id@, alias_filter@),
                self.next_alias_id,
            );
        }
        self.aliases = out;
    }

    // -- version reads ------------------------------------------------------

    /// Index of the row carrying this `(key, version)` pair, if any.
    fn find_meta_idx(&self, key_id: &str, version: &str) -> (r: Option<usize>)
        ensures
            match r {
                Option::Some(i) => i < self.meta_views().len() && self.meta_views()[i as int].key_id
                    == key_id@ && self.meta_views()[i as int].version == version@,
                Option::None => forall|j: int|
                    0 <= j < self.meta_views().len() ==> !(self.meta_views()[j].key_id == key_id@
                        && self.meta_views()[j].version == version@),
            },
    {
        let mut k: usize = 0;
        while k < self.metas.len()
            invariant
                0 <= k <= self.metas@.len(),
                forall|j: int|
                    0 <= j < k ==> !(self.meta_views()[j].key_id == key_id@
                        && self.meta_views()[j].version == version@),
            decreases self.metas@.len() - k,
        {
            let m = &self.metas[k];
            if str_eq(m.key_id.as_str(), key_id) && str_eq(m.version.as_str(), version) {
                return Some(k);
            }
            k += 1;
        }
        None
    }

    /// Under pair uniqueness, the chosen version index is the found one.
    pub(crate) proof fn lemma_version_idx_is(self, i: int, key: Seq<char>, version: Seq<char>)
        requires
            meta_pairs_unique(self.meta_views()),
            0 <= i < self.meta_views().len(),
            self.meta_views()[i].key_id == key,
            self.meta_views()[i].version == version,
        ensures
            spec_has_version(self.meta_views(), key, version),
            spec_version_idx(self.meta_views(), key, version) == i,
    {
        assert(spec_has_version(self.meta_views(), key, version));
        let c = spec_version_idx(self.meta_views(), key, version);
        if c != i {
            assert(!(self.meta_views()[c].key_id == self.meta_views()[i].key_id
                && self.meta_views()[c].version == self.meta_views()[i].version));
        }
    }

    /// All version rows of one key, in table order.
    pub fn select_key_metas(&self, key_id: &str) -> (r: Vec<KeyMetaModel>)
        ensures
            metas_view(r@) == spec_metas_of(self.meta_views(), key_id@),
    {
        let ghost mv = self.meta_views();
        let mut out: Vec<KeyMetaModel> = Vec::new();
        let mut k: usize = 0;
        while k < self.metas.len()
            invariant
                0 <= k <= self.metas@.len(),
                mv == self.meta_views(),
                metas_view(out@) == spec_metas_of(mv.subrange(0, k as int), key_id@),
            decreases self.metas@.len() - k,
        {
            let m = &self.metas[k];
            proof {
                assert(mv.subrange(0, k + 1) =~= mv.subrange(0, k as int).push(mv[k as int]));
                mv.subrange(0, k as int).lemma_filter_push(
                    mv[k as int],
                    |x: KeyMetaView| x.key_id == key_id@,
                );
            }
            if str_eq(m.key_id.as_str(), key_id) {
                let c = m.clone();
                out.push(c);
                proof {
                    assert(metas_view(out@) =~= metas_view(out@.drop_last()).push(
                        out@.last()@,
                    ));
                }
            }
            k += 1;
        }
        proof {
            assert(mv.subrange(0, mv.len() as int) =~= mv);
        }
        out
    }

    /// Whether the version table holds any row of this key.
    pub fn key_exists(&self, key_id: &str) -> (r: bool)
        ensures
            r == spec_has_key(self.meta_views(), key_id@),
    {
        let mut k: usize = 0;
        while k < self.metas.len()
            invariant
                0 <= k <= self.metas@.len(),
                forall|j: int| 0 <= j < k ==> self.meta_views()[j].key_id != key_id@,
            decreases self.metas@.len() - k,
        {
            proof {
                assert(metas_view(self.metas@)[k as int] == self.metas@[k as int]@);
            }
            if str_eq(self.metas[k].key_id.as_str(), key_id) {
                return true;
            }
            k += 1;
        }
        false
    }

    /// Whether the version table holds this `(key, version)` pair.
    pub fn has_version(&self, key_id: &str, version: &str) -> (r: bool)
        ensures
            r == spec_has_version(self.meta_views(), key_id@, version@),
    {
        match self.find_meta_idx(key_id, version) {
            Some(_) => true,
            None => false,
        }
    }

    // -- version writes -----------------------------------------------------

    /// Upsert of a version row on its `(key, version)` pair: an existing
    /// row is rewritten keeping its surrogate identifier; otherwise the row
    /// is appended under a fresh one.  The alias table is untouched.
    #[verifier::rlimit(60)]
    pub fn insert_or_update_key_meta(&mut self, m: &KeyMetaModel)
        requires
            old(self).wf(),
            old(self).next_meta_id < i64::MAX,
            forall|j: int|
                0 <= j < old(self).meta_views().len() && old(self).meta_views()[j].key_id
                    == m@.key_id ==> shared_attrs_agree(old(self).meta_views()[j], m@),
        ensures
            final(self).wf(),
            final(self).aliases == old(self).aliases,
            final(self).next_alias_id == old(self).next_alias_id,
            spec_upsert_meta_post(*old(self), *final(self), m@),
    {
        let ghost mv = self.meta_views();
        match self.find_meta_idx(m.key_id.as_str(), m.version.as_str()) {
            Some(i) => {
                let mut row = m.clone();
                row.id = self.metas[i].id;
                proof {
                    self.lemma_version_idx_is(i as int, m@.key_id, m@.version);
                }
                self.metas.set(i, row);
                proof {
                    assert(self.meta_views() =~= mv.update(
                        i as int,
                        spec_upserted_meta(mv[i as int], m@),
                    ));
                    assert forall|x: int|
                        0 <= x < self.meta_views().len() implies self.meta_views()[x].id
                        < self.next_meta_id by {
                        assert(mv[x].id < old(self).next_meta_id);
                    }
                    assert forall|x: int, y: int|
                        0 <= x < self.meta_views().len() && 0 <= y < self.meta_views().len()
                            && self.meta_views()[x].key_id
                            == self.meta_views()[y].key_id implies shared_attrs_agree(
                        self.meta_views()[x],
                        self.meta_views()[y],
                    ) by {
                        if x != i && y != i {
                            assert(shared_attrs_agree(mv[x], mv[y]));
                        } else if x == i && y != i {
                            assert(shared_attrs_agree(mv[y], m@));
                        } else if x != i && y == i {
                            assert(shared_attrs_agree(mv[x], m@));
                        }
                    }
                    assert forall|x: int, y: int|
                        0 <= x < y < self.meta_views().len() implies self.meta_views()[x].id
                        < self.meta_views()[y].id by {
                        assert(mv[x].id < mv[y].id);
                    }
                    assert forall|x: int, y: int|
                        0 <= x < y < self.meta_views().len() implies !(self.meta_views()[x].key_id
                        == self.meta_views()[y].key_id && self.meta_views()[x].version
                        == self.meta_views()[y].version) by {
                        assert(!(mv[x].key_id == mv[y].key_id && mv[x].version == mv[y].version));
                    }
                }
            },
            None => {
                let mut row = m.clone();
                row.id = self.next_meta_id;
                self.metas.push(row);
                self.next_meta_id = self.next_meta_id + 1;
                proof {
                    assert(self.meta_views() =~= mv.push(
                        KeyMetaView { id: old(self).next_meta_id as int, ..m@ },
                    ));
                    let n = mv.len() as int;
                    assert forall|x: int, y: int|
                        0 <= x < y < self.meta_views().len() implies self.meta_views()[x].id
                        < self.meta_views()[y].id by {
                        if y < n {
                            assert(mv[x].id < mv[y].id);
                        } else {
                            assert(mv[x].id < old(self).next_meta_id);
                        }
                    }
                    assert forall|x: int, y: int|
                        0 <= x < y < self.meta_views().len() implies !(self.meta_views()[x].key_id
                        == self.meta_views()[y].key_id && self.meta_views()[x].version
                        == self.meta_views()[y].version) by {
                        if y < n {
                            assert(!(mv[x].key_id == mv[y].key_id && mv[x].version
                                == mv[y].version));
                        }
                    }
                    assert forall|x: int, y: int|
                        0 <= x < self.meta_views().len() && 0 <= y < self.meta_views().len()
                            && self.meta_views()[x].key_id
                            == self.meta_views()[y].key_id implies shared_attrs_agree(
                        self.meta_views()[x],
                        self.meta_views()[y],
                    ) by {
                        if x < n && y < n {
                            assert(shared_attrs_agree(mv[x], mv[y]));
                        } else if x == n && y < n {
                            assert(shared_attrs_agree(mv[y], m@));
                        } else if x < n && y == n {
                            assert(shared_attrs_agree(mv[x], m@));
                        }
                    }
                }
            },
        }
    }

    /// Rewrites the key-wide state on every row of one key.
    pub fn set_state_rows(&mut self, key_id: &str, state: KeyState, now: u64)
        requires
            old(self).wf(),
        ensures
            final(self).wf(),
            final(self).aliases == old(self).aliases,
            final(self).next_alias_id == old(self).next_alias_id,
            final(self).next_meta_id == old(self).next_meta_id,
            final(self).meta_views() == spec_rewrite_state(
                old(self).meta_views(),
                key_id@,
                state,
                now,
            ),
    {
        let ghost mv = self.meta_views();
        let mut out: Vec<KeyMetaModel> = Vec::new();
        let mut k: usize = 0;
        proof {
            assert(metas_view(out@) =~= spec_rewrite_state(
                mv.subrange(0, 0),
                key_id@,
                state,
                now,
            ));
        }
        while k < self.metas.len()
            invariant
                old(self).wf(),
                0 <= k <= self.metas@.len(),
                self == old(self),
                mv == self.meta_views(),
                metas_view(out@) == spec_rewrite_state(
                    mv.subrange(0, k as int),
                    key_id@,
                    state,
                    now,
                ),
            decreases self.metas@.len() - k,
        {
            let m = &self.metas[k];
            let mut row = m.clone();
            let hit = str_eq(m.key_id.as_str(), key_id);
            if hit {
                row.state = state;
                row.updated_at = now;
            }
            out.push(row);
            proof {
                assert(metas_view(self.metas@)[k as int] == self.metas@[k as int]@);
                assert(mv.subrange(0, k + 1) =~= mv.subrange(0, k as int).push(mv[k as int]));
                assert(metas_view(out@) =~= metas_view(out@.drop_last()).push(out@.last()@));
                assert(spec_rewrite_state(mv.subrange(0, k + 1), key_id@, state, now)
                    =~= spec_rewrite_state(mv.subrange(0, k as int), key_id@, state, now).push(
                    if mv[k as int].key_id == key_id@ {
                        spec_with_state(mv[k as int], state, now)
                    } else {
                        mv[k as int]
                    },
                ));
                assert(out@.last()@ =~= (if mv[k as int].key_id == key_id@ {
                    spec_with_state(mv[k as int], state, now)
                } else {
                    mv[k as int]
                }));
            }
            k += 1;
        }
        proof {
            assert(mv.subrange(0, mv.len() as int) =~= mv);
        }
        self.metas = out;
        proof {
            self.lemma_rewrite_wf_state(*old(self), key_id@, state, now);
        }
    }

    /// The rewrite of [`Self::set_state_rows`] keeps the table well formed.
    proof fn lemma_rewrite_wf_state(self, pre: Self, key: Seq<char>, state: KeyState, now: u64)
        requires
            pre.wf(),
            self.aliases == pre.aliases,
            self.next_alias_id == pre.next_alias_id,
            self.next_meta_id == pre.next_meta_id,
            self.meta_views() == spec_rewrite_state(pre.meta_views(), key, state, now),
        ensures
            self.wf(),
    {
        let a = pre.meta_views();
        let b = self.meta_views();
        assert forall|x: int, y: int| 0 <= x < y < b.len() implies b[x].id < b[y].id by {
            assert(a[x].id < a[y].id);
        }
        assert forall|x: int, y: int|
            0 <= x < y < b.len() implies !(b[x].key_id == b[y].key_id && b[x].version
            == b[y].version) by {
            assert(!(a[x].key_id == a[y].key_id && a[x].version == a[y].version));
        }
        assert forall|x: int| 0 <= x < b.len() implies b[x].id < self.next_meta_id by {
            assert(a[x].id < pre.next_meta_id);
        }
        assert forall|x: int, y: int|
            0 <= x < b.len() && 0 <= y < b.len() && b[x].key_id
                == b[y].key_id implies shared_attrs_agree(b[x], b[y]) by {
            assert(shared_attrs_agree(a[x], a[y]));
        }
    }

    /// Rewrites the key-wide primary-version designation on every row of
    /// one key.
    pub fn set_primary_rows(&mut self, key_id: &str, primary: &str, now: u64)
        requires
            old(self).wf(),
        ensures
            final(self).wf(),
            final(self).aliases == old(self).aliases,
            final(self).next_alias_id == old(self).next_alias_id,
            final(self).next_meta_id == old(self).next_meta_id,
            final(self).meta_views() == spec_rewrite_primary(
                old(self).meta_views(),
                key_id@,
                primary@,
                now,
            ),
    {
        let ghost mv = self.meta_views();
        let mut out: Vec<KeyMetaModel> = Vec::new();
        let mut k: usize = 0;
        proof {
            assert(metas_view(out@) =~= spec_rewrite_primary(
                mv.subrange(0, 0),
                key_id@,
                primary@,
                now,
            ));
        }
        while k < self.metas.len()
            invariant
                old(self).wf(),
                0 <= k <= self.metas@.len(),
                self == old(self),
                mv == self.meta_views(),
                metas_view(out@) == spec_rewrite_primary(
                    mv.subrange(0, k as int),
                    key_id@,
                    primary@,
                    now,
                ),
            decreases self.metas@.len() - k,
        {
            let m = &self.metas[k];
            let mut row = m.clone();
            let hit = str_eq(m.key_id.as_str(), key_id);
            if hit {
                row.primary_version = primary.to_string();
                row.updated_at = now;
            }
            out.push(row);
            proof {
                assert(metas_view(self.metas@)[k as int] == self.metas@[k as int]@);
                assert(mv.subrange(0, k + 1) =~= mv.subrange(0, k as int).push(mv[k as int]));
                assert(metas_view(out@) =~= metas_view(out@.drop_last()).push(out@.last()@));
                assert(spec_rewrite_primary(mv.subrange(0, k + 1), key_id@, primary@, now)
                    =~= spec_rewrite_primary(mv.subrange(0, k as int), key_id@, primary@, now).push(
                    if mv[k as int].key_id == key_id@ {
                        spec_with_primary(mv[k as int], primary@, now)
                    } else {
                        mv[k as int]
                    },
                ));
                assert(out@.last()@ =~= (if mv[k as int].key_id == key_id@ {
                    spec_with_primary(mv[k as int], primary@, now)
                } else {
                    mv[k as int]
                }));
            }
            k += 1;
        }
        proof {
            assert(mv.subrange(0, mv.len() as int) =~= mv);
        }
        self.metas = out;
        proof {
            self.lemma_rewrite_wf_primary(*old(self), key_id@, primary@, now);
        }
    }

    /// The rewrite of [`Self::set_primary_rows`] keeps the table well
    /// formed.
    proof fn lemma_rewrite_wf_primary(
        self,
        pre: Self,
        key: Seq<char>,
        primary: Seq<char>,
        now: u64,
    )
        requires
            pre.wf(),
            self.aliases == pre.aliases,
            self.next_alias_id == pre.next_alias_id,
            self.next_meta_id == pre.next_meta_id,
            self.meta_views() == spec_rewrite_primary(pre.meta_views(), key, primary, now),
        ensures
            self.wf(),
    {
        let a = pre.meta_views();
        let b = self.meta_views();
        assert forall|x: int, y: int| 0 <= x < y < b.len() implies b[x].id < b[y].id by {
            assert(a[x].id < a[y].id);
        }
        assert forall|x: int, y: int|
            0 <= x < y < b.len() implies !(b[x].key_id == b[y].key_id && b[x].version
            == b[y].version) by {
            assert(!(a[x].key_id == a[y].key_id && a[x].version == a[y].version));
        }
        assert forall|x: int| 0 <= x < b.len() implies b[x].id < self.next_meta_id by {
            assert(a[x].id < pre.next_meta_id);
        }
        assert forall|x: int, y: int|
            0 <= x < b.len() && 0 <= y < b.len() && b[x].key_id
                == b[y].key_id implies shared_attrs_agree(b[x], b[y]) by {
            assert(shared_attrs_agree(a[x], a[y]));
        }
    }

    // -- pagination ---------------------------------------------------------

    /// One alias page: the key's alias rows after the cursor, in identifier
    /// order, at most `limit` of them; the continuation cursor is the last
    /// returned identifier while rows remain.
    pub fn pagin_key_alias(&self, key_id: &str, p: &Paginator) -> (r: Page<KeyAliasModel>)
        ensures
            spec_page_items(
                spec_alias_candidates(self.aliases@, key_id@, p.cursor),
                r.items@,
                p.limit,
            ),
            r.next_cursor == (if spec_alias_candidates(self.aliases@, key_id@, p.cursor).len()
                > p.limit && p.limit > 0 {
                Option::<i64>::Some(
                    spec_alias_candidates(self.aliases@, key_id@, p.cursor)[p.limit - 1].id,
                )
            } else {
                Option::<i64>::None
            }),
    {
        let mut all: Vec<KeyAliasModel> = Vec::new();
        let mut k: usize = 0;
        while k < self.aliases.len()
            invariant
                0 <= k <= self.aliases@.len(),
                all@ == spec_alias_candidates(self.aliases@.subrange(0, k as int), key_id@, p.cursor),
            decreases self.aliases@.len() - k,
        {
            let a = &self.aliases[k];
            proof {
                assert(self.aliases@.subrange(0, k + 1) =~= self.aliases@.subrange(
                    0,
                    k as int,
                ).push(self.aliases@[k as int]));
                self.aliases@.subrange(0, k as int).lemma_filter_push(
                    self.aliases@[k as int],
                    |x: KeyAliasModel| x.key_id@ == key_id@ && spec_after_cursor(x.id, p.cursor),
                );
            }
            let after = match p.cursor {
                Some(c) => a.id > c,
                None => true,
            };
            if str_eq(a.key_id.as_str(), key_id) && after {
                all.push(a.clone());
            }
            k += 1;
        }
        proof {
            assert(self.aliases@.subrange(0, self.aliases@.len() as int) =~= self.aliases@);
        }
        let take = if p.limit < all.len() {
            p.limit
        } else {
            all.len()
        };
        let mut items: Vec<KeyAliasModel> = Vec::new();
        let mut i: usize = 0;
        while i < take
            invariant
                0 <= i <= take,
                take == (if p.limit < all@.len() {
                    p.limit as int
                } else {
                    all@.len() as int
                }),
                items@ == all@.subrange(0, i as int),
            decreases take - i,
        {
            proof {
                assert(all@.subrange(0, i + 1) =~= all@.subrange(0, i as int).push(
                    all@[i as int],
                ));
            }
            items.push(all[i].clone());
            i += 1;
        }
        proof {
            if all@.len() <= p.limit {
                assert(all@.subrange(0, all@.len() as int) =~= all@);
            }
        }
        let next_cursor = if all.len() > p.limit && p.limit > 0 {
            Some(all[p.limit - 1].id)
        } else {
            None
        };
        Page { items, next_cursor }
    }

    /// One version page for a key; see [`Self::pagin_key_alias`] for the
    /// page shape.
    pub fn pagin_key_meta(&self, key_id: &str, p: &Paginator) -> (r: Page<KeyMetaModel>)
        ensures
            spec_page_items(
                spec_meta_candidates(self.meta_views(), key_id@, p.cursor),
                metas_view(r.items@),
                p.limit,
            ),
            spec_page_cursor(
                spec_meta_candidates(self.meta_views(), key_id@, p.cursor),
                r.next_cursor,
                p.limit,
            ),
    {
        let ghost mv = self.meta_views();
        let mut all: Vec<KeyMetaModel> = Vec::new();
        let mut k: usize = 0;
        while k < self.metas.len()
            invariant
                0 <= k <= self.metas@.len(),
                mv == self.meta_views(),
                metas_view(all@) == spec_meta_candidates(mv.subrange(0, k as int), key_id@, p.cursor),
            decreases self.metas@.len() - k,
        {
            let m = &self.metas[k];
            proof {
                assert(metas_view(self.metas@)[k as int] == self.metas@[k as int]@);
                assert(mv.subrange(0, k + 1) =~= mv.subrange(0, k as int).push(mv[k as int]));
                mv.subrange(0, k as int).lemma_filter_push(
                    mv[k as int],
                    |x: KeyMetaView| x.key_id == key_id@ && spec_after_cursor_at(x.id, p.cursor),
                );
            }
            let after = match p.cursor {
                Some(c) => m.id > c,
                None => true,
            };
            if str_eq(m.key_id.as_str(), key_id) && after {
                all.push(m.clone());
                proof {
                    assert(metas_view(all@) =~= metas_view(all@.drop_last()).push(all@.last()@));
                }
            }
            k += 1;
        }
        proof {
            assert(mv.subrange(0, mv.len() as int) =~= mv);
        }
        let take = if p.limit < all.len() {
            p.limit
        } else {
            all.len()
        };
        let mut items: Vec<KeyMetaModel> = Vec::new();
        let mut i: usize = 0;
        while i < take
            invariant
                0 <= i <= take,
                take == (if p.limit < all@.len() {
                    p.limit as int
                } else {
                    all@.len() as int
                }),
                metas_view(items@) == metas_view(all@).subrange(0, i as int),
            decreases take - i,
        {
            proof {
                assert(metas_view(all@).subrange(0, i + 1) =~= metas_view(all@).subrange(
                    0,
                    i as int,
                ).push(metas_view(all@)[i as int]));
                assert(metas_view(all@)[i as int] == all@[i as int]@);
            }
            items.push(all[i].clone());
            proof {
                assert(metas_view(items@) =~= metas_view(items@.drop_last()).push(items@.last()@));
            }
            i += 1;
        }
        proof {
            if all@.len() <= p.limit {
                assert(metas_view(all@).subrange(0, all@.len() as int) =~= metas_view(all@));
            } else if p.limit > 0 {
                assert(metas_view(all@)[p.limit - 1] == all@[p.limit - 1]@);
            }
        }
        let next_cursor = if all.len() > p.limit && p.limit > 0 {
            Some(all[p.limit - 1].id)
        } else {
            None
        };
        Page { items, next_cursor }
    }

    /// One key-summary page for a service instance: of each key the row
    /// designated primary (or the sole uncommitted row of a key still
    /// pending import); see [`Self::pagin_key_alias`] for the page shape.
    pub fn pagin_kms_keys(&self, kms_id: &str, p: &Paginator) -> (r: Page<KeyMetaModel>)
        ensures
            spec_page_items(
                spec_kms_candidates(self.meta_views(), kms_id@, p.cursor),
                metas_view(r.items@),
                p.limit,
            ),
            spec_page_cursor(
                spec_kms_candidates(self.meta_views(), kms_id@, p.cursor),
                r.next_cursor,
                p.limit,
            ),
    {
        let ghost mv = self.meta_views();
        let mut all: Vec<KeyMetaModel> = Vec::new();
        let mut k: usize = 0;
        while k < self.metas.len()
            invariant
                0 <= k <= self.metas@.len(),
                mv == self.meta_views(),
                metas_view(all@) == spec_kms_candidates(mv.subrange(0, k as int), kms_id@, p.cursor),
            decreases self.metas@.len() - k,
        {
            let m = &self.metas[k];
            proof {
                assert(metas_view(self.metas@)[k as int] == self.metas@[k as int]@);
                assert(mv.subrange(0, k + 1) =~= mv.subrange(0, k as int).push(mv[k as int]));
                mv.subrange(0, k as int).lemma_filter_push(
                    mv[k as int],
                    |x: KeyMetaView| x.kms_id == kms_id@ && (x.version == x.primary_version
                        || x.primary_version.len() == 0) && spec_after_cursor_at(x.id, p.cursor),
                );
            }
            let after = match p.cursor {
                Some(c) => m.id > c,
                None => true,
            };
            let summary = str_eq(m.version.as_str(), m.primary_version.as_str())
                || m.primary_version.as_str().unicode_len() == 0;
            if str_eq(m.kms_id.as_str(), kms_id) && summary && after {
                all.push(m.clone());
                proof {
                    assert(metas_view(all@) =~= metas_view(all@.drop_last()).push(all@.last()@));
                }
            }
            k += 1;
        }
        proof {
            assert(mv.subrange(0, mv.len() as int) =~= mv);
        }
        let take = if p.limit < all.len() {
            p.limit
        } else {
            all.len()
        };
        let mut items: Vec<KeyMetaModel> = Vec::new();
        let mut i: usize = 0;
        while i < take
            invariant
                0 <= i <= take,
                take == (if p.limit < all@.len() {
                    p.limit as int
                } else {
                    all@.len() as int
                }),
                metas_view(items@) == metas_view(all@).subrange(0, i as int),
            decreases take - i,
        {
            proof {
                assert(metas_view(all@).subrange(0, i + 1) =~= metas_view(all@).subrange(
                    0,
                    i as int,
                ).push(metas_view(all@)[i as int]));
                assert(metas_view(all@)[i as int] == all@[i as int]@);
            }
            items.push(all[i].clone());
            proof {
                assert(metas_view(items@) =~= metas_view(items@.drop_last()).push(items@.last()@));
            }
            i += 1;
        }
        proof {
            if all@.len() <= p.limit {
                assert(metas_view(all@).subrange(0, all@.len() as int) =~= metas_view(all@));
            } else if p.limit > 0 {
                assert(metas_view(all@)[p.limit - 1] == all@[p.limit - 1]@);
            }
        }
        let next_cursor = if all.len() > p.limit && p.limit > 0 {
            Some(all[p.limit - 1].id)
        } else {
            None
        };
        Page { items, next_cursor }
    }
}

/// A row's view rewritten by an upsert: the stored surrogate identifier is
/// kept, every other attribute comes from the incoming row.
pub open spec fn spec_upserted_meta(pre: KeyMetaView, m: KeyMetaView) -> KeyMetaView {
    KeyMetaView { id: pre.id, ..m }
}

/// Exact effect of a version upsert on the store: a row carrying the same
/// `(key, version)` pair is rewritten in place, otherwise the row is
/// appended under the next fresh identifier.
pub open spec fn spec_upsert_meta_post(pre: KeyMetaStore, post: KeyMetaStore, m: KeyMetaView) -> bool {
    if spec_has_version(pre.meta_views(), m.key_id, m.version) {
        let i = spec_version_idx(pre.meta_views(), m.key_id, m.version);
        &&& post.meta_views() == pre.meta_views().update(i, spec_upserted_meta(
            pre.meta_views()[i],
            m,
        ))
        &&& post.next_meta_id == pre.next_meta_id
    } else {
        &&& post.meta_views() == pre.meta_views().push(
            KeyMetaView { id: pre.next_meta_id as int, ..m },
        )
        &&& post.next_meta_id == pre.next_meta_id + 1
    }
}

/// Whether a view row's identifier lies after the cursor.
pub open spec fn spec_after_cursor_at(id: int, cursor: Option<i64>) -> bool {
    match cursor {
        Option::None => true,
        Option::Some(c) => id > c,
    }
}

/// Alias rows a page request for one key considers, in order.
pub open spec fn spec_alias_candidates(
    s: Seq<KeyAliasModel>,
    key: Seq<char>,
    cursor: Option<i64>,
) -> Seq<KeyAliasModel> {
    s.filter(|x: KeyAliasModel| x.key_id@ == key && spec_after_cursor(x.id, cursor))
}

/// Version rows a page request for one key considers, in order.
pub open spec fn spec_meta_candidates(
    s: Seq<KeyMetaView>,
    key: Seq<char>,
    cursor: Option<i64>,
) -> Seq<KeyMetaView> {
    s.filter(|x: KeyMetaView| x.key_id == key && spec_after_cursor_at(x.id, cursor))
}

/// Key-summary rows a page request for a service instance considers: of
/// each key its primary row, or its sole uncommitted row while the key is
/// still pending import.
pub open spec fn spec_kms_candidates(
    s: Seq<KeyMetaView>,
    kms: Seq<char>,
    cursor: Option<i64>,
) -> Seq<KeyMetaView> {
    s.filter(
        |x: KeyMetaView| x.kms_id == kms && (x.version == x.primary_version
            || x.primary_version.len() == 0) && spec_after_cursor_at(x.id, cursor),
    )
}

/// Continuation cursor of a view-row page: the identifier of the last
/// returned row exactly while rows remain and the page is not empty.
pub open spec fn spec_page_cursor(
    candidates: Seq<KeyMetaView>,
    next_cursor: Option<i64>,
    limit: usize,
) -> bool {
    if candidates.len() > limit && limit > 0 {
        &&& next_cursor matches Option::Some(c)
        &&& (next_cursor matches Option::Some(c) ==> c == candidates[limit - 1].id)
    } else {
        next_cursor matches Option::None
    }
}

/// Loop relation of the paging scan: the collected rows are the candidate
/// prefix clipped to the page size, and `has_more` records whether the
/// prefix overflowed it.
pub open spec fn spec_page_loop_inv<T>(
    candidates: Seq<T>,
    items: Seq<T>,
    has_more: bool,
    limit: usize,
) -> bool {
    &&& items == (if candidates.len() <= limit {
        candidates
    } else {
        candidates.subrange(0, limit as int)
    })
    &&& has_more == (candidates.len() > limit)
}

/// Shape of a returned page's rows: the candidate rows clipped to the page
/// size.
pub open spec fn spec_page_items<T>(candidates: Seq<T>, items: Seq<T>, limit: usize) -> bool {
    items == (if candidates.len() <= limit {
        candidates
    } else {
        candidates.subrange(0, limit as int)
    })
}

// ---------------------------------------------------------------------------
// Filter preservation lemmas
// ---------------------------------------------------------------------------

/// Every element of a filtered sequence occurs in the original.
pub(crate) proof fn lemma_filter_elems<A>(s: Seq<A>, pred: spec_fn(A) -> bool)
    ensures
        forall|i: int| #![trigger s.filter(pred)[i]]
            0 <= i < s.filter(pred).len() ==> exists|j: int| #![trigger s[j]]
                0 <= j < s.len() && s[j] == s.filter(pred)[i],
    decreases s.len(),
{
    reveal(Seq::filter);
    if s.len() > 0 {
        let t = s.drop_last();
        lemma_filter_elems(t, pred);
        assert forall|i: int| #![trigger s.filter(pred)[i]]
            0 <= i < s.filter(pred).len() implies exists|j: int| #![trigger s[j]]
            0 <= j < s.len() && s[j] == s.filter(pred)[i] by {
            if pred(s.last()) {
                if i < s.filter(pred).len() - 1 {
                    assert(s.filter(pred)[i] == t.filter(pred)[i]);
                    let j = choose|j: int| 0 <= j < t.len() && t[j] == t.filter(pred)[i];
                    assert(s[j] == s.filter(pred)[i]);
                } else {
                    assert(s[s.len() - 1] == s.filter(pred)[i]);
                }
            } else {
                let j = choose|j: int| 0 <= j < t.len() && t[j] == t.filter(pred)[i];
                assert(s[j] == s.filter(pred)[i]);
            }
        }
    }
}

/// Filtering an alias table keeps it well formed: identifiers still grow,
/// alias strings stay unique, and the identifier bound still holds.
proof fn lemma_alias_filter_keeps_wf(
    s: Seq<KeyAliasModel>,
    pred: spec_fn(KeyAliasModel) -> bool,
    bound: i64,
)
    requires
        alias_ids_increasing(s),
        alias_strings_unique(s),
        alias_ids_below(s, bound),
    ensures
        alias_ids_increasing(s.filter(pred)),
        alias_strings_unique(s.filter(pred)),
        alias_ids_below(s.filter(pred), bound),
    decreases s.len(),
{
    reveal(Seq::filter);
    lemma_filter_elems(s, pred);
    if s.len() > 0 {
        let t = s.drop_last();
        lemma_alias_filter_keeps_wf(t, pred, bound);
        lemma_filter_elems(t, pred);
        let f = s.filter(pred);
        if pred(s.last()) {
            assert(f == t.filter(pred).push(s.last()));
            assert forall|x: int, y: int| 0 <= x < y < f.len() implies f[x].id < f[y].id by {
                if y < f.len() - 1 {
                    assert(t.filter(pred)[x].id < t.filter(pred)[y].id);
                } else {
                    let j = choose|j: int| 0 <= j < t.len() && t[j] == t.filter(pred)[x];
                    assert(s[j].id < s.last().id);
                }
            }
            assert forall|x: int, y: int|
                0 <= x < y < f.len() implies f[x].alias@ != f[y].alias@ by {
                if y < f.len() - 1 {
                    assert(t.filter(pred)[x].alias@ != t.filter(pred)[y].alias@);
                } else {
                    let j = choose|j: int| 0 <= j < t.len() && t[j] == t.filter(pred)[x];
                    assert(s[j].alias@ != s.last().alias@);
                }
            }
            assert forall|x: int| 0 <= x < f.len() implies f[x].id < bound by {
                let j = choose|j: int| 0 <= j < s.len() && s[j] == f[x];
                assert(s[j].id < bound);
            }
        }
    }
}

/// Whether a delete request for `key` restricted to the alias strings `fs`
/// removes row `a` (an empty restriction removes every alias of the key).
pub open spec fn spec_alias_removed(a: KeyAliasModel, key: Seq<char>, fs: Seq<String>) -> bool {
    a.key_id@ == key && (fs.len() == 0 || exists|i: int| 0 <= i < fs.len() && fs[i]@ == a.alias@)
}

/// The alias table after a delete request: exactly the rows the request
/// does not name survive, in order.
pub open spec fn spec_delete_aliases(
    s: Seq<KeyAliasModel>,
    key: Seq<char>,
    fs: Seq<String>,
) -> Seq<KeyAliasModel> {
    s.filter(|a: KeyAliasModel| !spec_alias_removed(a, key, fs))
}

/// Relation between an alias row and its relinked form: same identifier,
/// same alias string, new key, refreshed update timestamp.
pub open spec fn spec_relinked(
    pre: KeyAliasModel,
    post: KeyAliasModel,
    key: Seq<char>,
    now: u64,
) -> bool {
    &&& post.id == pre.id
    &&& post.alias == pre.alias
    &&& post.key_id@ == key
    &&& post.created_at == pre.created_at
    &&& post.updated_at == now
}

/// A freshly appended alias row.
pub open spec fn spec_fresh_alias(
    row: KeyAliasModel,
    id: i64,
    key: Seq<char>,
    alias: Seq<char>,
    now: u64,
) -> bool {
    &&& row.id == id
    &&& row.key_id@ == key
    &&& row.alias@ == alias
    &&& row.created_at == now
    &&& row.updated_at == now
}

/// Exact effect of an alias upsert on the store: when the alias string is
/// already owned by some row, that row alone is relinked; otherwise one
/// fresh row is appended.  The version table is untouched either way.
pub open spec fn spec_set_alias_post(
    pre: KeyMetaStore,
    post: KeyMetaStore,
    key: Seq<char>,
    alias: Seq<char>,
    now: u64,
) -> bool {
    &&& post.metas == pre.metas
    &&& post.next_meta_id == pre.next_meta_id
    &&& if spec_has_alias(pre.aliases@, alias) {
        let i = spec_alias_idx(pre.aliases@, alias);
        &&& post.aliases@.len() == pre.aliases@.len()
        &&& forall|j: int|
            0 <= j < pre.aliases@.len() && j != i ==> post.aliases@[j] == pre.aliases@[j]
        &&& spec_relinked(pre.aliases@[i], post.aliases@[i], key, now)
        &&& post.next_alias_id == pre.next_alias_id
    } else {
        &&& post.aliases@.len() == pre.aliases@.len() + 1
        &&& post.aliases@.subrange(0, pre.aliases@.len() as int) == pre.aliases@
        &&& spec_fresh_alias(post.aliases@.last(), pre.next_alias_id, key, alias, now)
        &&& post.next_alias_id == pre.next_alias_id + 1
    }
}

} // verus!
