//! Cross-operation laws of the service, stated and proved over the same
//! spec functions the operations' own contracts use.

use vstd::prelude::*;

use crate::models::{KeyAliasModel, KeyMetaView};
use crate::service::Kms;
use crate::store::{
    lemma_filter_elems, spec_aliases_of, spec_has_alias, spec_rewrite_state, spec_set_alias_post,
    KeyMetaStore,
};
use crate::types::{spec_can_transition, KeyState};

verus! {

/// Read-after-write for aliases: when an alias upsert for a key has gone
/// through the store and the key's alias-cache entry is invalidated, the
/// alias list any later read observes for that key contains the new alias
/// — regardless of when the read happens.
pub proof fn lemma_alias_read_after_write(
    pre: Kms,
    post: Kms,
    key: Seq<char>,
    alias: Seq<char>,
    now: u64,
    later: u64,
)
    requires
        pre.store.wf(),
        spec_set_alias_post(pre.store, post.store, key, alias, now),
        !post.alias_cache.has_key(key),
    ensures
        exists|i: int|
            0 <= i < post.spec_visible_aliases(key, later).len() && post.spec_visible_aliases(
                key,
                later,
            )[i].alias@ == alias && post.spec_visible_aliases(key, later)[i].key_id@ == key,
{
    broadcast use vstd::seq_lib::group_filter_ensures;

    assert(!post.alias_cache.lookup_hit(key, later));
    let s = post.store.aliases@;
    if spec_has_alias(pre.store.aliases@, alias) {
        let i = crate::store::spec_alias_idx(pre.store.aliases@, alias);
        assert(s[i].key_id@ == key && s[i].alias@ == alias);
        assert(spec_aliases_of(s, key).contains(s[i]));
        let j = choose|j: int| 0 <= j < spec_aliases_of(s, key).len() && spec_aliases_of(s, key)[j]
            == s[i];
        assert(0 <= j < post.spec_visible_aliases(key, later).len() && post.spec_visible_aliases(
            key,
            later,
        )[j].alias@ == alias && post.spec_visible_aliases(key, later)[j].key_id@ == key);
    } else {
        let i = s.len() - 1;
        assert(s[i].key_id@ == key && s[i].alias@ == alias);
        assert(spec_aliases_of(s, key).contains(s[i]));
        let j = choose|j: int| 0 <= j < spec_aliases_of(s, key).len() && spec_aliases_of(s, key)[j]
            == s[i];
        assert(0 <= j < post.spec_visible_aliases(key, later).len() && post.spec_visible_aliases(
            key,
            later,
        )[j].alias@ == alias && post.spec_visible_aliases(key, later)[j].key_id@ == key);
    }
}

/// Last writer wins for aliases: after an alias string is upserted for a
/// key, every row carrying that string points at this key — so a lookup of
/// the alias resolves to the new owner, and no other key's alias list
/// contains the string any more.
pub proof fn lemma_alias_upsert_relinks(
    pre: KeyMetaStore,
    post: KeyMetaStore,
    key: Seq<char>,
    alias: Seq<char>,
    now: u64,
)
    requires
        pre.wf(),
        spec_set_alias_post(pre, post, key, alias, now),
    ensures
        spec_has_alias(post.aliases@, alias),
        forall|i: int|
            0 <= i < post.aliases@.len() && post.aliases@[i].alias@ == alias
                ==> post.aliases@[i].key_id@ == key,
        forall|k2: Seq<char>, i: int|
            k2 != key && 0 <= i < spec_aliases_of(post.aliases@, k2).len() ==> spec_aliases_of(
                post.aliases@,
                k2,
            )[i].alias@ != alias,
{
    broadcast use vstd::seq_lib::group_filter_ensures;

    let s = post.aliases@;
    if spec_has_alias(pre.aliases@, alias) {
        let w = crate::store::spec_alias_idx(pre.aliases@, alias);
        assert(s[w].alias@ == alias);
        assert forall|i: int|
            0 <= i < s.len() && s[i].alias@ == alias implies s[i].key_id@ == key by {
            if i != w {
                assert(pre.aliases@[i].alias@ == alias);
                assert(pre.aliases@[w].alias@ == alias);
                if i < w {
                    assert(pre.aliases@[i].alias@ != pre.aliases@[w].alias@);
                } else {
                    assert(pre.aliases@[w].alias@ != pre.aliases@[i].alias@);
                }
            }
        }
    } else {
        let w = s.len() - 1;
        assert(s[w].alias@ == alias);
        assert forall|i: int|
            0 <= i < s.len() && s[i].alias@ == alias implies s[i].key_id@ == key by {
            if i != w {
                assert(pre.aliases@[i] == s[i]);
                assert(spec_has_alias(pre.aliases@, alias));
            }
        }
    }
    assert forall|k2: Seq<char>, i: int|
        k2 != key && 0 <= i < spec_aliases_of(s, k2).len() implies spec_aliases_of(s, k2)[i].alias@
        != alias by {
        lemma_filter_elems(s, |a: KeyAliasModel| a.key_id@ == k2);
        let j = choose|j: int| 0 <= j < s.len() && s[j] == spec_aliases_of(s, k2)[i];
        if spec_aliases_of(s, k2)[i].alias@ == alias {
            assert(s[j].alias@ == alias);
            assert(s[j].key_id@ == key);
            assert(spec_aliases_of(s, k2)[i].key_id@ == k2);
        }
    }
}

/// Round trip of the lifecycle: the matrix allows disabling an enabled key
/// and re-enabling it, and rewriting a key's rows to `Disabled` and then
/// to `Enabled` leaves every row of the key enabled and every other row
/// untouched.
pub proof fn lemma_disable_enable_round_trip(
    mv: Seq<KeyMetaView>,
    key: Seq<char>,
    t1: u64,
    t2: u64,
)
    ensures
        spec_can_transition(KeyState::Enabled, KeyState::Disabled),
        spec_can_transition(KeyState::Disabled, KeyState::Enabled),
        ({
            let back = spec_rewrite_state(
                spec_rewrite_state(mv, key, KeyState::Disabled, t1),
                key,
                KeyState::Enabled,
                t2,
            );
            &&& back.len() == mv.len()
            &&& forall|i: int|
                0 <= i < mv.len() && mv[i].key_id == key ==> back[i].state == KeyState::Enabled
            &&& forall|i: int| 0 <= i < mv.len() && mv[i].key_id != key ==> back[i] == mv[i]
        }),
{
    let mid = spec_rewrite_state(mv, key, KeyState::Disabled, t1);
    let back = spec_rewrite_state(mid, key, KeyState::Enabled, t2);
    assert forall|i: int|
        0 <= i < mv.len() && mv[i].key_id != key implies back[i] == mv[i] by {
        assert(mid[i] == mv[i]);
    }
    assert forall|i: int|
        0 <= i < mv.len() && mv[i].key_id == key implies back[i].state == KeyState::Enabled by {
        assert(mid[i].key_id == key);
    }
}

} // verus!
