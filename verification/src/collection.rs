//! User-curated asset collections and favorites.

use vstd::prelude::*;

use crate::ids::{is_v4, AssetId, CollectionId};
use crate::text::{is_blank, trim};

verus! {

/// Membership after adding `asset`: unchanged when already present, else appended.
pub open spec fn with_member(s: Seq<AssetId>, asset: AssetId) -> Seq<AssetId> {
    if s.contains(asset) {
        s
    } else {
        s.push(asset)
    }
}

/// Membership with every occurrence of `asset` removed, order kept.
pub open spec fn without_member(s: Seq<AssetId>, asset: AssetId) -> Seq<AssetId>
    decreases s.len(),
{
    if s.len() == 0 {
        s
    } else if s.last() == asset {
        without_member(s.drop_last(), asset)
    } else {
        without_member(s.drop_last(), asset).push(s.last())
    }
}

/// A named set of library assets.
#[derive(Clone, Debug, PartialEq, Eq)]
pub struct Collection {
    /// Stable identity.
    pub id: CollectionId,
    /// User-visible name.
    pub name: String,
    /// Ordered membership.
    pub asset_ids: Vec<AssetId>,
}

impl Collection {
    /// Creates an empty collection.
    pub fn new(name: &str) -> (r: Self)
        ensures
            is_v4(r.id.0),
            r.name@ == name@,
            r.asset_ids@.len() == 0,
    {
        Collection { id: CollectionId::new(), name: name.to_owned(), asset_ids: Vec::new() }
    }

    /// Validates name invariants.
    pub fn validate(&self) -> (r: Result<(), CollectionError>)
        ensures
            r == (if trim(self.name@).len() == 0 {
                Err(CollectionError::EmptyName)
            } else {
                Ok(())
            }),
    {
        if is_blank(self.name.as_str()) {
            return Err(CollectionError::EmptyName);
        }
        Ok(())
    }

    /// Appends an asset when it is not already a member.
    pub fn add_asset(&mut self, asset_id: AssetId)
        ensures
            final(self).asset_ids@ == with_member(old(self).asset_ids@, asset_id),
            final(self).id == old(self).id,
            final(self).name == old(self).name,
    {
        let mut i: usize = 0;
        while i < self.asset_ids.len()
            invariant
                i <= self.asset_ids@.len(),
                forall|k: int| 0 <= k < i ==> self.asset_ids@[k] != asset_id,
            decreases self.asset_ids@.len() - i,
        {
            if self.asset_ids[i] == asset_id {
                assert(self.asset_ids@.contains(asset_id)) by {
                    assert(self.asset_ids@[i as int] == asset_id);
                }
                return;
            }
            i = i + 1;
        }
        self.asset_ids.push(asset_id);
    }

    /// Removes an asset when present.
    pub fn remove_asset(&mut self, asset_id: AssetId)
        ensures
            final(self).asset_ids@ == without_member(old(self).asset_ids@, asset_id),
            final(self).id == old(self).id,
            final(self).name == old(self).name,
    {
        let mut kept: Vec<AssetId> = Vec::new();
        let mut i: usize = 0;
        while i < self.asset_ids.len()
            invariant
                i <= self.asset_ids@.len(),
                kept@ == without_member(self.asset_ids@.subrange(0, i as int), asset_id),
            decreases self.asset_ids@.len() - i,
        {
            let ghost prefix = self.asset_ids@.subrange(0, i + 1);
            assert(prefix.drop_last() =~= self.asset_ids@.subrange(0, i as int));
            let id = self.asset_ids[i];
            if id != asset_id {
                kept.push(id);
            }
            i = i + 1;
        }
        assert(self.asset_ids@.subrange(0, self.asset_ids@.len() as int) =~= self.asset_ids@);
        self.asset_ids = kept;
    }
}

/// Adding an asset twice is the same as adding it once.
pub proof fn lemma_add_idempotent(s: Seq<AssetId>, asset: AssetId)
    ensures
        with_member(with_member(s, asset), asset) == with_member(s, asset),
        with_member(s, asset).contains(asset),
{
    if !s.contains(asset) {
        assert(s.push(asset)[s.len() as int] == asset);
    }
}

/// Removal leaves no occurrence of the asset and keeps every other member.
pub proof fn lemma_remove_member(s: Seq<AssetId>, asset: AssetId)
    ensures
        !without_member(s, asset).contains(asset),
        forall|x: AssetId| x != asset ==> (s.contains(x) <==> without_member(s, asset).contains(x)),
        !s.contains(asset) ==> without_member(s, asset) == s,
    decreases s.len(),
{
    if s.len() > 0 {
        let init = s.drop_last();
        lemma_remove_member(init, asset);
        let w = without_member(init, asset);
        assert forall|x: AssetId| x != asset implies (s.contains(x) <==> without_member(s, asset).contains(x)) by {
            if s.contains(x) {
                let k = choose|k: int| 0 <= k < s.len() && s[k] == x;
                if k < s.len() - 1 {
                    assert(init[k] == x);
                    assert(init.contains(x));
                    assert(w.contains(x));
                    let m = choose|m: int| 0 <= m < w.len() && w[m] == x;
                    if s.last() == asset {
                        assert(without_member(s, asset) == w);
                    } else {
                        assert(without_member(s, asset) == w.push(s.last()));
                        assert(w.push(s.last())[m] == x);
                    }
                } else {
                    assert(without_member(s, asset) == w.push(s.last()));
                    assert(w.push(s.last())[w.len() as int] == x);
                }
            }
            if without_member(s, asset).contains(x) {
                if s.last() != asset {
                    let k = choose|k: int| 0 <= k < w.len() + 1 && w.push(s.last())[k] == x;
                    if k < w.len() {
                        assert(w[k] == x);
                        assert(w.contains(x));
                        assert(init.contains(x));
                        let m = choose|m: int| 0 <= m < init.len() && init[m] == x;
                        assert(s[m] == x);
                    } else {
                        assert(s[s.len() - 1] == x);
                    }
                } else {
                    assert(without_member(s, asset) == w);
                    assert(init.contains(x));
                    let m = choose|m: int| 0 <= m < init.len() && init[m] == x;
                    assert(s[m] == x);
                }
            }
        }
        if s.last() != asset {
            assert(!w.push(s.last()).contains(asset)) by {
                if w.push(s.last()).contains(asset) {
                    let k = choose|k: int| 0 <= k < w.len() + 1 && w.push(s.last())[k] == asset;
                    if k < w.len() {
                        assert(w[k] == asset);
                    }
                }
            }
        }
        if !s.contains(asset) {
            assert(!init.contains(asset)) by {
                if init.contains(asset) {
                    let k = choose|k: int| 0 <= k < init.len() && init[k] == asset;
                    assert(s[k] == asset);
                }
            }
            assert(s.last() != asset) by {
                assert(s[s.len() - 1] == s.last());
            }
            assert(without_member(s, asset) =~= s);
        }
    }
}

/// Adding an absent asset and removing it again restores the membership.
pub proof fn lemma_add_then_remove(s: Seq<AssetId>, asset: AssetId)
    requires
        !s.contains(asset),
    ensures
        without_member(with_member(s, asset), asset) == s,
{
    let p = s.push(asset);
    assert(p.drop_last() =~= s);
    lemma_remove_member(s, asset);
}

/// Invalid collection.
#[derive(Clone, Copy, Debug, PartialEq, Eq, Structural)]
pub enum CollectionError {
    /// Collection names must contain visible characters.
    EmptyName,
}

} // verus!
