//! The block and version store a gateway runs over: blocks addressed by
//! content identifier, and one current-tip version pointer per sphere
//! identity.

use vstd::prelude::*;

use crate::alist::alist_get;
use crate::alist::alist_put;
use crate::alist::lemma_alist_get_first_match;
use crate::alist::lemma_alist_get_none;
use crate::alist::lemma_alist_get_push;
use crate::alist::lemma_alist_get_update;
use crate::alist::lemma_alist_put_push;
use crate::alist::lemma_alist_put_update;
use crate::data::Cid;
use crate::data::Did;
use crate::revision::block_pairs_view;
use crate::revision::did_cid_get;
use crate::revision::did_cid_set;
use crate::revision::did_cid_view;
use crate::revision::Bundle;
use crate::revision::Revision;
use crate::revision::RevisionView;

verus! {

/// An error raised by the store itself.
#[derive(Clone, Copy, PartialEq, Eq, Structural, Debug)]
pub enum StoreError {
    /// A version pointer that was required but is not recorded.
    NotFound,
    /// No unused content identifier is left to assign.
    Full,
}

/// The value bound to `k` by the last pair that bears it, if any: the net
/// effect of loading the pairs into a store one after the other.
pub open spec fn last_entry<K, V>(s: Seq<(K, V)>, k: K) -> Option<V>
    decreases s.len(),
{
    if s.len() == 0 {
        None
    } else {
        match s.last() {
            (key, value) => if key == k {
                Some(value)
            } else {
                last_entry(s.drop_last(), k)
            },
        }
    }
}

/// The blocks of a store after loading `pairs` into it one after the other.
pub open spec fn load_fold(
    blocks: Seq<(Cid, RevisionView)>,
    pairs: Seq<(Cid, RevisionView)>,
) -> Seq<(Cid, RevisionView)>
    decreases pairs.len(),
{
    if pairs.len() == 0 {
        blocks
    } else {
        load_fold(alist_put(blocks, pairs[0].0, pairs[0].1), pairs.skip(1))
    }
}

/// Loading one more pair is one more put.
pub proof fn lemma_load_fold_push(
    blocks: Seq<(Cid, RevisionView)>,
    pairs: Seq<(Cid, RevisionView)>,
    p: (Cid, RevisionView),
)
    ensures
        load_fold(blocks, pairs.push(p)) == alist_put(load_fold(blocks, pairs), p.0, p.1),
    decreases pairs.len(),
{
    if pairs.len() == 0 {
        assert(pairs.push(p)[0] == p);
        assert(pairs.push(p).skip(1) =~= Seq::<(Cid, RevisionView)>::empty());
        assert(load_fold(blocks, pairs.push(p)) == load_fold(
            alist_put(blocks, p.0, p.1),
            pairs.push(p).skip(1),
        ));
        assert(load_fold(alist_put(blocks, p.0, p.1), pairs.push(p).skip(1)) == alist_put(
            blocks,
            p.0,
            p.1,
        ));
        assert(load_fold(blocks, pairs) == blocks);
    } else {
        assert(pairs.push(p)[0] == pairs[0]);
        assert(pairs.push(p).skip(1) =~= pairs.skip(1).push(p));
        let stepped = alist_put(blocks, pairs[0].0, pairs[0].1);
        lemma_load_fold_push(stepped, pairs.skip(1), p);
        assert(load_fold(blocks, pairs.push(p)) == load_fold(stepped, pairs.skip(1).push(p)));
        assert(load_fold(blocks, pairs) == load_fold(stepped, pairs.skip(1)));
    }
}

/// The largest content identifier a block is stored under, or zero when no
/// block is.
pub open spec fn max_cid_key(s: Seq<(Cid, RevisionView)>) -> u64
    decreases s.len(),
{
    if s.len() == 0 {
        0
    } else {
        let rest = max_cid_key(s.drop_last());
        if s.last().0.0 > rest {
            s.last().0.0
        } else {
            rest
        }
    }
}

/// Every stored content identifier is at most [`max_cid_key`].
pub proof fn lemma_max_cid_key_bound(s: Seq<(Cid, RevisionView)>)
    ensures
        forall|j: int| 0 <= j < s.len() ==> s[j].0.0 <= max_cid_key(s),
    decreases s.len(),
{
    if s.len() > 0 {
        lemma_max_cid_key_bound(s.drop_last());
        assert forall|j: int| 0 <= j < s.len() implies s[j].0.0 <= max_cid_key(s) by {
            if j < s.len() - 1 {
                assert(s.drop_last()[j] == s[j]);
            }
        }
    }
}

/// The mathematical form of a store: its blocks and its version pointers,
/// each an association list.
pub ghost struct DbView {
    pub blocks: Seq<(Cid, RevisionView)>,
    pub versions: Seq<(Seq<char>, Cid)>,
}

/// A sphere database: content-addressed blocks, and the current tip version
/// recorded per sphere identity.
pub struct SphereDb {
    pub blocks: Vec<(Cid, Revision)>,
    pub versions: Vec<(Did, Cid)>,
}

impl View for SphereDb {
    type V = DbView;

    open spec fn view(&self) -> DbView {
        DbView {
            blocks: block_pairs_view(self.blocks@),
            versions: did_cid_view(self.versions@),
        }
    }
}

impl SphereDb {
    /// An empty store.
    pub fn new() -> (r: SphereDb)
        ensures
            r@.blocks =~= Seq::<(Cid, RevisionView)>::empty(),
            r@.versions =~= Seq::<(Seq<char>, Cid)>::empty(),
    {
        SphereDb { blocks: Vec::new(), versions: Vec::new() }
    }

    /// The recorded current tip of the sphere named by `identity`, if any.
    pub fn get_version(&self, identity: &Did) -> (r: Option<Cid>)
        ensures
            r == alist_get(self@.versions, identity@),
    {
        did_cid_get(&self.versions, identity)
    }

    /// The recorded current tip of the sphere named by `identity`; an error
    /// exactly when none is recorded.
    pub fn require_version(&self, identity: &Did) -> (r: Result<Cid, StoreError>)
        ensures
            match r {
                Ok(version) => alist_get(self@.versions, identity@) == Some(version),
                Err(e) => e == StoreError::NotFound && alist_get(self@.versions, identity@)
                    is None,
            },
    {
        match did_cid_get(&self.versions, identity) {
            Some(version) => Ok(version),
            None => Err(StoreError::NotFound),
        }
    }

    /// Records `version` as the current tip of the sphere named by
    /// `identity`, replacing any earlier record. Blocks are untouched.
    pub fn set_version(&mut self, identity: &Did, version: &Cid)
        ensures
            final(self)@.blocks == old(self)@.blocks,
            final(self)@.versions == alist_put(old(self)@.versions, identity@, *version),
            forall|k: Seq<char>|
                alist_get(final(self)@.versions, k) == (if k == identity@ {
                    Some(*version)
                } else {
                    alist_get(old(self)@.versions, k)
                }),
    {
        did_cid_set(&mut self.versions, identity, version);
    }

    /// The block stored under `cid`, if any.
    pub fn get_block(&self, cid: &Cid) -> (r: Option<&Revision>)
        ensures
            match r {
                Some(revision) => alist_get(self@.blocks, *cid) == Some(revision@),
                None => alist_get(self@.blocks, *cid) is None,
            },
    {
        let ghost sv = self@.blocks;
        let mut i: usize = 0;
        while i < self.blocks.len()
            invariant
                0 <= i <= self.blocks.len(),
                sv == self@.blocks,
                forall|j: int| 0 <= j < i ==> sv[j].0 != *cid,
            decreases self.blocks.len() - i,
        {
            if self.blocks[i].0 == *cid {
                proof {
                    lemma_alist_get_first_match(sv, *cid, i as int);
                }
                return Some(&self.blocks[i].1);
            }
            i += 1;
        }
        proof {
            lemma_alist_get_none(sv, *cid);
        }
        None
    }

    /// The position of the first stored pair bearing `cid`, if any.
    fn find_block_index(&self, cid: &Cid) -> (r: Option<usize>)
        ensures
            match r {
                Some(at) => at < self.blocks@.len() && self@.blocks[at as int].0 == *cid
                    && forall|j: int| 0 <= j < at ==> self@.blocks[j].0 != *cid,
                None => forall|j: int| 0 <= j < self.blocks@.len() ==> self@.blocks[j].0 != *cid,
            },
    {
        let ghost sv = self@.blocks;
        let mut i: usize = 0;
        while i < self.blocks.len()
            invariant
                0 <= i <= self.blocks.len(),
                sv == self@.blocks,
                forall|j: int| 0 <= j < i ==> sv[j].0 != *cid,
            decreases self.blocks.len() - i,
        {
            if self.blocks[i].0 == *cid {
                return Some(i);
            }
            i += 1;
        }
        None
    }

    /// Stores `revision` under `cid`, replacing any block already there.
    /// Version pointers are untouched.
    pub fn put_block(&mut self, cid: &Cid, revision: Revision)
        ensures
            final(self)@.versions == old(self)@.versions,
            final(self)@.blocks == alist_put(old(self)@.blocks, *cid, revision@),
            forall|c: Cid|
                alist_get(final(self)@.blocks, c) == (if c == *cid {
                    Some(revision@)
                } else {
                    alist_get(old(self)@.blocks, c)
                }),
    {
        let ghost sv = self@.blocks;
        let ghost rv = revision@;
        let found = self.find_block_index(cid);
        match found {
            Some(at) => {
                self.blocks.set(at, (*cid, revision));
                proof {
                    let t = sv.update(at as int, (*cid, rv));
                    assert forall|j: int| 0 <= j < t.len() implies block_pairs_view(
                        self.blocks@,
                    )[j] == t[j] by {
                        if j != at as int {
                            assert(self.blocks@[j] == old(self).blocks@[j]);
                        }
                    }
                    assert(block_pairs_view(self.blocks@) =~= t);
                    lemma_alist_put_update(sv, *cid, rv, at as int);
                    assert forall|c: Cid|
                        alist_get(self@.blocks, c) == (if c == *cid {
                            Some(rv)
                        } else {
                            alist_get(sv, c)
                        }) by {
                        lemma_alist_get_update(sv, at as int, (*cid, rv), c);
                    }
                }
            },
            None => {
                self.blocks.push((*cid, revision));
                proof {
                    assert(block_pairs_view(self.blocks@) =~= sv.push((*cid, rv)));
                    lemma_alist_put_push(sv, *cid, rv);
                    assert forall|c: Cid|
                        alist_get(self@.blocks, c) == (if c == *cid {
                            Some(rv)
                        } else {
                            alist_get(sv, c)
                        }) by {
                        lemma_alist_get_push(sv, (*cid, rv), c);
                        if c == *cid {
                            lemma_alist_get_none(sv, c);
                        }
                    }
                }
            },
        }
    }

    /// The largest content identifier in use, or zero with no blocks.
    pub fn max_block_cid(&self) -> (r: u64)
        ensures
            r == max_cid_key(self@.blocks),
    {
        let ghost sv = self@.blocks;
        let mut best: u64 = 0;
        let mut i: usize = 0;
        while i < self.blocks.len()
            invariant
                0 <= i <= self.blocks.len(),
                sv == self@.blocks,
                sv.len() == self.blocks.len(),
                best == max_cid_key(sv.take(i as int)),
            decreases self.blocks.len() - i,
        {
            proof {
                assert(sv.take(i + 1 as int).drop_last() =~= sv.take(i as int));
                assert(sv.take(i + 1 as int).last() == sv[i as int]);
            }
            if self.blocks[i].0.0 > best {
                best = self.blocks[i].0.0;
            }
            i += 1;
        }
        proof {
            assert(sv.take(sv.len() as int) =~= sv);
        }
        best
    }

    /// Stores `revision` under a content identifier never used before, and
    /// returns that identifier. Fails only when every identifier is in use.
    pub fn put_new_block(&mut self, revision: Revision) -> (r: Result<Cid, StoreError>)
        ensures
            r is Ok <==> max_cid_key(old(self)@.blocks) < u64::MAX,
            match r {
                Ok(cid) => {
                    &&& cid.0 == max_cid_key(old(self)@.blocks) + 1
                    &&& alist_get(old(self)@.blocks, cid) is None
                    &&& final(self)@.versions == old(self)@.versions
                    &&& final(self)@.blocks == old(self)@.blocks.push((cid, revision@))
                    &&& forall|c: Cid|
                        alist_get(final(self)@.blocks, c) == (if c == cid {
                            Some(revision@)
                        } else {
                            alist_get(old(self)@.blocks, c)
                        })
                },
                Err(e) => e == StoreError::Full && final(self)@ == old(self)@,
            },
    {
        let ghost rv = revision@;
        let top = self.max_block_cid();
        if top == u64::MAX {
            return Err(StoreError::Full);
        }
        let cid = Cid(top + 1);
        proof {
            lemma_max_cid_key_bound(self@.blocks);
            assert(forall|j: int| 0 <= j < self@.blocks.len() ==> self@.blocks[j].0 != cid);
            lemma_alist_get_none(self@.blocks, cid);
        }
        self.put_block(&cid, revision);
        proof {
            lemma_alist_put_push(old(self)@.blocks, cid, rv);
        }
        Ok(cid)
    }
}

impl Bundle {
    /// Loads every block of the bundle into the store, in order; a block
    /// already stored under an address is replaced. Version pointers are
    /// untouched.
    pub fn load_into(&self, db: &mut SphereDb)
        ensures
            final(db)@.versions == old(db)@.versions,
            final(db)@.blocks == load_fold(old(db)@.blocks, self@),
            forall|c: Cid|
                alist_get(final(db)@.blocks, c) == (match last_entry(self@, c) {
                    Some(revision) => Some(revision),
                    None => alist_get(old(db)@.blocks, c),
                }),
    {
        let ghost bv = self@;
        let mut i: usize = 0;
        while i < self.blocks.len()
            invariant
                0 <= i <= self.blocks.len(),
                bv == self@,
                bv.len() == self.blocks.len(),
                db@.versions == old(db)@.versions,
                db@.blocks == load_fold(old(db)@.blocks, bv.take(i as int)),
                forall|c: Cid|
                    alist_get(db@.blocks, c) == (match last_entry(bv.take(i as int), c) {
                        Some(revision) => Some(revision),
                        None => alist_get(old(db)@.blocks, c),
                    }),
            decreases self.blocks.len() - i,
        {
            let pair = &self.blocks[i];
            db.put_block(&pair.0, pair.1.clone());
            proof {
                assert(bv.take(i + 1 as int).drop_last() =~= bv.take(i as int));
                assert(bv.take(i + 1 as int).last() == bv[i as int]);
                assert(bv.take(i as int).push(bv[i as int]) =~= bv.take(i + 1 as int));
                lemma_load_fold_push(old(db)@.blocks, bv.take(i as int), bv[i as int]);
            }
            i += 1;
        }
        proof {
            assert(bv.take(bv.len() as int) =~= bv);
        }
    }
}

} // verus!
