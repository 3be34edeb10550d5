//! Views over the revision DAG: a sphere handle at one revision, lineage
//! traversal between a tip and an optional base, mutation application,
//! signing, hydration, and delta bundling.

use vstd::prelude::*;

use crate::alist::alist_get;
use crate::authority::Authorization;
use crate::data::Cid;
use crate::data::Did;
use crate::data::Jwt;
use crate::revision::apply_link_ops;
use crate::revision::apply_name_ops;
use crate::revision::clone_links;
use crate::revision::clone_name_ops;
use crate::revision::clone_names;
use crate::revision::link_ops_view;
use crate::revision::name_ops_view;
use crate::revision::replay_get;
use crate::revision::Bundle;
use crate::revision::Revision;
use crate::revision::RevisionView;
use crate::revision::SphereMutation;
use crate::store::max_cid_key;
use crate::store::SphereDb;
use crate::store::StoreError;

verus! {

/// The parent walk from `tip` down to `base` (exclusive), or to the root
/// when `base` is absent, in tip-first order. `fuel` bounds how many parent
/// links may still be followed; `None` stands for a walk that fails: a
/// missing block, a `base` that is not an ancestor of `tip`, or a lineage
/// that does not reach `base` or a root within `fuel` steps (as a cycle
/// never does).
pub open spec fn chain_from(
    blocks: Seq<(Cid, RevisionView)>,
    tip: Cid,
    base: Option<Cid>,
    fuel: nat,
) -> Option<Seq<Cid>>
    decreases fuel,
{
    if base == Some(tip) {
        Some(Seq::<Cid>::empty())
    } else {
        match alist_get(blocks, tip) {
            None => None,
            Some(revision) => match revision.parent {
                None => if base is None {
                    Some(seq![tip])
                } else {
                    None
                },
                Some(parent) => if fuel == 0 {
                    None
                } else {
                    match chain_from(blocks, parent, base, (fuel - 1) as nat) {
                        None => None,
                        Some(rest) => Some(seq![tip] + rest),
                    }
                },
            },
        }
    }
}

/// The lineage between `tip` and `base` over `blocks`, tip-first: the walk
/// with enough fuel for any acyclic lineage the store can hold.
pub open spec fn lineage_chain(
    blocks: Seq<(Cid, RevisionView)>,
    tip: Cid,
    base: Option<Cid>,
) -> Option<Seq<Cid>> {
    chain_from(blocks, tip, base, blocks.len())
}

/// The same lineage in chronological order: every ancestor before each of
/// its descendants.
pub open spec fn chronological_chain(
    blocks: Seq<(Cid, RevisionView)>,
    tip: Cid,
    base: Option<Cid>,
) -> Option<Seq<Cid>> {
    match lineage_chain(blocks, tip, base) {
        Some(chain) => Some(chain.reverse()),
        None => None,
    }
}

/// A sequence prefixed onto a walk outcome, failure staying failure.
pub open spec fn opt_prepend(prefix: Seq<Cid>, rest: Option<Seq<Cid>>) -> Option<Seq<Cid>> {
    match rest {
        Some(chain) => Some(prefix + chain),
        None => None,
    }
}

/// Whether the revision at `cid` has everything it semantically depends on
/// present in `blocks`: its own node and its parent node.
pub open spec fn hydrated(blocks: Seq<(Cid, RevisionView)>, cid: Cid) -> bool {
    match alist_get(blocks, cid) {
        None => false,
        Some(revision) => match revision.parent {
            None => true,
            Some(parent) => alist_get(blocks, parent) is Some,
        },
    }
}

/// Reverses a sequence of content identifiers.
pub fn reverse_cids(v: Vec<Cid>) -> (r: Vec<Cid>)
    ensures
        r@ == v@.reverse(),
{
    let mut out: Vec<Cid> = Vec::new();
    let mut i: usize = 0;
    while i < v.len()
        invariant
            0 <= i <= v.len(),
            out@.len() == i,
            forall|j: int| 0 <= j < i ==> out@[j] == v@[v@.len() - 1 - j],
        decreases v.len() - i,
    {
        out.push(v[v.len() - 1 - i]);
        i += 1;
    }
    proof {
        assert(out@ =~= v@.reverse());
    }
    out
}

/// A timeline over the revisions a store holds.
pub struct Timeline<'a> {
    pub db: &'a SphereDb,
}

/// A timeline bounded by a tip and an optional base.
pub struct Timeslice<'a> {
    pub db: &'a SphereDb,
    pub tip: Cid,
    pub base: Option<Cid>,
}

impl<'a> Timeline<'a> {
    /// A timeline over `db`.
    pub fn new(db: &'a SphereDb) -> (r: Timeline<'a>)
        ensures
            r.db == db,
    {
        Timeline { db }
    }

    /// The slice of this timeline between `tip` and `base` (exclusive).
    pub fn slice(&self, tip: &Cid, base: Option<&Cid>) -> (r: Timeslice<'a>)
        ensures
            r.db == self.db,
            r.tip == *tip,
            r.base == (match base {
                Some(cid) => Some(*cid),
                None => None::<Cid>,
            }),
    {
        Timeslice {
            db: self.db,
            tip: *tip,
            base: match base {
                Some(cid) => Some(*cid),
                None => None,
            },
        }
    }
}

impl<'a> Timeslice<'a> {
    /// Walks parent links from the slice's tip to its base (exclusive), or
    /// to the root with no base, and yields the lineage in chronological
    /// (ancestor-first) order. Fails exactly when the walk does: a missing
    /// block, a base that is not an ancestor of the tip, or a lineage that
    /// never reaches the base or a root.
    pub fn try_to_chronological(&self) -> (r: Result<Vec<Cid>, StoreError>)
        ensures
            match r {
                Ok(steps) => chronological_chain(self.db@.blocks, self.tip, self.base) == Some(
                    steps@,
                ),
                Err(e) => e == StoreError::NotFound && chronological_chain(
                    self.db@.blocks,
                    self.tip,
                    self.base,
                ) is None,
            },
    {
        let ghost blocks = self.db@.blocks;
        let ghost total = lineage_chain(blocks, self.tip, self.base);
        let len: usize = self.db.blocks.len();
        let mut out: Vec<Cid> = Vec::new();
        let mut current: Cid = self.tip;
        let mut steps: usize = 0;
        proof {
            match total {
                Some(chain) => {
                    assert(Seq::<Cid>::empty() + chain =~= chain);
                },
                None => {},
            }
        }
        loop
            invariant
                steps <= len,
                len == self.db.blocks.len(),
                blocks == self.db@.blocks,
                blocks.len() == len,
                total == lineage_chain(blocks, self.tip, self.base),
                total == opt_prepend(out@, chain_from(blocks, current, self.base, (len - steps) as nat)),
            decreases len - steps,
        {
            let ghost fuel = (len - steps) as nat;
            let base_matches = match &self.base {
                Some(base_cid) => *base_cid == current,
                None => false,
            };
            if base_matches {
                proof {
                    assert(chain_from(blocks, current, self.base, fuel) == Some(
                        Seq::<Cid>::empty(),
                    ));
                    assert(out@ + Seq::<Cid>::empty() =~= out@);
                }
                return Ok(reverse_cids(out));
            }
            let revision = match self.db.get_block(&current) {
                Some(revision) => revision,
                None => {
                    return Err(StoreError::NotFound);
                },
            };
            match revision.parent {
                None => {
                    if self.base.is_none() {
                        proof {
                            assert(chain_from(blocks, current, self.base, fuel) == Some(
                                seq![current],
                            ));
                        }
                        let ghost prior = out@;
                        out.push(current);
                        proof {
                            assert(prior + seq![current] =~= out@);
                        }
                        return Ok(reverse_cids(out));
                    } else {
                        return Err(StoreError::NotFound);
                    }
                },
                Some(parent) => {
                    if steps == len {
                        return Err(StoreError::NotFound);
                    }
                    proof {
                        let inner = chain_from(blocks, parent, self.base, (fuel - 1) as nat);
                        match inner {
                            Some(rest) => {
                                assert(out@ + (seq![current] + rest) =~= out@.push(current) + rest);
                            },
                            None => {},
                        }
                    }
                    out.push(current);
                    current = parent;
                    steps += 1;
                },
            }
        }
    }
}

/// The content identifiers of a sequence of addressed blocks, in order.
pub open spec fn bundle_keys(s: Seq<(Cid, RevisionView)>) -> Seq<Cid> {
    Seq::new(s.len(), |i: int| s[i].0)
}

/// Whether `pairs` carries exactly the blocks of `chain`, in chain order,
/// each with the content stored for it in `blocks`.
pub open spec fn bundle_matches_chain(
    blocks: Seq<(Cid, RevisionView)>,
    pairs: Seq<(Cid, RevisionView)>,
    chain: Seq<Cid>,
) -> bool {
    &&& pairs.len() == chain.len()
    &&& forall|i: int| 0 <= i < chain.len() ==> (#[trigger] chain[i]) == pairs[i].0
    &&& forall|i: int|
        0 <= i < chain.len() ==> alist_get(blocks, #[trigger] chain[i]) == Some(pairs[i].1)
}

/// A view of one sphere at one revision of a store.
pub struct Sphere<'a> {
    pub cid: Cid,
    pub db: &'a SphereDb,
}

impl<'a> Sphere<'a> {
    /// The sphere whose state is the revision stored at `cid`.
    pub fn at(cid: &Cid, db: &'a SphereDb) -> (r: Sphere<'a>)
        ensures
            r.cid == *cid,
            r.db == db,
    {
        Sphere { cid: *cid, db }
    }

    /// Checks that everything this revision semantically depends on is
    /// present locally: its own node and its parent's. Fails exactly when a
    /// needed block is absent.
    pub fn try_hydrate(&self) -> (r: Result<(), StoreError>)
        ensures
            r is Ok <==> hydrated(self.db@.blocks, self.cid),
            r matches Err(e) ==> e == StoreError::NotFound,
    {
        match self.db.get_block(&self.cid) {
            None => Err(StoreError::NotFound),
            Some(revision) => match revision.parent {
                None => Ok(()),
                Some(parent) => match self.db.get_block(&parent) {
                    Some(_) => Ok(()),
                    None => Err(StoreError::NotFound),
                },
            },
        }
    }

    /// Replays the mutation's ordered operations over this revision's maps
    /// and yields the resulting revision: unsigned, authored by the
    /// mutation's author, descending from this revision, and carrying the
    /// mutation's address book operations as its changelog. Fails exactly
    /// when this revision's block is absent.
    pub fn try_apply_mutation(&self, mutation: &SphereMutation) -> (r: Result<
        Revision,
        StoreError,
    >)
        ensures
            r is Ok <==> alist_get(self.db@.blocks, self.cid) is Some,
            match r {
                Ok(revision) => match alist_get(self.db@.blocks, self.cid) {
                    Some(parent) => {
                        &&& revision@.parent == Some(self.cid)
                        &&& revision@.author == mutation.author@
                        &&& revision@.signature is None
                        &&& revision@.authorization is None
                        &&& revision@.name_changes == name_ops_view(mutation.names@)
                        &&& forall|k: Seq<char>|
                            alist_get(revision@.links, k) == replay_get(
                                parent.links,
                                link_ops_view(mutation.links@),
                                k,
                            )
                        &&& forall|k: Seq<char>|
                            alist_get(revision@.names, k) == replay_get(
                                parent.names,
                                name_ops_view(mutation.names@),
                                k,
                            )
                    },
                    None => false,
                },
                Err(e) => e == StoreError::NotFound,
            },
    {
        let parent = match self.db.get_block(&self.cid) {
            Some(revision) => revision,
            None => {
                return Err(StoreError::NotFound);
            },
        };
        let mut links = clone_links(&parent.links);
        let mut names = clone_names(&parent.names);
        apply_link_ops(&mut links, &mutation.links);
        apply_name_ops(&mut names, &mutation.names);
        Ok(
            Revision {
                parent: Some(self.cid),
                author: mutation.author.clone(),
                links,
                names,
                name_changes: clone_name_ops(&mutation.names),
                signature: None,
                authorization: None,
            },
        )
    }

    /// Collects the lineage between this revision and `ancestor`
    /// (exclusive), tip-first, as a bundle holding exactly the blocks of
    /// that lineage. Fails exactly when the walk does.
    pub fn try_bundle_until_ancestor(&self, ancestor: Option<&Cid>) -> (r: Result<
        Bundle,
        StoreError,
    >)
        ensures
            match r {
                Ok(bundle) => match lineage_chain(self.db@.blocks, self.cid, match ancestor {
                    Some(cid) => Some(*cid),
                    None => None::<Cid>,
                }) {
                    Some(chain) => bundle_matches_chain(self.db@.blocks, bundle@, chain),
                    None => false,
                },
                Err(e) => e == StoreError::NotFound && lineage_chain(
                    self.db@.blocks,
                    self.cid,
                    match ancestor {
                        Some(cid) => Some(*cid),
                        None => None::<Cid>,
                    },
                ) is None,
            },
    {
        let ghost blocks = self.db@.blocks;
        let base: Option<Cid> = match ancestor {
            Some(cid) => Some(*cid),
            None => None,
        };
        let ghost total = lineage_chain(blocks, self.cid, base);
        let len: usize = self.db.blocks.len();
        let mut out: Vec<(Cid, Revision)> = Vec::new();
        let mut current: Cid = self.cid;
        let mut steps: usize = 0;
        proof {
            match total {
                Some(chain) => {
                    assert(Seq::<Cid>::empty() + chain =~= chain);
                },
                None => {},
            }
            assert(bundle_keys(crate::revision::block_pairs_view(out@)) =~= Seq::<Cid>::empty());
        }
        loop
            invariant
                steps <= len,
                len == self.db.blocks.len(),
                blocks == self.db@.blocks,
                blocks.len() == len,
                base == (match ancestor {
                    Some(cid) => Some(*cid),
                    None => None::<Cid>,
                }),
                total == lineage_chain(blocks, self.cid, base),
                total == opt_prepend(
                    bundle_keys(crate::revision::block_pairs_view(out@)),
                    chain_from(blocks, current, base, (len - steps) as nat),
                ),
                forall|i: int|
                    0 <= i < out@.len() ==> alist_get(
                        blocks,
                        crate::revision::block_pairs_view(out@)[i].0,
                    ) == Some(crate::revision::block_pairs_view(out@)[i].1),
            decreases len - steps,
        {
            let ghost fuel = (len - steps) as nat;
            let ghost keys = bundle_keys(crate::revision::block_pairs_view(out@));
            let base_matches = match &base {
                Some(base_cid) => *base_cid == current,
                None => false,
            };
            if base_matches {
                proof {
                    assert(chain_from(blocks, current, base, fuel) == Some(Seq::<Cid>::empty()));
                    assert(keys + Seq::<Cid>::empty() =~= keys);
                }
                return Ok(Bundle { blocks: out });
            }
            let revision = match self.db.get_block(&current) {
                Some(revision) => revision,
                None => {
                    return Err(StoreError::NotFound);
                },
            };
            match revision.parent {
                None => {
                    if base.is_none() {
                        proof {
                            assert(chain_from(blocks, current, base, fuel) == Some(seq![current]));
                        }
                        let copied = revision.clone();
                        let ghost prior = crate::revision::block_pairs_view(out@);
                        out.push((current, copied));
                        proof {
                            assert(crate::revision::block_pairs_view(out@) =~= prior.push(
                                (current, copied@),
                            ));
                            assert(bundle_keys(prior.push((current, copied@))) =~= bundle_keys(
                                prior,
                            ).push(current));
                            assert(bundle_keys(prior) + seq![current] =~= bundle_keys(prior).push(
                                current,
                            ));
                        }
                        return Ok(Bundle { blocks: out });
                    } else {
                        return Err(StoreError::NotFound);
                    }
                },
                Some(parent) => {
                    if steps == len {
                        return Err(StoreError::NotFound);
                    }
                    let copied = revision.clone();
                    let ghost prior = crate::revision::block_pairs_view(out@);
                    proof {
                        let inner = chain_from(blocks, parent, base, (fuel - 1) as nat);
                        match inner {
                            Some(rest) => {
                                assert(bundle_keys(prior) + (seq![current] + rest) =~= bundle_keys(
                                    prior,
                                ).push(current) + rest);
                            },
                            None => {},
                        }
                    }
                    out.push((current, copied));
                    proof {
                        assert(crate::revision::block_pairs_view(out@) =~= prior.push(
                            (current, copied@),
                        ));
                        assert(bundle_keys(prior.push((current, copied@))) =~= bundle_keys(
                            prior,
                        ).push(current));
                    }
                    current = parent;
                    steps += 1;
                },
            }
        }
    }
}

impl Revision {
    /// Binds a signature and the authorization reference to this revision,
    /// stores the signed revision under a fresh content identifier, and
    /// returns that identifier. The signature is modelled as the signing
    /// key's identifier. Fails only when the store has no identifier left.
    pub fn try_sign(self, key: &Did, authorization: Option<&Authorization>, db: &mut SphereDb) -> (r:
        Result<Cid, StoreError>)
        ensures
            r is Ok <==> max_cid_key(old(db)@.blocks) < u64::MAX,
            match r {
                Ok(cid) => {
                    &&& cid.0 == max_cid_key(old(db)@.blocks) + 1
                    &&& alist_get(old(db)@.blocks, cid) is None
                    &&& final(db)@.versions == old(db)@.versions
                    &&& forall|c: Cid|
                        alist_get(final(db)@.blocks, c) == (if c == cid {
                            Some(
                                RevisionView {
                                    signature: Some(key@),
                                    authorization: match authorization {
                                        Some(held) => Some(held@),
                                        None => None,
                                    },
                                    ..self@
                                },
                            )
                        } else {
                            alist_get(old(db)@.blocks, c)
                        })
                },
                Err(e) => e == StoreError::Full && final(db)@ == old(db)@,
            },
    {
        let signed = Revision {
            signature: Some(Jwt(key.to_string())),
            authorization: match authorization {
                Some(held) => Some(held.clone()),
                None => None,
            },
            ..self
        };
        db.put_new_block(signed)
    }
}

} // verus!
