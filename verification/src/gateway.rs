//! The gateway push handler: authorization of an incoming push, fast-forward
//! conflict detection, lineage merge, the gateway's self-update, and the
//! response with the delta bundle, together with the side-effect jobs the
//! caller is asked to dispatch.

use vstd::prelude::*;

use crate::alist::alist_get;
use crate::alist::alist_put;
use crate::authority::Authorization;
use crate::authority::Capability;
use crate::authority::SphereAction;
use crate::authority::SphereReference;
use crate::authority::capability_grants;
use crate::data::Cid;
use crate::data::Did;
use crate::revision::link_ops_view;
use crate::revision::name_ops_view;
use crate::revision::ops_effect;
use crate::revision::MapOpView;
use crate::revision::Bundle;
use crate::revision::SphereMutation;
use crate::store::load_fold;
use crate::store::max_cid_key;
use crate::store::DbView;
use crate::store::SphereDb;
use crate::view::bundle_matches_chain;
use crate::view::chain_from;
use crate::view::chronological_chain;
use crate::view::hydrated;
use crate::view::lineage_chain;
use crate::view::Sphere;
use crate::view::Timeline;

verus! {

/// The protocol-level outcome of a failed push, as the caller sees it.
/// Every internal storage or signing failure collapses to `Internal`.
#[derive(Clone, Copy, PartialEq, Eq, Structural, Debug)]
pub enum PushError {
    /// The push names a sphere other than the gateway's counterpart.
    Forbidden,
    /// The pusher holds no valid push capability for the counterpart.
    Unauthorized,
    /// The push does not fast-forward the recorded lineage.
    Conflict,
    /// The push claims a base, but the gateway has no lineage root for it.
    MissingLineage,
    /// A storage, hydration or signing failure; no detail leaks out.
    Internal,
}

/// The binding of a gateway's own sphere identity to the one counterpart
/// sphere it mirrors, fixed for the gateway's lifetime.
pub struct GatewayScope {
    /// The gateway's own sphere.
    pub identity: Did,
    /// The client sphere this gateway mirrors.
    pub counterpart: Did,
}

/// The body of a push request: the sphere pushed to, the lineage claim, and
/// the blocks that carry the new revisions.
pub struct PushBody {
    /// The sphere identity the push claims to extend.
    pub sphere: Did,
    /// The tip the pusher believes the gateway holds, or nothing on a first
    /// push.
    pub base: Option<Cid>,
    /// The new tip the push advances the counterpart sphere to.
    pub tip: Cid,
    /// The blocks between `base` and `tip`.
    pub blocks: Bundle,
}

/// A successful push response.
pub enum PushResponse {
    /// The push carried nothing new; nothing was stored.
    NoChange,
    /// The lineage was merged: the gateway's new tip and the blocks new
    /// since its previous tip.
    Accepted { new_tip: Cid, blocks: Bundle },
}

/// A job for the name-resolution subsystem: look up the latest address of
/// one petname.
pub enum NsJob {
    GetRecord { pet_name: String, sphere_id: Did },
}

/// The mathematical form of a name-resolution job.
pub ghost enum NsJobView {
    GetRecord { pet_name: Seq<char>, sphere_id: Seq<char> },
}

impl View for NsJob {
    type V = NsJobView;

    open spec fn view(&self) -> NsJobView {
        match self {
            NsJob::GetRecord { pet_name, sphere_id } => NsJobView::GetRecord {
                pet_name: pet_name@,
                sphere_id: sphere_id@,
            },
        }
    }
}

/// The view of a sequence of name-resolution jobs.
pub open spec fn ns_jobs_view(s: Seq<NsJob>) -> Seq<NsJobView> {
    Seq::new(s.len(), |i: int| s[i]@)
}

/// A job for the syndication subsystem, carrying the gateway revision to
/// syndicate.
#[derive(Clone, Copy, PartialEq, Eq, Structural, Debug)]
pub struct SyndicationJob {
    pub revision: Cid,
}

/// The pusher's authority as the transport layer hands it over: the one
/// capability whose delegation chain already verified cryptographically.
pub struct GatewayAuthority {
    pub capability: Capability,
}

impl GatewayAuthority {
    /// Succeeds exactly when the verified capability satisfies the
    /// requested one.
    pub fn try_authorize(&self, requested: &Capability) -> (r: Result<(), PushError>)
        ensures
            r is Ok <==> capability_grants(self.capability, *requested),
            r matches Err(e) ==> e == PushError::Unauthorized,
    {
        let semantics = crate::authority::SphereSemantics {};
        match semantics.authorize(&self.capability, requested) {
            Ok(()) => Ok(()),
            Err(_) => Err(PushError::Unauthorized),
        }
    }
}

/// The gateway's own state: its store, its signing key, and the delegated
/// authorization it signs under.
pub struct GatewayContext {
    /// The gateway's block and version store.
    pub db: SphereDb,
    /// The DID of the gateway's signing key.
    pub author_key: Did,
    /// The delegated authorization the gateway holds, if configured.
    pub authorization: Option<Authorization>,
}

/// The name-resolution jobs an ordered run of address book operations asks
/// for: one per operation that adds a petname.
pub open spec fn adds_of(ops: Seq<MapOpView<Seq<char>, Seq<char>>>) -> Seq<NsJobView>
    decreases ops.len(),
{
    if ops.len() == 0 {
        Seq::<NsJobView>::empty()
    } else {
        adds_of(ops.drop_last()) + (match ops.last() {
            MapOpView::Add { key, value } => seq![
                NsJobView::GetRecord { pet_name: key, sphere_id: value },
            ],
            MapOpView::Remove { .. } => Seq::<NsJobView>::empty(),
        })
    }
}

/// The name-resolution jobs of a chronological chain of revisions: the adds
/// of each revision's address book changelog, in chain order.
pub open spec fn jobs_of_chain(blocks: Seq<(Cid, crate::revision::RevisionView)>, chain: Seq<Cid>) -> Seq<
    NsJobView,
>
    decreases chain.len(),
{
    if chain.len() == 0 {
        Seq::<NsJobView>::empty()
    } else {
        jobs_of_chain(blocks, chain.drop_last()) + (match alist_get(blocks, chain.last()) {
            Some(revision) => adds_of(revision.name_changes),
            None => Seq::<NsJobView>::empty(),
        })
    }
}

/// Whether every revision of a chain is hydrated in `blocks`.
pub open spec fn chain_all_hydrated(
    blocks: Seq<(Cid, crate::revision::RevisionView)>,
    chain: Seq<Cid>,
) -> bool {
    forall|i: int| 0 <= i < chain.len() ==> hydrated(blocks, chain[i])
}

/// Scans a revision's address book changelog for newly added petnames and
/// yields one name-resolution job per addition, in changelog order — or no
/// jobs at all when the name system is not configured.
pub fn request_ns_addresses(sphere: &Sphere<'_>, ns_configured: bool) -> (r: Result<
    Vec<NsJob>,
    PushError,
>)
    ensures
        match r {
            Ok(jobs) => {
                &&& ns_jobs_view(jobs@) == (if ns_configured {
                    match alist_get(sphere.db@.blocks, sphere.cid) {
                        Some(revision) => adds_of(revision.name_changes),
                        None => Seq::<NsJobView>::empty(),
                    }
                } else {
                    Seq::<NsJobView>::empty()
                })
                &&& (ns_configured ==> alist_get(sphere.db@.blocks, sphere.cid) is Some)
            },
            Err(e) => {
                &&& e == PushError::Internal
                &&& ns_configured
                &&& alist_get(sphere.db@.blocks, sphere.cid) is None
            },
        },
{
    if !ns_configured {
        let jobs: Vec<NsJob> = Vec::new();
        proof {
            assert(ns_jobs_view(jobs@) =~= Seq::<NsJobView>::empty());
        }
        return Ok(jobs);
    }
    let revision = match sphere.db.get_block(&sphere.cid) {
        Some(revision) => revision,
        None => {
            return Err(PushError::Internal);
        },
    };
    let ghost ncv = crate::revision::name_ops_view(revision.name_changes@);
    let mut jobs: Vec<NsJob> = Vec::new();
    let mut i: usize = 0;
    proof {
        assert(ns_jobs_view(jobs@) =~= Seq::<NsJobView>::empty());
        assert(adds_of(ncv.take(0)) =~= Seq::<NsJobView>::empty());
    }
    while i < revision.name_changes.len()
        invariant
            0 <= i <= revision.name_changes.len(),
            ncv == crate::revision::name_ops_view(revision.name_changes@),
            ncv.len() == revision.name_changes@.len(),
            forall|j: int| 0 <= j < ncv.len() ==> ncv[j] == revision.name_changes@[j]@,
            ns_jobs_view(jobs@) == adds_of(ncv.take(i as int)),
        decreases revision.name_changes.len() - i,
    {
        proof {
            assert(ncv.take(i + 1 as int).drop_last() =~= ncv.take(i as int));
            assert(ncv.take(i + 1 as int).last() == ncv[i as int]);
        }
        let ghost prior = ns_jobs_view(jobs@);
        match &revision.name_changes[i] {
            crate::revision::MapOperation::Add { key, value } => {
                jobs.push(NsJob::GetRecord { pet_name: key.clone(), sphere_id: value.clone() });
                proof {
                    let job = NsJobView::GetRecord { pet_name: key@, sphere_id: value@ };
                    assert(ns_jobs_view(jobs@) =~= prior.push(job));
                    assert(prior + seq![job] =~= prior.push(job));
                }
            },
            crate::revision::MapOperation::Remove { .. } => {
                proof {
                    assert(adds_of(ncv.take(i + 1 as int)) =~= adds_of(ncv.take(i as int))
                        + Seq::<NsJobView>::empty());
                    assert(adds_of(ncv.take(i as int)) + Seq::<NsJobView>::empty() =~= adds_of(
                        ncv.take(i as int),
                    ));
                }
            },
        }
        i += 1;
    }
    proof {
        assert(ncv.take(ncv.len() as int) =~= ncv);
    }
    Ok(jobs)
}

/// Loads the pushed blocks, walks the pushed lineage in chronological
/// order, hydrates each new revision, collects the name-resolution jobs the
/// merge asks for, and finally advances the gateway's record of the
/// counterpart's tip. Fails — with the counterpart's record untouched —
/// exactly when the pushed lineage does not resolve or hydrate over the
/// loaded store.
pub fn incorporate_lineage(
    scope: &GatewayScope,
    db: &mut SphereDb,
    push_body: &PushBody,
    ns_configured: bool,
) -> (r: Result<Vec<NsJob>, PushError>)
    ensures
        final(db)@.blocks == load_fold(old(db)@.blocks, push_body.blocks@),
        r is Ok <==> (match chronological_chain(
            load_fold(old(db)@.blocks, push_body.blocks@),
            push_body.tip,
            push_body.base,
        ) {
            Some(chain) => chain_all_hydrated(load_fold(old(db)@.blocks, push_body.blocks@), chain),
            None => false,
        }),
        match r {
            Ok(jobs) => {
                &&& final(db)@.versions == alist_put(
                    old(db)@.versions,
                    scope.counterpart@,
                    push_body.tip,
                )
                &&& (forall|k: Seq<char>|
                    alist_get(final(db)@.versions, k) == (if k == scope.counterpart@ {
                        Some(push_body.tip)
                    } else {
                        alist_get(old(db)@.versions, k)
                    }))
                &&& (match chronological_chain(
                    load_fold(old(db)@.blocks, push_body.blocks@),
                    push_body.tip,
                    push_body.base,
                ) {
                    Some(chain) => ns_jobs_view(jobs@) == (if ns_configured {
                        jobs_of_chain(load_fold(old(db)@.blocks, push_body.blocks@), chain)
                    } else {
                        Seq::<NsJobView>::empty()
                    }),
                    None => false,
                })
            },
            Err(e) => e == PushError::Internal && final(db)@.versions == old(db)@.versions,
        },
{
    push_body.blocks.load_into(db);
    let ghost loaded = db@.blocks;
    let base_ref: Option<&Cid> = match &push_body.base {
        Some(cid) => Some(cid),
        None => None,
    };
    let steps_result = {
        let timeline = Timeline::new(db);
        let timeslice = timeline.slice(&push_body.tip, base_ref);
        timeslice.try_to_chronological()
    };
    let steps = match steps_result {
        Ok(steps) => steps,
        Err(_) => {
            return Err(PushError::Internal);
        },
    };
    let ghost chain = steps@;
    let mut jobs: Vec<NsJob> = Vec::new();
    let mut i: usize = 0;
    proof {
        assert(ns_jobs_view(jobs@) =~= Seq::<NsJobView>::empty());
        assert(jobs_of_chain(loaded, chain.take(0)) =~= Seq::<NsJobView>::empty());
    }
    while i < steps.len()
        invariant
            0 <= i <= steps.len(),
            db@.blocks == loaded,
            loaded == load_fold(old(db)@.blocks, push_body.blocks@),
            db@.versions == old(db)@.versions,
            chain == steps@,
            chronological_chain(loaded, push_body.tip, push_body.base) == Some(chain),
            forall|j: int| 0 <= j < i ==> hydrated(loaded, chain[j]),
            ns_jobs_view(jobs@) == (if ns_configured {
                jobs_of_chain(loaded, chain.take(i as int))
            } else {
                Seq::<NsJobView>::empty()
            }),
        decreases steps.len() - i,
    {
        let cid = steps[i];
        let sphere = Sphere::at(&cid, db);
        match sphere.try_hydrate() {
            Ok(()) => {},
            Err(_) => {
                return Err(PushError::Internal);
            },
        }
        let mut new_jobs = match request_ns_addresses(&sphere, ns_configured) {
            Ok(new_jobs) => new_jobs,
            Err(_) => {
                proof {
                    assert(false);
                }
                return Err(PushError::Internal);
            },
        };
        let ghost prior = ns_jobs_view(jobs@);
        let ghost fresh = ns_jobs_view(new_jobs@);
        jobs.append(&mut new_jobs);
        proof {
            assert(ns_jobs_view(jobs@) =~= prior + fresh);
            assert(chain.take(i + 1 as int).drop_last() =~= chain.take(i as int));
            assert(chain.take(i + 1 as int).last() == chain[i as int]);
            if !ns_configured {
                assert(prior + fresh =~= Seq::<NsJobView>::empty());
            }
        }
        i += 1;
    }
    proof {
        assert(chain.take(chain.len() as int) =~= chain);
    }
    db.set_version(&scope.counterpart, &push_body.tip);
    Ok(jobs)
}

/// Constructs a mutation binding the counterpart's name to its new tip in
/// the gateway's own link map, applies it to the gateway's current
/// revision, signs and stores the result, advances the gateway's own
/// version pointer, and returns the new tip with the bundle of blocks new
/// since the previous one. Fails — with the store untouched — exactly when
/// the gateway's own version is unrecorded, its revision block is absent,
/// or no fresh content identifier is left.
pub fn update_gateway_sphere(
    counterpart_sphere_cid: &Cid,
    scope: &GatewayScope,
    key: &Did,
    authority: &Authorization,
    db: &mut SphereDb,
) -> (r: Result<(Cid, Bundle), PushError>)
    ensures
        r is Ok <==> (match alist_get(old(db)@.versions, scope.identity@) {
            Some(ancestor) => alist_get(old(db)@.blocks, ancestor) is Some && max_cid_key(
                old(db)@.blocks,
            ) < u64::MAX,
            None => false,
        }),
        match r {
            Ok((new_tip, bundle)) => (match alist_get(old(db)@.versions, scope.identity@) {
                Some(ancestor) => (match alist_get(old(db)@.blocks, ancestor) {
                    Some(parent_revision) => {
                        &&& new_tip.0 == max_cid_key(old(db)@.blocks) + 1
                        &&& alist_get(old(db)@.blocks, new_tip) is None
                        &&& final(db)@.versions == alist_put(
                            old(db)@.versions,
                            scope.identity@,
                            new_tip,
                        )
                        &&& (forall|k: Seq<char>|
                            alist_get(final(db)@.versions, k) == (if k == scope.identity@ {
                                Some(new_tip)
                            } else {
                                alist_get(old(db)@.versions, k)
                            }))
                        &&& (forall|c: Cid|
                            c != new_tip ==> alist_get(final(db)@.blocks, c) == alist_get(
                                old(db)@.blocks,
                                c,
                            ))
                        &&& (match alist_get(final(db)@.blocks, new_tip) {
                            Some(new_revision) => {
                                &&& new_revision.parent == Some(ancestor)
                                &&& new_revision.author == key@
                                &&& new_revision.signature == Some(key@)
                                &&& new_revision.authorization == Some(authority@)
                                &&& new_revision.name_changes.len() == 0
                                &&& (forall|k2: Seq<char>|
                                    alist_get(new_revision.links, k2) == (if k2
                                        == scope.counterpart@ {
                                        Some(*counterpart_sphere_cid)
                                    } else {
                                        alist_get(parent_revision.links, k2)
                                    }))
                                &&& (forall|k2: Seq<char>|
                                    alist_get(new_revision.names, k2) == alist_get(
                                        parent_revision.names,
                                        k2,
                                    ))
                            },
                            None => false,
                        })
                        &&& lineage_chain(final(db)@.blocks, new_tip, Some(ancestor)) == Some(
                            seq![new_tip],
                        )
                        &&& bundle@.len() == 1
                        &&& bundle@[0].0 == new_tip
                        &&& alist_get(final(db)@.blocks, new_tip) == Some(bundle@[0].1)
                    },
                    None => false,
                }),
                None => false,
            }),
            Err(e) => e == PushError::Internal && final(db)@ == old(db)@,
        },
{
    let my_sphere_cid = match db.require_version(&scope.identity) {
        Ok(cid) => cid,
        Err(_) => {
            return Err(PushError::Internal);
        },
    };
    let mut mutation = SphereMutation::new(key);
    mutation.set_link(&scope.counterpart, counterpart_sphere_cid);
    let ghost op = MapOpView::<Seq<char>, Cid>::Add {
        key: scope.counterpart@,
        value: *counterpart_sphere_cid,
    };
    proof {
        let ops = link_ops_view(mutation.links@);
        assert(ops == Seq::<MapOpView<Seq<char>, Cid>>::empty().push(op));
        assert(ops.len() == 1);
        assert(ops.last() == op);
        assert(ops.drop_last() =~= Seq::<MapOpView<Seq<char>, Cid>>::empty());
        assert(name_ops_view(mutation.names@) =~= Seq::<MapOpView<Seq<char>, Seq<char>>>::empty());
    }
    let revision_result = {
        let my_sphere = Sphere::at(&my_sphere_cid, db);
        my_sphere.try_apply_mutation(&mutation)
    };
    let revision = match revision_result {
        Ok(revision) => revision,
        Err(_) => {
            return Err(PushError::Internal);
        },
    };
    let ghost rv = revision@;
    let ghost parent_rv = alist_get(db@.blocks, my_sphere_cid)->Some_0;
    proof {
        let ops = link_ops_view(mutation.links@);
        assert forall|k2: Seq<char>|
            alist_get(rv.links, k2) == (if k2 == scope.counterpart@ {
                Some(*counterpart_sphere_cid)
            } else {
                alist_get(parent_rv.links, k2)
            }) by {
            if k2 != scope.counterpart@ {
                assert(ops_effect(ops, k2) == ops_effect(ops.drop_last(), k2));
                assert(ops_effect(Seq::<MapOpView<Seq<char>, Cid>>::empty(), k2)
                    == None::<Option<Cid>>);
            }
        }
        assert forall|k2: Seq<char>|
            alist_get(rv.names, k2) == alist_get(parent_rv.names, k2) by {
            assert(ops_effect(Seq::<MapOpView<Seq<char>, Seq<char>>>::empty(), k2)
                == None::<Option<Seq<char>>>);
        }
    }
    let new_tip = match revision.try_sign(key, Some(authority), db) {
        Ok(cid) => cid,
        Err(_) => {
            return Err(PushError::Internal);
        },
    };
    db.set_version(&scope.identity, &new_tip);
    proof {
        let fb = db@.blocks;
        assert(alist_get(fb, new_tip) is Some);
        assert(new_tip != my_sphere_cid);
        assert(fb.len() >= 1);
        assert(chain_from(fb, my_sphere_cid, Some(my_sphere_cid), (fb.len() - 1) as nat) == Some(
            Seq::<Cid>::empty(),
        ));
        assert(chain_from(fb, new_tip, Some(my_sphere_cid), fb.len()) == Some(
            seq![new_tip] + Seq::<Cid>::empty(),
        ));
        assert(seq![new_tip] + Seq::<Cid>::empty() =~= seq![new_tip]);
        assert(lineage_chain(fb, new_tip, Some(my_sphere_cid)) == Some(seq![new_tip]));
    }
    let ancestor_cid = my_sphere_cid;
    let blocks = {
        let sphere = Sphere::at(&new_tip, db);
        proof {
            assert(sphere.cid == new_tip);
            assert(sphere.db@ == db@);
        }
        match sphere.try_bundle_until_ancestor(Some(&ancestor_cid)) {
            Ok(bundle) => {
                proof {
                    assert(seq![new_tip][0] == new_tip);
                    assert(seq![new_tip].len() == 1);
                    let lc = lineage_chain(sphere.db@.blocks, sphere.cid, Some(ancestor_cid));
                    assert(lc == Some(seq![new_tip]));
                    assert(bundle_matches_chain(sphere.db@.blocks, bundle@, seq![new_tip]));
                    assert(bundle@.len() == 1);
                    assert(bundle@[0].0 == new_tip);
                    assert(alist_get(db@.blocks, new_tip) == Some(bundle@[0].1));
                }
                bundle
            },
            Err(_) => {
                proof {
                    assert(false);
                }
                return Err(PushError::Internal);
            },
        }
    };
    Ok((new_tip, blocks))
}

/// Whether a push names the sphere this gateway mirrors.
pub open spec fn identity_matches(scope: GatewayScope, body: PushBody) -> bool {
    body.sphere@ == scope.counterpart@
}

/// Whether the presented capability authorizes a push to the counterpart.
pub open spec fn authorized_for_push(authority: GatewayAuthority, scope: GatewayScope) -> bool {
    authority.capability.can == SphereAction::Push && authority.capability.with@
        == scope.counterpart@
}

/// Whether a recorded tip and a claimed base diverge: the gateway holds a
/// tip and the claim is absent or names another revision.
pub open spec fn conflicting_base(local: Option<Cid>, base: Option<Cid>) -> bool {
    match local {
        Some(mine) => base != Some(mine),
        None => false,
    }
}

/// Whether a push carries nothing new: base and tip both name the recorded
/// tip.
pub open spec fn idempotent_push(local: Option<Cid>, body: PushBody) -> bool {
    match local {
        Some(mine) => body.base == Some(mine) && body.tip == mine,
        None => false,
    }
}

/// Whether a push claims a base while the gateway has no recorded lineage
/// to root it in.
pub open spec fn missing_lineage(local: Option<Cid>, base: Option<Cid>) -> bool {
    local is None && base is Some
}

/// Whether all conflict gates pass and real work is owed: a first push onto
/// an empty record, or an exact fast-forward with a new tip.
pub open spec fn proceeding(local: Option<Cid>, body: PushBody) -> bool {
    &&& !conflicting_base(local, body.base)
    &&& !idempotent_push(local, body)
    &&& !missing_lineage(local, body.base)
}

/// Whether the gateway holds the delegated authorization it signs under.
pub open spec fn gateway_ready(context: GatewayContext) -> bool {
    context.authorization is Some
}

/// The store after the merge step alone: the pushed blocks loaded and the
/// counterpart's version advanced to the pushed tip.
pub open spec fn post_merge_db(db: DbView, body: PushBody, scope: GatewayScope) -> DbView {
    DbView {
        blocks: load_fold(db.blocks, body.blocks@),
        versions: alist_put(db.versions, scope.counterpart@, body.tip),
    }
}

/// Whether the pushed lineage resolves chronologically over the loaded
/// store and every revision of it hydrates there.
pub open spec fn merge_admissible(db: DbView, body: PushBody) -> bool {
    match chronological_chain(load_fold(db.blocks, body.blocks@), body.tip, body.base) {
        Some(chain) => chain_all_hydrated(load_fold(db.blocks, body.blocks@), chain),
        None => false,
    }
}

/// Whether the gateway can re-sign its own sphere over `db`: its version is
/// recorded, that revision's block is present, and a fresh content
/// identifier is left.
pub open spec fn gateway_can_update(db: DbView, scope: GatewayScope) -> bool {
    match alist_get(db.versions, scope.identity@) {
        Some(ancestor) => alist_get(db.blocks, ancestor) is Some && max_cid_key(db.blocks)
            < u64::MAX,
        None => false,
    }
}

/// Everything a handled push asks the caller to do: the response for the
/// pusher, and the side-effect jobs to dispatch after the fact.
pub struct PushOutcome {
    /// The protocol response.
    pub response: PushResponse,
    /// One name-resolution job per address book entry newly added by the
    /// merged lineage; empty when the name system is not configured.
    pub name_system_jobs: Vec<NsJob>,
    /// The syndication job for the gateway's new tip, on an accepted merge.
    pub syndication: Option<SyndicationJob>,
}

/// Handles one push: checks the declared identity against the gateway's
/// counterpart, authorizes the pusher, detects conflicts against the
/// recorded lineage fast-forward-only, merges the pushed blocks, advances
/// the counterpart's record and the gateway's own re-signed sphere within
/// one exclusive borrow, and responds with the new tip and the delta
/// bundle. Each failure gate answers exactly as stated; every internal
/// failure collapses to `Internal`.
pub fn push_route(
    authority: &GatewayAuthority,
    sphere_context: &mut GatewayContext,
    scope: &GatewayScope,
    push_body: &PushBody,
    ns_configured: bool,
) -> (r: Result<PushOutcome, PushError>)
    requires
        scope.identity@ != scope.counterpart@,
    ensures
        final(sphere_context).author_key@ == old(sphere_context).author_key@,
        final(sphere_context).authorization == old(sphere_context).authorization,
        (identity_matches(*scope, *push_body) && authorized_for_push(*authority, *scope)
            && !gateway_ready(*old(sphere_context))) ==> r == Err::<PushOutcome, PushError>(
            PushError::Internal,
        ) && final(sphere_context).db@ == old(sphere_context).db@,
        (r == Err::<PushOutcome, PushError>(PushError::Forbidden) <==> !identity_matches(
            *scope,
            *push_body,
        )),
        (r == Err::<PushOutcome, PushError>(PushError::Unauthorized) <==> identity_matches(
            *scope,
            *push_body,
        ) && !authorized_for_push(*authority, *scope)),
        (r == Err::<PushOutcome, PushError>(PushError::Conflict) <==> identity_matches(
            *scope,
            *push_body,
        ) && authorized_for_push(*authority, *scope) && gateway_ready(*old(sphere_context))
            && conflicting_base(
            alist_get(old(sphere_context).db@.versions, scope.counterpart@),
            push_body.base,
        )),
        (r == Err::<PushOutcome, PushError>(PushError::MissingLineage) <==> identity_matches(
            *scope,
            *push_body,
        ) && authorized_for_push(*authority, *scope) && gateway_ready(*old(sphere_context))
            && missing_lineage(
            alist_get(old(sphere_context).db@.versions, scope.counterpart@),
            push_body.base,
        )),
        ((match r {
            Ok(outcome) => outcome.response is NoChange,
            Err(_) => false,
        }) <==> identity_matches(*scope, *push_body) && authorized_for_push(*authority, *scope)
            && gateway_ready(*old(sphere_context)) && idempotent_push(
            alist_get(old(sphere_context).db@.versions, scope.counterpart@),
            *push_body,
        )),
        (identity_matches(*scope, *push_body) && authorized_for_push(*authority, *scope)
            && gateway_ready(*old(sphere_context)) && proceeding(
            alist_get(old(sphere_context).db@.versions, scope.counterpart@),
            *push_body,
        )) ==> (r is Ok <==> merge_admissible(old(sphere_context).db@, *push_body)
            && gateway_can_update(
            post_merge_db(old(sphere_context).db@, *push_body, *scope),
            *scope,
        )),
        (r == Err::<PushOutcome, PushError>(PushError::Forbidden) || r == Err::<
            PushOutcome,
            PushError,
        >(PushError::Unauthorized) || r == Err::<PushOutcome, PushError>(PushError::Conflict) || r
            == Err::<PushOutcome, PushError>(PushError::MissingLineage)) ==> final(sphere_context).db@ == old(sphere_context).db@,
        match r {
            Ok(outcome) => match outcome.response {
                PushResponse::NoChange => {
                    &&& final(sphere_context).db@ == old(sphere_context).db@
                    &&& outcome.name_system_jobs@.len() == 0
                    &&& outcome.syndication is None
                },
                PushResponse::Accepted { new_tip, blocks } => {
                    &&& alist_get(final(sphere_context).db@.versions, scope.counterpart@) == Some(
                        push_body.tip,
                    )
                    &&& alist_get(final(sphere_context).db@.versions, scope.identity@) == Some(
                        new_tip,
                    )
                    &&& (match alist_get(final(sphere_context).db@.blocks, new_tip) {
                        Some(new_revision) => {
                            &&& alist_get(new_revision.links, scope.counterpart@) == Some(
                                push_body.tip,
                            )
                            &&& new_revision.author == old(sphere_context).author_key@
                            &&& new_revision.signature == Some(old(sphere_context).author_key@)
                            &&& (match alist_get(
                                post_merge_db(old(sphere_context).db@, *push_body, *scope).versions,
                                scope.identity@,
                            ) {
                                Some(ancestor) => new_revision.parent == Some(ancestor)
                                    && lineage_chain(
                                    final(sphere_context).db@.blocks,
                                    new_tip,
                                    Some(ancestor),
                                ) == Some(seq![new_tip]),
                                None => false,
                            })
                        },
                        None => false,
                    })
                    &&& blocks@.len() == 1
                    &&& blocks@[0].0 == new_tip
                    &&& alist_get(final(sphere_context).db@.blocks, new_tip) == Some(blocks@[0].1)
                    &&& outcome.syndication == Some(SyndicationJob { revision: new_tip })
                    &&& (match chronological_chain(
                        load_fold(old(sphere_context).db@.blocks, push_body.blocks@),
                        push_body.tip,
                        push_body.base,
                    ) {
                        Some(chain) => ns_jobs_view(outcome.name_system_jobs@) == (
                        if ns_configured {
                            jobs_of_chain(
                                load_fold(old(sphere_context).db@.blocks, push_body.blocks@),
                                chain,
                            )
                        } else {
                            Seq::<NsJobView>::empty()
                        }),
                        None => false,
                    })
                },
            },
            Err(e) => e == PushError::Internal ==> (final(sphere_context).db@ == old(sphere_context).db@ || (final(sphere_context).db@.blocks == post_merge_db(
                old(sphere_context).db@,
                *push_body,
                *scope,
            ).blocks && final(sphere_context).db@.versions == old(sphere_context).db@.versions)
                || final(sphere_context).db@ == post_merge_db(
                old(sphere_context).db@,
                *push_body,
                *scope,
            )),
        },
{
    if !(push_body.sphere == scope.counterpart) {
        return Err(PushError::Forbidden);
    }
    let requested = Capability {
        with: SphereReference { did: scope.counterpart.clone() },
        can: SphereAction::Push,
    };
    match authority.try_authorize(&requested) {
        Ok(()) => {},
        Err(_) => {
            return Err(PushError::Unauthorized);
        },
    }
    let gateway_authorization = match &sphere_context.authorization {
        Some(held) => held.clone(),
        None => {
            return Err(PushError::Internal);
        },
    };
    let local_sphere_base_cid = sphere_context.db.get_version(&push_body.sphere);
    match (local_sphere_base_cid, &push_body.base) {
        (Some(mine), theirs) => {
            let conflict = match theirs {
                Some(cid) => !(*cid == mine),
                None => true,
            };
            if conflict {
                return Err(PushError::Conflict);
            }
            if push_body.tip == mine {
                return Ok(
                    PushOutcome {
                        response: PushResponse::NoChange,
                        name_system_jobs: Vec::new(),
                        syndication: None,
                    },
                );
            }
        },
        (None, Some(_)) => {
            return Err(PushError::MissingLineage);
        },
        (None, None) => {},
    }
    let jobs = match incorporate_lineage(scope, &mut sphere_context.db, push_body, ns_configured) {
        Ok(jobs) => jobs,
        Err(e) => {
            return Err(e);
        },
    };
    let update_result = update_gateway_sphere(
        &push_body.tip,
        scope,
        &sphere_context.author_key,
        &gateway_authorization,
        &mut sphere_context.db,
    );
    let (new_tip, new_blocks) = match update_result {
        Ok(pair) => pair,
        Err(e) => {
            return Err(e);
        },
    };
    Ok(
        PushOutcome {
            response: PushResponse::Accepted { new_tip, blocks: new_blocks },
            name_system_jobs: jobs,
            syndication: Some(SyndicationJob { revision: new_tip }),
        },
    )
}

} // verus!
