use noosphere_sync::authority::Authorization;
use noosphere_sync::authority::Capability;
use noosphere_sync::authority::SphereAction;
use noosphere_sync::authority::SphereReference;
use noosphere_sync::data::Cid;
use noosphere_sync::data::Did;
use noosphere_sync::data::Jwt;
use noosphere_sync::gateway::push_route;
use noosphere_sync::gateway::GatewayAuthority;
use noosphere_sync::gateway::GatewayContext;
use noosphere_sync::gateway::GatewayScope;
use noosphere_sync::gateway::NsJob;
use noosphere_sync::gateway::PushBody;
use noosphere_sync::gateway::PushError;
use noosphere_sync::gateway::PushResponse;
use noosphere_sync::gateway::SyndicationJob;
use noosphere_sync::revision::Bundle;
use noosphere_sync::revision::MapOperation;
use noosphere_sync::revision::Revision;
use noosphere_sync::store::SphereDb;

const GATEWAY_ROOT: Cid = Cid(100);

fn did(value: &str) -> Did {
    Did(value.to_string())
}

fn client_revision(parent: Option<Cid>, adds: &[(&str, &str)]) -> Revision {
    let names: Vec<(String, Did)> =
        adds.iter().map(|(name, address)| (name.to_string(), did(address))).collect();
    let name_changes: Vec<MapOperation<String, Did>> = adds
        .iter()
        .map(|(name, address)| MapOperation::Add { key: name.to_string(), value: did(address) })
        .collect();
    Revision {
        parent,
        author: did("did:key:client"),
        links: Vec::new(),
        names,
        name_changes,
        signature: Some(Jwt("signature".to_string())),
        authorization: None,
    }
}

fn gateway(counterpart_version: Option<Cid>) -> (GatewayAuthority, GatewayContext, GatewayScope) {
    let scope =
        GatewayScope { identity: did("did:key:gateway"), counterpart: did("did:key:client") };
    let mut db = SphereDb::new();
    db.put_block(&GATEWAY_ROOT, client_revision(None, &[]));
    db.set_version(&scope.identity, &GATEWAY_ROOT);
    if let Some(version) = counterpart_version {
        db.set_version(&scope.counterpart, &version);
    }
    let authority = GatewayAuthority {
        capability: Capability {
            with: SphereReference { did: did("did:key:client") },
            can: SphereAction::Push,
        },
    };
    let context = GatewayContext {
        db,
        author_key: did("did:key:gateway-signer"),
        authorization: Some(Authorization { token: Jwt("delegation".to_string()) }),
    };
    (authority, context, scope)
}

fn push(sphere: &str, base: Option<Cid>, tip: Cid, blocks: Vec<(Cid, Revision)>) -> PushBody {
    PushBody { sphere: did(sphere), base, tip, blocks: Bundle { blocks } }
}

#[test]
fn first_push_is_accepted_and_advances_both_pointers() {
    let (authority, mut context, scope) = gateway(None);
    let t1 = Cid(1);
    let body = push("did:key:client", None, t1, vec![(t1, client_revision(None, &[]))]);
    let outcome = push_route(&authority, &mut context, &scope, &body, false).unwrap();
    match outcome.response {
        PushResponse::Accepted { new_tip, blocks } => {
            assert_eq!(new_tip, Cid(101));
            assert_eq!(context.db.get_version(&scope.counterpart), Some(t1));
            assert_eq!(context.db.get_version(&scope.identity), Some(new_tip));
            assert_eq!(blocks.blocks.len(), 1);
            assert_eq!(blocks.blocks[0].0, new_tip);
            assert_eq!(blocks.blocks[0].1.parent, Some(GATEWAY_ROOT));
            let stored = context.db.get_block(&new_tip).unwrap();
            let link = stored
                .links
                .iter()
                .find(|pair| pair.0.as_str() == "did:key:client")
                .map(|pair| pair.1);
            assert_eq!(link, Some(t1));
            assert_eq!(
                stored.signature.as_ref().map(|jwt| jwt.as_str()),
                Some("did:key:gateway-signer")
            );
            assert_eq!(outcome.syndication, Some(SyndicationJob { revision: new_tip }));
        }
        PushResponse::NoChange => panic!("expected an accepted merge"),
    }
}

#[test]
fn stale_base_is_a_conflict() {
    let t1 = Cid(1);
    let (authority, mut context, scope) = gateway(Some(t1));
    let body = push("did:key:client", Some(Cid(7)), Cid(2), Vec::new());
    let result = push_route(&authority, &mut context, &scope, &body, false);
    assert_eq!(result.err(), Some(PushError::Conflict));
    assert_eq!(context.db.get_version(&scope.counterpart), Some(t1));
    assert_eq!(context.db.get_version(&scope.identity), Some(GATEWAY_ROOT));
}

#[test]
fn absent_base_against_recorded_tip_is_a_conflict() {
    let t1 = Cid(1);
    let (authority, mut context, scope) = gateway(Some(t1));
    let body = push("did:key:client", None, t1, Vec::new());
    let result = push_route(&authority, &mut context, &scope, &body, false);
    assert_eq!(result.err(), Some(PushError::Conflict));
}

#[test]
fn identical_tip_is_no_change_and_writes_nothing() {
    let t1 = Cid(1);
    let (authority, mut context, scope) = gateway(Some(t1));
    let blocks_before = context.db.blocks.len();
    let body = push("did:key:client", Some(t1), t1, Vec::new());
    let outcome = push_route(&authority, &mut context, &scope, &body, true).unwrap();
    assert!(matches!(outcome.response, PushResponse::NoChange));
    assert!(outcome.name_system_jobs.is_empty());
    assert!(outcome.syndication.is_none());
    assert_eq!(context.db.blocks.len(), blocks_before);
    assert_eq!(context.db.get_version(&scope.counterpart), Some(t1));
    assert_eq!(context.db.get_version(&scope.identity), Some(GATEWAY_ROOT));
}

#[test]
fn foreign_sphere_identity_is_forbidden() {
    let (authority, mut context, scope) = gateway(None);
    let body = push("did:key:stranger", None, Cid(1), Vec::new());
    let result = push_route(&authority, &mut context, &scope, &body, false);
    assert_eq!(result.err(), Some(PushError::Forbidden));
    assert_eq!(context.db.get_version(&scope.counterpart), None);
}

#[test]
fn wrong_capability_action_is_unauthorized() {
    let (_, mut context, scope) = gateway(None);
    let authority = GatewayAuthority {
        capability: Capability {
            with: SphereReference { did: did("did:key:client") },
            can: SphereAction::Fetch,
        },
    };
    let body = push("did:key:client", None, Cid(1), Vec::new());
    let result = push_route(&authority, &mut context, &scope, &body, false);
    assert_eq!(result.err(), Some(PushError::Unauthorized));
    assert_eq!(context.db.get_version(&scope.counterpart), None);
}

#[test]
fn wrong_capability_scope_is_unauthorized() {
    let (_, mut context, scope) = gateway(None);
    let authority = GatewayAuthority {
        capability: Capability {
            with: SphereReference { did: did("did:key:other") },
            can: SphereAction::Push,
        },
    };
    let body = push("did:key:client", None, Cid(1), Vec::new());
    let result = push_route(&authority, &mut context, &scope, &body, false);
    assert_eq!(result.err(), Some(PushError::Unauthorized));
}

#[test]
fn base_without_local_lineage_is_rejected() {
    let (authority, mut context, scope) = gateway(None);
    let body = push("did:key:client", Some(Cid(1)), Cid(2), Vec::new());
    let result = push_route(&authority, &mut context, &scope, &body, false);
    assert_eq!(result.err(), Some(PushError::MissingLineage));
    assert_eq!(context.db.get_version(&scope.counterpart), None);
}

#[test]
fn missing_gateway_authorization_is_internal() {
    let (authority, mut context, scope) = gateway(None);
    context.authorization = None;
    let t1 = Cid(1);
    let body = push("did:key:client", None, t1, vec![(t1, client_revision(None, &[]))]);
    let result = push_route(&authority, &mut context, &scope, &body, false);
    assert_eq!(result.err(), Some(PushError::Internal));
    assert_eq!(context.db.get_version(&scope.counterpart), None);
}

#[test]
fn incomplete_lineage_in_bundle_is_internal() {
    let (authority, mut context, scope) = gateway(None);
    let body = push("did:key:client", None, Cid(1), Vec::new());
    let result = push_route(&authority, &mut context, &scope, &body, false);
    assert_eq!(result.err(), Some(PushError::Internal));
    assert_eq!(context.db.get_version(&scope.counterpart), None);
}

#[test]
fn unrecorded_gateway_version_fails_after_merge() {
    let scope =
        GatewayScope { identity: did("did:key:gateway"), counterpart: did("did:key:client") };
    let authority = GatewayAuthority {
        capability: Capability {
            with: SphereReference { did: did("did:key:client") },
            can: SphereAction::Push,
        },
    };
    let mut context = GatewayContext {
        db: SphereDb::new(),
        author_key: did("did:key:gateway-signer"),
        authorization: Some(Authorization { token: Jwt("delegation".to_string()) }),
    };
    let t1 = Cid(1);
    let body = push("did:key:client", None, t1, vec![(t1, client_revision(None, &[]))]);
    let result = push_route(&authority, &mut context, &scope, &body, false);
    assert_eq!(result.err(), Some(PushError::Internal));
    // the merge had already advanced the counterpart's record: a retried push
    // with the same tip answers Conflict/NoChange rather than corrupting state
    assert_eq!(context.db.get_version(&scope.counterpart), Some(t1));
}

#[test]
fn merged_lineage_emits_name_system_jobs_in_causal_order() {
    let (authority, mut context, scope) = gateway(None);
    let t1 = Cid(1);
    let t2 = Cid(2);
    let body = push(
        "did:key:client",
        None,
        t2,
        vec![
            (t1, client_revision(None, &[("alice", "did:key:alice")])),
            (t2, client_revision(Some(t1), &[("bob", "did:key:bob")])),
        ],
    );
    let outcome = push_route(&authority, &mut context, &scope, &body, true).unwrap();
    let jobs: Vec<(String, String)> = outcome
        .name_system_jobs
        .iter()
        .map(|job| match job {
            NsJob::GetRecord { pet_name, sphere_id } => {
                (pet_name.clone(), sphere_id.as_str().to_string())
            }
        })
        .collect();
    assert_eq!(
        jobs,
        vec![
            ("alice".to_string(), "did:key:alice".to_string()),
            ("bob".to_string(), "did:key:bob".to_string()),
        ]
    );
    assert_eq!(context.db.get_version(&scope.counterpart), Some(t2));
}

#[test]
fn name_system_off_means_no_jobs() {
    let (authority, mut context, scope) = gateway(None);
    let t1 = Cid(1);
    let body = push(
        "did:key:client",
        None,
        t1,
        vec![(t1, client_revision(None, &[("alice", "did:key:alice")]))],
    );
    let outcome = push_route(&authority, &mut context, &scope, &body, false).unwrap();
    assert!(outcome.name_system_jobs.is_empty());
    assert!(matches!(outcome.response, PushResponse::Accepted { .. }));
}

#[test]
fn delta_bundle_hydrates_the_new_tip_over_old_ancestry() {
    let (authority, mut context, scope) = gateway(None);
    let t1 = Cid(1);
    let body = push("did:key:client", None, t1, vec![(t1, client_revision(None, &[]))]);
    let outcome = push_route(&authority, &mut context, &scope, &body, false).unwrap();
    match outcome.response {
        PushResponse::Accepted { new_tip, blocks } => {
            // a store holding only the old gateway ancestry, plus the delta,
            // resolves the new tip completely
            let mut mirror = SphereDb::new();
            mirror.put_block(&GATEWAY_ROOT, client_revision(None, &[]));
            blocks.load_into(&mut mirror);
            let sphere = noosphere_sync::view::Sphere::at(&new_tip, &mirror);
            assert!(sphere.try_hydrate().is_ok());
        }
        PushResponse::NoChange => panic!("expected an accepted merge"),
    }
}

#[test]
fn removed_names_ask_for_no_resolution() {
    let (authority, mut context, scope) = gateway(None);
    let t1 = Cid(1);
    let mut revision = client_revision(None, &[("alice", "did:key:alice")]);
    revision.name_changes.push(MapOperation::Remove { key: "alice".to_string() });
    let body = push("did:key:client", None, t1, vec![(t1, revision)]);
    let outcome = push_route(&authority, &mut context, &scope, &body, true).unwrap();
    assert_eq!(outcome.name_system_jobs.len(), 1);
    match &outcome.name_system_jobs[0] {
        NsJob::GetRecord { pet_name, .. } => assert_eq!(pet_name, "alice"),
    }
}

#[test]
fn fast_forward_from_recorded_tip_is_accepted() {
    let t1 = Cid(1);
    let (authority, mut context, scope) = gateway(Some(t1));
    context.db.put_block(&t1, client_revision(None, &[]));
    let t2 = Cid(2);
    let body =
        push("did:key:client", Some(t1), t2, vec![(t2, client_revision(Some(t1), &[]))]);
    let outcome = push_route(&authority, &mut context, &scope, &body, false).unwrap();
    match outcome.response {
        PushResponse::Accepted { new_tip, .. } => {
            assert_eq!(context.db.get_version(&scope.counterpart), Some(t2));
            assert_eq!(context.db.get_version(&scope.identity), Some(new_tip));
        }
        PushResponse::NoChange => panic!("expected an accepted merge"),
    }
}
