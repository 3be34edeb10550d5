use noosphere_sync::authority::Authorization;
use noosphere_sync::data::Cid;
use noosphere_sync::data::Did;
use noosphere_sync::data::Jwt;
use noosphere_sync::revision::did_cid_get;
use noosphere_sync::revision::Bundle;
use noosphere_sync::revision::MapOperation;
use noosphere_sync::revision::Revision;
use noosphere_sync::revision::SphereMutation;
use noosphere_sync::store::SphereDb;
use noosphere_sync::store::StoreError;
use noosphere_sync::view::Sphere;
use noosphere_sync::view::Timeline;

fn did(value: &str) -> Did {
    Did(value.to_string())
}

fn revision(parent: Option<Cid>) -> Revision {
    Revision {
        parent,
        author: did("did:key:author"),
        links: Vec::new(),
        names: Vec::new(),
        name_changes: Vec::new(),
        signature: None,
        authorization: None,
    }
}

fn chain_db() -> SphereDb {
    let mut db = SphereDb::new();
    db.put_block(&Cid(1), revision(None));
    db.put_block(&Cid(2), revision(Some(Cid(1))));
    db.put_block(&Cid(3), revision(Some(Cid(2))));
    db
}

#[test]
fn chronological_order_is_ancestor_first() {
    let db = chain_db();
    let timeline = Timeline::new(&db);
    let steps = timeline.slice(&Cid(3), None).try_to_chronological().unwrap();
    assert_eq!(steps, vec![Cid(1), Cid(2), Cid(3)]);
}

#[test]
fn slice_excludes_the_base() {
    let db = chain_db();
    let timeline = Timeline::new(&db);
    let steps = timeline.slice(&Cid(3), Some(&Cid(1))).try_to_chronological().unwrap();
    assert_eq!(steps, vec![Cid(2), Cid(3)]);
}

#[test]
fn base_that_is_no_ancestor_fails() {
    let db = chain_db();
    let timeline = Timeline::new(&db);
    assert!(timeline.slice(&Cid(3), Some(&Cid(9))).try_to_chronological().is_err());
}

#[test]
fn missing_block_fails_the_walk() {
    let mut db = SphereDb::new();
    db.put_block(&Cid(3), revision(Some(Cid(2))));
    let timeline = Timeline::new(&db);
    assert!(timeline.slice(&Cid(3), None).try_to_chronological().is_err());
}

#[test]
fn cyclic_parents_fail_the_walk() {
    let mut db = SphereDb::new();
    db.put_block(&Cid(1), revision(Some(Cid(2))));
    db.put_block(&Cid(2), revision(Some(Cid(1))));
    let timeline = Timeline::new(&db);
    assert!(timeline.slice(&Cid(1), None).try_to_chronological().is_err());
}

#[test]
fn bundle_until_ancestor_collects_the_delta() {
    let db = chain_db();
    let sphere = Sphere::at(&Cid(3), &db);
    let bundle = sphere.try_bundle_until_ancestor(Some(&Cid(1))).unwrap();
    let cids: Vec<Cid> = bundle.blocks.iter().map(|pair| pair.0).collect();
    assert_eq!(cids, vec![Cid(3), Cid(2)]);
    assert_eq!(bundle.blocks[0].1.parent, Some(Cid(2)));
}

#[test]
fn bundle_without_ancestor_collects_all_of_history() {
    let db = chain_db();
    let sphere = Sphere::at(&Cid(3), &db);
    let bundle = sphere.try_bundle_until_ancestor(None).unwrap();
    assert_eq!(bundle.blocks.len(), 3);
}

#[test]
fn hydrate_requires_node_and_parent() {
    let mut db = SphereDb::new();
    db.put_block(&Cid(2), revision(Some(Cid(1))));
    assert!(Sphere::at(&Cid(2), &db).try_hydrate().is_err());
    db.put_block(&Cid(1), revision(None));
    assert!(Sphere::at(&Cid(2), &db).try_hydrate().is_ok());
    assert!(Sphere::at(&Cid(9), &db).try_hydrate().is_err());
}

#[test]
fn mutation_replay_updates_the_maps() {
    let mut db = SphereDb::new();
    let mut parent = revision(None);
    parent.links.push((did("did:key:old"), Cid(5)));
    db.put_block(&Cid(1), parent);
    let mut mutation = SphereMutation::new(&did("did:key:author"));
    mutation.set_link(&did("did:key:new"), &Cid(6));
    mutation.remove_link(&did("did:key:old"));
    mutation.set_name(&"alice".to_string(), &did("did:key:alice"));
    let applied = Sphere::at(&Cid(1), &db).try_apply_mutation(&mutation).unwrap();
    assert_eq!(applied.parent, Some(Cid(1)));
    assert_eq!(did_cid_get(&applied.links, &did("did:key:new")), Some(Cid(6)));
    assert_eq!(did_cid_get(&applied.links, &did("did:key:old")), None);
    assert_eq!(applied.names.len(), 1);
    assert_eq!(applied.names[0].0, "alice");
    assert_eq!(applied.name_changes.len(), 1);
    assert!(applied.signature.is_none());
}

#[test]
fn apply_fails_without_the_parent_block() {
    let db = SphereDb::new();
    let mutation = SphereMutation::new(&did("did:key:author"));
    assert!(Sphere::at(&Cid(1), &db).try_apply_mutation(&mutation).is_err());
}

#[test]
fn signing_binds_key_and_authorization_under_a_fresh_cid() {
    let mut db = SphereDb::new();
    db.put_block(&Cid(7), revision(None));
    let unsigned = revision(Some(Cid(7)));
    let grant = Authorization { token: Jwt("delegation".to_string()) };
    let cid = unsigned.try_sign(&did("did:key:signer"), Some(&grant), &mut db).unwrap();
    assert_eq!(cid, Cid(8));
    let stored = db.get_block(&cid).unwrap();
    assert_eq!(stored.signature.as_ref().map(|jwt| jwt.as_str()), Some("did:key:signer"));
    assert_eq!(
        stored.authorization.as_ref().map(|held| held.token.as_str()),
        Some("delegation")
    );
}

#[test]
fn versions_are_recorded_per_identity() {
    let mut db = SphereDb::new();
    assert_eq!(db.get_version(&did("did:key:a")), None);
    assert_eq!(db.require_version(&did("did:key:a")), Err(StoreError::NotFound));
    db.set_version(&did("did:key:a"), &Cid(1));
    db.set_version(&did("did:key:b"), &Cid(2));
    db.set_version(&did("did:key:a"), &Cid(3));
    assert_eq!(db.get_version(&did("did:key:a")), Some(Cid(3)));
    assert_eq!(db.require_version(&did("did:key:b")), Ok(Cid(2)));
}

#[test]
fn loading_a_bundle_overwrites_in_order() {
    let mut db = SphereDb::new();
    let bundle = Bundle {
        blocks: vec![
            (Cid(1), revision(None)),
            (Cid(1), revision(Some(Cid(9)))),
            (Cid(2), revision(Some(Cid(1)))),
        ],
    };
    bundle.load_into(&mut db);
    assert_eq!(db.get_block(&Cid(1)).unwrap().parent, Some(Cid(9)));
    assert_eq!(db.get_block(&Cid(2)).unwrap().parent, Some(Cid(1)));
    assert!(db.get_block(&Cid(3)).is_none());
}

#[test]
fn fresh_identifiers_follow_the_largest_in_use() {
    let mut db = SphereDb::new();
    assert_eq!(db.max_block_cid(), 0);
    db.put_block(&Cid(41), revision(None));
    db.put_block(&Cid(7), revision(None));
    assert_eq!(db.max_block_cid(), 41);
    let fresh = db.put_new_block(revision(None)).unwrap();
    assert_eq!(fresh, Cid(42));
    assert!(db.get_block(&fresh).is_some());
}

#[test]
fn map_operation_remove_drops_every_pair_with_the_key() {
    let mut db = SphereDb::new();
    let mut parent = revision(None);
    parent.links.push((did("did:key:dup"), Cid(1)));
    parent.links.push((did("did:key:keep"), Cid(2)));
    parent.links.push((did("did:key:dup"), Cid(3)));
    db.put_block(&Cid(1), parent);
    let mut mutation = SphereMutation::new(&did("did:key:author"));
    mutation.remove_link(&did("did:key:dup"));
    let applied = Sphere::at(&Cid(1), &db).try_apply_mutation(&mutation).unwrap();
    assert_eq!(did_cid_get(&applied.links, &did("did:key:dup")), None);
    assert_eq!(did_cid_get(&applied.links, &did("did:key:keep")), Some(Cid(2)));
}
