use noosphere_sync::authority::AuthorityError;
use noosphere_sync::authority::Capability;
use noosphere_sync::authority::SphereAction;
use noosphere_sync::authority::SphereReference;
use noosphere_sync::authority::SphereSemantics;
use noosphere_sync::data::Did;

fn reference(did: &str) -> SphereReference {
    SphereReference { did: Did(did.to_string()) }
}

#[test]
fn action_tokens_round_trip() {
    let actions = [
        SphereAction::Fetch,
        SphereAction::Push,
        SphereAction::Publish,
        SphereAction::Authorize,
    ];
    for action in actions {
        let token = action.to_string();
        assert_eq!(SphereAction::try_from(token), Ok(action));
    }
}

#[test]
fn action_tokens_are_stable() {
    assert_eq!(SphereAction::Fetch.to_string(), "sphere/fetch");
    assert_eq!(SphereAction::Push.to_string(), "sphere/push");
    assert_eq!(SphereAction::Publish.to_string(), "sphere/publish");
    assert_eq!(SphereAction::Authorize.to_string(), "sphere/authorize");
}

#[test]
fn unrecognized_action_token_is_an_error() {
    assert_eq!(
        SphereAction::try_from("sphere/write".to_string()),
        Err(AuthorityError::UnrecognizedAction)
    );
    assert_eq!(
        SphereAction::try_from(String::new()),
        Err(AuthorityError::UnrecognizedAction)
    );
}

#[test]
fn sphere_reference_renders_as_uri() {
    assert_eq!(reference("did:key:z6MkExample").to_string(), "sphere:did:key:z6MkExample");
}

#[test]
fn sphere_reference_contains_exactly_equal_dids() {
    let a = reference("did:key:alpha");
    let b = reference("did:key:alpha");
    let c = reference("did:key:gamma");
    assert!(a.contains(&b));
    assert!(b.contains(&a));
    assert!(!a.contains(&c));
}

#[test]
fn sphere_reference_reads_sphere_urls() {
    let url = url::Url::parse("sphere:did:key:z6MkExample").unwrap();
    let parsed = SphereReference::try_from(&url).unwrap();
    assert_eq!(parsed.did.as_str(), "did:key:z6MkExample");
}

#[test]
fn sphere_reference_rejects_other_schemes() {
    let url = url::Url::parse("https://example.com/did:key:z6MkExample").unwrap();
    assert_eq!(
        SphereReference::try_from(&url),
        Err(AuthorityError::NotASphereReference)
    );
}

#[test]
fn uri_parts_must_name_the_sphere_scheme() {
    let ok = SphereReference::of_uri_parts("sphere", "did:key:abc").unwrap();
    assert_eq!(ok.did.as_str(), "did:key:abc");
    assert_eq!(
        SphereReference::of_uri_parts("spheres", "did:key:abc"),
        Err(AuthorityError::NotASphereReference)
    );
}

#[test]
fn authorize_accepts_matching_capability() {
    let semantics = SphereSemantics {};
    let held = Capability { with: reference("did:key:client"), can: SphereAction::Push };
    let requested = Capability { with: reference("did:key:client"), can: SphereAction::Push };
    assert!(semantics.authorize(&held, &requested).is_ok());
}

#[test]
fn authorize_rejects_wrong_action() {
    let semantics = SphereSemantics {};
    let held = Capability { with: reference("did:key:client"), can: SphereAction::Fetch };
    let requested = Capability { with: reference("did:key:client"), can: SphereAction::Push };
    assert_eq!(semantics.authorize(&held, &requested), Err(AuthorityError::Unauthorized));
}

#[test]
fn authorize_rejects_wrong_scope() {
    let semantics = SphereSemantics {};
    let held = Capability { with: reference("did:key:other"), can: SphereAction::Push };
    let requested = Capability { with: reference("did:key:client"), can: SphereAction::Push };
    assert_eq!(semantics.authorize(&held, &requested), Err(AuthorityError::Unauthorized));
}

#[test]
fn did_converts_to_and_from_strings() {
    let did = Did::from("did:key:abc".to_string());
    assert_eq!(did, Did::from("did:key:abc"));
    assert_eq!(did.as_str(), "did:key:abc");
    assert_eq!(did.to_string(), "did:key:abc");
    let back: String = String::from(did.clone());
    assert_eq!(back, "did:key:abc");
    assert_eq!(did, Did("did:key:abc".to_string()));
}

#[test]
fn jwt_and_mnemonic_wrap_their_strings() {
    let jwt = noosphere_sync::data::Jwt::from("eyJ.header.payload".to_string());
    assert_eq!(jwt.as_str(), "eyJ.header.payload");
    let mnemonic = noosphere_sync::data::Mnemonic::from("abandon ability able".to_string());
    assert_eq!(mnemonic.as_str(), "abandon ability able");
}
