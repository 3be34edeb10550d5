//! The capability vocabulary that gates protocol operations: a closed set of
//! actions, a sphere-scoped resource reference, and the containment rule that
//! authorization checks apply.

use vstd::prelude::*;

use crate::data::Did;
use crate::data::Jwt;

verus! {

/// A held, delegated authorization: the proof, carried as its token string,
/// that a key may act on a sphere. Creating and cryptographically verifying
/// such a grant happens out of band; the protocol only references it.
pub struct Authorization {
    pub token: Jwt,
}

impl View for Authorization {
    type V = Seq<char>;

    open spec fn view(&self) -> Seq<char> {
        self.token@
    }
}

impl Clone for Authorization {
    fn clone(&self) -> (r: Self)
        ensures
            r@ == self@,
    {
        Authorization { token: self.token.clone() }
    }
}

/// An error raised while interpreting capability tokens or references.
#[derive(Clone, Copy, PartialEq, Eq, Structural, Debug)]
pub enum AuthorityError {
    /// An action token that names no member of the closed action set.
    UnrecognizedAction,
    /// A URI that cannot be read as a sphere reference.
    NotASphereReference,
    /// A capability that does not satisfy the requested one.
    Unauthorized,
}

/// One of the closed set of actions that a capability may grant over a
/// sphere.
#[derive(Clone, Copy, PartialEq, Eq, Structural, Debug)]
pub enum SphereAction {
    /// May read information about a sphere from a counterpart.
    Fetch,
    /// May push an updated sphere lineage to a counterpart.
    Push,
    /// May publish a canonical revision to the name system.
    Publish,
    /// May transfer the authority delegated by a sphere to another key.
    Authorize,
}

/// The stable string token that each action serializes to.
pub open spec fn action_token(action: SphereAction) -> Seq<char> {
    match action {
        SphereAction::Authorize => "sphere/authorize"@,
        SphereAction::Publish => "sphere/publish"@,
        SphereAction::Push => "sphere/push"@,
        SphereAction::Fetch => "sphere/fetch"@,
    }
}

/// The four action tokens are pairwise distinct, so parsing a token picks at
/// most one action.
pub proof fn lemma_action_tokens_distinct()
    ensures
        forall|a: SphereAction, b: SphereAction| action_token(a) == action_token(b) ==> a == b,
{
    reveal_strlit("sphere/authorize");
    reveal_strlit("sphere/publish");
    reveal_strlit("sphere/push");
    reveal_strlit("sphere/fetch");
    assert forall|a: SphereAction, b: SphereAction| action_token(a) == action_token(b) implies a
        == b by {
        assert(action_token(SphereAction::Authorize).len() == 16);
        assert(action_token(SphereAction::Publish).len() == 14);
        assert(action_token(SphereAction::Push).len() == 11);
        assert(action_token(SphereAction::Fetch).len() == 12);
    }
}

impl SphereAction {
    /// The action's stable string token, e.g. `"sphere/push"`.
    pub fn to_string(&self) -> (r: String)
        ensures
            r@ == action_token(*self),
    {
        match self {
            SphereAction::Authorize => "sphere/authorize".to_owned(),
            SphereAction::Publish => "sphere/publish".to_owned(),
            SphereAction::Push => "sphere/push".to_owned(),
            SphereAction::Fetch => "sphere/fetch".to_owned(),
        }
    }

    /// Parses a stable string token back into an action. Unrecognized tokens
    /// are an error, never a silent default.
    pub fn try_from(value: String) -> (r: Result<SphereAction, AuthorityError>)
        ensures
            match r {
                Ok(action) => value@ == action_token(action),
                Err(e) => e == AuthorityError::UnrecognizedAction && forall|a: SphereAction|
                    value@ != action_token(a),
            },
    {
        let authorize: String = "sphere/authorize".to_owned();
        let publish: String = "sphere/publish".to_owned();
        let push: String = "sphere/push".to_owned();
        let fetch: String = "sphere/fetch".to_owned();
        if value == authorize {
            Ok(SphereAction::Authorize)
        } else if value == publish {
            Ok(SphereAction::Publish)
        } else if value == push {
            Ok(SphereAction::Push)
        } else if value == fetch {
            Ok(SphereAction::Fetch)
        } else {
            proof {
                assert forall|a: SphereAction| value@ != action_token(a) by {
                    match a {
                        SphereAction::Authorize => assert(value@ != action_token(a)),
                        SphereAction::Publish => assert(value@ != action_token(a)),
                        SphereAction::Push => assert(value@ != action_token(a)),
                        SphereAction::Fetch => assert(value@ != action_token(a)),
                    }
                }
            }
            Err(AuthorityError::UnrecognizedAction)
        }
    }
}

/// A resource scope naming one sphere by its DID.
#[derive(Debug)]
pub struct SphereReference {
    pub did: Did,
}

impl PartialEq for SphereReference {
    fn eq(&self, other: &Self) -> (r: bool) {
        self.did == other.did
    }
}

impl Eq for SphereReference {

}

impl vstd::std_specs::cmp::PartialEqSpecImpl for SphereReference {
    open spec fn obeys_eq_spec() -> bool {
        true
    }

    open spec fn eq_spec(&self, other: &Self) -> bool {
        self@ == other@
    }
}

impl View for SphereReference {
    type V = Seq<char>;

    open spec fn view(&self) -> Seq<char> {
        self.did@
    }
}

impl Clone for SphereReference {
    fn clone(&self) -> (r: Self)
        ensures
            r@ == self@,
    {
        SphereReference { did: self.did.clone() }
    }
}

impl SphereReference {
    /// Scope containment: one sphere reference contains another exactly when
    /// the DIDs are identical; there is no hierarchical wildcard scoping.
    pub fn contains(&self, other: &Self) -> (r: bool)
        ensures
            r == (other@ == self@),
    {
        other.did == self.did
    }

    /// The reference's URI form, `"sphere:<did>"`.
    pub fn to_string(&self) -> (r: String)
        ensures
            r@ == "sphere:"@ + self.did@,
    {
        let mut out: String = "sphere:".to_owned();
        out.append(self.did.as_str());
        out
    }

    /// Reads a sphere reference out of a URI already split into its scheme
    /// and path: the scheme must be exactly `"sphere"`, and the path is taken
    /// verbatim as the DID.
    pub fn of_uri_parts(scheme: &str, path: &str) -> (r: Result<SphereReference, AuthorityError>)
        ensures
            match r {
                Ok(reference) => scheme@ == "sphere"@ && reference@ == path@,
                Err(e) => e == AuthorityError::NotASphereReference && scheme@ != "sphere"@,
            },
    {
        let expected: String = "sphere".to_owned();
        let given: String = scheme.to_owned();
        if given == expected {
            Ok(SphereReference { did: Did(path.to_owned()) })
        } else {
            Err(AuthorityError::NotASphereReference)
        }
    }

    /// Reads a sphere reference out of a parsed URL: succeeds exactly when
    /// the URL's scheme is `"sphere"`, and then carries the URL's path
    /// verbatim as the DID.
    ///
    /// The URL value itself is opaque; all interpretation happens in
    /// [`SphereReference::of_uri_parts`] on the scheme and path handed back
    /// by the URL library.
    pub fn try_from(value: &url::Url) -> (r: Result<SphereReference, AuthorityError>)
        ensures
            r is Ok <==> url_scheme_of(*value) == "sphere"@,
            match r {
                Ok(reference) => reference@ == url_path_of(*value),
                Err(e) => e == AuthorityError::NotASphereReference,
            },
    {
        let scheme = url_scheme(value);
        let path = url_path(value);
        SphereReference::of_uri_parts(scheme.as_str(), path.as_str())
    }
}

/// The URL type of the `url` crate, declared so that verified signatures can
/// carry it; its contents stay opaque here.
#[verifier::external_type_specification]
#[verifier::external_body]
pub struct ExUrl(url::Url);

/// The scheme of a URL: a function of the URL value alone.
pub uninterp spec fn url_scheme_of(value: url::Url) -> Seq<char>;

/// The path of a URL: a function of the URL value alone.
pub uninterp spec fn url_path_of(value: url::Url) -> Seq<char>;

/// Relies on `url::Url::scheme`: returns the URL's scheme, the part of its
/// serialization before the first `":"`, a function of the URL value alone.
#[verifier::external_body]
fn url_scheme(value: &url::Url) -> (r: String)
    ensures
        r@ == url_scheme_of(*value),
{
    value.scheme().to_owned()
}

/// Relies on `url::Url::path`: returns the URL's path, the part of its
/// serialization after the scheme and authority and before any query or
/// fragment, a function of the URL value alone.
#[verifier::external_body]
fn url_path(value: &url::Url) -> (r: String)
    ensures
        r@ == url_path_of(*value),
{
    value.path().to_owned()
}

/// The capability semantics of spheres: resources are sphere references and
/// actions come from the closed [`SphereAction`] set.
pub struct SphereSemantics {}

/// A scoped capability: the grant (or request) of one action over one
/// sphere.
pub struct Capability {
    /// The resource scope the capability speaks of.
    pub with: SphereReference,
    /// The action the capability grants over that scope.
    pub can: SphereAction,
}

impl Clone for Capability {
    fn clone(&self) -> (r: Self)
        ensures
            r.with@ == self.with@,
            r.can == self.can,
    {
        Capability { with: self.with.clone(), can: self.can }
    }
}

/// Whether a held capability satisfies a requested one: the actions must be
/// equal and the held scope must contain the requested scope.
pub open spec fn capability_grants(held: Capability, requested: Capability) -> bool {
    held.can == requested.can && held.with@ == requested.with@
}

impl SphereSemantics {
    /// Authorization succeeds exactly when the held capability's action
    /// equals the requested action and its scope contains the requested
    /// scope. Cryptographic verification of the delegation chain behind the
    /// held capability is the caller's collaborator, not done here.
    pub fn authorize(&self, held: &Capability, requested: &Capability) -> (r: Result<
        (),
        AuthorityError,
    >)
        ensures
            r is Ok <==> capability_grants(*held, *requested),
    {
        if held.can == requested.can && held.with.contains(&requested.with) {
            Ok(())
        } else {
            Err(AuthorityError::Unauthorized)
        }
    }
}

} // verus!
