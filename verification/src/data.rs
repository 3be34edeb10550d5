//! Primitive identity and reference types: decentralized identifiers,
//! token strings, and content identifiers.

use vstd::prelude::*;

verus! {

/// A DID (decentralized identifier): a stable, opaque string naming an
/// identity such as a sphere or a key.
#[derive(Debug)]
pub struct Did(pub String);

impl View for Did {
    type V = Seq<char>;

    open spec fn view(&self) -> Seq<char> {
        self.0@
    }
}

impl Did {
    /// The identifier as a borrowed string.
    pub fn as_str(&self) -> (r: &str)
        ensures
            r@ == self@,
    {
        self.0.as_str()
    }

    /// An owned copy of the identifier string.
    pub fn to_string(&self) -> (r: String)
        ensures
            r@ == self@,
    {
        self.0.clone()
    }
}

impl Clone for Did {
    fn clone(&self) -> (r: Self)
        ensures
            r@ == self@,
    {
        Did(self.0.clone())
    }
}

impl PartialEq for Did {
    fn eq(&self, other: &Self) -> (r: bool) {
        self.0 == other.0
    }
}

impl Eq for Did {

}

impl vstd::std_specs::cmp::PartialEqSpecImpl for Did {
    open spec fn obeys_eq_spec() -> bool {
        true
    }

    open spec fn eq_spec(&self, other: &Self) -> bool {
        self@ == other@
    }
}

impl From<&str> for Did {
    fn from(value: &str) -> (r: Self)
        ensures
            r@ == value@,
    {
        Did(value.to_owned())
    }
}

impl vstd::std_specs::convert::FromSpecImpl<&str> for Did {
    open spec fn obeys_from_spec() -> bool {
        false
    }

    open spec fn from_spec(value: &str) -> Self {
        choose|r: Did| r@ == value@
    }
}

impl From<String> for Did {
    fn from(value: String) -> (r: Self) {
        Did(value)
    }
}

impl vstd::std_specs::convert::FromSpecImpl<String> for Did {
    open spec fn obeys_from_spec() -> bool {
        true
    }

    open spec fn from_spec(value: String) -> Self {
        Did(value)
    }
}

impl From<Did> for String {
    fn from(value: Did) -> (r: Self) {
        value.0
    }
}

impl vstd::std_specs::convert::FromSpecImpl<Did> for String {
    open spec fn obeys_from_spec() -> bool {
        true
    }

    open spec fn from_spec(value: Did) -> Self {
        value.0
    }
}

/// A JWT: the string encoding of a signed token, as used by delegated
/// authorization chains.
#[derive(Debug)]
pub struct Jwt(pub String);

impl View for Jwt {
    type V = Seq<char>;

    open spec fn view(&self) -> Seq<char> {
        self.0@
    }
}

impl Jwt {
    /// The token as a borrowed string.
    pub fn as_str(&self) -> (r: &str)
        ensures
            r@ == self@,
    {
        self.0.as_str()
    }
}

impl Clone for Jwt {
    fn clone(&self) -> (r: Self)
        ensures
            r@ == self@,
    {
        Jwt(self.0.clone())
    }
}

impl From<String> for Jwt {
    fn from(value: String) -> (r: Self) {
        Jwt(value)
    }
}

impl vstd::std_specs::convert::FromSpecImpl<String> for Jwt {
    open spec fn obeys_from_spec() -> bool {
        true
    }

    open spec fn from_spec(value: String) -> Self {
        Jwt(value)
    }
}

/// A BIP39-style mnemonic phrase standing for recoverable key material.
#[derive(Debug)]
pub struct Mnemonic(pub String);

impl View for Mnemonic {
    type V = Seq<char>;

    open spec fn view(&self) -> Seq<char> {
        self.0@
    }
}

impl Mnemonic {
    /// The phrase as a borrowed string.
    pub fn as_str(&self) -> (r: &str)
        ensures
            r@ == self@,
    {
        self.0.as_str()
    }
}

impl From<String> for Mnemonic {
    fn from(value: String) -> (r: Self) {
        Mnemonic(value)
    }
}

impl vstd::std_specs::convert::FromSpecImpl<String> for Mnemonic {
    open spec fn obeys_from_spec() -> bool {
        true
    }

    open spec fn from_spec(value: String) -> Self {
        Mnemonic(value)
    }
}

/// A content identifier: the address of one block, modelled as an opaque
/// number. The store hands out an unused address for each newly signed
/// revision; what a pushed bundle binds an address to is the pusher's claim.
#[derive(Clone, Copy, PartialEq, Eq, Structural, Debug, Hash)]
pub struct Cid(pub u64);

} // verus!
