//! Secret-management boundary: configuration carries opaque references to
//! credentials that are stored elsewhere, never the credentials themselves.
use vstd::prelude::*;

verus! {

/// Opaque identifier of a credential stored outside normal configuration.
#[derive(Debug, PartialEq, Eq, Hash)]
pub struct SecretRef(String);

impl View for SecretRef {
    type V = Seq<char>;

    closed spec fn view(&self) -> Seq<char> {
        self.0@
    }
}

impl SecretRef {
    /// A reference with the given identifier.
    pub fn new(value: &str) -> (r: SecretRef)
        ensures
            r@ == value@,
    {
        SecretRef(value.to_owned())
    }

    /// The (non-secret) identifier.
    pub fn as_str(&self) -> (s: &str)
        ensures
            s@ == self@,
    {
        self.0.as_str()
    }

    /// The identifier as display text.
    pub fn to_text(&self) -> (s: String)
        ensures
            s@ == self@,
    {
        self.0.clone()
    }
}

impl Clone for SecretRef {
    fn clone(&self) -> (c: SecretRef)
        ensures
            c@ == self@,
    {
        SecretRef(self.0.clone())
    }
}

} // verus!
