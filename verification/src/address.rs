//! Identities: the principals that link, hold balances and approve goals.

use vstd::prelude::*;

verus! {

/// An identity, held as the text by which the ledger names it.
///
/// Two addresses stand for the same principal exactly when their texts are
/// equal; nothing else about the text is looked at.
#[derive(Debug)]
pub struct Address {
    name: String,
}

impl View for Address {
    type V = Seq<char>;

    closed spec fn view(&self) -> Seq<char> {
        self.name@
    }
}

/// The identity that an optional address holds, if it holds one.
pub open spec fn opt_view(a: Option<Address>) -> Option<Seq<char>> {
    match a {
        Some(who) => Some(who@),
        None => None,
    }
}

impl Address {
    /// The identity named by `name`.
    pub fn new(name: &str) -> (a: Address)
        ensures
            a@ == name@,
    {
        Address { name: name.to_owned() }
    }

    /// The text that names this identity.
    pub fn as_str(&self) -> (s: &str)
        ensures
            s@ == self@,
    {
        self.name.as_str()
    }
}

impl Clone for Address {
    fn clone(&self) -> (a: Address)
        ensures
            a@ == self@,
    {
        Address { name: self.name.clone() }
    }
}

impl PartialEq for Address {
    fn eq(&self, other: &Address) -> (r: bool) {
        self.name == other.name
    }
}

impl Eq for Address {}

impl vstd::std_specs::cmp::PartialEqSpecImpl for Address {
    open spec fn obeys_eq_spec() -> bool {
        true
    }

    open spec fn eq_spec(&self, other: &Address) -> bool {
        self@ == other@
    }
}

} // verus!
