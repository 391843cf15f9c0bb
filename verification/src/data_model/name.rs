//! Textual identifiers. Each one is viewed as the sequence of its characters,
//! and two identifiers are the same exactly when their views are equal.

use vstd::prelude::*;
use vstd::std_specs::cmp::PartialEqSpecImpl;

verus! {

/// A name: the key of a metadata entry or of a binding in an evaluation context.
#[derive(Debug, Eq, PartialOrd, Ord, Hash)]
pub struct Name {
    text: String,
}

impl View for Name {
    type V = Seq<char>;

    closed spec fn view(&self) -> Seq<char> {
        self.text@
    }
}

impl Name {
    /// The name with the characters of `text`.
    pub fn new(text: &str) -> (r: Name)
        ensures
            r@ == text@,
    {
        Name { text: text.to_owned() }
    }

    /// The characters of the name.
    pub fn as_str(&self) -> (r: &str)
        ensures
            r@ == self@,
    {
        self.text.as_str()
    }
}

impl Clone for Name {
    fn clone(&self) -> (r: Name)
        ensures
            r == *self,
    {
        Name { text: self.text.clone() }
    }
}

impl PartialEq for Name {
    fn eq(&self, other: &Name) -> (r: bool) {
        self.text == other.text
    }
}

impl PartialEqSpecImpl for Name {
    open spec fn obeys_eq_spec() -> bool {
        true
    }

    open spec fn eq_spec(&self, other: &Name) -> bool {
        self@ == other@
    }
}

/// The identity of a trigger: unique within a registry and stable over the
/// trigger's life.
#[derive(Debug, Eq, PartialOrd, Ord, Hash)]
pub struct TriggerId {
    name: Name,
}

impl View for TriggerId {
    type V = Seq<char>;

    closed spec fn view(&self) -> Seq<char> {
        self.name@
    }
}

impl TriggerId {
    /// The identifier spelled `name`.
    pub fn new(name: Name) -> (r: TriggerId)
        ensures
            r@ == name@,
    {
        TriggerId { name }
    }

    /// The name that spells the identifier.
    pub fn name(&self) -> (r: &Name)
        ensures
            r@ == self@,
    {
        &self.name
    }
}

impl Clone for TriggerId {
    fn clone(&self) -> (r: TriggerId)
        ensures
            r == *self,
    {
        TriggerId { name: self.name.clone() }
    }
}

impl PartialEq for TriggerId {
    fn eq(&self, other: &TriggerId) -> (r: bool) {
        self.name == other.name
    }
}

impl PartialEqSpecImpl for TriggerId {
    open spec fn obeys_eq_spec() -> bool {
        true
    }

    open spec fn eq_spec(&self, other: &TriggerId) -> bool {
        self@ == other@
    }
}

/// The identity of an account: the authority on whose behalf an instruction
/// or a trigger runs.
#[derive(Debug, Eq, PartialOrd, Ord, Hash)]
pub struct AccountId {
    name: Name,
}

impl View for AccountId {
    type V = Seq<char>;

    closed spec fn view(&self) -> Seq<char> {
        self.name@
    }
}

impl AccountId {
    /// The account spelled `name`.
    pub fn new(name: Name) -> (r: AccountId)
        ensures
            r@ == name@,
    {
        AccountId { name }
    }

    /// The name that spells the account.
    pub fn name(&self) -> (r: &Name)
        ensures
            r@ == self@,
    {
        &self.name
    }
}

impl Clone for AccountId {
    fn clone(&self) -> (r: AccountId)
        ensures
            r == *self,
    {
        AccountId { name: self.name.clone() }
    }
}

impl PartialEq for AccountId {
    fn eq(&self, other: &AccountId) -> (r: bool) {
        self.name == other.name
    }
}

impl PartialEqSpecImpl for AccountId {
    open spec fn obeys_eq_spec() -> bool {
        true
    }

    open spec fn eq_spec(&self, other: &AccountId) -> bool {
        self@ == other@
    }
}

} // verus!
