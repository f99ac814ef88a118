use vstd::prelude::*;

verus! {

/// An identity in the credential store, compared by its exact text.
#[derive(Debug, Hash)]
pub struct Username(pub String);

impl View for Username {
    type V = Seq<char>;

    open spec fn view(&self) -> Seq<char> {
        self.0@
    }
}

impl Username {
    pub fn new(s: String) -> (r: Username)
        ensures
            r@ == s@,
    {
        Username(s)
    }

    /// Whether the two names are the same text.
    pub fn same_as(&self, other: &Username) -> (r: bool)
        ensures
            r == (self@ == other@),
    {
        self.0 == other.0
    }

    pub fn as_str(&self) -> (r: &str)
        ensures
            r@ == self@,
    {
        self.0.as_str()
    }
}

impl Clone for Username {
    fn clone(&self) -> (r: Self)
        ensures
            r == *self,
    {
        Username(self.0.clone())
    }
}

impl PartialEq for Username {
    fn eq(&self, other: &Username) -> (r: bool) {
        self.0 == other.0
    }
}

impl vstd::std_specs::cmp::PartialEqSpecImpl for Username {
    open spec fn obeys_eq_spec() -> bool {
        true
    }

    open spec fn eq_spec(&self, other: &Username) -> bool {
        self@ == other@
    }
}

impl Eq for Username {
}

impl From<String> for Username {
    fn from(s: String) -> (r: Username) {
        Username(s)
    }
}

impl vstd::std_specs::convert::FromSpecImpl<String> for Username {
    open spec fn obeys_from_spec() -> bool {
        true
    }

    open spec fn from_spec(s: String) -> Username {
        Username(s)
    }
}

} // verus!
