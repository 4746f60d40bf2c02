//! The vault backend's domain name, carried as plain text.

use vstd::prelude::*;

verus! {

pub struct Domain {
    name: String,
}

impl View for Domain {
    type V = Seq<char>;

    closed spec fn view(&self) -> Seq<char> {
        self.name@
    }
}

impl Domain {
    pub fn new(name: String) -> (r: Domain)
        ensures
            r@ == name@,
    {
        Domain { name }
    }

    pub fn as_str(&self) -> (r: &str)
        ensures
            r@ == self@,
    {
        self.name.as_str()
    }
}

} // verus!
