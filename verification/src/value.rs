//! Values of fields that the parser tells apart by their meaning.
use vstd::prelude::*;

verus! {

/// The name of a package: the value of a `pkgname` line.
#[derive(Debug, Clone, Copy)]
pub struct Name<'a>(pub &'a str);

impl<'a> View for Name<'a> {
    type V = Seq<char>;

    open spec fn view(&self) -> Seq<char> {
        self.0@
    }
}

impl<'a> Name<'a> {
    /// The name as text.
    pub fn as_str(self) -> (r: &'a str)
        ensures
            r@ == self@,
    {
        self.0
    }
}

} // verus!
