//! Component names.

use vstd::prelude::*;

verus! {

/// Name of an individual component.
///
/// This should ideally match the Rust path name to the corresponding type.
#[derive(Copy, Clone, Debug, Eq, Hash, PartialEq, Ord, PartialOrd)]
pub struct Name(pub &'static str);

impl View for Name {
    type V = Seq<char>;

    open spec fn view(&self) -> Seq<char> {
        self.0@
    }
}

/// The views of a list of names.
pub open spec fn names(list: Seq<Name>) -> Seq<Seq<char>> {
    list.map_values(|n: Name| n@)
}

/// `==` of `str`: two string slices are equal exactly when they hold the
/// same characters in the same order.
#[verifier::external_body]
fn str_eq(a: &str, b: &str) -> (r: bool)
    ensures
        r == (a@ == b@),
{
    a == b
}

impl AsRef<str> for Name {
    fn as_ref(&self) -> (r: &str)
        ensures
            r@ == self@,
    {
        self.0
    }
}

impl Name {
    /// The name as an owned string.
    pub fn to_string(&self) -> (r: String)
        ensures
            r@ == self@,
    {
        self.0.to_owned()
    }

    /// Whether two names are the same name.
    pub fn same(&self, other: &Name) -> (r: bool)
        ensures
            r == (self@ == other@),
    {
        str_eq(self.0, other.0)
    }
}

/// Whether `name` occurs in `list`.
pub fn contains_name(list: &Vec<Name>, name: &Name) -> (r: bool)
    ensures
        r == names(list@).contains(name@),
{
    let mut k: usize = 0;
    while k < list.len()
        invariant
            k <= list.len(),
            forall|q: int| 0 <= q < k ==> list@[q]@ != name@,
        decreases list.len() - k,
    {
        if list[k].same(name) {
            assert(names(list@)[k as int] == name@);
            return true;
        }
        k += 1;
    }
    false
}

} // verus!
