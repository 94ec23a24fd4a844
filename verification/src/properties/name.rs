//! Names used within a generated application.

use vstd::prelude::*;
use ident_case::RenameRule;

verus! {

/// Application name.
#[derive(Clone, Debug, Eq, PartialEq)]
pub struct App(pub String);

impl View for App {
    type V = Seq<char>;

    open spec fn view(&self) -> Seq<char> {
        self.0@
    }
}

impl AsRef<str> for App {
    fn as_ref(&self) -> (r: &str)
        ensures
            r@ == self@,
    {
        self.0.as_str()
    }
}

impl App {
    /// The name as an owned string.
    pub fn to_string(&self) -> (r: String)
        ensures
            r@ == self@,
    {
        self.0.clone()
    }
}

impl core::str::FromStr for App {
    type Err = ();

    /// The application name that `s` spells. Every string is one.
    fn from_str(s: &str) -> (r: Result<App, ()>)
        ensures
            r matches Ok(app) && app@ == s@,
    {
        Ok(App(s.to_owned()))
    }
}

/// Author name.
#[derive(Clone, Debug, Eq, PartialEq)]
pub struct Author(pub String);

impl View for Author {
    type V = Seq<char>;

    open spec fn view(&self) -> Seq<char> {
        self.0@
    }
}

impl AsRef<str> for Author {
    fn as_ref(&self) -> (r: &str)
        ensures
            r@ == self@,
    {
        self.0.as_str()
    }
}

impl From<String> for Author {
    /// The author that `s` names.
    fn from(s: String) -> (r: Author) {
        Author(s)
    }
}

impl vstd::std_specs::convert::FromSpecImpl<String> for Author {
    open spec fn obeys_from_spec() -> bool {
        true
    }

    open spec fn from_spec(s: String) -> Author {
        Author(s)
    }
}

impl AsRef<str> for Type {
    fn as_ref(&self) -> (r: &str)
        ensures
            r@ == self@,
    {
        self.0.as_str()
    }
}

/// Type names.
#[derive(Clone, Debug, Eq, PartialEq)]
pub struct Type(pub String);

impl View for Type {
    type V = Seq<char>;

    open spec fn view(&self) -> Seq<char> {
        self.0@
    }
}

/// The upper-case form of an ASCII lower-case letter; any other character
/// as it is.
pub open spec fn ascii_upper(c: char) -> char {
    if 'a' <= c && c <= 'z' {
        ((c as u32) - 32) as char
    } else {
        c
    }
}

/// A snake case name in Pascal case: underscores are dropped, and the
/// character after an underscore, like the first one if `capitalize` holds,
/// is put in upper case if it is an ASCII letter.
pub open spec fn pascal_case(s: Seq<char>, capitalize: bool) -> Seq<char>
    decreases s.len(),
{
    if s.len() == 0 {
        Seq::empty()
    } else if s[0] == '_' {
        pascal_case(s.drop_first(), true)
    } else if capitalize {
        seq![ascii_upper(s[0])] + pascal_case(s.drop_first(), false)
    } else {
        seq![s[0]] + pascal_case(s.drop_first(), false)
    }
}

/// `RenameRule::PascalCase.apply_to_field` of `ident_case`: it goes through
/// the characters once, drops each underscore, and puts the first character
/// and each character after an underscore through `to_ascii_uppercase`.
#[verifier::external_body]
fn apply_pascal_case(field: &str) -> (r: String)
    ensures
        r@ == pascal_case(field@, true),
{
    RenameRule::PascalCase.apply_to_field(field)
}

impl Type {
    /// A type name from a name that is in camel case already.
    pub fn from_camel_case(s: &str) -> (r: Type)
        ensures
            r@ == s@,
    {
        Type(s.to_owned())
    }

    /// A type name from a snake case name.
    pub fn from_snake_case(s: &str) -> (r: Type)
        ensures
            r@ == pascal_case(s@, true),
    {
        Type(apply_pascal_case(s))
    }
}

} // verus!
