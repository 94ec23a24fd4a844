//! Properties of a generated application.

pub mod name;

use vstd::prelude::*;
use vstd::string::*;
use heck::CamelCase;
use crate::component::Version;
use crate::properties::name::{pascal_case, App, Author, Type};

verus! {

/// Rust edition of a generated application.
#[derive(Clone, Copy, Debug, PartialEq, Eq, Structural)]
pub enum Edition {
    Rust2015,
    Rust2018,
}

/// Properties of the framework that an application is generated for.
#[derive(Clone, Debug, PartialEq, Eq)]
pub struct FrameworkProperties {
    /// Version of the framework.
    pub version: String,
}

impl FrameworkProperties {
    /// The properties of the framework at `version`.
    pub fn new(version: &str) -> (r: FrameworkProperties)
        ensures
            r.version@ == version@,
    {
        FrameworkProperties { version: version.to_owned() }
    }
}

/// Properties of a generated application: what its templates are filled
/// with.
#[derive(Clone, Debug, PartialEq, Eq)]
pub struct Properties {
    /// Properties of the framework.
    pub abscissa: FrameworkProperties,
    /// Name of the application.
    pub name: App,
    /// Title of the application.
    pub title: String,
    /// Description of the application.
    pub description: String,
    /// Authors of the application.
    pub authors: Vec<Author>,
    /// Version of the application.
    pub version: Version,
    /// Rust edition of the application.
    pub edition: Edition,
    /// A `[patch.crates-io]` section for the manifest, if one is wanted.
    pub patch_crates_io: Option<String>,
    /// Name of the application type.
    pub application_type: Type,
    /// Name of the command type.
    pub command_type: Type,
    /// Name of the configuration type.
    pub config_type: Type,
    /// Name of the error type.
    pub error_type: Type,
    /// Name of the error kind type.
    pub error_kind_type: Type,
}

/// The camel case form of a string as `heck` computes it: the words of the
/// string, each with its first letter in upper case and the rest in lower
/// case, put together without separators.
pub uninterp spec fn camel_case(s: Seq<char>) -> Seq<char>;

/// `CamelCase::to_camel_case` of `heck` on `str`: the result is a function
/// of the characters of `s` alone.
#[verifier::external_body]
fn to_camel_case(s: &str) -> (r: String)
    ensures
        r@ == camel_case(s@),
{
    s.to_camel_case()
}

/// The title of an application of the given name: the name in camel case.
pub fn title_for(app_name: &str) -> (r: String)
    ensures
        r@ == camel_case(app_name@),
{
    to_camel_case(app_name)
}

/// The name of one of the types of an application: the name of the
/// application and the suffix in Pascal case.
pub open spec fn name_of_type(app_name: Seq<char>, suffix: Seq<char>) -> Seq<char> {
    pascal_case(app_name + suffix, true)
}

/// The type name for `app_name` with `suffix`.
fn type_for(app_name: &str, suffix: &str) -> (r: Type)
    ensures
        r@ == name_of_type(app_name@, suffix@),
{
    let snake = app_name.to_owned().concat(suffix);
    Type::from_snake_case(snake.as_str())
}

impl Properties {
    /// What `new` fills in for an application called `app_name` with the
    /// given title.
    pub open spec fn describes(
        &self,
        framework_version: Seq<char>,
        app_name: Seq<char>,
        title: Seq<char>,
        patch_crates_io: Option<String>,
    ) -> bool {
        &&& self.abscissa.version@ == framework_version
        &&& self.name@ == app_name
        &&& self.title@ == title
        &&& self.description@ == title
        &&& self.authors@.len() == 0
        &&& self.version == (Version { major: 0, minor: 1, patch: 0 })
        &&& self.edition == Edition::Rust2018
        &&& self.patch_crates_io == patch_crates_io
        &&& self.application_type@ == name_of_type(app_name, "_application"@)
        &&& self.command_type@ == name_of_type(app_name, "_command"@)
        &&& self.config_type@ == name_of_type(app_name, "_config"@)
        &&& self.error_type@ == name_of_type(app_name, "_error"@)
        &&& self.error_kind_type@ == name_of_type(app_name, "_error_kind"@)
    }

    /// The properties of a new application called `app_name`, with the given
    /// title: the description is the title, there are no authors yet, the
    /// version is 0.1.0, the edition is 2018, and the types are named after
    /// the application.
    pub fn new(
        framework_version: &str,
        app_name: &str,
        title: String,
        patch_crates_io: Option<String>,
    ) -> (r: Properties)
        ensures
            r.describes(framework_version@, app_name@, title@, patch_crates_io),
    {
        let description = title.clone();
        Properties {
            abscissa: FrameworkProperties::new(framework_version),
            name: App(app_name.to_owned()),
            title,
            description,
            authors: Vec::new(),
            version: Version::new(0, 1, 0),
            edition: Edition::Rust2018,
            patch_crates_io,
            application_type: type_for(app_name, "_application"),
            command_type: type_for(app_name, "_command"),
            config_type: type_for(app_name, "_config"),
            error_type: type_for(app_name, "_error"),
            error_kind_type: type_for(app_name, "_error_kind"),
        }
    }
}

} // verus!
