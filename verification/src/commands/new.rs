//! `new` subcommand: generate a new application.

use vstd::prelude::*;
use crate::properties::{camel_case, title_for, Properties};

verus! {

/// `new` subcommand: generate a new application.
#[derive(Clone, Debug, Default, PartialEq, Eq)]
pub struct NewCommand {
    /// A `[patch.crates-io]` section to add to the manifest.
    pub patch_crates_io: Option<String>,
    /// Path to the newly generated application.
    pub app_path: Option<String>,
}

/// What is reported when no path was given.
pub open spec fn no_path_message() -> Seq<char> {
    "no app_path given"@
}

impl NewCommand {
    /// The path to the newly generated application.
    ///
    /// Fails if none was given.
    pub fn app_path(&self) -> (r: Result<&str, String>)
        ensures
            match self.app_path {
                Some(path) => r matches Ok(p) && p@ == path@,
                None => r matches Err(e) && e@ == no_path_message(),
            },
    {
        match &self.app_path {
            Some(path) => Ok(path.as_str()),
            None => Err("no app_path given".to_owned()),
        }
    }

    /// The properties of the application to generate, from the options of
    /// the command and the name of the application (the last part of the
    /// path): the title is the name in camel case, the rest follows from
    /// the name as `Properties::new` says.
    ///
    /// Fails if no path was given.
    pub fn parse_options(&self, app_name: &str, framework_version: &str) -> (r: Result<
        Properties,
        String,
    >)
        ensures
            match self.app_path {
                Some(_) => r matches Ok(p) && p.describes(
                    framework_version@,
                    app_name@,
                    camel_case(app_name@),
                    self.patch_crates_io,
                ),
                None => r matches Err(e) && e@ == no_path_message(),
            },
    {
        match self.app_path() {
            Ok(_) => {
                let title = title_for(app_name);
                let patch_crates_io = self.patch_crates_io.clone();
                Ok(Properties::new(framework_version, app_name, title, patch_crates_io))
            },
            Err(e) => Err(e),
        }
    }
}

} // verus!
