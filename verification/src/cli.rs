//! What the command line asks for.

use vstd::prelude::*;

verus! {

/// The command line.
#[derive(Debug)]
pub struct Cli {
    pub command: Commands,
}

/// The commands.
#[derive(Debug)]
pub enum Commands {
    /// Compute the next version, write it to the manifests, and commit and
    /// tag unless told otherwise.
    Version(VersionArgs),
}

/// The arguments of the `version` command.
#[derive(Debug)]
pub struct VersionArgs {
    /// The manifests to keep in step; none means those found in the
    /// working directory.
    pub target: Vec<String>,
    /// The registry to ask, in place of the configured one.
    pub registry: Option<String>,
    /// Leave the repository alone: no commit, no tag.
    pub no_git_tag_version: bool,
    /// Go on where the working tree has changes or the tag exists.
    pub force: bool,
    /// The message of commit and tag; `%s` stands for the version.
    pub message: String,
    /// The version format.
    pub format: String,
    /// Say what would be done and change nothing.
    pub dry_run: bool,
    /// Say what is being done.
    pub verbose: bool,
}

impl VersionArgs {
    /// The arguments that hold where the command line gives none: manifests
    /// from the working directory, the configured registry, the message
    /// `%s`, the format `YY.MM.MICRO`, and every switch off.
    pub fn defaults() -> (args: Self)
        ensures
            args.target@.len() == 0,
            args.registry is None,
            !args.no_git_tag_version,
            !args.force,
            args.message@ == "%s"@,
            args.format@ == "YY.MM.MICRO"@,
            !args.dry_run,
            !args.verbose,
    {
        VersionArgs {
            target: Vec::new(),
            registry: None,
            no_git_tag_version: false,
            force: false,
            message: "%s".to_owned(),
            format: "YY.MM.MICRO".to_owned(),
            dry_run: false,
            verbose: false,
        }
    }
}

} // verus!
