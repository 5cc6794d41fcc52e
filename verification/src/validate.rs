//! Which command-line arguments are acceptable.
//!
//! Whether a path exists, and as what, is for the caller to find out; it
//! hands the answer over as a [`PathKind`]. Everything is decided before a
//! single file is listed or moved.
use vstd::prelude::*;
use crate::path::{is_absolute, is_absolute_path, PathKind};

verus! {

/// Why a set of arguments was turned down.
#[derive(Clone, Copy, Debug, PartialEq, Eq, Structural)]
pub enum ArgumentError {
    /// The source is not an absolute path to an existing file or directory.
    InvalidSource,
    /// The target is not an absolute path to an existing directory.
    InvalidTarget,
}

/// The arguments of one run.
#[derive(Clone, Debug, PartialEq, Eq)]
pub struct CommandArguments {
    /// Whether files at every depth are moved, or only those at the top.
    pub traverse_recursive: bool,
    /// Whether the run goes on after a file could not be moved.
    pub skip_error: bool,
    /// Where the files are looked for.
    pub source: String,
    /// The directory that the files are moved into.
    pub target: String,
}

/// The mathematical value of [`CommandArguments`].
pub struct CommandArgumentsView {
    pub traverse_recursive: bool,
    pub skip_error: bool,
    pub source: Seq<char>,
    pub target: Seq<char>,
}

impl View for CommandArguments {
    type V = CommandArgumentsView;

    open spec fn view(&self) -> CommandArgumentsView {
        CommandArgumentsView {
            traverse_recursive: self.traverse_recursive,
            skip_error: self.skip_error,
            source: self.source@,
            target: self.target@,
        }
    }
}

/// A source is acceptable when it is an absolute path to a file or a
/// directory that exists.
pub open spec fn acceptable_source(path: Seq<char>, kind: PathKind) -> bool {
    (kind == PathKind::Directory || kind == PathKind::File) && is_absolute_path(path)
}

/// A target is acceptable when it is an absolute path to a directory that
/// exists.
pub open spec fn acceptable_target(path: Seq<char>, kind: PathKind) -> bool {
    kind == PathKind::Directory && is_absolute_path(path)
}

/// What is said of a source that was turned down.
pub open spec fn source_message() -> Seq<char> {
    "The source must be a valid absolute path or file name."@
}

/// What is said of a target that was turned down.
pub open spec fn target_message() -> Seq<char> {
    "The target must be a valid absolute path name."@
}

impl ArgumentError {
    /// The text that this error is reported with.
    pub open spec fn message_of(self) -> Seq<char> {
        match self {
            ArgumentError::InvalidSource => source_message(),
            ArgumentError::InvalidTarget => target_message(),
        }
    }

    /// The text that this error is reported with.
    pub fn message(&self) -> (text: String)
        ensures
            text@ == self.message_of(),
    {
        match self {
            ArgumentError::InvalidSource => {
                "The source must be a valid absolute path or file name.".to_owned()
            },
            ArgumentError::InvalidTarget => {
                "The target must be a valid absolute path name.".to_owned()
            },
        }
    }
}

/// Accepts `val` as a source exactly when it is absolute and `kind`, what
/// it names on disk, is a file or a directory.
pub fn is_valid_source_path(val: String, kind: PathKind) -> (verdict: Result<(), String>)
    ensures
        verdict is Ok <==> acceptable_source(val@, kind),
        verdict matches Err(message) ==> message@ == source_message(),
        !is_absolute_path(val@) ==> verdict is Err,
        kind == PathKind::Missing ==> verdict is Err,
{
    if (kind == PathKind::Directory || kind == PathKind::File) && is_absolute(val.as_str()) {
        Ok(())
    } else {
        Err(ArgumentError::InvalidSource.message())
    }
}

/// Accepts `val` as a target exactly when it is absolute and `kind`, what
/// it names on disk, is a directory.
pub fn is_valid_target_path(val: String, kind: PathKind) -> (verdict: Result<(), String>)
    ensures
        verdict is Ok <==> acceptable_target(val@, kind),
        verdict matches Err(message) ==> message@ == target_message(),
        !is_absolute_path(val@) ==> verdict is Err,
        kind != PathKind::Directory ==> verdict is Err,
{
    if kind == PathKind::Directory && is_absolute(val.as_str()) {
        Ok(())
    } else {
        Err(ArgumentError::InvalidTarget.message())
    }
}

impl CommandArguments {
    /// Both paths are absolute.
    pub open spec fn is_well_formed(&self) -> bool {
        is_absolute_path(self.source@) && is_absolute_path(self.target@)
    }

    /// The arguments of a run, if source and target are acceptable: the
    /// source is looked at first, then the target.
    pub fn new(
        traverse_recursive: bool,
        skip_error: bool,
        source: String,
        source_kind: PathKind,
        target: String,
        target_kind: PathKind,
    ) -> (made: Result<CommandArguments, ArgumentError>)
        ensures
            match made {
                Ok(arguments) => {
                    &&& acceptable_source(source@, source_kind)
                    &&& acceptable_target(target@, target_kind)
                    &&& arguments.is_well_formed()
                    &&& arguments@ == (CommandArgumentsView {
                        traverse_recursive,
                        skip_error,
                        source: source@,
                        target: target@,
                    })
                },
                Err(ArgumentError::InvalidSource) => !acceptable_source(source@, source_kind),
                Err(ArgumentError::InvalidTarget) => {
                    &&& acceptable_source(source@, source_kind)
                    &&& !acceptable_target(target@, target_kind)
                },
            },
    {
        let source_ok = (source_kind == PathKind::Directory || source_kind == PathKind::File)
            && is_absolute(source.as_str());
        if !source_ok {
            return Err(ArgumentError::InvalidSource);
        }
        if !(target_kind == PathKind::Directory && is_absolute(target.as_str())) {
            return Err(ArgumentError::InvalidTarget);
        }
        Ok(CommandArguments { traverse_recursive, skip_error, source, target })
    }
}

/// A relative path is acceptable neither as source nor as target, whatever
/// it names.
pub proof fn relative_paths_are_rejected(path: Seq<char>, kind: PathKind)
    requires
        !is_absolute_path(path),
    ensures
        !acceptable_source(path, kind),
        !acceptable_target(path, kind),
{
}

/// A target that is not an existing directory is not acceptable, however
/// its path is written.
pub proof fn target_must_be_a_directory(path: Seq<char>, kind: PathKind)
    requires
        kind != PathKind::Directory,
    ensures
        !acceptable_target(path, kind),
{
}

} // verus!
