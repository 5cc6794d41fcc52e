//! Where a file goes: into the target directory, under its own name.
use vstd::prelude::*;
use crate::path::{
    file_name, file_name_is_a_name, file_name_of, file_name_of_joined, join, join_paths, parent,
    parent_of,
};

verus! {

/// One move, worked out and not yet carried out.
#[derive(Clone, Debug, PartialEq, Eq)]
pub struct MovePlan {
    /// The file to move.
    pub source: String,
    /// The directory that the file stands in.
    pub folder: String,
    /// The name under which the file stands, and will stand.
    pub file_name: String,
    /// The path that the file is renamed to.
    pub destination: String,
}

/// The mathematical value of a [`MovePlan`].
pub struct MovePlanView {
    pub source: Seq<char>,
    pub folder: Seq<char>,
    pub file_name: Seq<char>,
    pub destination: Seq<char>,
}

impl View for MovePlan {
    type V = MovePlanView;

    open spec fn view(&self) -> MovePlanView {
        MovePlanView {
            source: self.source@,
            folder: self.folder@,
            file_name: self.file_name@,
            destination: self.destination@,
        }
    }
}

/// A file that could not be moved.
#[derive(Clone, Debug, PartialEq, Eq)]
pub struct MoveError {
    /// The file that stayed where it was.
    pub path: String,
    /// What the operating system said.
    pub reason: String,
}

/// The plan for moving `file` into `target`, where `file` ends in a name:
/// the file keeps its name, and goes from the directory it stands in to
/// `target` extended by that name.
pub open spec fn planned_move(file: Seq<char>, target: Seq<char>) -> Option<MovePlanView> {
    match (file_name_of(file), parent_of(file)) {
        (Some(name), Some(folder)) => Some(
            MovePlanView {
                source: file,
                folder,
                file_name: name,
                destination: join_paths(target, name),
            },
        ),
        _ => None,
    }
}

/// Works out the move of `source_file_name` into the directory
/// `target_path`: the destination is the directory extended by the file's
/// own name. There is no plan for a path that ends in no name.
pub fn plan_move(source_file_name: &str, target_path: &str) -> (plan: Option<MovePlan>)
    ensures
        match plan {
            Some(p) => planned_move(source_file_name@, target_path@) == Some(p@),
            None => planned_move(source_file_name@, target_path@) is None,
        },
        plan is Some <==> file_name_of(source_file_name@) is Some,
        plan matches Some(p) ==> file_name_of(p.destination@) == Some(p.file_name@),
{
    match (file_name(source_file_name), parent(source_file_name)) {
        (Some(name), Some(folder)) => {
            let destination = join(target_path, name.as_str());
            proof {
                file_name_is_a_name(source_file_name@);
                file_name_of_joined(target_path@, name@);
            }
            Some(
                MovePlan {
                    source: source_file_name.to_owned(),
                    folder,
                    file_name: name,
                    destination,
                },
            )
        },
        _ => None,
    }
}

/// There is a plan for every file that ends in a name, and for no other.
pub proof fn every_named_file_has_a_plan(file: Seq<char>, target: Seq<char>)
    ensures
        planned_move(file, target) is Some <==> file_name_of(file) is Some,
{
}

/// A planned move keeps the file's name: the destination ends in the name
/// that the source ends in.
pub proof fn move_keeps_the_name(file: Seq<char>, target: Seq<char>)
    ensures
        planned_move(file, target) matches Some(plan) ==> file_name_of(plan.destination)
            == file_name_of(file),
{
    if file_name_of(file) is Some {
        file_name_is_a_name(file);
        file_name_of_joined(target, file_name_of(file)->Some_0);
    }
}

} // verus!
