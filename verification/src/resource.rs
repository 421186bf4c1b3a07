//! What creating, renaming, rewriting and deleting a resource has to do on
//! disk.
//!
//! Each function turns a request into the steps that carry it out. The steps
//! are for the caller to perform, in the order their fields are documented
//! in; the first one that fails ends the operation with its error.

use vstd::prelude::*;
use crate::paths::{joined, lemma_joined_is_injective, resolve, sanitize, sanitized};

verus! {

/// What creating a resource has to do.
#[derive(Clone, Debug, PartialEq, Eq)]
pub enum CreateAction {
    /// Make sure the directories above `path` exist, then write `content`
    /// to `path`, over whatever is there.
    WriteFile { path: String, content: String },
    /// Make sure the directory `path` and those above it exist.
    MakeDir { path: String },
}

/// What renaming or rewriting a resource has to do.
#[derive(Clone, Debug, PartialEq, Eq)]
pub struct UpdatePlan {
    /// Where the resource is.
    pub source: String,
    /// Where the resource is to be.
    pub target: String,
    /// Whether the two differ. If so, make sure the directories above
    /// `target` exist, then move `source` to `target`.
    pub rename: bool,
    /// The text to give `target` after that, if `target` is a regular file.
    pub content: Option<String>,
}

/// What deleting a resource has to do.
#[derive(Clone, Debug, PartialEq, Eq)]
pub enum DeleteAction {
    /// Remove the directory `path` with all it holds.
    RemoveTree { path: String },
    /// Remove the single file `path`.
    RemoveFile { path: String },
}

/// The text that `content` stands for: nothing given is the empty text.
pub open spec fn text_or_empty(content: Option<String>) -> Seq<char> {
    match content {
        Some(text) => text@,
        None => Seq::empty(),
    }
}

/// The logical path that an update moves the resource to: the new path if
/// one is given, else the old one, cleaned in either case.
pub open spec fn update_target(path: Seq<char>, new_path: Option<&str>) -> Seq<char> {
    match new_path {
        Some(new_path) => sanitized(new_path@),
        None => sanitized(path),
    }
}

/// What creating the resource `path` below `tasks_dir` has to do. The resource
/// is a file with the given content if `is_file` says so, and a directory
/// otherwise.
pub fn create_resource(
    tasks_dir: &str,
    path: &str,
    is_file: Option<bool>,
    content: Option<String>,
) -> (action: CreateAction)
    ensures
        match action {
            CreateAction::WriteFile { path: full, content: text } => {
                &&& is_file == Some(true)
                &&& full@ == joined(tasks_dir@, path@)
                &&& text@ == text_or_empty(content)
            },
            CreateAction::MakeDir { path: full } => {
                &&& is_file != Some(true)
                &&& full@ == joined(tasks_dir@, path@)
            },
        },
{
    let full = resolve(tasks_dir, path);
    let as_file = match is_file {
        Some(flag) => flag,
        None => false,
    };
    if as_file {
        let text = match content {
            Some(text) => text,
            None => String::new(),
        };
        CreateAction::WriteFile { path: full, content: text }
    } else {
        CreateAction::MakeDir { path: full }
    }
}

/// What moving the resource `path` below `tasks_dir` to `new_path`, and giving
/// it `content`, has to do. With no new path the resource stays where its
/// cleaned old path says; with no content its text is left alone.
pub fn update_resource(
    tasks_dir: &str,
    path: &str,
    new_path: Option<&str>,
    content: Option<String>,
) -> (plan: UpdatePlan)
    ensures
        plan.source@ == joined(tasks_dir@, path@),
        plan.target@ == joined(tasks_dir@, update_target(path@, new_path)),
        plan.rename == (update_target(path@, new_path) != path@),
        plan.rename == (plan.source@ != plan.target@),
        plan.content == content,
{
    let source = resolve(tasks_dir, path);
    let clean = match new_path {
        Some(new_path) => sanitize(new_path),
        None => sanitize(path),
    };
    let target = resolve(tasks_dir, clean.as_str());
    let rename = source != target;
    proof {
        lemma_joined_is_injective(tasks_dir@, path@, clean@);
    }
    UpdatePlan { source, target, rename, content }
}

impl UpdatePlan {
    /// The text to write to the target once the move is done and the target
    /// is known to be a regular file or not. Nothing is written where no text
    /// was given, or where the target is not a regular file.
    pub fn content_to_write(&self, target_is_file: bool) -> (text: Option<&String>)
        ensures
            match text {
                Some(text) => target_is_file && self.content == Some(*text),
                None => !target_is_file || self.content is None,
            },
    {
        match &self.content {
            Some(text) => {
                if target_is_file {
                    Some(text)
                } else {
                    None
                }
            },
            None => None,
        }
    }
}

/// What deleting the resource `path` below `tasks_dir` has to do, given
/// whether a directory stands there.
pub fn delete_resource(tasks_dir: &str, path: &str, is_dir: bool) -> (action: DeleteAction)
    ensures
        match action {
            DeleteAction::RemoveTree { path: full } => is_dir && full@ == joined(
                tasks_dir@,
                path@,
            ),
            DeleteAction::RemoveFile { path: full } => !is_dir && full@ == joined(
                tasks_dir@,
                path@,
            ),
        },
{
    let full = resolve(tasks_dir, path);
    if is_dir {
        DeleteAction::RemoveTree { path: full }
    } else {
        DeleteAction::RemoveFile { path: full }
    }
}

} // verus!
