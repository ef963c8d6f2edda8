//! Path verification against a content root.
//!
//! Both checks are lexical: they read the text of the paths and never ask the
//! file system. A `VerifiedPath` can only be made by one of them.

use vstd::prelude::*;
use crate::paths::{
    components, count_normal, is_root, join_paths, lemma_normal_count_bound, net_depth,
    normal_count, parent_components, parts_view, path_components, push_path, render,
    render_parts, starts_with_parts, stays_within, walk_stays_within,
};
use crate::domain::Timestamp;
use crate::text::{chars_of, string_of};
use crate::watcher::{accepts_path, is_markdown_source};

verus! {

/// The dates that the file system keeps of a file. Either may be missing.
#[derive(Clone, Copy, Debug, PartialEq, Eq, Structural)]
pub struct ContentMetadata {
    pub modified: Option<Timestamp>,
    pub created: Option<Timestamp>,
}

/// Why a path was not accepted.
#[derive(Debug, PartialEq, Eq, Structural, Clone, Copy)]
pub enum PathError {
    /// A relative link climbs above the content root.
    TraversalAboveRoot,
    /// An absolute path does not lie under the content root.
    OutsideRoot,
}

impl PathError {
    /// The message that goes with the error.
    pub fn message(&self) -> (r: String)
        ensures
            r@ == match self {
                PathError::TraversalAboveRoot => "Security Violation: Traversal above root in link"@,
                PathError::OutsideRoot => "Security Violation: Absolute path outside root"@,
            },
    {
        match self {
            PathError::TraversalAboveRoot => "Security Violation: Traversal above root in link".to_owned(),
            PathError::OutsideRoot => "Security Violation: Absolute path outside root".to_owned(),
        }
    }
}

/// A path that has been checked to lie within the content root.
pub struct VerifiedPath(String);

impl View for VerifiedPath {
    type V = Seq<char>;

    closed spec fn view(&self) -> Seq<char> {
        self.0@
    }
}

impl VerifiedPath {
    /// The text of the path, for the caller that opens the file.
    pub fn as_path(&self) -> (r: &str)
        ensures
            r@ == self@,
    {
        self.0.as_str()
    }
}

/// The depth below the root of the directory that holds `base`: the number
/// of names in its path, the last component left out.
pub open spec fn start_depth(base: Seq<char>) -> int {
    match parent_components(path_components(base)) {
        Some(parent) => normal_count(parent) as int,
        None => 0,
    }
}

/// The location that a link in the file `base` names: the root, then the
/// directory of `base`, then the link.
pub open spec fn link_location(root: Seq<char>, base: Seq<char>, link: Seq<char>) -> Seq<char> {
    let directory = match parent_components(path_components(base)) {
        Some(parent) => join_paths(root, render(parent)),
        None => root,
    };
    join_paths(directory, link)
}

/// Checks a relative link of the file `base_rel_file` against the root.
///
/// The link is accepted exactly when walking it, component by component,
/// from the directory of `base_rel_file` never rises above the root. The
/// verified path is then the root, the directory of the base file and the
/// link, one pushed onto the other.
pub fn verify_relative_path(root: &str, base_rel_file: &str, link: &str) -> (r: Result<
    VerifiedPath,
    PathError,
>)
    ensures
        match r {
            Ok(path) => stays_within(start_depth(base_rel_file@), path_components(link@))
                && path@ == link_location(root@, base_rel_file@, link@),
            Err(e) => !stays_within(start_depth(base_rel_file@), path_components(link@)) && e
                == PathError::TraversalAboveRoot,
        },
{
    let base_parts = components(base_rel_file);
    let link_parts = components(link);
    let has_parent = base_parts.len() > 0 && !is_root(&base_parts[base_parts.len() - 1]);
    assert(has_parent == (parent_components(path_components(base_rel_file@)) is Some)) by {
        if base_parts.len() > 0 {
            assert(parts_view(base_parts@).last() == base_parts@.last()@);
        }
    }
    let parent_len: usize = if has_parent {
        base_parts.len() - 1
    } else {
        0
    };
    let start: usize = if has_parent {
        count_normal(&base_parts, parent_len)
    } else {
        0
    };
    proof {
        if has_parent {
            assert(parts_view(base_parts@).take(parent_len as int) =~= parts_view(
                base_parts@,
            ).drop_last());
            lemma_normal_count_bound(parts_view(base_parts@).take(parent_len as int));
        }
        assert(start == start_depth(base_rel_file@));
    }
    if !walk_stays_within(start, &link_parts) {
        return Err(PathError::TraversalAboveRoot);
    }
    let mut location = chars_of(root);
    if has_parent {
        let parent = render_parts(&base_parts, parent_len);
        push_path(&mut location, &parent);
    }
    let link_chars = chars_of(link);
    push_path(&mut location, &link_chars);
    Ok(VerifiedPath(string_of(&location)))
}

/// Whether `path` lies under `root`: the components of `root` are the first
/// components of `path`.
pub open spec fn lies_under(root: Seq<char>, path: Seq<char>) -> bool {
    path_components(root).is_prefix_of(path_components(path))
}

/// Checks that an absolute path lies under the root. The verified path is
/// the path as it was given.
pub fn verify_absolute_path(root: &str, absolute_path: &str) -> (r: Result<
    VerifiedPath,
    PathError,
>)
    ensures
        match r {
            Ok(path) => lies_under(root@, absolute_path@) && path@ == absolute_path@,
            Err(e) => !lies_under(root@, absolute_path@) && e == PathError::OutsideRoot,
        },
{
    let root_parts = components(root);
    let path_parts = components(absolute_path);
    if starts_with_parts(&path_parts, &root_parts) {
        Ok(VerifiedPath(absolute_path.to_owned()))
    } else {
        Err(PathError::OutsideRoot)
    }
}

/// The reader of the local file system, as far as it decides: which paths
/// it may read and which files it lists. Opening the files is the caller's.
#[derive(Debug)]
pub struct LocalContentReader {
    /// The content root.
    pub root_path: String,
}

impl LocalContentReader {
    /// Verifies a path for reading: it must lie under the root.
    pub fn verify(&self, path: &str) -> (r: Result<VerifiedPath, PathError>)
        ensures
            match r {
                Ok(verified) => lies_under(self.root_path@, path@) && verified@ == path@,
                Err(e) => !lies_under(self.root_path@, path@) && e == PathError::OutsideRoot,
            },
    {
        verify_absolute_path(self.root_path.as_str(), path)
    }

    /// Whether a file found under the root is listed: Markdown sources are,
    /// hidden files and backups are not.
    pub fn lists(&self, path: &str) -> (r: bool)
        ensures
            r == is_markdown_source(path@),
    {
        accepts_path(path)
    }
}

/// A verified relative link never leads above the root: at the end of the
/// walk, and at every point of it, the depth below the root is at least zero.
pub proof fn lemma_verified_depth_not_negative(base: Seq<char>, link: Seq<char>)
    requires
        stays_within(start_depth(base), path_components(link)),
    ensures
        start_depth(base) + net_depth(path_components(link)) >= 0,
        forall|k: int|
            0 <= k <= path_components(link).len() ==> start_depth(base) + net_depth(
                #[trigger] path_components(link).take(k),
            ) >= 0,
{
    let cs = path_components(link);
    assert(cs.take(cs.len() as int) =~= cs);
}

} // verus!
