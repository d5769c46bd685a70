//! Path checks for filesystem requests: a user path must stay inside the
//! container's volume.

use vstd::prelude::*;
use crate::text::{all_space, chars_of, contains, contains_chars, is_blank};

verus! {

/// Why a user path is refused.
#[derive(Debug, Clone, Copy, PartialEq, Eq, Structural)]
pub enum PathError {
    /// The path is empty or whitespace.
    Empty,
    /// The path starts with a separator.
    Absolute,
    /// The path names a drive ("C:").
    DriveLetter,
    /// The path holds "..".
    Traversal,
    /// The resolved path lies outside the volume.
    EscapesVolume,
    /// The path does not exist.
    NotFound,
}

impl PathError {
    /// The text reported for this error.
    pub fn message(&self) -> (r: String)
        ensures
            *self == PathError::Empty ==> r@ == "Path cannot be empty"@,
            *self == PathError::Absolute ==> r@ == "Absolute paths are not allowed"@,
            *self == PathError::DriveLetter ==> r@ == "Drive letters are not allowed"@,
            *self == PathError::Traversal ==> r@ == "Path traversal (..) is not allowed"@,
            *self == PathError::EscapesVolume ==> r@ == "Path escapes volume boundary"@,
            *self == PathError::NotFound ==> r@ == "Path does not exist"@,
    {
        match self {
            PathError::Empty => String::from_str("Path cannot be empty"),
            PathError::Absolute => String::from_str("Absolute paths are not allowed"),
            PathError::DriveLetter => String::from_str("Drive letters are not allowed"),
            PathError::Traversal => String::from_str("Path traversal (..) is not allowed"),
            PathError::EscapesVolume => String::from_str("Path escapes volume boundary"),
            PathError::NotFound => String::from_str("Path does not exist"),
        }
    }
}

/// The first lexical rule that `p` breaks, if any.
pub open spec fn path_error(p: Seq<char>) -> Option<PathError> {
    if all_space(p) {
        Some(PathError::Empty)
    } else if p[0] == '/' || p[0] == '\\' {
        Some(PathError::Absolute)
    } else if p.len() >= 2 && p[1] == ':' {
        Some(PathError::DriveLetter)
    } else if contains(p, ".."@) {
        Some(PathError::Traversal)
    } else {
        None
    }
}

/// `p` under `root`, joined with one separator.
pub open spec fn join_path(root: Seq<char>, p: Seq<char>) -> Seq<char> {
    if root.len() == 0 {
        p
    } else if root.last() == '/' {
        root + p
    } else {
        root + "/"@ + p
    }
}

/// `p` is `root` or lies below it, component-wise.
pub open spec fn within(p: Seq<char>, root: Seq<char>) -> bool {
    &&& root.len() <= p.len()
    &&& p.subrange(0, root.len() as int) == root
    &&& (p.len() == root.len() || (root.len() > 0 && root.last() == '/') || p[root.len() as int] == '/')
}

/// Joins `p` under `root` with one separator.
pub fn join(root: &str, p: &str) -> (r: String)
    ensures
        r@ == join_path(root@, p@),
{
    let rc = chars_of(root);
    if rc.len() == 0 {
        String::from_str(p)
    } else if rc[rc.len() - 1] == '/' {
        String::from_str(root).concat(p)
    } else {
        String::from_str(root).concat("/").concat(p)
    }
}

/// Whether `p` is `root` or lies below it, component-wise.
pub fn is_within(p: &str, root: &str) -> (r: bool)
    ensures
        r == within(p@, root@),
{
    let pc = chars_of(p);
    let rc = chars_of(root);
    if rc.len() > pc.len() {
        return false;
    }
    let mut i: usize = 0;
    while i < rc.len()
        invariant
            rc@ == root@,
            pc@ == p@,
            rc@.len() <= pc@.len(),
            i <= rc@.len(),
            forall|k: int| 0 <= k < i ==> pc@[k] == rc@[k],
        decreases rc.len() - i,
    {
        if pc[i] != rc[i] {
            assert(pc@.subrange(0, rc@.len() as int)[i as int] != rc@[i as int]);
            return false;
        }
        i = i + 1;
    }
    assert(pc@.subrange(0, rc@.len() as int) =~= rc@);
    pc.len() == rc.len() || (rc.len() > 0 && rc[rc.len() - 1] == '/') || pc[rc.len()] == '/'
}

/// Checks `user_path` lexically and returns it joined under `volume_root`.
/// Refuses an empty or blank path, an absolute path, a drive letter and
/// any "..".
pub fn validate_path(volume_root: &str, user_path: &str) -> (r: Result<String, PathError>)
    ensures
        path_error(user_path@).is_some() ==> r == Err::<String, PathError>(path_error(user_path@).unwrap()),
        path_error(user_path@).is_none() ==> r is Ok && r->Ok_0@ == join_path(volume_root@, user_path@),
{
    if is_blank(user_path) {
        return Err(PathError::Empty);
    }
    let pc = chars_of(user_path);
    if pc[0] == '/' || pc[0] == '\\' {
        return Err(PathError::Absolute);
    }
    if pc.len() >= 2 && pc[1] == ':' {
        return Err(PathError::DriveLetter);
    }
    let dots = chars_of("..");
    proof {
        reveal_strlit("..");
    }
    if contains_chars(pc.as_slice(), dots.as_slice()) {
        return Err(PathError::Traversal);
    }
    Ok(join(volume_root, user_path))
}

/// Checks a path to read: lexically, then against what the filesystem
/// reported, `canonical_root` for the volume root and `canonical_path` for
/// the joined path (`None` when it does not exist).
pub fn validate_read_path(
    volume_root: &str,
    user_path: &str,
    canonical_root: &str,
    canonical_path: Option<&str>,
) -> (r: Result<String, PathError>)
    ensures
        path_error(user_path@).is_some() ==> r == Err::<String, PathError>(path_error(user_path@).unwrap()),
        path_error(user_path@).is_none() && canonical_path.is_none() ==> r == Err::<String, PathError>(PathError::NotFound),
        path_error(user_path@).is_none() && canonical_path.is_some() && !within(canonical_path.unwrap()@, canonical_root@)
            ==> r == Err::<String, PathError>(PathError::EscapesVolume),
        path_error(user_path@).is_none() && canonical_path.is_some() && within(canonical_path.unwrap()@, canonical_root@)
            ==> r is Ok && r->Ok_0@ == join_path(volume_root@, user_path@),
{
    let path = validate_path(volume_root, user_path)?;
    match canonical_path {
        None => Err(PathError::NotFound),
        Some(c) => {
            if is_within(c, canonical_root) {
                Ok(path)
            } else {
                Err(PathError::EscapesVolume)
            }
        },
    }
}

/// Checks a path to write: lexically, then against what the filesystem
/// reported, `canonical_root` for the volume root and `canonical_ancestor`
/// for the first existing ancestor of the joined path, canonicalised
/// (`None` when no ancestor exists).
pub fn validate_write_path(
    volume_root: &str,
    user_path: &str,
    canonical_root: &str,
    canonical_ancestor: Option<&str>,
) -> (r: Result<String, PathError>)
    ensures
        path_error(user_path@).is_some() ==> r == Err::<String, PathError>(path_error(user_path@).unwrap()),
        path_error(user_path@).is_none() && canonical_ancestor.is_some() && !within(canonical_ancestor.unwrap()@, canonical_root@)
            ==> r == Err::<String, PathError>(PathError::EscapesVolume),
        path_error(user_path@).is_none() && (canonical_ancestor.is_none() || within(canonical_ancestor.unwrap()@, canonical_root@))
            ==> r is Ok && r->Ok_0@ == join_path(volume_root@, user_path@),
{
    let path = validate_path(volume_root, user_path)?;
    match canonical_ancestor {
        Some(c) => {
            if is_within(c, canonical_root) {
                Ok(path)
            } else {
                Err(PathError::EscapesVolume)
            }
        },
        None => Ok(path),
    }
}

} // verus!
