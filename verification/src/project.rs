//! Project-level detection over one retained projection: the recipes that
//! run on a combined projection and the check on selected input paths.

use vstd::prelude::*;
use crate::candidate::TransformationCandidate;
use crate::json::string_append;
use crate::order::{keys_sorted, sort_by_key};
use crate::recipes::branch::BranchRecipeError;
use crate::recipes::branch_detect::{branch_all_owed, detect_equivalent_branch_fragments};
use crate::recipes::retained::RetainedProjection;
use crate::recipes::unreachable::{
    detect_unreachable_literal_statements, unreachable_all_owed, UnreachableRecipeError,
};

verus! {

/// Why the projection-wide detection failed: the detector that failed, with
/// its own error.
#[derive(Debug)]
pub enum ProjectionDetectError {
    Unreachable(UnreachableRecipeError),
    Branch(BranchRecipeError),
}

/// Runs the detectors that a combined projection serves (unreachable literal
/// statements, then equivalent branch fragments) and returns every
/// candidate of both, ordered by identity. The first detector that fails
/// decides the error.
pub fn detect_projection_recipes(p: &RetainedProjection) -> (r: Result<
    Vec<TransformationCandidate>,
    ProjectionDetectError,
>)
    ensures
        unreachable_all_owed(*p) && branch_all_owed(*p) ==> r is Ok,
        r matches Err(ProjectionDetectError::Unreachable(_)) ==> !unreachable_all_owed(*p),
        r matches Err(ProjectionDetectError::Branch(_)) ==> !branch_all_owed(*p),
        r matches Ok(cs) ==> keys_sorted(cs@) && exists|
            a: Seq<TransformationCandidate>,
            b: Seq<TransformationCandidate>,
        |
            cs@.to_multiset() == (a + b).to_multiset()
                && #[trigger] detected_unreachable(*p, a)
                && #[trigger] detected_branch(*p, b),
{
    let first = detect_unreachable_literal_statements(p);
    let mut all = match first {
        Ok(cs) => cs,
        Err(e) => {
            return Err(ProjectionDetectError::Unreachable(e));
        },
    };
    let second = detect_equivalent_branch_fragments(p);
    let mut more = match second {
        Ok(cs) => cs,
        Err(e) => {
            return Err(ProjectionDetectError::Branch(e));
        },
    };
    let ghost a = all@;
    let ghost b = more@;
    all.append(&mut more);
    proof {
        assert(all@ == a + b);
        assert(detected_unreachable(*p, a));
        assert(detected_branch(*p, b));
    }
    let sorted = sort_by_key(all);
    Ok(sorted)
}

/// `cs` is a result that the unreachable-statement detector may return on
/// `p`: the detector's contract for an `Ok`.
pub open spec fn detected_unreachable(p: RetainedProjection, cs: Seq<TransformationCandidate>) -> bool {
    crate::recipes::unreachable::unreachable_ok_result(p, cs)
}

/// `cs` is a result that the branch-fragment detector may return on `p`.
pub open spec fn detected_branch(p: RetainedProjection, cs: Seq<TransformationCandidate>) -> bool {
    crate::recipes::branch_detect::branch_ok_result(p, cs)
}

/// One component of a path, as the standard library splits it: a prefix
/// (on platforms that have them), the root, `.`, `..` or a normal name.
#[derive(Clone, Copy, Debug, PartialEq, Eq)]
pub enum PathPart {
    Prefix,
    RootDir,
    CurDir,
    ParentDir,
    Normal,
}

/// Splits a path into its components.
///
/// Trusted: calls `std::path::Path::components` and converts each component
/// to its kind, one for one. The standard library documents that `.` is
/// normalised away except at the start of a path, so the path `.` has the
/// single component `CurDir`; that is all this contract claims. How other
/// paths split depends on the platform's separators and prefixes and is left
/// unsaid.
#[verifier::external_body]
fn path_components(path: &str) -> (parts: Vec<PathPart>)
    ensures
        path@ == "."@ ==> parts@ == seq![PathPart::CurDir],
{
    let mut parts = Vec::new();
    for c in std::path::Path::new(path).components() {
        parts.push(match c {
            std::path::Component::Prefix(_) => PathPart::Prefix,
            std::path::Component::RootDir => PathPart::RootDir,
            std::path::Component::CurDir => PathPart::CurDir,
            std::path::Component::ParentDir => PathPart::ParentDir,
            std::path::Component::Normal(_) => PathPart::Normal,
        });
    }
    parts
}

/// A `.` or `..` component.
pub open spec fn is_dot_part(p: PathPart) -> bool {
    p is CurDir || p is ParentDir
}

/// A selected path is not canonical when one of its components is `.` or
/// `..`, unless the path is `.` itself (the single component `.`).
pub open spec fn noncanonical_parts(parts: Seq<PathPart>) -> bool {
    &&& exists|i: int| 0 <= i < parts.len() && #[trigger] is_dot_part(parts[i])
    &&& !(parts.len() == 1 && parts[0] is CurDir)
}

/// Decides `noncanonical_parts` on the components of a path.
pub fn parts_noncanonical(parts: &Vec<PathPart>) -> (r: bool)
    ensures
        r == noncanonical_parts(parts@),
{
    if parts.len() == 1 {
        if let PathPart::CurDir = &parts[0] {
            return false;
        }
    }
    let mut i: usize = 0;
    while i < parts.len()
        invariant
            i <= parts@.len(),
            !(parts@.len() == 1 && parts@[0] is CurDir),
            forall|k: int| 0 <= k < i ==> !#[trigger] is_dot_part(parts@[k]),
        decreases parts@.len() - i,
    {
        match &parts[i] {
            PathPart::CurDir => {
                assert(is_dot_part(parts@[i as int]));
                return true;
            },
            PathPart::ParentDir => {
                assert(is_dot_part(parts@[i as int]));
                return true;
            },
            _ => {},
        }
        i = i + 1;
    }
    false
}

/// The message for a selected path that is not canonical.
pub open spec fn noncanonical_message(path: Seq<char>) -> Seq<char> {
    "recipe path "@ + path + " is not canonical"@
}

/// Refuses a selected input path with a `.` or `..` component (the path
/// `.` itself excepted), as the standard library splits it into
/// components. The path `.` is always accepted; a refusal carries the
/// message naming the path.
pub fn reject_noncanonical_input(path: &str) -> (r: Result<(), String>)
    ensures
        path@ == "."@ ==> r is Ok,
        r matches Err(m) ==> m@ == noncanonical_message(path@),
{
    let parts = path_components(path);
    if parts_noncanonical(&parts) {
        let mut m = String::new();
        string_append(&mut m, "recipe path ");
        string_append(&mut m, path);
        string_append(&mut m, " is not canonical");
        proof {
            assert(m@ == noncanonical_message(path@));
        }
        return Err(m);
    }
    Ok(())
}

} // verus!
