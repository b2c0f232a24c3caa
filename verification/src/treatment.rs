//! The treatment applier's decisions: what has to be done to a shard for
//! a treatment, which side wins a merge conflict, and when applying a
//! patch has failed.

use crate::config::Treatment;
use crate::layout::decimal;
use crate::layout::decimal_string;
use git2::Oid;
use vstd::prelude::*;
use vstd::string::StringExecFns;

verus! {

/// `git2::Oid`, the id of a git object. Nothing is known of its inside;
/// it is handed on as it comes.
#[verifier::external_type_specification]
#[verifier::external_body]
pub struct ExOid(git2::Oid);

/// `git2::Error`, the error of every fallible `git2` call. Nothing is
/// known of its inside.
#[verifier::external_type_specification]
#[verifier::external_body]
pub struct ExGitError(git2::Error);

/// Prefix of the references that track the branches of the origin remote.
pub const REMOTE_PREFIX: &'static str = "refs/remotes/origin/";

/// Message of the commit that merges a treatment into a shard.
pub const MERGE_MESSAGE: &'static str = "bipolar: auto-merge treatment";

/// What applying a treatment to a shard amounts to.
#[derive(Debug)]
pub enum TreatmentAction {
    /// Merge the commit that this remote-tracking reference points to.
    MergeBranch { reference: String },
    /// Merge the commit with this id.
    MergeCommit { id: Oid },
    /// Run `git` with these arguments to apply the patch file `patch`;
    /// nothing is committed.
    ApplyPatch { patch: String, arguments: Vec<String> },
}

/// Why a treatment cannot be applied.
#[derive(Debug)]
pub enum TreatmentError {
    /// The reference of a commit treatment is not a commit id.
    InvalidCommitId { reference: String },
    /// The patch tool reported a failure for this patch file.
    PatchFailed { patch: String },
}

/// One conflicting path of a three-way merge: for each side, the path it
/// has there, if it has the file at all.
#[derive(Debug)]
pub struct Conflict {
    pub ours: Option<String>,
    pub theirs: Option<String>,
}

/// A side of a merge: the shard's own head, or the treatment.
#[derive(Debug, Clone, Copy, PartialEq, Eq, Structural)]
pub enum Side {
    Ours,
    Theirs,
}

/// Whether `c` is a hexadecimal digit, in either case.
pub open spec fn is_hex_digit(c: char) -> bool {
    ('0' <= c && c <= '9') || ('a' <= c && c <= 'f') || ('A' <= c && c <= 'F')
}

/// Whether `text` is a commit id: one to forty hexadecimal digits.
pub open spec fn is_commit_id(text: Seq<char>) -> bool {
    &&& 0 < text.len() <= 40
    &&& forall|i: int| 0 <= i < text.len() ==> is_hex_digit(#[trigger] text[i])
}

/// The texts of a list of strings.
pub open spec fn texts(list: Seq<String>) -> Seq<Seq<char>> {
    list.map_values(|s: String| s@)
}

/// The arguments that make `git` apply `patch` inside `target_dir`,
/// mending whitespace errors on the way.
pub open spec fn patch_arguments(target_dir: Seq<char>, patch: Seq<char>) -> Seq<Seq<char>> {
    seq!["apply"@, "--whitespace=fix"@, "--directory"@, target_dir, patch]
}

/// The side whose version of a conflicting path is kept: ours wherever we
/// have the file, theirs where only they have it, none where neither has.
pub open spec fn winner(conflict: &Conflict) -> Option<Side> {
    if conflict.ours is Some {
        Some(Side::Ours)
    } else if conflict.theirs is Some {
        Some(Side::Theirs)
    } else {
        None
    }
}

/// Parses a commit id with `git2::Oid::from_str`, which succeeds exactly
/// on one to forty hexadecimal digits: it rejects the empty string, any
/// longer one, and any byte that is not such a digit.
#[verifier::external_body]
fn parse_commit_id(text: &str) -> (parsed: Result<Oid, git2::Error>)
    ensures
        parsed is Ok <==> is_commit_id(text@),
{
    Oid::from_str(text)
}

/// The remote-tracking reference of `branch` on the origin remote.
pub fn branch_reference(branch: &str) -> (reference: String)
    ensures
        reference@ == REMOTE_PREFIX@ + branch@,
{
    String::from_str(REMOTE_PREFIX).concat(branch)
}

/// Decides which side of a conflict is kept. The choice looks at nothing
/// but which sides have the file.
pub fn resolve_conflict(conflict: &Conflict) -> (side: Option<Side>)
    ensures
        side == winner(conflict),
{
    if conflict.ours.is_some() {
        Some(Side::Ours)
    } else if conflict.theirs.is_some() {
        Some(Side::Theirs)
    } else {
        None
    }
}

/// Judges the outcome of the patch tool: any failure is fatal and names
/// the patch file.
pub fn check_patch_status(success: bool, patch: &String) -> (outcome: Result<(), TreatmentError>)
    ensures
        success ==> outcome is Ok,
        !success ==> (outcome matches Err(TreatmentError::PatchFailed { patch: named })
            && named@ == patch@),
{
    if success {
        Ok(())
    } else {
        Err(TreatmentError::PatchFailed { patch: patch.clone() })
    }
}

/// What has to be done to the shard in `target_dir` to apply `treatment`.
///
/// A branch is merged from its remote-tracking reference. A commit is
/// merged by its id, and a reference that is no commit id is an error. A
/// patch is applied to the working tree by `git apply`.
pub fn treatment_action(treatment: &Treatment, target_dir: &str) -> (action: Result<
    TreatmentAction,
    TreatmentError,
>)
    ensures
        match treatment {
            Treatment::Branch(branch) => action matches Ok(
                TreatmentAction::MergeBranch { reference },
            ) && reference@ == REMOTE_PREFIX@ + branch.ref_@,
            Treatment::Commit(commit) => if is_commit_id(commit.ref_@) {
                action matches Ok(TreatmentAction::MergeCommit { .. })
            } else {
                action matches Err(TreatmentError::InvalidCommitId { reference })
                    && reference@ == commit.ref_@
            },
            Treatment::Patch(treatment) => action matches Ok(
                TreatmentAction::ApplyPatch { patch, arguments },
            ) && patch@ == treatment.patch@ && texts(arguments@) == patch_arguments(
                target_dir@,
                treatment.patch@,
            ),
        },
{
    match treatment {
        Treatment::Branch(branch) => Ok(
            TreatmentAction::MergeBranch { reference: branch_reference(branch.ref_.as_str()) },
        ),
        Treatment::Commit(commit) => match parse_commit_id(commit.ref_.as_str()) {
            Ok(id) => Ok(TreatmentAction::MergeCommit { id }),
            Err(_) => Err(TreatmentError::InvalidCommitId { reference: commit.ref_.clone() }),
        },
        Treatment::Patch(patch) => {
            let mut arguments: Vec<String> = Vec::new();
            arguments.push(String::from_str("apply"));
            arguments.push(String::from_str("--whitespace=fix"));
            arguments.push(String::from_str("--directory"));
            arguments.push(String::from_str(target_dir));
            arguments.push(patch.patch.clone());
            assert(texts(arguments@) =~= patch_arguments(target_dir@, patch.patch@));
            Ok(TreatmentAction::ApplyPatch { patch: patch.patch.clone(), arguments })
        },
    }
}

/// The text that tells the user which treatment failed on which shard,
/// and why.
pub open spec fn failure_text(treatment_name: Seq<char>, shard: usize, cause: Seq<char>) -> Seq<
    char,
> {
    "treatment "@ + treatment_name + " on shard "@ + decimal(shard as nat) + ": "@ + cause
}

/// Words a failure for the user: every failure of a treatment names the
/// treatment and the shard it happened on.
pub fn describe_failure(treatment_name: &str, shard: usize, cause: &str) -> (text: String)
    ensures
        text@ == failure_text(treatment_name@, shard, cause@),
{
    let number = decimal_string(shard);
    String::from_str("treatment ").concat(treatment_name).concat(" on shard ").concat(
        number.as_str(),
    ).concat(": ").concat(cause)
}

impl TreatmentError {
    /// The text of the message for this error.
    pub open spec fn message_text(&self) -> Seq<char> {
        match self {
            TreatmentError::InvalidCommitId { reference } => "not a commit id: "@ + reference@,
            TreatmentError::PatchFailed { patch } => "failed to apply patch: "@ + patch@,
        }
    }

    /// A message for the user; it names the reference or the patch file.
    pub fn message(&self) -> (text: String)
        ensures
            text@ == self.message_text(),
    {
        match self {
            TreatmentError::InvalidCommitId { reference } => String::from_str(
                "not a commit id: ",
            ).concat(reference.as_str()),
            TreatmentError::PatchFailed { patch } => String::from_str(
                "failed to apply patch: ",
            ).concat(patch.as_str()),
        }
    }
}

} // verus!
