//! The link-reconciliation state machine.
//!
//! Given the classification of a source path and of a target path, together
//! with the canonical (fully resolved, absolute) form of the source path,
//! the machine names the relation between the two and decides whether a
//! symbolic link may be created at the target.  Everything here is pure:
//! observing the paths and creating the link are the caller's business.

use crate::file_type::FileType;
use vstd::prelude::*;

verus! {

/// The relation between a source path and the target path that should hold
/// a symbolic link pointing at it.
#[derive(Debug, Clone, PartialEq, Eq)]
pub enum SymlinkState {
    /// The target is a link that already points at the canonical source.
    Identical,
    /// The source exists and nothing occupies the target: safe to create.
    OnlySourceExists,
    /// The target is a link but the source is missing: never act, report.
    OnlyTargetExists,
    /// Something that is not a symbolic link occupies the target.
    TargetNotSymlink,
    /// The target is a link pointing somewhere else: never silently repoint.
    Changed,
    /// Neither source nor target exists.
    BothMissing,
}

/// The outcome table of the link machine.  A missing source with a link at
/// the target is reported before the link's destination is compared; a link
/// destination equal to the canonical source means the deployment is already
/// in place; any non-link occupant of the target blocks the action.
pub open spec fn spec_symlink_state(
    source_real: Seq<char>,
    source_type: FileType,
    link_type: FileType,
) -> SymlinkState {
    match (source_type, link_type) {
        (FileType::Missing, FileType::SymbolicLink(_)) => SymlinkState::OnlyTargetExists,
        (_, FileType::SymbolicLink(t)) => if t@ == source_real {
            SymlinkState::Identical
        } else {
            SymlinkState::Changed
        },
        (FileType::Missing, FileType::Missing) => SymlinkState::BothMissing,
        (_, FileType::Missing) => SymlinkState::OnlySourceExists,
        _ => SymlinkState::TargetNotSymlink,
    }
}

/// Whether the link machine acts in a given state: only on a bare target
/// with an existing source, or, under `force`, on a link that is already
/// correct (it is then recreated).  Every other state leaves the filesystem
/// untouched whatever `force` says.
pub open spec fn spec_should_create(state: SymlinkState, force: bool) -> bool {
    match state {
        SymlinkState::OnlySourceExists => true,
        SymlinkState::Identical => force,
        _ => false,
    }
}

impl SymlinkState {
    /// Classify one (source, target) pair.  `source_real` is the canonical
    /// form of the source path; it is only compared against the target's
    /// link destination, so a caller that has already ruled the comparing
    /// states out may pass any value.
    pub fn from(source_real: &String, source_type: FileType, link_type: FileType) -> (r:
        SymlinkState)
        ensures
            r == spec_symlink_state(source_real@, source_type, link_type),
    {
        match (source_type, link_type) {
            (FileType::Missing, FileType::SymbolicLink(_)) => SymlinkState::OnlyTargetExists,
            (_, FileType::SymbolicLink(t)) => {
                if t == *source_real {
                    SymlinkState::Identical
                } else {
                    SymlinkState::Changed
                }
            },
            (FileType::Missing, FileType::Missing) => SymlinkState::BothMissing,
            (_, FileType::Missing) => SymlinkState::OnlySourceExists,
            _ => SymlinkState::TargetNotSymlink,
        }
    }

    /// A short account of the state, for reporting every decision before it
    /// is applied.
    pub fn describe(&self) -> (r: &'static str)
        ensures
            *self is Identical ==> r@ == "target points at source"@,
            *self is OnlySourceExists ==> r@ == "target missing"@,
            *self is OnlyTargetExists ==> r@ == "source is missing"@,
            *self is TargetNotSymlink ==> r@ == "target already exists and isn't a symlink"@,
            *self is Changed ==> r@ == "target already exists and doesn't point at source"@,
            *self is BothMissing ==> r@ == "source and target are missing"@,
    {
        match self {
            SymlinkState::Identical => "target points at source",
            SymlinkState::OnlySourceExists => "target missing",
            SymlinkState::OnlyTargetExists => "source is missing",
            SymlinkState::TargetNotSymlink => "target already exists and isn't a symlink",
            SymlinkState::Changed => "target already exists and doesn't point at source",
            SymlinkState::BothMissing => "source and target are missing",
        }
    }
}

/// Link deployment decisions.
pub struct Symlink;

impl Symlink {
    /// Whether a link may be created at the target in the given state.
    pub fn should_create(state: &SymlinkState, force: bool) -> (r: bool)
        ensures
            r == spec_should_create(*state, force),
    {
        match state {
            SymlinkState::OnlySourceExists => true,
            SymlinkState::Identical => force,
            _ => false,
        }
    }

    /// Decide one link deployment: `Some(destination)` when a link is to be
    /// created at the target, pointing at `destination`, and `None` when the
    /// filesystem is to be left untouched.  The destination is always the
    /// canonical source path, never the possibly relative original.
    pub fn plan(source_real: &String, source_type: FileType, link_type: FileType, force: bool) -> (r:
        Option<String>)
        ensures
            r is Some <==> spec_should_create(
                spec_symlink_state(source_real@, source_type, link_type),
                force,
            ),
            r is Some ==> r->0@ == source_real@,
    {
        let state = SymlinkState::from(source_real, source_type, link_type);
        if Symlink::should_create(&state, force) {
            Some(source_real.clone())
        } else {
            None
        }
    }
}

/// The reconciliation decision is a function of the observations alone: two
/// decisions drawn from the same classifications agree, both on the named
/// outcome and on whether a link is created.
pub proof fn lemma_link_decision_deterministic(
    source_real: Seq<char>,
    source_type: FileType,
    link_type: FileType,
    force: bool,
    r1: SymlinkState,
    r2: SymlinkState,
)
    requires
        r1 == spec_symlink_state(source_real, source_type, link_type),
        r2 == spec_symlink_state(source_real, source_type, link_type),
    ensures
        r1 == r2,
        spec_should_create(r1, force) == spec_should_create(r2, force),
{
}

/// Idempotence of link reconciliation: when the machine acts, the target
/// afterwards holds a link to the canonical source, and re-classifying that
/// state names it `Identical`, on which the machine without `force` does
/// nothing.
pub proof fn lemma_link_reconcile_idempotent(
    source_real: Seq<char>,
    source_type: FileType,
    link_type: FileType,
    force: bool,
    new_link: FileType,
)
    requires
        spec_should_create(spec_symlink_state(source_real, source_type, link_type), force),
        new_link is SymbolicLink && new_link->SymbolicLink_0@ == source_real,
    ensures
        spec_symlink_state(source_real, source_type, new_link) == SymlinkState::Identical,
        !spec_should_create(SymlinkState::Identical, false),
{
}

/// The first run acts: with an existing source and nothing at the target,
/// the machine creates the link, with or without `force`.
pub proof fn lemma_link_first_run_creates(
    source_real: Seq<char>,
    source_type: FileType,
    force: bool,
)
    requires
        !(source_type is Missing),
    ensures
        spec_should_create(
            spec_symlink_state(source_real, source_type, FileType::Missing),
            force,
        ),
{
}

/// `force` still acts on an `Identical` target: a further run with unchanged
/// files recreates the link.
pub proof fn lemma_link_force_recreates()
    ensures
        spec_should_create(SymlinkState::Identical, true),
{
}

/// Foreign content is never overwritten: when something other than a
/// symbolic link occupies the target, or a link points elsewhere, or only
/// the target exists, no mutation happens, whatever `force` says.
pub proof fn lemma_link_never_overwrites_foreign(state: SymlinkState, force: bool)
    requires
        state is TargetNotSymlink || state is Changed || state is OnlyTargetExists || state
            is BothMissing,
    ensures
        !spec_should_create(state, force),
{
}

} // verus!
