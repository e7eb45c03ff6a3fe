//! The template-reconciliation state machine.
//!
//! It mirrors the shape of the link machine but compares text content
//! instead of a link destination: the target of a template mapping is the
//! previously rendered output, a plain text file.  Everything here is pure;
//! reading the source, rendering it and writing the target are the caller's
//! business.

use crate::file_type::FileType;
use vstd::prelude::*;

verus! {

/// The relation between a template source file and its rendered target.
#[derive(Debug, Clone, PartialEq, Eq)]
pub enum TemplateState {
    /// Source and target are text files with identical content.
    Identical,
    /// The source is text and nothing exists at the target: safe to render.
    OnlySourceExists,
    /// Source and target are text files whose content diverges.
    Changed,
    /// The target exists but is not a readable text file: a directory, a
    /// symbolic link, or a file whose bytes are not text.
    TargetNotRegularFile,
    /// The source does not exist as text, so there is nothing to render.
    BothMissing,
}

/// The outcome table of the template machine.  A source that is not a
/// readable text file gives `BothMissing` whatever the target holds; with a
/// readable source, the target's content decides between `Identical` and
/// `Changed`, a missing target is safe to create, and any other occupant
/// blocks the action.
pub open spec fn spec_template_state(source_type: FileType, templated: FileType) -> TemplateState {
    match source_type {
        FileType::File(Some(source_text)) => match templated {
            FileType::File(Some(target_text)) => if source_text@ == target_text@ {
                TemplateState::Identical
            } else {
                TemplateState::Changed
            },
            FileType::Missing => TemplateState::OnlySourceExists,
            _ => TemplateState::TargetNotRegularFile,
        },
        _ => TemplateState::BothMissing,
    }
}

/// Whether the template machine renders in a given state: on a missing
/// target or on diverging content, and, under `force`, also on content that
/// is already identical (it is then rendered again, overwriting).  A blocked
/// or empty state never renders, whatever `force` says.
pub open spec fn spec_should_render(state: TemplateState, force: bool) -> bool {
    match state {
        TemplateState::OnlySourceExists => true,
        TemplateState::Changed => true,
        TemplateState::Identical => force,
        _ => false,
    }
}

impl TemplateState {
    /// Classify one (source, rendered target) pair.
    pub fn from(source_type: FileType, templated: FileType) -> (r: TemplateState)
        ensures
            r == spec_template_state(source_type, templated),
    {
        match (source_type, templated) {
            (FileType::File(Some(source_text)), FileType::File(Some(target_text))) => {
                if source_text == target_text {
                    TemplateState::Identical
                } else {
                    TemplateState::Changed
                }
            },
            (FileType::File(Some(_)), FileType::Missing) => TemplateState::OnlySourceExists,
            (FileType::File(Some(_)), _) => TemplateState::TargetNotRegularFile,
            _ => TemplateState::BothMissing,
        }
    }

    /// A short account of the state, for reporting every decision before it
    /// is applied.
    pub fn describe(&self) -> (r: &'static str)
        ensures
            *self is Identical ==> r@ == "source and templated file contents are equal"@,
            *self is OnlySourceExists ==> r@ == "templated file doesn't exist"@,
            *self is Changed ==> r@ == "source contents were changed"@,
            *self is TargetNotRegularFile ==> r@
                == "target already exists and isn't a regular file"@,
            *self is BothMissing ==> r@ == "templated file and source are missing"@,
    {
        match self {
            TemplateState::Identical => "source and templated file contents are equal",
            TemplateState::OnlySourceExists => "templated file doesn't exist",
            TemplateState::Changed => "source contents were changed",
            TemplateState::TargetNotRegularFile => "target already exists and isn't a regular file",
            TemplateState::BothMissing => "templated file and source are missing",
        }
    }
}

/// Template deployment decisions.
pub struct Template;

impl Template {
    /// Whether the target is to be rendered anew in the given state.
    pub fn should_render(state: &TemplateState, force: bool) -> (r: bool)
        ensures
            r == spec_should_render(*state, force),
    {
        match state {
            TemplateState::OnlySourceExists => true,
            TemplateState::Changed => true,
            TemplateState::Identical => force,
            _ => false,
        }
    }
}

/// The reconciliation decision is a function of the observations alone: two
/// decisions drawn from the same classifications agree, both on the named
/// outcome and on whether the target is rendered.
pub proof fn lemma_template_decision_deterministic(
    source_type: FileType,
    templated: FileType,
    force: bool,
    r1: TemplateState,
    r2: TemplateState,
)
    requires
        r1 == spec_template_state(source_type, templated),
        r2 == spec_template_state(source_type, templated),
    ensures
        r1 == r2,
        spec_should_render(r1, force) == spec_should_render(r2, force),
{
}

/// Idempotence of template reconciliation: after a render whose output text
/// equals the source text, re-classifying names the pair `Identical`, on
/// which the machine without `force` does nothing.  When the output
/// diverges from the source text (the source held placeholders), the pair
/// is named `Changed` instead, and a later run renders again.
pub proof fn lemma_template_reconcile_idempotent(
    source: String,
    templated: FileType,
    force: bool,
    rendered: String,
)
    requires
        spec_should_render(spec_template_state(FileType::File(Some(source)), templated), force),
    ensures
        rendered@ == source@ ==> spec_template_state(
            FileType::File(Some(source)),
            FileType::File(Some(rendered)),
        ) == TemplateState::Identical,
        rendered@ != source@ ==> spec_template_state(
            FileType::File(Some(source)),
            FileType::File(Some(rendered)),
        ) == TemplateState::Changed,
        !spec_should_render(TemplateState::Identical, false),
{
}

/// The first run acts: with readable source text and nothing at the
/// target, the machine renders, with or without `force`.
pub proof fn lemma_template_first_run_renders(source: String, force: bool)
    ensures
        spec_should_render(
            spec_template_state(FileType::File(Some(source)), FileType::Missing),
            force,
        ),
{
}

/// `force` still acts on an `Identical` target: a further run with unchanged
/// files renders the target again.
pub proof fn lemma_template_force_rerenders()
    ensures
        spec_should_render(TemplateState::Identical, true),
{
}

/// Foreign content is never overwritten: when the target is occupied by
/// anything but a readable text file, or there is no source text to render,
/// no mutation happens, whatever `force` says.
pub proof fn lemma_template_never_overwrites_foreign(state: TemplateState, force: bool)
    requires
        state is TargetNotRegularFile || state is BothMissing,
    ensures
        !spec_should_render(state, force),
{
}

} // verus!
