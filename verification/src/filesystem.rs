//! Plain-file deployment decisions and template detection.
//!
//! A mapping without an explicit delivery mode is content-sniffed: a source
//! whose text holds the template marker `{{` is rendered, anything else is
//! linked or copied.  The sniff on the text is verified here; reading the
//! file is the caller's business.

use vstd::prelude::*;
use vstd::string::*;

verus! {

/// Whether the text holds the template marker: two adjacent `{` characters.
pub open spec fn spec_is_template(s: Seq<char>) -> bool {
    exists|i: int| 0 <= i && i + 1 < s.len() && (#[trigger] s[i]) == '{' && s[i + 1] == '{'
}

/// Content sniff for the template marker `{{` that selects template
/// delivery for a mapping without an explicit mode.
pub fn is_template_text(text: &str) -> (r: bool)
    ensures
        r == spec_is_template(text@),
{
    let n = text.unicode_len();
    if n < 2 {
        return false;
    }
    let mut i: usize = 0;
    while i < n - 1
        invariant
            n == text@.len(),
            2 <= n,
            0 <= i <= n,
            forall|j: int| 0 <= j < i ==> !((#[trigger] text@[j]) == '{' && text@[j + 1] == '{'),
        decreases n - i,
    {
        let a = text.get_char(i);
        let b = text.get_char(i + 1);
        if a == '{' && b == '{' {
            assert(spec_is_template(text@));
            return true;
        }
        i = i + 1;
    }
    false
}

/// Plain-copy deployment decisions.
pub struct Filesystem;

impl Filesystem {
    /// Whether a plain copy may be written to the target: always when
    /// nothing occupies the target, and under `force` even when something
    /// does.  Without `force` an occupied target is skipped untouched.
    pub fn should_copy(target_present: bool, force: bool) -> (r: bool)
        ensures
            r == (force || !target_present),
    {
        force || !target_present
    }
}

} // verus!
