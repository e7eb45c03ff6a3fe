//! Dispatch of one file mapping to its delivery: render the source as a
//! template, create a symbolic link, or copy the file.  The driver around
//! the crate walks the packages in dependency order and, for each mapping,
//! asks here which machine handles it; observing and mutating the
//! filesystem stays with the driver.

use vstd::prelude::*;

verus! {

/// How one mapping's source reaches its target.
#[derive(Debug, Clone, Copy, PartialEq, Eq)]
pub enum Delivery {
    /// Render the source through the template engine and write the output.
    Template,
    /// Create a symbolic link pointing at the canonical source.
    Link,
    /// Copy the file as it is.
    Copy,
}

/// The delivery of a mapping with a bare target path: the source's content
/// decides, a template marker selects rendering and anything else is
/// linked.
pub fn process_simple(source_is_template: bool) -> (d: Delivery)
    ensures
        d == (if source_is_template {
            Delivery::Template
        } else {
            Delivery::Link
        }),
{
    if source_is_template {
        Delivery::Template
    } else {
        Delivery::Link
    }
}

/// The delivery of a mapping with an explicit target specification: a
/// source holding the template marker is still rendered, anything else
/// follows the specification's link flag — linked when it asks for a link,
/// copied otherwise.
pub fn process_with_spec(source_is_template: bool, is_symlink: bool) -> (d: Delivery)
    ensures
        source_is_template ==> d is Template,
        !source_is_template && is_symlink ==> d is Link,
        !source_is_template && !is_symlink ==> d is Copy,
{
    if source_is_template {
        Delivery::Template
    } else if !is_symlink {
        Delivery::Copy
    } else {
        Delivery::Link
    }
}

} // verus!
