//! Naming of rendered hook scripts.
//!
//! Before a hook script runs, it is rendered through the template engine
//! into a sibling file whose extension is `templated`; after the run those
//! transient files are removed again.  This module fixes, on path strings,
//! how that sibling name is formed and which paths count as rendered
//! scripts.  Rendering, running and removing the files is the caller's
//! business.

use vstd::prelude::*;
use vstd::string::*;

verus! {

/// The position right after the last `/`: where the path's final component
/// begins.
pub open spec fn name_start(s: Seq<char>) -> int
    decreases s.len(),
{
    if s.len() == 0 {
        0
    } else if s.last() == '/' {
        s.len() as int
    } else {
        name_start(s.drop_last())
    }
}

/// The position of the dot that begins the final component's extension, if
/// the component has one: the last dot of the component, provided at least
/// one character of the component precedes it (a leading dot, as in a
/// hidden file's name, begins no extension).
pub open spec fn extension_dot(s: Seq<char>) -> Option<int>
    decreases s.len(),
{
    if s.len() == 0 {
        None
    } else if s.last() == '/' {
        None
    } else if s.last() == '.' {
        if name_start(s.drop_last()) < s.len() - 1 {
            Some(s.len() - 1)
        } else {
            None
        }
    } else {
        extension_dot(s.drop_last())
    }
}

/// The sibling path under which a hook script's rendered form is written:
/// the script's extension replaced by `templated`, or, when the script has
/// no extension, `.templated` appended.
pub open spec fn spec_templated_path(s: Seq<char>) -> Seq<char> {
    match extension_dot(s) {
        Some(d) => s.take(d) + ".templated"@,
        None => s + ".templated"@,
    }
}

/// Whether the path names a rendered script: its extension is `templated`.
pub open spec fn spec_is_templated(s: Seq<char>) -> bool {
    match extension_dot(s) {
        Some(d) => s.subrange(d + 1, s.len() as int) == "templated"@,
        None => false,
    }
}

proof fn lemma_name_start_bounds(s: Seq<char>)
    ensures
        0 <= name_start(s) <= s.len(),
        forall|j: int| name_start(s) <= j < s.len() ==> s[j] != '/',
        name_start(s) > 0 ==> s[name_start(s) - 1] == '/',
    decreases s.len(),
{
    if s.len() > 0 && s.last() != '/' {
        lemma_name_start_bounds(s.drop_last());
        assert forall|j: int| name_start(s) <= j < s.len() implies s[j] != '/' by {
            if j < s.len() - 1 {
                assert(s.drop_last()[j] == s[j]);
            }
        }
    }
}

proof fn lemma_name_start_unique(s: Seq<char>, n: int)
    requires
        0 <= n <= s.len(),
        n > 0 ==> s[n - 1] == '/',
        forall|j: int| n <= j < s.len() ==> s[j] != '/',
    ensures
        n == name_start(s),
    decreases s.len(),
{
    if s.len() == 0 {
    } else if s.last() == '/' {
        assert(n == s.len());
    } else {
        assert(n < s.len());
        lemma_name_start_unique(s.drop_last(), n);
    }
}

proof fn lemma_extension_dot_props(s: Seq<char>)
    ensures
        extension_dot(s) matches Some(d) ==> name_start(s) < d < s.len(),
    decreases s.len(),
{
    if s.len() == 0 || s.last() == '/' {
    } else if s.last() == '.' {
        assert(name_start(s) == name_start(s.drop_last()));
    } else {
        assert(name_start(s) == name_start(s.drop_last()));
        lemma_extension_dot_props(s.drop_last());
        assert(extension_dot(s) == extension_dot(s.drop_last()));
    }
}

proof fn lemma_extension_dot_some(s: Seq<char>, d: int)
    requires
        name_start(s) < d < s.len(),
        s[d] == '.',
        forall|j: int| d < j < s.len() ==> s[j] != '.',
    ensures
        extension_dot(s) == Some(d),
    decreases s.len(),
{
    lemma_name_start_bounds(s);
    if d == s.len() - 1 {
        assert(s.last() == '.');
        assert(name_start(s) == name_start(s.drop_last()));
    } else {
        assert(s.last() != '.');
        assert(s.last() != '/');
        assert(name_start(s) == name_start(s.drop_last()));
        lemma_extension_dot_some(s.drop_last(), d);
    }
}

proof fn lemma_extension_dot_none(s: Seq<char>)
    requires
        forall|j: int| name_start(s) < j < s.len() ==> s[j] != '.',
    ensures
        extension_dot(s) is None,
    decreases s.len(),
{
    lemma_name_start_bounds(s);
    if s.len() == 0 {
    } else if s.last() == '/' {
    } else if s.last() == '.' {
        assert(name_start(s) == name_start(s.drop_last()));
        assert(name_start(s) >= s.len() - 1);
    } else {
        assert(name_start(s) == name_start(s.drop_last()));
        lemma_extension_dot_none(s.drop_last());
    }
}

/// Where the path's final component begins.
fn find_name_start(path: &str) -> (r: usize)
    ensures
        r == name_start(path@),
{
    let n = path.unicode_len();
    let mut i: usize = n;
    while i > 0
        invariant
            n == path@.len(),
            0 <= i <= n,
            forall|j: int| i <= j < n ==> path@[j] != '/',
        decreases i,
    {
        if path.get_char(i - 1) == '/' {
            proof {
                lemma_name_start_unique(path@, i as int);
            }
            return i;
        }
        i = i - 1;
    }
    proof {
        lemma_name_start_unique(path@, 0);
    }
    0
}

/// The position of the dot that begins the final component's extension.
fn find_extension_dot(path: &str) -> (r: Option<usize>)
    ensures
        r matches Some(d) ==> extension_dot(path@) == Some(d as int) && name_start(path@) < d
            < path@.len(),
        r is None ==> extension_dot(path@) is None,
{
    let n = path.unicode_len();
    let start = find_name_start(path);
    proof {
        lemma_name_start_bounds(path@);
    }
    let mut i: usize = n;
    while i > 0 && i - 1 > start
        invariant
            n == path@.len(),
            start == name_start(path@),
            0 <= i <= n,
            forall|j: int| i <= j < n ==> path@[j] != '.',
        decreases i,
    {
        if path.get_char(i - 1) == '.' {
            proof {
                lemma_extension_dot_some(path@, i - 1);
            }
            return Some(i - 1);
        }
        i = i - 1;
    }
    proof {
        lemma_extension_dot_none(path@);
    }
    None
}

/// The sibling path under which a hook script's rendered form is written.
pub fn templated_script_path(path: &String) -> (r: String)
    ensures
        r@ == spec_templated_path(path@),
{
    match find_extension_dot(path.as_str()) {
        Some(d) => {
            let stem = path.as_str().substring_char(0, d);
            String::from_str(stem).concat(".templated")
        },
        None => path.clone().concat(".templated"),
    }
}

/// Whether the path names a rendered script, to be removed once the run is
/// over.
pub fn is_templated_path(path: &String) -> (r: bool)
    ensures
        r == spec_is_templated(path@),
{
    match find_extension_dot(path.as_str()) {
        Some(d) => {
            let n = path.as_str().unicode_len();
            let extension = path.as_str().substring_char(d + 1, n);
            extension.to_owned() == String::from_str("templated")
        },
        None => false,
    }
}

/// Forming a rendered script's name and recognising one agree: the path a
/// hook script is rendered to is itself recognised as a rendered script,
/// so the cleanup after a run removes exactly what rendering left behind.
pub proof fn lemma_templated_round_trip(s: Seq<char>)
    requires
        name_start(s) < s.len(),
    ensures
        spec_is_templated(spec_templated_path(s)),
{
    reveal_strlit(".templated");
    reveal_strlit("templated");
    assert(".templated"@.len() == 10);
    let t = spec_templated_path(s);
    lemma_name_start_bounds(s);
    lemma_extension_dot_props(s);
    let d = match extension_dot(s) {
        Some(d0) => d0,
        None => s.len() as int,
    };
    assert(t == s.take(d) + ".templated"@) by {
        if extension_dot(s) is None {
            assert(s.take(s.len() as int) =~= s);
        }
    }
    assert(0 <= d <= s.len());
    assert(t.len() == d + 10);
    assert(t[d] == ".templated"@[0]);
    assert(t[d] == '.');
    assert forall|j: int| d < j < t.len() implies t[j] != '.' by {
        assert(t[j] == ".templated"@[j - d]);
    }
    assert(name_start(s) < d) by {
        if extension_dot(s) is None {
        }
    }
    assert(name_start(t) < d) by {
        lemma_name_start_bounds(t);
        if name_start(t) > d {
            assert(t[name_start(t) - 1] == ".templated"@[name_start(t) - 1 - d]);
            assert(t[name_start(t) - 1] != '/');
            assert(false);
        }
        if name_start(t) == d {
            assert(d > 0);
            assert(t[d - 1] == s[d - 1]);
            assert(name_start(s) <= d - 1 < s.len());
            assert(s[d - 1] != '/');
            assert(t[name_start(t) - 1] == '/');
            assert(false);
        }
    }
    lemma_extension_dot_some(t, d);
    assert(t.subrange(d + 1, t.len() as int) =~= "templated"@) by {
        assert forall|j: int| 0 <= j < 9 implies t.subrange(d + 1, t.len() as int)[j]
            == "templated"@[j] by {
            assert(t[d + 1 + j] == ".templated"@[1 + j]);
        }
    }
}

} // verus!
