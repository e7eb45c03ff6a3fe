//! The configuration model: packages of file mappings with dependencies and
//! template variables, and the operations that turn a freshly parsed
//! configuration into the effective one — path expansion, variable merging,
//! and ordering packages so that every dependency comes first.

use vstd::multiset::Multiset;
use vstd::prelude::*;

verus! {

broadcast use
    vstd::seq_lib::group_to_multiset_ensures,
    vstd::multiset::group_multiset_axioms,
;

/// A template variable scope: name/value bindings in which a later binding
/// for the same name overrides an earlier one.
pub type Variables = Vec<(String, String)>;

/// An explicit target: where the file goes and whether it is linked.
#[derive(Debug, Clone, PartialEq, Eq)]
pub struct TargetSpec {
    pub to: String,
    pub is_symlink: bool,
}

/// The target of one file mapping: either a bare path, deployed by
/// content-sniffing the source, or an explicit specification.
#[derive(Debug, Clone, PartialEq, Eq)]
pub enum FileTarget {
    Simple(String),
    WithSpec(TargetSpec),
}

/// A named unit of deployment: file mappings, the names of packages that
/// must be reconciled first, and a package-local variable scope.
#[derive(Debug, Clone, PartialEq, Eq, Default)]
pub struct Package {
    pub depends: Vec<String>,
    pub files: Vec<(String, FileTarget)>,
    pub variables: Variables,
}

/// A configuration as parsed: packages keyed by name, in file order, plus
/// the process-wide variable scope.
#[derive(Debug, Clone, PartialEq, Eq)]
pub struct InnerConfig {
    pub packages: Vec<(String, Package)>,
    pub variables: Variables,
}

/// The effective configuration: packages with their targets expanded, and
/// the process-wide variables extended with every package's own.
#[derive(Debug, PartialEq)]
pub struct Configuration {
    pub packages: Vec<(String, Package)>,
    pub variables: Variables,
}

/// Why a configuration could not be made effective.
#[derive(Debug, Clone, PartialEq, Eq)]
pub enum ConfigError {
    /// The packages cannot be ordered: some of them form a dependency cycle
    /// or name a dependency that no package provides.
    CircularDependency,
    /// Tilde or variable expansion of a target path failed; carries the
    /// expansion error's account of itself.
    Expansion(String),
}

impl ConfigError {
    /// A short account of the error.
    pub fn describe(&self) -> (r: String)
        ensures
            *self is CircularDependency ==> r@ == "circular dependency"@,
            self matches ConfigError::Expansion(m) ==> r@ == m@,
    {
        match self {
            ConfigError::CircularDependency => "circular dependency".to_owned(),
            ConfigError::Expansion(m) => m.clone(),
        }
    }
}

/// The value a variable scope gives to a name: that of the last binding of
/// the name, or nothing when no binding carries it.
pub open spec fn var_lookup(s: Seq<(String, String)>, name: Seq<char>) -> Option<Seq<char>>
    decreases s.len(),
{
    if s.len() == 0 {
        None
    } else if s.last().0@ == name {
        Some(s.last().1@)
    } else {
        var_lookup(s.drop_last(), name)
    }
}

/// Merge two variable scopes: every binding of both is kept, and since the
/// package-local bindings come last, a package-local binding overrides a
/// process-wide one of the same name (see `lemma_merge_precedence`).
pub fn merge_variables(variables: Variables, package_variables: Variables) -> (r: Variables)
    ensures
        r@ == variables@ + package_variables@,
{
    let mut merged = variables;
    let mut rest = package_variables;
    merged.append(&mut rest);
    merged
}

/// The value of `name` in a variable scope.
pub fn lookup(variables: &Variables, name: &String) -> (r: Option<String>)
    ensures
        r is Some <==> var_lookup(variables@, name@) is Some,
        r is Some ==> Some(r->0@) == var_lookup(variables@, name@),
{
    let mut i: usize = variables.len();
    proof {
        assert(variables@.take(i as int) =~= variables@);
    }
    while i > 0
        invariant
            0 <= i <= variables@.len(),
            var_lookup(variables@, name@) == var_lookup(variables@.take(i as int), name@),
        decreases i,
    {
        let entry = &variables[i - 1];
        if entry.0 == *name {
            assert(variables@.take(i as int).last() == variables@[i - 1]);
            return Some(entry.1.clone());
        }
        proof {
            assert(variables@.take(i as int).drop_last() =~= variables@.take(i - 1));
        }
        i = i - 1;
    }
    proof {
        assert(variables@.take(0) =~= Seq::<(String, String)>::empty());
    }
    None
}

/// The precedence contract of `merge_variables`: a name bound in the
/// package-local scope takes its package-local value, and a name bound only
/// in the process-wide scope keeps its process-wide value.
pub proof fn lemma_merge_precedence(
    variables: Seq<(String, String)>,
    package_variables: Seq<(String, String)>,
    name: Seq<char>,
)
    ensures
        var_lookup(variables + package_variables, name) == if var_lookup(
            package_variables,
            name,
        ) is Some {
            var_lookup(package_variables, name)
        } else {
            var_lookup(variables, name)
        },
    decreases package_variables.len(),
{
    if package_variables.len() == 0 {
        assert(variables + package_variables =~= variables);
    } else {
        let merged = variables + package_variables;
        assert(merged.last() == package_variables.last());
        if merged.last().0@ == name {
        } else {
            assert(merged.drop_last() =~= variables + package_variables.drop_last());
            lemma_merge_precedence(variables, package_variables.drop_last(), name);
        }
    }
}

/// Relies on shellexpand::full: tilde- and environment-variable expansion
/// of a path string.  The result depends on the process environment (the
/// home directory and the variables set), so nothing is stated of it; a
/// failed variable lookup comes back as the error's account of itself.
#[verifier::external_body]
fn expand_str(path: &String) -> (r: Result<String, String>) {
    match shellexpand::full(path.as_str()) {
        Ok(expanded) => Ok(expanded.into_owned()),
        Err(e) => Err(format!("{e}")),
    }
}

/// Expand one target path, turning an expansion failure into the
/// configuration error that carries its account.
fn expand_path(path: &String) -> (r: Result<String, ConfigError>)
    ensures
        r is Err ==> r->Err_0 is Expansion,
{
    match expand_str(path) {
        Ok(expanded) => Ok(expanded),
        Err(message) => Err(ConfigError::Expansion(message)),
    }
}

/// How one mapping target looks after expansion: a bare path stays a bare
/// path, an explicit specification keeps its link flag, and only the target
/// path itself has been rewritten.
pub open spec fn expanded_target(before: FileTarget, after: FileTarget) -> bool {
    match before {
        FileTarget::Simple(_) => after is Simple,
        FileTarget::WithSpec(s) => after matches FileTarget::WithSpec(t) && t.is_symlink
            == s.is_symlink,
    }
}

/// How a package's mappings look after expansion: same number of mappings,
/// each keeping its source path and the shape of its target.  Source paths
/// are never expanded; only where a file goes is.
pub open spec fn expanded_files(
    before: Seq<(String, FileTarget)>,
    after: Seq<(String, FileTarget)>,
) -> bool {
    &&& after.len() == before.len()
    &&& forall|i: int|
        0 <= i < before.len() ==> (#[trigger] after[i]).0 == before[i].0 && expanded_target(
            before[i].1,
            after[i].1,
        )
}

/// Expand every target path of a package's mappings.
pub fn expand_paths(files: &Vec<(String, FileTarget)>) -> (r: Result<
    Vec<(String, FileTarget)>,
    ConfigError,
>)
    ensures
        r matches Ok(out) ==> expanded_files(files@, out@),
        r is Err ==> r->Err_0 is Expansion,
{
    let mut out: Vec<(String, FileTarget)> = Vec::new();
    let mut i: usize = 0;
    while i < files.len()
        invariant
            0 <= i <= files@.len(),
            out@.len() == i,
            forall|j: int|
                0 <= j < i ==> (#[trigger] out@[j]).0 == files@[j].0 && expanded_target(
                    files@[j].1,
                    out@[j].1,
                ),
        decreases files@.len() - i,
    {
        let source = files[i].0.clone();
        let target = match &files[i].1 {
            FileTarget::Simple(path) => {
                match expand_path(path) {
                    Ok(expanded) => FileTarget::Simple(expanded),
                    Err(e) => {
                        return Err(e);
                    },
                }
            },
            FileTarget::WithSpec(spec_target) => {
                match expand_path(&spec_target.to) {
                    Ok(expanded) => FileTarget::WithSpec(
                        TargetSpec { to: expanded, is_symlink: spec_target.is_symlink },
                    ),
                    Err(e) => {
                        return Err(e);
                    },
                }
            },
        };
        out.push((source, target));
        i = i + 1;
    }
    Ok(out)
}

/// Every package's own variable bindings, in package order, one after the
/// other.
pub open spec fn package_variables_of(packages: Seq<(String, Package)>) -> Seq<(String, String)>
    decreases packages.len(),
{
    if packages.len() == 0 {
        Seq::empty()
    } else {
        package_variables_of(packages.drop_last()) + packages.last().1.variables@
    }
}

/// A fresh variable scope with the same bindings.
fn clone_variables(variables: &Variables) -> (r: Variables)
    ensures
        r@ == variables@,
{
    let mut out: Variables = Vec::new();
    let mut i: usize = 0;
    while i < variables.len()
        invariant
            0 <= i <= variables@.len(),
            out@ =~= variables@.take(i as int),
        decreases variables@.len() - i,
    {
        out.push((variables[i].0.clone(), variables[i].1.clone()));
        proof {
            assert(out@ =~= variables@.take(i + 1));
        }
        i = i + 1;
    }
    proof {
        assert(out@ =~= variables@);
    }
    out
}

/// Turn a parsed configuration into the effective one: expand every
/// mapping's target path, and extend the process-wide variables with every
/// package's own bindings, a package binding overriding a process-wide one
/// of the same name.  Packages keep their order, their names, their
/// dependencies and their own variable scopes; only target paths change.
pub fn load_config(config: InnerConfig) -> (r: Result<Configuration, ConfigError>)
    ensures
        r matches Ok(c) ==> {
            &&& c.packages@.len() == config.packages@.len()
            &&& forall|i: int|
                0 <= i < config.packages@.len() ==> {
                    &&& (#[trigger] c.packages@[i]).0 == config.packages@[i].0
                    &&& c.packages@[i].1.depends == config.packages@[i].1.depends
                    &&& c.packages@[i].1.variables == config.packages@[i].1.variables
                    &&& expanded_files(config.packages@[i].1.files@, c.packages@[i].1.files@)
                }
            &&& c.variables@ == config.variables@ + package_variables_of(config.packages@)
        },
        r is Err ==> r->Err_0 is Expansion,
{
    let InnerConfig { packages: mut pending, variables: globals } = config;
    let ghost orig = pending@;
    let mut out: Vec<(String, Package)> = Vec::new();
    let mut package_vars: Variables = Vec::new();
    proof {
        assert(pending@ =~= orig.subrange(0, orig.len() as int));
        assert(orig.take(0) =~= Seq::<(String, Package)>::empty());
    }
    while pending.len() > 0
        invariant
            out@.len() + pending@.len() == orig.len(),
            pending@ == orig.subrange(out@.len() as int, orig.len() as int),
            forall|j: int|
                0 <= j < out@.len() ==> {
                    &&& (#[trigger] out@[j]).0 == orig[j].0
                    &&& out@[j].1.depends == orig[j].1.depends
                    &&& out@[j].1.variables == orig[j].1.variables
                    &&& expanded_files(orig[j].1.files@, out@[j].1.files@)
                },
            package_vars@ == package_variables_of(orig.take(out@.len() as int)),
        decreases pending@.len(),
    {
        let ghost k = out@.len();
        let (name, package) = pending.remove(0);
        proof {
            assert(orig.subrange(k as int, orig.len() as int).remove(0) =~= orig.subrange(
                k as int + 1,
                orig.len() as int,
            ));
            assert((name, package) == orig[k as int]);
        }
        let Package { depends, files, variables: package_variables } = package;
        let expanded = match expand_paths(&files) {
            Ok(e) => e,
            Err(e) => {
                return Err(e);
            },
        };
        let cloned = clone_variables(&package_variables);
        package_vars = merge_variables(package_vars, cloned);
        out.push((name, Package { depends, files: expanded, variables: package_variables }));
        proof {
            assert(orig.take(k as int + 1).drop_last() =~= orig.take(k as int));
            assert(orig.take(k as int + 1).last() == orig[k as int]);
        }
    }
    proof {
        assert(orig.take(orig.len() as int) =~= orig);
    }
    let merged = merge_variables(globals, package_vars);
    Ok(Configuration { packages: out, variables: merged })
}

/// Whether some entry carries the name.
pub open spec fn name_in(entries: Seq<(String, Package)>, name: Seq<char>) -> bool {
    exists|j: int| 0 <= j < entries.len() && (#[trigger] entries[j]).0@ == name
}

/// Whether every dependency of the package is provided by some entry.
pub open spec fn all_deps_in(entries: Seq<(String, Package)>, package: Package) -> bool {
    forall|k: int|
        0 <= k < package.depends@.len() ==> name_in(entries, (#[trigger] package.depends@[k])@)
}

/// Whether every entry's dependencies are provided by entries before it.
pub open spec fn deps_ordered(entries: Seq<(String, Package)>) -> bool {
    forall|i: int|
        0 <= i < entries.len() ==> all_deps_in(entries.take(i), (#[trigger] entries[i]).1)
}

/// Whether the package waits on a dependency that lies in `rem` itself or
/// that no package provides at all.
pub open spec fn waits_within(
    packages: Seq<(String, Package)>,
    rem: Seq<(String, Package)>,
    package: Package,
) -> bool {
    exists|k: int|
        0 <= k < package.depends@.len() && (name_in(rem, (#[trigger] package.depends@[k])@)
            || !name_in(packages, package.depends@[k]@))
}

/// A non-empty portion of the packages none of which can be scheduled: each
/// one has a dependency that lies in the portion itself, or that no package
/// provides at all.  Such a portion is what stops a dependency ordering
/// from existing.
pub open spec fn blocked(packages: Seq<(String, Package)>, rem: Seq<(String, Package)>) -> bool {
    &&& rem.len() > 0
    &&& rem.to_multiset().subset_of(packages.to_multiset())
    &&& forall|i: int|
        0 <= i < rem.len() ==> waits_within(packages, rem, (#[trigger] rem[i]).1)
}

/// Whether all entries carry pairwise distinct names, as they do when the
/// packages come from a configuration file's mapping of names to packages.
pub open spec fn unique_names(entries: Seq<(String, Package)>) -> bool {
    forall|i: int, j: int|
        0 <= i < j < entries.len() ==> (#[trigger] entries[i]).0@ != (#[trigger] entries[j]).0@
}

/// Whether some entry carries the name.
fn contains_name(entries: &Vec<(String, Package)>, name: &String) -> (r: bool)
    ensures
        r == name_in(entries@, name@),
{
    let mut j: usize = 0;
    while j < entries.len()
        invariant
            0 <= j <= entries@.len(),
            forall|j2: int| 0 <= j2 < j ==> (#[trigger] entries@[j2]).0@ != name@,
        decreases entries@.len() - j,
    {
        if entries[j].0 == *name {
            return true;
        }
        j = j + 1;
    }
    false
}

/// Whether every dependency of the package is provided by some entry.
fn deps_satisfied(entries: &Vec<(String, Package)>, package: &Package) -> (r: bool)
    ensures
        r == all_deps_in(entries@, *package),
{
    let mut k: usize = 0;
    while k < package.depends.len()
        invariant
            0 <= k <= package.depends@.len(),
            forall|k2: int|
                0 <= k2 < k ==> name_in(entries@, (#[trigger] package.depends@[k2])@),
        decreases package.depends@.len() - k,
    {
        if !contains_name(entries, &package.depends[k]) {
            return false;
        }
        k = k + 1;
    }
    true
}

/// The first pending entry whose dependencies are all already ordered, if
/// any.
fn find_ready(pending: &Vec<(String, Package)>, ordered: &Vec<(String, Package)>) -> (r: Option<
    usize,
>)
    ensures
        r matches Some(i) ==> i < pending@.len() && all_deps_in(ordered@, pending@[i as int].1),
        r is None ==> forall|j: int|
            0 <= j < pending@.len() ==> !all_deps_in(ordered@, (#[trigger] pending@[j]).1),
{
    let mut i: usize = 0;
    while i < pending.len()
        invariant
            0 <= i <= pending@.len(),
            forall|j: int| 0 <= j < i ==> !all_deps_in(ordered@, (#[trigger] pending@[j]).1),
        decreases pending@.len() - i,
    {
        if deps_satisfied(ordered, &pending[i].1) {
            return Some(i);
        }
        i = i + 1;
    }
    None
}

impl Configuration {
    /// The packages, reordered so that every package comes after all of its
    /// dependencies.  The result holds exactly the packages of the
    /// configuration, each exactly once.  When no such order exists — some
    /// of the packages depend on each other in a cycle, or name a
    /// dependency that no package provides — the configuration is refused
    /// instead of any package being silently dropped.
    pub fn ordered_by_dependencies(self) -> (r: Result<Vec<(String, Package)>, ConfigError>)
        ensures
            r matches Ok(ordered) ==> {
                &&& ordered@.to_multiset() == self.packages@.to_multiset()
                &&& deps_ordered(ordered@)
            },
            r is Err ==> r->Err_0 is CircularDependency && exists|rem: Seq<(String, Package)>|
                blocked(self.packages@, rem),
    {
        order_packages(self.packages)
    }
}

/// Schedule the packages so that every one comes after its dependencies,
/// greedily: the first pending package whose dependencies are all ordered
/// is appended next, until none is left or none can be scheduled.
fn order_packages(packages: Vec<(String, Package)>) -> (r: Result<
    Vec<(String, Package)>,
    ConfigError,
>)
    ensures
        r matches Ok(ordered) ==> {
            &&& ordered@.to_multiset() == packages@.to_multiset()
            &&& deps_ordered(ordered@)
        },
        r is Err ==> r->Err_0 is CircularDependency && exists|rem: Seq<(String, Package)>|
            blocked(packages@, rem),
{
    let mut pending = packages;
    let ghost orig = pending@;
    let mut ordered: Vec<(String, Package)> = Vec::new();
    while pending.len() > 0
        invariant
            orig == packages@,
            ordered@.to_multiset().add(pending@.to_multiset()) == orig.to_multiset(),
            deps_ordered(ordered@),
        decreases pending@.len(),
    {
        match find_ready(&pending, &ordered) {
            None => {
                proof {
                    lemma_unschedulable_is_blocked(orig, ordered@, pending@);
                    assert(orig == packages@);
                    assert(blocked(packages@, pending@));
                }
                return Err(ConfigError::CircularDependency);
            },
            Some(i) => {
                let ghost pre_ordered = ordered@;
                let ghost pre_pending = pending@;
                let entry = pending.remove(i);
                ordered.push(entry);
                proof {
                    lemma_schedule_step(orig, pre_ordered, pre_pending, i as int);
                }
            },
        }
    }
    proof {
        assert forall|x: (String, Package)|
            ordered@.to_multiset().count(x) == orig.to_multiset().count(x) by {
            assert(pending@.to_multiset().count(x) == 0);
        }
        assert(ordered@.to_multiset() =~= orig.to_multiset());
    }
    Ok(ordered)
}

/// One scheduling step keeps the loop's shape: moving the pending entry at
/// `i`, whose dependencies are all ordered, to the end of the ordered
/// entries preserves both the multiset accounting and the ordering of
/// dependencies before their dependents.
proof fn lemma_schedule_step(
    orig: Seq<(String, Package)>,
    ordered: Seq<(String, Package)>,
    pending: Seq<(String, Package)>,
    i: int,
)
    requires
        ordered.to_multiset().add(pending.to_multiset()) == orig.to_multiset(),
        deps_ordered(ordered),
        0 <= i < pending.len(),
        all_deps_in(ordered, pending[i].1),
    ensures
        ordered.push(pending[i]).to_multiset().add(pending.remove(i).to_multiset())
            == orig.to_multiset(),
        deps_ordered(ordered.push(pending[i])),
{
    let e = pending[i];
    assert(pending.contains(e));
    assert(pending.to_multiset().count(e) > 0);
    assert forall|x: (String, Package)|
        ordered.push(e).to_multiset().add(pending.remove(i).to_multiset()).count(x)
            == orig.to_multiset().count(x) by {
        assert(ordered.push(e).to_multiset() == ordered.to_multiset().insert(e));
        assert(pending.remove(i).to_multiset() == pending.to_multiset().remove(e));
        assert(ordered.to_multiset().add(pending.to_multiset()).count(x)
            == orig.to_multiset().count(x));
    }
    assert(ordered.push(e).to_multiset().add(pending.remove(i).to_multiset())
        =~= orig.to_multiset());
    let s2 = ordered.push(e);
    assert forall|i2: int| 0 <= i2 < s2.len() implies all_deps_in(
        s2.take(i2),
        (#[trigger] s2[i2]).1,
    ) by {
        if i2 < ordered.len() {
            assert(s2.take(i2) =~= ordered.take(i2));
            assert(s2[i2] == ordered[i2]);
        } else {
            assert(s2.take(i2) =~= ordered);
            assert(s2[i2] == e);
        }
    }
}

/// When none of the pending entries has all of its dependencies among the
/// ordered ones, the pending entries are a blocked portion of the packages:
/// each of them waits for a name that is pending itself or that no package
/// provides.
proof fn lemma_unschedulable_is_blocked(
    orig: Seq<(String, Package)>,
    ordered: Seq<(String, Package)>,
    pending: Seq<(String, Package)>,
)
    requires
        ordered.to_multiset().add(pending.to_multiset()) == orig.to_multiset(),
        pending.len() > 0,
        forall|j: int| 0 <= j < pending.len() ==> !all_deps_in(ordered, (#[trigger] pending[j]).1),
    ensures
        blocked(orig, pending),
{
    assert forall|v: (String, Package)|
        pending.to_multiset().count(v) <= orig.to_multiset().count(v) by {
        assert(ordered.to_multiset().add(pending.to_multiset()).count(v)
            == orig.to_multiset().count(v));
    }
    assert forall|i: int| 0 <= i < pending.len() implies waits_within(
        orig,
        pending,
        (#[trigger] pending[i]).1,
    ) by {
        let p = pending[i].1;
        assert(!all_deps_in(ordered, p));
        assert(exists|k: int|
            0 <= k < p.depends@.len() && !name_in(ordered, (#[trigger] p.depends@[k])@));
        let k = choose|k: int|
            0 <= k < p.depends@.len() && !name_in(ordered, (#[trigger] p.depends@[k])@);
        let d = p.depends@[k]@;
        assert(!name_in(ordered, d));
        if name_in(orig, d) {
            let j = choose|j: int| 0 <= j < orig.len() && (#[trigger] orig[j]).0@ == d;
            let entry = orig[j];
            assert(orig.contains(entry));
            assert(orig.to_multiset().count(entry) > 0);
            assert(ordered.to_multiset().add(pending.to_multiset()).count(entry)
                == orig.to_multiset().count(entry));
            if ordered.to_multiset().count(entry) > 0 {
                assert(ordered.contains(entry));
                let j2 = choose|j2: int| 0 <= j2 < ordered.len() && ordered[j2] == entry;
                assert((ordered[j2]).0@ == d);
                assert(false);
            } else {
                assert(pending.to_multiset().count(entry) > 0);
                assert(pending.contains(entry));
                let j3 = choose|j3: int| 0 <= j3 < pending.len() && pending[j3] == entry;
                assert((pending[j3]).0@ == d);
                assert(name_in(pending, d));
            }
        }
        assert(0 <= k < p.depends@.len() && (name_in(pending, (#[trigger] p.depends@[k])@)
            || !name_in(orig, p.depends@[k]@)));
        assert(waits_within(orig, pending, p));
    }
}

/// No entry of a dependency ordering carries a name of the blocked
/// portion.  Strong induction over the position: the first such entry would
/// need one of its dependencies — one that is blocked itself, or that no
/// package provides — already ordered before it.
proof fn lemma_no_blocked_name_at(
    packages: Seq<(String, Package)>,
    rem: Seq<(String, Package)>,
    ordered: Seq<(String, Package)>,
    j: int,
)
    requires
        unique_names(packages),
        blocked(packages, rem),
        ordered.to_multiset() == packages.to_multiset(),
        deps_ordered(ordered),
        0 <= j < ordered.len(),
    ensures
        !name_in(rem, ordered[j].0@),
    decreases j,
{
    if name_in(rem, ordered[j].0@) {
        let i = choose|i: int| 0 <= i < rem.len() && (#[trigger] rem[i]).0@ == ordered[j].0@;
        assert(rem.contains(rem[i]));
        assert(rem.to_multiset().count(rem[i]) > 0);
        assert(rem.to_multiset().count(rem[i]) <= packages.to_multiset().count(rem[i]));
        assert(packages.contains(rem[i]));
        let a = choose|a: int| 0 <= a < packages.len() && packages[a] == rem[i];
        assert(ordered.contains(ordered[j]));
        assert(packages.to_multiset().count(ordered[j]) > 0);
        assert(packages.contains(ordered[j]));
        let b = choose|b: int| 0 <= b < packages.len() && packages[b] == ordered[j];
        assert(packages[a].0@ == packages[b].0@);
        assert(a == b);
        assert(rem[i] == ordered[j]);
        assert(waits_within(packages, rem, rem[i].1));
        let k = choose|k: int|
            0 <= k < rem[i].1.depends@.len() && (name_in(rem, (#[trigger] rem[i].1.depends@[k])@)
                || !name_in(packages, rem[i].1.depends@[k]@));
        let d = rem[i].1.depends@[k]@;
        assert(all_deps_in(ordered.take(j), ordered[j].1));
        assert(name_in(ordered.take(j), (ordered[j].1.depends@[k])@));
        let jp = choose|jp: int|
            0 <= jp < ordered.take(j).len() && (#[trigger] ordered.take(j)[jp]).0@ == d;
        assert(ordered[jp].0@ == d);
        assert(ordered.contains(ordered[jp]));
        assert(packages.to_multiset().count(ordered[jp]) > 0);
        assert(packages.contains(ordered[jp]));
        let c = choose|c: int| 0 <= c < packages.len() && packages[c] == ordered[jp];
        assert(packages[c].0@ == d);
        assert(name_in(packages, d));
        assert(name_in(rem, d));
        lemma_no_blocked_name_at(packages, rem, ordered, jp);
        assert(false);
    }
}

/// A blocked portion refuses every ordering: no reordering of the packages
/// at all — not only the one the scheduler tried — places every package
/// after all of its dependencies, as long as package names are unique.
/// Together with the contract of `ordered_by_dependencies` this makes its
/// refusal exact: the configuration is refused precisely when no
/// dependency ordering of its packages exists.
pub proof fn lemma_blocked_refuses_order(
    packages: Seq<(String, Package)>,
    rem: Seq<(String, Package)>,
    ordered: Seq<(String, Package)>,
)
    requires
        unique_names(packages),
        blocked(packages, rem),
        ordered.to_multiset() == packages.to_multiset(),
    ensures
        !deps_ordered(ordered),
{
    if deps_ordered(ordered) {
        assert(rem.len() > 0);
        assert(rem.contains(rem[0]));
        assert(rem.to_multiset().count(rem[0]) > 0);
        assert(rem.to_multiset().count(rem[0]) <= packages.to_multiset().count(rem[0]));
        assert(ordered.to_multiset().count(rem[0]) > 0);
        assert(ordered.contains(rem[0]));
        let j = choose|j: int| 0 <= j < ordered.len() && ordered[j] == rem[0];
        lemma_no_blocked_name_at(packages, rem, ordered, j);
        assert(rem[0].0@ == ordered[j].0@);
        assert(name_in(rem, ordered[j].0@));
        assert(false);
    }
}

} // verus!
