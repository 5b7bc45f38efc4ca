//! The layered exclusion policy: which entries a traversal admits.
//!
//! Layers, highest precedence first:
//! 1. a fixed deny-list of build-tool artifact names, matched as a
//!    substring of any path component — absolute, no override re-admits a
//!    denied entry;
//! 2. user-supplied override globs, compiled by the `ignore` crate: a
//!    whitelisting glob admits the entry, an ignoring glob rejects it;
//! 3. a default rule hiding entries with a component that starts with a
//!    dot, unless an override whitelisted the entry.
//!
//! Ignore-file rules discovered on disk are the walker's business and are
//! applied before entries reach the library.
use vstd::prelude::*;
use vstd::string::StrSliceExecFns;

use crate::TechDocsError;
use crate::paths::contains_seq;
use crate::paths::contains_str;
use crate::paths::component_at;

verus! {

/// A file or directory name matches the fixed deny-list of build-tool
/// wrapper and output names: the deny-list entry occurs in the name as a
/// substring.
pub open spec fn spec_denied(name: Seq<char>) -> bool {
    ||| contains_seq(name, "target"@)
    ||| contains_seq(name, "node_modules"@)
    ||| contains_seq(name, "build"@)
    ||| contains_seq(name, "dist"@)
    ||| contains_seq(name, "out"@)
    ||| contains_seq(name, "bin"@)
    ||| contains_seq(name, "Debug"@)
    ||| contains_seq(name, "Release"@)
    ||| contains_seq(name, ".git"@)
    ||| contains_seq(name, ".idea"@)
    ||| contains_seq(name, ".vscode"@)
}

/// Whether a name belongs to a build tool's wrappers or outputs: one of
/// the fixed deny-list entries occurs in it as a substring.
pub fn is_build_executable(file_name: &str) -> (r: bool)
    ensures
        r == spec_denied(file_name@),
{
    contains_str(file_name, "target") || contains_str(file_name, "node_modules") || contains_str(
        file_name,
        "build",
    ) || contains_str(file_name, "dist") || contains_str(file_name, "out") || contains_str(
        file_name,
        "bin",
    ) || contains_str(file_name, "Debug") || contains_str(file_name, "Release") || contains_str(
        file_name,
        ".git",
    ) || contains_str(file_name, ".idea") || contains_str(file_name, ".vscode")
}

/// Some component of the path matches the deny-list.
pub open spec fn has_denied_component(p: Seq<char>) -> bool {
    exists|i: int, j: int| component_at(p, i, j) && spec_denied(p.subrange(i, j))
}

/// Position `i` starts a hidden component: it is the path's first
/// character or follows a separator, and holds a dot.
pub open spec fn hidden_at(p: Seq<char>, i: int) -> bool {
    &&& 0 <= i < p.len()
    &&& (i == 0 || p[i - 1] == '/')
    &&& p[i] == '.'
}

/// Some component of the path starts with a dot.
pub open spec fn has_hidden_component(p: Seq<char>) -> bool {
    exists|i: int| hidden_at(p, i)
}

/// Two components that end at the same position start at the same
/// position: a component's span is determined by where it ends.
proof fn lemma_component_start_unique(p: Seq<char>, i: int, j: int, start: int)
    requires
        component_at(p, i, j),
        0 <= start <= j,
        start == 0 || p[start - 1] == '/',
        forall|t: int| start <= t < j ==> p[t] != '/',
    ensures
        i == start,
{
    if i < start {
        assert(p[start - 1] != '/');
    }
    if start < i {
        assert(p[i - 1] != '/');
    }
}

/// Whether some component of the path matches the deny-list, by scanning
/// the components in order.
pub fn path_has_denied_component(p: &str) -> (r: bool)
    ensures
        r == has_denied_component(p@),
{
    let len = p.unicode_len();
    let mut start: usize = 0;
    let mut k: usize = 0;
    while k < len
        invariant
            start <= k <= len,
            len == p@.len(),
            start == 0 || p@[start - 1] == '/',
            forall|t: int| start <= t < k ==> p@[t] != '/',
            forall|i: int, j: int|
                component_at(p@, i, j) && j < k ==> !spec_denied(p@.subrange(i, j)),
        decreases len - k,
    {
        if p.get_char(k) == '/' {
            let comp = p.substring_char(start, k);
            if is_build_executable(comp) {
                assert(component_at(p@, start as int, k as int));
                return true;
            }
            proof {
                assert forall|i: int, j: int|
                    component_at(p@, i, j) && j < k + 1 implies !spec_denied(
                    p@.subrange(i, j),
                ) by {
                    if j == k {
                        lemma_component_start_unique(p@, i, j, start as int);
                    }
                }
            }
            start = k + 1;
        } else {
            proof {
                assert forall|i: int, j: int|
                    component_at(p@, i, j) && j < k + 1 implies !spec_denied(
                    p@.subrange(i, j),
                ) by {
                    if j == k {
                        assert(p@[j] != '/');
                    }
                }
            }
        }
        k = k + 1;
    }
    let comp = p.substring_char(start, len);
    if is_build_executable(comp) {
        assert(component_at(p@, start as int, len as int));
        return true;
    }
    proof {
        assert forall|i: int, j: int| component_at(p@, i, j) implies !spec_denied(
            p@.subrange(i, j),
        ) by {
            if j == len {
                lemma_component_start_unique(p@, i, j, start as int);
            }
        }
    }
    false
}

/// Whether some component of the path starts with a dot.
pub fn path_has_hidden_component(p: &str) -> (r: bool)
    ensures
        r == has_hidden_component(p@),
{
    let len = p.unicode_len();
    let mut k: usize = 0;
    while k < len
        invariant
            k <= len,
            len == p@.len(),
            forall|i: int| 0 <= i < k ==> !hidden_at(p@, i),
        decreases len - k,
    {
        if p.get_char(k) == '.' {
            if k == 0 || p.get_char(k - 1) == '/' {
                assert(hidden_at(p@, k as int));
                return true;
            }
        }
        k = k + 1;
    }
    false
}

/// How the user's override globs judge one path.
#[derive(Clone, Copy, PartialEq, Eq, Debug)]
pub enum OverrideMatch {
    /// No override glob matched.
    NoMatch,
    /// The path is ignored by the overrides.
    Ignored,
    /// The path is whitelisted by the overrides.
    Whitelisted,
}

#[verifier::external_type_specification]
#[verifier::external_body]
pub struct ExOverride(ignore::overrides::Override);

#[verifier::external_type_specification]
#[verifier::external_body]
pub struct ExOverrideBuilder(ignore::overrides::OverrideBuilder);

/// The root directory an override matcher was built at.
pub uninterp spec fn override_root(ov: ignore::overrides::Override) -> Seq<char>;

/// The glob lines an override matcher was built from, in order.
pub uninterp spec fn override_globs(ov: ignore::overrides::Override) -> Seq<Seq<char>>;

/// The root directory an override builder was created at.
pub uninterp spec fn builder_root(b: ignore::overrides::OverrideBuilder) -> Seq<char>;

/// The glob lines added to an override builder so far, in order.
pub uninterp spec fn builder_globs(b: ignore::overrides::OverrideBuilder) -> Seq<Seq<char>>;

/// Whether one glob line parses under the override syntax.
pub uninterp spec fn glob_compiles(g: Seq<char>) -> bool;

/// Whether a set of accepted glob lines compiles into a matcher at
/// `root`: the outcome of the final build step, a function of those
/// values alone.
pub uninterp spec fn overrides_build_ok(root: Seq<char>, globs: Seq<Seq<char>>) -> bool;

/// The judgement an override matcher built at `root` from the glob lines
/// `globs` passes on `path`: a function of those values alone.
pub uninterp spec fn override_decision(
    root: Seq<char>,
    globs: Seq<Seq<char>>,
    path: Seq<char>,
    is_dir: bool,
) -> OverrideMatch;

/// Relies on ignore::overrides::OverrideBuilder::new: creates a builder
/// with no globs, matching relative to `root`.
#[verifier::external_body]
fn override_builder_new(root: &str) -> (b: ignore::overrides::OverrideBuilder)
    ensures
        builder_root(b) == root@,
        builder_globs(b) == Seq::<Seq<char>>::empty(),
{
    ignore::overrides::OverrideBuilder::new(std::path::Path::new(root))
}

/// Relies on ignore::overrides::OverrideBuilder::add: parses one glob
/// line (gitignore syntax with the meaning of `!` inverted); a line that
/// does not parse is refused and leaves the builder as it was.
#[verifier::external_body]
fn override_builder_add(b: &mut ignore::overrides::OverrideBuilder, glob: &str) -> (ok: bool)
    ensures
        ok == glob_compiles(glob@),
        builder_root(*final(b)) == builder_root(*old(b)),
        ok ==> builder_globs(*final(b)) == builder_globs(*old(b)).push(glob@),
        !ok ==> builder_globs(*final(b)) == builder_globs(*old(b)),
{
    b.add(glob).is_ok()
}

/// Relies on ignore::overrides::OverrideBuilder::build: compiles the
/// added glob lines into a matcher for the builder's root; the outcome
/// is a function of the root and those lines alone.
#[verifier::external_body]
fn override_builder_build(b: &ignore::overrides::OverrideBuilder) -> (r: Option<
    ignore::overrides::Override,
>)
    ensures
        r is Some <==> overrides_build_ok(builder_root(*b), builder_globs(*b)),
        match r {
            Some(ov) => override_root(ov) == builder_root(*b) && override_globs(ov)
                == builder_globs(*b),
            None => true,
        },
{
    match b.build() {
        Ok(ov) => Some(ov),
        Err(_) => None,
    }
}

/// Relies on ignore::overrides::Override::matched: the judgement is a
/// function of the matcher's root and glob lines, the path and the entry
/// kind alone; with no overrides it always returns no match.
#[verifier::external_body]
fn override_matched(ov: &ignore::overrides::Override, path: &str, is_dir: bool) -> (m:
    OverrideMatch)
    ensures
        m == override_decision(override_root(*ov), override_globs(*ov), path@, is_dir),
        override_globs(*ov).len() == 0 ==> m == OverrideMatch::NoMatch,
{
    match ov.matched(std::path::Path::new(path), is_dir) {
        ignore::Match::None => OverrideMatch::NoMatch,
        ignore::Match::Ignore(_) => OverrideMatch::Ignored,
        ignore::Match::Whitelist(_) => OverrideMatch::Whitelisted,
    }
}

/// The layered admit/reject decision on one path, relative to the
/// traversal root: the deny-list is absolute; below it, a whitelisting
/// override admits and an ignoring override rejects; with no override
/// verdict — in particular whenever no override glob was given at all —
/// hidden components reject; everything else is admitted.
pub open spec fn admits(
    root: Seq<char>,
    globs: Seq<Seq<char>>,
    path: Seq<char>,
    is_dir: bool,
) -> bool {
    &&& !has_denied_component(path)
    &&& if globs.len() == 0 {
        !has_hidden_component(path)
    } else {
        match override_decision(root, globs, path, is_dir) {
            OverrideMatch::Whitelisted => true,
            OverrideMatch::Ignored => false,
            OverrideMatch::NoMatch => !has_hidden_component(path),
        }
    }
}

/// The compiled exclusion policy: the user's override globs over the
/// fixed deny-list and the hidden-entry rule.
pub struct ExclusionPolicy {
    ov: ignore::overrides::Override,
}

impl ExclusionPolicy {
    /// The traversal root the policy was built at.
    pub closed spec fn root(&self) -> Seq<char> {
        override_root(self.ov)
    }

    /// The override glob lines the policy was built from.
    pub closed spec fn globs(&self) -> Seq<Seq<char>> {
        override_globs(self.ov)
    }

    /// Compile the user's override globs into a policy rooted at `root`.
    /// The build succeeds exactly when every glob line parses and the
    /// parsed lines compile into a matcher; a failure is reported as a
    /// pattern error.
    pub fn build(root: &str, patterns: &Vec<String>) -> (r: Result<ExclusionPolicy, TechDocsError>)
        ensures
            r is Ok <==> ((forall|i: int|
                0 <= i < patterns.len() ==> glob_compiles(#[trigger] patterns.deep_view()[i]))
                && overrides_build_ok(root@, patterns.deep_view())),
            match r {
                Ok(pol) => pol.root() == root@ && pol.globs() == patterns.deep_view(),
                Err(e) => e is Ignore,
            },
    {
        let mut b = override_builder_new(root);
        let mut idx: usize = 0;
        while idx < patterns.len()
            invariant
                idx <= patterns.len(),
                builder_root(b) == root@,
                builder_globs(b) == patterns.deep_view().take(idx as int),
                forall|i: int|
                    0 <= i < idx ==> glob_compiles(#[trigger] patterns.deep_view()[i]),
            decreases patterns.len() - idx,
        {
            let ok = override_builder_add(&mut b, patterns[idx].as_str());
            if !ok {
                proof {
                    assert(!glob_compiles(patterns.deep_view()[idx as int]));
                }
                let mut msg = String::from_str("invalid override pattern: ");
                msg.append(patterns[idx].as_str());
                return Err(TechDocsError::Ignore(msg));
            }
            proof {
                assert(patterns.deep_view().take(idx as int).push(patterns.deep_view()[idx as int])
                    =~= patterns.deep_view().take(idx + 1));
            }
            idx = idx + 1;
        }
        proof {
            assert(patterns.deep_view().take(patterns.len() as int) =~= patterns.deep_view());
        }
        match override_builder_build(&b) {
            Some(ov) => Ok(ExclusionPolicy { ov }),
            None => Err(
                TechDocsError::Ignore(String::from_str("override patterns could not be compiled")),
            ),
        }
    }

    /// Judge one path, relative to the traversal root.  With no override
    /// globs the decision is the default one: reject denied or hidden
    /// components, admit the rest.
    pub fn decide(&self, path: &str, is_dir: bool) -> (a: bool)
        ensures
            a == admits(self.root(), self.globs(), path@, is_dir),
    {
        if path_has_denied_component(path) {
            return false;
        }
        match override_matched(&self.ov, path, is_dir) {
            OverrideMatch::Whitelisted => true,
            OverrideMatch::Ignored => false,
            OverrideMatch::NoMatch => !path_has_hidden_component(path),
        }
    }

    /// The compiled override matcher, for a walker that applies the same
    /// globs while it discovers ignore files on disk.
    pub fn matcher(&self) -> (r: &ignore::overrides::Override)
        ensures
            override_root(*r) == self.root(),
            override_globs(*r) == self.globs(),
    {
        &self.ov
    }
}

} // verus!
