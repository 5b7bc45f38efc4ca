//! The bounded traversal engine and bundle writer.
//!
//! The engine judges one entry at a time: the exclusion policy first,
//! then the per-file size ceiling, then the cumulative ceiling.  Admitted
//! files are decoded as text and appended to the bundle as annotated
//! blocks; files that are too large or not decodable leave a skip marker;
//! reaching the cumulative ceiling appends a single notice and ends the
//! traversal.  The whole run is pinned to a mathematical model
//! (`spec_run`), so one traversal's output is a function of the
//! configuration and the visited entries alone.
use vstd::prelude::*;
use vstd::string::StrSliceExecFns;
use vstd::string::StringExecFns;
use vstd::utf8::decode_utf8;
use vstd::utf8::valid_utf8;

use crate::TechDocsError;
use crate::format::format_file_content;
use crate::format::spec_format_file_content;
use crate::policy::ExclusionPolicy;
use crate::policy::admits;
use crate::policy::glob_compiles;
use crate::policy::overrides_build_ok;

verus! {

/// What the engine decides about one offered file.
#[derive(Clone, Copy, PartialEq, Eq, Debug)]
pub enum FileDecision {
    /// The exclusion policy rejects the file; nothing is emitted.
    Excluded,
    /// The file exceeds the per-file size ceiling; a skip marker is
    /// emitted.
    TooLarge,
    /// The cumulative ceiling is reached; the traversal is over.
    Truncated,
    /// The file fits; the engine wants its bytes.
    Admitted,
}

/// The traversal's configuration: where it is rooted, the override
/// globs, and the two size ceilings.
pub ghost struct CfgV {
    pub root: Seq<char>,
    pub globs: Seq<Seq<char>>,
    pub max_file: u64,
    pub max_total: u64,
}

/// The traversal's mutable state: bytes admitted so far, the bundle
/// text, and whether the cumulative ceiling was reached.
pub ghost struct RunV {
    pub consumed: int,
    pub out: Seq<char>,
    pub truncated: bool,
}

/// One visited file: its path relative to the root, its length as the
/// filesystem reports it, and its bytes.
pub ghost struct EntryV {
    pub path: Seq<char>,
    pub size: u64,
    pub data: Seq<u8>,
}

/// How a file is identified in the bundle: the traversal root joined
/// with the relative path.
pub open spec fn display_path(root: Seq<char>, rel: Seq<char>) -> Seq<char> {
    if root.len() == 0 {
        rel
    } else {
        root + "/"@ + rel
    }
}

/// The marker left for a file over the per-file ceiling.
pub open spec fn too_large_marker(disp: Seq<char>) -> Seq<char> {
    "\nSkipped (exceeds per-file size limit): "@ + disp + "\n"@
}

/// The marker left for a file whose bytes are not text.
pub open spec fn non_text_marker(disp: Seq<char>) -> Seq<char> {
    "\nSkipped (not valid text): "@ + disp + "\n"@
}

/// The marker left for a file whose bytes could not be read.
pub open spec fn read_error_marker(disp: Seq<char>) -> Seq<char> {
    "\nSkipped (read error): "@ + disp + "\n"@
}

/// The header line the content bundle opens with, naming the traversal
/// root.
pub open spec fn directory_header(root: Seq<char>) -> Seq<char> {
    "Directory: "@ + root + "\n"@
}

/// The single notice emitted when the cumulative ceiling is reached.
pub open spec fn truncation_notice() -> Seq<char> {
    "\nWarning: Total size limit reached, some files omitted.\n"@
}

/// One admitted file's contribution to the bundle: a header line naming
/// it, then its text in a fenced block, then a separating break.
pub open spec fn file_block(disp: Seq<char>, text: Seq<char>) -> Seq<char> {
    "\nFile: "@ + disp + "\n"@ + spec_format_file_content(disp, text) + "\n"@
}

/// Judging one offered file before its bytes are read: the resulting
/// state and the decision.  Once truncated, a traversal judges nothing
/// further and its state never changes again.
pub open spec fn spec_offer(c: CfgV, s: RunV, path: Seq<char>, size: u64) -> (RunV, FileDecision) {
    let disp = display_path(c.root, path);
    if s.truncated {
        (s, FileDecision::Truncated)
    } else if !admits(c.root, c.globs, path, false) {
        (s, FileDecision::Excluded)
    } else if size > c.max_file {
        (
            RunV { consumed: s.consumed, out: s.out + too_large_marker(disp), truncated: false },
            FileDecision::TooLarge,
        )
    } else if s.consumed + size > c.max_total {
        (
            RunV { consumed: s.consumed, out: s.out + truncation_notice(), truncated: true },
            FileDecision::Truncated,
        )
    } else {
        (s, FileDecision::Admitted)
    }
}

/// Folding one admitted file's bytes into the bundle: decodable bytes
/// append a block and consume the file's length; anything else appends a
/// skip marker and consumes nothing.  A file the engine would not admit
/// changes nothing.
pub open spec fn spec_supply(
    c: CfgV,
    s: RunV,
    path: Seq<char>,
    size: u64,
    data: Seq<u8>,
) -> RunV {
    let disp = display_path(c.root, path);
    if !s.truncated && admits(c.root, c.globs, path, false) && size <= c.max_file && s.consumed
        + size <= c.max_total {
        if valid_utf8(data) {
            RunV {
                consumed: s.consumed + size,
                out: s.out + file_block(disp, decode_utf8(data)),
                truncated: s.truncated,
            }
        } else {
            RunV { consumed: s.consumed, out: s.out + non_text_marker(disp), truncated: s.truncated }
        }
    } else {
        s
    }
}

/// One whole visit of a file: the offer, then, if admitted, its bytes.
pub open spec fn spec_step(c: CfgV, s: RunV, e: EntryV) -> RunV {
    let offered = spec_offer(c, s, e.path, e.size);
    if offered.1 is Admitted {
        spec_supply(c, offered.0, e.path, e.size, e.data)
    } else {
        offered.0
    }
}

/// A whole traversal: the visits folded over the entries in order.
pub open spec fn spec_run(c: CfgV, s: RunV, es: Seq<EntryV>) -> RunV
    decreases es.len(),
{
    if es.len() == 0 {
        s
    } else {
        spec_run(c, spec_step(c, s, es.first()), es.drop_first())
    }
}

/// The state a traversal starts from: nothing consumed, the bundle
/// opened with the directory header line.
pub open spec fn init_state(root: Seq<char>) -> RunV {
    RunV { consumed: 0, out: directory_header(root), truncated: false }
}

/// Reporting that one admitted file's bytes could not be read: a marker
/// names the file and the traversal goes on; nothing is consumed.  A
/// file the engine would not admit, or a traversal already over, changes
/// nothing.
pub open spec fn spec_read_error(c: CfgV, s: RunV, path: Seq<char>) -> RunV {
    let disp = display_path(c.root, path);
    if !s.truncated && admits(c.root, c.globs, path, false) {
        RunV { consumed: s.consumed, out: s.out + read_error_marker(disp), truncated: s.truncated }
    } else {
        s
    }
}

/// Relies on String::from_utf8: succeeds exactly on UTF-8 input, whose
/// decoding it returns.
#[verifier::external_body]
fn decode_text(data: &Vec<u8>) -> (r: Option<String>)
    ensures
        r is Some <==> valid_utf8(data@),
        match r {
            Some(s) => s@ == decode_utf8(data@),
            None => true,
        },
{
    match String::from_utf8(data.clone()) {
        Ok(s) => Some(s),
        Err(_) => None,
    }
}

/// Join the traversal root and a relative path for display.
fn display_of(root: &str, rel: &str) -> (r: String)
    ensures
        r@ == display_path(root@, rel@),
{
    if root.unicode_len() == 0 {
        String::from_str(rel)
    } else {
        let mut r = String::from_str(root);
        r.append("/");
        r.append(rel);
        proof {
            assert(r@ =~= display_path(root@, rel@));
        }
        r
    }
}

/// The bounded traversal engine: the compiled exclusion policy, the two
/// ceilings, and the bundle accumulated so far.
pub struct BundleWriter {
    policy: ExclusionPolicy,
    root: String,
    max_file: u64,
    max_total: u64,
    consumed: u64,
    truncated: bool,
    out: String,
}

impl BundleWriter {
    /// The engine is well-formed: the consumed count respects the
    /// ceiling and the policy is rooted where the traversal is.
    pub closed spec fn wf(&self) -> bool {
        &&& self.consumed <= self.max_total
        &&& self.policy.root() == self.root@
    }

    /// The engine's configuration.
    pub closed spec fn cfg(&self) -> CfgV {
        CfgV {
            root: self.root@,
            globs: self.policy.globs(),
            max_file: self.max_file,
            max_total: self.max_total,
        }
    }

    /// The engine's mutable state.
    pub closed spec fn st(&self) -> RunV {
        RunV { consumed: self.consumed as int, out: self.out@, truncated: self.truncated }
    }

    /// Make an engine rooted at `root`, with the user's override globs
    /// compiled into its policy and the bundle opened with the directory
    /// header line.  The build succeeds exactly when the globs compile.
    pub fn new(root: &str, patterns: &Vec<String>, max_file: u64, max_total: u64) -> (r: Result<
        BundleWriter,
        TechDocsError,
    >)
        ensures
            r is Ok <==> ((forall|i: int|
                0 <= i < patterns.len() ==> glob_compiles(#[trigger] patterns.deep_view()[i]))
                && overrides_build_ok(root@, patterns.deep_view())),
            match r {
                Ok(w) => {
                    &&& w.wf()
                    &&& w.st() == init_state(root@)
                    &&& w.cfg() == (CfgV {
                        root: root@,
                        globs: patterns.deep_view(),
                        max_file,
                        max_total,
                    })
                },
                Err(e) => e is Ignore,
            },
    {
        let policy = match ExclusionPolicy::build(root, patterns) {
            Ok(p) => p,
            Err(e) => {
                return Err(e);
            },
        };
        let mut out = String::from_str("Directory: ");
        out.append(root);
        out.append("\n");
        proof {
            assert(out@ =~= directory_header(root@));
        }
        Ok(
            BundleWriter {
                policy,
                root: String::from_str(root),
                max_file,
                max_total,
                consumed: 0,
                truncated: false,
                out,
            },
        )
    }

    /// Whether the traversal may descend into a directory: the policy
    /// admits it.  An excluded directory's subtree is never visited.
    pub fn offer_dir(&self, rel: &str) -> (descend: bool)
        requires
            self.wf(),
        ensures
            descend == admits(self.cfg().root, self.cfg().globs, rel@, true),
    {
        proof {
            assert(self.cfg().root == self.policy.root());
        }
        self.policy.decide(rel, true)
    }

    /// Judge one file before reading it: apply the exclusion policy and
    /// the two ceilings, emit a skip marker or the truncation notice
    /// where they call for one, and say whether the bytes are wanted.
    pub fn offer_file(&mut self, rel: &str, size: u64) -> (d: FileDecision)
        requires
            old(self).wf(),
        ensures
            final(self).wf(),
            final(self).cfg() == old(self).cfg(),
            final(self).st() == spec_offer(old(self).cfg(), old(self).st(), rel@, size).0,
            d == spec_offer(old(self).cfg(), old(self).st(), rel@, size).1,
    {
        if self.truncated {
            return FileDecision::Truncated;
        }
        if !self.policy.decide(rel, false) {
            return FileDecision::Excluded;
        }
        if size > self.max_file {
            let disp = display_of(self.root.as_str(), rel);
            self.out.append("\nSkipped (exceeds per-file size limit): ");
            self.out.append(disp.as_str());
            self.out.append("\n");
            proof {
                assert(self.st().out =~= spec_offer(old(self).cfg(), old(self).st(), rel@, size).0.out);
            }
            return FileDecision::TooLarge;
        }
        if size > self.max_total - self.consumed {
            self.out.append("\nWarning: Total size limit reached, some files omitted.\n");
            self.truncated = true;
            proof {
                assert(self.st().out =~= spec_offer(old(self).cfg(), old(self).st(), rel@, size).0.out);
            }
            return FileDecision::Truncated;
        }
        FileDecision::Admitted
    }

    /// Fold one admitted file's bytes into the bundle: decodable bytes
    /// become a block and consume the file's length against the ceiling;
    /// bytes that are not text leave a skip marker.  A file the engine
    /// would not admit changes nothing.  Returns whether a block was
    /// written.
    pub fn supply_content(&mut self, rel: &str, size: u64, data: &Vec<u8>) -> (emitted: bool)
        requires
            old(self).wf(),
        ensures
            final(self).wf(),
            final(self).cfg() == old(self).cfg(),
            final(self).st() == spec_supply(old(self).cfg(), old(self).st(), rel@, size, data@),
            emitted == ({
                let c = old(self).cfg();
                let s = old(self).st();
                &&& !s.truncated
                &&& admits(c.root, c.globs, rel@, false)
                &&& size <= c.max_file
                &&& s.consumed + size <= c.max_total
                &&& valid_utf8(data@)
            }),
    {
        if self.truncated {
            return false;
        }
        if !self.policy.decide(rel, false) {
            return false;
        }
        if size > self.max_file {
            return false;
        }
        if size > self.max_total - self.consumed {
            return false;
        }
        let disp = display_of(self.root.as_str(), rel);
        match decode_text(data) {
            Some(text) => {
                self.out.append("\nFile: ");
                self.out.append(disp.as_str());
                self.out.append("\n");
                let block = format_file_content(disp.as_str(), text.as_str());
                self.out.append(block.as_str());
                self.out.append("\n");
                self.consumed = self.consumed + size;
                proof {
                    assert(self.st().out =~= spec_supply(
                        old(self).cfg(),
                        old(self).st(),
                        rel@,
                        size,
                        data@,
                    ).out);
                }
                true
            },
            None => {
                self.out.append("\nSkipped (not valid text): ");
                self.out.append(disp.as_str());
                self.out.append("\n");
                proof {
                    assert(self.st().out =~= spec_supply(
                        old(self).cfg(),
                        old(self).st(),
                        rel@,
                        size,
                        data@,
                    ).out);
                }
                false
            },
        }
    }

    /// Report that an admitted file's bytes could not be read: leave a
    /// marker naming it and go on.  A read failure is never fatal to the
    /// traversal and consumes nothing.
    pub fn supply_read_error(&mut self, rel: &str)
        requires
            old(self).wf(),
        ensures
            final(self).wf(),
            final(self).cfg() == old(self).cfg(),
            final(self).st() == spec_read_error(old(self).cfg(), old(self).st(), rel@),
    {
        if self.truncated {
            return ;
        }
        if !self.policy.decide(rel, false) {
            return ;
        }
        let disp = display_of(self.root.as_str(), rel);
        self.out.append("\nSkipped (read error): ");
        self.out.append(disp.as_str());
        self.out.append("\n");
        proof {
            assert(self.st().out =~= spec_read_error(old(self).cfg(), old(self).st(), rel@).out);
        }
    }

    /// Whether the cumulative ceiling ended the traversal early.
    pub fn was_truncated(&self) -> (b: bool)
        ensures
            b == self.st().truncated,
    {
        self.truncated
    }

    /// Hand out the finished bundle.
    pub fn into_output(self) -> (r: String)
        ensures
            r@ == self.st().out,
    {
        self.out
    }

    /// The compiled override matcher, for a walker that applies the same
    /// globs while it discovers ignore files on disk.
    pub fn matcher(&self) -> (r: &ignore::overrides::Override)
        requires
            self.wf(),
        ensures
            crate::policy::override_root(*r) == self.cfg().root,
            crate::policy::override_globs(*r) == self.cfg().globs,
    {
        self.policy.matcher()
    }
}

/// One file handed to the engine: its path relative to the traversal
/// root, its length as the filesystem reports it, and its bytes.
pub struct FileEntry {
    /// The path relative to the traversal root.
    pub path: String,
    /// The file's length in bytes, as enumerated.
    pub size: u64,
    /// The file's bytes.
    pub data: Vec<u8>,
}

impl View for FileEntry {
    type V = EntryV;

    open spec fn view(&self) -> EntryV {
        EntryV { path: self.path@, size: self.size, data: self.data@ }
    }
}

/// The mathematical form of a list of entries.
pub open spec fn entries_view(es: Seq<FileEntry>) -> Seq<EntryV> {
    es.map_values(|e: FileEntry| e@)
}

/// Build the content bundle for a list of visited files: every entry is
/// judged in order under the layered policy and the two ceilings, and
/// the output is exactly the model's fold over the entries.  Running the
/// same entries under the same configuration twice gives the same
/// bundle, for the output is a function of those values alone.
pub fn bundle_entries(
    root: &str,
    patterns: &Vec<String>,
    max_file: u64,
    max_total: u64,
    entries: &Vec<FileEntry>,
) -> (r: Result<String, TechDocsError>)
    ensures
        r is Ok <==> ((forall|i: int|
            0 <= i < patterns.len() ==> glob_compiles(#[trigger] patterns.deep_view()[i]))
            && overrides_build_ok(root@, patterns.deep_view())),
        match r {
            Ok(out) => out@ == spec_run(
                (CfgV { root: root@, globs: patterns.deep_view(), max_file, max_total }),
                init_state(root@),
                entries_view(entries@),
            ).out,
            Err(e) => e is Ignore,
        },
{
    let ghost c = CfgV { root: root@, globs: patterns.deep_view(), max_file, max_total };
    let mut w = match BundleWriter::new(root, patterns, max_file, max_total) {
        Ok(w) => w,
        Err(e) => {
            return Err(e);
        },
    };
    let mut i: usize = 0;
    while i < entries.len()
        invariant
            i <= entries.len(),
            w.wf(),
            w.cfg() == c,
            w.st() == spec_run(c, init_state(root@), entries_view(entries@).take(i as int)),
        decreases entries.len() - i,
    {
        let e = &entries[i];
        let ghost s_before = w.st();
        let d = w.offer_file(e.path.as_str(), e.size);
        match d {
            FileDecision::Admitted => {
                w.supply_content(e.path.as_str(), e.size, &e.data);
            },
            _ => {},
        }
        proof {
            assert(w.st() == spec_step(c, s_before, entries_view(entries@)[i as int]));
            lemma_run_snoc(c, init_state(root@), entries_view(entries@).take(i as int), entries_view(entries@)[i as int]);
            assert(entries_view(entries@).take(i + 1) =~= entries_view(entries@).take(
                i as int,
            ).push(entries_view(entries@)[i as int]));
        }
        i = i + 1;
    }
    proof {
        assert(entries_view(entries@).take(entries@.len() as int) =~= entries_view(entries@));
    }
    Ok(w.into_output())
}

/// One path's line in listing mode: the display path, or nothing when
/// the policy excludes it.
pub open spec fn spec_listing(
    root: Seq<char>,
    globs: Seq<Seq<char>>,
    paths: Seq<Seq<char>>,
) -> Seq<char>
    decreases paths.len(),
{
    if paths.len() == 0 {
        Seq::<char>::empty()
    } else {
        let line = if admits(root, globs, paths.first(), false) {
            display_path(root, paths.first()) + "\n"@
        } else {
            Seq::<char>::empty()
        };
        line + spec_listing(root, globs, paths.drop_first())
    }
}

/// Render the plain path listing for a list of visited files: one line
/// for every file the policy admits, in order.
pub fn list_entries(root: &str, patterns: &Vec<String>, paths: &Vec<String>) -> (r: Result<
    String,
    TechDocsError,
>)
    ensures
        r is Ok <==> ((forall|i: int|
            0 <= i < patterns.len() ==> glob_compiles(#[trigger] patterns.deep_view()[i]))
            && overrides_build_ok(root@, patterns.deep_view())),
        match r {
            Ok(out) => out@ == spec_listing(root@, patterns.deep_view(), paths.deep_view()),
            Err(e) => e is Ignore,
        },
{
    let policy = match ExclusionPolicy::build(root, patterns) {
        Ok(p) => p,
        Err(e) => {
            return Err(e);
        },
    };
    let ghost full = paths.deep_view();
    let mut out = String::new();
    proof {
        assert(full.skip(0) =~= full);
        assert(Seq::<char>::empty() + spec_listing(root@, patterns.deep_view(), full)
            =~= spec_listing(root@, patterns.deep_view(), full));
    }
    let mut i: usize = 0;
    while i < paths.len()
        invariant
            i <= paths.len(),
            full == paths.deep_view(),
            policy.root() == root@,
            policy.globs() == patterns.deep_view(),
            spec_listing(root@, patterns.deep_view(), full) == out@ + spec_listing(
                root@,
                patterns.deep_view(),
                full.skip(i as int),
            ),
        decreases paths.len() - i,
    {
        let ghost rest = full.skip(i as int);
        let ghost out_before = out@;
        let ghost line: Seq<char> = if admits(root@, patterns.deep_view(), full[i as int], false) {
            display_path(root@, full[i as int]) + "\n"@
        } else {
            Seq::<char>::empty()
        };
        proof {
            assert(rest.first() == full[i as int]);
            assert(rest.drop_first() =~= full.skip(i + 1));
            assert(full[i as int] == paths@[i as int]@);
        }
        if policy.decide(paths[i].as_str(), false) {
            let disp = display_of(root, paths[i].as_str());
            out.append(disp.as_str());
            out.append("\n");
        }
        proof {
            assert(out@ =~= out_before + line);
            assert(spec_listing(root@, patterns.deep_view(), rest) == line + spec_listing(
                root@,
                patterns.deep_view(),
                full.skip(i + 1),
            ));
            assert(out_before + (line + spec_listing(root@, patterns.deep_view(), full.skip(i + 1)))
                =~= (out_before + line) + spec_listing(root@, patterns.deep_view(), full.skip(i + 1)));
        }
        i = i + 1;
    }
    proof {
        assert(full.skip(paths@.len() as int) =~= Seq::<Seq<char>>::empty());
    }
    Ok(out)
}

/// The summed lengths of a list of entries.
pub open spec fn total_size(es: Seq<EntryV>) -> int
    decreases es.len(),
{
    if es.len() == 0 {
        0
    } else {
        es.first().size as int + total_size(es.drop_first())
    }
}

/// One entry the traversal admits in full: the policy admits it, it is
/// under the per-file ceiling, and its bytes decode as text.
pub open spec fn admissible(c: CfgV, e: EntryV) -> bool {
    &&& admits(c.root, c.globs, e.path, false)
    &&& e.size <= c.max_file
    &&& valid_utf8(e.data)
}

/// Every entry of the list is admissible.
pub open spec fn all_admissible(c: CfgV, es: Seq<EntryV>) -> bool {
    forall|i: int| 0 <= i < es.len() ==> admissible(c, #[trigger] es[i])
}

/// The blocks a list of admissible entries renders to, one per entry,
/// in order, each holding the entry's decoded text.
pub open spec fn blocks_of(c: CfgV, es: Seq<EntryV>) -> Seq<char>
    decreases es.len(),
{
    if es.len() == 0 {
        Seq::<char>::empty()
    } else {
        file_block(display_path(c.root, es.first().path), decode_utf8(es.first().data))
            + blocks_of(c, es.drop_first())
    }
}

proof fn lemma_total_size_nonneg(es: Seq<EntryV>)
    ensures
        total_size(es) >= 0,
    decreases es.len(),
{
    if es.len() > 0 {
        lemma_total_size_nonneg(es.drop_first());
    }
}

/// A directory with enough room admits every file: over entries the
/// policy admits, each under the per-file ceiling and decodable, whose
/// summed lengths fit under the cumulative ceiling, the traversal emits
/// exactly one block per entry, in order, holding that entry's text, and
/// is never truncated.
pub proof fn lemma_full_admission(c: CfgV, s: RunV, es: Seq<EntryV>)
    requires
        !s.truncated,
        0 <= s.consumed,
        s.consumed + total_size(es) <= c.max_total,
        all_admissible(c, es),
    ensures
        spec_run(c, s, es).out == s.out + blocks_of(c, es),
        spec_run(c, s, es).consumed == s.consumed + total_size(es),
        !spec_run(c, s, es).truncated,
    decreases es.len(),
{
    if es.len() == 0 {
        assert(s.out + blocks_of(c, es) =~= s.out);
    } else {
        let e = es.first();
        let rest = es.drop_first();
        lemma_total_size_nonneg(rest);
        assert(admissible(c, es[0]));
        let block = file_block(display_path(c.root, e.path), decode_utf8(e.data));
        let s1 = spec_step(c, s, e);
        assert(s1.out == s.out + block);
        assert forall|i: int| 0 <= i < rest.len() implies admissible(c, #[trigger] rest[i]) by {
            assert(rest[i] == es[i + 1]);
        }
        lemma_full_admission(c, s1, rest);
        assert((s.out + block) + blocks_of(c, rest) =~= s.out + (block + blocks_of(c, rest)));
    }
}

/// A file over the per-file ceiling never yields a block: visiting it
/// appends exactly the skip marker, consumes nothing, and does not end
/// the traversal.
pub proof fn lemma_oversized_file_skipped(c: CfgV, s: RunV, e: EntryV)
    requires
        !s.truncated,
        admits(c.root, c.globs, e.path, false),
        e.size > c.max_file,
    ensures
        spec_step(c, s, e).out == s.out + too_large_marker(display_path(c.root, e.path)),
        spec_step(c, s, e).consumed == s.consumed,
        !spec_step(c, s, e).truncated,
{
}

/// The first file that would push the consumed count past the
/// cumulative ceiling yields no block, not even a partial one: visiting
/// it appends exactly the truncation notice and ends the traversal.
pub proof fn lemma_truncation_point(c: CfgV, s: RunV, e: EntryV)
    requires
        !s.truncated,
        admits(c.root, c.globs, e.path, false),
        e.size <= c.max_file,
        s.consumed + e.size > c.max_total,
    ensures
        spec_step(c, s, e).out == s.out + truncation_notice(),
        spec_step(c, s, e).consumed == s.consumed,
        spec_step(c, s, e).truncated,
{
}

/// After the cumulative ceiling ends a traversal, no further entry is
/// processed: the state, the output with its single notice included,
/// never changes again.
pub proof fn lemma_truncated_stops(c: CfgV, s: RunV, es: Seq<EntryV>)
    requires
        s.truncated,
    ensures
        spec_run(c, s, es) == s,
    decreases es.len(),
{
    if es.len() > 0 {
        lemma_truncated_stops(c, s, es.drop_first());
    }
}

/// The consumed count is monotonic and never exceeds the cumulative
/// ceiling, whatever the traversal visits.
pub proof fn lemma_budget_respected(c: CfgV, s: RunV, es: Seq<EntryV>)
    requires
        0 <= s.consumed <= c.max_total,
    ensures
        s.consumed <= spec_run(c, s, es).consumed <= c.max_total,
    decreases es.len(),
{
    if es.len() > 0 {
        lemma_budget_respected(c, spec_step(c, s, es.first()), es.drop_first());
    }
}

/// An entry the policy excludes leaves no trace at all: no block, no
/// marker, no consumption.
pub proof fn lemma_excluded_leaves_no_trace(c: CfgV, s: RunV, e: EntryV)
    requires
        !admits(c.root, c.globs, e.path, false),
    ensures
        spec_step(c, s, e) == s,
{
}

/// A path nested anywhere under a deny-listed directory carries the
/// denied component itself, so the policy excludes it and — with the
/// lemma above — the traversal leaves no trace of it, however small the
/// file: pruning a denied directory loses nothing the policy would have
/// kept.
pub proof fn lemma_denied_dir_covers_subtree(dir: Seq<char>, rest: Seq<char>)
    requires
        crate::policy::has_denied_component(dir),
    ensures
        crate::policy::has_denied_component(dir + "/"@ + rest),
{
    let (i, j): (int, int) = choose|i: int, j: int|
        crate::paths::component_at(dir, i, j) && crate::policy::spec_denied(dir.subrange(i, j));
    let full = dir + "/"@ + rest;
    reveal_strlit("/");
    assert("/"@.len() == 1);
    assert(full.len() == dir.len() + 1 + rest.len());
    assert forall|k: int| 0 <= k < dir.len() implies full[k] == dir[k] by {}
    assert(full[dir.len() as int] == '/');
    assert(crate::paths::component_at(full, i, j));
    assert(full.subrange(i, j) =~= dir.subrange(i, j));
}

/// The text `a` starts the text `b`.
pub open spec fn starts(a: Seq<char>, b: Seq<char>) -> bool {
    &&& a.len() <= b.len()
    &&& b.subrange(0, a.len() as int) == a
}

proof fn lemma_starts_concat(a: Seq<char>, x: Seq<char>)
    ensures
        starts(a, a + x),
{
    assert((a + x).subrange(0, a.len() as int) =~= a);
}

proof fn lemma_starts_trans(a: Seq<char>, b: Seq<char>, c: Seq<char>)
    requires
        starts(a, b),
        starts(b, c),
    ensures
        starts(a, c),
{
    assert forall|i: int| 0 <= i < a.len() implies c.subrange(0, a.len() as int)[i] == a[i] by {
        assert(a[i] == b.subrange(0, a.len() as int)[i]);
        assert(b[i] == c.subrange(0, b.len() as int)[i]);
    }
    assert(c.subrange(0, a.len() as int) =~= a);
}

proof fn lemma_step_appends(c: CfgV, s: RunV, e: EntryV)
    ensures
        starts(s.out, spec_step(c, s, e).out),
{
    let o = spec_offer(c, s, e.path, e.size).0;
    lemma_starts_concat(s.out, too_large_marker(display_path(c.root, e.path)));
    lemma_starts_concat(s.out, truncation_notice());
    assert(starts(s.out, s.out)) by {
        assert(s.out.subrange(0, s.out.len() as int) =~= s.out);
    }
    assert(starts(s.out, o.out));
    assert(starts(o.out, o.out)) by {
        assert(o.out.subrange(0, o.out.len() as int) =~= o.out);
    }
    lemma_starts_concat(o.out, file_block(display_path(c.root, e.path), decode_utf8(e.data)));
    lemma_starts_concat(o.out, non_text_marker(display_path(c.root, e.path)));
    assert(starts(o.out, spec_step(c, s, e).out));
    lemma_starts_trans(s.out, o.out, spec_step(c, s, e).out);
}

/// The bundle is written append-only, in one pass: whatever a traversal
/// visits, the output already emitted only ever grows at its end and is
/// never rewritten.
pub proof fn lemma_output_append_only(c: CfgV, s: RunV, es: Seq<EntryV>)
    ensures
        starts(s.out, spec_run(c, s, es).out),
    decreases es.len(),
{
    if es.len() == 0 {
        assert(s.out.subrange(0, s.out.len() as int) =~= s.out);
    } else {
        let s1 = spec_step(c, s, es.first());
        lemma_step_appends(c, s, es.first());
        lemma_output_append_only(c, s1, es.drop_first());
        lemma_starts_trans(s.out, s1.out, spec_run(c, s, es).out);
    }
}

/// Traversing the same entries under the same configuration twice
/// yields byte-identical bundles: the output is a function of the
/// configuration and the visited entries alone, nothing else.
pub proof fn lemma_traversal_deterministic(c: CfgV, es: Seq<EntryV>, o1: Seq<char>, o2: Seq<char>)
    requires
        o1 == spec_run(c, init_state(c.root), es).out,
        o2 == spec_run(c, init_state(c.root), es).out,
    ensures
        o1 == o2,
{
}

/// The two ceilings in bytes, from the user-facing kilobyte and
/// megabyte counts.
pub fn budget_bytes(max_file_size_kb: u64, max_total_size_mb: u64) -> (r: (u64, u64))
    requires
        max_file_size_kb <= u64::MAX / 1024,
        max_total_size_mb <= u64::MAX / 1048576,
    ensures
        r.0 == max_file_size_kb * 1024,
        r.1 == max_total_size_mb * 1048576,
{
    (max_file_size_kb * 1024, max_total_size_mb * 1048576)
}

/// Appending one entry to a traversal visits it after the others.
proof fn lemma_run_snoc(c: CfgV, s: RunV, es: Seq<EntryV>, e: EntryV)
    ensures
        spec_run(c, s, es.push(e)) == spec_step(c, spec_run(c, s, es), e),
    decreases es.len(),
{
    if es.len() == 0 {
        assert(es.push(e).first() == e);
        assert(es.push(e).drop_first() =~= Seq::<EntryV>::empty());
        assert(spec_run(c, spec_step(c, s, e), Seq::<EntryV>::empty()) == spec_step(c, s, e));
        assert(spec_run(c, s, Seq::<EntryV>::empty()) == s);
    } else {
        assert(es.push(e).first() == es.first());
        assert(es.push(e).drop_first() =~= es.drop_first().push(e));
        lemma_run_snoc(c, spec_step(c, s, es.first()), es.drop_first(), e);
        assert(spec_run(c, s, es.push(e)) == spec_run(
            c,
            spec_step(c, s, es.first()),
            es.drop_first().push(e),
        ));
        assert(spec_run(c, s, es) == spec_run(c, spec_step(c, s, es.first()), es.drop_first()));
    }
}

} // verus!
