//! Rendering one file's text into an annotated block: a fenced code
//! section opened with a tag derived from the file's extension.
use vstd::prelude::*;
use vstd::string::StrSliceExecFns;
use vstd::string::StringExecFns;

use crate::paths::after_last_dot;
use crate::paths::file_name_of;
use crate::paths::find_after_last_dot;
use crate::paths::find_file_name_start;

verus! {

/// The extension of the path's file name: everything after the last dot,
/// provided that dot is not the name's first character.  A name without
/// such a dot has no extension.
pub open spec fn extension_of(p: Seq<char>) -> Option<Seq<char>> {
    let name = file_name_of(p);
    let a = after_last_dot(name);
    if a >= 2 {
        Some(name.subrange(a, name.len() as int))
    } else {
        None
    }
}

/// The language tag the fenced block opens with: the file's extension,
/// case as-is, or the generic plain-text tag when there is none.
pub open spec fn tag_of(p: Seq<char>) -> Seq<char> {
    match extension_of(p) {
        Some(e) => e,
        None => "txt"@,
    }
}

/// Compute the fence tag for a path.
pub fn extension_tag(path: &str) -> (r: String)
    ensures
        r@ == tag_of(path@),
{
    let len = path.unicode_len();
    let fstart = find_file_name_start(path);
    let name = path.substring_char(fstart, len);
    assert(name@ == file_name_of(path@));
    let name_len = name.unicode_len();
    let a = find_after_last_dot(name);
    if a >= 2 {
        let ext = name.substring_char(a, name_len);
        String::from_str(ext)
    } else {
        String::from_str("txt")
    }
}

/// The rendered form of one file's text: a fenced block opened with the
/// path's tag and holding the text verbatim.
pub open spec fn spec_format_file_content(path: Seq<char>, content: Seq<char>) -> Seq<char> {
    "```"@ + tag_of(path) + "\n"@ + content + "\n```"@
}

/// Render one file's decoded text as a fenced block tagged with the
/// language derived from the path's extension.
pub fn format_file_content(path: &str, content: &str) -> (r: String)
    ensures
        r@ == spec_format_file_content(path@, content@),
{
    let tag = extension_tag(path);
    let mut r = String::from_str("```");
    r.append(tag.as_str());
    r.append("\n");
    r.append(content);
    r.append("\n```");
    proof {
        assert(r@ =~= spec_format_file_content(path@, content@));
    }
    r
}

} // verus!
