//! The content formatter: tags and fenced blocks.
use techdocs::format::{extension_tag, format_file_content};

#[test]
fn tag_is_the_extension() {
    assert_eq!(extension_tag("src/main.rs"), "rs");
    assert_eq!(extension_tag("a/b/c.go"), "go");
    assert_eq!(extension_tag("archive.tar.gz"), "gz");
    assert_eq!(extension_tag("UPPER.Md"), "Md");
}

#[test]
fn tag_defaults_to_txt() {
    assert_eq!(extension_tag("README"), "txt");
    assert_eq!(extension_tag("src/Makefile"), "txt");
    assert_eq!(extension_tag(".gitignore"), "txt");
    assert_eq!(extension_tag("a.b/c"), "txt");
    assert_eq!(extension_tag(""), "txt");
}

#[test]
fn block_fences_the_content_verbatim() {
    assert_eq!(format_file_content("src/main.rs", "fn main() {}"), "```rs\nfn main() {}\n```");
    assert_eq!(format_file_content("notes", "a\nb\n"), "```txt\na\nb\n\n```");
    assert_eq!(format_file_content("x.py", ""), "```py\n\n```");
}

#[test]
fn block_is_deterministic() {
    let a = format_file_content("lib/a.c", "int x;");
    let b = format_file_content("lib/a.c", "int x;");
    assert_eq!(a, b);
}
