//! Location classification, directory validation, the request data for
//! the text-generation service, and error rendering.
use techdocs::claude::{build_request, first_text, ClaudeResponse, Content};
use techdocs::resolve::{classify_location, LocationKind};
use techdocs::{validate_directory, TechDocsError, ValidationError};

#[test]
fn github_https_url_is_a_remote_repository() {
    let kind = classify_location("https://github.com/owner/repo").unwrap();
    assert_eq!(kind, LocationKind::RemoteRepository);
}

#[test]
fn plain_paths_are_local() {
    assert_eq!(classify_location("/tmp/project").unwrap(), LocationKind::LocalPath);
    assert_eq!(classify_location("relative/dir").unwrap(), LocationKind::LocalPath);
    assert_eq!(classify_location("github.com/owner/repo").unwrap(), LocationKind::LocalPath);
}

#[test]
fn unsupported_urls_are_refused() {
    let e1 = classify_location("https://gitlab.com/owner/repo").unwrap_err();
    assert_eq!(e1.message(), "Invalid URL: Only GitHub URLs are supported");
    let e2 = classify_location("http://github.com/owner/repo").unwrap_err();
    assert_eq!(e2.message(), "Invalid URL: Only GitHub URLs are supported");
    let e3 = classify_location("file:///etc").unwrap_err();
    assert_eq!(e3.message(), "Invalid URL: Only GitHub URLs are supported");
}

#[test]
fn validation_checks_apply_in_order() {
    assert_eq!(validate_directory(true, true, true), Ok(()));
    assert_eq!(validate_directory(false, false, false), Err(ValidationError::NotFound));
    assert_eq!(validate_directory(false, true, true), Err(ValidationError::NotFound));
    assert_eq!(validate_directory(true, false, true), Err(ValidationError::NotADirectory));
    assert_eq!(validate_directory(true, true, false), Err(ValidationError::PermissionDenied));
}

#[test]
fn request_carries_one_combined_user_message() {
    let r = build_request("some-model", "Write a README.", "File: a.rs\n```rs\nfn a() {}\n```");
    assert_eq!(r.model, "some-model");
    assert_eq!(r.max_tokens, 4096);
    assert_eq!(r.messages.len(), 1);
    assert_eq!(r.messages[0].role, "user");
    assert_eq!(r.messages[0].content, "Write a README.\n\nFile: a.rs\n```rs\nfn a() {}\n```");
}

#[test]
fn first_text_reads_the_first_part() {
    let resp = ClaudeResponse {
        content: vec![
            Content { text: "# Title".to_string() },
            Content { text: "ignored".to_string() },
        ],
    };
    assert_eq!(first_text(&resp), Some(&"# Title".to_string()));
}

#[test]
fn first_text_of_an_empty_response_is_none() {
    let resp = ClaudeResponse { content: Vec::new() };
    assert_eq!(first_text(&resp), None);
}

#[test]
fn errors_render_with_their_phase() {
    assert_eq!(TechDocsError::Io("open failed".to_string()).message(), "IO error: open failed");
    assert_eq!(TechDocsError::Git("clone failed".to_string()).message(), "Git error: clone failed");
    assert_eq!(TechDocsError::Claude("quota".to_string()).message(), "Generation error: quota");
    assert_eq!(TechDocsError::Url("bad".to_string()).message(), "Invalid URL: bad");
    assert_eq!(TechDocsError::Ignore("glob".to_string()).message(), "Ignore error: glob");
    assert_eq!(TechDocsError::Other("misc".to_string()).message(), "misc");
}
