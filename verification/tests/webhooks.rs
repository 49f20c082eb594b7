use bull::target::{repository_name, Target};
use bull::webhook::{
    body_from_head, branch_name_from_capture, get_branch_name_from_ref, request_body,
    webhook_target, Head, ParseRefError, WHRepository, Webhook, WebhookError, BUFFER_SIZE,
    MAX_HEADERS,
};

fn target(repository_name: &str, branch_name: &str) -> Target {
    Target { repository_name: repository_name.to_string(), branch_name: branch_name.to_string() }
}

#[test]
fn targets_are_equal_only_if_both_names_are() {
    assert!(target("app", "main") == target("app", "main"));
    assert!(target("app", "main").matches(&target("app", "main")));
    assert!(target("app", "main") != target("app", "Main"));
    assert!(target("app", "main") != target("App", "main"));
    assert!(target("app", "main") != target("app ", "main"));
    assert!(target("app", "main") != target("main", "app"));
    assert!(!target("app", "main").matches(&target("app", "mai")));
    assert!(target("", "") == target("", ""));
    assert!(target("app", "main").clone() == target("app", "main"));
}

#[test]
fn repository_name_is_the_last_segment_without_git_suffix() {
    assert_eq!(repository_name("https://example.com/team/app.git"), "app");
    assert_eq!(repository_name("https://example.com/team/app"), "app");
    assert_eq!(repository_name("git@example.com:team/app.git"), "app");
    assert_eq!(repository_name("app.git"), "app");
    assert_eq!(repository_name("app"), "app");
    assert_eq!(repository_name("https://example.com/team/app.git/"), "");
    assert_eq!(repository_name(""), "");
    assert_eq!(repository_name(".git"), "");
    assert_eq!(repository_name("a/.git"), "");
    assert_eq!(repository_name("a/git"), "git");
    assert_eq!(repository_name("a/b.git.git"), "b.git");
    assert_eq!(repository_name("a/b.gi"), "b.gi");
    assert_eq!(repository_name("https://example.com/équipe/appli.git"), "appli");
}

#[test]
fn reference_to_a_branch_gives_the_branch() {
    assert_eq!(get_branch_name_from_ref("refs/heads/main".to_string()), Ok("main".to_string()));
    assert_eq!(
        get_branch_name_from_ref("refs/heads/feature/x".to_string()),
        Ok("feature/x".to_string())
    );
    assert_eq!(get_branch_name_from_ref("refs/heads/".to_string()), Ok(String::new()));
}

#[test]
fn reference_to_a_tag_is_a_parse_failure() {
    let result = get_branch_name_from_ref("refs/tags/v1.0".to_string());
    assert_eq!(result, Err(WebhookError::Ref(ParseRefError { msg: "Oh no".to_string() })));
    assert!(matches!(get_branch_name_from_ref(String::new()), Err(WebhookError::Ref(_))));
    assert!(matches!(
        get_branch_name_from_ref("refs/head/main".to_string()),
        Err(WebhookError::Ref(_))
    ));
}

#[test]
fn reference_with_another_prefix_is_a_parse_failure() {
    let others = [
        "refs/tags/refs/heads/main",
        "xrefs/heads/main",
        " refs/heads/main",
        "\nrefs/heads/main",
        "refs/remotes/origin/refs/heads/main",
        "Refs/heads/main",
        "refs/heads",
    ];
    for other in others {
        let result = get_branch_name_from_ref(other.to_string());
        assert!(matches!(result, Err(WebhookError::Ref(_))), "{:?}", other);
    }
}

#[test]
fn reference_that_runs_over_a_line_names_no_branch() {
    for broken in ["refs/heads/main\n", "refs/heads/a\nb", "refs/heads/\n"] {
        let result = get_branch_name_from_ref(broken.to_string());
        assert!(matches!(result, Err(WebhookError::Ref(_))), "{:?}", broken);
    }
    assert_eq!(
        get_branch_name_from_ref("refs/heads/refs/heads/x".to_string()),
        Ok("refs/heads/x".to_string())
    );
}

#[test]
fn parse_ref_error_has_its_message() {
    let error = ParseRefError { msg: "Oh no".to_string() };
    assert_eq!(error.to_string(), "Failed to extract branch name from ref");
}

#[test]
fn capture_is_believed_only_behind_the_prefix() {
    let oh_no = || Err(ParseRefError { msg: "Oh no".to_string() });
    let capture = |text: &str| Some(text.to_string());
    let main = "refs/heads/main".to_string();
    assert_eq!(branch_name_from_capture(&main, capture("main")), Ok("main".to_string()));
    assert_eq!(branch_name_from_capture(&main, capture("mai")), oh_no());
    assert_eq!(branch_name_from_capture(&main, capture("")), oh_no());
    assert_eq!(branch_name_from_capture(&main, None), oh_no());
    let nested = "refs/tags/refs/heads/main".to_string();
    assert_eq!(branch_name_from_capture(&nested, capture("main")), oh_no());
    assert_eq!(branch_name_from_capture(&nested, capture("refs/heads/main")), oh_no());
    let bare = "refs/heads/".to_string();
    assert_eq!(branch_name_from_capture(&bare, capture("")), Ok(String::new()));
}

#[test]
fn webhook_names_its_target() {
    let webhook = Webhook {
        git_ref: "refs/heads/main".to_string(),
        repository: WHRepository { name: "app".to_string() },
    };
    assert_eq!(webhook_target(webhook), Ok(target("app", "main")));
    for git_ref in ["refs/tags/v1.0", "refs/tags/refs/heads/main"] {
        let webhook = Webhook {
            git_ref: git_ref.to_string(),
            repository: WHRepository { name: "app".to_string() },
        };
        assert!(matches!(webhook_target(webhook), Err(WebhookError::Ref(_))));
    }
}

#[test]
fn body_follows_a_complete_head() {
    let request = b"POST /hook HTTP/1.1\r\nHost: localhost\r\n\
Content-Type: application/json\r\n\r\n{\"ref\":\"refs/heads/main\"}";
    assert_eq!(request_body(request), Ok(Some("{\"ref\":\"refs/heads/main\"}".to_string())));
    assert_eq!(request_body(b"GET / HTTP/1.1\r\n\r\n"), Ok(Some(String::new())));
    assert_eq!(request_body(b"PUT /x HTTP/1.0\n\nbody"), Ok(Some("body".to_string())));
}

#[test]
fn incomplete_head_gives_no_body() {
    assert_eq!(request_body(b""), Ok(None));
    assert_eq!(request_body(b"POST /hook HTTP/1.1\r\nHost: loc"), Ok(None));
    assert_eq!(request_body(b"POST /hook HTTP/1.1\r\nHost: localhost\r\n"), Ok(None));
}

#[test]
fn malformed_head_is_an_error() {
    assert_eq!(request_body(b"\0\0\0\0"), Err(WebhookError::Request));
    assert_eq!(request_body(b"POST /hook HTTP/9.9\r\n\r\n"), Err(WebhookError::Request));
    assert_eq!(request_body(b"GET / HTTP/1.1\r\nbad header\r\n\r\n"), Err(WebhookError::Request));
}

#[test]
fn too_many_header_lines_are_an_error() {
    assert_eq!(MAX_HEADERS, 20);
    let mut request = b"POST / HTTP/1.1\r\n".to_vec();
    for i in 0..20 {
        request.extend_from_slice(format!("X-H{}: v\r\n", i).as_bytes());
    }
    let mut fits = request.clone();
    fits.extend_from_slice(b"\r\nbody");
    assert_eq!(request_body(&fits), Ok(Some("body".to_string())));
    request.extend_from_slice(b"X-One-More: v\r\n\r\nbody");
    assert_eq!(request_body(&request), Err(WebhookError::Request));
}

#[test]
fn body_that_is_no_utf8_is_decoded_with_replacements() {
    let mut request = b"POST / HTTP/1.1\r\n\r\n".to_vec();
    request.extend_from_slice(&[b'a', 0xff, b'b']);
    assert_eq!(request_body(&request), Ok(Some("a\u{fffd}b".to_string())));
    let mut request = b"POST / HTTP/1.1\r\n\r\n".to_vec();
    request.extend_from_slice("é€".as_bytes());
    assert_eq!(request_body(&request), Ok(Some("é€".to_string())));
}

#[test]
fn head_result_decides_the_body() {
    let bytes = b"0123456789";
    assert_eq!(body_from_head(bytes, Head::Complete(4)), Ok(Some("456789".to_string())));
    assert_eq!(body_from_head(bytes, Head::Complete(0)), Ok(Some("0123456789".to_string())));
    assert_eq!(body_from_head(bytes, Head::Complete(10)), Ok(Some(String::new())));
    assert_eq!(body_from_head(bytes, Head::Complete(11)), Err(WebhookError::Request));
    assert_eq!(body_from_head(bytes, Head::Partial), Ok(None));
    assert_eq!(body_from_head(bytes, Head::Invalid), Err(WebhookError::Request));
}

#[test]
fn one_read_takes_twenty_thousand_bytes_at_most() {
    assert_eq!(BUFFER_SIZE, 20_000);
}
