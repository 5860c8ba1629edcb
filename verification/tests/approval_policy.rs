use ironclaw::approval_policy::{
    auto_approved_shell_prefixes, command_starts_with_prefix, deny_tool_install_patterns,
    is_auto_approved_shell_prefix, is_readonly_help_shell_command, is_readonly_http_request,
    is_tool_auto_approved_for_user, is_trusted_operator, reject_tool_call_for_user,
};
use ironclaw::json::Json;

const OPERATOR: &str = "989554992786579536";

fn json(text: &str) -> Json {
    Json::from_value(serde_json::from_str(text).unwrap())
}

fn object(fields: Vec<(&str, Json)>) -> Json {
    Json::Object(
        fields
            .into_iter()
            .map(|(key, value)| (key.to_string(), value))
            .collect(),
    )
}

#[test]
fn trusted_user_get_http_is_allowed() {
    let params = object(vec![
        ("method", Json::text("GET")),
        ("url", Json::text("https://example.com/docs")),
    ]);
    assert!(is_tool_auto_approved_for_user(
        "989554992786579536",
        "http",
        &params,
        None
    ));
}

#[test]
fn trusted_user_post_http_is_not_allowed() {
    let params = object(vec![
        ("method", Json::text("POST")),
        ("url", Json::text("https://example.com/api")),
    ]);
    assert!(!is_tool_auto_approved_for_user(
        "989554992786579536",
        "http",
        &params,
        None
    ));
}

#[test]
fn trusted_user_auth_header_http_is_not_allowed() {
    let params = object(vec![
        ("method", Json::text("GET")),
        ("url", Json::text("https://example.com/api")),
        (
            "headers",
            object(vec![("Authorization", Json::text("Bearer token"))]),
        ),
    ]);
    assert!(!is_tool_auto_approved_for_user(
        "989554992786579536",
        "http",
        &params,
        None
    ));
}

#[test]
fn untrusted_user_never_auto_approved() {
    let params = object(vec![]);
    assert!(!is_tool_auto_approved_for_user(
        "not-trusted",
        "skill_install",
        &params,
        None
    ));
}

#[test]
fn trusted_user_codex_help_shell_is_allowed() {
    let params = object(vec![("command", Json::text("codex mcp --help"))]);
    assert!(is_tool_auto_approved_for_user(
        "989554992786579536",
        "shell",
        &params,
        None
    ));
}

#[test]
fn trusted_user_mercury_shell_is_allowed() {
    // The setting TRUSTED_SHELL_AUTO_APPROVE_PREFIXES.
    let prefixes = Some("mercury");
    let params = object(vec![(
        "command",
        Json::text("mercury accounts get-accounts --limit 100"),
    )]);
    assert!(is_tool_auto_approved_for_user(
        "989554992786579536",
        "shell",
        &params,
        prefixes
    ));
}

#[test]
fn reject_mercury_mcp_install() {
    // The setting TOOL_INSTALL_DENY_PATTERNS.
    let patterns = Some("mcp_server mercury");
    let params = object(vec![
        ("kind", Json::text("mcp_server")),
        ("name", Json::text("mercury-bank-accounts")),
    ]);
    assert!(
        reject_tool_call_for_user("989554992786579536", "tool_install", &params, patterns)
            .is_some()
    );
}

#[test]
fn allow_non_mercury_mcp_install_policy_layer() {
    // The setting TOOL_INSTALL_DENY_PATTERNS.
    let patterns = Some("mcp_server mercury");
    let params = object(vec![
        ("kind", Json::text("mcp_server")),
        ("name", Json::text("notion")),
    ]);
    assert!(
        reject_tool_call_for_user("989554992786579536", "tool_install", &params, patterns)
            .is_none()
    );
}

#[test]
fn every_operator_is_trusted() {
    assert!(is_trusted_operator("989554992786579536"));
    assert!(is_trusted_operator("975815588930781308"));
    assert!(is_trusted_operator("1001181816490827817"));
    assert!(!is_trusted_operator("98955499278657953"));
    assert!(!is_trusted_operator(""));
    assert!(!is_trusted_operator(" 989554992786579536"));
}

#[test]
fn skill_install_is_approved_and_other_tools_are_not() {
    let params = object(vec![]);
    assert!(is_tool_auto_approved_for_user(
        OPERATOR,
        "skill_install",
        &params,
        None
    ));
    assert!(!is_tool_auto_approved_for_user(
        OPERATOR,
        "tool_install",
        &params,
        Some("tool_install")
    ));
    assert!(!is_tool_auto_approved_for_user(OPERATOR, "HTTP", &params, None));
    assert!(!is_tool_auto_approved_for_user(OPERATOR, "shell", &params, None));
}

#[test]
fn method_is_trimmed_and_case_does_not_matter() {
    assert!(is_readonly_http_request(&json("{}")));
    assert!(is_readonly_http_request(&json(r#"{"method": " head\n"}"#)));
    assert!(is_readonly_http_request(&json(r#"{"method": 5}"#)));
    assert!(is_readonly_http_request(&json("[1, 2]")));
    assert!(!is_readonly_http_request(&json(r#"{"method": ""}"#)));
    assert!(!is_readonly_http_request(&json(r#"{"method": "DELETE"}"#)));
}

#[test]
fn bodies_are_refused_unless_blank() {
    assert!(is_readonly_http_request(&json(r#"{"body": null}"#)));
    assert!(is_readonly_http_request(&json(r#"{"body": " \n\t"}"#)));
    assert!(!is_readonly_http_request(&json(r#"{"body": "x"}"#)));
    assert!(!is_readonly_http_request(&json(r#"{"body": {}}"#)));
    assert!(!is_readonly_http_request(&json(r#"{"body": false}"#)));
    assert!(!is_readonly_http_request(&json(r#"{"body": 0}"#)));
}

#[test]
fn sensitive_headers_are_refused_in_both_forms() {
    let names = [
        "authorization",
        "PROXY-Authorization",
        "Cookie",
        "X-API-Key",
        "x-auth-token",
        "X-Auth-",
    ];
    for name in names {
        let map = object(vec![("headers", object(vec![(name, Json::text("v"))]))]);
        assert!(!is_readonly_http_request(&map));
        let list = object(vec![(
            "headers",
            Json::Array(vec![object(vec![
                ("name", Json::text(name)),
                ("value", Json::text("v")),
            ])]),
        )]);
        assert!(!is_readonly_http_request(&list));
    }
    assert!(!is_readonly_http_request(&json(
        r#"{"headers": {"Accept": "  BEARER abc"}}"#
    )));
    assert!(!is_readonly_http_request(&json(
        r#"{"headers": [{"name": "Accept", "value": "bearer x"}]}"#
    )));
}

#[test]
fn harmless_headers_are_allowed() {
    assert!(is_readonly_http_request(&json(r#"{"headers": {}}"#)));
    assert!(is_readonly_http_request(&json(r#"{"headers": []}"#)));
    assert!(is_readonly_http_request(&json(
        r#"{"headers": {"Accept": "text/html", "x-auth": "1", "A": "bearer"}}"#
    )));
    // A value that is no string is not looked at.
    assert!(is_readonly_http_request(&json(
        r#"{"headers": {"Cookie": 1}}"#
    )));
    assert!(is_readonly_http_request(&json(
        r#"{"headers": [{"name": "Cookie"}, {"value": "bearer x"}, 7]}"#
    )));
    // The trailing space of a value is trimmed before it is looked at.
    assert!(is_readonly_http_request(&json(
        r#"{"headers": {"A": "Bearer "}}"#
    )));
}

#[test]
fn unreadable_headers_are_refused() {
    assert!(!is_readonly_http_request(&json(r#"{"headers": null}"#)));
    assert!(!is_readonly_http_request(&json(r#"{"headers": "Accept: x"}"#)));
    assert!(!is_readonly_http_request(&json(r#"{"headers": 1}"#)));
}

#[test]
fn of_two_entries_the_later_holds() {
    let params = object(vec![
        ("method", Json::text("POST")),
        ("method", Json::text("GET")),
        (
            "headers",
            object(vec![
                ("Cookie", Json::text("secret")),
                ("Cookie", Json::Null),
            ]),
        ),
    ]);
    assert!(is_readonly_http_request(&params));
}

#[test]
fn help_commands() {
    for cmd in [
        "codex --help",
        "codex help",
        " codex -h\n",
        "codex --version",
        "codex version",
        "codex mcp -h",
        "codex mcp help",
        "codex help exec",
    ] {
        assert!(is_readonly_help_shell_command(&object(vec![(
            "command",
            Json::text(cmd)
        )])));
    }
    for cmd in [
        "",
        "  ",
        "codex",
        "codex run",
        "Codex --help",
        "xcodex --help",
        "codex --helpful",
        "ls help",
        "codex exec helper.sh",
        "codex exec help me",
        "codex helper",
    ] {
        assert!(!is_readonly_help_shell_command(&object(vec![(
            "command",
            Json::text(cmd)
        )])));
    }
    assert!(!is_readonly_help_shell_command(&json(r#"{"command": 1}"#)));
}

#[test]
fn prefixes_are_matched_by_word() {
    assert!(command_starts_with_prefix("mercury", "mercury"));
    assert!(command_starts_with_prefix("mercury x", "mercury"));
    assert!(command_starts_with_prefix("mercury\u{3000}x", "mercury"));
    assert!(command_starts_with_prefix("git status -s", "git status"));
    assert!(!command_starts_with_prefix("mercuryx", "mercury"));
    assert!(!command_starts_with_prefix("mercury-cli", "mercury"));
    assert!(!command_starts_with_prefix("merc", "mercury"));
    assert!(command_starts_with_prefix(" x", ""));
    assert!(!command_starts_with_prefix("x", ""));
}

#[test]
fn prefix_approval_ignores_case_and_leading_space() {
    let cmd = |text: &str| object(vec![("command", Json::text(text))]);
    assert!(is_auto_approved_shell_prefix(
        &cmd("  GIT Status"),
        Some("ls, Git ")
    ));
    assert!(!is_auto_approved_shell_prefix(&cmd("git"), Some(" , ,")));
    assert!(!is_auto_approved_shell_prefix(&cmd("git"), None));
    assert!(!is_auto_approved_shell_prefix(&cmd("   "), Some("git")));
    assert!(!is_auto_approved_shell_prefix(&cmd("gitk"), Some("git")));
}

#[test]
fn settings_are_split_trimmed_and_lowered() {
    assert_eq!(
        auto_approved_shell_prefixes(Some(" Git status,, LS ,\tÄB\n,")),
        vec!["git status", "ls", "Äb"]
    );
    assert_eq!(auto_approved_shell_prefixes(Some("")), Vec::<String>::new());
    assert_eq!(auto_approved_shell_prefixes(None), Vec::<String>::new());
    assert_eq!(deny_tool_install_patterns(Some("A,b")), vec!["a", "b"]);
    assert_eq!(deny_tool_install_patterns(None), Vec::<String>::new());
}

#[test]
fn rejection_names_the_first_pattern_that_occurs() {
    let params = object(vec![
        ("kind", Json::text("MCP_Server")),
        ("name", Json::text("Evil")),
        ("url", Json::text("https://X.example")),
    ]);
    assert_eq!(
        reject_tool_call_for_user("anyone", "tool_install", &params, Some("nope,EVIL,x.ex")),
        Some("Installation request denied by policy pattern 'evil'.".to_string())
    );
    // Kind, name and URL are looked at as one text with spaces between them.
    assert_eq!(
        reject_tool_call_for_user("", "tool_install", &params, Some("evil https")),
        Some("Installation request denied by policy pattern 'evil https'.".to_string())
    );
    assert_eq!(
        reject_tool_call_for_user("", "tool_install", &params, None),
        None
    );
    assert_eq!(
        reject_tool_call_for_user("", "skill_install", &params, Some("evil")),
        None
    );
}

#[test]
fn rejection_of_an_installation_without_parameters() {
    assert_eq!(
        reject_tool_call_for_user("", "tool_install", &Json::Null, Some("x")),
        None
    );
}

#[test]
fn letters_of_either_case_are_alike() {
    for method in ["get", " Head ", "GET"] {
        assert!(is_readonly_http_request(&object(vec![(
            "method",
            Json::text(method)
        )])));
    }
    for command in ["mercury pay", "  MERCURY pay", "Mercury"] {
        let params = object(vec![("command", Json::text(command))]);
        assert!(is_auto_approved_shell_prefix(&params, Some("x, MerCury")));
    }
}

#[test]
fn without_prefixes_only_codex_help_is_approved() {
    for (command, approved) in [
        ("codex help", true),
        ("codex exec --help", true),
        ("mercury --help", false),
        ("codex exec", false),
        ("CODEX help", false),
    ] {
        let params = object(vec![("command", Json::text(command))]);
        assert_eq!(
            is_tool_auto_approved_for_user(OPERATOR, "shell", &params, Some(" , ")),
            approved
        );
    }
}
