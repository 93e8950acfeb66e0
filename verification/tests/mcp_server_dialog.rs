use adele_gtk::api::{HttpTransportConfig, McpServerConfig, McpServerView, Runner};
use adele_gtk::mcp_server_dialog::{
    bearer_secret_ref, is_duplicate_new_name, parse_env, split_args, split_scopes, McpAuthKind,
    McpForm, McpTransport,
};

fn stdio(name: &str) -> McpForm {
    McpForm {
        name: name.into(),
        command: "fileio-mcp".into(),
        ..McpForm::blank(McpTransport::Stdio)
    }
}

fn http(name: &str) -> McpForm {
    McpForm {
        name: name.into(),
        url: "https://x.example/mcp".into(),
        ..McpForm::blank(McpTransport::Http)
    }
}

// --- parse_env ------------------------------------------------------------

#[test]
fn parse_env_reads_key_value_lines_in_order() {
    assert_eq!(
        parse_env("TOKEN=abc\nDEBUG=1"),
        vec![
            ("TOKEN".to_string(), "abc".to_string()),
            ("DEBUG".to_string(), "1".to_string()),
        ]
    );
}

#[test]
fn parse_env_skips_blank_and_malformed_lines() {
    assert_eq!(
        parse_env("\n  \nNOVALUE\n=novalue\nOK=1\n"),
        vec![("OK".to_string(), "1".to_string())]
    );
}

#[test]
fn parse_env_value_may_contain_equals() {
    assert_eq!(
        parse_env("QUERY=a=b=c"),
        vec![("QUERY".to_string(), "a=b=c".to_string())]
    );
}

#[test]
fn parse_env_trims_key_and_value() {
    assert_eq!(
        parse_env("  KEY = val \n"),
        vec![("KEY".to_string(), "val".to_string())]
    );
}

// --- split_args / split_scopes -------------------------------------------

#[test]
fn split_args_splits_on_whitespace_runs() {
    assert_eq!(
        split_args("serve   --root  /data"),
        vec!["serve", "--root", "/data"]
    );
}

#[test]
fn split_args_empty_is_empty() {
    assert!(split_args("   ").is_empty());
    assert!(split_args("").is_empty());
}

#[test]
fn split_scopes_splits_on_whitespace_and_commas() {
    assert_eq!(split_scopes("a b,c ,  d"), vec!["a", "b", "c", "d"]);
    assert!(split_scopes("").is_empty());
}

// --- bearer_secret_ref ----------------------------------------------------

#[test]
fn bearer_secret_ref_appends_token_suffix() {
    assert_eq!(bearer_secret_ref("gmail"), "gmail_token");
}

// --- is_duplicate_new_name (create-path uniqueness guard) -----------------

#[test]
fn is_duplicate_new_name_flags_an_existing_name() {
    // Creating a server whose name already exists would silently overwrite
    // it (UpsertMcpServer is add-or-replace) and clobber its token secret.
    let existing = vec!["files".to_string(), "gmail".to_string()];
    assert!(is_duplicate_new_name("gmail", &existing));
}

#[test]
fn is_duplicate_new_name_allows_a_fresh_name() {
    let existing = vec!["files".to_string(), "gmail".to_string()];
    assert!(!is_duplicate_new_name("github", &existing));
}

#[test]
fn is_duplicate_new_name_trims_before_comparing() {
    // The name is trimmed on save, so a surrounding-whitespace variant still
    // targets the same config-table key and must be caught.
    let existing = vec!["files".to_string()];
    assert!(is_duplicate_new_name("  files  ", &existing));
}

#[test]
fn is_duplicate_new_name_is_case_sensitive() {
    // Server names are exact config-table keys, so "Files" and "files" are
    // distinct - upsert wouldn't overwrite, so the guard must not block it.
    let existing = vec!["files".to_string()];
    assert!(!is_duplicate_new_name("Files", &existing));
}

#[test]
fn is_duplicate_new_name_empty_list_never_duplicates() {
    assert!(!is_duplicate_new_name("files", &Vec::new()));
}

// --- build: stdio ---------------------------------------------------------

#[test]
fn build_stdio_emits_exact_config_json() {
    let form = McpForm {
        args: "serve --root /data".into(),
        namespace: "files".into(),
        env: "TOKEN=abc\nDEBUG=1".into(),
        ..stdio("files")
    };
    let built = form.build().expect("builds");
    assert!(!built.editing);
    assert_eq!(built.name, "files");
    assert_eq!(built.secret, None);
    // env is a BTreeMap in the DTO -> keys sorted (DEBUG before TOKEN),
    // deterministic on the wire.
    assert_eq!(
        built.config_json,
        r#"{"name":"files","enabled":true,"command":"fileio-mcp","args":["serve","--root","/data"],"namespace":"files","env":{"DEBUG":"1","TOKEN":"abc"}}"#
    );
}

#[test]
fn build_stdio_omits_empty_optionals() {
    let built = stdio("bare").build().expect("builds");
    assert_eq!(
        built.config_json,
        r#"{"name":"bare","enabled":true,"command":"fileio-mcp"}"#
    );
}

#[test]
fn build_carries_disabled_flag() {
    let form = McpForm {
        enabled: false,
        ..stdio("x")
    };
    let built = form.build().expect("builds");
    assert!(built.config_json.contains(r#""enabled":false"#));
}

// --- build: http bearer ---------------------------------------------------

#[test]
fn build_http_bearer_emits_config_and_secret() {
    let form = McpForm {
        url: "https://gmailmcp.googleapis.com/mcp/v1".into(),
        auth: McpAuthKind::Bearer,
        bearer_token: "  ya29.token \n".into(),
        ..http("gmail")
    };
    let built = form.build().expect("builds");
    assert_eq!(
        built.config_json,
        r#"{"name":"gmail","enabled":true,"http":{"url":"https://gmailmcp.googleapis.com/mcp/v1","auth_bearer_secret":"gmail_token"}}"#
    );
    // The token is trimmed and written under the `{name}_token` ref.
    assert_eq!(
        built.secret,
        Some(("gmail_token".to_string(), "ya29.token".to_string()))
    );
}

#[test]
fn build_http_bearer_blank_token_writes_no_secret() {
    // Write-only: a blank token field never wipes a stored token - but the
    // config still references the ref so the server is honestly "bearer,
    // token pending" rather than silently switching to unauthenticated.
    let form = McpForm {
        auth: McpAuthKind::Bearer,
        bearer_token: "   ".into(),
        ..http("gmail")
    };
    let built = form.build().expect("builds");
    assert_eq!(built.secret, None);
    assert!(
        built
            .config_json
            .contains(r#""auth_bearer_secret":"gmail_token""#)
    );
}

// --- build: http oauth ----------------------------------------------------

#[test]
fn build_http_oauth_emits_account_ref_and_scopes() {
    let form = McpForm {
        url: "https://cal.example/mcp".into(),
        auth: McpAuthKind::OAuth,
        oauth_account: "work-google".into(),
        scopes: "calendar.read, calendar.write".into(),
        ..http("cal")
    };
    let built = form.build().expect("builds");
    // OAuth carries only the account ref + scopes - never a secret value.
    assert_eq!(built.secret, None);
    assert_eq!(
        built.config_json,
        r#"{"name":"cal","enabled":true,"http":{"url":"https://cal.example/mcp","oauth_account":"work-google","scopes":["calendar.read","calendar.write"]}}"#
    );
}

// --- build: validation ----------------------------------------------------

#[test]
fn build_requires_command_for_stdio() {
    let form = McpForm {
        command: "   ".into(),
        ..stdio("x")
    };
    assert!(form.build().is_err());
}

#[test]
fn build_requires_url_for_http() {
    let form = McpForm {
        url: "".into(),
        ..http("x")
    };
    assert!(form.build().is_err());
}

#[test]
fn build_requires_account_for_oauth() {
    let form = McpForm {
        auth: McpAuthKind::OAuth,
        oauth_account: "  ".into(),
        ..http("x")
    };
    assert!(form.build().is_err());
}

#[test]
fn build_requires_valid_name_on_create() {
    assert!(stdio("").build().is_err());
    assert!(stdio("has space").build().is_err());
    assert!(stdio("ok-name_1").build().is_ok());
}

#[test]
fn build_edit_does_not_revalidate_locked_name() {
    // On edit the name is the already-stored (locked) one, so build trusts
    // it rather than re-running the create-time slug check.
    let form = McpForm {
        editing: true,
        name: "already.there".into(),
        ..stdio("already.there")
    };
    let built = form.build().expect("builds");
    assert!(built.editing);
    assert_eq!(built.name, "already.there");
}

// --- from_view (edit prefill) --------------------------------------------

#[test]
fn from_view_prefills_stdio_editor() {
    let view = McpServerView {
        name: "files".into(),
        command: "fileio-mcp".into(),
        args: vec!["serve".into(), "--root".into(), "/data".into()],
        namespace: Some("files".into()),
        enabled: true,
        status: "running".into(),
        transport: "stdio".into(),
        target: "fileio-mcp".into(),
        ..Default::default()
    };
    let f = McpForm::from_view(&view);
    assert!(f.editing);
    assert_eq!(f.transport, McpTransport::Stdio);
    assert_eq!(f.name, "files");
    assert_eq!(f.command, "fileio-mcp");
    assert_eq!(f.args, "serve --root /data");
    assert_eq!(f.namespace, "files");
    // The view carries no env - never pre-filled.
    assert_eq!(f.env, "");
}

#[test]
fn from_view_prefills_http_bearer_editor() {
    let view = McpServerView {
        name: "gh".into(),
        enabled: true,
        status: "running".into(),
        transport: "http".into(),
        target: "https://gh.example/mcp".into(),
        auth_kind: Some("bearer".into()),
        ..Default::default()
    };
    let f = McpForm::from_view(&view);
    assert_eq!(f.transport, McpTransport::Http);
    assert_eq!(f.auth, McpAuthKind::Bearer);
    assert_eq!(f.url, "https://gh.example/mcp");
    // Write-only: the token is never echoed / pre-filled.
    assert_eq!(f.bearer_token, "");
}

// --- runner threading ---------------------------------------------

#[test]
fn blank_defaults_to_daemon_runner() {
    assert_eq!(McpForm::blank(McpTransport::Stdio).runner, Runner::Daemon);
}

#[test]
fn build_carries_daemon_runner_by_default() {
    let built = stdio("files").build().expect("builds");
    assert_eq!(built.runner, Runner::Daemon);
}

#[test]
fn build_carries_client_runner_when_selected() {
    let form = McpForm {
        runner: Runner::Client,
        ..stdio("files")
    };
    let built = form.build().expect("builds");
    assert_eq!(built.runner, Runner::Client);
    // The config JSON is runner-agnostic; only the routing changes.
    assert!(built.config_json.contains(r#""name":"files""#));
}

#[test]
fn build_client_runner_forces_stdio_never_http() {
    // A client server has no client-side secret store, so an http/bearer
    // config can't be honored; the client runner is stdio-only. Even if the
    // form carries http (a stale selection), build() must emit a stdio config,
    // never http, and drop any bearer secret.
    let form = McpForm {
        runner: Runner::Client,
        command: "fileio-mcp".into(),
        auth: McpAuthKind::Bearer,
        bearer_token: "should-be-ignored".into(),
        ..http("files")
    };
    let built = form.build().expect("client form builds as stdio");
    assert_eq!(built.runner, Runner::Client);
    assert!(
        !built.config_json.contains("http"),
        "client config must never carry http: {}",
        built.config_json
    );
    assert!(
        built.config_json.contains(r#""command":"fileio-mcp""#),
        "client config is the stdio command: {}",
        built.config_json
    );
    assert_eq!(built.secret, None, "no bearer secret for a client server");
}

#[test]
fn from_view_is_always_daemon_runner() {
    let view = McpServerView {
        name: "files".into(),
        command: "fileio-mcp".into(),
        enabled: true,
        status: "running".into(),
        transport: "stdio".into(),
        ..Default::default()
    };
    assert_eq!(McpForm::from_view(&view).runner, Runner::Daemon);
}

#[test]
fn from_client_config_prefills_stdio_including_env() {
    let cfg = McpServerConfig {
        name: "files".into(),
        command: "fileio-mcp".into(),
        args: vec!["serve".into(), "--root".into(), "/data".into()],
        namespace: Some("fs".into()),
        env: vec![
            ("TOKEN".into(), "abc".into()),
            ("DEBUG".into(), "1".into()),
        ],
        http: None,
    };
    let f = McpForm::from_client_config(&cfg, true);
    assert!(f.editing);
    assert_eq!(f.runner, Runner::Client);
    assert_eq!(f.transport, McpTransport::Stdio);
    assert_eq!(f.name, "files");
    assert_eq!(f.command, "fileio-mcp");
    assert_eq!(f.args, "serve --root /data");
    assert_eq!(f.namespace, "fs");
    assert!(f.enabled);
    // Unlike the daemon path, a client server's env is local and IS echoed,
    // key-sorted for a deterministic display.
    assert_eq!(f.env, "DEBUG=1\nTOKEN=abc");
}

#[test]
fn from_client_config_prefills_http_and_reflects_surface_disabled() {
    let cfg = McpServerConfig {
        name: "cal".into(),
        command: String::new(),
        args: Vec::new(),
        namespace: None,
        env: Vec::new(),
        http: Some(HttpTransportConfig {
            url: "https://cal.example/mcp".into(),
            auth_bearer_secret: None,
            oauth_account: Some("work-google".into()),
            scopes: vec!["calendar.read".into(), "calendar.write".into()],
        }),
    };
    let f = McpForm::from_client_config(&cfg, false);
    assert_eq!(f.runner, Runner::Client);
    assert_eq!(f.transport, McpTransport::Http);
    assert_eq!(f.auth, McpAuthKind::OAuth);
    assert_eq!(f.url, "https://cal.example/mcp");
    assert_eq!(f.oauth_account, "work-google");
    assert_eq!(f.scopes, "calendar.read calendar.write");
    // The gtk surface does not host it -> the Enabled box is unchecked.
    assert!(!f.enabled);
}

#[test]
fn from_view_prefills_http_oauth_editor() {
    let view = McpServerView {
        name: "cal".into(),
        enabled: true,
        status: "needs_auth".into(),
        transport: "http".into(),
        target: "https://cal.example/mcp".into(),
        auth_kind: Some("oauth".into()),
        oauth_account_ref: Some("work-google".into()),
        oauth_scopes: vec!["calendar.read".into()],
        oauth_authorized: Some(false),
        ..Default::default()
    };
    let f = McpForm::from_view(&view);
    assert_eq!(f.transport, McpTransport::Http);
    assert_eq!(f.auth, McpAuthKind::OAuth);
    assert_eq!(f.url, "https://cal.example/mcp");
    assert_eq!(f.oauth_account, "work-google");
    assert_eq!(f.scopes, "calendar.read");
}

#[test]
fn scopes_come_apart_at_any_white_space() {
    assert_eq!(split_scopes("a\u{2003}b"), vec!["a", "b"]);
    assert_eq!(
        split_scopes("a\u{a0}b\u{b},\u{3000}c\t\r\nd"),
        vec!["a", "b", "c", "d"]
    );
}

#[test]
fn the_saved_environment_does_not_depend_on_the_order_of_the_lines() {
    let one = McpForm {
        env: "TOKEN=abc\nDEBUG=1".into(),
        ..stdio("files")
    };
    let other = McpForm {
        env: "DEBUG=1\nTOKEN=abc".into(),
        ..stdio("files")
    };
    assert_eq!(
        one.build().unwrap().config_json,
        other.build().unwrap().config_json
    );
}
