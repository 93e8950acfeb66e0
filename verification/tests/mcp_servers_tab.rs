use adele_gtk::api::{BuiltinServerDto, Runner, RunnerFilter, ServerKind, ServerRow};
use adele_gtk::mcp_servers_tab::{
    builtin_row_display, builtin_toggle_state, filter_from_index, status_display,
};

// --- status_display -------------------------------------------------------

#[test]
fn status_display_covers_daemon_states() {
    assert_eq!(status_display("running"), ("mcp-dot-running", "Running"));
    assert_eq!(status_display("stopped"), ("mcp-dot-neutral", "Stopped"));
    assert_eq!(status_display("disabled"), ("mcp-dot-neutral", "Disabled"));
    assert_eq!(
        status_display("needs_auth"),
        ("mcp-dot-warn", "Sign in required")
    );
    assert_eq!(
        status_display("auth_expired"),
        ("mcp-dot-warn", "Sign in expired")
    );
    assert_eq!(status_display("error"), ("mcp-dot-error", "Error"));
}

#[test]
fn status_display_covers_client_enabled() {
    // The client surface reports enabled/disabled; enabled reads green.
    assert_eq!(status_display("enabled"), ("mcp-dot-running", "Enabled"));
}

#[test]
fn status_display_unknown_is_neutral() {
    assert_eq!(
        status_display("teleporting"),
        ("mcp-dot-neutral", "Unknown")
    );
    assert_eq!(status_display(""), ("mcp-dot-neutral", "Unknown"));
}

// --- filter_from_index ----------------------------------------------------

#[test]
fn filter_from_index_maps_dropdown() {
    assert_eq!(filter_from_index(0), RunnerFilter::All);
    assert_eq!(filter_from_index(1), RunnerFilter::Daemon);
    assert_eq!(filter_from_index(2), RunnerFilter::Client);
    // Out-of-range degrades to All rather than panicking.
    assert_eq!(filter_from_index(99), RunnerFilter::All);
}

// --- builtin_row_display ------------------------

/// A built-in [`ServerRow`]: an
/// in-process, client-run server whose `disabled_reason` is `Some` iff an
/// external server of the same name overrides it.
fn builtin_row(name: &str, tool_count: u32, reason: Option<&str>) -> ServerRow {
    ServerRow {
        name: name.into(),
        runner: Runner::Client,
        transport: "builtin".into(),
        status: if reason.is_some() {
            "disabled"
        } else {
            "running"
        }
        .into(),
        tool_count,
        detail: None,
        kind: ServerKind::BuiltIn,
        disabled_reason: reason.map(Into::into),
    }
}

#[test]
fn builtin_row_display_active_has_no_reason() {
    let d = builtin_row_display(&builtin_row("fileio", 7, None), "built-in");
    assert!(!d.disabled, "an active built-in must not render disabled");
    assert!(
        d.reason.is_none(),
        "an active built-in has no override reason"
    );
    assert_eq!(d.chip, "built-in", "the kind chip names the built-in kind");
}

#[test]
fn builtin_row_display_overridden_dims_and_shows_reason() {
    let d = builtin_row_display(
        &builtin_row("web", 3, Some("overridden by the external \"web\"")),
        "built-in",
    );
    assert!(
        d.disabled,
        "an overridden built-in must render disabled/dimmed"
    );
    let reason = d
        .reason
        .as_deref()
        .expect("an overridden built-in must surface a reason");
    assert!(
        reason.contains("overridden"),
        "reason explains the override: {reason}"
    );
    assert!(
        reason.contains("web"),
        "reason names the overriding server: {reason}"
    );
    assert_eq!(d.chip, "built-in");
}

// --- builtin_toggle_state --------------------------------

/// A [`BuiltinServerDto`] with the flags the toggle-state decision reads.
fn dto(disabled_by_config: bool, overridden_by: Option<&str>) -> BuiltinServerDto {
    BuiltinServerDto {
        name: "web".into(),
        namespace: "web".into(),
        tool_count: 3,
        overridden_by: overridden_by.map(Into::into),
        disabled_by_config,
    }
}

#[test]
fn toggle_state_enabled_builtin_is_on_and_interactive() {
    let s = builtin_toggle_state(&dto(false, None));
    assert!(s.active, "an enabled built-in shows the switch on");
    assert!(s.sensitive, "an enabled built-in's switch is interactive");
}

#[test]
fn toggle_state_config_disabled_builtin_is_off_and_interactive() {
    let s = builtin_toggle_state(&dto(true, None));
    assert!(!s.active, "a config-disabled built-in shows the switch off");
    assert!(
        s.sensitive,
        "a config-disabled built-in stays interactive so it can be re-enabled"
    );
}

#[test]
fn toggle_state_overridden_only_builtin_is_on_but_inert() {
    // Enabled in config but shadowed by a same-name external server: the
    // switch reads on (it *is* enabled in config) yet is greyed, since the
    // override wins regardless of the toggle.
    let s = builtin_toggle_state(&dto(false, Some("web")));
    assert!(s.active, "an overridden-but-enabled built-in reads on");
    assert!(
        !s.sensitive,
        "a purely-overridden built-in's switch is inert (the override wins)"
    );
}

#[test]
fn toggle_state_config_disabled_and_overridden_stays_interactive() {
    // Both reasons apply: the config-disable is the user's explicit choice, so
    // the switch stays interactive (off) so they can turn it back on.
    let s = builtin_toggle_state(&dto(true, Some("web")));
    assert!(!s.active, "config-disable shows the switch off");
    assert!(
        s.sensitive,
        "a config-disabled built-in is interactive even when also overridden"
    );
}
