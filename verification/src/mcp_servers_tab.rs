//! The MCP-servers tab of the settings dialog.
//!
//! One list of the Model Context Protocol servers the user can administer,
//! merging three populations: the daemon fleet, this client's locally-hosted
//! servers, and the client's compiled-in built-in servers hosted in-process. Each
//! row carries a runner chip, a kind or transport chip, an honest per-server
//! status, an enable/disable toggle, edit and remove. A daemon OAuth server that
//! needs sign-in also gets a sign-in button; client servers have no daemon-driven
//! OAuth, so they never show one. Built-in rows are informational only and, when
//! an external server of the same name overrides one, disabled with a reason.

use crate::api::{BuiltinServerDto, McpServerView, Runner, RunnerFilter, ServerKind, ServerRow};
use crate::text::{copy_texts, decimal, decimal_text, same_text, text_or_empty, texts};
use vstd::prelude::*;

verus! {

/// What a status reads as.
pub open spec fn status_label(status: Seq<char>) -> Seq<char> {
    if status == "running"@ {
        "Running"@
    } else if status == "enabled"@ {
        "Enabled"@
    } else if status == "stopped"@ {
        "Stopped"@
    } else if status == "disabled"@ {
        "Disabled"@
    } else if status == "needs_auth"@ {
        "Sign in required"@
    } else if status == "auth_expired"@ {
        "Sign in expired"@
    } else if status == "error"@ {
        "Error"@
    } else {
        "Unknown"@
    }
}

/// The class that colours a status: green where the server is up, amber where it
/// wants a sign-in, red on an error, and else grey.
pub open spec fn status_dot(status: Seq<char>) -> Seq<char> {
    if status == "running"@ || status == "enabled"@ {
        "mcp-dot-running"@
    } else if status == "needs_auth"@ || status == "auth_expired"@ {
        "mcp-dot-warn"@
    } else if status == "error"@ {
        "mcp-dot-error"@
    } else {
        "mcp-dot-neutral"@
    }
}

proof fn lemma_statuses_differ()
    ensures
        "stopped"@ != "running"@,
        "stopped"@ != "enabled"@,
        "stopped"@ != "needs_auth"@,
        "stopped"@ != "auth_expired"@,
        "stopped"@ != "error"@,
        "disabled"@ != "running"@,
        "disabled"@ != "enabled"@,
        "disabled"@ != "needs_auth"@,
        "disabled"@ != "auth_expired"@,
        "disabled"@ != "error"@,
        "needs_auth"@ != "running"@,
        "needs_auth"@ != "enabled"@,
        "auth_expired"@ != "running"@,
        "auth_expired"@ != "enabled"@,
        "error"@ != "running"@,
        "error"@ != "enabled"@,
        "error"@ != "needs_auth"@,
        "error"@ != "auth_expired"@,
{
    reveal_strlit("running");
    reveal_strlit("enabled");
    reveal_strlit("stopped");
    reveal_strlit("disabled");
    reveal_strlit("needs_auth");
    reveal_strlit("auth_expired");
    reveal_strlit("error");
    assert("running"@[0] == 'r');
    assert("enabled"@[0] == 'e' && "enabled"@.len() == 7);
    assert("stopped"@[0] == 's');
    assert("disabled"@[0] == 'd');
    assert("needs_auth"@[0] == 'n');
    assert("auth_expired"@[0] == 'a');
    assert("error"@[0] == 'e' && "error"@.len() == 5);
}

/// Map the coarse status string to a `(dot modifier class, human label)` pair.
/// Covers the daemon's six states plus the two the client surface reports
/// (`enabled`/`disabled`); any unrecognized future state renders as a neutral
/// "Unknown", so an older client degrades honestly against a newer daemon.
pub fn status_display(status: &str) -> (r: (&'static str, &'static str))
    ensures
        r.0@ == status_dot(status@),
        r.1@ == status_label(status@),
{
    proof {
        lemma_statuses_differ();
    }
    if same_text(status, "running") {
        ("mcp-dot-running", "Running")
    } else if same_text(status, "enabled") {
        ("mcp-dot-running", "Enabled")
    } else if same_text(status, "stopped") {
        ("mcp-dot-neutral", "Stopped")
    } else if same_text(status, "disabled") {
        ("mcp-dot-neutral", "Disabled")
    } else if same_text(status, "needs_auth") {
        ("mcp-dot-warn", "Sign in required")
    } else if same_text(status, "auth_expired") {
        ("mcp-dot-warn", "Sign in expired")
    } else if same_text(status, "error") {
        ("mcp-dot-error", "Error")
    } else {
        ("mcp-dot-neutral", "Unknown")
    }
}

/// The filter at an index of the filter selector.
pub open spec fn filter_at(i: int) -> RunnerFilter {
    if i == 1 {
        RunnerFilter::Daemon
    } else if i == 2 {
        RunnerFilter::Client
    } else {
        RunnerFilter::All
    }
}

/// Map the filter selector index (0 = All, 1 = Daemon, 2 = Client) to a filter.
pub fn filter_from_index(i: u32) -> (r: RunnerFilter)
    ensures
        r == filter_at(i as int),
{
    match i {
        1 => RunnerFilter::Daemon,
        2 => RunnerFilter::Client,
        _ => RunnerFilter::All,
    }
}

/// The first view of that name.
pub open spec fn view_named(
    daemon: Seq<McpServerView>,
    name: Seq<char>,
) -> Option<McpServerView>
    decreases daemon.len(),
{
    if daemon.len() == 0 {
        None
    } else if daemon[0].name@ == name {
        Some(daemon[0])
    } else {
        view_named(daemon.drop_first(), name)
    }
}

/// Where the first view of that name stands.
fn find_view(daemon: &Vec<McpServerView>, name: &str) -> (r: Option<usize>)
    ensures
        r is None <==> view_named(daemon@, name@) is None,
        r is Some ==> r->0 < daemon@.len() && view_named(daemon@, name@) == Some(
            daemon@[r->0 as int],
        ),
{
    let mut i: usize = 0;
    assert(daemon@.skip(0) =~= daemon@);
    while i < daemon.len()
        invariant
            i <= daemon.len(),
            view_named(daemon@, name@) == view_named(daemon@.skip(i as int), name@),
        decreases daemon.len() - i,
    {
        assert(daemon@.skip(i as int)[0] == daemon@[i as int]);
        if same_text(daemon[i].name.as_str(), name) {
            return Some(i);
        }
        assert(daemon@.skip(i as int).drop_first() =~= daemon@.skip(i as int + 1));
        i = i + 1;
    }
    None
}

/// The servers of the tab: the merged rows, and the daemon's views for the extras
/// that a row does not carry.
pub struct McpServersTab {
    pub daemon: Vec<McpServerView>,
    /// Merged, ordered rows for the current data; re-filtered on a filter change
    /// without a re-fetch.
    pub rows: Vec<ServerRow>,
    pub filter: RunnerFilter,
    /// Whether the daemon link is remote, and its host, for the runner chip.
    pub is_remote: bool,
    pub host: Option<String>,
}

impl McpServersTab {
    /// A tab with nothing loaded that shows everything.
    pub fn new() -> (r: Self)
        ensures
            r.daemon@.len() == 0,
            r.rows@.len() == 0,
            r.filter == RunnerFilter::All,
            !r.is_remote,
            r.host is None,
    {
        McpServersTab {
            daemon: Vec::new(),
            rows: Vec::new(),
            filter: RunnerFilter::All,
            is_remote: false,
            host: None,
        }
    }

    /// Replace the contents: the daemon fleet's views and the rows merged from
    /// all populations. The filter the user chose stays.
    pub fn set_data(
        &mut self,
        daemon: Vec<McpServerView>,
        rows: Vec<ServerRow>,
        is_remote: bool,
        host: Option<String>,
    )
        ensures
            final(self).daemon == daemon,
            final(self).rows == rows,
            final(self).is_remote == is_remote,
            final(self).host == host,
            final(self).filter == old(self).filter,
    {
        self.daemon = daemon;
        self.rows = rows;
        self.is_remote = is_remote;
        self.host = host;
    }

    /// The user picked the filter at `index`; the data stays.
    pub fn set_filter(&mut self, index: u32)
        ensures
            final(self).filter == filter_at(index as int),
            final(self).daemon == old(self).daemon,
            final(self).rows == old(self).rows,
            final(self).is_remote == old(self).is_remote,
            final(self).host == old(self).host,
    {
        self.filter = filter_from_index(index);
    }

    /// Look up a daemon server view by name, if currently loaded. Used to pre-fill
    /// the editor for a daemon row (client rows are edited from the configuration
    /// on disk).
    pub fn find(&self, name: &str) -> (r: Option<&McpServerView>)
        ensures
            r is None <==> view_named(self.daemon@, name@) is None,
            r is Some ==> view_named(self.daemon@, name@) == Some(*r->0),
    {
        match find_view(&self.daemon, name) {
            Some(i) => Some(&self.daemon[i]),
            None => None,
        }
    }

    /// The currently-loaded daemon server names. The create flow checks a typed
    /// daemon name against these to refuse a silent overwrite.
    pub fn daemon_names(&self) -> (r: Vec<String>)
        ensures
            r@.len() == self.daemon@.len(),
            forall|i: int| 0 <= i < r@.len() ==> (#[trigger] r@[i])@ == self.daemon@[i].name@,
    {
        let mut out: Vec<String> = Vec::new();
        let mut i: usize = 0;
        while i < self.daemon.len()
            invariant
                i <= self.daemon.len(),
                out@.len() == i,
                forall|j: int| 0 <= j < i ==> (#[trigger] out@[j])@ == self.daemon@[j].name@,
            decreases self.daemon.len() - i,
        {
            out.push(self.daemon[i].name.clone());
            i = i + 1;
        }
        out
    }
}

/// A tool count after a status.
pub open spec fn tool_count_text(count: nat) -> Seq<char> {
    " · "@ + decimal(count) + " tool"@ + (if count == 1 {
        Seq::empty()
    } else {
        "s"@
    })
}

/// Appends a tool count to a status line.
fn append_tool_count(line: &mut String, count: u32)
    ensures
        final(line)@ == old(line)@ + tool_count_text(count as nat),
{
    line.append(" · ");
    line.append(decimal_text(count as u64).as_str());
    line.append(" tool");
    if count != 1 {
        line.append("s");
    }
    assert(line@ =~= old(line)@ + tool_count_text(count as nat));
}

/// The view that a row's extras come from: a daemon row's own, and none for a
/// client row.
pub open spec fn extras_of(row: ServerRow, daemon: Seq<McpServerView>) -> Option<McpServerView> {
    if row.runner == Runner::Daemon {
        view_named(daemon, row.name@)
    } else {
        None
    }
}

/// The line under a server's name: its status, the tool count where the server is
/// up and has tools, and a daemon server's target.
pub open spec fn subtitle_of(row: ServerRow, extras: Option<McpServerView>) -> Seq<char> {
    let up = row.status@ == "running"@ || row.status@ == "enabled"@;
    let tools = if up && row.tool_count > 0 {
        tool_count_text(row.tool_count as nat)
    } else {
        Seq::empty()
    };
    let target = if extras is Some && extras->0.target@.len() > 0 {
        " · "@ + extras->0.target@
    } else {
        Seq::empty()
    };
    status_label(row.status@) + tools + target
}

/// Whether a server counts as enabled: a daemon server by its configuration, a
/// client server by the status that its surface reports.
pub open spec fn is_enabled(row: ServerRow, extras: Option<McpServerView>) -> bool {
    match extras {
        Some(view) => view.enabled,
        None => row.status@ == "enabled"@,
    }
}

/// A sign-in is offered: the daemon names a button and a command for it.
pub open spec fn offers_signin(extras: Option<McpServerView>) -> bool {
    &&& extras is Some
    &&& extras->0.configure_label is Some
    &&& extras->0.configure_label->0@.len() > 0
    &&& extras->0.configure_command@.len() > 0
}

/// The sign-in button of a row.
pub struct SignIn {
    pub label: String,
    pub argv: Vec<String>,
}

/// What a configured server's row shows and what its buttons ask for.
pub struct ServerRowDisplay {
    pub name: String,
    pub runner: Runner,
    pub dot_class: &'static str,
    pub subtitle: String,
    /// The last connect error, where there is one.
    pub detail: Option<String>,
    pub signin: Option<SignIn>,
    pub toggle_label: &'static str,
    /// What the toggle asks for: the opposite of what is.
    pub toggle_target: bool,
}

/// The display of a configured server's row, looking up daemon-only extras
/// (enabled flag, target, sign-in command) from `daemon` when the row is
/// daemon-run. Client rows never show a sign-in button.
pub fn row_display(row: &ServerRow, daemon: &Vec<McpServerView>) -> (r: ServerRowDisplay)
    ensures
        ({
            let extras = extras_of(*row, daemon@);
            &&& r.name@ == row.name@
            &&& r.runner == row.runner
            &&& r.dot_class@ == status_dot(row.status@)
            &&& r.subtitle@ == subtitle_of(*row, extras)
            &&& r.detail is Some <==> text_or_empty(row.detail).len() > 0
            &&& r.detail is Some ==> r.detail->0@ == text_or_empty(row.detail)
            &&& r.signin is Some <==> offers_signin(extras)
            &&& r.signin is Some ==> r.signin->0.label@ == extras->0.configure_label->0@
            &&& r.signin is Some ==> r.signin->0.argv@ == extras->0.configure_command@
            &&& r.toggle_target == !is_enabled(*row, extras)
            &&& r.toggle_label@ == (if is_enabled(*row, extras) {
                "Disable"@
            } else {
                "Enable"@
            })
        }),
{
    let at = if row.runner == Runner::Daemon {
        find_view(daemon, row.name.as_str())
    } else {
        None
    };
    let (dot_class, status) = status_display(row.status.as_str());
    let is_running = same_text(row.status.as_str(), "running");
    let reads_enabled = same_text(row.status.as_str(), "enabled");
    let mut subtitle = status.to_owned();
    if (is_running || reads_enabled) && row.tool_count > 0 {
        append_tool_count(&mut subtitle, row.tool_count);
    } else {
        assert(subtitle@ =~= subtitle@ + Seq::<char>::empty());
    }
    let mut signin: Option<SignIn> = None;
    let mut enabled = reads_enabled;
    match at {
        Some(i) => {
            let view = &daemon[i];
            if !view.target.as_str().is_empty() {
                let ghost before = subtitle@;
                subtitle.append(" · ");
                subtitle.append(view.target.as_str());
                assert(subtitle@ =~= before + (" · "@ + view.target@));
            } else {
                assert(subtitle@ =~= subtitle@ + Seq::<char>::empty());
            }
            if let Some(label) = &view.configure_label {
                if !label.as_str().is_empty() && view.configure_command.len() > 0 {
                    signin = Some(
                        SignIn { label: label.clone(), argv: copy_texts(&view.configure_command) },
                    );
                }
            }
            enabled = view.enabled;
        },
        None => {
            assert(subtitle@ =~= subtitle@ + Seq::<char>::empty());
        },
    }
    let detail = match &row.detail {
        Some(detail) => if detail.as_str().is_empty() {
            None
        } else {
            Some(detail.clone())
        },
        None => None,
    };
    ServerRowDisplay {
        name: row.name.clone(),
        runner: row.runner,
        dot_class,
        subtitle,
        detail,
        signin,
        toggle_label: if enabled {
            "Disable"
        } else {
            "Enable"
        },
        toggle_target: !enabled,
    }
}

/// The display decision for a built-in row: the kind chip text, the optional
/// override reason, and whether the row renders dimmed.
pub struct BuiltinRowDisplay {
    /// The kind chip text, `"built-in"` for a built-in row.
    pub chip: &'static str,
    /// `Some(reason)` when an external server of the same name overrides this
    /// built-in (so it renders disabled); `None` when it is active.
    pub reason: Option<String>,
    /// Whether the row renders disabled/dimmed (true iff overridden).
    pub disabled: bool,
}

/// Build the display decision for a built-in row from the chip text for its kind:
/// the chip, and, when an external server of the same name shadows it, the
/// override reason and the disabled flag that dims the whole row.
pub fn builtin_row_display(row: &ServerRow, kind_label: &'static str) -> (r: BuiltinRowDisplay)
    ensures
        r.chip@ == kind_label@,
        r.reason == row.disabled_reason,
        r.disabled == row.disabled_reason is Some,
{
    BuiltinRowDisplay {
        chip: kind_label,
        reason: row.disabled_reason.clone(),
        disabled: row.disabled_reason.is_some(),
    }
}

/// The line under a built-in server's name: its status, and its tool count where
/// it advertises tools.
pub open spec fn builtin_subtitle_of(row: ServerRow) -> Seq<char> {
    if row.tool_count > 0 {
        status_label(row.status@) + tool_count_text(row.tool_count as nat)
    } else {
        status_label(row.status@)
    }
}

/// The line under a built-in server's name.
pub fn builtin_subtitle(row: &ServerRow) -> (r: String)
    ensures
        r@ == builtin_subtitle_of(*row),
{
    let (_, status) = status_display(row.status.as_str());
    let mut subtitle = status.to_owned();
    if row.tool_count > 0 {
        append_tool_count(&mut subtitle, row.tool_count);
    }
    subtitle
}

/// Whether a row is shown as a built-in one, without buttons.
pub fn is_builtin(row: &ServerRow) -> (r: bool)
    ensures
        r == (row.kind == ServerKind::BuiltIn),
{
    row.kind == ServerKind::BuiltIn
}

/// The on/off presentation of a built-in row's enable/disable switch.
#[derive(Debug, Clone, Copy, PartialEq, Eq, Structural)]
pub struct BuiltinToggleState {
    /// The switch reads on when the built-in is enabled in this client's
    /// configuration and off when it has been turned off.
    pub active: bool,
    /// The switch is interactive unless the built-in is only shadowed by a
    /// same-name external server: that override wins regardless of the toggle, so
    /// the switch is greyed rather than implying it can countermand the override.
    /// A built-in turned off in the configuration stays interactive so the user
    /// can turn it back on (even if it is also overridden).
    pub sensitive: bool,
}

/// Decide the enable/disable switch: on iff enabled in the configuration;
/// interactive unless the row is disabled only because an external server of the
/// same name overrides it.
pub fn builtin_toggle_state(dto: &BuiltinServerDto) -> (r: BuiltinToggleState)
    ensures
        r.active == !dto.disabled_by_config,
        r.sensitive == (dto.disabled_by_config || dto.overridden_by is None),
{
    BuiltinToggleState {
        active: !dto.disabled_by_config,
        sensitive: dto.disabled_by_config || dto.overridden_by.is_none(),
    }
}

/// A client-run server never offers a sign-in, whatever servers the daemon has:
/// there is no daemon-driven OAuth for it.
pub proof fn law_client_rows_never_offer_a_signin(row: ServerRow, daemon: Seq<McpServerView>)
    requires
        row.runner == Runner::Client,
    ensures
        !offers_signin(extras_of(row, daemon)),
{
}

/// A view is found exactly where one of that name is loaded, and it is one of
/// them.
pub proof fn law_find_is_complete(daemon: Seq<McpServerView>, name: Seq<char>)
    ensures
        view_named(daemon, name) is Some <==> exists|i: int|
            0 <= i < daemon.len() && (#[trigger] daemon[i]).name@ == name,
        view_named(daemon, name) is Some ==> view_named(daemon, name)->0.name@ == name
            && daemon.contains(view_named(daemon, name)->0),
    decreases daemon.len(),
{
    if daemon.len() > 0 {
        let rest = daemon.drop_first();
        law_find_is_complete(rest, name);
        if daemon[0].name@ != name {
            if view_named(rest, name) is Some {
                let k = choose|k: int|
                    0 <= k < rest.len() && rest[k] == view_named(rest, name)->0;
                assert(daemon[k + 1] == view_named(rest, name)->0);
            }
            if exists|i: int| 0 <= i < daemon.len() && (#[trigger] daemon[i]).name@ == name {
                let i = choose|i: int| 0 <= i < daemon.len() && (#[trigger] daemon[i]).name@ == name;
                assert(rest[i - 1].name@ == name);
            }
        }
    }
}

/// The toggle of a daemon row asks for the opposite of what the daemon reports as
/// enabled, whatever the row's status says; the sign-in, where the daemon offers one,
/// is the daemon's own.
pub proof fn law_a_daemon_row_toggles_what_is_loaded(
    row: ServerRow,
    daemon: Vec<McpServerView>,
    r: ServerRowDisplay,
    i: int,
)
    requires
        call_ensures(row_display, (&row, &daemon), r),
        row.runner == Runner::Daemon,
        0 <= i < daemon@.len(),
        daemon@[i].name@ == row.name@,
        forall|j: int| 0 <= j < i ==> (#[trigger] daemon@[j]).name@ != row.name@,
    ensures
        r.toggle_target == !daemon@[i].enabled,
        daemon@[i].enabled ==> r.toggle_label@ == "Disable"@,
        !daemon@[i].enabled ==> r.toggle_label@ == "Enable"@,
        r.signin is Some <==> daemon@[i].configure_label is Some
            && daemon@[i].configure_label->0@.len() > 0 && daemon@[i].configure_command@.len() > 0,
        r.signin is Some ==> r.signin->0.label@ == daemon@[i].configure_label->0@
            && r.signin->0.argv@ == daemon@[i].configure_command@,
{
    lemma_view_at(daemon@, row.name@, i);
}

/// The toggle of a client row, or of a daemon row that is not loaded, goes by the
/// row's status alone, and such a row offers no sign-in.
pub proof fn law_other_rows_toggle_by_their_status(
    row: ServerRow,
    daemon: Vec<McpServerView>,
    r: ServerRowDisplay,
)
    requires
        call_ensures(row_display, (&row, &daemon), r),
        row.runner == Runner::Client || forall|j: int|
            0 <= j < daemon@.len() ==> (#[trigger] daemon@[j]).name@ != row.name@,
    ensures
        row.status@ == "enabled"@ ==> !r.toggle_target && r.toggle_label@ == "Disable"@,
        row.status@ != "enabled"@ ==> r.toggle_target && r.toggle_label@ == "Enable"@,
        r.signin is None,
{
    if row.runner != Runner::Client {
        law_find_is_complete(daemon@, row.name@);
    }
}

/// Two daemon rows that differ in their status only have the same toggle and sign-in,
/// where their server is loaded.
pub proof fn law_the_status_of_a_loaded_server_moves_no_toggle(
    row: ServerRow,
    other: ServerRow,
    daemon: Vec<McpServerView>,
    a: ServerRowDisplay,
    b: ServerRowDisplay,
)
    requires
        other == (ServerRow { status: other.status, ..row }),
        row.runner == Runner::Daemon,
        exists|i: int| 0 <= i < daemon@.len() && (#[trigger] daemon@[i]).name@ == row.name@,
        call_ensures(row_display, (&row, &daemon), a),
        call_ensures(row_display, (&other, &daemon), b),
    ensures
        a.toggle_target == b.toggle_target,
        a.toggle_label@ == b.toggle_label@,
        a.signin is Some <==> b.signin is Some,
{
    law_find_is_complete(daemon@, row.name@);
}

/// A row names its server and runner and shows its status as a dot and in words. The
/// tools are counted where the server is up and has any, and the place of a loaded
/// server stands at the end.
pub proof fn law_a_row_shows_its_server(
    row: ServerRow,
    daemon: Vec<McpServerView>,
    text: &str,
    status: (&'static str, &'static str),
    r: ServerRowDisplay,
)
    requires
        call_ensures(row_display, (&row, &daemon), r),
        text@ == row.status@,
        call_ensures(status_display, (text,), status),
    ensures
        r.name@ == row.name@,
        r.runner == row.runner,
        r.dot_class@ == status.0@,
        ({
            let up = row.status@ == "running"@ || row.status@ == "enabled"@;
            let tools = if up && row.tool_count == 1 {
                " · 1 tool"@
            } else if up && row.tool_count > 1 {
                " · "@ + decimal(row.tool_count as nat) + " tools"@
            } else {
                Seq::empty()
            };
            &&& (status.1@ + tools).is_prefix_of(r.subtitle@)
            &&& row.runner == Runner::Client ==> r.subtitle@ == status.1@ + tools
            &&& forall|i: int|
                row.runner == Runner::Daemon && 0 <= i < daemon@.len() && (
                #[trigger] daemon@[i]).name@ == row.name@ && (forall|j: int|
                    0 <= j < i ==> (#[trigger] daemon@[j]).name@ != row.name@) ==> r.subtitle@
                    == status.1@ + tools + (if daemon@[i].target@.len() > 0 {
                    " · "@ + daemon@[i].target@
                } else {
                    Seq::empty()
                })
        }),
        r.detail is Some <==> row.detail is Some && row.detail->0@.len() > 0,
        r.detail is Some ==> r.detail->0@ == row.detail->0@,
{
    lemma_tool_counts(row.tool_count as nat);
    assert forall|i: int|
        row.runner == Runner::Daemon && 0 <= i < daemon@.len() && (#[trigger] daemon@[i]).name@
            == row.name@ && (forall|j: int|
            0 <= j < i ==> (#[trigger] daemon@[j]).name@ != row.name@) implies view_named(
        daemon@,
        row.name@,
    ) == Some(daemon@[i]) by {
        lemma_view_at(daemon@, row.name@, i);
    }
    let extras = extras_of(row, daemon@);
    let up = row.status@ == "running"@ || row.status@ == "enabled"@;
    let tools = if up && row.tool_count > 0 {
        tool_count_text(row.tool_count as nat)
    } else {
        Seq::empty()
    };
    let place = if extras is Some && extras->0.target@.len() > 0 {
        " · "@ + extras->0.target@
    } else {
        Seq::empty()
    };
    assert(r.subtitle@ =~= status.1@ + tools + place);
    assert(status.1@ + tools + Seq::<char>::empty() =~= status.1@ + tools);
}

/// The count of tools in words.
proof fn lemma_tool_counts(count: nat)
    ensures
        count == 1 ==> tool_count_text(count) == " · 1 tool"@,
        count != 1 ==> tool_count_text(count) == " · "@ + decimal(count) + " tools"@,
{
    reveal_strlit(" · ");
    reveal_strlit(" · 1 tool");
    reveal_strlit(" tool");
    reveal_strlit(" tools");
    reveal_strlit("s");
    if count == 1 {
        assert(decimal(1) =~= seq!['1']);
        assert(tool_count_text(count) =~= " · 1 tool"@);
    } else {
        assert(" tool"@ + "s"@ =~= " tools"@);
        assert(tool_count_text(count) =~= " · "@ + decimal(count) + " tools"@);
    }
}

/// A server that is up is green, one that waits for a sign-in amber, a broken one red
/// and any other grey; each known state has its own words, and an unknown one says so.
pub proof fn law_states_and_their_dots(status: &str, r: (&'static str, &'static str))
    requires
        call_ensures(status_display, (status,), r),
    ensures
        r.0@ == "mcp-dot-running"@ <==> status@ == "running"@ || status@ == "enabled"@,
        r.0@ == "mcp-dot-warn"@ <==> status@ == "needs_auth"@ || status@ == "auth_expired"@,
        r.0@ == "mcp-dot-error"@ <==> status@ == "error"@,
        r.0@ == "mcp-dot-running"@ || r.0@ == "mcp-dot-warn"@ || r.0@ == "mcp-dot-error"@ || r.0@
            == "mcp-dot-neutral"@,
        r.1@ == "Running"@ <==> status@ == "running"@,
        r.1@ == "Enabled"@ <==> status@ == "enabled"@,
        r.1@ == "Stopped"@ <==> status@ == "stopped"@,
        r.1@ == "Disabled"@ <==> status@ == "disabled"@,
        r.1@ == "Sign in required"@ <==> status@ == "needs_auth"@,
        r.1@ == "Sign in expired"@ <==> status@ == "auth_expired"@,
        r.1@ == "Error"@ <==> status@ == "error"@,
        status@ != "running"@ && status@ != "enabled"@ && status@ != "stopped"@ && status@
            != "disabled"@ && status@ != "needs_auth"@ && status@ != "auth_expired"@ && status@
            != "error"@ ==> r.1@ == "Unknown"@ && r.0@ == "mcp-dot-neutral"@,
{
    reveal_strlit("mcp-dot-running");
    reveal_strlit("mcp-dot-warn");
    reveal_strlit("mcp-dot-error");
    reveal_strlit("mcp-dot-neutral");
    assert("mcp-dot-running"@[8] == 'r');
    assert("mcp-dot-warn"@[8] == 'w');
    assert("mcp-dot-error"@[8] == 'e');
    assert("mcp-dot-neutral"@[8] == 'n');
    reveal_strlit("Running");
    reveal_strlit("Enabled");
    reveal_strlit("Stopped");
    reveal_strlit("Disabled");
    reveal_strlit("Sign in required");
    reveal_strlit("Sign in expired");
    reveal_strlit("Error");
    reveal_strlit("Unknown");
    assert("Running"@[0] == 'R');
    assert("Enabled"@[1] == 'n');
    assert("Stopped"@[1] == 't');
    assert("Disabled"@[0] == 'D');
    assert("Sign in required"@[8] == 'r');
    assert("Sign in expired"@[8] == 'e');
    assert("Error"@[1] == 'r');
    assert("Unknown"@[0] == 'U');
    reveal_strlit("running");
    reveal_strlit("enabled");
    reveal_strlit("stopped");
    reveal_strlit("disabled");
    reveal_strlit("needs_auth");
    reveal_strlit("auth_expired");
    reveal_strlit("error");
    assert("running"@[0] == 'r');
    assert("enabled"@[0] == 'e' && "enabled"@[1] == 'n');
    assert("stopped"@[0] == 's');
    assert("disabled"@[0] == 'd');
    assert("needs_auth"@[0] == 'n');
    assert("auth_expired"@[0] == 'a');
    assert("error"@[0] == 'e' && "error"@[1] == 'r');
}

/// A built-in is dimmed exactly where another server overrides it, and then says why.
pub proof fn law_an_overridden_builtin_is_dimmed(
    row: ServerRow,
    kind_label: &'static str,
    r: BuiltinRowDisplay,
)
    requires
        call_ensures(builtin_row_display, (&row, kind_label), r),
    ensures
        r.chip@ == kind_label@,
        r.disabled <==> row.disabled_reason is Some,
        r.reason is Some <==> row.disabled_reason is Some,
        r.reason is Some ==> r.reason->0@ == row.disabled_reason->0@,
{
}

/// The switch of a built-in shows whether it is turned on, and can be moved unless
/// another server overrides it while it is on.
pub proof fn law_a_builtin_turned_off_can_be_turned_on(
    dto: BuiltinServerDto,
    r: BuiltinToggleState,
)
    requires
        call_ensures(builtin_toggle_state, (&dto,), r),
    ensures
        r.active <==> !dto.disabled_by_config,
        dto.disabled_by_config ==> r.sensitive,
        dto.overridden_by is None ==> r.sensitive,
        dto.overridden_by is Some && !dto.disabled_by_config ==> !r.sensitive,
{
}

/// A built-in row says its status and how many tools it has, where it has any.
pub proof fn law_a_builtin_counts_its_tools(
    row: ServerRow,
    text: &str,
    status: (&'static str, &'static str),
    r: String,
)
    requires
        call_ensures(builtin_subtitle, (&row,), r),
        text@ == row.status@,
        call_ensures(status_display, (text,), status),
    ensures
        row.tool_count == 0 ==> r@ == status.1@,
        row.tool_count == 1 ==> r@ == status.1@ + " · 1 tool"@,
        row.tool_count > 1 ==> r@ == status.1@ + (" · "@ + decimal(row.tool_count as nat)
            + " tools"@),
{
    lemma_tool_counts(row.tool_count as nat);
}

/// Built-in rows are told by their kind.
pub proof fn law_builtins_are_told_by_their_kind(row: ServerRow, r: bool)
    requires
        call_ensures(is_builtin, (&row,), r),
    ensures
        r <==> row.kind is BuiltIn,
        !r <==> row.kind is External,
{
}

/// The filter offers all servers, the daemon's and this client's, in that order.
pub proof fn law_filter_positions(i: u32, r: RunnerFilter)
    requires
        call_ensures(filter_from_index, (i,), r),
    ensures
        r == RunnerFilter::Daemon <==> i == 1,
        r == RunnerFilter::Client <==> i == 2,
        r == RunnerFilter::All <==> i == 0 || i > 2,
{
}

/// Choosing a filter keeps the data, and new data keeps the filter.
pub proof fn law_filter_and_data_are_apart(
    tab: &mut McpServersTab,
    then: &mut McpServersTab,
    index: u32,
    daemon: Vec<McpServerView>,
    rows: Vec<ServerRow>,
    is_remote: bool,
    host: Option<String>,
)
    requires
        call_ensures(McpServersTab::set_filter, (tab, index), ()),
        *old(then) == *final(tab),
        call_ensures(McpServersTab::set_data, (then, daemon, rows, is_remote, host), ()),
    ensures
        final(tab).daemon@ == old(tab).daemon@,
        final(tab).rows@ == old(tab).rows@,
        final(tab).is_remote == old(tab).is_remote,
        final(tab).host == old(tab).host,
        final(then).filter == RunnerFilter::Daemon <==> index == 1,
        final(then).filter == RunnerFilter::Client <==> index == 2,
        final(then).daemon@ == daemon@,
        final(then).rows@ == rows@,
        final(then).is_remote == is_remote,
        final(then).host == host,
{
}

/// A server is found by its name, exactly where one of that name is loaded, and its
/// name is among the names.
pub proof fn law_loaded_servers_are_found(
    tab: McpServersTab,
    name: &str,
    r: Option<&McpServerView>,
    names: Vec<String>,
)
    requires
        call_ensures(McpServersTab::find, (&tab, name), r),
        call_ensures(McpServersTab::daemon_names, (&tab,), names),
    ensures
        r is Some ==> r->0.name@ == name@ && tab.daemon@.contains(*r->0),
        r is Some <==> exists|i: int|
            0 <= i < names@.len() && (#[trigger] names@[i])@ == name@,
        names@.len() == tab.daemon@.len(),
{
    law_find_is_complete(tab.daemon@, name@);
    if exists|i: int| 0 <= i < tab.daemon@.len() && (#[trigger] tab.daemon@[i]).name@ == name@ {
        let i = choose|i: int|
            0 <= i < tab.daemon@.len() && (#[trigger] tab.daemon@[i]).name@ == name@;
        assert(names@[i]@ == name@);
    }
    if exists|i: int| 0 <= i < names@.len() && (#[trigger] names@[i])@ == name@ {
        let i = choose|i: int| 0 <= i < names@.len() && (#[trigger] names@[i])@ == name@;
        assert(tab.daemon@[i].name@ == name@);
    }
}

/// The first view of a name is the one that is found.
proof fn lemma_view_at(daemon: Seq<McpServerView>, name: Seq<char>, i: int)
    requires
        0 <= i < daemon.len(),
        daemon[i].name@ == name,
        forall|j: int| 0 <= j < i ==> (#[trigger] daemon[j]).name@ != name,
    ensures
        view_named(daemon, name) == Some(daemon[i]),
    decreases i,
{
    if i > 0 {
        let rest = daemon.drop_first();
        assert(daemon[0].name@ != name);
        assert forall|j: int| 0 <= j < i - 1 implies (#[trigger] rest[j]).name@ != name by {
            assert(daemon[j + 1].name@ != name);
        }
        lemma_view_at(rest, name, i - 1);
    }
}

/// A row of the daemon's that is not loaded shows no target, and what is found under a
/// name is the first of that name.
pub proof fn law_an_unloaded_row_shows_no_target(
    row: ServerRow,
    daemon: Vec<McpServerView>,
    text: &str,
    status: (&'static str, &'static str),
    r: ServerRowDisplay,
)
    requires
        call_ensures(row_display, (&row, &daemon), r),
        text@ == row.status@,
        call_ensures(status_display, (text,), status),
        forall|j: int| 0 <= j < daemon@.len() ==> (#[trigger] daemon@[j]).name@ != row.name@,
    ensures
        row.tool_count == 0 ==> r.subtitle@ == status.1@,
        row.status@ != "running"@ && row.status@ != "enabled"@ ==> r.subtitle@ == status.1@,
        (row.status@ == "running"@ || row.status@ == "enabled"@) && row.tool_count == 1
            ==> r.subtitle@ == status.1@ + " · 1 tool"@,
        (row.status@ == "running"@ || row.status@ == "enabled"@) && row.tool_count > 1
            ==> r.subtitle@ == status.1@ + (" · "@ + decimal(row.tool_count as nat)
            + " tools"@),
{
    law_find_is_complete(daemon@, row.name@);
    lemma_tool_counts(row.tool_count as nat);
    let none = Seq::<char>::empty();
    assert(status.1@ + none =~= status.1@);
    let line = status.1@ + tool_count_text(row.tool_count as nat);
    assert(line + none =~= line);
}

/// A server is found under its own name, the first where several share it, and the names
/// are listed in order.
pub proof fn law_the_first_of_a_name_is_found(
    tab: McpServersTab,
    name: &str,
    i: int,
    r: Option<&McpServerView>,
    names: Vec<String>,
)
    requires
        call_ensures(McpServersTab::find, (&tab, name), r),
        call_ensures(McpServersTab::daemon_names, (&tab,), names),
        0 <= i < tab.daemon@.len(),
        tab.daemon@[i].name@ == name@,
        forall|j: int| 0 <= j < i ==> (#[trigger] tab.daemon@[j]).name@ != name@,
    ensures
        r is Some && *r->0 == tab.daemon@[i],
        names@[i]@ == name@,
{
    lemma_view_at(tab.daemon@, name@, i);
}

} // verus!
