//! The settings dialog: what its tabs hold, the work that their buttons hand out, and
//! what follows from each answer.

use crate::api::{
    ConnectionConfigView, ConnectionView, McpServerConfig, McpServerView, ModelListing,
    PurposeConfigView, PurposeKindApi, PurposesView, Runner, RunnerFilter, ServerRow,
    ServiceAccountView, VoiceInfo,
};
use crate::connection_config_dialog::{
    config_field, connector_of, no_preserved, preserved_of, ConnectorType, Field,
};
use crate::general_tab::GeneralTab;
use crate::mcp_server_dialog::{BuiltMcpServer, McpForm, McpTransport};
use crate::mcp_servers_tab::{
    law_find_is_complete, row_display, view_named, McpServersTab, ServerRowDisplay,
};
use crate::model_picker::{from_connection, keep_connection, of_connection};
use crate::purposes_tab::{binding_of, ModelListState, PurposesTab};
use crate::text::{opt_text, same_text, texts};
use crate::voice_tab::{shows_current, voice_label, VoiceTab};
use vstd::prelude::*;

verus! {

/// The speaker that stands for a voice's default one.
pub const DEFAULT_SPEAKER: i32 = -1;

/// A piece of work that the dialog hands out.
#[derive(Debug, PartialEq, Eq)]
pub enum Job {
    CreateConnection { id: String, config: ConnectionConfigView },
    UpdateConnection { id: String, config: ConnectionConfigView },
    /// Forced, the purposes that refer to the connection fall back to the
    /// interactive one.
    DeleteConnection { id: String, force: bool },
    /// Ask a connection for its models anew, past what is cached.
    RefreshModels { id: String },
    SetPurpose { purpose: PurposeKindApi, binding: PurposeConfigView },
    /// Store the secret, where there is one, then save the server with the daemon.
    SaveServer { secret: Option<(String, String)>, config_json: String },
    ToggleServer { name: String, enabled: bool },
    RemoveServer { name: String },
    /// Write a server into this client's own configuration.
    SaveClientServer { config_json: String },
    ToggleClientServer { name: String, enabled: bool },
    RemoveClientServer { name: String },
    ToggleBuiltin { name: String, disabled: bool },
    /// Run a sign-in command, without a shell.
    SignIn { argv: Vec<String> },
    SetWakeWord { enabled: bool },
    SetVoice { id: String, speaker: i32 },
    SavePreference { share_client_context: bool },
}

/// A question that stands before a piece of work.
#[derive(Debug, PartialEq, Eq)]
pub struct Confirmation {
    pub title: String,
    pub detail: String,
    pub affirmative: &'static str,
    pub destructive: bool,
    pub job: Job,
}

/// What the dialog does next.
#[derive(Debug, PartialEq, Eq)]
pub enum Next {
    Nothing,
    /// Fetch the connections, the purposes and the models again.
    Refresh,
    /// Fetch the servers again.
    RefreshServers,
    /// Say what went wrong in the window's status bar.
    Error(String),
    /// Ask before going on.
    Confirm(Confirmation),
}

/// What follows from an answer.
#[derive(Debug, PartialEq, Eq)]
pub struct FollowUp {
    /// What the dialog's own status line says from now on.
    pub status: Option<String>,
    pub next: Next,
}

/// What a failed piece of work is called.
pub open spec fn complaint(job: Job) -> Seq<char> {
    match job {
        Job::CreateConnection { .. } => "Create connection"@,
        Job::UpdateConnection { .. } => "Update connection"@,
        Job::DeleteConnection { .. } => "Delete connection"@,
        Job::RefreshModels { .. } => "Refresh models"@,
        Job::SetPurpose { .. } => "Set purpose"@,
        Job::SaveServer { .. } => "Save MCP server"@,
        Job::ToggleServer { .. } => "Toggle MCP server"@,
        Job::RemoveServer { .. } => "Remove MCP server"@,
        Job::SaveClientServer { .. } => "Save client MCP server"@,
        Job::ToggleClientServer { .. } => "Toggle client MCP server"@,
        Job::RemoveClientServer { .. } => "Remove client MCP server"@,
        Job::ToggleBuiltin { .. } => "Toggle built-in MCP server"@,
        Job::SignIn { .. } => "MCP sign-in"@,
        Job::SetWakeWord { .. } => "Set wake word"@,
        Job::SetVoice { .. } => "Set voice"@,
        Job::SavePreference { .. } => "Save preference"@,
    }
}

/// A complaint with its reason.
pub open spec fn complaint_text(what: Seq<char>, reason: Seq<char>) -> Seq<char> {
    what + ": "@ + reason
}

/// What a piece of work that went well is followed by.
pub open spec fn after_success(job: Job) -> Next {
    match job {
        Job::CreateConnection { .. } => Next::Refresh,
        Job::UpdateConnection { .. } => Next::Refresh,
        Job::DeleteConnection { .. } => Next::Refresh,
        Job::SetPurpose { .. } => Next::Refresh,
        Job::SaveServer { .. } => Next::RefreshServers,
        Job::ToggleServer { .. } => Next::RefreshServers,
        Job::RemoveServer { .. } => Next::RefreshServers,
        Job::SaveClientServer { .. } => Next::RefreshServers,
        Job::ToggleClientServer { .. } => Next::RefreshServers,
        Job::RemoveClientServer { .. } => Next::RefreshServers,
        Job::ToggleBuiltin { .. } => Next::RefreshServers,
        Job::SignIn { .. } => Next::RefreshServers,
        Job::RefreshModels { .. } => Next::Nothing,
        Job::SetWakeWord { .. } => Next::Nothing,
        Job::SetVoice { .. } => Next::Nothing,
        Job::SavePreference { .. } => Next::Nothing,
    }
}

/// What the status line says after a piece of work that went well. A built-in is
/// hosted, or not, from the next start on, and a preference applies from the next
/// connect on: the line says so.
pub open spec fn success_note(job: Job) -> Option<Seq<char>> {
    match job {
        Job::ToggleBuiltin { name, disabled } => Some(
            "Built-in \""@ + name@ + "\" "@ + (if disabled {
                "disabled"@
            } else {
                "enabled"@
            }) + " - applies after the client restarts."@,
        ),
        Job::SavePreference { .. } => Some(
            "Device-info sharing preference saved - applies on the next connect."@,
        ),
        _ => None,
    }
}

/// The question whether to force the removal of a connection that was refused.
pub open spec fn is_retry(c: Confirmation, id: Seq<char>, reason: Seq<char>) -> bool {
    &&& c.title@ == "Cannot remove \""@ + id + "\""@
    &&& c.detail@ == reason
        + "\n\nForce-remove will re-assign any referencing purpose to the interactive purpose."@
    &&& c.affirmative@ == "Force remove"@
    &&& c.destructive
    &&& c.job matches Job::DeleteConnection { id: target, force } && target@ == id && force
}

/// `f` follows from a piece of work that ended with `result`.
pub open spec fn follows(job: Job, result: Result<(), Seq<char>>, f: FollowUp) -> bool {
    match result {
        Ok(_) => {
            &&& f.next == after_success(job)
            &&& opt_text(f.status) == success_note(job)
        },
        Err(reason) => match job {
            Job::DeleteConnection { id, force: false } => {
                &&& f.status is None
                &&& f.next matches Next::Confirm(c) && is_retry(c, id@, reason)
            },
            Job::SavePreference { .. } => {
                &&& f.next == Next::Nothing
                &&& opt_text(f.status) == Some(complaint_text(complaint(job), reason))
            },
            _ => {
                &&& f.status is None
                &&& f.next matches Next::Error(text) && text@ == complaint_text(
                    complaint(job),
                    reason,
                )
            },
        },
    }
}

/// The texts of an outcome.
pub open spec fn result_text(result: Result<(), String>) -> Result<(), Seq<char>> {
    match result {
        Ok(_) => Ok(()),
        Err(e) => Err(e@),
    }
}

impl Job {
    /// What this work is called when it fails.
    fn name(&self) -> (r: &'static str)
        ensures
            r@ == complaint(*self),
    {
        match self {
            Job::CreateConnection { .. } => "Create connection",
            Job::UpdateConnection { .. } => "Update connection",
            Job::DeleteConnection { .. } => "Delete connection",
            Job::RefreshModels { .. } => "Refresh models",
            Job::SetPurpose { .. } => "Set purpose",
            Job::SaveServer { .. } => "Save MCP server",
            Job::ToggleServer { .. } => "Toggle MCP server",
            Job::RemoveServer { .. } => "Remove MCP server",
            Job::SaveClientServer { .. } => "Save client MCP server",
            Job::ToggleClientServer { .. } => "Toggle client MCP server",
            Job::RemoveClientServer { .. } => "Remove client MCP server",
            Job::ToggleBuiltin { .. } => "Toggle built-in MCP server",
            Job::SignIn { .. } => "MCP sign-in",
            Job::SetWakeWord { .. } => "Set wake word",
            Job::SetVoice { .. } => "Set voice",
            Job::SavePreference { .. } => "Save preference",
        }
    }

    fn success(&self) -> (r: FollowUp)
        ensures
            follows(*self, Ok(()), r),
    {
        match self {
            Job::CreateConnection { .. }
            | Job::UpdateConnection { .. }
            | Job::DeleteConnection { .. }
            | Job::SetPurpose { .. } => FollowUp { status: None, next: Next::Refresh },
            Job::SaveServer { .. }
            | Job::ToggleServer { .. }
            | Job::RemoveServer { .. }
            | Job::SaveClientServer { .. }
            | Job::ToggleClientServer { .. }
            | Job::RemoveClientServer { .. }
            | Job::SignIn { .. } => FollowUp { status: None, next: Next::RefreshServers },
            Job::ToggleBuiltin { name, disabled } => {
                let mut note = "Built-in \"".to_owned();
                note.append(name.as_str());
                note.append("\" ");
                if *disabled {
                    note.append("disabled");
                } else {
                    note.append("enabled");
                }
                note.append(" - applies after the client restarts.");
                FollowUp { status: Some(note), next: Next::RefreshServers }
            },
            Job::RefreshModels { .. } | Job::SetWakeWord { .. } | Job::SetVoice { .. } => FollowUp {
                status: None,
                next: Next::Nothing,
            },
            Job::SavePreference { .. } => FollowUp {
                status: Some(
                    "Device-info sharing preference saved - applies on the next connect.".to_owned(),
                ),
                next: Next::Nothing,
            },
        }
    }
}

fn with_reason(what: &str, reason: &str) -> (r: String)
    ensures
        r@ == complaint_text(what@, reason@),
{
    let mut out = what.to_owned();
    out.append(": ");
    out.append(reason);
    out
}

/// What follows from a piece of work that ended with `result`. A removal that the
/// daemon refused, because purposes still refer to the connection, can be forced.
pub fn follow_up(job: Job, result: Result<(), String>) -> (r: FollowUp)
    ensures
        follows(job, result_text(result), r),
{
    let reason = match result {
        Ok(()) => {
            return job.success();
        },
        Err(reason) => reason,
    };
    let text = with_reason(job.name(), reason.as_str());
    match job {
        Job::DeleteConnection { id, force: false } => {
            let mut title = "Cannot remove \"".to_owned();
            title.append(id.as_str());
            title.append("\"");
            let mut detail = reason;
            detail.append(
                "\n\nForce-remove will re-assign any referencing purpose to the interactive purpose.",
            );
            FollowUp {
                status: None,
                next: Next::Confirm(
                    Confirmation {
                        title,
                        detail,
                        affirmative: "Force remove",
                        destructive: true,
                        job: Job::DeleteConnection { id, force: true },
                    },
                ),
            }
        },
        Job::SavePreference { .. } => FollowUp { status: Some(text), next: Next::Nothing },
        _ => FollowUp { status: None, next: Next::Error(text) },
    }
}

/// The steps of saving a server with the daemon.
#[derive(Debug, PartialEq, Eq)]
pub enum SaveStep {
    /// Store the secret under its reference. It goes first: the daemon reloads its
    /// secrets, so the server that refers to it resolves it.
    StoreSecret { id: String, value: String, config_json: String },
    /// Save the server.
    Upsert { config_json: String },
    Done(Result<(), String>),
}

/// The first step. Without a secret any stored token is left untouched.
pub fn begin_save(secret: Option<(String, String)>, config_json: String) -> (r: SaveStep)
    ensures
        r == (match secret {
            Some(pair) => SaveStep::StoreSecret { id: pair.0, value: pair.1, config_json },
            None => SaveStep::Upsert { config_json },
        }),
{
    match secret {
        Some((id, value)) => SaveStep::StoreSecret { id, value, config_json },
        None => SaveStep::Upsert { config_json },
    }
}

/// `next` is the step after `step` ended with `result`.
pub open spec fn is_next_step(
    step: SaveStep,
    result: Result<(), String>,
    next: SaveStep,
) -> bool {
    match step {
        SaveStep::StoreSecret { config_json, .. } => match result {
            Ok(_) => next == (SaveStep::Upsert { config_json }),
            Err(e) => next matches SaveStep::Done(Err(text)) && text@ == complaint_text(
                "store token"@,
                e@,
            ),
        },
        SaveStep::Upsert { .. } => next == SaveStep::Done(result),
        SaveStep::Done(_) => next == step,
    }
}

/// The step after the one that ended with `result`.
pub fn next_step(step: SaveStep, result: Result<(), String>) -> (r: SaveStep)
    ensures
        is_next_step(step, result, r),
{
    match step {
        SaveStep::StoreSecret { config_json, .. } => match result {
            Ok(()) => SaveStep::Upsert { config_json },
            Err(e) => SaveStep::Done(Err(with_reason("store token", e.as_str()))),
        },
        SaveStep::Upsert { .. } => SaveStep::Done(result),
        SaveStep::Done(done) => SaveStep::Done(done),
    }
}

/// The work of saving a server: a daemon server goes to the daemon, its secret with
/// it; a client server is written to the local configuration, which stores no secret.
pub fn save_job(built: BuiltMcpServer) -> (r: Job)
    ensures
        r == (match built.runner {
            Runner::Daemon => Job::SaveServer {
                secret: built.secret,
                config_json: built.config_json,
            },
            Runner::Client => Job::SaveClientServer { config_json: built.config_json },
        }),
{
    match built.runner {
        Runner::Daemon => Job::SaveServer {
            secret: built.secret,
            config_json: built.config_json,
        },
        Runner::Client => Job::SaveClientServer { config_json: built.config_json },
    }
}

/// The work of switching a server on or off, on its own side.
pub fn toggle_job(name: String, runner: Runner, enabled: bool) -> (r: Job)
    ensures
        r == (match runner {
            Runner::Daemon => Job::ToggleServer { name, enabled },
            Runner::Client => Job::ToggleClientServer { name, enabled },
        }),
{
    match runner {
        Runner::Daemon => Job::ToggleServer { name, enabled },
        Runner::Client => Job::ToggleClientServer { name, enabled },
    }
}

/// The question before a server is removed.
pub fn remove_server(name: String, runner: Runner) -> (r: Confirmation)
    ensures
        r.title@ == "Remove MCP server \""@ + name@ + "\"?"@,
        r.detail@ == (match runner {
            Runner::Daemon => "Its tools will no longer be available to the assistant."@,
            Runner::Client =>
                "This removes the local server definition and drops it from every client surface."@,
        }),
        r.affirmative@ == "Remove"@,
        r.destructive,
        r.job == (match runner {
            Runner::Daemon => Job::RemoveServer { name },
            Runner::Client => Job::RemoveClientServer { name },
        }),
{
    let mut title = "Remove MCP server \"".to_owned();
    title.append(name.as_str());
    title.append("\"?");
    match runner {
        Runner::Daemon => Confirmation {
            title,
            detail: "Its tools will no longer be available to the assistant.".to_owned(),
            affirmative: "Remove",
            destructive: true,
            job: Job::RemoveServer { name },
        },
        Runner::Client => Confirmation {
            title,
            detail:
                "This removes the local server definition and drops it from every client surface.".to_owned(),
            affirmative: "Remove",
            destructive: true,
            job: Job::RemoveClientServer { name },
        },
    }
}

/// The question before a connection is removed. The first try is never forced.
pub fn remove_connection(id: String) -> (r: Confirmation)
    ensures
        r.title@ == "Remove connection \""@ + id@ + "\"?"@,
        r.detail@
            == "This will fail if any purpose still references the connection. You will be offered a force-remove on the retry dialog, which re-assigns referencing purposes to the interactive purpose."@,
        r.affirmative@ == "Remove"@,
        r.destructive,
        r.job == (Job::DeleteConnection { id, force: false }),
{
    let mut title = "Remove connection \"".to_owned();
    title.append(id.as_str());
    title.append("\"?");
    Confirmation {
        title,
        detail:
            "This will fail if any purpose still references the connection. You will be offered a force-remove on the retry dialog, which re-assigns referencing purposes to the interactive purpose.".to_owned(),
        affirmative: "Remove",
        destructive: true,
        job: Job::DeleteConnection { id, force: false },
    }
}

/// How a sign-in command ended.
#[derive(Debug, PartialEq, Eq)]
pub enum SignInEnd {
    Succeeded,
    /// It ended with this status.
    Exited(String),
    /// It could not be started.
    NotLaunched(String),
}

/// A sign-in as a piece of work that went well or not.
pub fn sign_in_result(end: SignInEnd) -> (r: Result<(), String>)
    ensures
        result_text(r) == (match end {
            SignInEnd::Succeeded => Ok(()),
            SignInEnd::Exited(status) => Err("sign-in exited with "@ + status@),
            SignInEnd::NotLaunched(e) => Err("failed to launch sign-in: "@ + e@),
        }),
{
    match end {
        SignInEnd::Succeeded => Ok(()),
        SignInEnd::Exited(status) => {
            let mut text = "sign-in exited with ".to_owned();
            text.append(status.as_str());
            Err(text)
        },
        SignInEnd::NotLaunched(e) => {
            let mut text = "failed to launch sign-in: ".to_owned();
            text.append(e.as_str());
            Err(text)
        },
    }
}

/// The voice daemon's state, fetched in one go.
#[derive(Debug, PartialEq, Eq)]
pub struct VoiceSnapshot {
    /// The daemon is there.
    pub available: bool,
    pub enabled: bool,
    pub voices: Vec<VoiceInfo>,
    pub current_voice: Option<String>,
}

impl VoiceSnapshot {
    /// The snapshot of a daemon that is not there.
    pub fn absent() -> (r: Self)
        ensures
            !r.available,
            !r.enabled,
            r.voices@.len() == 0,
            r.current_voice is None,
    {
        VoiceSnapshot { available: false, enabled: false, voices: Vec::new(), current_voice: None }
    }

    /// The snapshot from a daemon's answers. One that was not given counts as a wake
    /// word that is off, or as no voices.
    pub fn present(
        enabled: Option<bool>,
        voices: Option<Vec<VoiceInfo>>,
        current_voice: Option<String>,
    ) -> (r: Self)
        ensures
            r.available,
            r.enabled == (enabled == Some(true)),
            voices is Some ==> r.voices == voices->0,
            voices is None ==> r.voices@.len() == 0,
            r.current_voice == current_voice,
    {
        VoiceSnapshot {
            available: true,
            enabled: match enabled {
                Some(on) => on,
                None => false,
            },
            voices: match voices {
                Some(list) => list,
                None => Vec::new(),
            },
            current_voice,
        }
    }
}

/// A server of this client's own, and whether it is on.
#[derive(Debug, PartialEq, Eq)]
pub struct ClientServer {
    pub config: McpServerConfig,
    pub enabled: bool,
}

/// What opening a connection's configuration does.
#[derive(Debug, PartialEq, Eq)]
pub enum Configure {
    /// The connection is gone: nothing.
    Missing,
    /// Its connector is of no known type.
    Unknown(String),
    Open { connector: ConnectorType, id: String, config: ConnectionConfigView },
}

/// What a new server's editor opens with. The names that are taken are kept by
/// runner: a client server and a daemon server of one name are two servers.
pub struct NewServer {
    pub form: McpForm,
    pub daemon_names: Vec<String>,
    pub client_names: Vec<String>,
}

/// What the tabs hold.
pub struct Settings {
    /// Holds the connections too: the connections tab lists the same ones.
    pub purposes: PurposesTab,
    pub servers: McpServersTab,
    pub voice: VoiceTab,
    pub general: GeneralTab,
    /// The accounts that the server editor offers.
    pub service_accounts: Vec<ServiceAccountView>,
    /// This client's own servers, as they stand on disk.
    pub client_servers: Vec<ClientServer>,
    /// The dialog's status line.
    pub status: String,
}

/// The first connection of an id.
pub open spec fn connection_of(connections: Seq<ConnectionView>, id: Seq<char>) -> Option<
    ConnectionView,
>
    decreases connections.len(),
{
    if connections.len() == 0 {
        None
    } else if connections[0].id@ == id {
        Some(connections[0])
    } else {
        connection_of(connections.drop_first(), id)
    }
}

/// The first client server of a name.
pub open spec fn client_server_of(servers: Seq<ClientServer>, name: Seq<char>) -> Option<
    ClientServer,
>
    decreases servers.len(),
{
    if servers.len() == 0 {
        None
    } else if servers[0].config.name@ == name {
        Some(servers[0])
    } else {
        client_server_of(servers.drop_first(), name)
    }
}

fn find_connection(connections: &Vec<ConnectionView>, id: &str) -> (r: Option<usize>)
    ensures
        match r {
            Some(i) => i < connections@.len() && connection_of(connections@, id@) == Some(
                connections@[i as int],
            ),
            None => connection_of(connections@, id@) is None,
        },
{
    let mut i: usize = 0;
    assert(connections@.skip(0) =~= connections@);
    while i < connections.len()
        invariant
            i <= connections.len(),
            connection_of(connections@, id@) == connection_of(connections@.skip(i as int), id@),
        decreases connections.len() - i,
    {
        assert(connections@.skip(i as int).drop_first() =~= connections@.skip(i as int + 1));
        if same_text(connections[i].id.as_str(), id) {
            return Some(i);
        }
        i = i + 1;
    }
    None
}

fn find_client_server(servers: &Vec<ClientServer>, name: &str) -> (r: Option<usize>)
    ensures
        match r {
            Some(i) => i < servers@.len() && client_server_of(servers@, name@) == Some(
                servers@[i as int],
            ),
            None => client_server_of(servers@, name@) is None,
        },
{
    let mut i: usize = 0;
    assert(servers@.skip(0) =~= servers@);
    while i < servers.len()
        invariant
            i <= servers.len(),
            client_server_of(servers@, name@) == client_server_of(servers@.skip(i as int), name@),
        decreases servers.len() - i,
    {
        assert(servers@.skip(i as int).drop_first() =~= servers@.skip(i as int + 1));
        if same_text(servers[i].config.name.as_str(), name) {
            return Some(i);
        }
        i = i + 1;
    }
    None
}

/// What is configured when a connection is opened: what the daemon echoed, or, from
/// one that echoes nothing, a blank configuration of the right connector.
pub open spec fn is_configuration(
    connection: ConnectionView,
    connector: ConnectorType,
    config: ConnectionConfigView,
) -> bool {
    match connection.config {
        Some(stored) => config == stored,
        None => {
            &&& connector_of(config) == connector
            &&& forall|field: Field| #[trigger] config_field(config, field) is None
            &&& preserved_of(config) == no_preserved()
        },
    }
}

/// `c` is what opening the configuration of the connection `id` does.
pub open spec fn opens(connections: Seq<ConnectionView>, id: Seq<char>, c: Configure) -> bool {
    match c {
        Configure::Missing => connection_of(connections, id) is None,
        Configure::Unknown(text) => {
            &&& connection_of(connections, id) matches Some(found)
            &&& forall|kind: ConnectorType| #[trigger] kind.wire_name() != found.connector_type@
            &&& text@ == "Unknown connector type: "@ + found.connector_type@
        },
        Configure::Open { connector, id: opened, config } => {
            &&& connection_of(connections, id) matches Some(found)
            &&& connector.wire_name() == found.connector_type@
            &&& opened@ == id
            &&& is_configuration(found, connector, config)
        },
    }
}

impl Settings {
    /// A dialog that has fetched nothing yet.
    pub fn new() -> (r: Self)
        ensures
            r.purposes.wf(),
            r.purposes.connections@.len() == 0,
            forall|id: Seq<char>| #[trigger] r.purposes.known(id) is None,
            forall|purpose: PurposeKindApi| #[trigger]
                binding_of(r.purposes.purposes, purpose) is None,
            forall|purpose: PurposeKindApi|
                (#[trigger] r.purposes.row(purpose)).connection_values@.len() == 0
                    && r.purposes.row(purpose).model_values@.len() == 0 && r.purposes.row(
                    purpose,
                ).max_context_tokens is None,
            r.servers.daemon@.len() == 0,
            r.servers.rows@.len() == 0,
            r.servers.filter == RunnerFilter::All,
            !r.servers.is_remote,
            r.servers.host is None,
            !r.voice.enabled,
            r.voice.enable_sensitive,
            r.voice.voice_ids@.len() == 0,
            r.voice.labels@.len() == 0,
            r.voice.selected is None,
            r.voice.voices_sensitive,
            r.voice.status@ == ""@,
            r.general.share_client_context,
            r.service_accounts@.len() == 0,
            r.client_servers@.len() == 0,
            r.status@.len() == 0,
    {
        Settings {
            purposes: PurposesTab::new(),
            servers: McpServersTab::new(),
            voice: VoiceTab::new(),
            general: GeneralTab::new(),
            service_accounts: Vec::new(),
            client_servers: Vec::new(),
            status: String::new(),
        }
    }

    /// Everything but the status line is as it was.
    pub open spec fn same_but_status(self, before: Settings) -> bool {
        self == (Settings { status: self.status, ..before })
    }

    /// A piece of work ended with `result`.
    pub fn finish(&mut self, job: Job, result: Result<(), String>) -> (r: Next)
        ensures
            exists|f: FollowUp| #[trigger]
                follows(job, result_text(result), f) && r == f.next && final(self).status == (
                match f.status {
                    Some(text) => text,
                    None => old(self).status,
                }),
            final(self).same_but_status(*old(self)),
    {
        let f = follow_up(job, result);
        let ghost whole = f;
        let FollowUp { status, next } = f;
        if let Some(text) = status {
            self.status = text;
        }
        assert(follows(job, result_text(result), whole));
        next
    }

    /// The connections came in: both tabs that list them follow. A failure says so and
    /// leaves them.
    pub fn connections_listed(&mut self, result: Result<Vec<ConnectionView>, String>)
        ensures
            match result {
                Ok(list) => {
                    &&& final(self).purposes.connections == list
                    &&& final(self).purposes.rows == old(self).purposes.rows
                    &&& final(self).purposes.purposes == old(self).purposes.purposes
                    &&& final(self).purposes.models_by_connection == old(
                        self,
                    ).purposes.models_by_connection
                    &&& *final(self) == (Settings {
                        purposes: final(self).purposes,
                        ..*old(self)
                    })
                },
                Err(e) => {
                    &&& final(self).status@ == complaint_text("List connections"@, e@)
                    &&& final(self).same_but_status(*old(self))
                },
            },
    {
        match result {
            Ok(list) => {
                self.purposes.set_connections(list);
            },
            Err(e) => {
                self.status = with_reason("List connections", e.as_str());
            },
        }
    }

    /// The bindings came in.
    pub fn purposes_read(&mut self, result: Result<PurposesView, String>)
        ensures
            match result {
                Ok(bindings) => {
                    &&& final(self).purposes.purposes == bindings
                    &&& final(self).purposes.rows == old(self).purposes.rows
                    &&& final(self).purposes.connections == old(self).purposes.connections
                    &&& final(self).purposes.models_by_connection == old(
                        self,
                    ).purposes.models_by_connection
                    &&& *final(self) == (Settings {
                        purposes: final(self).purposes,
                        ..*old(self)
                    })
                },
                Err(e) => {
                    &&& final(self).status@ == complaint_text("Get purposes"@, e@)
                    &&& final(self).same_but_status(*old(self))
                },
            },
    {
        match result {
            Ok(bindings) => {
                self.purposes.set_purposes(bindings);
            },
            Err(e) => {
                self.status = with_reason("Get purposes", e.as_str());
            },
        }
    }

    /// The models of all connections came in at once: each connection gets its own,
    /// embedding models included, so the dropdowns fill without further requests.
    /// Nothing is learnt of a connection that lists none.
    pub fn models_listed(&mut self, result: Result<Vec<ModelListing>, String>)
        ensures
            match result {
                Ok(listings) => {
                    &&& forall|id: Seq<char>| #![trigger final(self).purposes.known(id)]
                        learnt(
                            listings@,
                            id,
                            old(self).purposes.known(id),
                            final(self).purposes.known(id),
                        )
                    &&& final(self).purposes.rows == old(self).purposes.rows
                    &&& final(self).purposes.connections == old(self).purposes.connections
                    &&& final(self).purposes.purposes == old(self).purposes.purposes
                    &&& *final(self) == (Settings {
                        purposes: final(self).purposes,
                        ..*old(self)
                    })
                },
                Err(e) => {
                    &&& final(self).status@ == complaint_text("List models"@, e@)
                    &&& final(self).same_but_status(*old(self))
                },
            },
    {
        let listings = match result {
            Ok(listings) => listings,
            Err(e) => {
                self.status = with_reason("List models", e.as_str());
                return ;
            },
        };
        let ghost before = self.purposes;
        let mut i: usize = 0;
        while i < listings.len()
            invariant
                i <= listings.len(),
                before == old(self).purposes,
                forall|id: Seq<char>| #[trigger]
                    learnt_up_to(
                        listings@,
                        i as int,
                        id,
                        before.known(id),
                        self.purposes.known(id),
                    ),
                self.purposes.rows == before.rows,
                self.purposes.connections == before.connections,
                self.purposes.purposes == before.purposes,
                *self == (Settings { purposes: self.purposes, ..*old(self) }),
            decreases listings.len() - i,
        {
            let ghost earlier = self.purposes;
            let id = listings[i].connection_id.as_str();
            let own = keep_connection(&listings, id);
            self.purposes.set_models(id, own);
            proof {
                assert forall|other: Seq<char>| #[trigger]
                    learnt_up_to(
                        listings@,
                        i as int + 1,
                        other,
                        before.known(other),
                        self.purposes.known(other),
                    ) by {
                    assert(learnt_up_to(
                        listings@,
                        i as int,
                        other,
                        before.known(other),
                        earlier.known(other),
                    ));
                    if other == id@ {
                        assert(listings@[i as int].connection_id@ == other);
                    }
                }
            }
            i = i + 1;
        }
        proof {
            assert forall|id: Seq<char>| #[trigger]
                learnt(listings@, id, before.known(id), self.purposes.known(id)) by {
                assert(learnt_up_to(
                    listings@,
                    listings@.len() as int,
                    id,
                    before.known(id),
                    self.purposes.known(id),
                ));
                lemma_has_listings(listings@, id);
            }
        }
    }

    /// The models that one connection was asked for came in. A failure is remembered,
    /// so the connection is not asked again on every reconcile; returns what to say of
    /// it.
    pub fn models_answered(
        &mut self,
        connection_id: &str,
        result: Result<Vec<ModelListing>, String>,
    ) -> (r: Next)
        ensures
            match result {
                Ok(listings) => {
                    &&& final(self).purposes.known(connection_id@) == Some(
                        ModelListState::Loaded(listings),
                    )
                    &&& r == Next::Nothing
                },
                Err(e) => {
                    &&& final(self).purposes.known(connection_id@) matches Some(
                        ModelListState::Failed(text),
                    ) && text@ == e@
                    &&& r matches Next::Error(text) && text@ == complaint_text("List models"@, e@)
                },
            },
            forall|other: Seq<char>|
                other != connection_id@ ==> #[trigger] final(self).purposes.known(other) == old(
                    self,
                ).purposes.known(other),
            final(self).purposes.rows == old(self).purposes.rows,
            final(self).purposes.connections == old(self).purposes.connections,
            final(self).purposes.purposes == old(self).purposes.purposes,
            *final(self) == (Settings { purposes: final(self).purposes, ..*old(self) }),
    {
        match result {
            Ok(listings) => {
                self.purposes.set_models(connection_id, listings);
                Next::Nothing
            },
            Err(e) => {
                self.purposes.set_models_failed(connection_id, e.as_str());
                Next::Error(with_reason("List models", e.as_str()))
            },
        }
    }

    /// Open the configuration of a connection. The daemon echoes the stored
    /// configuration without its secrets; the dialog starts from it, so an edit does
    /// not wipe stored fields.
    pub fn configure(&self, id: &str) -> (r: Configure)
        ensures
            opens(self.purposes.connections@, id@, r),
    {
        match find_connection(&self.purposes.connections, id) {
            None => Configure::Missing,
            Some(i) => {
                let found = &self.purposes.connections[i];
                proof {
                    lemma_connection_of(self.purposes.connections@, id@);
                }
                match ConnectorType::from_slug(found.connector_type.as_str()) {
                    None => {
                        let mut text = "Unknown connector type: ".to_owned();
                        text.append(found.connector_type.as_str());
                        Configure::Unknown(text)
                    },
                    Some(connector) => {
                        let config = match &found.config {
                            Some(stored) => stored.clone(),
                            None => connector.empty_config(),
                        };
                        Configure::Open { connector, id: found.id.clone(), config }
                    },
                }
            },
        }
    }

    /// Open the editor for a new server, which runs with the daemon unless the user
    /// chooses otherwise.
    pub fn add_server(&self) -> (r: NewServer)
        ensures
            r.form.is_blank(McpTransport::Stdio),
            r.daemon_names@.len() == self.servers.daemon@.len(),
            forall|i: int|
                0 <= i < r.daemon_names@.len() ==> (#[trigger] r.daemon_names@[i])@
                    == self.servers.daemon@[i].name@,
            r.client_names@.len() == self.client_servers@.len(),
            forall|i: int|
                0 <= i < r.client_names@.len() ==> (#[trigger] r.client_names@[i])@
                    == self.client_servers@[i].config.name@,
    {
        let mut client_names: Vec<String> = Vec::new();
        let mut i: usize = 0;
        while i < self.client_servers.len()
            invariant
                i <= self.client_servers.len(),
                client_names@.len() == i,
                forall|j: int|
                    0 <= j < i ==> (#[trigger] client_names@[j])@
                        == self.client_servers@[j].config.name@,
            decreases self.client_servers.len() - i,
        {
            client_names.push(self.client_servers[i].config.name.clone());
            i = i + 1;
        }
        NewServer {
            form: McpForm::blank(McpTransport::Stdio),
            daemon_names: self.servers.daemon_names(),
            client_names,
        }
    }

    /// Open the editor for a server, filled from its own side: the daemon's view, or
    /// this client's configuration. Nothing opens for a server that is gone.
    pub fn edit_server(&self, name: &str, runner: Runner) -> (r: Option<McpForm>)
        ensures
            match runner {
                Runner::Daemon => match view_named(self.servers.daemon@, name@) {
                    Some(view) => r is Some && r->0.shows_view(view),
                    None => r is None,
                },
                Runner::Client => match client_server_of(self.client_servers@, name@) {
                    Some(server) => r is Some && r->0.shows_config(server.config, server.enabled),
                    None => r is None,
                },
            },
    {
        match runner {
            Runner::Daemon => match self.servers.find(name) {
                Some(view) => Some(McpForm::from_view(view)),
                None => None,
            },
            Runner::Client => match find_client_server(&self.client_servers, name) {
                Some(i) => Some(
                    McpForm::from_client_config(
                        &self.client_servers[i].config,
                        self.client_servers[i].enabled,
                    ),
                ),
                None => None,
            },
        }
    }

    /// Sign in with a server's command line. An empty one is nothing to run.
    pub fn sign_in(&mut self, argv: Vec<String>) -> (r: Option<Job>)
        ensures
            argv@.len() == 0 ==> r is None && *final(self) == *old(self),
            argv@.len() > 0 ==> {
                &&& r == Some(Job::SignIn { argv })
                &&& final(self).status@
                    == "Launched sign-in - finish in the browser; the list refreshes when it completes."@
                &&& final(self).same_but_status(*old(self))
            },
    {
        if argv.len() == 0 {
            return None;
        }
        self.status =
        "Launched sign-in - finish in the browser; the list refreshes when it completes.".to_owned();
        Some(Job::SignIn { argv })
    }

    /// The accounts came in; a failure says so and leaves them.
    pub fn accounts_listed(&mut self, result: Result<Vec<ServiceAccountView>, String>)
        ensures
            match result {
                Ok(list) => *final(self) == (Settings { service_accounts: list, ..*old(self) }),
                Err(e) => {
                    &&& final(self).status@ == complaint_text("List service accounts"@, e@)
                    &&& final(self).same_but_status(*old(self))
                },
            },
    {
        match result {
            Ok(list) => {
                self.service_accounts = list;
            },
            Err(e) => {
                self.status = with_reason("List service accounts", e.as_str());
            },
        }
    }

    /// The daemon's servers came in. Returns the ones to show: none after a failure,
    /// so that the servers of this client still show.
    pub fn servers_listed(&mut self, result: Result<Vec<McpServerView>, String>) -> (r: Vec<
        McpServerView,
    >)
        ensures
            match result {
                Ok(list) => r == list && *final(self) == *old(self),
                Err(e) => {
                    &&& r@.len() == 0
                    &&& final(self).status@ == complaint_text("List MCP servers"@, e@)
                    &&& final(self).same_but_status(*old(self))
                },
            },
    {
        match result {
            Ok(list) => list,
            Err(e) => {
                self.status = with_reason("List MCP servers", e.as_str());
                Vec::new()
            },
        }
    }

    /// Show the servers: the daemon's views, this client's own servers, and the rows
    /// merged from all of them.
    pub fn show_servers(
        &mut self,
        daemon: Vec<McpServerView>,
        client_servers: Vec<ClientServer>,
        rows: Vec<ServerRow>,
        is_remote: bool,
        host: Option<String>,
    )
        ensures
            final(self).servers.daemon == daemon,
            final(self).servers.rows == rows,
            final(self).servers.is_remote == is_remote,
            final(self).servers.host == host,
            final(self).servers.filter == old(self).servers.filter,
            *final(self) == (Settings {
                servers: final(self).servers,
                client_servers,
                ..*old(self)
            }),
    {
        self.servers.set_data(daemon, rows, is_remote, host);
        self.client_servers = client_servers;
    }

    /// Show the voice daemon's state. A daemon that is not there leaves the tab
    /// disabled, with the reason.
    pub fn show_voice(&mut self, snapshot: &VoiceSnapshot)
        ensures
            !snapshot.available ==> {
                &&& !final(self).voice.enabled
                &&& !final(self).voice.enable_sensitive
                &&& !final(self).voice.voices_sensitive
                &&& final(self).voice.status@
                    == "Voice service not available. Start the voice daemon (org.desktopAssistant.Voice) to enable these controls."@
                &&& final(self).voice.voice_ids == old(self).voice.voice_ids
                &&& final(self).voice.labels == old(self).voice.labels
                &&& final(self).voice.selected == old(self).voice.selected
            },
            snapshot.available ==> {
                &&& final(self).voice.enabled == snapshot.enabled
                &&& final(self).voice.enable_sensitive
                &&& final(self).voice.shows_voices(
                    snapshot.voices@,
                    opt_text(snapshot.current_voice),
                )
            },
            *final(self) == (Settings { voice: final(self).voice, ..*old(self) }),
    {
        if !snapshot.available {
            self.voice.set_unavailable();
            return ;
        }
        self.voice.set_available();
        self.voice.set_enabled_state(snapshot.enabled);
        match &snapshot.current_voice {
            Some(id) => {
                self.voice.set_voices(&snapshot.voices, Some(id.as_str()));
            },
            None => {
                self.voice.set_voices(&snapshot.voices, None);
            },
        }
    }

    /// The wake-word box reports that it stands at `on`.
    pub fn wake_word_toggled(&mut self, on: bool) -> (r: Option<Job>)
        ensures
            r == (match old(self).voice.enabled_write(on) {
                Some(enabled) => Some(Job::SetWakeWord { enabled }),
                None => None,
            }),
            *final(self) == (Settings {
                voice: VoiceTab { enabled: on, ..old(self).voice },
                ..*old(self)
            }),
    {
        match self.voice.enabled_toggled(on) {
            Some(enabled) => Some(Job::SetWakeWord { enabled }),
            None => None,
        }
    }

    /// The voice dropdown reports its position. A voice is always set with its default
    /// speaker.
    pub fn voice_picked(&mut self, index: usize) -> (r: Option<Job>)
        ensures
            match old(self).voice.voice_write(index as int) {
                Some(voice) => r matches Some(Job::SetVoice { id, speaker }) && id@ == voice
                    && speaker == DEFAULT_SPEAKER,
                None => r is None,
            },
            *final(self) == (Settings {
                voice: VoiceTab {
                    selected: if index < old(self).voice.voice_ids@.len() {
                        Some(index)
                    } else {
                        old(self).voice.selected
                    },
                    ..old(self).voice
                },
                ..*old(self)
            }),
    {
        match self.voice.voice_selected(index) {
            Some(id) => Some(Job::SetVoice { id, speaker: DEFAULT_SPEAKER }),
            None => None,
        }
    }

    /// The sharing box reports that it stands at `on`.
    pub fn sharing_toggled(&mut self, on: bool) -> (r: Option<Job>)
        ensures
            r == (match old(self).general.write(on) {
                Some(share_client_context) => Some(Job::SavePreference { share_client_context }),
                None => None,
            }),
            *final(self) == (Settings {
                general: GeneralTab { share_client_context: on },
                ..*old(self)
            }),
    {
        match self.general.toggled(on) {
            Some(share_client_context) => Some(Job::SavePreference { share_client_context }),
            None => None,
        }
    }
}

/// What is known of a connection's models after `listings` came in, where `before`
/// was known: its own listings, or, where it has none, what was known.
pub open spec fn learnt(
    listings: Seq<ModelListing>,
    id: Seq<char>,
    before: Option<ModelListState>,
    after: Option<ModelListState>,
) -> bool {
    if of_connection(listings, id).len() > 0 {
        after matches Some(ModelListState::Loaded(own)) && own@ == of_connection(listings, id)
    } else {
        after == before
    }
}

/// What is known once the first `n` listings were looked at.
spec fn learnt_up_to(
    listings: Seq<ModelListing>,
    n: int,
    id: Seq<char>,
    before: Option<ModelListState>,
    after: Option<ModelListState>,
) -> bool {
    if occurs(listings, n, id) {
        after matches Some(ModelListState::Loaded(own)) && own@ == of_connection(listings, id)
    } else {
        after == before
    }
}

/// One of the first `n` listings is of the connection.
spec fn occurs(listings: Seq<ModelListing>, n: int, id: Seq<char>) -> bool {
    exists|i: int| 0 <= i < n && (#[trigger] listings[i]).connection_id@ == id
}

proof fn lemma_has_listings(listings: Seq<ModelListing>, id: Seq<char>)
    ensures
        occurs(listings, listings.len() as int, id) <==> of_connection(listings, id).len() > 0,
{
    let f = from_connection(id);
    if occurs(listings, listings.len() as int, id) {
        let i = choose|i: int|
            0 <= i < listings.len() && (#[trigger] listings[i]).connection_id@ == id;
        listings.lemma_filter_contains(f, i);
    }
    if of_connection(listings, id).len() > 0 {
        let own = of_connection(listings, id);
        listings.lemma_filter_pred(f, 0);
        listings.lemma_filter_contains_rev(f, own[0]);
        let i = choose|i: int| 0 <= i < listings.len() && listings[i] == own[0];
        assert(listings[i].connection_id@ == id);
    }
}

proof fn lemma_connection_of(connections: Seq<ConnectionView>, id: Seq<char>)
    ensures
        connection_of(connections, id) is Some ==> connection_of(connections, id)->0.id@ == id,
    decreases connections.len(),
{
    if connections.len() > 0 {
        lemma_connection_of(connections.drop_first(), id);
    }
}

/// A refused removal is offered once more, by force, for the same connection; a
/// refusal of the forced one is final.
pub proof fn law_force_is_offered_once(
    id: String,
    reason: Seq<char>,
    first: FollowUp,
    second: FollowUp,
)
    requires
        follows(Job::DeleteConnection { id, force: false }, Err(reason), first),
        first.next is Confirm,
        follows(first.next->Confirm_0.job, Err(reason), second),
    ensures
        first.next->Confirm_0.job is DeleteConnection,
        first.next->Confirm_0.job->DeleteConnection_id@ == id@,
        first.next->Confirm_0.job->DeleteConnection_force,
        second.next is Error,
{
}

/// No removal is forced before the daemon refused it: a question whose answer forces
/// one only ever follows a refusal.
pub proof fn law_force_follows_a_refusal(job: Job, result: Result<(), Seq<char>>, f: FollowUp)
    requires
        follows(job, result, f),
        f.next is Confirm,
    ensures
        result is Err,
        job is DeleteConnection,
        !job->DeleteConnection_force,
{
}

/// The token is stored before the server that refers to it is saved, and a server
/// whose token could not be stored is not saved.
pub proof fn law_the_token_goes_first(
    id: String,
    value: String,
    config_json: String,
    result: Result<(), String>,
    next: SaveStep,
)
    requires
        is_next_step(SaveStep::StoreSecret { id, value, config_json }, result, next),
    ensures
        next is Upsert <==> result is Ok,
        next is Upsert ==> next->Upsert_config_json == config_json,
        next is Done <==> result is Err,
{
}

/// Whatever fails is said: no failure is passed over in silence.
pub proof fn law_every_failure_is_said(job: Job, reason: Seq<char>, f: FollowUp)
    requires
        follows(job, Err(reason), f),
    ensures
        f.status is Some || f.next is Error || f.next is Confirm,
        f.next != Next::Refresh,
        f.next != Next::RefreshServers,
{
}

/// What changed is read again once it has changed: the connections after a connection or
/// a purpose, the servers after a server or a sign-in, and nothing after the rest. Only
/// what takes effect later is said.
pub proof fn law_what_changed_is_read_again(job: Job, r: FollowUp)
    requires
        call_ensures(follow_up, (job, Ok(())), r),
    ensures
        job is CreateConnection ==> r.next is Refresh,
        job is UpdateConnection ==> r.next is Refresh,
        job is DeleteConnection ==> r.next is Refresh,
        job is RefreshModels ==> r.next is Nothing,
        job is SetPurpose ==> r.next is Refresh,
        job is SaveServer ==> r.next is RefreshServers,
        job is ToggleServer ==> r.next is RefreshServers,
        job is RemoveServer ==> r.next is RefreshServers,
        job is SaveClientServer ==> r.next is RefreshServers,
        job is ToggleClientServer ==> r.next is RefreshServers,
        job is RemoveClientServer ==> r.next is RefreshServers,
        job is ToggleBuiltin ==> r.next is RefreshServers,
        job is SignIn ==> r.next is RefreshServers,
        job is SetWakeWord ==> r.next is Nothing,
        job is SetVoice ==> r.next is Nothing,
        job is SavePreference ==> r.next is Nothing,
        r.status is Some <==> job is ToggleBuiltin || job is SavePreference,
        job is ToggleBuiltin && job->ToggleBuiltin_disabled ==> r.status->0@ == "Built-in \""@
            + job->ToggleBuiltin_name@ + "\" "@ + "disabled"@
            + " - applies after the client restarts."@,
        job is ToggleBuiltin && !job->ToggleBuiltin_disabled ==> r.status->0@ == "Built-in \""@
            + job->ToggleBuiltin_name@ + "\" "@ + "enabled"@
            + " - applies after the client restarts."@,
        job is SavePreference ==> r.status->0@
            == "Device-info sharing preference saved - applies on the next connect."@,
{
}

/// A failure is passed on with what failed and why; a refused removal of a connection
/// is offered again with force, and a preference that could not be saved is said in the
/// dialog.
pub proof fn law_a_failure_says_what_failed(job: Job, reason: String, r: FollowUp)
    requires
        call_ensures(follow_up, (job, Err(reason)), r),
    ensures
        job is CreateConnection ==> r.next is Error && r.next->Error_0@ == "Create connection: "@ + reason@,
        job is UpdateConnection ==> r.next is Error && r.next->Error_0@ == "Update connection: "@ + reason@,
        job is DeleteConnection && job->DeleteConnection_force ==> r.next is Error && r.next->Error_0@ == "Delete connection: "@ + reason@,
        job is RefreshModels ==> r.next is Error && r.next->Error_0@ == "Refresh models: "@ + reason@,
        job is SetPurpose ==> r.next is Error && r.next->Error_0@ == "Set purpose: "@ + reason@,
        job is SaveServer ==> r.next is Error && r.next->Error_0@ == "Save MCP server: "@ + reason@,
        job is ToggleServer ==> r.next is Error && r.next->Error_0@ == "Toggle MCP server: "@ + reason@,
        job is RemoveServer ==> r.next is Error && r.next->Error_0@ == "Remove MCP server: "@ + reason@,
        job is SaveClientServer ==> r.next is Error && r.next->Error_0@ == "Save client MCP server: "@ + reason@,
        job is ToggleClientServer ==> r.next is Error && r.next->Error_0@ == "Toggle client MCP server: "@ + reason@,
        job is RemoveClientServer ==> r.next is Error && r.next->Error_0@ == "Remove client MCP server: "@ + reason@,
        job is ToggleBuiltin ==> r.next is Error && r.next->Error_0@ == "Toggle built-in MCP server: "@ + reason@,
        job is SignIn ==> r.next is Error && r.next->Error_0@ == "MCP sign-in: "@ + reason@,
        job is SetWakeWord ==> r.next is Error && r.next->Error_0@ == "Set wake word: "@ + reason@,
        job is SetVoice ==> r.next is Error && r.next->Error_0@ == "Set voice: "@ + reason@,
        job is SavePreference ==> r.next is Nothing && r.status is Some && r.status->0@
            == "Save preference: "@ + reason@,
        !(job is SavePreference) ==> r.status is None,
        job is DeleteConnection && !job->DeleteConnection_force ==> {
            &&& r.next is Confirm
            &&& r.next->Confirm_0.job is DeleteConnection
            &&& r.next->Confirm_0.job->DeleteConnection_id@ == job->DeleteConnection_id@
            &&& r.next->Confirm_0.job->DeleteConnection_force
            &&& r.next->Confirm_0.destructive
            &&& r.next->Confirm_0.affirmative@ == "Force remove"@
            &&& r.next->Confirm_0.title@ == "Cannot remove \""@ + job->DeleteConnection_id@ + "\""@
            &&& reason@.is_prefix_of(r.next->Confirm_0.detail@)
        },
{
    reveal_strlit(": ");
    reveal_strlit("Create connection");
    reveal_strlit("Create connection: ");
    assert("Create connection"@ + ": "@ =~= "Create connection: "@);
    reveal_strlit("Update connection");
    reveal_strlit("Update connection: ");
    assert("Update connection"@ + ": "@ =~= "Update connection: "@);
    reveal_strlit("Delete connection");
    reveal_strlit("Delete connection: ");
    assert("Delete connection"@ + ": "@ =~= "Delete connection: "@);
    reveal_strlit("Refresh models");
    reveal_strlit("Refresh models: ");
    assert("Refresh models"@ + ": "@ =~= "Refresh models: "@);
    reveal_strlit("Set purpose");
    reveal_strlit("Set purpose: ");
    assert("Set purpose"@ + ": "@ =~= "Set purpose: "@);
    reveal_strlit("Save MCP server");
    reveal_strlit("Save MCP server: ");
    assert("Save MCP server"@ + ": "@ =~= "Save MCP server: "@);
    reveal_strlit("Toggle MCP server");
    reveal_strlit("Toggle MCP server: ");
    assert("Toggle MCP server"@ + ": "@ =~= "Toggle MCP server: "@);
    reveal_strlit("Remove MCP server");
    reveal_strlit("Remove MCP server: ");
    assert("Remove MCP server"@ + ": "@ =~= "Remove MCP server: "@);
    reveal_strlit("Save client MCP server");
    reveal_strlit("Save client MCP server: ");
    assert("Save client MCP server"@ + ": "@ =~= "Save client MCP server: "@);
    reveal_strlit("Toggle client MCP server");
    reveal_strlit("Toggle client MCP server: ");
    assert("Toggle client MCP server"@ + ": "@ =~= "Toggle client MCP server: "@);
    reveal_strlit("Remove client MCP server");
    reveal_strlit("Remove client MCP server: ");
    assert("Remove client MCP server"@ + ": "@ =~= "Remove client MCP server: "@);
    reveal_strlit("Toggle built-in MCP server");
    reveal_strlit("Toggle built-in MCP server: ");
    assert("Toggle built-in MCP server"@ + ": "@ =~= "Toggle built-in MCP server: "@);
    reveal_strlit("MCP sign-in");
    reveal_strlit("MCP sign-in: ");
    assert("MCP sign-in"@ + ": "@ =~= "MCP sign-in: "@);
    reveal_strlit("Set wake word");
    reveal_strlit("Set wake word: ");
    assert("Set wake word"@ + ": "@ =~= "Set wake word: "@);
    reveal_strlit("Set voice");
    reveal_strlit("Set voice: ");
    assert("Set voice"@ + ": "@ =~= "Set voice: "@);
    reveal_strlit("Save preference");
    reveal_strlit("Save preference: ");
    assert("Save preference"@ + ": "@ =~= "Save preference: "@);
}

/// A server is saved after its token and only then, and once saved it is done with; the
/// outcome is that of the step that failed, or of the save.
pub proof fn law_a_token_is_stored_before_its_server(
    secret: Option<(String, String)>,
    config_json: String,
    first: SaveStep,
    stored: Result<(), String>,
    second: SaveStep,
    saved: Result<(), String>,
    third: SaveStep,
)
    requires
        call_ensures(begin_save, (secret, config_json), first),
        call_ensures(next_step, (first, stored), second),
        call_ensures(next_step, (second, saved), third),
    ensures
        secret is None ==> first is Upsert && first->Upsert_config_json@ == config_json@
            && second == SaveStep::Done(stored),
        secret is Some ==> {
            &&& first is StoreSecret
            &&& first->id@ == secret->Some_0.0@
            &&& first->value@ == secret->Some_0.1@
            &&& stored is Ok ==> second is Upsert && second->Upsert_config_json@ == config_json@
                && third == SaveStep::Done(saved)
            &&& stored is Err ==> second is Done && second->Done_0 is Err
                && second->Done_0->Err_0@ == "store token: "@ + stored->Err_0@ && third == second
        },
{
    reveal_strlit(": ");
    reveal_strlit("store token");
    reveal_strlit("store token: ");
    assert("store token"@ + ": "@ =~= "store token: "@);
}

/// What was built is saved where it runs: on the daemon with its token, on this client
/// without one.
pub proof fn law_a_server_is_saved_where_it_runs(
    form: McpForm,
    built: BuiltMcpServer,
    r: Job,
)
    requires
        call_ensures(McpForm::build, (&form,), Ok(built)),
        call_ensures(save_job, (built,), r),
    ensures
        form.runner is Daemon ==> r is SaveServer && r->SaveServer_config_json@
            == built.config_json@ && r->secret == built.secret,
        form.runner is Client ==> r is SaveClientServer && r->SaveClientServer_config_json@
            == built.config_json@,
{
}

/// The toggle of a row asks its own runner for the opposite of what the row shows: it
/// switches a server that is on off, and one that is off on.
pub proof fn law_a_toggle_switches_its_server(
    row: ServerRow,
    daemon: Vec<McpServerView>,
    display: ServerRowDisplay,
    name: String,
    r: Job,
)
    requires
        call_ensures(row_display, (&row, &daemon), display),
        name@ == display.name@,
        call_ensures(toggle_job, (name, display.runner, display.toggle_target), r),
    ensures
        row.runner is Daemon ==> r is ToggleServer && r->ToggleServer_name@ == row.name@
            && r->ToggleServer_enabled == display.toggle_target,
        row.runner is Client ==> r is ToggleClientServer && r->ToggleClientServer_name@
            == row.name@ && r->ToggleClientServer_enabled == display.toggle_target,
        row.runner is Client ==> display.toggle_target == (row.status@ != "enabled"@),
        display.toggle_target ==> display.toggle_label@ == "Enable"@,
        !display.toggle_target ==> display.toggle_label@ == "Disable"@,
{
}

/// Nothing is removed unasked, the first removal of a connection is never forced, and
/// what is removed is what was named, on its own runner.
pub proof fn law_removal_is_asked_for(
    name: String,
    runner: Runner,
    id: String,
    server: Confirmation,
    connection: Confirmation,
)
    requires
        call_ensures(remove_server, (name, runner), server),
        call_ensures(remove_connection, (id,), connection),
    ensures
        server.destructive && connection.destructive,
        server.affirmative@ == "Remove"@ && connection.affirmative@ == "Remove"@,
        server.title@ == "Remove MCP server \""@ + name@ + "\"?"@,
        connection.title@ == "Remove connection \""@ + id@ + "\"?"@,
        runner is Daemon ==> server.job is RemoveServer && server.job->RemoveServer_name@ == name@,
        runner is Client ==> server.job is RemoveClientServer
            && server.job->RemoveClientServer_name@ == name@,
        connection.job is DeleteConnection && connection.job->DeleteConnection_id@ == id@,
        !connection.job->DeleteConnection_force,
{
}

/// A sign-in succeeds where its command does, and otherwise says how it ended.
pub proof fn law_a_sign_in_ends_as_its_command(end: SignInEnd, r: Result<(), String>)
    requires
        call_ensures(sign_in_result, (end,), r),
    ensures
        r is Ok <==> end is Succeeded,
        end is Exited ==> r->Err_0@ == "sign-in exited with "@ + end->Exited_0@,
        end is NotLaunched ==> r->Err_0@ == "failed to launch sign-in: "@ + end->NotLaunched_0@,
{
}

/// A sign-in starts exactly where there is a command, runs that command, and says that
/// it does.
pub proof fn law_a_sign_in_runs_its_command(
    settings: &mut Settings,
    argv: Vec<String>,
    r: Option<Job>,
)
    requires
        call_ensures(Settings::sign_in, (settings, argv), r),
    ensures
        r is Some <==> argv@.len() > 0,
        r is Some ==> r->0 is SignIn && r->0->argv@ == argv@ && final(settings).status@
            == "Launched sign-in - finish in the browser; the list refreshes when it completes."@,
        r is None ==> final(settings).status@ == old(settings).status@,
        final(settings).servers == old(settings).servers,
        final(settings).purposes == old(settings).purposes,
{
}

/// Once work ends, the status line tells what the follow-up says and otherwise stays,
/// and nothing else in the dialog changes by itself.
pub proof fn law_ended_work_moves_the_status_line_only(
    settings: &mut Settings,
    job: Job,
    result: Result<(), String>,
    r: Next,
)
    requires
        call_ensures(Settings::finish, (settings, job, result), r),
    ensures
        result is Ok && !(job is ToggleBuiltin) && !(job is SavePreference) ==> final(settings).status@ == old(settings).status@,
        result is Err && !(job is SavePreference) ==> final(settings).status@ == old(settings).status@,
        result is Err && !(job is SavePreference) && !(job is DeleteConnection) ==> r is Error,
        result is Err ==> !(r is Refresh) && !(r is RefreshServers),
        final(settings).purposes == old(settings).purposes,
        final(settings).servers == old(settings).servers,
        final(settings).voice == old(settings).voice,
        final(settings).general == old(settings).general,
        final(settings).service_accounts == old(settings).service_accounts,
        final(settings).client_servers == old(settings).client_servers,
{
    let f = choose|f: FollowUp| #[trigger]
        follows(job, result_text(result), f) && r == f.next && final(settings).status == (
        match f.status {
            Some(text) => text,
            None => old(settings).status,
        });
}

/// What was read takes its place; what could not be read leaves the old reading and is
/// said.
pub proof fn law_a_failed_read_keeps_the_last_one(
    a: &mut Settings,
    b: &mut Settings,
    c: &mut Settings,
    d: &mut Settings,
    connections: Result<Vec<ConnectionView>, String>,
    purposes: Result<PurposesView, String>,
    accounts: Result<Vec<ServiceAccountView>, String>,
    servers: Result<Vec<McpServerView>, String>,
    views: Vec<McpServerView>,
)
    requires
        call_ensures(Settings::connections_listed, (a, connections), ()),
        call_ensures(Settings::purposes_read, (b, purposes), ()),
        call_ensures(Settings::accounts_listed, (c, accounts), ()),
        call_ensures(Settings::servers_listed, (d, servers), views),
    ensures
        connections is Ok ==> final(a).purposes.connections@ == connections->Ok_0@
            && final(a).status@ == old(a).status@,
        connections is Err ==> final(a).purposes == old(a).purposes && final(a).status@
            == "List connections: "@ + connections->Err_0@,
        purposes is Ok ==> final(b).purposes.purposes == purposes->Ok_0 && final(b).status@
            == old(b).status@,
        purposes is Err ==> final(b).purposes == old(b).purposes && final(b).status@
            == "Get purposes: "@ + purposes->Err_0@,
        accounts is Ok ==> final(c).service_accounts@ == accounts->Ok_0@ && final(c).status@
            == old(c).status@,
        accounts is Err ==> final(c).service_accounts@ == old(c).service_accounts@
            && final(c).status@ == "List service accounts: "@ + accounts->Err_0@,
        servers is Ok ==> views@ == servers->Ok_0@ && final(d).status@ == old(d).status@,
        servers is Err ==> views@.len() == 0 && final(d).status@ == "List MCP servers: "@
            + servers->Err_0@,
        final(d).servers == old(d).servers && final(d).client_servers == old(d).client_servers,
{
    reveal_strlit(": ");
    reveal_strlit("List connections");
    reveal_strlit("List connections: ");
    reveal_strlit("Get purposes");
    reveal_strlit("Get purposes: ");
    reveal_strlit("List service accounts");
    reveal_strlit("List service accounts: ");
    reveal_strlit("List MCP servers");
    reveal_strlit("List MCP servers: ");
    assert("List connections"@ + ": "@ =~= "List connections: "@);
    assert("Get purposes"@ + ": "@ =~= "Get purposes: "@);
    assert("List service accounts"@ + ": "@ =~= "List service accounts: "@);
    assert("List MCP servers"@ + ": "@ =~= "List MCP servers: "@);
}

/// A listing of all models teaches the models of each connection that is in it, in
/// their order, and leaves what is known of the others; a listing that failed teaches
/// nothing and is said.
pub proof fn law_a_listing_teaches_each_connection(
    settings: &mut Settings,
    result: Result<Vec<ModelListing>, String>,
    id: Seq<char>,
)
    requires
        call_ensures(Settings::models_listed, (settings, result), ()),
    ensures
        result is Ok ==> {
            let listings = result->Ok_0@;
            let own = listings.filter(|l: ModelListing| l.connection_id@ == id);
            let now = final(settings).purposes.known(id);
            &&& (exists|i: int|
                0 <= i < listings.len() && (#[trigger] listings[i]).connection_id@ == id)
                ==> now is Some && now->0 is Loaded && now->0->Loaded_0@ == own
            &&& (forall|i: int|
                0 <= i < listings.len() ==> (#[trigger] listings[i]).connection_id@ != id) ==> now
                == old(settings).purposes.known(id)
        },
        result is Err ==> final(settings).purposes == old(settings).purposes
            && final(settings).status@ == "List models: "@ + result->Err_0@,
        result is Ok ==> final(settings).status@ == old(settings).status@,
{
    reveal_strlit(": ");
    reveal_strlit("List models");
    reveal_strlit("List models: ");
    assert("List models"@ + ": "@ =~= "List models: "@);
    if result is Ok {
        let listings = result->Ok_0@;
        let f = |l: ModelListing| l.connection_id@ == id;
        let now = final(settings).purposes.known(id);
        assert(from_connection(id) =~= f);
        assert(of_connection(listings, id) == listings.filter(f));
        if exists|i: int| 0 <= i < listings.len() && (#[trigger] listings[i]).connection_id@ == id {
            let i = choose|i: int|
                0 <= i < listings.len() && (#[trigger] listings[i]).connection_id@ == id;
            listings.lemma_filter_contains(from_connection(id), i);
        }
        if forall|i: int|
            0 <= i < listings.len() ==> (#[trigger] listings[i]).connection_id@ != id {
            if of_connection(listings, id).len() > 0 {
                let l = of_connection(listings, id)[0];
                listings.lemma_filter_pred(from_connection(id), 0);
                assert(of_connection(listings, id).contains(l));
                listings.lemma_filter_contains_rev(from_connection(id), l);
            }
        }
    }
}

/// An answer about one connection's models is remembered for that connection alone,
/// whether it lists them or fails; a failure is also passed on.
pub proof fn law_an_answer_is_remembered(
    settings: &mut Settings,
    id: &str,
    result: Result<Vec<ModelListing>, String>,
    r: Next,
    other: Seq<char>,
)
    requires
        call_ensures(Settings::models_answered, (settings, id, result), r),
    ensures
        result is Ok ==> r is Nothing && final(settings).purposes.known(id@) is Some
            && final(settings).purposes.known(id@)->0 is Loaded && final(settings).purposes.known(id@)->0->Loaded_0@ == result->Ok_0@,
        result is Err ==> {
            &&& r is Error && r->Error_0@ == "List models: "@ + result->Err_0@
            &&& final(settings).purposes.known(id@) is Some
            &&& final(settings).purposes.known(id@)->0 is Failed
            &&& final(settings).purposes.known(id@)->0->Failed_0@ == result->Err_0@
        },
        other != id@ ==> final(settings).purposes.known(other) == old(settings).purposes.known(
            other,
        ),
{
    reveal_strlit(": ");
    reveal_strlit("List models");
    reveal_strlit("List models: ");
    assert("List models"@ + ": "@ =~= "List models: "@);
}

/// Configuring a connection opens it under its id with what the daemon has of it; one
/// that the daemon tells nothing of opens blank, one of an unknown kind says so, and one
/// that is gone does nothing.
pub proof fn law_configuring_opens_the_connection(
    settings: Settings,
    id: &str,
    r: Configure,
    i: int,
)
    requires
        call_ensures(Settings::configure, (&settings, id), r),
        0 <= i < settings.purposes.connections@.len(),
        settings.purposes.connections@[i].id@ == id@,
        forall|j: int|
            0 <= j < i ==> (#[trigger] settings.purposes.connections@[j]).id@ != id@,
    ensures
        ({
            let found = settings.purposes.connections@[i];
            &&& !(r is Missing)
            &&& r is Open ==> r->id@ == id@ && r->connector.wire_name() == found.connector_type@
            &&& r is Open && found.config is Some ==> r->config == found.config->0
            &&& r is Open && found.config is None ==> connector_of(r->config) == r->connector
                && forall|field: Field| #[trigger] config_field(r->config, field) is None
            &&& r is Unknown <==> forall|kind: ConnectorType| #[trigger]
                kind.wire_name() != found.connector_type@
            &&& r is Unknown ==> r->Unknown_0@ == "Unknown connector type: "@
                + found.connector_type@
        }),
{
    lemma_connection_at(settings.purposes.connections@, id@, i);
}

proof fn lemma_connection_at(connections: Seq<ConnectionView>, id: Seq<char>, i: int)
    requires
        0 <= i < connections.len(),
        connections[i].id@ == id,
        forall|j: int| 0 <= j < i ==> (#[trigger] connections[j]).id@ != id,
    ensures
        connection_of(connections, id) == Some(connections[i]),
    decreases i,
{
    if i > 0 {
        let rest = connections.drop_first();
        assert(connections[0].id@ != id);
        assert forall|j: int| 0 <= j < i - 1 implies (#[trigger] rest[j]).id@ != id by {
            assert(connections[j + 1].id@ != id);
        }
        lemma_connection_at(rest, id, i - 1);
    }
}

/// A connection that is not in the list does nothing.
pub proof fn law_a_missing_connection_opens_nothing(settings: Settings, id: &str, r: Configure)
    requires
        call_ensures(Settings::configure, (&settings, id), r),
        forall|j: int|
            0 <= j < settings.purposes.connections@.len() ==> (
            #[trigger] settings.purposes.connections@[j]).id@ != id@,
    ensures
        r is Missing,
{
    lemma_no_connection(settings.purposes.connections@, id@);
}

proof fn lemma_no_connection(connections: Seq<ConnectionView>, id: Seq<char>)
    requires
        forall|j: int| 0 <= j < connections.len() ==> (#[trigger] connections[j]).id@ != id,
    ensures
        connection_of(connections, id) is None,
    decreases connections.len(),
{
    if connections.len() > 0 {
        let rest = connections.drop_first();
        assert(connections[0].id@ != id);
        assert forall|j: int| 0 <= j < rest.len() implies (#[trigger] rest[j]).id@ != id by {
            assert(connections[j + 1].id@ != id);
        }
        lemma_no_connection(rest, id);
    }
}

/// Editing a server opens the one of that name on that runner, as the daemon tells it or
/// as it stands on this client's disk, and nothing where there is none.
pub proof fn law_editing_opens_the_named_server(
    settings: Settings,
    name: &str,
    runner: Runner,
    r: Option<McpForm>,
)
    requires
        call_ensures(Settings::edit_server, (&settings, name, runner), r),
    ensures
        r is Some ==> r->0.editing && r->0.name@ == name@ && r->0.runner == runner,
        runner is Daemon ==> (r is Some <==> exists|i: int|
            0 <= i < settings.servers.daemon@.len() && (
            #[trigger] settings.servers.daemon@[i]).name@ == name@),
        runner is Client ==> (r is Some <==> exists|i: int|
            0 <= i < settings.client_servers@.len() && (
            #[trigger] settings.client_servers@[i]).config.name@ == name@),
        runner is Daemon && r is Some ==> exists|i: int|
            0 <= i < settings.servers.daemon@.len() && (
            #[trigger] settings.servers.daemon@[i]).name@ == name@ && r->0.enabled
                == settings.servers.daemon@[i].enabled && r->0.command@
                == settings.servers.daemon@[i].command@,
        runner is Client && r is Some ==> exists|i: int|
            0 <= i < settings.client_servers@.len() && (
            #[trigger] settings.client_servers@[i]).config.name@ == name@ && r->0.enabled
                == settings.client_servers@[i].enabled && r->0.command@
                == settings.client_servers@[i].config.command@,
{
    law_find_is_complete(settings.servers.daemon@, name@);
    lemma_client_server_found(settings.client_servers@, name@);
    if runner is Daemon && r is Some {
        let view = view_named(settings.servers.daemon@, name@)->0;
        let i = choose|i: int|
            0 <= i < settings.servers.daemon@.len() && settings.servers.daemon@[i] == view;
        assert(settings.servers.daemon@[i].name@ == name@);
    }
    if runner is Client && r is Some {
        let server = client_server_of(settings.client_servers@, name@)->0;
        let i = choose|i: int|
            0 <= i < settings.client_servers@.len() && settings.client_servers@[i] == server;
        assert(settings.client_servers@[i].config.name@ == name@);
    }
}

proof fn lemma_client_server_found(servers: Seq<ClientServer>, name: Seq<char>)
    ensures
        client_server_of(servers, name) is Some <==> exists|i: int|
            0 <= i < servers.len() && (#[trigger] servers[i]).config.name@ == name,
        client_server_of(servers, name) is Some ==> client_server_of(
            servers,
            name,
        )->0.config.name@ == name && servers.contains(client_server_of(servers, name)->0),
    decreases servers.len(),
{
    if servers.len() > 0 {
        let rest = servers.drop_first();
        lemma_client_server_found(rest, name);
        if servers[0].config.name@ == name {
            assert(servers.contains(servers[0]));
        } else {
            if client_server_of(rest, name) is Some {
                let found = client_server_of(rest, name)->0;
                let k = choose|k: int| 0 <= k < rest.len() && rest[k] == found;
                assert(servers[k + 1] == found);
            } else {
                assert forall|i: int| 0 <= i < servers.len() implies (
                #[trigger] servers[i]).config.name@ != name by {
                    if i > 0 {
                        assert(rest[i - 1].config.name@ != name);
                    }
                }
            }
        }
    }
}

/// A new server starts blank, beside the names that are taken on either runner.
pub proof fn law_a_new_server_knows_the_names_taken(settings: Settings, r: NewServer)
    requires
        call_ensures(Settings::add_server, (&settings,), r),
    ensures
        !r.form.editing && r.form.runner is Daemon && r.form.transport is Stdio,
        r.form.enabled && r.form.name@.len() == 0 && r.form.command@.len() == 0,
        r.daemon_names@.len() == settings.servers.daemon@.len(),
        r.client_names@.len() == settings.client_servers@.len(),
        forall|i: int|
            0 <= i < settings.servers.daemon@.len() ==> (#[trigger] r.daemon_names@[i])@
                == settings.servers.daemon@[i].name@,
        forall|i: int|
            0 <= i < settings.client_servers@.len() ==> (#[trigger] r.client_names@[i])@
                == settings.client_servers@[i].config.name@,
{
}

/// Showing the servers shows what was read and keeps the filter and the other tabs.
pub proof fn law_showing_servers_keeps_the_filter(
    settings: &mut Settings,
    daemon: Vec<McpServerView>,
    client: Vec<ClientServer>,
    rows: Vec<ServerRow>,
    is_remote: bool,
    host: Option<String>,
)
    requires
        call_ensures(Settings::show_servers, (settings, daemon, client, rows, is_remote, host), ()),
    ensures
        final(settings).servers.daemon@ == daemon@,
        final(settings).servers.rows@ == rows@,
        final(settings).client_servers@ == client@,
        final(settings).servers.is_remote == is_remote,
        final(settings).servers.host == host,
        final(settings).servers.filter == old(settings).servers.filter,
        final(settings).purposes == old(settings).purposes,
        final(settings).status@ == old(settings).status@,
{
}

/// The user's own changes of the wake word, the voice and the sharing are sent once, and
/// what the tabs already show is never sent.
pub proof fn law_only_the_users_changes_are_sent(
    a: &mut Settings,
    b: &mut Settings,
    c: &mut Settings,
    on: bool,
    index: usize,
    wake: Option<Job>,
    voice: Option<Job>,
    share: Option<Job>,
)
    requires
        call_ensures(Settings::wake_word_toggled, (a, on), wake),
        call_ensures(Settings::voice_picked, (b, index), voice),
        call_ensures(Settings::sharing_toggled, (c, on), share),
    ensures
        wake is Some <==> on != old(a).voice.enabled,
        wake is Some ==> wake->0 is SetWakeWord && wake->0->SetWakeWord_enabled == on,
        final(a).voice.enabled == on,
        voice is Some <==> index < old(b).voice.voice_ids@.len() && old(b).voice.selected
            != Some(index),
        voice is Some ==> voice->0 is SetVoice && voice->0->SetVoice_id@
            == old(b).voice.voice_ids@[index as int]@ && voice->0->speaker == -1,
        voice is Some ==> final(b).voice.selected == Some(index),
        share is Some <==> on != old(c).general.share_client_context,
        share is Some ==> share->0 is SavePreference && share->0->share_client_context == on,
        final(c).general.share_client_context == on,
{
}

/// A voice daemon that is there is shown as it stands, and one that is not leaves the
/// tab off and says why.
pub proof fn law_the_voice_tab_shows_the_daemon(
    settings: &mut Settings,
    snapshot: VoiceSnapshot,
)
    requires
        call_ensures(Settings::show_voice, (settings, &snapshot), ()),
    ensures
        snapshot.available ==> {
            &&& final(settings).voice.enabled == snapshot.enabled
            &&& final(settings).voice.enable_sensitive
            &&& final(settings).voice.voices_sensitive == (snapshot.voices@.len() > 0)
            &&& final(settings).voice.voice_ids@.len() == snapshot.voices@.len()
            &&& forall|i: int|
                0 <= i < snapshot.voices@.len() ==> (
                #[trigger] final(settings).voice.voice_ids@[i])@ == snapshot.voices@[i].id@
        },
        !snapshot.available ==> {
            &&& !final(settings).voice.enabled
            &&& !final(settings).voice.enable_sensitive
            &&& !final(settings).voice.voices_sensitive
            &&& final(settings).voice.status@.len() > 0
        },
        final(settings).status@ == old(settings).status@,
        final(settings).servers == old(settings).servers,
        final(settings).purposes == old(settings).purposes,
{
    reveal_strlit(
        "Voice service not available. Start the voice daemon (org.desktopAssistant.Voice) to enable these controls.",
    );
    if snapshot.available {
        assert forall|i: int| 0 <= i < snapshot.voices@.len() implies (
        #[trigger] final(settings).voice.voice_ids@[i])@ == snapshot.voices@[i].id@ by {
            assert(snapshot.voices@[i] == snapshot.voices@[i]);
        }
    }
}

/// What a voice daemon does not answer counts as off or as nothing.
pub proof fn law_a_silent_voice_daemon_is_off(
    enabled: Option<bool>,
    voices: Option<Vec<VoiceInfo>>,
    current: Option<String>,
    present: VoiceSnapshot,
    absent: VoiceSnapshot,
)
    requires
        call_ensures(VoiceSnapshot::present, (enabled, voices, current), present),
        call_ensures(VoiceSnapshot::absent, (), absent),
    ensures
        present.available && !absent.available,
        enabled is Some ==> present.enabled == enabled->0,
        enabled is None ==> !present.enabled,
        voices is Some ==> present.voices@ == voices->0@,
        voices is None ==> present.voices@.len() == 0,
        present.current_voice == current,
        !absent.enabled && absent.voices@.len() == 0 && absent.current_voice is None,
{
}

/// The dialog opens with each tab as that tab starts by itself, and with nothing read.
pub proof fn law_the_dialog_opens_as_its_tabs_start(
    r: Settings,
    general: GeneralTab,
    voice: VoiceTab,
    servers: McpServersTab,
)
    requires
        call_ensures(Settings::new, (), r),
        call_ensures(GeneralTab::new, (), general),
        call_ensures(VoiceTab::new, (), voice),
        call_ensures(McpServersTab::new, (), servers),
    ensures
        general.share_client_context && r.general.share_client_context,
        !voice.enabled && voice.enable_sensitive && voice.voices_sensitive && voice.selected is None,
        r.voice.enabled == voice.enabled && r.voice.enable_sensitive == voice.enable_sensitive,
        r.voice.voices_sensitive == voice.voices_sensitive && r.voice.selected == voice.selected,
        servers.filter is All && !servers.is_remote && servers.rows@.len() == 0,
        r.servers.filter == servers.filter && r.servers.is_remote == servers.is_remote,
        r.servers.rows@.len() == 0 && r.servers.daemon@.len() == 0,
        r.client_servers@.len() == 0 && r.service_accounts@.len() == 0 && r.status@.len() == 0,
{
}

/// What follows a piece of work is what the dialog does and says: the next step is its
/// next step, and the status line its note, where there is one.
pub proof fn law_the_dialog_does_what_follows(
    settings: &mut Settings,
    job: Job,
    result: Result<(), String>,
    f: FollowUp,
    r: Next,
)
    requires
        call_ensures(follow_up, (job, result), f),
        call_ensures(Settings::finish, (settings, job, result), r),
    ensures
        r is Nothing <==> f.next is Nothing,
        r is Refresh <==> f.next is Refresh,
        r is RefreshServers <==> f.next is RefreshServers,
        r is Error <==> f.next is Error,
        r is Error ==> r->Error_0@ == f.next->Error_0@,
        r is Confirm <==> f.next is Confirm,
        r is Confirm ==> r->Confirm_0.title@ == f.next->Confirm_0.title@
            && r->Confirm_0.detail@ == f.next->Confirm_0.detail@ && r->Confirm_0.affirmative@
            == f.next->Confirm_0.affirmative@ && r->Confirm_0.destructive
            == f.next->Confirm_0.destructive && r->Confirm_0.job is DeleteConnection
            && f.next->Confirm_0.job is DeleteConnection && r->Confirm_0.job->DeleteConnection_id@
            == f.next->Confirm_0.job->DeleteConnection_id@
            && r->Confirm_0.job->DeleteConnection_force
            == f.next->Confirm_0.job->DeleteConnection_force,
        f.status is Some ==> final(settings).status@ == f.status->0@,
        f.status is None ==> final(settings).status@ == old(settings).status@,
{
    let g = choose|g: FollowUp| #[trigger]
        follows(job, result_text(result), g) && r == g.next && final(settings).status == (
        match g.status {
            Some(text) => text,
            None => old(settings).status,
        });
    assert(follows(job, result_text(result), f));
    assert(follows(job, result_text(result), g));
    assert(opt_text(f.status) == opt_text(g.status));
}

/// What is asked before something is removed says what is lost.
pub proof fn law_a_question_says_what_is_lost(
    name: String,
    id: String,
    reason: String,
    daemon: Confirmation,
    client: Confirmation,
    connection: Confirmation,
    refused: FollowUp,
)
    requires
        call_ensures(remove_server, (name, Runner::Daemon), daemon),
        call_ensures(remove_server, (name, Runner::Client), client),
        call_ensures(remove_connection, (id,), connection),
        call_ensures(follow_up, (connection.job, Err(reason)), refused),
    ensures
        daemon.detail@ == "Its tools will no longer be available to the assistant."@,
        client.detail@
            == "This removes the local server definition and drops it from every client surface."@,
        connection.detail@
            == "This will fail if any purpose still references the connection. You will be offered a force-remove on the retry dialog, which re-assigns referencing purposes to the interactive purpose."@,
        refused.next is Confirm,
        refused.next->Confirm_0.detail@ == reason@
            + "\n\nForce-remove will re-assign any referencing purpose to the interactive purpose."@,
        refused.next->Confirm_0.job is DeleteConnection,
        refused.next->Confirm_0.job->DeleteConnection_id@ == id@,
        refused.next->Confirm_0.job->DeleteConnection_force,
{
}

/// Editing a server of the daemon's opens the form that its listing fills.
pub proof fn law_editing_fills_the_form_from_the_listing(
    settings: Settings,
    name: &str,
    i: int,
    form: McpForm,
    r: Option<McpForm>,
)
    requires
        call_ensures(Settings::edit_server, (&settings, name, Runner::Daemon), r),
        0 <= i < settings.servers.daemon@.len(),
        settings.servers.daemon@[i].name@ == name@,
        forall|j: int|
            0 <= j < i ==> (#[trigger] settings.servers.daemon@[j]).name@ != name@,
        call_ensures(McpForm::from_view, (&settings.servers.daemon@[i],), form),
    ensures
        r is Some,
        r->0.editing == form.editing && r->0.runner == form.runner,
        r->0.transport == form.transport && r->0.enabled == form.enabled,
        r->0.name@ == form.name@ && r->0.command@ == form.command@ && r->0.args@ == form.args@,
        r->0.namespace@ == form.namespace@ && r->0.env@.len() == form.env@.len(),
        r->0.url@ == form.url@ && r->0.auth == form.auth,
        r->0.bearer_token@.len() == 0 && form.bearer_token@.len() == 0,
        r->0.oauth_account@ == form.oauth_account@ && r->0.scopes@ == form.scopes@,
{
    lemma_view_is_first(settings.servers.daemon@, name@, i);
    if form.url@.len() == 0 {
        assert(r->0.url@ =~= form.url@);
    }
}

proof fn lemma_view_is_first(daemon: Seq<McpServerView>, name: Seq<char>, i: int)
    requires
        0 <= i < daemon.len(),
        daemon[i].name@ == name,
        forall|j: int| 0 <= j < i ==> (#[trigger] daemon[j]).name@ != name,
    ensures
        view_named(daemon, name) == Some(daemon[i]),
    decreases i,
{
    if i > 0 {
        let rest = daemon.drop_first();
        assert(daemon[0].name@ != name);
        assert forall|j: int| 0 <= j < i - 1 implies (#[trigger] rest[j]).name@ != name by {
            assert(rest[j] == daemon[j + 1]);
        }
        lemma_view_is_first(rest, name, i - 1);
    }
}

/// Editing a server of this client's opens the form that its definition fills.
pub proof fn law_editing_fills_the_form_from_the_definition(
    settings: Settings,
    name: &str,
    i: int,
    form: McpForm,
    r: Option<McpForm>,
)
    requires
        call_ensures(Settings::edit_server, (&settings, name, Runner::Client), r),
        0 <= i < settings.client_servers@.len(),
        settings.client_servers@[i].config.name@ == name@,
        forall|j: int|
            0 <= j < i ==> (#[trigger] settings.client_servers@[j]).config.name@ != name@,
        call_ensures(
            McpForm::from_client_config,
            (&settings.client_servers@[i].config, settings.client_servers@[i].enabled),
            form,
        ),
    ensures
        r is Some,
        r->0.editing == form.editing && r->0.runner == form.runner,
        r->0.transport == form.transport && r->0.enabled == form.enabled,
        r->0.name@ == form.name@ && r->0.command@ == form.command@ && r->0.args@ == form.args@,
        r->0.namespace@ == form.namespace@ && r->0.url@ == form.url@,
        r->0.enabled == settings.client_servers@[i].enabled,
{
    lemma_client_server_is_first(settings.client_servers@, name@, i);
}

proof fn lemma_client_server_is_first(servers: Seq<ClientServer>, name: Seq<char>, i: int)
    requires
        0 <= i < servers.len(),
        servers[i].config.name@ == name,
        forall|j: int| 0 <= j < i ==> (#[trigger] servers[j]).config.name@ != name,
    ensures
        client_server_of(servers, name) == Some(servers[i]),
    decreases i,
{
    if i > 0 {
        let rest = servers.drop_first();
        assert(servers[0].config.name@ != name);
        assert forall|j: int| 0 <= j < i - 1 implies (#[trigger] rest[j]).config.name@ != name by {
            assert(rest[j] == servers[j + 1]);
        }
        lemma_client_server_is_first(rest, name, i - 1);
    }
}

/// The voice tab shows a reading as it shows its voices by itself: every label, and the
/// voice in use; a daemon that is gone is said in words.
pub proof fn law_a_reading_shows_its_voices(
    settings: &mut Settings,
    snapshot: VoiceSnapshot,
    tab: &mut VoiceTab,
    gone: &mut VoiceTab,
    current: Option<&str>,
    i: int,
)
    requires
        call_ensures(Settings::show_voice, (settings, &snapshot), ()),
        current is Some <==> snapshot.current_voice is Some,
        current is Some ==> current->0@ == snapshot.current_voice->0@,
        call_ensures(VoiceTab::set_voices, (tab, &snapshot.voices, current), ()),
        call_ensures(VoiceTab::set_unavailable, (gone,), ()),
        0 <= i < snapshot.voices@.len(),
    ensures
        snapshot.available ==> {
            &&& final(settings).voice.labels@[i]@ == final(tab).labels@[i]@
            &&& final(settings).voice.voice_ids@[i]@ == final(tab).voice_ids@[i]@
            &&& final(settings).voice.status@ == final(tab).status@
            &&& final(settings).voice.selected is Some
            &&& current is Some && snapshot.voices@[i].id@ == current->0@
                ==> final(settings).voice.voice_ids@[final(settings).voice.selected->0 as int]@
                == current->0@
        },
        !snapshot.available ==> final(settings).voice.status@ == final(gone).status@
            && final(settings).voice.labels@ == old(settings).voice.labels@
            && final(settings).voice.selected == old(settings).voice.selected,
{
    let own = snapshot.voices@[i];
    assert(final(tab).labels@[i]@ == voice_label(own) && final(tab).voice_ids@[i]@ == own.id@);
    if snapshot.available {
        assert(final(settings).voice.labels@[i]@ == voice_label(own));
        assert(final(settings).voice.voice_ids@[i]@ == own.id@);
    }
    if snapshot.available && current is Some && snapshot.voices@[i].id@ == current->0@ {
        let voice = final(settings).voice;
        let ids = texts(voice.voice_ids@);
        assert(ids.len() == voice.voice_ids@.len());
        assert(ids[i] == snapshot.voices@[i].id@);
        assert(ids.contains(current->0@));
        assert(shows_current(ids, Some(current->0@), voice.selected->0 as int));
        assert(ids[voice.selected->0 as int] == voice.voice_ids@[voice.selected->0 as int]@);
    }
}

/// What is read for one tab, or done in it, leaves all the others as they were.
pub proof fn law_tabs_do_not_touch_each_other(
    a: &mut Settings,
    b: &mut Settings,
    c: &mut Settings,
    d: &mut Settings,
    e: &mut Settings,
    connections: Result<Vec<ConnectionView>, String>,
    accounts: Result<Vec<ServiceAccountView>, String>,
    snapshot: VoiceSnapshot,
    argv: Vec<String>,
    on: bool,
    signed: Option<Job>,
    shared: Option<Job>,
)
    requires
        call_ensures(Settings::connections_listed, (a, connections), ()),
        call_ensures(Settings::accounts_listed, (b, accounts), ()),
        call_ensures(Settings::show_voice, (c, &snapshot), ()),
        call_ensures(Settings::sign_in, (d, argv), signed),
        call_ensures(Settings::sharing_toggled, (e, on), shared),
    ensures
        *final(a) == (Settings {
            purposes: final(a).purposes,
            status: final(a).status,
            ..*old(a)
        }),
        *final(b) == (Settings {
            service_accounts: final(b).service_accounts,
            status: final(b).status,
            ..*old(b)
        }),
        *final(c) == (Settings { voice: final(c).voice, ..*old(c) }),
        *final(d) == (Settings { status: final(d).status, ..*old(d) }),
        *final(e) == (Settings { general: final(e).general, ..*old(e) }),
{
}

} // verus!
