use adele_gtk::api::{
    ConnectionConfigView, ConnectionView, McpServerConfig, McpServerView, ModelCapabilitiesView,
    ModelInfoView, ModelListing, PurposeConfigView, PurposeKindApi, PurposesView, Runner,
    ServiceAccountView, VoiceInfo,
};
use adele_gtk::connection_config_dialog::ConnectorType;
use adele_gtk::mcp_server_dialog::{BuiltMcpServer, McpTransport};
use adele_gtk::purposes_tab::ModelListState;
use adele_gtk::settings_dialog::{
    begin_save, follow_up, next_step, remove_connection, remove_server, save_job, sign_in_result,
    toggle_job, ClientServer, Configure, FollowUp, Job, Next, SaveStep, Settings, SignInEnd,
    VoiceSnapshot,
};

fn text(s: &str) -> String {
    s.to_string()
}

fn delete(force: bool) -> Job {
    Job::DeleteConnection {
        id: text("bedrock"),
        force,
    }
}

fn failed(reason: &str) -> Result<(), String> {
    Err(text(reason))
}

fn error_of(job: Job) -> String {
    match follow_up(job, failed("no")) {
        FollowUp {
            status: None,
            next: Next::Error(message),
        } => message,
        other => panic!("{other:?}"),
    }
}

fn ollama() -> ConnectionConfigView {
    ConnectionConfigView::Ollama {
        base_url: Some(text("http://localhost:11434")),
        connect_timeout_secs: None,
        stream_timeout_secs: Some(9),
        keep_warm: Some(true),
        max_context_tokens: None,
    }
}

fn connection(id: &str, kind: &str, config: Option<ConnectionConfigView>) -> ConnectionView {
    ConnectionView {
        id: text(id),
        connector_type: text(kind),
        config,
    }
}

fn listing(connection: &str, id: &str) -> ModelListing {
    ModelListing {
        connection_id: text(connection),
        connection_label: text(connection),
        model: ModelInfoView {
            id: text(id),
            display_name: String::new(),
            capabilities: ModelCapabilitiesView { embedding: true },
        },
    }
}

fn server(name: &str) -> McpServerConfig {
    McpServerConfig {
        name: text(name),
        command: text("cmd"),
        args: Vec::new(),
        namespace: None,
        env: Vec::new(),
        http: None,
    }
}

fn models_of(settings: &Settings, id: &str) -> Option<Vec<String>> {
    settings
        .purposes
        .models_by_connection
        .iter()
        .find(|(known, _)| known == id)
        .and_then(|(_, state)| match state {
            ModelListState::Loaded(list) => {
                Some(list.iter().map(|l| l.model.id.clone()).collect())
            }
            _ => None,
        })
}

#[test]
fn every_failure_is_named() {
    let config = || PurposeConfigView {
        connection: text("c"),
        model: text("m"),
        effort: None,
        max_context_tokens: None,
    };
    let name = || text("n");
    let cases = vec![
        (
            Job::CreateConnection { id: name(), config: ollama() },
            "Create connection: no",
        ),
        (
            Job::UpdateConnection { id: name(), config: ollama() },
            "Update connection: no",
        ),
        (delete(true), "Delete connection: no"),
        (Job::RefreshModels { id: name() }, "Refresh models: no"),
        (
            Job::SetPurpose { purpose: PurposeKindApi::Voice, binding: config() },
            "Set purpose: no",
        ),
        (
            Job::SaveServer { secret: None, config_json: name() },
            "Save MCP server: no",
        ),
        (
            Job::ToggleServer { name: name(), enabled: true },
            "Toggle MCP server: no",
        ),
        (Job::RemoveServer { name: name() }, "Remove MCP server: no"),
        (
            Job::SaveClientServer { config_json: name() },
            "Save client MCP server: no",
        ),
        (
            Job::ToggleClientServer { name: name(), enabled: false },
            "Toggle client MCP server: no",
        ),
        (
            Job::RemoveClientServer { name: name() },
            "Remove client MCP server: no",
        ),
        (
            Job::ToggleBuiltin { name: name(), disabled: true },
            "Toggle built-in MCP server: no",
        ),
        (Job::SignIn { argv: vec![name()] }, "MCP sign-in: no"),
        (Job::SetWakeWord { enabled: true }, "Set wake word: no"),
        (Job::SetVoice { id: name(), speaker: -1 }, "Set voice: no"),
    ];
    for (job, expected) in cases {
        assert_eq!(error_of(job), expected);
    }
    assert_eq!(
        follow_up(
            Job::SavePreference { share_client_context: true },
            failed("no")
        ),
        FollowUp {
            status: Some(text("Save preference: no")),
            next: Next::Nothing,
        }
    );
}

#[test]
fn a_refused_removal_can_be_forced_once() {
    let first = follow_up(delete(false), failed("in use"));
    let Next::Confirm(question) = first.next else {
        panic!("a refused removal is asked about");
    };
    assert_eq!(question.title, "Cannot remove \"bedrock\"");
    assert_eq!(
        question.detail,
        "in use\n\nForce-remove will re-assign any referencing purpose to the interactive purpose."
    );
    assert_eq!(question.affirmative, "Force remove");
    assert!(question.destructive);
    assert_eq!(question.job, delete(true));
    assert_eq!(error_of(question.job), "Delete connection: no");
    assert_eq!(follow_up(delete(true), Ok(())).next, Next::Refresh);
}

#[test]
fn what_went_well_is_fetched_again() {
    assert_eq!(
        follow_up(Job::ToggleServer { name: text("n"), enabled: true }, Ok(())),
        FollowUp { status: None, next: Next::RefreshServers }
    );
    assert_eq!(
        follow_up(Job::RefreshModels { id: text("n") }, Ok(())),
        FollowUp { status: None, next: Next::Nothing }
    );
    assert_eq!(
        follow_up(Job::ToggleBuiltin { name: text("web"), disabled: false }, Ok(())),
        FollowUp {
            status: Some(text(
                "Built-in \"web\" enabled - applies after the client restarts."
            )),
            next: Next::RefreshServers,
        }
    );
    assert_eq!(
        follow_up(Job::SavePreference { share_client_context: false }, Ok(())).status,
        Some(text(
            "Device-info sharing preference saved - applies on the next connect."
        ))
    );
}

#[test]
fn the_token_is_stored_before_the_server_is_saved() {
    let step = begin_save(Some((text("s_token"), text("t"))), text("{}"));
    assert_eq!(
        step,
        SaveStep::StoreSecret { id: text("s_token"), value: text("t"), config_json: text("{}") }
    );
    let step = next_step(step, Ok(()));
    assert_eq!(step, SaveStep::Upsert { config_json: text("{}") });
    assert_eq!(next_step(step, failed("down")), SaveStep::Done(failed("down")));

    let step = begin_save(Some((text("s_token"), text("t"))), text("{}"));
    assert_eq!(
        next_step(step, failed("locked")),
        SaveStep::Done(failed("store token: locked"))
    );
    assert_eq!(
        begin_save(None, text("{}")),
        SaveStep::Upsert { config_json: text("{}") }
    );
}

#[test]
fn work_on_a_server_goes_to_its_own_side() {
    let built = |runner| BuiltMcpServer {
        editing: false,
        runner,
        name: text("n"),
        config_json: text("{}"),
        secret: Some((text("n_token"), text("t"))),
    };
    assert_eq!(
        save_job(built(Runner::Daemon)),
        Job::SaveServer {
            secret: Some((text("n_token"), text("t"))),
            config_json: text("{}"),
        }
    );
    assert_eq!(
        save_job(built(Runner::Client)),
        Job::SaveClientServer { config_json: text("{}") }
    );
    assert_eq!(
        toggle_job(text("n"), Runner::Client, true),
        Job::ToggleClientServer { name: text("n"), enabled: true }
    );
    let question = remove_server(text("n"), Runner::Daemon);
    assert_eq!(question.title, "Remove MCP server \"n\"?");
    assert_eq!(
        question.detail,
        "Its tools will no longer be available to the assistant."
    );
    assert_eq!(question.job, Job::RemoveServer { name: text("n") });
    assert_eq!(
        remove_server(text("n"), Runner::Client).job,
        Job::RemoveClientServer { name: text("n") }
    );
    let question = remove_connection(text("c"));
    assert_eq!(question.title, "Remove connection \"c\"?");
    assert_eq!(
        question.job,
        Job::DeleteConnection { id: text("c"), force: false }
    );
}

#[test]
fn a_sign_in_tells_how_it_ended() {
    assert_eq!(sign_in_result(SignInEnd::Succeeded), Ok(()));
    assert_eq!(
        sign_in_result(SignInEnd::Exited(text("exit status: 1"))),
        failed("sign-in exited with exit status: 1")
    );
    assert_eq!(
        sign_in_result(SignInEnd::NotLaunched(text("not found"))),
        failed("failed to launch sign-in: not found")
    );
    let mut settings = Settings::new();
    assert_eq!(settings.sign_in(Vec::new()), None);
    assert_eq!(settings.status, "");
    assert_eq!(
        settings.sign_in(vec![text("daemon"), text("--login")]),
        Some(Job::SignIn { argv: vec![text("daemon"), text("--login")] })
    );
    assert_eq!(
        settings.status,
        "Launched sign-in - finish in the browser; the list refreshes when it completes."
    );
}

#[test]
fn fetched_lists_reach_the_tabs_and_failures_the_status_line() {
    let mut settings = Settings::new();
    settings.connections_listed(Ok(vec![connection("o", "ollama", None)]));
    assert_eq!(settings.purposes.connections.len(), 1);
    settings.connections_listed(Err(text("down")));
    assert_eq!(settings.status, "List connections: down");
    assert_eq!(settings.purposes.connections.len(), 1);
    settings.purposes_read(Ok(PurposesView::default()));
    settings.purposes_read(Err(text("down")));
    assert_eq!(settings.status, "Get purposes: down");
    settings.accounts_listed(Ok(vec![ServiceAccountView {
        id: text("a"),
        display_name: text("A"),
        authorized: true,
    }]));
    settings.accounts_listed(Err(text("down")));
    assert_eq!(settings.status, "List service accounts: down");
    assert_eq!(settings.service_accounts.len(), 1);
    assert!(settings.servers_listed(Err(text("down"))).is_empty());
    assert_eq!(settings.status, "List MCP servers: down");
}

#[test]
fn each_connection_learns_its_own_models() {
    let mut settings = Settings::new();
    settings.models_listed(Ok(vec![
        listing("b", "one"),
        listing("a", "two"),
        listing("b", "three"),
    ]));
    assert_eq!(models_of(&settings, "a"), Some(vec![text("two")]));
    assert_eq!(
        models_of(&settings, "b"),
        Some(vec![text("one"), text("three")])
    );
    settings.models_listed(Ok(vec![listing("a", "new")]));
    assert_eq!(models_of(&settings, "a"), Some(vec![text("new")]));
    assert_eq!(
        models_of(&settings, "b"),
        Some(vec![text("one"), text("three")])
    );
    settings.models_listed(Err(text("down")));
    assert_eq!(settings.status, "List models: down");
}

#[test]
fn a_connection_that_cannot_list_its_models_is_remembered() {
    let mut settings = Settings::new();
    assert_eq!(
        settings.models_answered("a", Err(text("not live"))),
        Next::Error(text("List models: not live"))
    );
    assert_eq!(
        settings.purposes.models_by_connection,
        vec![(text("a"), ModelListState::Failed(text("not live")))]
    );
    assert_eq!(
        settings.models_answered("a", Ok(vec![listing("a", "m")])),
        Next::Nothing
    );
    assert_eq!(models_of(&settings, "a"), Some(vec![text("m")]));
}

#[test]
fn a_connection_opens_with_what_the_daemon_echoed() {
    let mut settings = Settings::new();
    settings.connections_listed(Ok(vec![
        connection("o", "ollama", Some(ollama())),
        connection("blank", "bedrock", None),
        connection("odd", "teapot", None),
    ]));
    assert_eq!(
        settings.configure("o"),
        Configure::Open {
            connector: ConnectorType::Ollama,
            id: text("o"),
            config: ollama(),
        }
    );
    assert_eq!(
        settings.configure("blank"),
        Configure::Open {
            connector: ConnectorType::Bedrock,
            id: text("blank"),
            config: ConnectorType::Bedrock.empty_config(),
        }
    );
    assert_eq!(
        settings.configure("odd"),
        Configure::Unknown(text("Unknown connector type: teapot"))
    );
    assert_eq!(settings.configure("gone"), Configure::Missing);
}

#[test]
fn a_server_is_edited_from_its_own_side() {
    let mut settings = Settings::new();
    let view = McpServerView {
        name: text("files"),
        command: text("daemon-files"),
        transport: text("stdio"),
        enabled: true,
        ..McpServerView::default()
    };
    settings.show_servers(
        vec![view],
        vec![ClientServer { config: server("files"), enabled: false }],
        Vec::new(),
        true,
        Some(text("host")),
    );
    let form = settings.edit_server("files", Runner::Daemon).unwrap();
    assert_eq!(form.command, "daemon-files");
    assert!(form.enabled);
    let form = settings.edit_server("files", Runner::Client).unwrap();
    assert_eq!(form.command, "cmd");
    assert_eq!(form.runner, Runner::Client);
    assert!(!form.enabled);
    assert!(settings.edit_server("gone", Runner::Daemon).is_none());
    assert!(settings.edit_server("gone", Runner::Client).is_none());

    let new = settings.add_server();
    assert_eq!(new.form.transport, McpTransport::Stdio);
    assert!(!new.form.editing);
    assert_eq!(new.daemon_names, vec!["files"]);
    assert_eq!(new.client_names, vec!["files"]);
}

#[test]
fn the_voice_tab_follows_the_voice_daemon() {
    let voice = || VoiceInfo {
        id: text("amy"),
        display_name: text("Amy"),
        language: text("en"),
        num_speakers: 1,
    };
    let mut settings = Settings::new();
    settings.show_voice(&VoiceSnapshot::present(
        Some(true),
        Some(vec![voice()]),
        Some(text("amy")),
    ));
    assert!(settings.voice.enabled);
    assert_eq!(settings.voice.labels, vec!["Amy (en)"]);
    assert_eq!(settings.voice_picked(0), None);
    assert_eq!(settings.wake_word_toggled(true), None);
    assert_eq!(
        settings.wake_word_toggled(false),
        Some(Job::SetWakeWord { enabled: false })
    );

    settings.show_voice(&VoiceSnapshot::present(None, None, None));
    assert!(!settings.voice.enabled);
    assert!(!settings.voice.voices_sensitive);

    settings.show_voice(&VoiceSnapshot::absent());
    assert!(!settings.voice.enable_sensitive);
    assert!(settings.voice.status.starts_with("Voice service not available."));

    settings.show_voice(&VoiceSnapshot::present(
        Some(false),
        Some(vec![voice(), VoiceInfo { id: text("bob"), ..voice() }]),
        Some(text("amy")),
    ));
    assert_eq!(
        settings.voice_picked(1),
        Some(Job::SetVoice { id: text("bob"), speaker: -1 })
    );
}

#[test]
fn the_dialog_says_what_a_finished_job_tells() {
    let mut settings = Settings::new();
    assert_eq!(settings.sharing_toggled(true), None);
    assert_eq!(
        settings.sharing_toggled(false),
        Some(Job::SavePreference { share_client_context: false })
    );
    let next = settings.finish(Job::SavePreference { share_client_context: false }, Ok(()));
    assert_eq!(next, Next::Nothing);
    assert!(settings.status.starts_with("Device-info sharing preference saved"));
    let next = settings.finish(Job::SetWakeWord { enabled: true }, failed("bus"));
    assert_eq!(next, Next::Error(text("Set wake word: bus")));
    assert!(settings.status.starts_with("Device-info sharing preference saved"));
}
