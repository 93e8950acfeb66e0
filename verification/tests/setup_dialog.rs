use adele_gtk::setup_dialog::{
    dialog_title, groups_shown, save, save_under, username_key, ConnectionProfile, ProtocolConfig,
    SetupError, SetupForm, DEFAULT_URL, PROTOCOLS, PROTO_LOCAL, PROTO_WEBSOCKET, SUBJECT,
};

fn pair(key: &str, value: &str) -> (String, String) {
    (key.to_string(), value.to_string())
}

fn web_form() -> SetupForm {
    SetupForm {
        name: "  Home ".to_string(),
        protocol: PROTO_WEBSOCKET,
        socket_path: "/ignored".to_string(),
        url: " wss://example/ws ".to_string(),
        username: " me ".to_string(),
        password: " pass word ".to_string(),
    }
}

#[test]
fn a_new_profile_starts_on_the_local_socket() {
    let form = SetupForm::prefilled(None, Some("nobody"));
    assert_eq!(form.protocol, PROTO_LOCAL);
    assert_eq!(form.url, DEFAULT_URL);
    assert_eq!(form.username, "");
    assert_eq!(dialog_title(false), "Add Connection");
    assert_eq!(dialog_title(true), "Edit Connection");
    assert_eq!(PROTOCOLS, ["Local socket", "WebSocket"]);
}

#[test]
fn only_the_fields_of_the_protocol_show() {
    assert_eq!(groups_shown(PROTO_LOCAL), (true, false));
    assert_eq!(groups_shown(PROTO_WEBSOCKET), (false, true));
    assert_eq!(groups_shown(7), (false, false));
}

#[test]
fn a_web_profile_puts_its_secrets_into_the_keyring() {
    let saved = save_under(&web_form(), "id-1").unwrap();
    assert_eq!(
        saved.profile,
        ConnectionProfile {
            id: "id-1".to_string(),
            name: "Home".to_string(),
            protocol: ProtocolConfig::Websocket {
                url: "wss://example/ws".to_string(),
                subject: SUBJECT.to_string(),
            },
        }
    );
    assert_eq!(
        saved.secrets,
        vec![pair("id-1-username", "me"), pair("id-1", " pass word ")]
    );
    assert_eq!(username_key("x"), "x-username");
}

#[test]
fn blank_credentials_store_nothing() {
    let form = SetupForm {
        username: "   ".to_string(),
        password: String::new(),
        ..web_form()
    };
    assert!(save_under(&form, "id-1").unwrap().secrets.is_empty());
}

#[test]
fn a_local_profile_stores_no_secret_and_an_optional_path() {
    let form = SetupForm {
        protocol: PROTO_LOCAL,
        socket_path: "  ".to_string(),
        ..web_form()
    };
    let saved = save_under(&form, "id-1").unwrap();
    assert!(saved.secrets.is_empty());
    assert_eq!(saved.profile.protocol, ProtocolConfig::Local { path: None });

    let form = SetupForm {
        socket_path: " /run/sock ".to_string(),
        ..form
    };
    assert_eq!(
        save_under(&form, "id-1").unwrap().profile.protocol,
        ProtocolConfig::Local {
            path: Some("/run/sock".to_string())
        }
    );
}

#[test]
fn what_is_missing_is_named() {
    let nameless = SetupForm {
        name: " ".to_string(),
        url: String::new(),
        ..web_form()
    };
    assert_eq!(save_under(&nameless, "i"), Err(SetupError::NameRequired));
    assert_eq!(
        SetupError::NameRequired.message(),
        "Connection name is required"
    );

    let without_url = SetupForm {
        url: "  ".to_string(),
        ..web_form()
    };
    assert_eq!(save(&without_url, None), Err(SetupError::UrlRequired));
    assert_eq!(
        SetupError::UrlRequired.message(),
        "Server URL is required for WebSocket"
    );
}

#[test]
fn saving_an_opened_profile_unchanged_keeps_it() {
    let profile = save_under(&web_form(), "id-1").unwrap().profile;
    let form = SetupForm::prefilled(Some(&profile), Some("me"));
    assert_eq!(form.username, "me");
    assert_eq!(form.password, "");
    let saved = save(&form, Some("id-1")).unwrap();
    assert_eq!(saved.profile, profile);
    assert_eq!(saved.secrets, vec![pair("id-1-username", "me")]);

    let local = ConnectionProfile {
        id: "id-2".to_string(),
        name: "Here".to_string(),
        protocol: ProtocolConfig::Local {
            path: Some("/run/sock".to_string()),
        },
    };
    let form = SetupForm::prefilled(Some(&local), None);
    assert_eq!(save(&form, Some("id-2")).unwrap().profile, local);
}

#[test]
fn a_new_profile_gets_a_random_id() {
    let one = save(&web_form(), None).unwrap();
    let other = save(&web_form(), None).unwrap();
    assert_ne!(one.profile.id, other.profile.id);
    for saved in [&one, &other] {
        let id: Vec<char> = saved.profile.id.chars().collect();
        assert_eq!(id.len(), 36);
        for (i, c) in id.iter().enumerate() {
            if matches!(i, 8 | 13 | 18 | 23) {
                assert_eq!(*c, '-');
            } else {
                assert!(c.is_ascii_digit() || ('a'..='f').contains(c));
            }
        }
        assert_eq!(id[14], '4');
        assert!(matches!(id[19], '8' | '9' | 'a' | 'b'));
        assert_eq!(saved.secrets[1].0, saved.profile.id);
    }
}
