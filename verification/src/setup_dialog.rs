//! The dialog that adds or edits a connection profile.

use crate::text::{opt_text, trim, trimmed};
use vstd::prelude::*;

verus! {

/// The protocol selector's entries.
pub const PROTOCOLS: [&'static str; 2] = ["Local socket", "WebSocket"];

/// The position of "Local socket".
pub const PROTO_LOCAL: u32 = 0;

/// The position of "WebSocket".
pub const PROTO_WEBSOCKET: u32 = 1;

/// The address that a new profile starts from.
pub const DEFAULT_URL: &'static str = "wss://127.0.0.1:11339/ws";

/// The subject that a WebSocket profile signs in as.
pub const SUBJECT: &'static str = "desktop-tui";

/// How the daemon is reached.
#[derive(Debug, PartialEq, Eq)]
pub enum ProtocolConfig {
    /// A Unix socket, at the default place unless a path is given.
    Local { path: Option<String> },
    Websocket { url: String, subject: String },
}

/// A stored way to reach a daemon.
#[derive(Debug, PartialEq, Eq)]
pub struct ConnectionProfile {
    pub id: String,
    pub name: String,
    pub protocol: ProtocolConfig,
}

/// What the dialog's fields hold.
#[derive(Debug, PartialEq, Eq)]
pub struct SetupForm {
    pub name: String,
    /// The position of the protocol selector.
    pub protocol: u32,
    pub socket_path: String,
    pub url: String,
    pub username: String,
    pub password: String,
}

/// Why a form cannot be saved.
#[derive(Debug, Clone, Copy, PartialEq, Eq, Structural)]
pub enum SetupError {
    NameRequired,
    UrlRequired,
}

impl SetupError {
    /// What the dialog says.
    pub fn message(self) -> (r: &'static str)
        ensures
            r@ == (match self {
                SetupError::NameRequired => "Connection name is required"@,
                SetupError::UrlRequired => "Server URL is required for WebSocket"@,
            }),
    {
        match self {
            SetupError::NameRequired => "Connection name is required",
            SetupError::UrlRequired => "Server URL is required for WebSocket",
        }
    }
}

/// What saving a form does: the secrets go to the keyring, each under its key and in
/// this order, and the profile, which holds none of them, to the profile store.
#[derive(Debug, PartialEq, Eq)]
pub struct SetupSave {
    pub profile: ConnectionProfile,
    pub secrets: Vec<(String, String)>,
}

/// The dialog's title.
pub fn dialog_title(is_edit: bool) -> (r: &'static str)
    ensures
        r@ == (if is_edit {
            "Edit Connection"@
        } else {
            "Add Connection"@
        }),
{
    if is_edit {
        "Edit Connection"
    } else {
        "Add Connection"
    }
}

/// Which of the two groups of fields are shown: the local one and the WebSocket one.
pub fn groups_shown(protocol: u32) -> (r: (bool, bool))
    ensures
        r.0 == (protocol == PROTO_LOCAL),
        r.1 == (protocol == PROTO_WEBSOCKET),
{
    (protocol == PROTO_LOCAL, protocol == PROTO_WEBSOCKET)
}

/// The keyring key of a profile's username.
pub open spec fn username_key_of(id: Seq<char>) -> Seq<char> {
    id + "-username"@
}

/// The keyring key of a profile's username. The password stands under the id itself.
pub fn username_key(id: &str) -> (r: String)
    ensures
        r@ == username_key_of(id@),
{
    let mut key = id.to_owned();
    key.append("-username");
    key
}

/// What the fields hold when the dialog opens on a profile, or on none.
pub open spec fn is_prefilled(
    existing: Option<ConnectionProfile>,
    username: Option<Seq<char>>,
    form: SetupForm,
) -> bool {
    &&& form.password@.len() == 0
    &&& match existing {
        None => {
            &&& form.name@.len() == 0
            &&& form.protocol == PROTO_LOCAL
            &&& form.socket_path@.len() == 0
            &&& form.url@ == DEFAULT_URL@
            &&& form.username@.len() == 0
        },
        Some(profile) => {
            &&& form.name@ == profile.name@
            &&& form.username@ == (match username {
                Some(text) => text,
                None => Seq::empty(),
            })
            &&& match profile.protocol {
                ProtocolConfig::Local { path } => {
                    &&& form.protocol == PROTO_LOCAL
                    &&& form.socket_path@ == (match path {
                        Some(p) => p@,
                        None => Seq::empty(),
                    })
                    &&& form.url@ == DEFAULT_URL@
                },
                ProtocolConfig::Websocket { url, .. } => {
                    &&& form.protocol == PROTO_WEBSOCKET
                    &&& form.socket_path@.len() == 0
                    &&& form.url@ == url@
                },
            }
        },
    }
}

impl SetupForm {
    /// The fields when the dialog opens. `username` is what the keyring holds for the
    /// profile. A new profile defaults to the local socket; a password is never shown.
    pub fn prefilled(existing: Option<&ConnectionProfile>, username: Option<&str>) -> (r: Self)
        ensures
            is_prefilled(
                match existing {
                    Some(profile) => Some(*profile),
                    None => None,
                },
                match username {
                    Some(text) => Some(text@),
                    None => None,
                },
                r,
            ),
    {
        let mut form = SetupForm {
            name: String::new(),
            protocol: PROTO_LOCAL,
            socket_path: String::new(),
            url: DEFAULT_URL.to_owned(),
            username: String::new(),
            password: String::new(),
        };
        match existing {
            None => {},
            Some(profile) => {
                form.name = profile.name.clone();
                match &profile.protocol {
                    ProtocolConfig::Local { path } => {
                        match path {
                            Some(p) => {
                                form.socket_path = p.clone();
                            },
                            None => {},
                        }
                    },
                    ProtocolConfig::Websocket { url, .. } => {
                        form.protocol = PROTO_WEBSOCKET;
                        form.url = url.clone();
                    },
                }
                match username {
                    Some(text) => {
                        form.username = text.to_owned();
                    },
                    None => {},
                }
            },
        }
        form
    }
}

/// The reason that a form cannot be saved, where there is one.
pub open spec fn flaw(form: SetupForm) -> Option<SetupError> {
    if trimmed(form.name@).len() == 0 {
        Some(SetupError::NameRequired)
    } else if form.protocol == PROTO_WEBSOCKET && trimmed(form.url@).len() == 0 {
        Some(SetupError::UrlRequired)
    } else {
        None
    }
}

/// The secrets that a form puts into the keyring.
pub open spec fn secrets_of(form: SetupForm, id: Seq<char>) -> Seq<(Seq<char>, Seq<char>)> {
    let username = trimmed(form.username@);
    if form.protocol == PROTO_WEBSOCKET {
        (if username.len() > 0 {
            seq![(username_key_of(id), username)]
        } else {
            Seq::empty()
        }) + (if form.password@.len() > 0 {
            seq![(id, form.password@)]
        } else {
            Seq::empty()
        })
    } else {
        Seq::empty()
    }
}

/// The protocol is the one that the form describes.
pub open spec fn is_protocol_of(form: SetupForm, protocol: ProtocolConfig) -> bool {
    match protocol {
        ProtocolConfig::Websocket { url, subject } => {
            &&& form.protocol == PROTO_WEBSOCKET
            &&& url@ == trimmed(form.url@)
            &&& subject@ == SUBJECT@
        },
        ProtocolConfig::Local { path } => {
            &&& form.protocol != PROTO_WEBSOCKET
            &&& opt_text(path) == (if trimmed(form.socket_path@).len() > 0 {
                Some(trimmed(form.socket_path@))
            } else {
                None
            })
        },
    }
}

/// A key and its secret as texts.
pub open spec fn secret_texts(secrets: Seq<(String, String)>) -> Seq<(Seq<char>, Seq<char>)> {
    secrets.map_values(|s: (String, String)| (s.0@, s.1@))
}

/// `save` is what saving a form without a flaw under `id` does.
pub open spec fn is_save_of(form: SetupForm, id: Seq<char>, save: SetupSave) -> bool {
    &&& save.profile.id@ == id
    &&& save.profile.name@ == trimmed(form.name@)
    &&& is_protocol_of(form, save.profile.protocol)
    &&& secret_texts(save.secrets@) == secrets_of(form, id)
}

/// Save a form under an id.
pub fn save_under(form: &SetupForm, id: &str) -> (r: Result<SetupSave, SetupError>)
    ensures
        match r {
            Err(e) => flaw(*form) == Some(e),
            Ok(save) => flaw(*form) is None && is_save_of(*form, id@, save),
        },
{
    let name = trim(form.name.as_str());
    if name.is_empty() {
        return Err(SetupError::NameRequired);
    }
    let mut secrets: Vec<(String, String)> = Vec::new();
    let protocol = if form.protocol == PROTO_WEBSOCKET {
        let url = trim(form.url.as_str());
        if url.is_empty() {
            return Err(SetupError::UrlRequired);
        }
        let username = trim(form.username.as_str());
        if !username.is_empty() {
            secrets.push((username_key(id), username.to_owned()));
        }
        if !form.password.as_str().is_empty() {
            secrets.push((id.to_owned(), form.password.clone()));
        }
        ProtocolConfig::Websocket { url: url.to_owned(), subject: SUBJECT.to_owned() }
    } else {
        let raw = trim(form.socket_path.as_str());
        ProtocolConfig::Local {
            path: if raw.is_empty() {
                None
            } else {
                Some(raw.to_owned())
            },
        }
    };
    assert(secret_texts(secrets@) =~= secrets_of(*form, id@));
    Ok(
        SetupSave {
            profile: ConnectionProfile { id: id.to_owned(), name: name.to_owned(), protocol },
            secrets,
        },
    )
}

/// A lower-case hexadecimal digit.
pub open spec fn is_hex_digit(c: char) -> bool {
    '0' <= c <= '9' || 'a' <= c <= 'f'
}

/// The text of a random id: hyphenated lower-case hexadecimal digits with the version
/// and the variant in their places.
pub open spec fn is_random_id(s: Seq<char>) -> bool {
    &&& s.len() == 36
    &&& forall|i: int|
        0 <= i < 36 ==> if i == 8 || i == 13 || i == 18 || i == 23 {
            #[trigger] s[i] == '-'
        } else {
            is_hex_digit(s[i])
        }
    &&& s[14] == '4'
    &&& s[19] == '8' || s[19] == '9' || s[19] == 'a' || s[19] == 'b'
}

/// A new id from `uuid::Uuid::new_v4`, as its `Display` writes it: 36 characters,
/// with hyphens after the first 8, 12, 16 and 20 lower-case hexadecimal digits, the
/// version 4 and the variant of RFC 4122. Which id it is rests on chance, and that it
/// differs from every other is left unsaid.
#[verifier::external_body]
fn random_id() -> (r: String)
    ensures
        is_random_id(r@),
{
    uuid::Uuid::new_v4().to_string()
}

/// Save the dialog: under the profile's own id where one is edited, else under a new
/// one.
pub fn save(form: &SetupForm, existing_id: Option<&str>) -> (r: Result<SetupSave, SetupError>)
    ensures
        match r {
            Err(e) => flaw(*form) == Some(e),
            Ok(save) => {
                &&& flaw(*form) is None
                &&& is_save_of(*form, save.profile.id@, save)
                &&& existing_id is Some ==> save.profile.id@ == existing_id->0@
                &&& existing_id is None ==> is_random_id(save.profile.id@)
            },
        },
{
    match existing_id {
        Some(id) => save_under(form, id),
        None => {
            let id = random_id();
            save_under(form, id.as_str())
        },
    }
}

/// Credentials go to the keyring and never into the profile: what the profile holds
/// does not depend on them.
pub proof fn law_the_profile_holds_no_secret(
    a: SetupForm,
    b: SetupForm,
    id: Seq<char>,
    profile: ConnectionProfile,
    secrets: Vec<(String, String)>,
    other: Vec<(String, String)>,
)
    requires
        b == (SetupForm { username: b.username, password: b.password, ..a }),
        is_save_of(a, id, (SetupSave { profile, secrets })),
        secret_texts(other@) == secrets_of(b, id),
    ensures
        flaw(b) == flaw(a),
        is_save_of(b, id, (SetupSave { profile, secrets: other })),
{
}

/// A clean text: not empty, and without white space around it.
pub open spec fn is_clean(s: Seq<char>) -> bool {
    s.len() > 0 && trimmed(s) == s
}

/// Opening a profile and saving it unchanged keeps it. What the dialog cannot hold is
/// left out: white space around a text, an empty text, and another subject.
pub proof fn law_saving_unchanged_keeps_the_profile(
    profile: ConnectionProfile,
    username: Option<Seq<char>>,
    form: SetupForm,
    save: SetupSave,
)
    requires
        is_clean(profile.name@),
        match profile.protocol {
            ProtocolConfig::Local { path } => path is Some ==> is_clean(path->0@),
            ProtocolConfig::Websocket { url, subject } => is_clean(url@) && subject@ == SUBJECT@,
        },
        is_prefilled(Some(profile), username, form),
        is_save_of(form, profile.id@, save),
    ensures
        flaw(form) is None,
        save.profile.id@ == profile.id@,
        save.profile.name@ == profile.name@,
        match (save.profile.protocol, profile.protocol) {
            (
                ProtocolConfig::Local { path: now },
                ProtocolConfig::Local { path: before },
            ) => opt_text(now) == opt_text(before),
            (
                ProtocolConfig::Websocket { url: now, subject },
                ProtocolConfig::Websocket { url: before, subject: had },
            ) => now@ == before@ && subject@ == had@,
            _ => false,
        },
        forall|i: int|
            0 <= i < save.secrets@.len() ==> (#[trigger] save.secrets@[i]).0@ == username_key_of(
                profile.id@,
            ),
{
    assert(trimmed(Seq::<char>::empty()) =~= Seq::<char>::empty());
    assert forall|i: int| 0 <= i < save.secrets@.len() implies (
    #[trigger] save.secrets@[i]).0@ == username_key_of(profile.id@) by {
        assert(secret_texts(save.secrets@).len() == save.secrets@.len());
        assert(secret_texts(save.secrets@)[i].0 == save.secrets@[i].0@);
        assert(secrets_of(form, profile.id@).len() <= 1);
    }
}

/// A connection is saved exactly where it has a name and, over the network, a URL; the
/// name is missed first.
pub proof fn law_a_connection_needs_a_name_and_a_url(
    form: SetupForm,
    id: &str,
    r: Result<SetupSave, SetupError>,
    again: Result<SetupSave, SetupError>,
)
    requires
        call_ensures(save_under, (&form, id), r),
        call_ensures(save, (&form, Some(id)), again),
    ensures
        r is Ok <==> trimmed(form.name@).len() > 0 && (form.protocol == 1 ==> trimmed(
            form.url@,
        ).len() > 0),
        trimmed(form.name@).len() == 0 ==> r->Err_0 is NameRequired,
        trimmed(form.name@).len() > 0 && r is Err ==> r->Err_0 is UrlRequired,
        again is Ok <==> r is Ok,
        again is Err ==> again->Err_0 == r->Err_0,
{
}

/// What is saved is the trimmed name under the id, and the address of the protocol that
/// was chosen: the socket's path, where there is one, or the URL.
pub proof fn law_the_profile_is_what_was_typed(
    form: SetupForm,
    id: &str,
    r: Result<SetupSave, SetupError>,
)
    requires
        call_ensures(save_under, (&form, id), r),
        r is Ok,
    ensures
        r->Ok_0.profile.id@ == id@,
        r->Ok_0.profile.name@ == trimmed(form.name@),
        r->Ok_0.profile.protocol is Websocket <==> form.protocol == 1,
        r->Ok_0.profile.protocol is Websocket ==> r->Ok_0.profile.protocol->url@ == trimmed(
            form.url@,
        ) && r->Ok_0.profile.protocol->subject@ == "desktop-tui"@,
        r->Ok_0.profile.protocol is Local ==> (r->Ok_0.profile.protocol->path is Some <==> trimmed(
            form.socket_path@,
        ).len() > 0),
        r->Ok_0.profile.protocol is Local && r->Ok_0.profile.protocol->path is Some
            ==> r->Ok_0.profile.protocol->path->0@ == trimmed(form.socket_path@),
{
}

/// Credentials are stored for a network connection only, and each only where it was
/// typed: the password under the id as it is, the user name trimmed and beside it.
pub proof fn law_credentials_are_stored_by_profile(
    form: SetupForm,
    id: &str,
    r: Result<SetupSave, SetupError>,
    key: String,
    k: Seq<char>,
    v: Seq<char>,
)
    requires
        call_ensures(save_under, (&form, id), r),
        call_ensures(username_key, (id,), key),
        r is Ok,
    ensures
        key@ == id@ + "-username"@,
        (exists|i: int|
            0 <= i < r->Ok_0.secrets@.len() && (#[trigger] r->Ok_0.secrets@[i]).0@ == k
                && r->Ok_0.secrets@[i].1@ == v) <==> form.protocol == 1 && ({
            ||| k == id@ && v == form.password@ && form.password@.len() > 0
            ||| k == id@ + "-username"@ && v == trimmed(form.username@) && trimmed(
                form.username@,
            ).len() > 0
        }),
{
    let stored = secret_texts(r->Ok_0.secrets@);
    assert(stored.len() == r->Ok_0.secrets@.len());
    assert forall|i: int| 0 <= i < stored.len() implies #[trigger] stored[i] == (
        r->Ok_0.secrets@[i].0@,
        r->Ok_0.secrets@[i].1@,
    ) by {}
    let user = trimmed(form.username@);
    let wanted = secrets_of(form, id@);
    if form.protocol == 1 {
        if k == id@ && v == form.password@ && form.password@.len() > 0 {
            let i = wanted.len() - 1;
            assert(stored[i] == (id@, form.password@));
            assert(r->Ok_0.secrets@[i].0@ == k && r->Ok_0.secrets@[i].1@ == v);
        }
        if k == id@ + "-username"@ && v == user && user.len() > 0 {
            assert(stored[0] == (id@ + "-username"@, user));
            assert(r->Ok_0.secrets@[0].0@ == k && r->Ok_0.secrets@[0].1@ == v);
        }
    }
    if exists|i: int|
        0 <= i < r->Ok_0.secrets@.len() && (#[trigger] r->Ok_0.secrets@[i]).0@ == k
            && r->Ok_0.secrets@[i].1@ == v {
        let i = choose|i: int|
            0 <= i < r->Ok_0.secrets@.len() && (#[trigger] r->Ok_0.secrets@[i]).0@ == k
                && r->Ok_0.secrets@[i].1@ == v;
        assert(stored[i] == (k, v));
    }
}

/// A new connection starts as a local one with nothing typed; an old one as it is, with
/// its user name, and never with a password.
pub proof fn law_the_form_starts_from_the_profile(
    profile: ConnectionProfile,
    username: Option<&str>,
    fresh: SetupForm,
    form: SetupForm,
)
    requires
        call_ensures(SetupForm::prefilled, (None, username), fresh),
        call_ensures(SetupForm::prefilled, (Some(&profile), username), form),
    ensures
        fresh.name@.len() == 0 && fresh.protocol == 0 && fresh.socket_path@.len() == 0,
        fresh.username@.len() == 0 && fresh.password@.len() == 0,
        fresh.url@ == "wss://127.0.0.1:11339/ws"@,
        form.name@ == profile.name@,
        form.password@.len() == 0,
        username is Some ==> form.username@ == username->0@,
        username is None ==> form.username@.len() == 0,
        profile.protocol is Websocket ==> form.protocol == 1 && form.url@
            == profile.protocol->url@,
        profile.protocol is Local ==> form.protocol == 0 && form.url@
            == "wss://127.0.0.1:11339/ws"@,
        profile.protocol is Local && profile.protocol->path is Some ==> form.socket_path@
            == profile.protocol->path->0@,
        profile.protocol is Local && profile.protocol->path is None ==> form.socket_path@.len()
            == 0,
{
}

/// The fields of the protocol that is chosen show, and only those; the dialog says what
/// it does, and what is missing.
pub proof fn law_the_chosen_protocols_fields_show(
    protocol: u32,
    shown: (bool, bool),
    add: &'static str,
    edit: &'static str,
    error: SetupError,
    message: &'static str,
)
    requires
        call_ensures(groups_shown, (protocol,), shown),
        call_ensures(dialog_title, (false,), add),
        call_ensures(dialog_title, (true,), edit),
        call_ensures(SetupError::message, (error,), message),
    ensures
        shown.0 <==> protocol == 0,
        shown.1 <==> protocol == 1,
        add@ == "Add Connection"@,
        edit@ == "Edit Connection"@,
        error is NameRequired ==> message@ == "Connection name is required"@,
        error is UrlRequired ==> message@ == "Server URL is required for WebSocket"@,
{
}

/// An edited profile keeps its id, and a new one gets one of its own.
pub proof fn law_an_edit_keeps_the_id(
    form: SetupForm,
    id: &str,
    edited: Result<SetupSave, SetupError>,
    fresh: Result<SetupSave, SetupError>,
)
    requires
        call_ensures(save, (&form, Some(id)), edited),
        call_ensures(save, (&form, None), fresh),
    ensures
        edited is Ok ==> edited->Ok_0.profile.id@ == id@,
        fresh is Ok ==> fresh->Ok_0.profile.id@.len() == 36,
        fresh is Ok && edited is Ok ==> fresh->Ok_0.profile.name@ == edited->Ok_0.profile.name@,
        fresh is Ok <==> edited is Ok,
{
}

} // verus!
