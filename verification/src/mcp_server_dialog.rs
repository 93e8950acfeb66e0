//! The form behind the transport-aware MCP-server add/edit dialog.
//!
//! A server's configuration spans two transports with divergent field sets, so
//! the dialog picks its form from a transport selector:
//!
//! - **Local (stdio):** `command`, `args`, `namespace` and `env`.
//! - **Remote (HTTP):** `url` and an authentication sub-selector (none, bearer,
//!   OAuth). Bearer stores a token value under the `{name}_token` reference (the
//!   configuration carries only the reference); OAuth refers to a reusable
//!   service account by id and scopes and stores no secret.
//!
//! **Bearer secrets are write-only.** A bearer token is never echoed by the
//! daemon, never pre-filled on edit, and only sent, before the upsert that refers
//! to it, when the user actually types one.

use crate::api::{McpServerConfig, McpServerView, Runner, ServiceAccountView};
use crate::json::{quote, quote_list, quoted, quoted_list, quoted_pairs};
use crate::ranking::{rank_items, ranked_from, Rank};
use crate::text::{
    all_slug_chars, are_items, chars_of, comes_before, is_among, is_item, is_slug, is_slug_char, items, join, joined,
    filled, is_white_space, law_split_undoes_join, lemma_items_push, lemma_trimmed_of_clean, lemma_trimmed_skips,
    lemma_trimmed_stands, lemma_trimmed_takes, pieces, stands_between,
    lemma_text_before_irreflexive, lemma_text_before_negatively_transitive, lemma_text_before_total,
    lemma_text_before_transitive, lemma_trimmed_idempotent, opt, opt_text, or_empty,
    same_text, split_items, text_before, text_or_empty, texts, trim, trimmed, filled_text, Cut,
};
use vstd::prelude::*;

verus! {

/// The transport a server speaks. Selects which set of form fields is shown and
/// which shape [`McpForm::build`] emits.
#[derive(Debug, Clone, Copy, PartialEq, Eq, Structural)]
pub enum McpTransport {
    /// Local process spawned over stdio (`command`/`args`/`env`).
    Stdio,
    /// Remote streamable-HTTP endpoint (`url` and authentication).
    Http,
}

/// How a remote (HTTP) server authenticates.
#[derive(Debug, Clone, Copy, PartialEq, Eq, Structural)]
pub enum McpAuthKind {
    /// No authentication.
    NoAuth,
    /// A static `Authorization: Bearer` token, stored write-only under the
    /// `{name}_token` secret reference.
    Bearer,
    /// OAuth 2.0 via a reusable service account referred to by id.
    OAuth,
}

/// An environment variable: its name and its value.
pub type EnvText = (Seq<char>, Seq<char>);

/// What a line of the environment box says: `KEY=value` split at the first `=`,
/// both sides trimmed; nothing where there is no `=` or no key.
pub open spec fn env_entry(line: Seq<char>) -> Option<EnvText> {
    match line.index_of_first('=') {
        Some(at) => if trimmed(line.take(at)).len() == 0 {
            None
        } else {
            Some((trimmed(line.take(at)), trimmed(line.skip(at + 1))))
        },
        None => None,
    }
}

/// What the lines say, in their order.
pub open spec fn env_entries(lines: Seq<Seq<char>>) -> Seq<EnvText>
    decreases lines.len(),
{
    if lines.len() == 0 {
        Seq::empty()
    } else {
        match env_entry(lines.last()) {
            Some(entry) => env_entries(lines.drop_last()).push(entry),
            None => env_entries(lines.drop_last()),
        }
    }
}

/// The names and values of a list of variables.
pub open spec fn env_texts(v: Seq<(String, String)>) -> Seq<EnvText> {
    v.map_values(|e: (String, String)| (e.0@, e.1@))
}

/// What a line of the environment box says.
fn parse_line(line: &str) -> (r: Option<(String, String)>)
    ensures
        r is None <==> env_entry(line@) is None,
        r is Some ==> env_entry(line@) == Some((r->Some_0.0@, r->Some_0.1@)),
{
    let cs = chars_of(line);
    let mut i: usize = 0;
    while i < cs.len()
        invariant
            i <= cs.len(),
            cs@ == line@,
            forall|j: int| 0 <= j < i ==> #[trigger] line@[j] != '=',
        decreases cs.len() - i,
    {
        if cs[i] == '=' {
            proof {
                assert(line@.contains('='));
                line@.index_of_first_ensures('=');
            }
            let key = trim(line.substring_char(0, i));
            assert(line@.take(i as int) =~= line@.subrange(0, i as int));
            if key.is_empty() {
                return None;
            }
            let value = trim(line.substring_char(i + 1, cs.len()));
            assert(line@.skip(i as int + 1) =~= line@.subrange(
                i as int + 1,
                line@.len() as int,
            ));
            return Some((key.to_owned(), value.to_owned()));
        }
        i = i + 1;
    }
    proof {
        assert(!line@.contains('='));
        line@.index_of_first_ensures('=');
    }
    None
}

/// Parse an environment box into ordered `(KEY, value)` pairs. Each non-blank
/// line is `KEY=value`; the key is trimmed and the value is everything after the
/// first `=` (values may themselves contain `=`), also trimmed. Lines without a
/// `=`, or with a blank key, are skipped: a malformed line is dropped, never
/// turned into a half-entry.
pub fn parse_env(text: &str) -> (r: Vec<(String, String)>)
    ensures
        env_texts(r@) == env_entries(items(text@, Cut::Lines)),
{
    let lines = split_items(text, Cut::Lines);
    let mut out: Vec<(String, String)> = Vec::new();
    let mut i: usize = 0;
    assert(env_texts(out@) =~= Seq::<EnvText>::empty());
    while i < lines.len()
        invariant
            i <= lines.len(),
            env_texts(out@) == env_entries(texts(lines@.take(i as int))),
        decreases lines.len() - i,
    {
        let ghost now = texts(lines@.take(i as int + 1));
        assert(now.drop_last() =~= texts(lines@.take(i as int)));
        let ghost before = env_texts(out@);
        if let Some(entry) = parse_line(lines[i].as_str()) {
            out.push(entry);
            assert(env_texts(out@) =~= before.push((entry.0@, entry.1@)));
        }
        i = i + 1;
    }
    assert(lines@.take(lines@.len() as int) =~= lines@);
    out
}

/// Split a space-separated args string into argv tokens. Any run of whitespace
/// separates; empty tokens are dropped. Deliberately simple: a server needing
/// shell-quoted args with embedded spaces is a rare case left to a direct
/// configuration edit.
pub fn split_args(text: &str) -> (r: Vec<String>)
    ensures
        texts(r@) == items(text@, Cut::Words),
{
    split_items(text, Cut::Words)
}

/// Split an OAuth scopes string on whitespace and/or commas into individual
/// scopes, dropping empties.
pub fn split_scopes(text: &str) -> (r: Vec<String>)
    ensures
        texts(r@) == items(text@, Cut::List),
{
    split_items(text, Cut::List)
}

/// The reference a server's bearer token is stored under. Convention:
/// `{name}_token`, so a server's configuration can refer to its token by a
/// stable id the user never has to hand-edit.
pub fn bearer_secret_ref(name: &str) -> (r: String)
    ensures
        r@ == name@ + "_token"@,
{
    name.to_owned().concat("_token")
}

/// `true` when a freshly-typed create name collides with an already-configured
/// server. An upsert is add-or-replace, so creating a server whose name already
/// exists would silently overwrite that server's configuration and clobber its
/// `{name}_token` secret; the create path uses this to refuse (the user should
/// edit the existing server instead). `name` is trimmed to match the save-time
/// normalization; the comparison is case-sensitive because a server name is an
/// exact table key. Edit is unaffected: it targets its own already-stored name,
/// which is expected to be present.
pub fn is_duplicate_new_name(name: &str, existing: &Vec<String>) -> (r: bool)
    ensures
        r == texts(existing@).contains(trimmed(name@)),
{
    is_among(trim(name), existing)
}

/// Why a new name is refused.
pub open spec fn name_problem(name: Seq<char>) -> Option<Seq<char>> {
    if name.len() == 0 {
        Some("Server name is required."@)
    } else if !is_slug(name) {
        Some("Name may only contain letters, digits, '-', and '_'."@)
    } else {
        None
    }
}

/// Validate a server name on create: non-empty and only letters, digits, `-`,
/// `_` (the name is a table key and a tool-namespace prefix).
pub fn validate_name(name: &str) -> (r: Result<(), String>)
    ensures
        r is Ok <==> name_problem(name@) is None,
        r is Err ==> name_problem(name@) == Some(r->Err_0@),
{
    if name.is_empty() {
        return Err("Server name is required.".to_owned());
    }
    if !all_slug_chars(name) {
        return Err("Name may only contain letters, digits, '-', and '_'.".to_owned());
    }
    Ok(())
}

/// `table` with `entry` put in: in place of the entry of the same name, and else
/// before the first one that comes after it by name.
pub open spec fn put_entry(table: Seq<EnvText>, entry: EnvText) -> Seq<EnvText>
    decreases table.len(),
{
    if table.len() == 0 || text_before(entry.0, table[0].0) {
        seq![entry] + table
    } else if entry.0 == table[0].0 {
        seq![entry] + table.drop_first()
    } else {
        seq![table[0]] + put_entry(table.drop_first(), entry)
    }
}

/// `pairs` as a table sorted by name, in which the last value of a name counts.
pub open spec fn env_table(pairs: Seq<EnvText>) -> Seq<EnvText>
    decreases pairs.len(),
{
    if pairs.len() == 0 {
        Seq::empty()
    } else {
        put_entry(env_table(pairs.drop_last()), pairs.last())
    }
}

/// Puts a variable into a table sorted by name.
fn put_in_table(table: &mut Vec<(String, String)>, entry: (String, String))
    ensures
        env_texts(final(table)@) == put_entry(env_texts(old(table)@), (entry.0@, entry.1@)),
{
    let ghost e = (entry.0@, entry.1@);
    let ghost all = env_texts(table@);
    let mut p: usize = 0;
    assert(all.skip(0) =~= all);
    assert(all =~= all.take(0) + all.skip(0));
    assert(put_entry(all, e) =~= all.take(0) + put_entry(all.skip(0), e));
    while p < table.len() && comes_before(table[p].0.as_str(), entry.0.as_str())
        invariant
            p <= table.len(),
            all == env_texts(table@),
            e == (entry.0@, entry.1@),
            put_entry(all, e) == all.take(p as int) + put_entry(all.skip(p as int), e),
        decreases table.len() - p,
    {
        proof {
            lemma_text_before_total(all[p as int].0, e.0);
            assert(all.skip(p as int)[0] == all[p as int]);
            assert(all.skip(p as int).drop_first() =~= all.skip(p as int + 1));
            assert(all.take(p as int) + (seq![all[p as int]] + put_entry(
                all.skip(p as int + 1),
                e,
            )) =~= all.take(p as int + 1) + put_entry(all.skip(p as int + 1), e));
        }
        p = p + 1;
    }
    proof {
        if p < table.len() {
            assert(all.skip(p as int)[0] == all[p as int]);
            lemma_text_before_total(all[p as int].0, e.0);
        }
    }
    if p < table.len() && same_text(table[p].0.as_str(), entry.0.as_str()) {
        assert(all.skip(p as int).drop_first() =~= all.skip(p as int + 1));
        table.set(p, entry);
        assert(env_texts(table@) =~= all.take(p as int) + (seq![e] + all.skip(p as int + 1)));
    } else {
        table.insert(p, entry);
        assert(env_texts(table@) =~= all.take(p as int) + (seq![e] + all.skip(p as int)));
    }
}

/// `pairs` as a table sorted by name.
fn tabulate(pairs: Vec<(String, String)>) -> (r: Vec<(String, String)>)
    ensures
        env_texts(r@) == env_table(env_texts(pairs@)),
{
    let mut table: Vec<(String, String)> = Vec::new();
    let mut i: usize = 0;
    assert(env_texts(table@) =~= Seq::<EnvText>::empty());
    assert(env_texts(pairs@.take(0)) =~= Seq::<EnvText>::empty());
    while i < pairs.len()
        invariant
            i <= pairs.len(),
            env_texts(table@) == env_table(env_texts(pairs@.take(i as int))),
        decreases pairs.len() - i,
    {
        let ghost now = env_texts(pairs@.take(i as int + 1));
        assert(now.drop_last() =~= env_texts(pairs@.take(i as int)));
        put_in_table(&mut table, (pairs[i].0.clone(), pairs[i].1.clone()));
        i = i + 1;
    }
    assert(pairs@.take(pairs@.len() as int) =~= pairs@);
    table
}

/// The `http` part of a server's configuration.
pub struct HttpText {
    pub url: Seq<char>,
    pub auth_bearer_secret: Option<Seq<char>>,
    pub oauth_account: Option<Seq<char>>,
    pub scopes: Seq<Seq<char>>,
}

/// A server's configuration, with only the fields that the form surfaces.
pub struct ConfigText {
    pub name: Seq<char>,
    pub enabled: bool,
    pub command: Seq<char>,
    pub args: Seq<Seq<char>>,
    pub namespace: Option<Seq<char>>,
    pub env: Seq<EnvText>,
    pub http: Option<HttpText>,
}

/// A member of a JSON object after the first, left out where it has no value.
pub open spec fn member(key: Seq<char>, value: Option<Seq<char>>) -> Seq<char> {
    match value {
        Some(value) => ",\""@ + key + "\":"@ + value,
        None => Seq::empty(),
    }
}

/// The text as a JSON string, where there is one.
pub open spec fn quoted_opt(text: Option<Seq<char>>) -> Option<Seq<char>> {
    match text {
        Some(text) => Some(quoted(text)),
        None => None,
    }
}

/// The texts as a JSON array, unless there are none.
pub open spec fn array_opt(list: Seq<Seq<char>>) -> Option<Seq<char>> {
    if list.len() == 0 {
        None
    } else {
        Some("["@ + quoted_list(list) + "]"@)
    }
}

impl HttpText {
    /// The JSON object.
    pub open spec fn json(self) -> Seq<char> {
        "{\"url\":"@ + quoted(self.url) + member(
            "auth_bearer_secret"@,
            quoted_opt(self.auth_bearer_secret),
        ) + member("oauth_account"@, quoted_opt(self.oauth_account)) + member(
            "scopes"@,
            array_opt(self.scopes),
        ) + "}"@
    }
}

impl ConfigText {
    /// The JSON object. Empty fields are left out: the daemon has a default for
    /// each of them.
    pub open spec fn json(self) -> Seq<char> {
        let command = if self.command.len() == 0 {
            None
        } else {
            Some(quoted(self.command))
        };
        let env = if self.env.len() == 0 {
            None
        } else {
            Some("{"@ + quoted_pairs(self.env) + "}"@)
        };
        let http = match self.http {
            Some(http) => Some(http.json()),
            None => None,
        };
        "{\"name\":"@ + quoted(self.name) + ",\"enabled\":"@ + (if self.enabled {
            "true"@
        } else {
            "false"@
        }) + member("command"@, command) + member("args"@, array_opt(self.args)) + member(
            "namespace"@,
            quoted_opt(self.namespace),
        ) + member("env"@, env) + member("http"@, http) + "}"@
    }
}

/// The `http` part of a server's configuration.
struct HttpDto {
    url: String,
    auth_bearer_secret: Option<String>,
    oauth_account: Option<String>,
    scopes: Vec<String>,
}

/// A server's configuration, carrying only the fields that the form surfaces.
/// `env` is sorted by name, so the wire form is deterministic.
struct McpConfigDto {
    name: String,
    enabled: bool,
    command: String,
    args: Vec<String>,
    namespace: Option<String>,
    env: Vec<(String, String)>,
    http: Option<HttpDto>,
}

impl HttpDto {
    spec fn text(self) -> HttpText {
        HttpText {
            url: self.url@,
            auth_bearer_secret: opt_text(self.auth_bearer_secret),
            oauth_account: opt_text(self.oauth_account),
            scopes: texts(self.scopes@),
        }
    }

    fn to_json(&self) -> (r: String)
        ensures
            r@ == self.text().json(),
    {
        let mut out = "{\"url\":".to_owned();
        out.append(quote(self.url.as_str()).as_str());
        append_opt(&mut out, "auth_bearer_secret", &self.auth_bearer_secret);
        append_opt(&mut out, "oauth_account", &self.oauth_account);
        append_array(&mut out, "scopes", &self.scopes);
        out.append("}");
        out
    }
}

impl McpConfigDto {
    spec fn text(self) -> ConfigText {
        ConfigText {
            name: self.name@,
            enabled: self.enabled,
            command: self.command@,
            args: texts(self.args@),
            namespace: opt_text(self.namespace),
            env: env_texts(self.env@),
            http: match self.http {
                Some(http) => Some(http.text()),
                None => None,
            },
        }
    }

    fn to_json(&self) -> (r: String)
        ensures
            r@ == self.text().json(),
    {
        let mut out = "{\"name\":".to_owned();
        out.append(quote(self.name.as_str()).as_str());
        out.append(",\"enabled\":");
        out.append(
            if self.enabled {
                "true"
            } else {
                "false"
            },
        );
        if !self.command.as_str().is_empty() {
            append_member(&mut out, "command", quote(self.command.as_str()).as_str());
        } else {
            assert(out@ =~= out@ + member("command"@, None));
        }
        append_array(&mut out, "args", &self.args);
        append_opt(&mut out, "namespace", &self.namespace);
        if self.env.len() > 0 {
            let mut table = "{".to_owned();
            table.append(quote_pairs(&self.env).as_str());
            table.append("}");
            append_member(&mut out, "env", table.as_str());
        } else {
            assert(out@ =~= out@ + member("env"@, None));
        }
        match &self.http {
            Some(http) => {
                append_member(&mut out, "http", http.to_json().as_str());
            },
            None => {
                assert(out@ =~= out@ + member("http"@, None));
            },
        }
        out.append("}");
        out
    }
}

/// Appends a member of a JSON object.
fn append_member(out: &mut String, key: &str, value: &str)
    ensures
        final(out)@ == old(out)@ + member(key@, Some(value@)),
{
    out.append(",\"");
    out.append(key);
    out.append("\":");
    out.append(value);
    assert(out@ =~= old(out)@ + member(key@, Some(value@)));
}

/// Appends a string member, where there is one.
fn append_opt(out: &mut String, key: &str, value: &Option<String>)
    ensures
        final(out)@ == old(out)@ + member(key@, quoted_opt(opt_text(*value))),
{
    match value {
        Some(value) => append_member(out, key, quote(value.as_str()).as_str()),
        None => {
            assert(out@ =~= out@ + member(key@, None));
        },
    }
}

/// Appends an array member, unless the list is empty.
fn append_array(out: &mut String, key: &str, list: &Vec<String>)
    ensures
        final(out)@ == old(out)@ + member(key@, array_opt(texts(list@))),
{
    if list.len() > 0 {
        let mut array = "[".to_owned();
        array.append(quote_list(list).as_str());
        array.append("]");
        append_member(out, key, array.as_str());
    } else {
        assert(out@ =~= out@ + member(key@, None));
    }
}

/// Variables as the members of a JSON object, without its braces.
fn quote_pairs(pairs: &Vec<(String, String)>) -> (r: String)
    ensures
        r@ == quoted_pairs(env_texts(pairs@)),
{
    let mut out = String::new();
    let mut i: usize = 0;
    while i < pairs.len()
        invariant
            i <= pairs.len(),
            out@ == quoted_pairs(env_texts(pairs@.take(i as int))),
        decreases pairs.len() - i,
    {
        proof {
            let now = env_texts(pairs@.take(i as int + 1));
            assert(now.drop_last() =~= env_texts(pairs@.take(i as int)));
            assert(now.last() == (pairs@[i as int].0@, pairs@[i as int].1@));
        }
        if i > 0 {
            out.append(",");
        }
        out.append(quote(pairs[i].0.as_str()).as_str());
        out.append(":");
        out.append(quote(pairs[i].1.as_str()).as_str());
        assert(out@ =~= quoted_pairs(env_texts(pairs@.take(i as int + 1))));
        i = i + 1;
    }
    assert(pairs@.take(pairs@.len() as int) =~= pairs@);
    out
}

/// The model of the add/edit form. It is splatted into the widgets on open and
/// read back on submit, keeping the validation and the mapping here rather than
/// in the view.
#[derive(Debug, PartialEq, Eq)]
pub struct McpForm {
    /// `true` when editing an existing server: the name is immutable.
    pub editing: bool,
    /// Where the server runs: the daemon fleet or this client's local host. It is
    /// a separate axis from the transport (a stdio or HTTP server can run on
    /// either side) and is immutable on edit: you cannot move a server between
    /// runners in place.
    pub runner: Runner,
    pub transport: McpTransport,
    pub name: String,
    pub enabled: bool,
    pub command: String,
    /// Space-separated argv (split on save).
    pub args: String,
    pub namespace: String,
    /// `KEY=value` lines (parsed on save).
    pub env: String,
    pub url: String,
    pub auth: McpAuthKind,
    /// Write-only bearer token; never populated from a view.
    pub bearer_token: String,
    /// Referenced service-account id (OAuth).
    pub oauth_account: String,
    /// Space/comma-separated OAuth scopes.
    pub scopes: String,
}

impl Clone for McpForm {
    fn clone(&self) -> (r: Self)
        ensures
            r == *self,
    {
        McpForm {
            editing: self.editing,
            runner: self.runner,
            transport: self.transport,
            name: self.name.clone(),
            enabled: self.enabled,
            command: self.command.clone(),
            args: self.args.clone(),
            namespace: self.namespace.clone(),
            env: self.env.clone(),
            url: self.url.clone(),
            auth: self.auth,
            bearer_token: self.bearer_token.clone(),
            oauth_account: self.oauth_account.clone(),
            scopes: self.scopes.clone(),
        }
    }
}

/// The assembled inputs for an upsert (and an optional bearer secret) round-trip.
#[derive(Debug, PartialEq, Eq)]
pub struct BuiltMcpServer {
    /// `true`: the name already existed (edit); `false`: create. Both go through
    /// the same upsert, which is add-or-replace.
    pub editing: bool,
    /// Where the server runs. The settings dialog forks the save on this: a
    /// daemon server goes through the daemon; a client server is written to the
    /// local configuration.
    pub runner: Runner,
    /// The target server name (immutable on edit, validated on create).
    pub name: String,
    /// The JSON configuration for the upsert.
    pub config_json: String,
    /// `(secret_ref, value)` to store before the upsert, when the user typed a
    /// bearer token. `None` leaves any stored secret untouched (write-only: a
    /// blank field never wipes a token).
    pub secret: Option<(String, String)>,
}

/// The texts of an optional pair.
pub open spec fn pair_text(o: Option<(String, String)>) -> Option<EnvText> {
    match o {
        Some(p) => Some((p.0@, p.1@)),
        None => None,
    }
}

/// The environment variables, `KEY=value` each.
pub open spec fn env_lines(entries: Seq<EnvText>) -> Seq<Seq<char>> {
    entries.map_values(|e: EnvText| e.0 + "="@ + e.1)
}

/// Environment variables by name.
#[derive(Clone, Copy)]
pub struct ByName;

impl Rank<(String, String)> for ByName {
    open spec fn before(self, a: (String, String), b: (String, String)) -> bool {
        text_before(a.0@, b.0@)
    }

    proof fn asymmetric(self, a: (String, String), b: (String, String)) {
        lemma_text_before_total(a.0@, b.0@);
    }

    proof fn negatively_transitive(
        self,
        a: (String, String),
        b: (String, String),
        c: (String, String),
    ) {
        lemma_text_before_negatively_transitive(a.0@, b.0@, c.0@);
    }

    fn is_before(&self, a: &(String, String), b: &(String, String)) -> (r: bool) {
        comes_before(a.0.as_str(), b.0.as_str())
    }
}

/// The environment box for variables: a line each, sorted by name.
fn env_box(env: &Vec<(String, String)>) -> (r: String)
    ensures
        exists|sorted: Seq<(String, String)>| #[trigger]
            ranked_from(ByName, env@, sorted) && r@ == joined(
                env_lines(env_texts(sorted)),
                "\n"@,
            ),
{
    let mut copy: Vec<(String, String)> = Vec::new();
    let mut i: usize = 0;
    while i < env.len()
        invariant
            i <= env.len(),
            copy@ == env@.take(i as int),
        decreases env.len() - i,
    {
        copy.push((env[i].0.clone(), env[i].1.clone()));
        i = i + 1;
        assert(copy@ =~= env@.take(i as int));
    }
    assert(copy@ =~= env@);
    let sorted = rank_items(&ByName, copy);
    let mut lines: Vec<String> = Vec::new();
    let mut k: usize = 0;
    while k < sorted.len()
        invariant
            k <= sorted.len(),
            texts(lines@) == env_lines(env_texts(sorted@)).take(k as int),
        decreases sorted.len() - k,
    {
        let mut line = sorted[k].0.clone();
        line.append("=");
        line.append(sorted[k].1.as_str());
        let ghost before = texts(lines@);
        lines.push(line);
        k = k + 1;
        assert(texts(lines@) =~= before.push(line@));
        assert(texts(lines@) =~= env_lines(env_texts(sorted@)).take(k as int));
    }
    assert(texts(lines@) =~= env_lines(env_texts(sorted@)));
    join(&lines, "\n")
}

impl McpForm {
    /// The transport that counts. A client-run server is stdio-only: there is no
    /// client-side secret store to hold an HTTP bearer token.
    pub open spec fn effective_transport(self) -> McpTransport {
        match self.runner {
            Runner::Client => McpTransport::Stdio,
            Runner::Daemon => self.transport,
        }
    }

    /// The configuration that the form describes, or why it describes none.
    pub open spec fn config(self) -> Result<ConfigText, Seq<char>> {
        let name = trimmed(self.name@);
        let command = trimmed(self.command@);
        let url = trimmed(self.url@);
        let account = trimmed(self.oauth_account@);
        if !self.editing && name_problem(name) is Some {
            Err(name_problem(name)->0)
        } else if self.effective_transport() == McpTransport::Stdio {
            if command.len() == 0 {
                Err("Command is required for a stdio server."@)
            } else {
                Ok(
                    ConfigText {
                        name,
                        enabled: self.enabled,
                        command,
                        args: items(self.args@, Cut::Words),
                        namespace: filled_text(self.namespace@),
                        env: env_table(env_entries(items(self.env@, Cut::Lines))),
                        http: None,
                    },
                )
            }
        } else if url.len() == 0 {
            Err("URL is required for an HTTP server."@)
        } else if self.auth == McpAuthKind::OAuth && account.len() == 0 {
            Err("Choose a service account for OAuth authentication."@)
        } else {
            Ok(
                ConfigText {
                    name,
                    enabled: self.enabled,
                    command: Seq::empty(),
                    args: Seq::empty(),
                    namespace: None,
                    env: Seq::empty(),
                    http: Some(
                        HttpText {
                            url,
                            auth_bearer_secret: if self.auth == McpAuthKind::Bearer {
                                Some(name + "_token"@)
                            } else {
                                None
                            },
                            oauth_account: if self.auth == McpAuthKind::OAuth {
                                Some(account)
                            } else {
                                None
                            },
                            scopes: if self.auth == McpAuthKind::OAuth {
                                items(self.scopes@, Cut::List)
                            } else {
                                Seq::empty()
                            },
                        },
                    ),
                },
            )
        }
    }

    /// The bearer secret that the form writes: one only where the user typed it.
    pub open spec fn secret(self) -> Option<EnvText> {
        if self.effective_transport() == McpTransport::Http && self.auth == McpAuthKind::Bearer
            && trimmed(self.bearer_token@).len() > 0 {
            Some((trimmed(self.name@) + "_token"@, trimmed(self.bearer_token@)))
        } else {
            None
        }
    }

    /// `built` is what the form assembles to.
    pub open spec fn builds(self, built: BuiltMcpServer) -> bool {
        &&& self.config() is Ok
        &&& built.editing == self.editing
        &&& built.runner == self.runner
        &&& built.name@ == trimmed(self.name@)
        &&& built.config_json@ == self.config()->Ok_0.json()
        &&& pair_text(built.secret) == self.secret()
    }

    /// A form with nothing filled in, for a server of the daemon's.
    pub open spec fn is_blank(self, transport: McpTransport) -> bool {
        &&& !self.editing
        &&& self.runner == Runner::Daemon
        &&& self.transport == transport
        &&& self.enabled
        &&& self.auth == McpAuthKind::NoAuth
        &&& self.name@.len() == 0
        &&& self.command@.len() == 0
        &&& self.args@.len() == 0
        &&& self.namespace@.len() == 0
        &&& self.env@.len() == 0
        &&& self.url@.len() == 0
        &&& self.bearer_token@.len() == 0
        &&& self.oauth_account@.len() == 0
        &&& self.scopes@.len() == 0
    }

    /// The form shows what a daemon's view tells of a server.
    pub open spec fn shows_view(self, view: McpServerView) -> bool {
        &&& self.editing
        &&& self.runner == Runner::Daemon
        &&& self.transport == (if view.transport@ == "http"@ {
            McpTransport::Http
        } else {
            McpTransport::Stdio
        })
        &&& self.name@ == view.name@
        &&& self.enabled == view.enabled
        &&& self.command@ == view.command@
        &&& self.args@ == joined(texts(view.args@), " "@)
        &&& self.namespace@ == text_or_empty(view.namespace)
        &&& self.env@.len() == 0
        &&& self.url@ == (if view.transport@ == "http"@ {
            view.target@
        } else {
            Seq::empty()
        })
        &&& self.auth == (if opt_text(view.auth_kind) == Some("bearer"@) {
            McpAuthKind::Bearer
        } else if opt_text(view.auth_kind) == Some("oauth"@) {
            McpAuthKind::OAuth
        } else {
            McpAuthKind::NoAuth
        })
        &&& self.bearer_token@.len() == 0
        &&& self.oauth_account@ == text_or_empty(view.oauth_account_ref)
        &&& self.scopes@ == joined(texts(view.oauth_scopes@), " "@)
    }

    /// The form shows a client-hosted server's configuration on disk.
    pub open spec fn shows_config(self, cfg: McpServerConfig, enabled: bool) -> bool {
        &&& self.editing
        &&& self.runner == Runner::Client
        &&& self.transport == (if cfg.http is Some {
            McpTransport::Http
        } else {
            McpTransport::Stdio
        })
        &&& self.name@ == cfg.name@
        &&& self.enabled == enabled
        &&& self.command@ == cfg.command@
        &&& self.args@ == joined(texts(cfg.args@), " "@)
        &&& self.namespace@ == text_or_empty(cfg.namespace)
        &&& exists|sorted: Seq<(String, String)>| #[trigger]
            ranked_from(ByName, cfg.env@, sorted) && self.env@ == joined(
                env_lines(env_texts(sorted)),
                "\n"@,
            )
        &&& self.bearer_token@.len() == 0
        &&& match cfg.http {
            Some(http) => {
                &&& self.url@ == http.url@
                &&& self.auth == (if http.oauth_account is Some {
                    McpAuthKind::OAuth
                } else if http.auth_bearer_secret is Some {
                    McpAuthKind::Bearer
                } else {
                    McpAuthKind::NoAuth
                })
                &&& self.oauth_account@ == text_or_empty(http.oauth_account)
                &&& self.scopes@ == joined(texts(http.scopes@), " "@)
            },
            None => {
                &&& self.url@.len() == 0
                &&& self.auth == McpAuthKind::NoAuth
                &&& self.oauth_account@.len() == 0
                &&& self.scopes@.len() == 0
            },
        }
    }

    /// A blank create form for `transport`, defaulting to a daemon-run server
    /// (the create dialog's "Runs on" selector changes it).
    pub fn blank(transport: McpTransport) -> (r: Self)
        ensures
            r.is_blank(transport),
    {
        McpForm {
            editing: false,
            runner: Runner::Daemon,
            transport,
            name: String::new(),
            enabled: true,
            command: String::new(),
            args: String::new(),
            namespace: String::new(),
            env: String::new(),
            url: String::new(),
            auth: McpAuthKind::NoAuth,
            bearer_token: String::new(),
            oauth_account: String::new(),
            scopes: String::new(),
        }
    }

    /// Pre-fill an edit form from a server view: name and transport, the surfaced
    /// non-secret fields, and (for HTTP) the auth kind and OAuth reference and
    /// scopes. Secret material (the bearer token) stays blank: the daemon never
    /// echoes it. The environment box also stays blank: the view does not carry
    /// the environment, so editing a stdio server cannot pre-fill it.
    pub fn from_view(view: &McpServerView) -> (r: Self)
        ensures
            r.shows_view(*view),
    {
        proof {
            reveal_strlit("bearer");
            reveal_strlit("oauth");
        }
        let is_http = same_text(view.transport.as_str(), "http");
        let auth = match &view.auth_kind {
            Some(kind) => if same_text(kind.as_str(), "bearer") {
                McpAuthKind::Bearer
            } else if same_text(kind.as_str(), "oauth") {
                McpAuthKind::OAuth
            } else {
                McpAuthKind::NoAuth
            },
            None => McpAuthKind::NoAuth,
        };
        McpForm {
            editing: true,
            runner: Runner::Daemon,
            transport: if is_http {
                McpTransport::Http
            } else {
                McpTransport::Stdio
            },
            name: view.name.clone(),
            enabled: view.enabled,
            command: view.command.clone(),
            args: join(&view.args, " "),
            namespace: or_empty(&view.namespace),
            env: String::new(),
            url: if is_http {
                view.target.clone()
            } else {
                String::new()
            },
            auth,
            bearer_token: String::new(),
            oauth_account: or_empty(&view.oauth_account_ref),
            scopes: join(&view.oauth_scopes, " "),
        }
    }

    /// Pre-fill an edit form from a client-hosted server's configuration on disk.
    /// Unlike the daemon path this configuration lives locally, so non-secret
    /// fields, the environment among them, are echoed. `enabled` is this
    /// surface's view of the server (definition enabled and named by the
    /// surface); the bearer token stays blank (there is no client secret store).
    /// Environment lines are key-sorted for a deterministic display.
    pub fn from_client_config(cfg: &McpServerConfig, enabled: bool) -> (r: Self)
        ensures
            r.shows_config(*cfg, enabled),
    {
        let env = env_box(&cfg.env);
        let (transport, url, auth, oauth_account, scopes) = match &cfg.http {
            Some(http) => {
                let auth = if http.oauth_account.is_some() {
                    McpAuthKind::OAuth
                } else if http.auth_bearer_secret.is_some() {
                    McpAuthKind::Bearer
                } else {
                    McpAuthKind::NoAuth
                };
                (
                    McpTransport::Http,
                    http.url.clone(),
                    auth,
                    or_empty(&http.oauth_account),
                    join(&http.scopes, " "),
                )
            },
            None => (
                McpTransport::Stdio,
                String::new(),
                McpAuthKind::NoAuth,
                String::new(),
                String::new(),
            ),
        };
        McpForm {
            editing: true,
            runner: Runner::Client,
            transport,
            name: cfg.name.clone(),
            enabled,
            command: cfg.command.clone(),
            args: join(&cfg.args, " "),
            namespace: or_empty(&cfg.namespace),
            env,
            url,
            auth,
            bearer_token: String::new(),
            oauth_account,
            scopes,
        }
    }

    /// Validate and assemble the form into the command inputs: the target name
    /// (typed and validated on create, immutable on edit), the JSON configuration
    /// the upsert receives, and the optional bearer secret `(ref, value)` to
    /// write first. `Err` carries a human-readable reason.
    pub fn build(&self) -> (r: Result<BuiltMcpServer, String>)
        ensures
            r is Ok <==> self.config() is Ok,
            r is Ok ==> self.builds(r->Ok_0),
            r is Err ==> r->Err_0@ == self.config()->Err_0,
    {
        let name = trim(self.name.as_str()).to_owned();
        // The name is immutable on edit (already validated by the daemon); only a
        // freshly-typed create name is checked.
        if !self.editing {
            match validate_name(name.as_str()) {
                Ok(_) => {},
                Err(problem) => {
                    return Err(problem);
                },
            }
        }
        let transport = match self.runner {
            Runner::Client => McpTransport::Stdio,
            Runner::Daemon => self.transport,
        };
        let (dto, secret) = match transport {
            McpTransport::Stdio => {
                let command = trim(self.command.as_str()).to_owned();
                if command.as_str().is_empty() {
                    return Err("Command is required for a stdio server.".to_owned());
                }
                (
                    McpConfigDto {
                        name: name.clone(),
                        enabled: self.enabled,
                        command,
                        args: split_args(self.args.as_str()),
                        namespace: opt(self.namespace.as_str()),
                        env: tabulate(parse_env(self.env.as_str())),
                        http: None,
                    },
                    None,
                )
            },
            McpTransport::Http => {
                let url = trim(self.url.as_str()).to_owned();
                if url.as_str().is_empty() {
                    return Err("URL is required for an HTTP server.".to_owned());
                }
                let mut auth_bearer_secret: Option<String> = None;
                let mut oauth_account: Option<String> = None;
                let mut scopes: Vec<String> = Vec::new();
                let mut secret: Option<(String, String)> = None;
                match self.auth {
                    McpAuthKind::NoAuth => {},
                    McpAuthKind::Bearer => {
                        let secret_ref = bearer_secret_ref(name.as_str());
                        let token = trim(self.bearer_token.as_str());
                        // A blank field leaves any stored token untouched. The
                        // configuration still refers to it, so the server stays
                        // "bearer" rather than silently going unauthenticated.
                        if !token.is_empty() {
                            secret = Some((secret_ref.clone(), token.to_owned()));
                        }
                        auth_bearer_secret = Some(secret_ref);
                    },
                    McpAuthKind::OAuth => {
                        let account = trim(self.oauth_account.as_str()).to_owned();
                        if account.as_str().is_empty() {
                            return Err(
                                "Choose a service account for OAuth authentication.".to_owned(),
                            );
                        }
                        oauth_account = Some(account);
                        scopes = split_scopes(self.scopes.as_str());
                    },
                }
                assert(self.auth != McpAuthKind::OAuth ==> texts(scopes@) =~= Seq::<
                    Seq<char>,
                >::empty());
                let args: Vec<String> = Vec::new();
                let env: Vec<(String, String)> = Vec::new();
                assert(texts(args@) =~= Seq::<Seq<char>>::empty());
                assert(env_texts(env@) =~= Seq::<EnvText>::empty());
                (
                    McpConfigDto {
                        name: name.clone(),
                        enabled: self.enabled,
                        command: String::new(),
                        args,
                        namespace: None,
                        env,
                        http: Some(HttpDto { url, auth_bearer_secret, oauth_account, scopes }),
                    },
                    secret,
                )
            },
        };
        assert(dto.text() == self.config()->Ok_0);
        Ok(
            BuiltMcpServer {
                editing: self.editing,
                runner: self.runner,
                name,
                config_json: dto.to_json(),
                secret,
            },
        )
    }
}

/// The transport at an index of the transport selector.
pub open spec fn transport_at(i: int) -> McpTransport {
    if i == 1 {
        McpTransport::Http
    } else {
        McpTransport::Stdio
    }
}

/// The runner at an index of the "Runs on" selector.
pub open spec fn runner_at(i: int) -> Runner {
    if i == 1 {
        Runner::Client
    } else {
        Runner::Daemon
    }
}

/// The authentication at an index of the authentication selector.
pub open spec fn auth_at(i: int) -> McpAuthKind {
    if i == 1 {
        McpAuthKind::Bearer
    } else if i == 2 {
        McpAuthKind::OAuth
    } else {
        McpAuthKind::NoAuth
    }
}

/// Convert a transport selector index (0 = stdio, 1 = http) to the enum.
pub fn transport_from_index(i: u32) -> (r: McpTransport)
    ensures
        r == transport_at(i as int),
{
    if i == 1 {
        McpTransport::Http
    } else {
        McpTransport::Stdio
    }
}

/// Convert a transport to its selector index.
pub fn transport_to_index(t: McpTransport) -> (r: u32)
    ensures
        r <= 1,
        transport_at(r as int) == t,
{
    match t {
        McpTransport::Stdio => 0,
        McpTransport::Http => 1,
    }
}

/// Convert a "Runs on" selector index (0 = daemon, 1 = client) to the enum.
pub fn runner_from_index(i: u32) -> (r: Runner)
    ensures
        r == runner_at(i as int),
{
    if i == 1 {
        Runner::Client
    } else {
        Runner::Daemon
    }
}

/// Convert a runner to its "Runs on" selector index.
pub fn runner_to_index(r: Runner) -> (i: u32)
    ensures
        i <= 1,
        runner_at(i as int) == r,
{
    match r {
        Runner::Daemon => 0,
        Runner::Client => 1,
    }
}

/// Convert an authentication selector index (0 = none, 1 = bearer, 2 = oauth)
/// to the enum.
pub fn auth_from_index(i: u32) -> (r: McpAuthKind)
    ensures
        r == auth_at(i as int),
{
    match i {
        1 => McpAuthKind::Bearer,
        2 => McpAuthKind::OAuth,
        _ => McpAuthKind::NoAuth,
    }
}

/// Convert an authentication to its selector index.
pub fn auth_to_index(a: McpAuthKind) -> (r: u32)
    ensures
        r <= 2,
        auth_at(r as int) == a,
{
    match a {
        McpAuthKind::NoAuth => 0,
        McpAuthKind::Bearer => 1,
        McpAuthKind::OAuth => 2,
    }
}

/// The words on the dialog, which depend on whether it edits or creates.
pub struct McpDialogLabels {
    pub title: String,
    pub runner: &'static str,
    pub name: &'static str,
    pub token_placeholder: &'static str,
    pub save: &'static str,
    /// Runner, name and transport can be chosen: only on create.
    pub unlocked: bool,
    /// The note that the environment is not shown stands under its box.
    pub env_note: bool,
}

/// The words on the dialog for `initial`.
pub fn dialog_labels(initial: &McpForm) -> (r: McpDialogLabels)
    ensures
        r.unlocked == !initial.editing,
        r.env_note == initial.editing,
        initial.editing ==> {
            &&& r.title@ == "Edit MCP server: "@ + initial.name@
            &&& r.runner@ == "Runs on (locked)"@
            &&& r.name@ == "Name (locked)"@
            &&& r.token_placeholder@ == "Leave blank to keep the stored token"@
            &&& r.save@ == "Save"@
        },
        !initial.editing ==> {
            &&& r.title@ == "Add MCP server"@
            &&& r.runner@ == "Runs on"@
            &&& r.name@ == "Name"@
            &&& r.token_placeholder@ == "Stored write-only; never shown here"@
            &&& r.save@ == "Create"@
        },
{
    if initial.editing {
        McpDialogLabels {
            title: "Edit MCP server: ".to_owned().concat(initial.name.as_str()),
            runner: "Runs on (locked)",
            name: "Name (locked)",
            token_placeholder: "Leave blank to keep the stored token",
            save: "Save",
            unlocked: false,
            env_note: true,
        }
    } else {
        McpDialogLabels {
            title: "Add MCP server".to_owned(),
            runner: "Runs on",
            name: "Name",
            token_placeholder: "Stored write-only; never shown here",
            save: "Create",
            unlocked: true,
            env_note: false,
        }
    }
}

/// Which field groups of the dialog are visible.
#[derive(Debug, Clone, Copy, PartialEq, Eq, Structural)]
pub struct McpFieldsShown {
    /// The transport selector has to be put back to stdio.
    pub force_stdio: bool,
    pub transport: bool,
    pub client_hint: bool,
    pub stdio: bool,
    pub http: bool,
    pub bearer: bool,
    pub oauth: bool,
}

/// Which field groups are visible for the selectors' positions. A client runner
/// is stdio-only: the transport picker and the HTTP fields are hidden and a hint
/// is shown in their place.
pub fn fields_shown(runner: u32, transport: u32, auth: u32) -> (r: McpFieldsShown)
    ensures
        r.transport == (runner_at(runner as int) == Runner::Daemon),
        r.client_hint == !r.transport,
        r.force_stdio == (r.client_hint && transport != 0),
        r.http == (r.transport && transport_at(transport as int) == McpTransport::Http),
        r.stdio == !r.http,
        r.bearer == (r.http && auth_at(auth as int) == McpAuthKind::Bearer),
        r.oauth == (r.http && auth_at(auth as int) == McpAuthKind::OAuth),
{
    let is_client = runner_from_index(runner) == Runner::Client;
    let is_http = !is_client && transport_from_index(transport) == McpTransport::Http;
    let auth = auth_from_index(auth);
    McpFieldsShown {
        force_stdio: is_client && transport != 0,
        transport: !is_client,
        client_hint: is_client,
        stdio: !is_http,
        http: is_http,
        bearer: is_http && auth == McpAuthKind::Bearer,
        oauth: is_http && auth == McpAuthKind::OAuth,
    }
}

/// The service-account picker: what each entry stands for and what it says.
pub struct AccountPicker {
    /// The account ids; the first is empty and stands for "none chosen".
    pub ids: Vec<String>,
    pub labels: Vec<String>,
    /// The entry to select on open.
    pub selected: Option<usize>,
}

/// What the picker says of an account: its name, or its id where it has none,
/// and that it is not signed in where it is not.
pub open spec fn account_label(account: ServiceAccountView) -> Seq<char> {
    let base = if account.display_name@.len() == 0 {
        account.id@
    } else {
        account.display_name@
    };
    if account.authorized {
        base
    } else {
        base + "  (not signed in)"@
    }
}

/// The first place at which `id` stands in `ids`.
pub open spec fn first_place(ids: Seq<Seq<char>>, id: Seq<char>, at: Option<usize>) -> bool {
    match at {
        Some(i) => i < ids.len() && ids[i as int] == id && forall|j: int|
            0 <= j < i ==> ids[j] != id,
        None => !ids.contains(id),
    }
}

/// The service-account picker for a list of accounts. The list carries only ids
/// and labels, never a secret; `current` is preselected where it is in the list.
pub fn account_picker(accounts: &Vec<ServiceAccountView>, current: &str) -> (r: AccountPicker)
    ensures
        r.ids@.len() == accounts@.len() + 1,
        r.labels@.len() == accounts@.len() + 1,
        r.ids@[0]@.len() == 0,
        r.labels@[0]@ == "(choose an account)"@,
        forall|i: int| #![trigger accounts@[i]]
            0 <= i < accounts@.len() ==> r.ids@[i + 1]@ == accounts@[i].id@ && r.labels@[i + 1]@
                == account_label(accounts@[i]),
        first_place(texts(r.ids@), current@, r.selected),
{
    let mut ids: Vec<String> = Vec::new();
    let mut labels: Vec<String> = Vec::new();
    ids.push(String::new());
    labels.push("(choose an account)".to_owned());
    let mut i: usize = 0;
    while i < accounts.len()
        invariant
            i <= accounts.len(),
            ids@.len() == i + 1,
            labels@.len() == i + 1,
            ids@[0]@.len() == 0,
            labels@[0]@ == "(choose an account)"@,
            forall|j: int| #![trigger accounts@[j]]
                0 <= j < i ==> ids@[j + 1]@ == accounts@[j].id@ && labels@[j + 1]@
                    == account_label(accounts@[j]),
        decreases accounts.len() - i,
    {
        let account = &accounts[i];
        ids.push(account.id.clone());
        let mut label = if account.display_name.as_str().is_empty() {
            account.id.clone()
        } else {
            account.display_name.clone()
        };
        if !account.authorized {
            label.append("  (not signed in)");
        }
        labels.push(label);
        i = i + 1;
    }
    let mut selected: Option<usize> = None;
    let mut k: usize = 0;
    while k < ids.len() && selected.is_none()
        invariant
            k <= ids.len(),
            selected is None ==> forall|j: int| 0 <= j < k ==> texts(ids@)[j] != current@,
            selected is Some ==> first_place(texts(ids@), current@, selected),
        decreases ids.len() - k,
    {
        assert(texts(ids@)[k as int] == ids@[k as int]@);
        if same_text(ids[k].as_str(), current) {
            selected = Some(k);
        }
        k = k + 1;
    }
    AccountPicker { ids, labels, selected }
}

/// The account id at a position of the picker; none where there is no such
/// position.
pub fn chosen_account(ids: &Vec<String>, selected: usize) -> (r: String)
    ensures
        r@ == (if selected < ids@.len() {
            ids@[selected as int]@
        } else {
            Seq::empty()
        }),
{
    if selected < ids.len() {
        ids[selected].clone()
    } else {
        String::new()
    }
}

/// The refusal of a name that is taken on the runner's side.
pub open spec fn taken_text(name: Seq<char>) -> Seq<char> {
    "A server named \""@ + name + "\" already exists on that runner - edit it instead."@
}

/// What saving the form comes to: the assembled server, or the line to show
/// while the dialog stays open.
///
/// On create a name that already exists on the selected runner's side is refused
/// rather than issuing an add-or-replace that would silently overwrite the server
/// (and, for a daemon bearer server, clobber its secret). The two runners have
/// independent name spaces: a client "files" and a daemon "files" are distinct.
pub fn submit(
    form: &McpForm,
    daemon_names: &Vec<String>,
    client_names: &Vec<String>,
) -> (r: Result<BuiltMcpServer, String>)
    ensures
        ({
            let names = match form.runner {
                Runner::Daemon => texts(daemon_names@),
                Runner::Client => texts(client_names@),
            };
            let taken = !form.editing && names.contains(trimmed(form.name@));
            &&& r is Ok <==> form.config() is Ok && !taken
            &&& r is Ok ==> form.builds(r->Ok_0)
            &&& form.config() is Err ==> r->Err_0@ == form.config()->Err_0
            &&& form.config() is Ok && taken ==> r->Err_0@ == taken_text(trimmed(form.name@))
        }),
{
    proof {
        lemma_trimmed_idempotent(form.name@);
    }
    match form.build() {
        Ok(built) => {
            let existing = match built.runner {
                Runner::Daemon => daemon_names,
                Runner::Client => client_names,
            };
            if !built.editing && is_duplicate_new_name(built.name.as_str(), existing) {
                let mut line = "A server named \"".to_owned();
                line.append(built.name.as_str());
                line.append("\" already exists on that runner - edit it instead.");
                return Err(line);
            }
            Ok(built)
        },
        Err(problem) => Err(problem),
    }
}

/// A client-run server is local: its configuration carries no HTTP part and its
/// form writes no secret, whatever else the form holds.
pub proof fn law_client_server_is_stdio_without_secret(form: McpForm)
    requires
        form.runner == Runner::Client,
        form.config() is Ok,
    ensures
        form.config()->Ok_0.http is None,
        form.config()->Ok_0.command == trimmed(form.command@),
        form.secret() is None,
{
}

/// A blank token field never writes a secret, and the server stays a bearer
/// server under its reference.
pub proof fn law_blank_token_keeps_the_stored_one(form: McpForm)
    requires
        form.runner == Runner::Daemon,
        form.transport == McpTransport::Http,
        form.auth == McpAuthKind::Bearer,
        trimmed(form.bearer_token@).len() == 0,
        form.config() is Ok,
    ensures
        form.secret() is None,
        form.config()->Ok_0.http->0.auth_bearer_secret == Some(trimmed(form.name@) + "_token"@),
{
}

/// A secret is only ever written under the reference that the configuration of
/// the same form carries.
pub proof fn law_secret_is_stored_under_the_reference(form: McpForm)
    requires
        form.config() is Ok,
        form.secret() is Some,
    ensures
        form.config()->Ok_0.http is Some,
        form.config()->Ok_0.http->0.auth_bearer_secret == Some(form.secret()->Some_0.0),
{
}

/// The names of the table come in strictly rising order.
pub open spec fn names_rise(table: Seq<EnvText>) -> bool {
    forall|i: int, j: int|
        0 <= i < j < table.len() ==> text_before((#[trigger] table[i]).0, (#[trigger] table[j]).0)
}

/// `value` is the last value that `pairs` gives to `name`.
pub open spec fn last_value(pairs: Seq<EnvText>, name: Seq<char>, value: Seq<char>) -> bool {
    exists|i: int|
        0 <= i < pairs.len() && #[trigger] pairs[i] == (name, value) && forall|j: int|
            i < j < pairs.len() ==> (#[trigger] pairs[j]).0 != name
}

proof fn lemma_put_entry(table: Seq<EnvText>, entry: EnvText)
    requires
        names_rise(table),
    ensures
        names_rise(put_entry(table, entry)),
        put_entry(table, entry).contains(entry),
        forall|e: EnvText| #[trigger]
            put_entry(table, entry).contains(e) <==> e == entry || (table.contains(e) && e.0
                != entry.0),
    decreases table.len(),
{
    let out = put_entry(table, entry);
    if table.len() == 0 || text_before(entry.0, table[0].0) {
        assert forall|i: int, j: int| 0 <= i < j < out.len() implies text_before(
            (#[trigger] out[i]).0,
            (#[trigger] out[j]).0,
        ) by {
            if i == 0 && j > 1 {
                assert(text_before(table[0].0, table[j - 1].0));
                lemma_text_before_transitive(entry.0, table[0].0, table[j - 1].0);
            } else if i > 0 {
                assert(text_before(table[i - 1].0, table[j - 1].0));
            }
        }
        assert(out[0] == entry);
        assert forall|e: EnvText| #[trigger] out.contains(e) <==> e == entry || (table.contains(e)
            && e.0 != entry.0) by {
            if out.contains(e) && e != entry {
                let k = choose|k: int| 0 <= k < out.len() && out[k] == e;
                assert(table[k - 1] == e);
                lemma_text_before_irreflexive(entry.0);
                if k > 1 {
                    assert(text_before(table[0].0, table[k - 1].0));
                    lemma_text_before_transitive(entry.0, table[0].0, table[k - 1].0);
                }
            }
            if table.contains(e) {
                let k = choose|k: int| 0 <= k < table.len() && table[k] == e;
                assert(out[k + 1] == e);
            }
        }
    } else if entry.0 == table[0].0 {
        assert forall|i: int, j: int| 0 <= i < j < out.len() implies text_before(
            (#[trigger] out[i]).0,
            (#[trigger] out[j]).0,
        ) by {
            assert(text_before(table[i].0, table[j].0));
        }
        assert(out[0] == entry);
        assert forall|e: EnvText| #[trigger] out.contains(e) <==> e == entry || (table.contains(e)
            && e.0 != entry.0) by {
            lemma_text_before_irreflexive(entry.0);
            if out.contains(e) && e != entry {
                let k = choose|k: int| 0 <= k < out.len() && out[k] == e;
                assert(table[k] == e);
                assert(text_before(table[0].0, table[k].0));
            }
            if table.contains(e) && e.0 != entry.0 {
                let k = choose|k: int| 0 <= k < table.len() && table[k] == e;
                assert(out[k] == e);
            }
        }
    } else {
        let rest = table.drop_first();
        lemma_put_entry(rest, entry);
        lemma_text_before_total(entry.0, table[0].0);
        let tail = put_entry(rest, entry);
        assert forall|i: int, j: int| 0 <= i < j < out.len() implies text_before(
            (#[trigger] out[i]).0,
            (#[trigger] out[j]).0,
        ) by {
            if i == 0 {
                assert(tail.contains(tail[j - 1]));
                if tail[j - 1] != entry {
                    assert(rest.contains(tail[j - 1]));
                    let k = choose|k: int| 0 <= k < rest.len() && rest[k] == tail[j - 1];
                    assert(text_before(table[0].0, table[k + 1].0));
                }
            } else {
                assert(text_before(tail[i - 1].0, tail[j - 1].0));
            }
        }
        assert(out.contains(entry)) by {
            let k = choose|k: int| 0 <= k < tail.len() && tail[k] == entry;
            assert(out[k + 1] == entry);
        }
        assert forall|e: EnvText| #[trigger] out.contains(e) <==> e == entry || (table.contains(e)
            && e.0 != entry.0) by {
            if out.contains(e) {
                let k = choose|k: int| 0 <= k < out.len() && out[k] == e;
                if k > 0 {
                    assert(tail[k - 1] == e);
                    assert(tail.contains(e));
                    if e != entry {
                        assert(rest.contains(e));
                        let m = choose|m: int| 0 <= m < rest.len() && rest[m] == e;
                        assert(table[m + 1] == e);
                    }
                } else {
                    assert(table[0] == e);
                }
            }
            if table.contains(e) && e.0 != entry.0 {
                let k = choose|k: int| 0 <= k < table.len() && table[k] == e;
                if k > 0 {
                    assert(rest[k - 1] == e);
                    assert(tail.contains(e));
                    let m = choose|m: int| 0 <= m < tail.len() && tail[m] == e;
                    assert(out[m + 1] == e);
                } else {
                    assert(out[0] == e);
                }
            }
        }
    }
}

/// The environment goes out sorted by name with every name once, and a name that
/// the box gives twice has the value it was given last.
pub proof fn law_environment_is_sorted_and_the_last_value_counts(pairs: Seq<EnvText>)
    ensures
        names_rise(env_table(pairs)),
        forall|name: Seq<char>, value: Seq<char>| #[trigger]
            env_table(pairs).contains((name, value)) <==> last_value(pairs, name, value),
    decreases pairs.len(),
{
    if pairs.len() > 0 {
        let rest = pairs.drop_last();
        let entry = pairs.last();
        law_environment_is_sorted_and_the_last_value_counts(rest);
        lemma_put_entry(env_table(rest), entry);
        assert forall|name: Seq<char>, value: Seq<char>| #[trigger]
            env_table(pairs).contains((name, value)) <==> last_value(pairs, name, value) by {
            let e = (name, value);
            assert(env_table(rest).contains(e) <==> last_value(rest, name, value));
            if e == entry {
                assert(pairs[pairs.len() - 1] == e);
                assert(last_value(pairs, name, value));
            } else if last_value(pairs, name, value) {
                let i = choose|i: int|
                    0 <= i < pairs.len() && #[trigger] pairs[i] == e && forall|j: int|
                        i < j < pairs.len() ==> (#[trigger] pairs[j]).0 != name;
                assert(i < rest.len());
                assert(pairs[pairs.len() - 1].0 != name);
                assert(rest[i] == e);
                assert forall|j: int| i < j < rest.len() implies (#[trigger] rest[j]).0 != name by {
                    assert(pairs[j].0 != name);
                }
            } else if last_value(rest, name, value) && name != entry.0 {
                let i = choose|i: int|
                    0 <= i < rest.len() && #[trigger] rest[i] == e && forall|j: int|
                        i < j < rest.len() ==> (#[trigger] rest[j]).0 != name;
                assert(pairs[i] == e);
                assert forall|j: int| i < j < pairs.len() implies (#[trigger] pairs[j]).0
                    != name by {
                    if j < rest.len() {
                        assert(rest[j].0 != name);
                    }
                }
            }
        }
    } else {
        assert(!exists|n: Seq<char>, v: Seq<char>| env_table(pairs).contains((n, v)));
    }
}

/// A variable that the environment box can carry: its name and value are on one
/// line and trimmed, and the name is not empty and holds no `=`.
pub open spec fn is_plain_entry(e: EnvText) -> bool {
    &&& is_item(e.0, Cut::Lines)
    &&& !e.0.contains('=')
    &&& e.1.len() > 0 ==> is_item(e.1, Cut::Lines)
}

proof fn lemma_entry_of_line(e: EnvText)
    requires
        is_plain_entry(e),
    ensures
        env_entry(e.0 + "="@ + e.1) == Some(e),
        is_item(e.0 + "="@ + e.1, Cut::Lines),
{
    reveal_strlit("=");
    let line = e.0 + "="@ + e.1;
    let at = e.0.len() as int;
    assert(line[at] == '=');
    line.index_of_first_ensures('=');
    assert(line.contains('='));
    let found = line.index_of_first('=')->0;
    if found < at {
        assert(e.0[found] == '=');
        assert(e.0.contains('='));
    }
    assert(found == at);
    assert(line.take(at) =~= e.0);
    assert(line.skip(at + 1) =~= e.1);
    lemma_trimmed_of_clean(e.0);
    lemma_trimmed_of_clean(e.1);
    assert forall|i: int| 0 <= i < line.len() implies !Cut::Lines.at(#[trigger] line[i]) by {
        if i < at {
            assert(line[i] == e.0[i]);
        } else if i > at {
            assert(line[i] == e.1[i - at - 1]);
        }
    }
    assert(line[0] == e.0[0]);
    if e.1.len() > 0 {
        assert(line.last() == e.1.last());
    }
}

proof fn lemma_entries_of_lines(entries: Seq<EnvText>)
    requires
        forall|i: int| 0 <= i < entries.len() ==> is_plain_entry(#[trigger] entries[i]),
    ensures
        env_entries(env_lines(entries)) == entries,
        are_items(env_lines(entries), Cut::Lines),
    decreases entries.len(),
{
    assert forall|i: int| 0 <= i < entries.len() implies is_item(
        #[trigger] env_lines(entries)[i],
        Cut::Lines,
    ) by {
        lemma_entry_of_line(entries[i]);
    }
    if entries.len() > 0 {
        let rest = entries.drop_last();
        assert forall|i: int| 0 <= i < rest.len() implies is_plain_entry(#[trigger] rest[i]) by {
            assert(rest[i] == entries[i]);
        }
        lemma_entries_of_lines(rest);
        assert(env_lines(entries).drop_last() =~= env_lines(rest));
        assert(is_plain_entry(entries[entries.len() - 1]));
        lemma_entry_of_line(entries.last());
        assert(entries =~= rest.push(entries.last()));
    }
}

proof fn lemma_put_last(table: Seq<EnvText>, entry: EnvText)
    requires
        forall|i: int| 0 <= i < table.len() ==> text_before((#[trigger] table[i]).0, entry.0),
    ensures
        put_entry(table, entry) == table.push(entry),
    decreases table.len(),
{
    if table.len() > 0 {
        assert(text_before(table[0].0, entry.0));
        lemma_text_before_total(table[0].0, entry.0);
        lemma_text_before_irreflexive(entry.0);
        let rest = table.drop_first();
        assert forall|i: int| 0 <= i < rest.len() implies text_before(
            (#[trigger] rest[i]).0,
            entry.0,
        ) by {
            assert(rest[i] == table[i + 1]);
        }
        lemma_put_last(rest, entry);
        assert(put_entry(table, entry) =~= table.push(entry));
    } else {
        assert(put_entry(table, entry) =~= table.push(entry));
    }
}

proof fn lemma_table_of_sorted(entries: Seq<EnvText>)
    requires
        names_rise(entries),
    ensures
        env_table(entries) == entries,
    decreases entries.len(),
{
    if entries.len() > 0 {
        let rest = entries.drop_last();
        lemma_table_of_sorted(rest);
        assert forall|i: int| 0 <= i < rest.len() implies text_before(
            (#[trigger] rest[i]).0,
            entries.last().0,
        ) by {
            assert(text_before(entries[i].0, entries[entries.len() - 1].0));
        }
        lemma_put_last(rest, entries.last());
        assert(entries =~= rest.push(entries.last()));
    }
}

/// Opening a client-hosted stdio server in the editor and saving it unchanged
/// writes back the configuration it was opened from: name, command, arguments,
/// namespace and environment, the latter by name.
///
/// The configuration's texts must be ones that the form can carry: trimmed, no
/// white space inside an argument, variables on one line each.
pub proof fn law_saving_an_unchanged_client_server_keeps_it(
    cfg: McpServerConfig,
    enabled: bool,
    form: McpForm,
)
    requires
        cfg.http is None,
        trimmed(cfg.name@) == cfg.name@,
        trimmed(cfg.command@) == cfg.command@,
        cfg.command@.len() > 0,
        are_items(texts(cfg.args@), Cut::Words),
        cfg.namespace is Some ==> cfg.namespace->0@.len() > 0 && trimmed(cfg.namespace->0@)
            == cfg.namespace->0@,
        forall|i: int| 0 <= i < cfg.env@.len() ==> is_plain_entry(#[trigger] env_texts(cfg.env@)[i]),
        forall|i: int, j: int|
            0 <= i < j < cfg.env@.len() ==> (#[trigger] cfg.env@[i]).0@ != (#[trigger] cfg.env@[j]).0@,
        form.shows_config(cfg, enabled),
    ensures
        form.config() matches Ok(config) && {
            &&& config == (ConfigText {
                name: cfg.name@,
                enabled,
                command: cfg.command@,
                args: texts(cfg.args@),
                namespace: opt_text(cfg.namespace),
                env: config.env,
                http: None,
            })
            &&& config.env.to_multiset() == env_texts(cfg.env@).to_multiset()
            &&& names_rise(config.env)
        },
{
    broadcast use vstd::seq_lib::group_to_multiset_ensures;

    reveal_strlit(" ");
    reveal_strlit("\n");
    law_split_undoes_join(texts(cfg.args@), " "@, Cut::Words);
    lemma_trimmed_of_clean(Seq::<char>::empty());
    let sorted = choose|sorted: Seq<(String, String)>| #[trigger]
        ranked_from(ByName, cfg.env@, sorted) && form.env@ == joined(
            env_lines(env_texts(sorted)),
            "\n"@,
        );
    let entries = env_texts(sorted);
    assert forall|i: int| 0 <= i < sorted.len() implies cfg.env@.contains(#[trigger] sorted[i]) by {
        assert(sorted.to_multiset().count(sorted[i]) > 0);
    }
    assert forall|i: int| 0 <= i < entries.len() implies is_plain_entry(#[trigger] entries[i]) by {
        assert(cfg.env@.contains(sorted[i]));
        let k = choose|k: int| 0 <= k < cfg.env@.len() && cfg.env@[k] == sorted[i];
        assert(env_texts(cfg.env@)[k] == entries[i]);
    }
    assert(cfg.env@.no_duplicates());
    cfg.env@.lemma_multiset_has_no_duplicates();
    sorted.lemma_multiset_has_no_duplicates_conv();
    assert forall|i: int, j: int| 0 <= i < j < entries.len() implies text_before(
        (#[trigger] entries[i]).0,
        (#[trigger] entries[j]).0,
    ) by {
        assert(!ByName.before(sorted[j], sorted[i]));
        lemma_text_before_total(entries[i].0, entries[j].0);
        let a = choose|a: int| 0 <= a < cfg.env@.len() && cfg.env@[a] == sorted[i];
        let b = choose|b: int| 0 <= b < cfg.env@.len() && cfg.env@[b] == sorted[j];
        assert(sorted[i] != sorted[j]);
        assert(a < b ==> cfg.env@[a].0@ != cfg.env@[b].0@);
        assert(b < a ==> cfg.env@[b].0@ != cfg.env@[a].0@);
    }
    lemma_entries_of_lines(entries);
    law_split_undoes_join(env_lines(entries), "\n"@, Cut::Lines);
    lemma_table_of_sorted(entries);
    lemma_map_multiset(sorted, cfg.env@);
}

proof fn lemma_map_multiset(a: Seq<(String, String)>, b: Seq<(String, String)>)
    requires
        a.to_multiset() == b.to_multiset(),
    ensures
        env_texts(a).to_multiset() == env_texts(b).to_multiset(),
    decreases a.len(),
{
    broadcast use {vstd::seq_lib::group_to_multiset_ensures, vstd::multiset::group_multiset_axioms};

    assert(a.len() == a.to_multiset().len());
    assert(b.len() == b.to_multiset().len());
    if a.len() > 0 {
        let x = a.last();
        assert(b.contains(x)) by {
            assert(a.to_multiset().count(x) > 0);
        }
        let i = choose|i: int| 0 <= i < b.len() && b[i] == x;
        assert(a.drop_last() =~= a.remove(a.len() - 1));
        lemma_map_multiset(a.drop_last(), b.remove(i));
        assert(env_texts(a) =~= env_texts(a.drop_last()).push((x.0@, x.1@)));
        assert(env_texts(b) =~= env_texts(b.remove(i)).insert(i, (x.0@, x.1@)));
        vstd::seq_lib::to_multiset_insert(env_texts(b.remove(i)), i, (x.0@, x.1@));
    } else {
        assert(env_texts(a) =~= env_texts(b));
    }
}

/// No name is given two values.
pub open spec fn values_agree(pairs: Seq<EnvText>) -> bool {
    forall|i: int, j: int|
        0 <= i < pairs.len() && 0 <= j < pairs.len() && (#[trigger] pairs[i]).0 == (
        #[trigger] pairs[j]).0 ==> pairs[i] == pairs[j]
}

proof fn lemma_values_that_agree(pairs: Seq<EnvText>, e: EnvText)
    requires
        values_agree(pairs),
    ensures
        last_value(pairs, e.0, e.1) <==> pairs.contains(e),
{
    if pairs.contains(e) {
        let i = choose|i: int| 0 <= i < pairs.len() && pairs[i] == e;
        let names = pairs.map_values(|p: EnvText| p.0);
        assert(names[i] == e.0);
        names.index_of_last_ensures(e.0);
        let k = names.index_of_last(e.0)->0;
        assert(pairs[k].0 == pairs[i].0);
        assert(pairs[k] == (e.0, e.1));
        assert forall|j: int| k < j < pairs.len() implies (#[trigger] pairs[j]).0 != e.0 by {
            assert(names[j] == pairs[j].0);
        }
    }
}

/// There is one table of given variables whose names rise.
proof fn lemma_one_table(a: Seq<EnvText>, b: Seq<EnvText>)
    requires
        names_rise(a),
        names_rise(b),
        forall|e: EnvText| #[trigger] a.contains(e) <==> b.contains(e),
    ensures
        a == b,
    decreases a.len(),
{
    if a.len() == 0 {
        assert(b.len() == 0) by {
            if b.len() > 0 {
                assert(b.contains(b[0]));
                assert(a.contains(b[0]));
            }
        }
        assert(a =~= b);
    } else {
        assert(a.contains(a[0]));
        assert(b.contains(a[0]));
        let j = choose|j: int| 0 <= j < b.len() && b[j] == a[0];
        assert(b.contains(b[0]));
        assert(a.contains(b[0]));
        let i = choose|i: int| 0 <= i < a.len() && a[i] == b[0];
        if i > 0 && j > 0 {
            assert(text_before(a[0].0, a[i].0));
            assert(text_before(b[0].0, b[j].0));
            lemma_text_before_total(a[0].0, b[0].0);
        }
        assert(a[0] == b[0]);
        let x = a.drop_first();
        let y = b.drop_first();
        lemma_rest_of_table(a);
        lemma_rest_of_table(b);
        lemma_one_table(x, y);
        assert(a =~= seq![a[0]] + x);
        assert(b =~= seq![b[0]] + y);
    }
}

proof fn lemma_rest_of_table(a: Seq<EnvText>)
    requires
        names_rise(a),
        a.len() > 0,
    ensures
        names_rise(a.drop_first()),
        forall|e: EnvText| #[trigger]
            a.drop_first().contains(e) <==> a.contains(e) && e != a[0],
{
    let x = a.drop_first();
    assert forall|i: int, j: int| 0 <= i < j < x.len() implies text_before(
        (#[trigger] x[i]).0,
        (#[trigger] x[j]).0,
    ) by {
        assert(text_before(a[i + 1].0, a[j + 1].0));
    }
    assert forall|e: EnvText| #[trigger] x.contains(e) <==> a.contains(e) && e != a[0] by {
        if x.contains(e) {
            let k = choose|k: int| 0 <= k < x.len() && x[k] == e;
            assert(a[k + 1] == e);
            assert(text_before(a[0].0, a[k + 1].0));
            lemma_text_before_irreflexive(a[0].0);
        }
        if a.contains(e) && e != a[0] {
            let k = choose|k: int| 0 <= k < a.len() && a[k] == e;
            assert(x[k - 1] == e);
        }
    }
}

/// The configuration that is saved does not depend on the order of the lines in the
/// environment box, where no name is given two values.
pub proof fn law_the_order_of_the_environment_is_not_saved(form: McpForm, other: McpForm)
    requires
        other == (McpForm { env: other.env, ..form }),
        env_entries(items(form.env@, Cut::Lines)).to_multiset() == env_entries(
            items(other.env@, Cut::Lines),
        ).to_multiset(),
        values_agree(env_entries(items(form.env@, Cut::Lines))),
    ensures
        other.config() == form.config(),
{
    broadcast use vstd::seq_lib::group_to_multiset_ensures;

    let p = env_entries(items(form.env@, Cut::Lines));
    let q = env_entries(items(other.env@, Cut::Lines));
    assert forall|e: EnvText| #[trigger] p.contains(e) <==> q.contains(e) by {
        assert(p.contains(e) <==> p.to_multiset().count(e) > 0);
        assert(q.contains(e) <==> q.to_multiset().count(e) > 0);
    }
    assert(values_agree(q)) by {
        assert forall|i: int, j: int|
            0 <= i < q.len() && 0 <= j < q.len() && (#[trigger] q[i]).0 == (
            #[trigger] q[j]).0 implies q[i] == q[j] by {
            assert(p.contains(q[i]) && p.contains(q[j]));
            let x = choose|x: int| 0 <= x < p.len() && p[x] == q[i];
            let y = choose|y: int| 0 <= y < p.len() && p[y] == q[j];
            assert(p[x].0 == p[y].0);
        }
    }
    law_environment_is_sorted_and_the_last_value_counts(p);
    law_environment_is_sorted_and_the_last_value_counts(q);
    assert forall|e: EnvText| #[trigger]
        env_table(p).contains(e) <==> env_table(q).contains(e) by {
        assert(env_table(p).contains((e.0, e.1)) <==> last_value(p, e.0, e.1));
        assert(env_table(q).contains((e.0, e.1)) <==> last_value(q, e.0, e.1));
        lemma_values_that_agree(p, e);
        lemma_values_that_agree(q, e);
    }
    lemma_one_table(env_table(p), env_table(q));
}

/// Whatever a server is and wherever it runs, it is saved under its trimmed name and
/// with the Enabled box as it stands; and the request says so.
pub proof fn law_name_and_enabled_are_saved(form: McpForm, r: Result<BuiltMcpServer, String>)
    requires
        call_ensures(McpForm::build, (&form,), r),
    ensures
        form.config() is Ok <==> r is Ok,
        form.config() is Ok ==> form.config()->Ok_0.name == trimmed(form.name@)
            && form.config()->Ok_0.enabled == form.enabled,
        r is Ok ==> {
            let built = r->Ok_0;
            let start = "{\"name\":"@ + quoted(trimmed(form.name@)) + ",\"enabled\":"@;
            &&& built.name@ == trimmed(form.name@)
            &&& built.editing == form.editing
            &&& built.runner == form.runner
            &&& form.enabled ==> (start + "true"@).is_prefix_of(built.config_json@)
            &&& !form.enabled ==> (start + "false"@).is_prefix_of(built.config_json@)
        },
{
    if r is Ok {
        let c = form.config()->Ok_0;
        let start = "{\"name\":"@ + quoted(c.name) + ",\"enabled\":"@ + (if c.enabled {
            "true"@
        } else {
            "false"@
        });
        let command = if c.command.len() == 0 {
            None
        } else {
            Some(quoted(c.command))
        };
        let env = if c.env.len() == 0 {
            None
        } else {
            Some("{"@ + quoted_pairs(c.env) + "}"@)
        };
        let http = match c.http {
            Some(http) => Some(http.json()),
            None => None,
        };
        let rest = member("command"@, command) + member("args"@, array_opt(c.args)) + member(
            "namespace"@,
            quoted_opt(c.namespace),
        ) + member("env"@, env) + member("http"@, http) + "}"@;
        assert(c.json() =~= start + rest);
        assert(start.is_prefix_of(c.json()));
    }
}

/// A server that runs over stdio - every one of this client's, and those of the daemon's
/// that are set so - needs a command, and is saved with its words, namespace and
/// variables and without an address.
pub proof fn law_a_stdio_server_is_saved(form: McpForm)
    requires
        form.runner is Client || form.transport is Stdio,
        form.editing || is_good_name(trimmed(form.name@)),
    ensures
        form.config() is Ok <==> trimmed(form.command@).len() > 0,
        form.config() is Err ==> form.config()->Err_0
            == "Command is required for a stdio server."@,
        form.config() is Ok ==> {
            let c = form.config()->Ok_0;
            &&& c.command == trimmed(form.command@)
            &&& c.args == items(form.args@, Cut::Words)
            &&& c.namespace is Some <==> trimmed(form.namespace@).len() > 0
            &&& c.namespace is Some ==> c.namespace->0 == trimmed(form.namespace@)
            &&& forall|name: Seq<char>, value: Seq<char>| #[trigger]
                c.env.contains((name, value)) <==> last_value(
                    env_entries(items(form.env@, Cut::Lines)),
                    name,
                    value,
                )
            &&& c.http is None
        },
        form.secret() is None,
{
    law_environment_is_sorted_and_the_last_value_counts(
        env_entries(items(form.env@, Cut::Lines)),
    );
}

/// A server of the daemon's that is reached over HTTP needs a URL, and an account where
/// it signs in with one; it is saved with these, and a bearer token only by reference.
pub proof fn law_an_http_server_is_saved(form: McpForm)
    requires
        form.runner is Daemon && form.transport is Http,
        form.editing || is_good_name(trimmed(form.name@)),
    ensures
        form.config() is Ok <==> trimmed(form.url@).len() > 0 && (form.auth is OAuth ==> trimmed(
            form.oauth_account@,
        ).len() > 0),
        trimmed(form.url@).len() == 0 ==> form.config()->Err_0
            == "URL is required for an HTTP server."@,
        trimmed(form.url@).len() > 0 && form.config() is Err ==> form.config()->Err_0
            == "Choose a service account for OAuth authentication."@,
        form.config() is Ok ==> {
            let c = form.config()->Ok_0;
            &&& c.command.len() == 0 && c.args.len() == 0 && c.namespace is None && c.env.len()
                == 0
            &&& c.http is Some
            &&& c.http->0.url == trimmed(form.url@)
            &&& c.http->0.auth_bearer_secret is Some <==> form.auth is Bearer
            &&& form.auth is Bearer ==> c.http->0.auth_bearer_secret->0 == trimmed(form.name@)
                + "_token"@
            &&& c.http->0.oauth_account is Some <==> form.auth is OAuth
            &&& form.auth is OAuth ==> c.http->0.oauth_account->0 == trimmed(form.oauth_account@)
            &&& form.auth is OAuth ==> c.http->0.scopes == items(form.scopes@, Cut::List)
            &&& !(form.auth is OAuth) ==> c.http->0.scopes.len() == 0
        },
        form.secret() is Some <==> form.auth is Bearer && trimmed(form.bearer_token@).len() > 0,
        form.secret() is Some ==> form.secret()->Some_0.1 == trimmed(form.bearer_token@)
            && form.secret()->Some_0.0 == trimmed(form.name@) + "_token"@,
{
}

/// A name that a new server may have: something, of letters, digits, hyphens and
/// underscores.
pub open spec fn is_good_name(name: Seq<char>) -> bool {
    &&& name.len() > 0
    &&& forall|i: int|
        0 <= i < name.len() ==> {
            let c = #[trigger] name[i];
            'a' <= c <= 'z' || 'A' <= c <= 'Z' || '0' <= c <= '9' || c == '-' || c == '_'
        }
}

/// A new server needs a good name; one that is edited keeps the one it has.
pub proof fn law_a_new_server_needs_a_good_name(form: McpForm, r: Result<BuiltMcpServer, String>)
    requires
        call_ensures(McpForm::build, (&form,), r),
        !form.editing,
        !is_good_name(trimmed(form.name@)),
    ensures
        r is Err,
        trimmed(form.name@).len() == 0 ==> r->Err_0@ == "Server name is required."@,
        trimmed(form.name@).len() > 0 ==> r->Err_0@
            == "Name may only contain letters, digits, '-', and '_'."@,
{
    lemma_good_names(trimmed(form.name@));
}

proof fn lemma_good_names(name: Seq<char>)
    ensures
        is_good_name(name) <==> name_problem(name) is None,
{
    if name.len() > 0 && !is_good_name(name) {
        let i = choose|i: int|
            0 <= i < name.len() && !({
                let c = #[trigger] name[i];
                'a' <= c <= 'z' || 'A' <= c <= 'Z' || '0' <= c <= '9' || c == '-' || c == '_'
            });
        assert(!is_slug_char(name[i]));
    }
    if name.len() > 0 && !is_slug(name) {
        let i = choose|i: int| 0 <= i < name.len() && !is_slug_char(#[trigger] name[i]);
        assert(!is_good_name(name)) by {
            assert(!({
                let c = name[i];
                'a' <= c <= 'z' || 'A' <= c <= 'Z' || '0' <= c <= '9' || c == '-' || c == '_'
            }));
        }
    }
}

/// The name check by itself.
pub proof fn law_names_are_validated(name: &str, r: Result<(), String>)
    requires
        call_ensures(validate_name, (name,), r),
    ensures
        r is Ok <==> is_good_name(name@),
{
    lemma_good_names(name@);
}

/// Editing a server of the daemon's shows what the daemon tells of it and nothing
/// secret, and saving it at once keeps its name, its Enabled box and its kind.
pub proof fn law_editing_a_daemon_server_starts_from_what_it_is(
    view: McpServerView,
    form: McpForm,
    r: Result<BuiltMcpServer, String>,
)
    requires
        call_ensures(McpForm::from_view, (&view,), form),
        call_ensures(McpForm::build, (&form,), r),
    ensures
        form.editing && form.runner is Daemon,
        form.name@ == view.name@,
        form.enabled == view.enabled,
        form.transport is Http <==> view.transport@ == "http"@,
        form.bearer_token@.len() == 0 && form.env@.len() == 0,
        form.auth is Bearer <==> view.auth_kind is Some && view.auth_kind->0@ == "bearer"@,
        form.auth is OAuth <==> view.auth_kind is Some && view.auth_kind->0@ == "oauth"@,
        r is Ok ==> r->Ok_0.editing && r->Ok_0.runner is Daemon && r->Ok_0.name@ == trimmed(
            view.name@,
        ) && r->Ok_0.secret is None,
        view.transport@ != "http"@ && trimmed(view.command@).len() > 0 ==> r is Ok
            && form.config()->Ok_0.command == trimmed(view.command@)
            && form.config()->Ok_0.enabled == view.enabled,
        view.transport@ == "http"@ && trimmed(view.target@).len() > 0 && !(form.auth is OAuth)
            ==> r is Ok && form.config()->Ok_0.http->0.url == trimmed(view.target@)
            && form.config()->Ok_0.enabled == view.enabled,
        view.namespace is Some ==> form.namespace@ == view.namespace->0@,
        view.namespace is None ==> form.namespace@.len() == 0,
        view.oauth_account_ref is Some ==> form.oauth_account@ == view.oauth_account_ref->0@,
        view.oauth_account_ref is None ==> form.oauth_account@.len() == 0,
{
    reveal_strlit("bearer");
    reveal_strlit("oauth");
    assert("bearer"@[0] == 'b');
    assert("oauth"@[0] == 'o');
    lemma_trimmed_of_clean(Seq::<char>::empty());
}

/// Saving an edited server of the daemon's unchanged keeps its words, where they have no
/// white space inside, and the account and scopes of one that signs in.
pub proof fn law_saving_an_unchanged_daemon_server_keeps_its_words(
    view: McpServerView,
    form: McpForm,
)
    requires
        call_ensures(McpForm::from_view, (&view,), form),
        form.config() is Ok,
        are_items(texts(view.args@), Cut::Words),
        are_items(texts(view.oauth_scopes@), Cut::List),
    ensures
        view.transport@ != "http"@ ==> form.config()->Ok_0.args == texts(view.args@),
        view.transport@ == "http"@ && view.auth_kind is Some && view.auth_kind->0@ == "oauth"@ ==> {
            &&& form.config()->Ok_0.http->0.scopes == texts(view.oauth_scopes@)
            &&& view.oauth_account_ref is Some
            &&& form.config()->Ok_0.http->0.oauth_account == Some(
                trimmed(view.oauth_account_ref->0@),
            )
        },
{
    reveal_strlit(" ");
    reveal_strlit("bearer");
    reveal_strlit("oauth");
    assert("bearer"@[0] == 'b');
    assert("oauth"@[0] == 'o');
    lemma_trimmed_of_clean(Seq::<char>::empty());
    law_split_undoes_join(texts(view.args@), " "@, Cut::Words);
    law_split_undoes_join(texts(view.oauth_scopes@), " "@, Cut::List);
}

/// Editing one of this client's servers shows what its configuration holds.
pub proof fn law_editing_a_client_server_starts_from_what_it_is(
    cfg: McpServerConfig,
    enabled: bool,
    form: McpForm,
)
    requires
        call_ensures(McpForm::from_client_config, (&cfg, enabled), form),
    ensures
        form.editing && form.runner is Client,
        form.name@ == cfg.name@,
        form.enabled == enabled,
        form.command@ == cfg.command@,
        form.args@ == joined(texts(cfg.args@), " "@),
        form.bearer_token@.len() == 0,
        cfg.namespace is Some ==> form.namespace@ == cfg.namespace->0@,
        cfg.namespace is None ==> form.namespace@.len() == 0,
        cfg.http is None ==> form.transport is Stdio && form.auth is NoAuth && form.url@.len()
            == 0,
        cfg.http is Some ==> {
            let http = cfg.http->0;
            &&& form.transport is Http
            &&& form.url@ == http.url@
            &&& form.auth is OAuth <==> http.oauth_account is Some
            &&& form.auth is NoAuth <==> http.oauth_account is None
                && http.auth_bearer_secret is None
            &&& http.oauth_account is Some ==> form.oauth_account@ == http.oauth_account->0@
            &&& form.scopes@ == joined(texts(http.scopes@), " "@)
        },
{
}

/// A blank form is for a new server of the daemon's that is on, and says nothing yet.
pub proof fn law_a_blank_form_is_blank(
    transport: McpTransport,
    form: McpForm,
    r: Result<BuiltMcpServer, String>,
)
    requires
        call_ensures(McpForm::blank, (transport,), form),
        call_ensures(McpForm::build, (&form,), r),
    ensures
        !form.editing && form.runner is Daemon && form.enabled && form.auth is NoAuth,
        form.transport == transport,
        form.name@.len() == 0 && form.command@.len() == 0 && form.args@.len() == 0,
        form.namespace@.len() == 0 && form.env@.len() == 0 && form.url@.len() == 0,
        form.bearer_token@.len() == 0 && form.oauth_account@.len() == 0 && form.scopes@.len() == 0,
        r is Err && r->Err_0@ == "Server name is required."@,
{
    assert(form.name@ =~= Seq::<char>::empty());
    lemma_trimmed_of_clean(Seq::<char>::empty());
}

/// A new server is refused where its runner already has one of that name, and only
/// there; one of the same name on the other runner, or an edit, is no obstacle.
pub proof fn law_only_the_own_runners_names_are_taken(
    form: McpForm,
    daemon_names: Vec<String>,
    client_names: Vec<String>,
    built: Result<BuiltMcpServer, String>,
    r: Result<BuiltMcpServer, String>,
)
    requires
        call_ensures(McpForm::build, (&form,), built),
        call_ensures(submit, (&form, &daemon_names, &client_names), r),
    ensures
        ({
            let on_daemon = exists|i: int|
                0 <= i < daemon_names@.len() && (#[trigger] daemon_names@[i])@ == trimmed(
                    form.name@,
                );
            let on_client = exists|i: int|
                0 <= i < client_names@.len() && (#[trigger] client_names@[i])@ == trimmed(
                    form.name@,
                );
            let taken = !form.editing && (if form.runner is Daemon {
                on_daemon
            } else {
                on_client
            });
            &&& r is Ok <==> built is Ok && !taken
            &&& r is Ok ==> r->Ok_0.name@ == built->Ok_0.name@ && r->Ok_0.config_json@
                == built->Ok_0.config_json@ && r->Ok_0.runner == built->Ok_0.runner
                && r->Ok_0.editing == built->Ok_0.editing && pair_text(r->Ok_0.secret)
                == pair_text(built->Ok_0.secret)
            &&& built is Err ==> r->Err_0@ == built->Err_0@
            &&& built is Ok && taken ==> r->Err_0@ == "A server named \""@ + trimmed(form.name@)
                + "\" already exists on that runner - edit it instead."@
        }),
{
    lemma_among(daemon_names@, trimmed(form.name@));
    lemma_among(client_names@, trimmed(form.name@));
}

proof fn lemma_among(names: Seq<String>, name: Seq<char>)
    ensures
        texts(names).contains(name) <==> exists|i: int|
            0 <= i < names.len() && (#[trigger] names[i])@ == name,
{
    if texts(names).contains(name) {
        let i = choose|i: int| 0 <= i < texts(names).len() && texts(names)[i] == name;
        assert(names[i]@ == name);
    }
    if exists|i: int| 0 <= i < names.len() && (#[trigger] names[i])@ == name {
        let i = choose|i: int| 0 <= i < names.len() && (#[trigger] names[i])@ == name;
        assert(texts(names)[i] == name);
    }
}

/// A typed name is taken exactly where an existing one reads the same once trimmed.
pub proof fn law_a_taken_name_is_told(name: &str, existing: Vec<String>, r: bool)
    requires
        call_ensures(is_duplicate_new_name, (name, &existing), r),
    ensures
        r <==> exists|i: int|
            0 <= i < existing@.len() && (#[trigger] existing@[i])@ == trimmed(name@),
{
    lemma_among(existing@, trimmed(name@));
}

/// The fields that show are those that are saved: a command for stdio, a URL for HTTP,
/// a token or an account with it as the kind of authentication has it; this client's
/// servers have stdio only.
pub proof fn law_the_fields_shown_are_the_fields_saved(
    runner: u32,
    transport: u32,
    auth: u32,
    r: McpFieldsShown,
)
    requires
        call_ensures(fields_shown, (runner, transport, auth), r),
    ensures
        r.transport <==> runner != 1,
        r.client_hint <==> runner == 1,
        r.force_stdio <==> runner == 1 && transport != 0,
        r.http <==> runner != 1 && transport == 1,
        r.stdio <==> runner == 1 || transport != 1,
        r.bearer <==> runner != 1 && transport == 1 && auth == 1,
        r.oauth <==> runner != 1 && transport == 1 && auth == 2,
{
}

/// The dropdowns of the form read back what they were set to: stdio before HTTP, the
/// daemon before this client, and no authentication before a token before an account.
pub proof fn law_form_positions(
    t: McpTransport,
    t_at: u32,
    w: Runner,
    w_at: u32,
    a: McpAuthKind,
    a_at: u32,
    i: u32,
    t_of: McpTransport,
    w_of: Runner,
    a_of: McpAuthKind,
)
    requires
        call_ensures(transport_to_index, (t,), t_at),
        call_ensures(runner_to_index, (w,), w_at),
        call_ensures(auth_to_index, (a,), a_at),
        call_ensures(transport_from_index, (i,), t_of),
        call_ensures(runner_from_index, (i,), w_of),
        call_ensures(auth_from_index, (i,), a_of),
    ensures
        t_at == (if t is Http {
            1u32
        } else {
            0u32
        }),
        w_at == (if w is Client {
            1u32
        } else {
            0u32
        }),
        a_at == (if a is Bearer {
            1u32
        } else if a is OAuth {
            2u32
        } else {
            0u32
        }),
        t_of is Http <==> i == 1,
        w_of is Client <==> i == 1,
        a_of is Bearer <==> i == 1,
        a_of is OAuth <==> i == 2,
{
}

/// The dialog says whether it adds or edits, and only adding unlocks the name and the
/// runner.
pub proof fn law_the_dialog_says_what_it_does(initial: McpForm, r: McpDialogLabels)
    requires
        call_ensures(dialog_labels, (&initial,), r),
    ensures
        r.unlocked <==> !initial.editing,
        r.env_note <==> initial.editing,
        r.title@ == (if initial.editing {
            "Edit MCP server: "@ + initial.name@
        } else {
            "Add MCP server"@
        }),
        r.save@ == (if initial.editing {
            "Save"@
        } else {
            "Create"@
        }),
        initial.editing ==> r.token_placeholder@ == "Leave blank to keep the stored token"@
            && r.runner@ == "Runs on (locked)"@ && r.name@ == "Name (locked)"@,
        !initial.editing ==> r.token_placeholder@ == "Stored write-only; never shown here"@
            && r.runner@ == "Runs on"@ && r.name@ == "Name"@,
{
}

/// The picker offers no account and then every account, by its name or else its id, and
/// marks those that are not signed in; choosing a position chooses the id there, and
/// the account that is in use is the one selected.
pub proof fn law_the_account_picked_is_the_account_used(
    accounts: Vec<ServiceAccountView>,
    current: &str,
    picker: AccountPicker,
    position: usize,
    chosen: String,
)
    requires
        call_ensures(account_picker, (&accounts, current), picker),
        call_ensures(chosen_account, (&picker.ids, position), chosen),
    ensures
        picker.ids@.len() == accounts@.len() + 1,
        picker.labels@.len() == accounts@.len() + 1,
        position == 0 ==> chosen@.len() == 0 && picker.labels@[0]@ == "(choose an account)"@,
        1 <= position <= accounts@.len() ==> {
            let account = accounts@[position - 1];
            let shown = if account.display_name@.len() > 0 {
                account.display_name@
            } else {
                account.id@
            };
            &&& chosen@ == account.id@
            &&& account.authorized ==> picker.labels@[position as int]@ == shown
            &&& !account.authorized ==> picker.labels@[position as int]@ == shown
                + "  (not signed in)"@
        },
        position > accounts@.len() ==> chosen@.len() == 0,
        picker.selected == Some(position) ==> chosen@ == current@,
        picker.selected is None ==> forall|i: int|
            0 <= i < accounts@.len() ==> (#[trigger] accounts@[i]).id@ != current@,
        picker.selected is None ==> current@.len() > 0,
{
    if 1 <= position <= accounts@.len() {
        let account = accounts@[position - 1];
        assert(picker.ids@[position as int]@ == account.id@);
    }
    if picker.selected == Some(position) {
        assert(texts(picker.ids@)[position as int] == picker.ids@[position as int]@);
    }
    if picker.selected is None {
        assert forall|i: int| 0 <= i < accounts@.len() implies (#[trigger] accounts@[i]).id@
            != current@ by {
            assert(texts(picker.ids@)[i + 1] == accounts@[i].id@);
        }
        if current@.len() == 0 {
            assert(picker.ids@[0]@ =~= current@);
            assert(texts(picker.ids@)[0] == current@);
        }
    }
}

/// A token is stored under the name of its server.
pub proof fn law_tokens_are_stored_by_server(name: &str, r: String)
    requires
        call_ensures(bearer_secret_ref, (name,), r),
    ensures
        r@.len() == name@.len() + 6,
        r@.take(name@.len() as int) == name@,
        r@.skip(name@.len() as int) == "_token"@,
{
    reveal_strlit("_token");
    assert(r@.take(name@.len() as int) =~= name@);
    assert(r@.skip(name@.len() as int) =~= "_token"@);
}

/// An environment line gives a variable exactly where something stands before its first
/// equals sign; the variable is what stands before it, and the value what stands after.
pub proof fn law_a_line_gives_a_variable(name: Seq<char>, value: Seq<char>)
    requires
        !name.contains('='),
    ensures
        env_entry(name) is None,
        trimmed(name).len() == 0 ==> env_entry(name + "="@ + value) is None,
        trimmed(name).len() > 0 ==> env_entry(name + "="@ + value) == Some(
            (trimmed(name), trimmed(value)),
        ),
{
    reveal_strlit("=");
    let line = name + "="@ + value;
    let at = name.len() as int;
    name.index_of_first_ensures('=');
    line.index_of_first_ensures('=');
    assert(line[at] == '=');
    assert(line.contains('='));
    let found = line.index_of_first('=')->0;
    if found < at {
        assert(name[found] == '=');
        assert(name.contains('='));
    }
    assert(found == at);
    assert(line.take(at) =~= name);
    assert(line.skip(at + 1) =~= value);
}

proof fn lemma_blank_around_a_variable(name: Seq<char>, value: Seq<char>)
    requires
        !name.contains('='),
    ensures
        trimmed(name + "="@ + value).len() > 0,
        trimmed(name).len() == 0 ==> env_entry(trimmed(name + "="@ + value)) is None,
        trimmed(name).len() > 0 ==> env_entry(trimmed(name + "="@ + value)) == Some(
            (trimmed(name), trimmed(value)),
        ),
{
    reveal_strlit("=");
    let line = name + "="@ + value;
    let at = name.len() as int;
    assert(line[at] == '=');
    lemma_trimmed_stands(line);
    let (i, j) = choose|i: int, j: int| stands_between(line, trimmed(line), i, j);
    assert(i <= at < j);
    let front = name.skip(i);
    let back = value.take(j - at - 1);
    assert(trimmed(line) =~= front + "="@ + back);
    assert forall|k: int| 0 <= k < i implies is_white_space(#[trigger] name[k]) by {
        assert(line[k] == name[k]);
    }
    assert forall|k: int| j - at - 1 <= k < value.len() implies is_white_space(
        #[trigger] value[k],
    ) by {
        assert(line[at + 1 + k] == value[k]);
    }
    lemma_trimmed_skips(name, i);
    lemma_trimmed_takes(value, j - at - 1);
    if front.contains('=') {
        let k = choose|k: int| 0 <= k < front.len() && front[k] == '=';
        assert(name[i + k] == '=');
        assert(name.contains('='));
    }
    law_a_line_gives_a_variable(front, back);
}

/// One more line of the environment gives one more variable behind those that were
/// there: what stands before its first equals sign is the name and what stands after it
/// the value, both trimmed. A line without a name gives none.
pub proof fn law_one_more_line_gives_one_more_variable(
    text: &str,
    longer: &str,
    name: Seq<char>,
    value: Seq<char>,
    r: Vec<(String, String)>,
    more: Vec<(String, String)>,
)
    requires
        call_ensures(parse_env, (text,), r),
        call_ensures(parse_env, (longer,), more),
        longer@ == text@.push('\n') + (name + "="@ + value),
        !name.contains('=') && !name.contains('\n') && !value.contains('\n'),
    ensures
        trimmed(name).len() == 0 ==> env_texts(more@) == env_texts(r@),
        trimmed(name).len() > 0 ==> env_texts(more@) == env_texts(r@).push(
            (trimmed(name), trimmed(value)),
        ),
{
    reveal_strlit("=");
    let line = name + "="@ + value;
    assert forall|k: int| 0 <= k < line.len() implies !Cut::Lines.at(#[trigger] line[k]) by {
        if line[k] == '\n' {
            if k < name.len() {
                assert(name[k] == '\n');
            } else {
                assert(value[k - name.len() - 1] == '\n');
            }
        }
    }
    lemma_items_push(text@, '\n', line, Cut::Lines);
    lemma_blank_around_a_variable(name, value);
    let lines = items(text@, Cut::Lines);
    let now = lines.push(trimmed(line));
    assert(now.drop_last() =~= lines);
}

/// A line without an equals sign gives no variable, and an empty text none at all.
pub proof fn law_a_line_without_a_sign_gives_none(
    text: &str,
    longer: &str,
    line: Seq<char>,
    r: Vec<(String, String)>,
    more: Vec<(String, String)>,
)
    requires
        call_ensures(parse_env, (text,), r),
        call_ensures(parse_env, (longer,), more),
        longer@ == text@.push('\n') + line,
        !line.contains('=') && !line.contains('\n'),
    ensures
        env_texts(more@) == env_texts(r@),
        text@.len() == 0 ==> r@.len() == 0,
{
    assert forall|k: int| 0 <= k < line.len() implies !Cut::Lines.at(#[trigger] line[k]) by {
        if line[k] == '\n' {
            assert(line.contains('\n'));
        }
    }
    lemma_items_push(text@, '\n', line, Cut::Lines);
    let lines = items(text@, Cut::Lines);
    if trimmed(line).len() > 0 {
        let t = trimmed(line);
        lemma_trimmed_stands(line);
        let (i, j) = choose|i: int, j: int| stands_between(line, t, i, j);
        if t.contains('=') {
            let k = choose|k: int| 0 <= k < t.len() && t[k] == '=';
            assert(line[i + k] == '=');
            assert(line.contains('='));
        }
        law_a_line_gives_a_variable(t, t);
        assert(lines.push(t).drop_last() =~= lines);
    }
    assert(env_texts(r@).len() == r@.len());
    if text@.len() == 0 {
        let none = Seq::<char>::empty();
        lemma_trimmed_of_clean(none);
        let parts = pieces(text@, Cut::Lines);
        assert(parts =~= seq![none]);
        assert(parts.drop_last() =~= Seq::<Seq<char>>::empty());
        assert(filled(parts.drop_last()) =~= Seq::<Seq<char>>::empty());
        assert(parts.last() == none);
        assert(lines =~= Seq::<Seq<char>>::empty());
    }
}

/// Arguments are split at white space, and scopes at commas and white space.
pub proof fn law_words_and_lists_are_split(
    text: &str,
    words: Vec<String>,
    args: Vec<String>,
    list: Vec<String>,
    scopes: Vec<String>,
)
    requires
        call_ensures(split_items, (text, Cut::Words), words),
        call_ensures(split_args, (text,), args),
        call_ensures(split_items, (text, Cut::List), list),
        call_ensures(split_scopes, (text,), scopes),
    ensures
        texts(args@) == texts(words@),
        texts(scopes@) == texts(list@),
{
}

/// Something that is written only under a condition.
pub open spec fn written_if(condition: bool, text: Seq<char>) -> Seq<char> {
    if condition {
        text
    } else {
        Seq::empty()
    }
}

/// One environment variable in JSON.
pub open spec fn env_member(e: EnvText) -> Seq<char> {
    quoted(e.0) + ":"@ + quoted(e.1)
}

proof fn lemma_pairs_are_members(pairs: Seq<EnvText>)
    ensures
        quoted_pairs(pairs) == joined(pairs.map_values(|e: EnvText| env_member(e)), ","@),
    decreases pairs.len(),
{
    let all = pairs.map_values(|e: EnvText| env_member(e));
    if pairs.len() > 0 {
        let rest = pairs.drop_last();
        lemma_pairs_are_members(rest);
        assert(all.drop_last() =~= rest.map_values(|e: EnvText| env_member(e)));
        assert(all.last() == env_member(pairs.last()));
        if pairs.len() == 1 {
            assert(rest =~= Seq::<EnvText>::empty());
            assert(quoted_pairs(pairs) =~= all[0]);
        } else {
            assert(quoted_pairs(pairs) =~= joined(all.drop_last(), ","@) + ","@ + all.last());
        }
    } else {
        assert(all.len() == 0);
    }
}

proof fn lemma_member_names()
    ensures
        forall|v: Seq<char>| #[trigger] member("command"@, Some(v)) == ",\"command\":"@ + v,
        forall|v: Seq<char>| #[trigger] member("args"@, Some(v)) == ",\"args\":"@ + v,
        forall|v: Seq<char>| #[trigger] member("namespace"@, Some(v)) == ",\"namespace\":"@ + v,
        forall|v: Seq<char>| #[trigger] member("env"@, Some(v)) == ",\"env\":"@ + v,
        forall|v: Seq<char>| #[trigger] member("http"@, Some(v)) == ",\"http\":"@ + v,
        forall|v: Seq<char>| #[trigger]
            member("auth_bearer_secret"@, Some(v)) == ",\"auth_bearer_secret\":"@ + v,
        forall|v: Seq<char>| #[trigger]
            member("oauth_account"@, Some(v)) == ",\"oauth_account\":"@ + v,
        forall|v: Seq<char>| #[trigger] member("scopes"@, Some(v)) == ",\"scopes\":"@ + v,
{
    reveal_strlit(",\"");
    reveal_strlit("\":");
    reveal_strlit("command");
    reveal_strlit("args");
    reveal_strlit("namespace");
    reveal_strlit("env");
    reveal_strlit("http");
    reveal_strlit("auth_bearer_secret");
    reveal_strlit("oauth_account");
    reveal_strlit("scopes");
    reveal_strlit(",\"command\":");
    reveal_strlit(",\"args\":");
    reveal_strlit(",\"namespace\":");
    reveal_strlit(",\"env\":");
    reveal_strlit(",\"http\":");
    reveal_strlit(",\"auth_bearer_secret\":");
    reveal_strlit(",\"oauth_account\":");
    reveal_strlit(",\"scopes\":");
    assert(",\""@ + "command"@ + "\":"@ =~= ",\"command\":"@);
    assert(",\""@ + "args"@ + "\":"@ =~= ",\"args\":"@);
    assert(",\""@ + "namespace"@ + "\":"@ =~= ",\"namespace\":"@);
    assert(",\""@ + "env"@ + "\":"@ =~= ",\"env\":"@);
    assert(",\""@ + "http"@ + "\":"@ =~= ",\"http\":"@);
    assert(",\""@ + "auth_bearer_secret"@ + "\":"@ =~= ",\"auth_bearer_secret\":"@);
    assert(",\""@ + "oauth_account"@ + "\":"@ =~= ",\"oauth_account\":"@);
    assert(",\""@ + "scopes"@ + "\":"@ =~= ",\"scopes\":"@);
}

/// A stdio server needs a command, and is written with its name, whether it is enabled,
/// its command and whatever else was filled in: arguments, namespace, and the
/// environment by name.
pub proof fn law_a_stdio_server_is_written(form: McpForm, r: Result<BuiltMcpServer, String>)
    requires
        call_ensures(McpForm::build, (&form,), r),
        form.runner is Client || form.transport is Stdio,
        form.editing || is_good_name(trimmed(form.name@)),
    ensures
        r is Ok <==> trimmed(form.command@).len() > 0,
        r is Err ==> r->Err_0@ == "Command is required for a stdio server."@,
        r is Ok ==> r->Ok_0.secret is None,
        r is Ok ==> ({
            let args = items(form.args@, Cut::Words);
            let namespace = trimmed(form.namespace@);
            let variables = env_table(env_entries(items(form.env@, Cut::Lines)));
            let members = variables.map_values(|e: EnvText| env_member(e));
            r->Ok_0.config_json@ == "{\"name\":"@ + quoted(trimmed(form.name@))
                + ",\"enabled\":"@ + (if form.enabled {
                "true"@
            } else {
                "false"@
            }) + (",\"command\":"@ + quoted(trimmed(form.command@))) + written_if(
                args.len() > 0,
                ",\"args\":"@ + ("["@ + quoted_list(args) + "]"@),
            ) + written_if(namespace.len() > 0, ",\"namespace\":"@ + quoted(namespace))
                + written_if(
                variables.len() > 0,
                ",\"env\":"@ + ("{"@ + joined(members, ","@) + "}"@),
            ) + "}"@
        }),
{
    lemma_good_names(trimmed(form.name@));
    lemma_member_names();
    let variables = env_table(env_entries(items(form.env@, Cut::Lines)));
    lemma_pairs_are_members(variables);
    if r is Ok {
        let c = form.config()->Ok_0;
        let none = Seq::<char>::empty();
        let start = "{\"name\":"@ + quoted(c.name) + ",\"enabled\":"@ + (if c.enabled {
            "true"@
        } else {
            "false"@
        }) + member("command"@, Some(quoted(c.command))) + member("args"@, array_opt(c.args))
            + member("namespace"@, quoted_opt(c.namespace));
        let env = if c.env.len() == 0 {
            None
        } else {
            Some("{"@ + quoted_pairs(c.env) + "}"@)
        };
        assert(c.json() == start + member("env"@, env) + member("http"@, None) + "}"@);
        assert(start + member("env"@, env) + none =~= start + member("env"@, env));
    }
}

/// A server that the daemon reaches over HTTP needs a URL, and an account where it signs
/// in with one. It is written with its name, whether it is enabled and how it is reached:
/// a bearer token by reference only, and an account with its scopes.
pub proof fn law_an_http_server_is_written(form: McpForm, r: Result<BuiltMcpServer, String>)
    requires
        call_ensures(McpForm::build, (&form,), r),
        form.runner is Daemon && form.transport is Http,
        form.editing || is_good_name(trimmed(form.name@)),
    ensures
        r is Ok <==> trimmed(form.url@).len() > 0 && (form.auth is OAuth ==> trimmed(
            form.oauth_account@,
        ).len() > 0),
        trimmed(form.url@).len() == 0 ==> r->Err_0@ == "URL is required for an HTTP server."@,
        trimmed(form.url@).len() > 0 && r is Err ==> r->Err_0@
            == "Choose a service account for OAuth authentication."@,
        r is Ok ==> (r->Ok_0.secret is Some <==> form.auth is Bearer && trimmed(
            form.bearer_token@,
        ).len() > 0),
        r is Ok && r->Ok_0.secret is Some ==> r->Ok_0.secret->Some_0.0@ == trimmed(form.name@)
            + "_token"@ && r->Ok_0.secret->Some_0.1@ == trimmed(form.bearer_token@),
        r is Ok ==> ({
            let scopes = items(form.scopes@, Cut::List);
            let http = "{\"url\":"@ + quoted(trimmed(form.url@)) + written_if(
                form.auth is Bearer,
                ",\"auth_bearer_secret\":"@ + quoted(trimmed(form.name@) + "_token"@),
            ) + written_if(
                form.auth is OAuth,
                ",\"oauth_account\":"@ + quoted(trimmed(form.oauth_account@)),
            ) + written_if(
                form.auth is OAuth && scopes.len() > 0,
                ",\"scopes\":"@ + ("["@ + quoted_list(scopes) + "]"@),
            ) + "}"@;
            r->Ok_0.config_json@ == "{\"name\":"@ + quoted(trimmed(form.name@))
                + ",\"enabled\":"@ + (if form.enabled {
                "true"@
            } else {
                "false"@
            }) + (",\"http\":"@ + http) + "}"@
        }),
{
    lemma_good_names(trimmed(form.name@));
    lemma_member_names();
    if r is Ok {
        let c = form.config()->Ok_0;
        let none = Seq::<char>::empty();
        let start = "{\"name\":"@ + quoted(c.name) + ",\"enabled\":"@ + (if c.enabled {
            "true"@
        } else {
            "false"@
        });
        assert(start + none + none + none + none =~= start);
        assert(c.json() == start + none + none + none + none + member(
            "http"@,
            Some(c.http->0.json()),
        ) + "}"@);
    }
}

/// A name that is refused is told why.
pub proof fn law_a_refused_name_is_told_why(name: &str, r: Result<(), String>)
    requires
        call_ensures(validate_name, (name,), r),
    ensures
        r is Ok <==> is_good_name(name@),
        name@.len() == 0 ==> r->Err_0@ == "Server name is required."@,
        name@.len() > 0 && r is Err ==> r->Err_0@
            == "Name may only contain letters, digits, '-', and '_'."@,
{
    lemma_good_names(name@);
}

/// The form for a server of the daemon's shows each of its settings in its own field.
pub proof fn law_each_field_shows_the_listing(view: McpServerView, form: McpForm)
    requires
        call_ensures(McpForm::from_view, (&view,), form),
    ensures
        form.command@ == view.command@,
        form.args@ == joined(texts(view.args@), " "@),
        form.scopes@ == joined(texts(view.oauth_scopes@), " "@),
        view.transport@ == "http"@ ==> form.url@ == view.target@,
        view.transport@ != "http"@ ==> form.url@.len() == 0,
        form.auth is NoAuth <==> view.auth_kind is None || view.auth_kind->0@ != "bearer"@
            && view.auth_kind->0@ != "oauth"@,
{
}

/// The form for a server of this client's shows how it signs in, and asks for no account
/// that it does not have.
pub proof fn law_each_field_shows_the_definition(
    cfg: McpServerConfig,
    enabled: bool,
    form: McpForm,
)
    requires
        call_ensures(McpForm::from_client_config, (&cfg, enabled), form),
    ensures
        cfg.http is None ==> form.oauth_account@.len() == 0 && form.scopes@.len() == 0,
        cfg.http is Some ==> {
            &&& form.auth is Bearer <==> cfg.http->0.oauth_account is None
                && cfg.http->0.auth_bearer_secret is Some
            &&& cfg.http->0.oauth_account is None ==> form.oauth_account@.len() == 0
        },
        cfg.env@.len() == 0 ==> form.env@.len() == 0,
{
    let sorted = choose|sorted: Seq<(String, String)>| #[trigger]
        ranked_from(ByName, cfg.env@, sorted) && form.env@ == joined(
            env_lines(env_texts(sorted)),
            "\n"@,
        );
    if cfg.env@.len() == 0 {
        broadcast use vstd::seq_lib::group_to_multiset_ensures;

        assert(sorted.to_multiset().len() == cfg.env@.to_multiset().len());
        assert(sorted.len() == 0);
        assert(env_lines(env_texts(sorted)).len() == 0);
    }
}

/// A server of this client's that is opened and saved at once is written as it was: its
/// name, its command and arguments, its namespace, and every variable of its environment.
pub proof fn law_an_unchanged_client_server_is_written_as_it_was(
    cfg: McpServerConfig,
    enabled: bool,
    form: McpForm,
    r: Result<BuiltMcpServer, String>,
)
    requires
        cfg.http is None,
        trimmed(cfg.name@) == cfg.name@,
        trimmed(cfg.command@) == cfg.command@,
        cfg.command@.len() > 0,
        are_items(texts(cfg.args@), Cut::Words),
        cfg.namespace is Some ==> cfg.namespace->0@.len() > 0 && trimmed(cfg.namespace->0@)
            == cfg.namespace->0@,
        forall|i: int| 0 <= i < cfg.env@.len() ==> is_plain_entry(#[trigger] env_texts(cfg.env@)[i]),
        forall|i: int, j: int|
            0 <= i < j < cfg.env@.len() ==> (#[trigger] cfg.env@[i]).0@ != (#[trigger] cfg.env@[j]).0@,
        call_ensures(McpForm::from_client_config, (&cfg, enabled), form),
        call_ensures(McpForm::build, (&form,), r),
    ensures
        r is Ok && r->Ok_0.name@ == cfg.name@ && r->Ok_0.runner is Client,
        exists|variables: Seq<EnvText>|
            {
                &&& #[trigger] variables.to_multiset() == env_texts(cfg.env@).to_multiset()
                &&& r->Ok_0.config_json@ == "{\"name\":"@ + quoted(cfg.name@) + ",\"enabled\":"@
                    + (if enabled {
                    "true"@
                } else {
                    "false"@
                }) + (",\"command\":"@ + quoted(cfg.command@)) + written_if(
                    cfg.args@.len() > 0,
                    ",\"args\":"@ + ("["@ + quoted_list(texts(cfg.args@)) + "]"@),
                ) + written_if(
                    cfg.namespace is Some,
                    ",\"namespace\":"@ + quoted(cfg.namespace->0@),
                ) + written_if(
                    variables.len() > 0,
                    ",\"env\":"@ + ("{"@ + joined(
                        variables.map_values(|e: EnvText| env_member(e)),
                        ","@,
                    ) + "}"@),
                ) + "}"@
            },
{
    law_saving_an_unchanged_client_server_keeps_it(cfg, enabled, form);
    law_a_stdio_server_is_written(form, r);
    let config = form.config()->Ok_0;
    assert(texts(cfg.args@).len() == cfg.args@.len());
    assert(items(form.args@, Cut::Words) == texts(cfg.args@));
    assert(filled_text(form.namespace@) == opt_text(cfg.namespace));
    assert(config.env.to_multiset() == env_texts(cfg.env@).to_multiset());
}

} // verus!
