//! The purposes tab of the settings dialog.
//!
//! A flat list of purpose, connection, model and effort for every purpose.
//! Interactive must bind to a real connection and model; the others may use the
//! sentinel `"primary"` to inherit from the interactive purpose.
//!
//! The widgets hold the dropdowns. What they list, what they select and when a
//! choice is a write worth sending is decided here.

use crate::api::{
    ConnectionView, EffortLevel, ModelListing, PurposeConfigText, PurposeConfigView,
    PurposeKindApi, PurposesView,
};
use crate::text::{copy_texts, opt_text, same_text, texts};
use vstd::prelude::*;

verus! {

/// What a purpose is bound to that inherits from the interactive one.
pub const PRIMARY_SENTINEL: &'static str = "primary";

/// What a purpose is called.
pub fn purpose_label(p: PurposeKindApi) -> (r: &'static str)
    ensures
        r@ == (match p {
            PurposeKindApi::Interactive => "Interactive"@,
            PurposeKindApi::Dreaming => "Dreaming"@,
            PurposeKindApi::Consolidation => "Consolidation"@,
            PurposeKindApi::Embedding => "Embedding"@,
            PurposeKindApi::Titling => "Titling"@,
            PurposeKindApi::Voice => "Voice"@,
        }),
{
    match p {
        PurposeKindApi::Interactive => "Interactive",
        PurposeKindApi::Dreaming => "Dreaming",
        PurposeKindApi::Consolidation => "Consolidation",
        PurposeKindApi::Embedding => "Embedding",
        PurposeKindApi::Titling => "Titling",
        PurposeKindApi::Voice => "Voice",
    }
}

/// What a row's dropdowns currently show, as plain data. `None` on a value means
/// the dropdown has nothing real selected, typically because its model list
/// failed to load.
#[derive(Debug, PartialEq, Eq)]
pub struct RowSelection {
    pub connection: Option<String>,
    pub model: Option<String>,
    pub effort: Option<EffortLevel>,
    pub max_context_tokens: Option<u64>,
}

impl RowSelection {
    /// What the row shows as a binding, where both dropdowns have a value.
    pub open spec fn binding(self) -> Option<PurposeConfigText> {
        if self.connection is Some && self.model is Some {
            Some(
                PurposeConfigText {
                    connection: self.connection->0@,
                    model: self.model->0@,
                    effort: self.effort,
                    max_context_tokens: self.max_context_tokens,
                },
            )
        } else {
            None
        }
    }
}

/// A binding that a purpose may have: the sentinel stands for both connection and
/// model or for neither, and the interactive purpose does not inherit.
pub open spec fn is_writable(purpose: PurposeKindApi, binding: PurposeConfigText) -> bool {
    &&& (binding.connection == PRIMARY_SENTINEL@) == (binding.model == PRIMARY_SENTINEL@)
    &&& binding.connection == PRIMARY_SENTINEL@ ==> purpose != PurposeKindApi::Interactive
}

/// The write that a row's binding calls for.
pub open spec fn write_of(
    purpose: PurposeKindApi,
    shown: Option<PurposeConfigText>,
    last_known: Option<PurposeConfigText>,
) -> Option<PurposeConfigText> {
    match shown {
        Some(binding) => if is_writable(purpose, binding) && last_known != Some(binding) {
            Some(binding)
        } else {
            None
        },
        None => None,
    }
}

/// The binding's texts, where there is one.
pub open spec fn config_text(config: Option<&PurposeConfigView>) -> Option<PurposeConfigText> {
    match config {
        Some(config) => Some(config@),
        None => None,
    }
}

/// Whether two bindings are the same.
fn same_binding(a: &PurposeConfigView, b: &PurposeConfigView) -> (r: bool)
    ensures
        r == (a@ == b@),
{
    let same_effort = match (a.effort, b.effort) {
        (Some(x), Some(y)) => x == y,
        (None, None) => true,
        _ => false,
    };
    let same_ceiling = match (a.max_context_tokens, b.max_context_tokens) {
        (Some(x), Some(y)) => x == y,
        (None, None) => true,
        _ => false,
    };
    same_text(a.connection.as_str(), b.connection.as_str()) && same_text(
        a.model.as_str(),
        b.model.as_str(),
    ) && same_effort && same_ceiling
}

/// Decide whether `current` is a write worth sending for `purpose`.
///
/// Returns `None`, meaning "not a user-intended change, send nothing", when:
///
/// * either dropdown has no real selection (the model list never loaded, so the
///   row cannot represent a binding it would be honest to write);
/// * the pair is mixed: `"primary"` means inherit and is only meaningful when
///   both connection and model carry it. A real connection with a `"primary"`
///   model is the shape that silently retires a live binding;
/// * `Interactive` claims to inherit: there is no primary above it;
/// * the result equals `last_known`, the state the daemon last reported. This is
///   what makes reconciliation structurally incapable of writing: it sets the
///   widgets to exactly that state, so anything it triggers is a no-op.
pub fn planned_write(
    purpose: PurposeKindApi,
    current: &RowSelection,
    last_known: Option<&PurposeConfigView>,
) -> (r: Option<PurposeConfigView>)
    ensures
        r is Some <==> write_of(purpose, current.binding(), config_text(last_known)) is Some,
        r is Some ==> write_of(purpose, current.binding(), config_text(last_known)) == Some(r->0@),
{
    let (connection, model) = match (&current.connection, &current.model) {
        (Some(connection), Some(model)) => (connection, model),
        _ => {
            return None;
        },
    };
    let connection_inherits = same_text(connection.as_str(), PRIMARY_SENTINEL);
    let model_inherits = same_text(model.as_str(), PRIMARY_SENTINEL);
    if connection_inherits != model_inherits {
        return None;
    }
    if connection_inherits && purpose == PurposeKindApi::Interactive {
        return None;
    }
    let candidate = PurposeConfigView {
        connection: connection.clone(),
        model: model.clone(),
        effort: current.effort,
        max_context_tokens: current.max_context_tokens,
    };
    if let Some(known) = last_known {
        if same_binding(known, &candidate) {
            return None;
        }
    }
    Some(candidate)
}

/// What a row's dropdown should display, as plain data that can be compared
/// before anything is written.
///
/// `values[i]` names what `labels[i]` selects. A label with no value at its index
/// is a notice ("Loading models...", "Models unavailable"), which the row reads
/// back as "nothing real selected", so it can never become a binding. That is why
/// `labels` may be longer than `values`.
#[derive(Debug, PartialEq, Eq)]
pub struct DropdownOptions {
    pub labels: Vec<String>,
    pub values: Vec<String>,
}

impl Default for DropdownOptions {
    fn default() -> (r: Self)
        ensures
            r.labels@.len() == 0,
            r.values@.len() == 0,
    {
        DropdownOptions { labels: Vec::new(), values: Vec::new() }
    }
}

/// What is known about one connection's model list.
///
/// Recording the outcome, not only the success, is what stops a failing
/// connection being asked again on every reconcile. Absence of an entry means
/// "never asked", which is the only state that starts a request.
#[derive(Debug, PartialEq, Eq)]
pub enum ModelListState {
    /// A request is in flight. A second request would be a duplicate.
    Pending,
    Loaded(Vec<ModelListing>),
    /// The request failed. Held so the reconcile loop stops re-asking; the user
    /// retries by reopening the settings, which builds a fresh tab.
    Failed(String),
}

/// Whether a list must be rewritten to show `desired`.
///
/// This is the whole defence against the rebuild loop. Every write to a list makes
/// the bound dropdown announce a selection, which re-enters the handler that
/// rebuilds. Comparing first means an unchanged list is written zero times, so the
/// re-entrant pass announces nothing and the cascade stops.
pub fn list_needs_sync(current: &Vec<String>, desired: &Vec<String>) -> (r: bool)
    ensures
        r == (texts(current@) != texts(desired@)),
{
    if current.len() != desired.len() {
        assert(texts(current@).len() != texts(desired@).len());
        return true;
    }
    let mut i: usize = 0;
    while i < current.len()
        invariant
            i <= current.len(),
            current@.len() == desired@.len(),
            forall|j: int| 0 <= j < i ==> #[trigger] texts(current@)[j] == texts(desired@)[j],
        decreases current.len() - i,
    {
        assert(texts(current@)[i as int] == current@[i as int]@);
        assert(texts(desired@)[i as int] == desired@[i as int]@);
        if !same_text(current[i].as_str(), desired[i].as_str()) {
            return true;
        }
        i = i + 1;
    }
    assert(texts(current@) =~= texts(desired@));
    false
}

/// The connections, as a dropdown shows them.
pub open spec fn listed_connections(connections: Seq<ConnectionView>) -> Seq<Seq<char>> {
    connections.map_values(
        |c: ConnectionView| c.id@ + "  ("@ + c.connector_type@ + ")"@,
    )
}

/// What stands before the real entries of a dropdown: the offer to inherit, for
/// every purpose but the interactive one.
pub open spec fn inherit_offer(purpose: PurposeKindApi, text: Seq<char>) -> Seq<Seq<char>> {
    if purpose == PurposeKindApi::Interactive {
        Seq::empty()
    } else {
        seq![text]
    }
}

/// The labels of the connection dropdown.
pub open spec fn connection_labels(
    purpose: PurposeKindApi,
    connections: Seq<ConnectionView>,
) -> Seq<Seq<char>> {
    inherit_offer(purpose, "primary (inherit)"@) + listed_connections(connections)
}

/// The values of the connection dropdown.
pub open spec fn connection_values(
    purpose: PurposeKindApi,
    connections: Seq<ConnectionView>,
) -> Seq<Seq<char>> {
    inherit_offer(purpose, PRIMARY_SENTINEL@) + connections.map_values(|c: ConnectionView| c.id@)
}

/// Options that begin with the offer to inherit, where the purpose may.
fn inherit_options(purpose: PurposeKindApi) -> (r: DropdownOptions)
    ensures
        texts(r.labels@) == inherit_offer(purpose, "primary (inherit)"@),
        texts(r.values@) == inherit_offer(purpose, PRIMARY_SENTINEL@),
{
    let mut opts = DropdownOptions::default();
    if purpose != PurposeKindApi::Interactive {
        opts.labels.push("primary (inherit)".to_owned());
        opts.values.push(PRIMARY_SENTINEL.to_owned());
    }
    assert(texts(opts.labels@) =~= inherit_offer(purpose, "primary (inherit)"@));
    assert(texts(opts.values@) =~= inherit_offer(purpose, PRIMARY_SENTINEL@));
    opts
}

/// The connections a purpose may bind to. Only non-interactive purposes may
/// inherit, because there is no primary above `Interactive`.
pub fn connection_options(purpose: PurposeKindApi, connections: &Vec<ConnectionView>) -> (r:
    DropdownOptions)
    ensures
        texts(r.labels@) == connection_labels(purpose, connections@),
        texts(r.values@) == connection_values(purpose, connections@),
{
    let mut opts = inherit_options(purpose);
    let ghost labels = texts(opts.labels@);
    let ghost values = texts(opts.values@);
    let ghost ids = connections@.map_values(|c: ConnectionView| c.id@);
    let mut i: usize = 0;
    assert(texts(opts.labels@) =~= labels + listed_connections(connections@).take(0));
    assert(texts(opts.values@) =~= values + ids.take(0));
    while i < connections.len()
        invariant
            i <= connections.len(),
            ids == connections@.map_values(|c: ConnectionView| c.id@),
            texts(opts.labels@) == labels + listed_connections(connections@).take(i as int),
            texts(opts.values@) == values + ids.take(i as int),
        decreases connections.len() - i,
    {
        let conn = &connections[i];
        let mut label = conn.id.clone();
        label.append("  (");
        label.append(conn.connector_type.as_str());
        label.append(")");
        let ghost l = texts(opts.labels@);
        let ghost v = texts(opts.values@);
        opts.labels.push(label);
        opts.values.push(conn.id.clone());
        i = i + 1;
        assert(texts(opts.labels@) =~= l.push(label@));
        assert(texts(opts.values@) =~= v.push(conn.id@));
        assert(texts(opts.labels@) =~= labels + listed_connections(connections@).take(i as int));
        assert(texts(opts.values@) =~= values + ids.take(i as int));
    }
    assert(listed_connections(connections@).take(i as int) =~= listed_connections(connections@));
    assert(ids.take(i as int) =~= ids);
    opts
}

/// The labels that a model list adds to the dropdown: the models' names, or one
/// notice where there are none to name.
pub open spec fn listed_models(state: Option<ModelListState>) -> Seq<Seq<char>> {
    match state {
        Some(ModelListState::Loaded(listings)) => listings@.map_values(
            |l: ModelListing| l.model.display_name@,
        ),
        Some(ModelListState::Failed(reason)) => seq!["Models unavailable - "@ + reason@],
        _ => seq!["Loading models..."@],
    }
}

/// The values that a model list adds: the models' ids, and none beside a notice.
pub open spec fn model_ids(state: Option<ModelListState>) -> Seq<Seq<char>> {
    match state {
        Some(ModelListState::Loaded(listings)) => listings@.map_values(
            |l: ModelListing| l.model.id@,
        ),
        _ => Seq::empty(),
    }
}

/// The labels of the model dropdown.
pub open spec fn model_labels(
    purpose: PurposeKindApi,
    connection: Option<Seq<char>>,
    state: Option<ModelListState>,
) -> Seq<Seq<char>> {
    match connection {
        None => Seq::empty(),
        Some(connection) => if connection == PRIMARY_SENTINEL@ {
            inherit_offer(purpose, "primary (inherit)"@)
        } else {
            inherit_offer(purpose, "primary (inherit)"@) + listed_models(state)
        },
    }
}

/// The values of the model dropdown.
pub open spec fn model_values(
    purpose: PurposeKindApi,
    connection: Option<Seq<char>>,
    state: Option<ModelListState>,
) -> Seq<Seq<char>> {
    match connection {
        None => Seq::empty(),
        Some(connection) => if connection == PRIMARY_SENTINEL@ {
            inherit_offer(purpose, PRIMARY_SENTINEL@)
        } else {
            inherit_offer(purpose, PRIMARY_SENTINEL@) + model_ids(state)
        },
    }
}

/// A borrowed state, as a value.
pub open spec fn state_of(state: Option<&ModelListState>) -> Option<ModelListState> {
    match state {
        Some(state) => Some(*state),
        None => None,
    }
}

/// A borrowed text, as a sequence of characters.
pub open spec fn str_text(s: Option<&str>) -> Option<Seq<char>> {
    match s {
        Some(s) => Some(s@),
        None => None,
    }
}

/// The models a purpose may bind to, given the connection it currently shows and
/// what is known about that connection's list.
pub fn model_options(
    purpose: PurposeKindApi,
    selected_connection: Option<&str>,
    state: Option<&ModelListState>,
) -> (r: DropdownOptions)
    ensures
        texts(r.labels@) == model_labels(purpose, str_text(selected_connection), state_of(state)),
        texts(r.values@) == model_values(purpose, str_text(selected_connection), state_of(state)),
{
    let connection = match selected_connection {
        Some(connection) => connection,
        None => {
            let none = DropdownOptions::default();
            assert(texts(none.labels@) =~= Seq::<Seq<char>>::empty());
            assert(texts(none.values@) =~= Seq::<Seq<char>>::empty());
            return none;
        },
    };
    let mut opts = inherit_options(purpose);
    if same_text(connection, PRIMARY_SENTINEL) {
        return opts;
    }
    let ghost labels = texts(opts.labels@);
    let ghost values = texts(opts.values@);
    match state {
        Some(ModelListState::Loaded(listings)) => {
            let ghost names = listed_models(state_of(state));
            let ghost ids = model_ids(state_of(state));
            let mut i: usize = 0;
            assert(texts(opts.labels@) =~= labels + names.take(0));
            assert(texts(opts.values@) =~= values + ids.take(0));
            while i < listings.len()
                invariant
                    i <= listings.len(),
                    names == listings@.map_values(|l: ModelListing| l.model.display_name@),
                    ids == listings@.map_values(|l: ModelListing| l.model.id@),
                    texts(opts.labels@) == labels + names.take(i as int),
                    texts(opts.values@) == values + ids.take(i as int),
                decreases listings.len() - i,
            {
                let ghost l = texts(opts.labels@);
                let ghost v = texts(opts.values@);
                opts.labels.push(listings[i].model.display_name.clone());
                opts.values.push(listings[i].model.id.clone());
                assert(texts(opts.labels@) =~= l.push(listings@[i as int].model.display_name@));
                assert(texts(opts.values@) =~= v.push(listings@[i as int].model.id@));
                i = i + 1;
                assert(texts(opts.labels@) =~= labels + names.take(i as int));
                assert(texts(opts.values@) =~= values + ids.take(i as int));
            }
            assert(names.take(i as int) =~= names);
            assert(ids.take(i as int) =~= ids);
        },
        Some(ModelListState::Failed(reason)) => {
            opts.labels.push("Models unavailable - ".to_owned().concat(reason.as_str()));
            assert(texts(opts.labels@) =~= labels + listed_models(state_of(state)));
            assert(texts(opts.values@) =~= values + model_ids(state_of(state)));
        },
        _ => {
            opts.labels.push("Loading models...".to_owned());
            assert(texts(opts.labels@) =~= labels + listed_models(state_of(state)));
            assert(texts(opts.values@) =~= values + model_ids(state_of(state)));
        },
    }
    opts
}

/// A model list has to be asked for: a real connection is shown about which
/// nothing is known yet.
pub open spec fn must_request(connection: Option<Seq<char>>, known: bool) -> bool {
    match connection {
        Some(connection) => connection != PRIMARY_SENTINEL@ && !known,
        None => false,
    }
}

/// Whether to start a model-list request for the connection a row shows.
///
/// True only when nothing is known about the connection yet. `Pending` means a
/// request is already in flight, and `Failed` means the answer is known to be no:
/// re-asking either would saturate the daemon.
pub fn should_request_models(
    selected_connection: Option<&str>,
    state: Option<&ModelListState>,
) -> (r: bool)
    ensures
        r == must_request(str_text(selected_connection), state is Some),
{
    match selected_connection {
        Some(connection) => !same_text(connection, PRIMARY_SENTINEL) && state.is_none(),
        None => false,
    }
}

/// The binding of a purpose.
pub open spec fn binding_of(purposes: PurposesView, purpose: PurposeKindApi) -> Option<
    PurposeConfigView,
> {
    match purpose {
        PurposeKindApi::Interactive => purposes.interactive,
        PurposeKindApi::Dreaming => purposes.dreaming,
        PurposeKindApi::Consolidation => purposes.consolidation,
        PurposeKindApi::Embedding => purposes.embedding,
        PurposeKindApi::Titling => purposes.titling,
        PurposeKindApi::Voice => purposes.voice,
    }
}

/// The daemon's last reported binding for `purpose`, if it has one.
pub fn purpose_config(purposes: &PurposesView, purpose: PurposeKindApi) -> (r: Option<
    &PurposeConfigView,
>)
    ensures
        r is Some <==> binding_of(*purposes, purpose) is Some,
        r is Some ==> binding_of(*purposes, purpose) == Some(*r->0),
{
    match purpose {
        PurposeKindApi::Interactive => purposes.interactive.as_ref(),
        PurposeKindApi::Dreaming => purposes.dreaming.as_ref(),
        PurposeKindApi::Consolidation => purposes.consolidation.as_ref(),
        PurposeKindApi::Embedding => purposes.embedding.as_ref(),
        PurposeKindApi::Titling => purposes.titling.as_ref(),
        PurposeKindApi::Voice => purposes.voice.as_ref(),
    }
}

/// The effort at an index of the effort dropdown.
pub open spec fn effort_at(i: int) -> Option<EffortLevel> {
    if i == 1 {
        Some(EffortLevel::Low)
    } else if i == 2 {
        Some(EffortLevel::Medium)
    } else if i == 3 {
        Some(EffortLevel::High)
    } else {
        None
    }
}

/// The effort at an index of the effort dropdown (none, low, medium, high).
pub fn effort_from_index(i: u32) -> (r: Option<EffortLevel>)
    ensures
        r == effort_at(i as int),
{
    match i {
        1 => Some(EffortLevel::Low),
        2 => Some(EffortLevel::Medium),
        3 => Some(EffortLevel::High),
        _ => None,
    }
}

/// The index of an effort in the effort dropdown.
pub fn effort_to_index(effort: Option<EffortLevel>) -> (r: u32)
    ensures
        r <= 3,
        effort_at(r as int) == effort,
{
    match effort {
        None => 0,
        Some(EffortLevel::Low) => 1,
        Some(EffortLevel::Medium) => 2,
        Some(EffortLevel::High) => 3,
    }
}

/// What is recorded for `id`.
pub open spec fn recorded(models: Seq<(String, ModelListState)>, id: Seq<char>) -> Option<
    ModelListState,
>
    decreases models.len(),
{
    if models.len() == 0 {
        None
    } else if models[0].0@ == id {
        Some(models[0].1)
    } else {
        recorded(models.drop_first(), id)
    }
}

proof fn lemma_recorded_at(models: Seq<(String, ModelListState)>, id: Seq<char>, at: int)
    requires
        0 <= at <= models.len(),
        forall|j: int| 0 <= j < at ==> (#[trigger] models[j]).0@ != id,
        at < models.len() ==> models[at].0@ == id,
    ensures
        recorded(models, id) == (if at < models.len() {
            Some(models[at].1)
        } else {
            None
        }),
    decreases at,
{
    if at > 0 {
        let rest = models.drop_first();
        assert(models[0].0@ != id);
        assert forall|j: int| 0 <= j < at - 1 implies (#[trigger] rest[j]).0@ != id by {
            assert(models[j + 1].0@ != id);
        }
        lemma_recorded_at(rest, id, at - 1);
    }
}

proof fn lemma_recorded_same(
    a: Seq<(String, ModelListState)>,
    b: Seq<(String, ModelListState)>,
    id: Seq<char>,
    at: int,
)
    requires
        0 <= at < b.len(),
        a.len() == b.len() || a.len() == b.len() - 1 && at == a.len(),
        b[at].0@ != id,
        at < a.len() ==> a[at].0@ != id,
        forall|j: int| 0 <= j < a.len() && j != at ==> #[trigger] a[j] == b[j],
    ensures
        recorded(a, id) == recorded(b, id),
    decreases b.len(),
{
    if at > 0 {
        assert(a[0] == b[0]);
        let x = a.drop_first();
        let y = b.drop_first();
        assert forall|j: int| 0 <= j < x.len() && j != at - 1 implies #[trigger] x[j] == y[j] by {
            assert(a[j + 1] == b[j + 1]);
        }
        lemma_recorded_same(x, y, id, at - 1);
    } else if a.len() == b.len() {
        assert(a.drop_first() =~= b.drop_first()) by {
            assert forall|j: int| 0 <= j < a.len() - 1 implies a.drop_first()[j]
                == b.drop_first()[j] by {
                assert(a[j + 1] == b[j + 1]);
            }
        }
    } else {
        assert(b.drop_first() =~= a);
    }
}

/// Where `id` is recorded first; past the end where it is not.
fn record_place(models: &Vec<(String, ModelListState)>, id: &str) -> (r: usize)
    ensures
        r <= models@.len(),
        forall|j: int| 0 <= j < r ==> (#[trigger] models@[j]).0@ != id@,
        r < models@.len() ==> models@[r as int].0@ == id@,
        recorded(models@, id@) == (if r < models@.len() {
            Some(models@[r as int].1)
        } else {
            None
        }),
{
    let mut i: usize = 0;
    while i < models.len() && !same_text(models[i].0.as_str(), id)
        invariant
            i <= models.len(),
            forall|j: int| 0 <= j < i ==> (#[trigger] models@[j]).0@ != id@,
        decreases models.len() - i,
    {
        i = i + 1;
    }
    proof {
        lemma_recorded_at(models@, id@, i as int);
    }
    i
}

/// Records `state` for `id`, in place of what was recorded before.
fn record(models: &mut Vec<(String, ModelListState)>, id: String, state: ModelListState)
    ensures
        recorded(final(models)@, id@) == Some(state),
        forall|other: Seq<char>|
            other != id@ ==> #[trigger] recorded(final(models)@, other) == recorded(
                old(models)@,
                other,
            ),
{
    let at: usize = record_place(models, id.as_str());
    let ghost before = models@;
    if at < models.len() {
        models.set(at, (id, state));
    } else {
        models.push((id, state));
    }
    proof {
        assert forall|j: int| 0 <= j < at implies (#[trigger] models@[j]).0@ != id@ by {
            assert(before[j].0@ != id@);
        }
        lemma_recorded_at(models@, id@, at as int);
        assert forall|other: Seq<char>| other != id@ implies #[trigger] recorded(models@, other)
            == recorded(before, other) by {
            lemma_recorded_same(before, models@, other, at as int);
        }
    }
}

/// What a row's dropdowns stand for, in the order of their entries: a connection
/// id or the sentinel, and a model id or the sentinel.
pub struct PurposeRow {
    pub connection_values: Vec<String>,
    pub model_values: Vec<String>,
    /// The purpose's context-window override. The row does not edit it, but a
    /// write is a full replace, so whatever the daemon reported is remembered and
    /// sent back unchanged.
    pub max_context_tokens: Option<u64>,
}

/// The state behind the tab.
pub struct PurposesTab {
    pub rows: Vec<PurposeRow>,
    pub connections: Vec<ConnectionView>,
    pub purposes: PurposesView,
    /// What is known about each connection's model list. Holds failures as well
    /// as successes, so a connection that cannot list its models is asked once
    /// rather than on every reconcile.
    pub models_by_connection: Vec<(String, ModelListState)>,
}

/// The row of a purpose.
pub open spec fn slot(purpose: PurposeKindApi) -> int {
    match purpose {
        PurposeKindApi::Interactive => 0,
        PurposeKindApi::Dreaming => 1,
        PurposeKindApi::Consolidation => 2,
        PurposeKindApi::Embedding => 3,
        PurposeKindApi::Titling => 4,
        PurposeKindApi::Voice => 5,
    }
}

fn slot_of(purpose: PurposeKindApi) -> (r: usize)
    ensures
        r == slot(purpose),
        r < 6,
{
    match purpose {
        PurposeKindApi::Interactive => 0,
        PurposeKindApi::Dreaming => 1,
        PurposeKindApi::Consolidation => 2,
        PurposeKindApi::Embedding => 3,
        PurposeKindApi::Titling => 4,
        PurposeKindApi::Voice => 5,
    }
}

/// The value at a dropdown's position, where it has one.
pub open spec fn value_at(values: Seq<String>, selected: int) -> Option<Seq<char>> {
    if 0 <= selected < values.len() {
        Some(values[selected]@)
    } else {
        None
    }
}

/// The first place of a value in a list, where there is a value and it is there.
pub open spec fn place_of(values: Seq<Seq<char>>, value: Option<Seq<char>>, at: Option<usize>) -> bool {
    match value {
        None => at is None,
        Some(value) => match at {
            Some(i) => i < values.len() && values[i as int] == value && forall|j: int|
                0 <= j < i ==> values[j] != value,
            None => !values.contains(value),
        },
    }
}

fn find_value(values: &Vec<String>, value: Option<&str>) -> (r: Option<usize>)
    ensures
        place_of(texts(values@), str_text(value), r),
{
    let wanted = match value {
        Some(wanted) => wanted,
        None => {
            return None;
        },
    };
    let mut i: usize = 0;
    while i < values.len()
        invariant
            i <= values.len(),
            value == Some(wanted),
            forall|j: int| 0 <= j < i ==> texts(values@)[j] != wanted@,
        decreases values.len() - i,
    {
        assert(texts(values@)[i as int] == values@[i as int]@);
        if same_text(values[i].as_str(), wanted) {
            return Some(i);
        }
        i = i + 1;
    }
    None
}

/// How to bring a dropdown up to date: show `labels`, and select `select` where it
/// is there.
pub struct DropdownStep {
    pub labels: Vec<String>,
    pub select: Option<usize>,
}

/// How to bring the model dropdown up to date, and the connection whose models
/// have to be asked for, where they have.
pub struct ModelStep {
    pub labels: Vec<String>,
    pub select: Option<usize>,
    pub request: Option<String>,
}

/// The positions that show a purpose's binding; a dropdown stays where it is where
/// its list has no such entry.
pub struct AppliedRow {
    pub connection: Option<usize>,
    pub model: Option<usize>,
    pub effort: u32,
}

impl PurposesTab {
    /// There is a row for every purpose.
    pub open spec fn wf(self) -> bool {
        self.rows@.len() == 6
    }

    /// The row of a purpose.
    pub open spec fn row(self, purpose: PurposeKindApi) -> PurposeRow {
        self.rows@[slot(purpose)]
    }

    /// What is known about a connection's model list.
    pub open spec fn known(self, id: Seq<char>) -> Option<ModelListState> {
        recorded(self.models_by_connection@, id)
    }

    /// What is known about the model list of the connection shown, where there is
    /// one.
    pub open spec fn shown(self, connection: Option<Seq<char>>) -> Option<ModelListState> {
        match connection {
            Some(id) => self.known(id),
            None => None,
        }
    }

    /// The rows of every purpose but one are the same.
    pub open spec fn other_rows_same(self, before: PurposesTab, purpose: PurposeKindApi) -> bool {
        forall|other: PurposeKindApi| other != purpose ==> #[trigger] self.row(other) == before.row(other)
    }

    /// The binding that the row of a purpose shows with its dropdowns at these
    /// positions.
    pub open spec fn binding_shown(
        self,
        purpose: PurposeKindApi,
        connection: int,
        model: int,
        effort: int,
    ) -> Option<PurposeConfigText> {
        let row = self.row(purpose);
        match (
            value_at(row.connection_values@, connection),
            value_at(row.model_values@, model),
        ) {
            (Some(connection), Some(model)) => Some(
                PurposeConfigText {
                    connection,
                    model,
                    effort: effort_at(effort),
                    max_context_tokens: row.max_context_tokens,
                },
            ),
            _ => None,
        }
    }

    /// The daemon's last reported binding of a purpose.
    pub open spec fn last_known(self, purpose: PurposeKindApi) -> Option<PurposeConfigText> {
        match binding_of(self.purposes, purpose) {
            Some(binding) => Some(binding@),
            None => None,
        }
    }

    /// What the row of a purpose shows with its dropdowns at these positions.
    pub open spec fn reads(
        self,
        purpose: PurposeKindApi,
        connection: int,
        model: int,
        effort: int,
        selection: RowSelection,
    ) -> bool {
        let row = self.row(purpose);
        &&& opt_text(selection.connection) == value_at(row.connection_values@, connection)
        &&& opt_text(selection.model) == value_at(row.model_values@, model)
        &&& selection.effort == effort_at(effort)
        &&& selection.max_context_tokens == row.max_context_tokens
    }

    /// A tab that knows nothing yet.
    pub fn new() -> (r: Self)
        ensures
            r.wf(),
            r.connections@.len() == 0,
            forall|purpose: PurposeKindApi| #[trigger] binding_of(r.purposes, purpose) is None,
            forall|id: Seq<char>| #[trigger] r.known(id) is None,
            forall|purpose: PurposeKindApi|
                (#[trigger] r.row(purpose)).connection_values@.len() == 0 && r.row(
                    purpose,
                ).model_values@.len() == 0 && r.row(purpose).max_context_tokens is None,
    {
        let mut rows: Vec<PurposeRow> = Vec::new();
        while rows.len() < 6
            invariant
                rows.len() <= 6,
                forall|j: int|
                    0 <= j < rows@.len() ==> (#[trigger] rows@[j]).connection_values@.len() == 0
                        && rows@[j].model_values@.len() == 0 && rows@[j].max_context_tokens is None,
            decreases 6 - rows.len(),
        {
            rows.push(
                PurposeRow {
                    connection_values: Vec::new(),
                    model_values: Vec::new(),
                    max_context_tokens: None,
                },
            );
        }
        PurposesTab {
            rows,
            connections: Vec::new(),
            purposes: PurposesView::default(),
            models_by_connection: Vec::new(),
        }
    }

    /// Replace the connection list.
    pub fn set_connections(&mut self, connections: Vec<ConnectionView>)
        ensures
            final(self).connections == connections,
            final(self).rows == old(self).rows,
            final(self).purposes == old(self).purposes,
            final(self).models_by_connection == old(self).models_by_connection,
    {
        self.connections = connections;
    }

    /// Replace the bindings that the daemon reports.
    pub fn set_purposes(&mut self, purposes: PurposesView)
        ensures
            final(self).purposes == purposes,
            final(self).rows == old(self).rows,
            final(self).connections == old(self).connections,
            final(self).models_by_connection == old(self).models_by_connection,
    {
        self.purposes = purposes;
    }

    /// A connection's models came back.
    pub fn set_models(&mut self, connection_id: &str, listings: Vec<ModelListing>)
        ensures
            final(self).known(connection_id@) == Some(ModelListState::Loaded(listings)),
            forall|other: Seq<char>|
                other != connection_id@ ==> #[trigger] final(self).known(other) == old(self).known(
                    other,
                ),
            final(self).rows == old(self).rows,
            final(self).connections == old(self).connections,
            final(self).purposes == old(self).purposes,
    {
        record(
            &mut self.models_by_connection,
            connection_id.to_owned(),
            ModelListState::Loaded(listings),
        );
    }

    /// Record that a connection could not list its models.
    ///
    /// Without this the failure is invisible to the tab, so the connection looks
    /// un-asked and every reconcile asks again. The row shows the reason, and the
    /// user retries by reopening the settings.
    pub fn set_models_failed(&mut self, connection_id: &str, reason: &str)
        ensures
            final(self).known(connection_id@) matches Some(ModelListState::Failed(text)) && text@
                == reason@,
            forall|other: Seq<char>|
                other != connection_id@ ==> #[trigger] final(self).known(other) == old(self).known(
                    other,
                ),
            final(self).rows == old(self).rows,
            final(self).connections == old(self).connections,
            final(self).purposes == old(self).purposes,
    {
        record(
            &mut self.models_by_connection,
            connection_id.to_owned(),
            ModelListState::Failed(reason.to_owned()),
        );
    }

    /// Rebuild the connection dropdown of a purpose whose position is `selected`.
    /// The selection is preserved by value, not index: the list may have grown or
    /// shrunk underneath it.
    pub fn rebuild_connections(&mut self, purpose: PurposeKindApi, selected: u32) -> (r:
        DropdownStep)
        requires
            old(self).wf(),
        ensures
            final(self).wf(),
            texts(r.labels@) == connection_labels(purpose, old(self).connections@),
            texts(final(self).row(purpose).connection_values@) == connection_values(
                purpose,
                old(self).connections@,
            ),
            place_of(
                connection_values(purpose, old(self).connections@),
                value_at(old(self).row(purpose).connection_values@, selected as int),
                r.select,
            ),
            final(self).row(purpose).model_values == old(self).row(purpose).model_values,
            final(self).row(purpose).max_context_tokens == old(self).row(
                purpose,
            ).max_context_tokens,
            final(self).other_rows_same(*old(self), purpose),
            final(self).connections == old(self).connections,
            final(self).purposes == old(self).purposes,
            final(self).models_by_connection == old(self).models_by_connection,
    {
        let p: usize = slot_of(purpose);
        let opts = connection_options(purpose, &self.connections);
        let select = {
            let values = &self.rows[p].connection_values;
            let previous = if (selected as usize) < values.len() {
                Some(values[selected as usize].as_str())
            } else {
                None
            };
            find_value(&opts.values, previous)
        };
        self.rows[p].connection_values = opts.values;
        DropdownStep { labels: opts.labels, select }
    }

    /// Rebuild the model dropdown of a purpose, whose connection dropdown now
    /// stands at `connection` and whose model dropdown at `model`. Names the
    /// connection to ask for its models, where nothing is known about it yet; it
    /// is recorded as asked, so that a re-entrant rebuild does not ask a second
    /// time.
    pub fn rebuild_models(&mut self, purpose: PurposeKindApi, connection: u32, model: u32) -> (r:
        ModelStep)
        requires
            old(self).wf(),
        ensures
            final(self).wf(),
            ({
                let shown = value_at(old(self).row(purpose).connection_values@, connection as int);
                let state = old(self).shown(shown);
                &&& texts(r.labels@) == model_labels(purpose, shown, state)
                &&& texts(final(self).row(purpose).model_values@) == model_values(
                    purpose,
                    shown,
                    state,
                )
                &&& place_of(
                    model_values(purpose, shown, state),
                    value_at(old(self).row(purpose).model_values@, model as int),
                    r.select,
                )
                &&& opt_text(r.request) == (if must_request(shown, state is Some) {
                    shown
                } else {
                    None
                })
                &&& r.request is Some ==> final(self).known(shown->0) == Some(
                    ModelListState::Pending,
                )
                &&& forall|other: Seq<char>|
                    r.request is None || Some(other) != shown ==> #[trigger] final(self).known(
                        other,
                    ) == old(self).known(other)
            }),
            final(self).row(purpose).connection_values == old(self).row(purpose).connection_values,
            final(self).row(purpose).max_context_tokens == old(self).row(
                purpose,
            ).max_context_tokens,
            final(self).other_rows_same(*old(self), purpose),
            final(self).connections == old(self).connections,
            final(self).purposes == old(self).purposes,
    {
        let p: usize = slot_of(purpose);
        let shown: Option<String> = {
            let values = &self.rows[p].connection_values;
            if (connection as usize) < values.len() {
                Some(values[connection as usize].clone())
            } else {
                None
            }
        };
        let (opts, wanted) = {
            let id = match &shown {
                Some(id) => Some(id.as_str()),
                None => None,
            };
            let state = match id {
                Some(id) => {
                    let at: usize = record_place(&self.models_by_connection, id);
                    if at < self.models_by_connection.len() {
                        Some(&self.models_by_connection[at].1)
                    } else {
                        None
                    }
                },
                None => None,
            };
            (model_options(purpose, id, state), should_request_models(id, state))
        };
        let select = {
            let values = &self.rows[p].model_values;
            let previous = if (model as usize) < values.len() {
                Some(values[model as usize].as_str())
            } else {
                None
            };
            find_value(&opts.values, previous)
        };
        self.rows[p].model_values = opts.values;
        let mut request: Option<String> = None;
        if wanted {
            if let Some(id) = shown {
                record(&mut self.models_by_connection, id.clone(), ModelListState::Pending);
                request = Some(id);
            }
        }
        ModelStep { labels: opts.labels, select, request }
    }

    /// Where the dropdowns of a purpose have to stand to show the daemon's binding,
    /// and remember its context-window override. A purpose without a binding leaves
    /// the dropdowns on their defaults.
    pub fn apply_purpose_config(&mut self, purpose: PurposeKindApi) -> (r: Option<AppliedRow>)
        requires
            old(self).wf(),
        ensures
            final(self).wf(),
            r is Some <==> binding_of(old(self).purposes, purpose) is Some,
            r is Some ==> {
                let binding = binding_of(old(self).purposes, purpose)->0;
                let row = old(self).row(purpose);
                &&& place_of(
                    texts(row.connection_values@),
                    Some(binding.connection@),
                    r->0.connection,
                )
                &&& place_of(texts(row.model_values@), Some(binding.model@), r->0.model)
                &&& r->0.effort <= 3
                &&& effort_at(r->0.effort as int) == binding.effort
                &&& final(self).row(purpose).max_context_tokens == binding.max_context_tokens
            },
            r is None ==> final(self).row(purpose).max_context_tokens == old(self).row(
                purpose,
            ).max_context_tokens,
            final(self).row(purpose).connection_values == old(self).row(purpose).connection_values,
            final(self).row(purpose).model_values == old(self).row(purpose).model_values,
            final(self).other_rows_same(*old(self), purpose),
            final(self).connections == old(self).connections,
            final(self).purposes == old(self).purposes,
            final(self).models_by_connection == old(self).models_by_connection,
    {
        let p: usize = slot_of(purpose);
        let (applied, ceiling) = match purpose_config(&self.purposes, purpose) {
            Some(binding) => (
                AppliedRow {
                    connection: find_value(
                        &self.rows[p].connection_values,
                        Some(binding.connection.as_str()),
                    ),
                    model: find_value(&self.rows[p].model_values, Some(binding.model.as_str())),
                    effort: effort_to_index(binding.effort),
                },
                binding.max_context_tokens,
            ),
            None => {
                return None;
            },
        };
        self.rows[p].max_context_tokens = ceiling;
        Some(applied)
    }

    /// What the row of a purpose shows with its dropdowns at these positions. A
    /// position that does not index into the row's values means the list is empty
    /// or out of sync, which is "nothing real is selected" rather than a value
    /// worth writing.
    pub fn selection(&self, purpose: PurposeKindApi, connection: u32, model: u32, effort: u32) -> (r:
        RowSelection)
        requires
            self.wf(),
        ensures
            self.reads(purpose, connection as int, model as int, effort as int, r),
    {
        let row = &self.rows[slot_of(purpose)];
        RowSelection {
            connection: if (connection as usize) < row.connection_values.len() {
                Some(row.connection_values[connection as usize].clone())
            } else {
                None
            },
            model: if (model as usize) < row.model_values.len() {
                Some(row.model_values[model as usize].clone())
            } else {
                None
            },
            effort: effort_from_index(effort),
            max_context_tokens: row.max_context_tokens,
        }
    }

    /// The write that the row of a purpose calls for with its dropdowns at these
    /// positions, where it calls for one.
    pub fn emit_current(
        &self,
        purpose: PurposeKindApi,
        connection: u32,
        model: u32,
        effort: u32,
    ) -> (r: Option<PurposeConfigView>)
        requires
            self.wf(),
        ensures
            ({
                let write = write_of(
                    purpose,
                    self.binding_shown(purpose, connection as int, model as int, effort as int),
                    self.last_known(purpose),
                );
                &&& r is Some <==> write is Some
                &&& r is Some ==> write == Some(r->0@)
            }),
    {
        let selection = self.selection(purpose, connection, model, effort);
        planned_write(purpose, &selection, purpose_config(&self.purposes, purpose))
    }
}

/// Rows that show what the daemon last reported write nothing: reconciling to the
/// daemon's state is never a write.
pub proof fn law_reconciled_state_is_never_written(
    purpose: PurposeKindApi,
    selection: RowSelection,
    last_known: PurposeConfigText,
)
    requires
        selection.binding() == Some(last_known),
    ensures
        write_of(purpose, selection.binding(), Some(last_known)) is None,
{
}

/// A row whose dropdowns stand where applying the daemon's binding put them writes
/// nothing, so a refresh can never answer itself with a write.
pub proof fn law_an_applied_row_writes_nothing(
    tab: PurposesTab,
    purpose: PurposeKindApi,
    applied: AppliedRow,
)
    requires
        binding_of(tab.purposes, purpose) is Some,
        applied.connection is Some,
        applied.model is Some,
        place_of(
            texts(tab.row(purpose).connection_values@),
            Some(binding_of(tab.purposes, purpose)->0.connection@),
            applied.connection,
        ),
        place_of(
            texts(tab.row(purpose).model_values@),
            Some(binding_of(tab.purposes, purpose)->0.model@),
            applied.model,
        ),
        effort_at(applied.effort as int) == binding_of(tab.purposes, purpose)->0.effort,
        tab.row(purpose).max_context_tokens == binding_of(
            tab.purposes,
            purpose,
        )->0.max_context_tokens,
    ensures
        write_of(
            purpose,
            tab.binding_shown(
                purpose,
                applied.connection->0 as int,
                applied.model->0 as int,
                applied.effort as int,
            ),
            tab.last_known(purpose),
        ) is None,
{
}

/// A half-inherited pair, and an interactive purpose that inherits, are never
/// written, whatever the daemon last reported.
pub proof fn law_mixed_or_interactive_inheritance_is_never_written(
    purpose: PurposeKindApi,
    selection: RowSelection,
    last_known: Option<PurposeConfigText>,
)
    ensures
        write_of(purpose, selection.binding(), last_known) matches Some(binding) ==> {
            &&& binding.connection == PRIMARY_SENTINEL@ <==> binding.model == PRIMARY_SENTINEL@
            &&& purpose == PurposeKindApi::Interactive ==> binding.connection != PRIMARY_SENTINEL@
                && binding.model != PRIMARY_SENTINEL@
            &&& last_known != Some(binding)
        },
{
}

/// What is shown is what is written: a write carries the selection unchanged, the
/// context-window override that the row never edits with it.
pub proof fn law_a_write_is_the_selection(
    purpose: PurposeKindApi,
    selection: RowSelection,
    last_known: Option<PurposeConfigText>,
)
    ensures
        write_of(purpose, selection.binding(), last_known) matches Some(binding) ==> selection.binding()
            == Some(binding) && binding.max_context_tokens == selection.max_context_tokens,
{
}

/// A notice can never become a binding: a label beyond the values of the model
/// dropdown reads back as no model, and a row without a model is not writable.
pub proof fn law_a_notice_is_not_writable(
    purpose: PurposeKindApi,
    connection: Option<Seq<char>>,
    state: Option<ModelListState>,
    selection: RowSelection,
    last_known: Option<PurposeConfigText>,
)
    requires
        selection.model is None,
    ensures
        write_of(purpose, selection.binding(), last_known) is None,
        model_values(purpose, connection, state).len() <= model_labels(
            purpose,
            connection,
            state,
        ).len(),
        state is None || state->0 is Pending || state->0 is Failed ==> model_values(
            purpose,
            connection,
            state,
        ) =~= (if connection is Some {
            inherit_offer(purpose, PRIMARY_SENTINEL@)
        } else {
            Seq::empty()
        }),
{
}

/// Every entry of the connection dropdown stands for a value.
pub proof fn law_connection_labels_and_values_mirror(
    purpose: PurposeKindApi,
    connections: Seq<ConnectionView>,
)
    ensures
        connection_labels(purpose, connections).len() == connection_values(
            purpose,
            connections,
        ).len(),
        connection_values(purpose, connections).contains(PRIMARY_SENTINEL@) && purpose
            == PurposeKindApi::Interactive ==> exists|i: int|
            0 <= i < connections.len() && (#[trigger] connections[i]).id@ == PRIMARY_SENTINEL@,
{
    let ids = connections.map_values(|c: ConnectionView| c.id@);
    if connection_values(purpose, connections).contains(PRIMARY_SENTINEL@) && purpose
        == PurposeKindApi::Interactive {
        let values = connection_values(purpose, connections);
        let i = choose|i: int| 0 <= i < values.len() && values[i] == PRIMARY_SENTINEL@;
        assert(values =~= ids);
        assert(connections[i].id@ == PRIMARY_SENTINEL@);
    }
}

/// A rebuild cannot trigger another rebuild: asking for a model list, which the
/// first rebuild does, does not change what the second one shows.
pub proof fn law_a_request_changes_no_label(purpose: PurposeKindApi, connection: Option<Seq<char>>)
    ensures
        model_labels(purpose, connection, None) == model_labels(
            purpose,
            connection,
            Some(ModelListState::Pending),
        ),
        model_values(purpose, connection, None) == model_values(
            purpose,
            connection,
            Some(ModelListState::Pending),
        ),
{
}

/// A connection about which anything is recorded, a request in flight and a failure
/// included, is never asked again.
pub proof fn law_a_connection_is_asked_once(tab: PurposesTab, id: Seq<char>)
    requires
        tab.known(id) is Some,
    ensures
        !must_request(Some(id), tab.shown(Some(id)) is Some),
{
}

/// A real choice is always sent: where both dropdowns hold a real value and the daemon
/// last reported something else, exactly the choice is written, whatever the purpose.
pub proof fn law_a_real_choice_is_written(
    purpose: PurposeKindApi,
    current: RowSelection,
    last_known: Option<&PurposeConfigView>,
    r: Option<PurposeConfigView>,
)
    requires
        call_ensures(planned_write, (purpose, &current, last_known), r),
        current.connection is Some && current.model is Some,
        current.connection->0@ != "primary"@,
        current.model->0@ != "primary"@,
        last_known is Some ==> {
            ||| last_known->0.connection@ != current.connection->0@
            ||| last_known->0.model@ != current.model->0@
            ||| last_known->0.effort != current.effort
            ||| last_known->0.max_context_tokens != current.max_context_tokens
        },
    ensures
        r is Some,
        r->0.connection@ == current.connection->0@,
        r->0.model@ == current.model->0@,
        r->0.effort == current.effort,
        r->0.max_context_tokens == current.max_context_tokens,
{
}

/// Every purpose but the interactive one can be set to inherit, and that is sent where
/// the daemon last reported something else.
pub proof fn law_inheriting_is_written(
    purpose: PurposeKindApi,
    current: RowSelection,
    last_known: Option<&PurposeConfigView>,
    r: Option<PurposeConfigView>,
)
    requires
        call_ensures(planned_write, (purpose, &current, last_known), r),
        purpose != PurposeKindApi::Interactive,
        current.connection is Some && current.model is Some,
        current.connection->0@ == "primary"@,
        current.model->0@ == "primary"@,
        last_known is Some ==> {
            ||| last_known->0.connection@ != "primary"@
            ||| last_known->0.model@ != "primary"@
            ||| last_known->0.effort != current.effort
            ||| last_known->0.max_context_tokens != current.max_context_tokens
        },
    ensures
        r is Some,
        r->0.connection@ == "primary"@,
        r->0.model@ == "primary"@,
        r->0.effort == current.effort,
        r->0.max_context_tokens == current.max_context_tokens,
{
}

/// Nothing else is sent: not half a choice, not a mixture of a real value and an
/// inherited one, no inheritance for the interactive purpose, and not what the daemon
/// already has.
pub proof fn law_nothing_else_is_written(
    purpose: PurposeKindApi,
    current: RowSelection,
    last_known: Option<&PurposeConfigView>,
    r: Option<PurposeConfigView>,
)
    requires
        call_ensures(planned_write, (purpose, &current, last_known), r),
        ({
            ||| current.connection is None
            ||| current.model is None
            ||| (current.connection->0@ == "primary"@) != (current.model->0@ == "primary"@)
            ||| current.connection->0@ == "primary"@ && purpose == PurposeKindApi::Interactive
            ||| last_known is Some && last_known->0.connection@ == current.connection->0@
                && last_known->0.model@ == current.model->0@ && last_known->0.effort
                == current.effort && last_known->0.max_context_tokens
                == current.max_context_tokens
        }),
    ensures
        r is None,
{
}

/// What the tab sends for a row is what the row's selection calls for.
pub proof fn law_the_tab_sends_what_its_row_shows(
    tab: PurposesTab,
    purpose: PurposeKindApi,
    connection: u32,
    model: u32,
    effort: u32,
    selection: RowSelection,
    last_known: Option<&PurposeConfigView>,
    planned: Option<PurposeConfigView>,
    sent: Option<PurposeConfigView>,
)
    requires
        call_ensures(PurposesTab::selection, (&tab, purpose, connection, model, effort), selection),
        call_ensures(purpose_config, (&tab.purposes, purpose), last_known),
        call_ensures(planned_write, (purpose, &selection, last_known), planned),
        call_ensures(PurposesTab::emit_current, (&tab, purpose, connection, model, effort), sent),
    ensures
        sent is Some <==> planned is Some,
        sent is Some ==> sent->0@ == planned->0@,
{
}

/// A row reads the values at its positions, and nothing where a position has none.
pub proof fn law_a_row_reads_its_positions(
    tab: PurposesTab,
    purpose: PurposeKindApi,
    connection: u32,
    model: u32,
    effort: u32,
    r: RowSelection,
)
    requires
        call_ensures(PurposesTab::selection, (&tab, purpose, connection, model, effort), r),
    ensures
        r.connection is Some <==> connection < tab.row(purpose).connection_values@.len(),
        r.connection is Some ==> r.connection->0@ == tab.row(
            purpose,
        ).connection_values@[connection as int]@,
        r.model is Some <==> model < tab.row(purpose).model_values@.len(),
        r.model is Some ==> r.model->0@ == tab.row(purpose).model_values@[model as int]@,
        r.effort is None <==> effort == 0 || effort > 3,
        r.max_context_tokens == tab.row(purpose).max_context_tokens,
{
}

/// The effort dropdown offers none, low, medium and high, in that order, and reads back
/// what it was set to.
pub proof fn law_effort_positions(i: u32, r: Option<EffortLevel>, back: u32)
    requires
        call_ensures(effort_from_index, (i,), r),
        call_ensures(effort_to_index, (r,), back),
    ensures
        r == Some(EffortLevel::Low) <==> i == 1,
        r == Some(EffortLevel::Medium) <==> i == 2,
        r == Some(EffortLevel::High) <==> i == 3,
        i <= 3 ==> back == i,
        i > 3 ==> back == 0,
{
}

/// Each purpose has its own binding.
pub proof fn law_each_purpose_has_its_binding(
    purposes: PurposesView,
    purpose: PurposeKindApi,
    r: Option<&PurposeConfigView>,
)
    requires
        call_ensures(purpose_config, (&purposes, purpose), r),
    ensures
        ({
            let own = if purpose is Interactive {
                purposes.interactive
            } else if purpose is Dreaming {
                purposes.dreaming
            } else if purpose is Consolidation {
                purposes.consolidation
            } else if purpose is Embedding {
                purposes.embedding
            } else if purpose is Titling {
                purposes.titling
            } else {
                purposes.voice
            };
            &&& r is Some <==> own is Some
            &&& r is Some ==> *r->0 == own->0
        }),
{
}

/// The rows are named after their purposes.
pub proof fn law_purposes_are_named(purpose: PurposeKindApi, r: &'static str)
    requires
        call_ensures(purpose_label, (purpose,), r),
    ensures
        purpose is Interactive ==> r@ == "Interactive"@,
        purpose is Dreaming ==> r@ == "Dreaming"@,
        purpose is Consolidation ==> r@ == "Consolidation"@,
        purpose is Embedding ==> r@ == "Embedding"@,
        purpose is Titling ==> r@ == "Titling"@,
        purpose is Voice ==> r@ == "Voice"@,
{
}

/// A purpose may bind to any of the connections, in their order, and each entry tells
/// which one it is; every purpose but the interactive one may inherit instead, which
/// comes first.
pub proof fn law_every_connection_is_offered(
    purpose: PurposeKindApi,
    connections: Vec<ConnectionView>,
    r: DropdownOptions,
    i: int,
)
    requires
        call_ensures(connection_options, (purpose, &connections), r),
        0 <= i < connections@.len(),
    ensures
        ({
            let first: int = if purpose is Interactive {
                0
            } else {
                1
            };
            &&& r.values@.len() == r.labels@.len()
            &&& r.values@.len() == first + connections@.len()
            &&& first == 1 ==> r.values@[0]@ == "primary"@ && r.labels@[0]@
                == "primary (inherit)"@
            &&& r.values@[first + i]@ == connections@[i].id@
            &&& r.labels@[first + i]@ == connections@[i].id@ + "  ("@
                + connections@[i].connector_type@ + ")"@
        }),
{
    let first: int = if purpose is Interactive {
        0
    } else {
        1
    };
    assert(texts(r.values@).len() == r.values@.len());
    assert(texts(r.labels@).len() == r.labels@.len());
    assert(texts(r.values@)[first + i] == r.values@[first + i]@);
    assert(texts(r.labels@)[first + i] == r.labels@[first + i]@);
    if first == 1 {
        assert(texts(r.values@)[0] == r.values@[0]@);
        assert(texts(r.labels@)[0] == r.labels@[0]@);
    }
}

/// A connection whose models are known offers each of them, by its display name, and
/// selecting it selects its id; every purpose but the interactive one may inherit
/// instead, which comes first.
pub proof fn law_every_known_model_is_offered(
    purpose: PurposeKindApi,
    connection: &str,
    listings: Vec<ModelListing>,
    r: DropdownOptions,
    i: int,
)
    requires
        call_ensures(
            model_options,
            (purpose, Some(connection), Some(&ModelListState::Loaded(listings))),
            r,
        ),
        connection@ != "primary"@,
        0 <= i < listings@.len(),
    ensures
        ({
            let first: int = if purpose is Interactive {
                0
            } else {
                1
            };
            &&& r.values@.len() == first + listings@.len()
            &&& r.labels@.len() == first + listings@.len()
            &&& first == 1 ==> r.values@[0]@ == "primary"@ && r.labels@[0]@
                == "primary (inherit)"@
            &&& r.values@[first + i]@ == listings@[i].model.id@
            &&& r.labels@[first + i]@ == listings@[i].model.display_name@
        }),
{
    let first: int = if purpose is Interactive {
        0
    } else {
        1
    };
    assert(texts(r.values@).len() == r.values@.len());
    assert(texts(r.labels@).len() == r.labels@.len());
    assert(texts(r.values@)[first + i] == r.values@[first + i]@);
    assert(texts(r.labels@)[first + i] == r.labels@[first + i]@);
    if first == 1 {
        assert(texts(r.values@)[0] == r.values@[0]@);
        assert(texts(r.labels@)[0] == r.labels@[0]@);
    }
}

/// Where no models are known the list ends in a notice without a value, which names the
/// reason of a failure; an inherited connection offers an inherited model only, and no
/// connection offers nothing.
pub proof fn law_unknown_models_show_a_notice(
    purpose: PurposeKindApi,
    connection: Option<&str>,
    state: Option<&ModelListState>,
    r: DropdownOptions,
)
    requires
        call_ensures(model_options, (purpose, connection, state), r),
    ensures
        connection is None ==> r.labels@.len() == 0 && r.values@.len() == 0,
        connection is Some && connection->0@ == "primary"@ ==> r.labels@.len() == r.values@.len()
            && r.values@.len() == (if purpose is Interactive {
            0int
        } else {
            1int
        }),
        connection is Some && connection->0@ != "primary"@ && (state is None
            || *state->0 is Pending) ==> r.labels@.len() == r.values@.len() + 1
            && r.labels@.last()@ == "Loading models..."@ && r.values@.len() <= 1,
        connection is Some && connection->0@ != "primary"@ && state is Some
            && *state->0 is Failed ==> r.labels@.len() == r.values@.len() + 1 && r.labels@.last()@
            == "Models unavailable - "@ + (*state->0)->Failed_0@ && r.values@.len() <= 1,
{
    assert(texts(r.values@).len() == r.values@.len());
    assert(texts(r.labels@).len() == r.labels@.len());
    if r.labels@.len() > 0 {
        assert(texts(r.labels@)[r.labels@.len() - 1] == r.labels@.last()@);
    }
}

/// A real connection is asked for its models exactly while nothing is known about them.
pub proof fn law_only_an_unknown_connection_is_asked(
    connection: Option<&str>,
    state: Option<&ModelListState>,
    r: bool,
)
    requires
        call_ensures(should_request_models, (connection, state), r),
    ensures
        r <==> connection is Some && connection->0@ != "primary"@ && state is None,
{
}

/// A list is rewritten exactly where some entry of it would read otherwise.
pub proof fn law_an_unchanged_list_is_not_rewritten(
    current: Vec<String>,
    desired: Vec<String>,
    r: bool,
)
    requires
        call_ensures(list_needs_sync, (&current, &desired), r),
    ensures
        !r <==> current@.len() == desired@.len() && forall|i: int|
            0 <= i < current@.len() ==> (#[trigger] current@[i])@ == desired@[i]@,
{
    assert(texts(current@).len() == current@.len());
    assert(texts(desired@).len() == desired@.len());
    if !r {
        assert forall|i: int| 0 <= i < current@.len() implies (#[trigger] current@[i])@
            == desired@[i]@ by {
            assert(texts(current@)[i] == texts(desired@)[i]);
        }
    }
    if current@.len() == desired@.len() && forall|i: int|
        0 <= i < current@.len() ==> (#[trigger] current@[i])@ == desired@[i]@ {
        assert(texts(current@) =~= texts(desired@));
    }
}

/// Applying the daemon's binding puts the dropdowns on it, and what they then show is
/// not sent back.
pub proof fn law_applying_shows_the_binding_and_sends_nothing(
    tab: &mut PurposesTab,
    purpose: PurposeKindApi,
    binding: &PurposeConfigView,
    r: Option<AppliedRow>,
    selection: RowSelection,
    sent: Option<PurposeConfigView>,
)
    requires
        old(tab).wf(),
        call_ensures(purpose_config, (&old(tab).purposes, purpose), Some(binding)),
        call_ensures(PurposesTab::apply_purpose_config, (tab, purpose), r),
        r is Some ==> r->0.connection is Some && r->0.connection->0 <= u32::MAX,
        r is Some ==> r->0.model is Some && r->0.model->0 <= u32::MAX,
        r is Some ==> call_ensures(
            PurposesTab::selection,
            (
                final(tab),
                purpose,
                r->0.connection->0 as u32,
                r->0.model->0 as u32,
                r->0.effort,
            ),
            selection,
        ),
        r is Some ==> call_ensures(
            PurposesTab::emit_current,
            (
                final(tab),
                purpose,
                r->0.connection->0 as u32,
                r->0.model->0 as u32,
                r->0.effort,
            ),
            sent,
        ),
    ensures
        r is Some,
        selection.connection is Some && selection.connection->0@ == binding.connection@,
        selection.model is Some && selection.model->0@ == binding.model@,
        selection.effort == binding.effort,
        selection.max_context_tokens == binding.max_context_tokens,
        sent is None,
{
}

/// A connection that was just asked for its models is not asked again, by the same row
/// or by another.
pub proof fn law_a_second_rebuild_asks_nothing(
    tab: &mut PurposesTab,
    again: &mut PurposesTab,
    purpose: PurposeKindApi,
    connection: u32,
    model: u32,
    first: ModelStep,
    second: ModelStep,
)
    requires
        old(tab).wf(),
        *old(again) == *final(tab),
        call_ensures(PurposesTab::rebuild_models, (tab, purpose, connection, model), first),
        call_ensures(PurposesTab::rebuild_models, (again, purpose, connection, model), second),
    ensures
        second.request is None,
        texts(second.labels@) == texts(first.labels@),
        first.request is Some ==> connection < old(tab).row(purpose).connection_values@.len()
            && first.request->0@ == old(tab).row(
            purpose,
        ).connection_values@[connection as int]@,
{
    let shown = value_at(old(tab).row(purpose).connection_values@, connection as int);
    law_a_request_changes_no_label(purpose, shown);
}

/// An answer about a connection's models is what its rows offer from then on, and
/// nothing is asked for again; what was known of other connections stays.
pub proof fn law_a_rebuild_offers_the_answer(
    tab: &mut PurposesTab,
    next: &mut PurposesTab,
    purpose: PurposeKindApi,
    id: &str,
    listings: Vec<ModelListing>,
    connection: u32,
    model: u32,
    step: ModelStep,
    offer: DropdownOptions,
    other: Seq<char>,
)
    requires
        old(tab).wf(),
        call_ensures(PurposesTab::set_models, (tab, id, listings), ()),
        *old(next) == *final(tab),
        call_ensures(PurposesTab::rebuild_models, (next, purpose, connection, model), step),
        call_ensures(
            model_options,
            (purpose, Some(id), Some(&ModelListState::Loaded(listings))),
            offer,
        ),
        connection < old(tab).row(purpose).connection_values@.len(),
        old(tab).row(purpose).connection_values@[connection as int]@ == id@,
    ensures
        texts(step.labels@) == texts(offer.labels@),
        texts(final(next).row(purpose).model_values@) == texts(offer.values@),
        step.request is None,
        other != id@ ==> final(next).known(other) == old(tab).known(other),
        final(next).connections@ == old(tab).connections@,
        final(next).purposes == old(tab).purposes,
{
}

/// A failed answer is remembered too: its reason is shown, and nothing is asked for
/// again.
pub proof fn law_a_rebuild_shows_the_failure(
    tab: &mut PurposesTab,
    next: &mut PurposesTab,
    purpose: PurposeKindApi,
    id: &str,
    reason: &str,
    connection: u32,
    model: u32,
    step: ModelStep,
)
    requires
        old(tab).wf(),
        call_ensures(PurposesTab::set_models_failed, (tab, id, reason), ()),
        *old(next) == *final(tab),
        call_ensures(PurposesTab::rebuild_models, (next, purpose, connection, model), step),
        connection < old(tab).row(purpose).connection_values@.len(),
        old(tab).row(purpose).connection_values@[connection as int]@ == id@,
        id@ != "primary"@,
    ensures
        step.request is None,
        step.labels@.len() > 0,
        step.labels@.last()@ == "Models unavailable - "@ + reason@,
        final(next).row(purpose).model_values@.len() <= 1,
{
    assert(texts(step.labels@).len() == step.labels@.len());
    assert(texts(final(next).row(purpose).model_values@).len() == final(next).row(
        purpose,
    ).model_values@.len());
    assert(texts(step.labels@).last() == step.labels@.last()@);
}

/// Rebuilding a row's connections offers those that the daemon listed last, and keeps
/// the one that was selected, wherever it now stands.
pub proof fn law_a_rebuild_keeps_the_connection(
    tab: &mut PurposesTab,
    next: &mut PurposesTab,
    purpose: PurposeKindApi,
    connections: Vec<ConnectionView>,
    selected: u32,
    step: DropdownStep,
    offer: DropdownOptions,
)
    requires
        old(tab).wf(),
        call_ensures(PurposesTab::set_connections, (tab, connections), ()),
        *old(next) == *final(tab),
        call_ensures(PurposesTab::rebuild_connections, (next, purpose, selected), step),
        call_ensures(connection_options, (purpose, &connections), offer),
    ensures
        texts(step.labels@) == texts(offer.labels@),
        texts(final(next).row(purpose).connection_values@) == texts(offer.values@),
        ({
            let before = old(tab).row(purpose).connection_values@;
            let after = final(next).row(purpose).connection_values@;
            &&& step.select is Some ==> selected < before.len() && step.select->0 < after.len()
                && after[step.select->0 as int]@ == before[selected as int]@
            &&& step.select is None && selected < before.len() ==> forall|i: int|
                0 <= i < after.len() ==> (#[trigger] after[i])@ != before[selected as int]@
        }),
        final(next).row(purpose).model_values@ == old(tab).row(purpose).model_values@,
        final(next).row(purpose).max_context_tokens == old(tab).row(purpose).max_context_tokens,
        final(next).purposes == old(tab).purposes,
{
    let before = old(tab).row(purpose).connection_values@;
    let after = final(next).row(purpose).connection_values@;
    let values = texts(after);
    assert(values.len() == after.len());
    assert forall|i: int| 0 <= i < after.len() implies values[i] == (#[trigger] after[i])@ by {}
    if step.select is None && selected < before.len() {
        assert forall|i: int| 0 <= i < after.len() implies (#[trigger] after[i])@
            != before[selected as int]@ by {
            if after[i]@ == before[selected as int]@ {
                assert(values.contains(values[i]));
            }
        }
    }
}

/// The daemon's bindings replace those before, and touch nothing that the rows show.
pub proof fn law_bindings_are_remembered(
    tab: &mut PurposesTab,
    purposes: PurposesView,
    purpose: PurposeKindApi,
    fresh: PurposesTab,
    none: Option<&PurposeConfigView>,
)
    requires
        call_ensures(PurposesTab::set_purposes, (tab, purposes), ()),
        call_ensures(PurposesTab::new, (), fresh),
        call_ensures(purpose_config, (&fresh.purposes, purpose), none),
    ensures
        final(tab).purposes == purposes,
        final(tab).rows@ == old(tab).rows@,
        final(tab).connections@ == old(tab).connections@,
        none is None,
        fresh.connections@.len() == 0,
        fresh.row(purpose).connection_values@.len() == 0,
        fresh.row(purpose).model_values@.len() == 0,
        fresh.row(purpose).max_context_tokens is None,
{
    assert(binding_of(fresh.purposes, purpose) is None);
    assert(fresh.row(purpose).connection_values@.len() == 0);
}

/// Every purpose but the interactive one is offered to inherit, first of all, whatever
/// else there is to offer; without connections or models nothing else is.
pub proof fn law_inheriting_is_offered_first(
    purpose: PurposeKindApi,
    connections: Vec<ConnectionView>,
    connection: &str,
    state: Option<&ModelListState>,
    listed: DropdownOptions,
    r: DropdownOptions,
)
    requires
        call_ensures(connection_options, (purpose, &connections), listed),
        call_ensures(model_options, (purpose, Some(connection), state), r),
    ensures
        !(purpose is Interactive) ==> {
            &&& listed.values@.len() > 0 && listed.values@[0]@ == "primary"@
            &&& listed.labels@.len() > 0 && listed.labels@[0]@ == "primary (inherit)"@
            &&& r.values@.len() > 0 && r.values@[0]@ == "primary"@
            &&& r.labels@.len() > 0 && r.labels@[0]@ == "primary (inherit)"@
        },
        ({
            let first: int = if purpose is Interactive {
                0
            } else {
                1
            };
            &&& listed.values@.len() == first + connections@.len()
            &&& connection@ == "primary"@ ==> r.values@.len() == first && r.labels@.len() == first
            &&& connection@ != "primary"@ && (state is None || !(*state->0 is Loaded))
                ==> r.values@.len() == first && r.labels@.len() == first + 1
            &&& connection@ != "primary"@ && state is Some && *state->0 is Loaded
                ==> r.values@.len() == first + (*state->0)->Loaded_0@.len() && r.labels@.len()
                == r.values@.len()
        }),
{
    assert(texts(listed.values@).len() == listed.values@.len());
    assert(texts(listed.labels@).len() == listed.labels@.len());
    assert(texts(r.values@).len() == r.values@.len());
    assert(texts(r.labels@).len() == r.labels@.len());
    if !(purpose is Interactive) {
        assert(texts(listed.values@)[0] == listed.values@[0]@);
        assert(texts(listed.labels@)[0] == listed.labels@[0]@);
        assert(texts(r.values@)[0] == r.values@[0]@);
        assert(texts(r.labels@)[0] == r.labels@[0]@);
    }
}

} // verus!
