//! The per-conversation tool-usage cost view.
//!
//! Answers "what did the tools cost this conversation" on the two axes that do
//! not imply each other. Frequency is a signal on its own: forty calls to one
//! tool is a search loop or a retry storm even when each result is small.
//! Payload is the usual cause of a full context window: two calls that each
//! returned 40 KiB cost more than the forty small ones, and a count-ordered
//! list ranks them last. The view ranks by either axis on demand.

use crate::api::ToolUsageView;
use crate::figures::{bytes_text, counted, percent, percent_of, thousands};
use crate::ranking::{in_rank_order, rank_items, ranked_from, Rank};
use crate::text::{
    chars_of, comes_before, decimal, decimal_text, lemma_text_before_negatively_transitive,
    lemma_text_before_total, same_text, text_before, trim, trimmed,
};
use vstd::prelude::*;

pub use crate::figures::{format_bytes, format_thousands, pluralize};

verus! {

/// Shown in place of the list when the conversation made no tool calls. An
/// empty conversation is a normal outcome, not a failure, so it never reaches
/// the error path.
pub const EMPTY_STATE: &'static str = "No tool calls in this conversation.";

/// What the view says about a group whose hosting server the daemon did not
/// report. Deliberately not a server name: no server is called this, and a
/// reader must not go looking for one.
pub const UNRESOLVED_NAMESPACE_TITLE: &'static str = "Server not recorded";

/// The line under an unresolved group, so the heading reads as missing data
/// rather than as a server that behaved oddly.
pub const UNRESOLVED_NAMESPACE_HINT: &'static str = "The daemon did not report which server hosts these tools.";

/// The line under a group whose server was read off the tool names. The
/// grouping is then this client's inference, not the daemon's answer, and it
/// must not be presented as the daemon's.
pub const DERIVED_NAMESPACE_HINT: &'static str = "Read from the tool names. The daemon did not report a server for these.";

/// Which axis the view ranks by.
#[derive(Debug, Clone, Copy, PartialEq, Eq, Structural)]
pub enum SortAxis {
    /// Estimated result tokens still resident. The "what ate my context"
    /// reading, and the default.
    Tokens,
    /// Calls the model requested, failures included.
    Calls,
}

impl SortAxis {
    /// A row's figure on the axis.
    pub open spec fn figure(self, row: ToolUsageView) -> nat {
        match self {
            SortAxis::Tokens => row.result_tokens as nat,
            SortAxis::Calls => row.call_count as nat,
        }
    }

    /// The other axis.
    pub open spec fn flipped(self) -> SortAxis {
        match self {
            SortAxis::Tokens => SortAxis::Calls,
            SortAxis::Calls => SortAxis::Tokens,
        }
    }

    /// The axis name.
    pub open spec fn name(self) -> Seq<char> {
        match self {
            SortAxis::Tokens => "Token cost"@,
            SortAxis::Calls => "Call count"@,
        }
    }

    /// This row's figure on the axis.
    pub fn value_of(self, row: &ToolUsageView) -> (r: u64)
        ensures
            r == self.figure(*row),
    {
        match self {
            SortAxis::Tokens => row.result_tokens,
            SortAxis::Calls => row.call_count as u64,
        }
    }

    /// The other axis, which breaks a tie in the ranking.
    pub fn other(self) -> (r: Self)
        ensures
            r == self.flipped(),
    {
        match self {
            SortAxis::Tokens => SortAxis::Calls,
            SortAxis::Calls => SortAxis::Tokens,
        }
    }

    /// The axis name for the sort control.
    pub fn label(self) -> (r: &'static str)
        ensures
            r@ == self.name(),
    {
        match self {
            SortAxis::Tokens => "Token cost",
            SortAxis::Calls => "Call count",
        }
    }
}

/// The server a group of tools belongs to.
///
/// Three cases, kept apart because they are known to different degrees and a
/// reader is owed the difference. Ordered so a reported server outranks a
/// derived one and both outrank the unknown, which is the order they break a
/// tie in.
#[derive(Debug, PartialEq, Eq, PartialOrd, Ord, Hash)]
pub enum NamespaceKey {
    /// The daemon named the server that provides these tools.
    Reported(String),
    /// The daemon named no server, and the tool names carry a
    /// `{server}__{tool}` prefix this client read the server off. An
    /// inference, and labelled as one.
    Derived(String),
    /// The daemon named no server and the names carry no prefix.
    Unresolved,
}

/// A `NamespaceKey` with its name as a sequence of characters.
pub enum NamespaceKeyView {
    Reported(Seq<char>),
    Derived(Seq<char>),
    Unresolved,
}

impl View for NamespaceKey {
    type V = NamespaceKeyView;

    open spec fn view(&self) -> NamespaceKeyView {
        match self {
            NamespaceKey::Reported(name) => NamespaceKeyView::Reported(name@),
            NamespaceKey::Derived(name) => NamespaceKeyView::Derived(name@),
            NamespaceKey::Unresolved => NamespaceKeyView::Unresolved,
        }
    }
}

impl Clone for NamespaceKey {
    fn clone(&self) -> (r: Self)
        ensures
            r == *self,
    {
        match self {
            NamespaceKey::Reported(name) => NamespaceKey::Reported(name.clone()),
            NamespaceKey::Derived(name) => NamespaceKey::Derived(name.clone()),
            NamespaceKey::Unresolved => NamespaceKey::Unresolved,
        }
    }
}

impl NamespaceKeyView {
    /// The order of keys: reported, derived, unresolved, and by name within
    /// one of them.
    pub open spec fn before(self, other: NamespaceKeyView) -> bool {
        match (self, other) {
            (NamespaceKeyView::Reported(a), NamespaceKeyView::Reported(b)) => text_before(a, b),
            (NamespaceKeyView::Reported(_), _) => true,
            (NamespaceKeyView::Derived(_), NamespaceKeyView::Reported(_)) => false,
            (NamespaceKeyView::Derived(a), NamespaceKeyView::Derived(b)) => text_before(a, b),
            (NamespaceKeyView::Derived(_), NamespaceKeyView::Unresolved) => true,
            (NamespaceKeyView::Unresolved, _) => false,
        }
    }

    /// The heading text of a key.
    pub open spec fn heading(self) -> Seq<char> {
        match self {
            NamespaceKeyView::Reported(name) => name,
            NamespaceKeyView::Derived(name) => name,
            NamespaceKeyView::Unresolved => UNRESOLVED_NAMESPACE_TITLE@,
        }
    }
}

impl NamespaceKey {
    /// The heading text for this key.
    pub fn title(&self) -> (r: &str)
        ensures
            r@ == self@.heading(),
    {
        match self {
            NamespaceKey::Reported(name) => name.as_str(),
            NamespaceKey::Derived(name) => name.as_str(),
            NamespaceKey::Unresolved => UNRESOLVED_NAMESPACE_TITLE,
        }
    }

    /// The line that says how this group's server was arrived at, where that
    /// is not simply "the daemon said so".
    pub fn hint(&self) -> (r: Option<&'static str>)
        ensures
            self is Reported <==> r is None,
            self is Derived ==> r->0@ == DERIVED_NAMESPACE_HINT@,
            self is Unresolved ==> r->0@ == UNRESOLVED_NAMESPACE_HINT@,
    {
        match self {
            NamespaceKey::Reported(_) => None,
            NamespaceKey::Derived(_) => Some(DERIVED_NAMESPACE_HINT),
            NamespaceKey::Unresolved => Some(UNRESOLVED_NAMESPACE_HINT),
        }
    }

    /// Whether two keys name the same server in the same way.
    pub fn same(&self, other: &NamespaceKey) -> (r: bool)
        ensures
            r == (self@ == other@),
    {
        match (self, other) {
            (NamespaceKey::Reported(a), NamespaceKey::Reported(b)) => same_text(a, b),
            (NamespaceKey::Derived(a), NamespaceKey::Derived(b)) => same_text(a, b),
            (NamespaceKey::Unresolved, NamespaceKey::Unresolved) => true,
            _ => false,
        }
    }

    /// Whether this key is listed before `other`.
    fn is_before(&self, other: &NamespaceKey) -> (r: bool)
        ensures
            r == self@.before(other@),
    {
        match (self, other) {
            (NamespaceKey::Reported(a), NamespaceKey::Reported(b)) => comes_before(a, b),
            (NamespaceKey::Reported(_), _) => true,
            (NamespaceKey::Derived(_), NamespaceKey::Reported(_)) => false,
            (NamespaceKey::Derived(a), NamespaceKey::Derived(b)) => comes_before(a, b),
            (NamespaceKey::Derived(_), NamespaceKey::Unresolved) => true,
            (NamespaceKey::Unresolved, _) => false,
        }
    }
}

/// Where the last `__` of `s` begins.
pub open spec fn last_separator(s: Seq<char>) -> Option<int>
    decreases s.len(),
{
    if s.len() < 2 {
        None
    } else if s[s.len() - 2] == '_' && s[s.len() - 1] == '_' {
        Some(s.len() - 2)
    } else {
        last_separator(s.drop_last())
    }
}

/// The server that a `{server}__{tool}` name carries: what stands before the
/// last `__`, where there is text on both sides of it.
pub open spec fn derived_key(name: Seq<char>) -> NamespaceKeyView {
    match last_separator(name) {
        Some(at) => if at > 0 && at + 2 < name.len() {
            NamespaceKeyView::Derived(name.take(at))
        } else {
            NamespaceKeyView::Unresolved
        },
        None => NamespaceKeyView::Unresolved,
    }
}

/// The server key of a row: the reported namespace where it is more than white
/// space, and else what the tool name carries.
pub open spec fn key_of(row: ToolUsageView) -> NamespaceKeyView {
    match row.namespace {
        Some(name) => if trimmed(name@).len() > 0 {
            NamespaceKeyView::Reported(trimmed(name@))
        } else {
            derived_key(row.tool_name@)
        },
        None => derived_key(row.tool_name@),
    }
}

/// The server key for a row.
///
/// The daemon's `namespace` wins wherever it has one: it comes from the tool
/// registry and is already source-qualified (`mcp:<server>`, `builtin:<group>`),
/// which a name cannot tell you. A namespace that is absent, empty, or only
/// whitespace is not a server with a blank name, so it falls through.
///
/// The fallback reads the server off a `{server}__{tool}` name, splitting on
/// the last separator. Splitting on the first would file
/// `home__assistant__get_state` under a server called `home`, which does not
/// exist, and would merge its subtotals with every other `home__*` server.
pub fn namespace_key(row: &ToolUsageView) -> (r: NamespaceKey)
    ensures
        r@ == key_of(*row),
{
    if let Some(namespace) = &row.namespace {
        let name = trim(namespace);
        if !name.is_empty() {
            return NamespaceKey::Reported(name.to_owned());
        }
    }
    let name = row.tool_name.as_str();
    let cs = chars_of(name);
    let mut end: usize = cs.len();
    assert(name@.take(end as int) =~= name@);
    while end >= 2 && !(cs[end - 2] == '_' && cs[end - 1] == '_')
        invariant
            end <= cs.len(),
            cs@ == name@,
            last_separator(name@) == last_separator(name@.take(end as int)),
        decreases end,
    {
        assert(name@.take(end as int).drop_last() =~= name@.take(end - 1));
        end = end - 1;
    }
    if end > 2 && end < cs.len() {
        NamespaceKey::Derived(name.substring_char(0, end - 2).to_owned())
    } else {
        NamespaceKey::Unresolved
    }
}

/// Rows ranked on an axis, heaviest first; a tie breaks on the other axis and
/// then on the tool name.
#[derive(Clone, Copy)]
pub struct ByAxis {
    pub axis: SortAxis,
}

impl Rank<ToolUsageView> for ByAxis {
    open spec fn before(self, a: ToolUsageView, b: ToolUsageView) -> bool {
        let other = self.axis.flipped();
        if self.axis.figure(a) != self.axis.figure(b) {
            self.axis.figure(a) > self.axis.figure(b)
        } else if other.figure(a) != other.figure(b) {
            other.figure(a) > other.figure(b)
        } else {
            text_before(a.tool_name@, b.tool_name@)
        }
    }

    proof fn asymmetric(self, a: ToolUsageView, b: ToolUsageView) {
        lemma_text_before_total(a.tool_name@, b.tool_name@);
    }

    proof fn negatively_transitive(self, a: ToolUsageView, b: ToolUsageView, c: ToolUsageView) {
        lemma_text_before_negatively_transitive(a.tool_name@, b.tool_name@, c.tool_name@);
    }

    fn is_before(&self, a: &ToolUsageView, b: &ToolUsageView) -> (r: bool) {
        let other = self.axis.other();
        let x: u64 = self.axis.value_of(a);
        let y: u64 = self.axis.value_of(b);
        let v: u64 = other.value_of(a);
        let w: u64 = other.value_of(b);
        if x != y {
            x > y
        } else if v != w {
            v > w
        } else {
            comes_before(a.tool_name.as_str(), b.tool_name.as_str())
        }
    }
}

/// Rank rows on `axis`, heaviest first.
///
/// Ties break on the other axis, then on the tool name, so the order is
/// stable for a caller that re-sorts the same data.
pub fn sort_rows(rows: &mut Vec<ToolUsageView>, axis: SortAxis)
    ensures
        ranked_from(ByAxis { axis }, old(rows)@, final(rows)@),
{
    let mut taken: Vec<ToolUsageView> = Vec::new();
    taken.append(rows);
    let mut ranked = rank_items(&ByAxis { axis }, taken);
    rows.append(&mut ranked);
}

/// A figure of a row that the view sums up.
pub enum Figure {
    Calls,
    Tokens,
    Bytes,
}

impl Figure {
    /// The figure as a row has it.
    pub open spec fn of(self, row: ToolUsageView) -> nat {
        match self {
            Figure::Calls => row.call_count as nat,
            Figure::Tokens => row.result_tokens as nat,
            Figure::Bytes => row.result_bytes as nat,
        }
    }
}

/// The sum of a figure over rows.
pub open spec fn summed(rows: Seq<ToolUsageView>, figure: Figure) -> nat
    decreases rows.len(),
{
    if rows.len() == 0 {
        0
    } else {
        summed(rows.drop_last(), figure) + figure.of(rows.last())
    }
}

/// The largest figure on an axis; zero where there are no rows.
pub open spec fn peak_of(rows: Seq<ToolUsageView>, axis: SortAxis) -> nat
    decreases rows.len(),
{
    if rows.len() == 0 {
        0
    } else if axis.figure(rows.last()) > peak_of(rows.drop_last(), axis) {
        axis.figure(rows.last())
    } else {
        peak_of(rows.drop_last(), axis)
    }
}

/// The rows that belong to a server, in their order.
pub open spec fn rows_under(rows: Seq<ToolUsageView>, key: NamespaceKeyView) -> Seq<ToolUsageView> {
    rows.filter(|row: ToolUsageView| key_of(row) == key)
}

/// The sums over the rows of each server fit the group's figures.
pub open spec fn subtotals_fit(rows: Seq<ToolUsageView>) -> bool {
    forall|key: NamespaceKeyView, figure: Figure| #[trigger]
        summed(rows_under(rows, key), figure) <= u64::MAX
}

/// The sums that the view shows fit its figures: calls, tokens and bytes of each
/// server, and the calls and tokens of them all.
pub open spec fn sums_fit(rows: Seq<ToolUsageView>) -> bool {
    &&& subtotals_fit(rows)
    &&& summed(rows, Figure::Calls) <= u64::MAX
    &&& summed(rows, Figure::Tokens) <= u64::MAX
}

/// One namespace's tools, ranked, with the subtotals that answer "which server
/// is this conversation leaning on".
#[derive(Debug, PartialEq, Eq)]
pub struct NamespaceGroup {
    pub key: NamespaceKey,
    /// The group's tools, ranked by the requested axis, heaviest first.
    pub rows: Vec<ToolUsageView>,
    pub subtotal_calls: u64,
    pub subtotal_tokens: u64,
    pub subtotal_bytes: u64,
}

impl NamespaceGroup {
    /// The group's subtotal on an axis.
    pub open spec fn subtotal(self, axis: SortAxis) -> nat {
        match axis {
            SortAxis::Tokens => self.subtotal_tokens as nat,
            SortAxis::Calls => self.subtotal_calls as nat,
        }
    }

    /// The group holds exactly the rows of its server, ranked, and their sums.
    pub open spec fn holds(self, rows: Seq<ToolUsageView>, axis: SortAxis) -> bool {
        let own = rows_under(rows, self.key@);
        &&& own.len() > 0
        &&& ranked_from(ByAxis { axis }, own, self.rows@)
        &&& self.subtotal_calls == summed(own, Figure::Calls)
        &&& self.subtotal_tokens == summed(own, Figure::Tokens)
        &&& self.subtotal_bytes == summed(own, Figure::Bytes)
    }
}

/// Groups ranked by their heaviest row on an axis, then by their subtotal,
/// then by key.
#[derive(Clone, Copy)]
pub struct ByHeaviest {
    pub axis: SortAxis,
}

impl Rank<NamespaceGroup> for ByHeaviest {
    open spec fn before(self, a: NamespaceGroup, b: NamespaceGroup) -> bool {
        let x = peak_of(a.rows@, self.axis);
        let y = peak_of(b.rows@, self.axis);
        if x != y {
            x > y
        } else if a.subtotal(self.axis) != b.subtotal(self.axis) {
            a.subtotal(self.axis) > b.subtotal(self.axis)
        } else {
            a.key@.before(b.key@)
        }
    }

    proof fn asymmetric(self, a: NamespaceGroup, b: NamespaceGroup) {
        lemma_key_before_total(a.key@, b.key@);
    }

    proof fn negatively_transitive(self, a: NamespaceGroup, b: NamespaceGroup, c: NamespaceGroup) {
        lemma_key_before_negatively_transitive(a.key@, b.key@, c.key@);
    }

    fn is_before(&self, a: &NamespaceGroup, b: &NamespaceGroup) -> (r: bool) {
        let x: u64 = peak_axis_value(&a.rows, self.axis);
        let y: u64 = peak_axis_value(&b.rows, self.axis);
        let v: u64 = match self.axis {
            SortAxis::Tokens => a.subtotal_tokens,
            SortAxis::Calls => a.subtotal_calls,
        };
        let w: u64 = match self.axis {
            SortAxis::Tokens => b.subtotal_tokens,
            SortAxis::Calls => b.subtotal_calls,
        };
        if x != y {
            x > y
        } else if v != w {
            v > w
        } else {
            a.key.is_before(&b.key)
        }
    }
}

/// `groups` is `rows` grouped by server: one group for each server that occurs,
/// ranked by the heaviest row.
pub open spec fn grouped(
    rows: Seq<ToolUsageView>,
    axis: SortAxis,
    groups: Seq<NamespaceGroup>,
) -> bool {
    &&& forall|i: int| 0 <= i < groups.len() ==> (#[trigger] groups[i]).holds(rows, axis)
    &&& forall|i: int, j: int|
        0 <= i < j < groups.len() ==> (#[trigger] groups[i]).key@ != (#[trigger] groups[j]).key@
    &&& forall|i: int|
        0 <= i < rows.len() ==> has_key(groups, key_of(#[trigger] rows[i]))
    &&& in_rank_order(ByHeaviest { axis }, groups)
}

/// Some group is the one for `key`.
pub open spec fn has_key(groups: Seq<NamespaceGroup>, key: NamespaceKeyView) -> bool {
    exists|i: int| 0 <= i < groups.len() && (#[trigger] groups[i]).key@ == key
}

/// The largest single figure on the axis, which is what the bars scale
/// against so a bar means the same thing in every group.
pub fn peak_axis_value(rows: &Vec<ToolUsageView>, axis: SortAxis) -> (r: u64)
    ensures
        r == peak_of(rows@, axis),
{
    let mut peak: u64 = 0;
    let mut i: usize = 0;
    while i < rows.len()
        invariant
            i <= rows.len(),
            peak == peak_of(rows@.take(i as int), axis),
        decreases rows.len() - i,
    {
        let value: u64 = axis.value_of(&rows[i]);
        if value > peak {
            peak = value;
        }
        assert(rows@.take(i as int + 1).drop_last() =~= rows@.take(i as int));
        i = i + 1;
    }
    assert(rows@.take(rows@.len() as int) =~= rows@);
    peak
}

/// The rows of one server, copied out in their order.
fn bucket(rows: &Vec<ToolUsageView>, key: &NamespaceKey) -> (r: Vec<ToolUsageView>)
    ensures
        r@ == rows_under(rows@, key@),
{
    let ghost f = |row: ToolUsageView| key_of(row) == key@;
    let mut out: Vec<ToolUsageView> = Vec::new();
    let mut i: usize = 0;
    proof {
        reveal(Seq::filter);
    }
    while i < rows.len()
        invariant
            i <= rows.len(),
            f == (|row: ToolUsageView| key_of(row) == key@),
            out@ == rows@.take(i as int).filter(f),
        decreases rows.len() - i,
    {
        if namespace_key(&rows[i]).same(key) {
            out.push(rows[i].clone());
        }
        proof {
            reveal(Seq::filter);
            assert(rows@.take(i as int + 1).drop_last() =~= rows@.take(i as int));
        }
        i = i + 1;
    }
    assert(rows@.take(rows@.len() as int) =~= rows@);
    out
}

/// The sum of a figure over rows.
fn sum_rows(rows: &Vec<ToolUsageView>, axis: Option<SortAxis>) -> (r: u64)
    requires
        summed(rows@, figure_for(axis)) <= u64::MAX,
    ensures
        r == summed(rows@, figure_for(axis)),
{
    let mut sum: u64 = 0;
    let mut i: usize = 0;
    while i < rows.len()
        invariant
            i <= rows.len(),
            sum == summed(rows@.take(i as int), figure_for(axis)),
            summed(rows@, figure_for(axis)) <= u64::MAX,
        decreases rows.len() - i,
    {
        proof {
            assert(rows@.take(i as int + 1).drop_last() =~= rows@.take(i as int));
            lemma_summed_prefix(rows@, i as int + 1, figure_for(axis));
        }
        let value: u64 = match axis {
            Some(axis) => axis.value_of(&rows[i]),
            None => rows[i].result_bytes,
        };
        sum = sum + value;
        i = i + 1;
    }
    assert(rows@.take(rows@.len() as int) =~= rows@);
    sum
}

/// The figure that `sum_rows` adds up: the axis, or the resident bytes.
pub open spec fn figure_for(axis: Option<SortAxis>) -> Figure {
    match axis {
        Some(SortAxis::Tokens) => Figure::Tokens,
        Some(SortAxis::Calls) => Figure::Calls,
        None => Figure::Bytes,
    }
}

proof fn lemma_summed_prefix(rows: Seq<ToolUsageView>, n: int, figure: Figure)
    requires
        0 <= n <= rows.len(),
    ensures
        summed(rows.take(n), figure) <= summed(rows, figure),
    decreases rows.len() - n,
{
    if n < rows.len() {
        assert(rows.take(n + 1).drop_last() =~= rows.take(n));
        lemma_summed_prefix(rows, n + 1, figure);
    } else {
        assert(rows.take(n) =~= rows);
    }
}

proof fn lemma_summed_filter(rows: Seq<ToolUsageView>, f: spec_fn(ToolUsageView) -> bool, figure: Figure)
    ensures
        summed(rows.filter(f), figure) <= summed(rows, figure),
    decreases rows.len(),
{
    reveal(Seq::filter);
    if rows.len() > 0 {
        lemma_summed_filter(rows.drop_last(), f, figure);
        if f(rows.last()) {
            assert(rows.filter(f).drop_last() =~= rows.drop_last().filter(f));
        }
    }
}

/// Of two keys at most one is listed before the other, and if neither is they
/// are the same.
proof fn lemma_key_before_total(a: NamespaceKeyView, b: NamespaceKeyView)
    ensures
        a.before(b) ==> !b.before(a),
        a == b || a.before(b) || b.before(a),
{
    match (a, b) {
        (NamespaceKeyView::Reported(x), NamespaceKeyView::Reported(y)) => {
            lemma_text_before_total(x, y);
        },
        (NamespaceKeyView::Derived(x), NamespaceKeyView::Derived(y)) => {
            lemma_text_before_total(x, y);
        },
        _ => {},
    }
}

proof fn lemma_key_before_negatively_transitive(
    a: NamespaceKeyView,
    b: NamespaceKeyView,
    c: NamespaceKeyView,
)
    ensures
        !a.before(b) && !b.before(c) ==> !a.before(c),
{
    match (a, b, c) {
        (
            NamespaceKeyView::Reported(x),
            NamespaceKeyView::Reported(y),
            NamespaceKeyView::Reported(z),
        ) => {
            lemma_text_before_negatively_transitive(x, y, z);
        },
        (
            NamespaceKeyView::Derived(x),
            NamespaceKeyView::Derived(y),
            NamespaceKeyView::Derived(z),
        ) => {
            lemma_text_before_negatively_transitive(x, y, z);
        },
        _ => {},
    }
}

/// Whether some group is the one for `key`.
fn find_key(groups: &Vec<NamespaceGroup>, key: &NamespaceKey) -> (r: bool)
    ensures
        r == has_key(groups@, key@),
{
    let mut i: usize = 0;
    while i < groups.len()
        invariant
            i <= groups.len(),
            forall|j: int| 0 <= j < i ==> (#[trigger] groups@[j]).key@ != key@,
        decreases groups.len() - i,
    {
        if groups[i].key.same(key) {
            return true;
        }
        i = i + 1;
    }
    false
}

/// Reordering groups keeps what holds of the set of them.
proof fn lemma_regrouped(
    rows: Seq<ToolUsageView>,
    axis: SortAxis,
    s: Seq<NamespaceGroup>,
    r: Seq<NamespaceGroup>,
)
    requires
        s.to_multiset() == r.to_multiset(),
        forall|i: int| 0 <= i < s.len() ==> (#[trigger] s[i]).holds(rows, axis),
        forall|i: int, j: int|
            0 <= i < j < s.len() ==> (#[trigger] s[i]).key@ != (#[trigger] s[j]).key@,
        forall|i: int| 0 <= i < rows.len() ==> has_key(s, key_of(#[trigger] rows[i])),
    ensures
        forall|i: int| 0 <= i < r.len() ==> (#[trigger] r[i]).holds(rows, axis),
        forall|i: int, j: int|
            0 <= i < j < r.len() ==> (#[trigger] r[i]).key@ != (#[trigger] r[j]).key@,
        forall|i: int| 0 <= i < rows.len() ==> has_key(r, key_of(#[trigger] rows[i])),
{
    broadcast use vstd::seq_lib::group_to_multiset_ensures;

    assert forall|i: int| 0 <= i < r.len() implies s.contains(#[trigger] r[i]) by {
        assert(r.to_multiset().count(r[i]) > 0);
    }
    assert forall|i: int| 0 <= i < s.len() implies r.contains(#[trigger] s[i]) by {
        assert(s.to_multiset().count(s[i]) > 0);
    }
    assert(s.no_duplicates());
    s.lemma_multiset_has_no_duplicates();
    r.lemma_multiset_has_no_duplicates_conv();
    assert forall|i: int, j: int| 0 <= i < j < r.len() implies (#[trigger] r[i]).key@ != (
    #[trigger] r[j]).key@ by {
        let a = choose|a: int| 0 <= a < s.len() && s[a] == r[i];
        let b = choose|b: int| 0 <= b < s.len() && s[b] == r[j];
        assert(r[i] != r[j]);
        assert(a != b);
        assert(a < b ==> s[a].key@ != s[b].key@);
        assert(b < a ==> s[b].key@ != s[a].key@);
    }
    assert forall|i: int| 0 <= i < rows.len() implies has_key(r, key_of(#[trigger] rows[i])) by {
        let a = choose|a: int| 0 <= a < s.len() && (#[trigger] s[a]).key@ == key_of(rows[i]);
        assert(r.contains(s[a]));
    }
}

/// Group rows by server and rank both the groups and the rows inside them.
///
/// Groups are ordered by their heaviest row on the axis, so the tool that
/// tops the whole view is always the first row on screen. The subtotal
/// breaks a tie, then the key. Ordering groups by subtotal instead would
/// bury the single heaviest tool behind a server with more small ones, which
/// is the reading this view exists to give.
pub fn group_by_namespace(rows: &Vec<ToolUsageView>, axis: SortAxis) -> (r: Vec<NamespaceGroup>)
    requires
        subtotals_fit(rows@),
    ensures
        grouped(rows@, axis, r@),
{
    let mut groups: Vec<NamespaceGroup> = Vec::new();
    let mut i: usize = 0;
    while i < rows.len()
        invariant
            i <= rows.len(),
            subtotals_fit(rows@),
            forall|j: int| 0 <= j < groups@.len() ==> (#[trigger] groups@[j]).holds(rows@, axis),
            forall|j: int, k: int|
                0 <= j < k < groups@.len() ==> (#[trigger] groups@[j]).key@ != (
                #[trigger] groups@[k]).key@,
            forall|j: int| 0 <= j < i ==> has_key(groups@, key_of(#[trigger] rows@[j])),
        decreases rows.len() - i,
    {
        let key = namespace_key(&rows[i]);
        let ghost before = groups@;
        if !find_key(&groups, &key) {
            let own = bucket(rows, &key);
            proof {
                let f = |row: ToolUsageView| key_of(row) == key@;
                assert(summed(rows_under(rows@, key@), Figure::Calls) <= u64::MAX);
                assert(summed(rows_under(rows@, key@), Figure::Tokens) <= u64::MAX);
                assert(summed(rows_under(rows@, key@), Figure::Bytes) <= u64::MAX);
                rows@.lemma_filter_contains(f, i as int);
            }
            let subtotal_calls: u64 = sum_rows(&own, Some(SortAxis::Calls));
            let subtotal_tokens: u64 = sum_rows(&own, Some(SortAxis::Tokens));
            let subtotal_bytes: u64 = sum_rows(&own, None);
            let ranked = rank_items(&ByAxis { axis }, own);
            let group = NamespaceGroup {
                key,
                rows: ranked,
                subtotal_calls,
                subtotal_tokens,
                subtotal_bytes,
            };
            groups.push(group);
            assert(groups@[before.len() as int].holds(rows@, axis));
            assert forall|j: int| 0 <= j < i implies has_key(
                groups@,
                key_of(#[trigger] rows@[j]),
            ) by {
                let a = choose|a: int|
                    0 <= a < before.len() && (#[trigger] before[a]).key@ == key_of(rows@[j]);
                assert(groups@[a].key@ == key_of(rows@[j]));
            }
            assert(groups@[before.len() as int].key@ == key_of(rows@[i as int]));
        }
        i = i + 1;
    }
    let ghost unranked = groups@;
    let out = rank_items(&ByHeaviest { axis }, groups);
    proof {
        lemma_regrouped(rows@, axis, unranked, out@);
    }
    out
}

/// The header figures: how many distinct tools the conversation used, how many
/// calls it made, and what those calls left resident.
#[derive(Debug, Clone, Copy, PartialEq, Eq, Structural)]
pub struct Totals {
    pub distinct_tools: usize,
    pub total_calls: u64,
    pub total_tokens: u64,
}

impl Default for Totals {
    fn default() -> (r: Self)
        ensures
            r == (Totals { distinct_tools: 0, total_calls: 0, total_tokens: 0 }),
    {
        Totals { distinct_tools: 0, total_calls: 0, total_tokens: 0 }
    }
}

/// The names of the tools that were used.
pub open spec fn tool_names(rows: Seq<ToolUsageView>) -> Set<Seq<char>> {
    rows.map_values(|row: ToolUsageView| row.tool_name@).to_set()
}

/// Whether a row of `rows` before `end` has the name of the row at `end`.
fn named_before(rows: &Vec<ToolUsageView>, end: usize) -> (r: bool)
    requires
        end < rows@.len(),
    ensures
        r == tool_names(rows@.take(end as int)).contains(rows@[end as int].tool_name@),
{
    let ghost names = rows@.take(end as int).map_values(|row: ToolUsageView| row.tool_name@);
    let mut i: usize = 0;
    while i < end
        invariant
            i <= end < rows@.len(),
            names == rows@.take(end as int).map_values(|row: ToolUsageView| row.tool_name@),
            forall|j: int| 0 <= j < i ==> #[trigger] names[j] != rows@[end as int].tool_name@,
        decreases end - i,
    {
        assert(names[i as int] == rows@[i as int].tool_name@);
        if rows[i].tool_name == rows[end].tool_name {
            assert(names.contains(rows@[end as int].tool_name@));
            return true;
        }
        i = i + 1;
    }
    false
}

/// The header figures for the whole conversation.
pub fn totals(rows: &Vec<ToolUsageView>) -> (r: Totals)
    requires
        summed(rows@, Figure::Calls) <= u64::MAX,
        summed(rows@, Figure::Tokens) <= u64::MAX,
    ensures
        r.distinct_tools == tool_names(rows@).len(),
        r.total_calls == summed(rows@, Figure::Calls),
        r.total_tokens == summed(rows@, Figure::Tokens),
{
    let mut distinct: usize = 0;
    let mut i: usize = 0;
    assert(tool_names(rows@.take(0)) =~= Set::<Seq<char>>::empty());
    while i < rows.len()
        invariant
            i <= rows.len(),
            distinct <= i,
            distinct == tool_names(rows@.take(i as int)).len(),
            tool_names(rows@.take(i as int)).finite(),
        decreases rows.len() - i,
    {
        proof {
            let name = rows@[i as int].tool_name@;
            let f = |row: ToolUsageView| row.tool_name@;
            let now = rows@.take(i as int).map_values(f);
            let next = rows@.take(i as int + 1).map_values(f);
            assert(next =~= now.push(name));
            assert(next.to_set() =~= now.to_set().insert(name)) by {
                assert forall|x: Seq<char>| next.contains(x) == (now.contains(x) || x == name) by {
                    if now.contains(x) {
                        let k = choose|k: int| 0 <= k < now.len() && now[k] == x;
                        assert(next[k] == x);
                    }
                    assert(next[i as int] == name);
                }
            }
        }
        if !named_before(rows, i) {
            distinct = distinct + 1;
        }
        i = i + 1;
    }
    assert(rows@.take(rows@.len() as int) =~= rows@);
    Totals {
        distinct_tools: distinct,
        total_calls: sum_rows(rows, Some(SortAxis::Calls)),
        total_tokens: sum_rows(rows, Some(SortAxis::Tokens)),
    }
}

/// The header line for totals.
pub open spec fn totals_line(tools: nat, calls: nat, tokens: nat) -> Seq<char> {
    counted(tools, "tool"@) + " - "@ + counted(calls, "call"@) + " - "@ + counted(tokens, "token"@)
}

/// The header line: distinct tools, calls, and resident tokens.
pub fn format_totals(totals: &Totals) -> (r: String)
    ensures
        r@ == totals_line(
            totals.distinct_tools as nat,
            totals.total_calls as nat,
            totals.total_tokens as nat,
        ),
{
    let mut out = pluralize(totals.distinct_tools as u64, "tool");
    out.append(" - ");
    out.append(pluralize(totals.total_calls, "call").as_str());
    out.append(" - ");
    out.append(pluralize(totals.total_tokens, "token").as_str());
    out
}

/// The heading of a group.
pub open spec fn group_heading(group: NamespaceGroup) -> Seq<char> {
    group.key@.heading() + " - "@ + counted(group.rows@.len(), "tool"@) + ", "@ + counted(
        group.subtotal_calls as nat,
        "call"@,
    ) + ", "@ + counted(group.subtotal_tokens as nat, "token"@) + ", "@ + bytes_text(
        group.subtotal_bytes as nat,
    )
}

/// The group heading: the server, its tool count, and its subtotals.
pub fn format_group_heading(group: &NamespaceGroup) -> (r: String)
    ensures
        r@ == group_heading(*group),
{
    let mut out = group.key.title().to_owned();
    out.append(" - ");
    out.append(pluralize(group.rows.len() as u64, "tool").as_str());
    out.append(", ");
    out.append(pluralize(group.subtotal_calls, "call").as_str());
    out.append(", ");
    out.append(pluralize(group.subtotal_tokens, "token").as_str());
    out.append(", ");
    out.append(format_bytes(group.subtotal_bytes).as_str());
    out
}

/// The tooltip of a bar.
pub open spec fn tooltip_text(value: nat, peak: nat, axis: SortAxis) -> Seq<char> {
    if peak == 0 {
        axis.name() + ": nothing recorded on this axis"@
    } else {
        let reading = if value > 0 && percent_of(value, peak) == 0 {
            "under 1%"@
        } else {
            decimal(percent_of(value, peak)) + "%"@
        };
        axis.name() + ": "@ + reading + " of the heaviest tool in this conversation"@
    }
}

/// The bar's tooltip: this figure set against the heaviest tool on the axis.
///
/// Two readings a plain percentage gets wrong. With no peak there is no
/// heaviest tool to compare against, so the tooltip says so rather than
/// stating "0% of" nothing. And a small but real figure rounds to "0%", which
/// reads as none at all, so it is named as under one percent instead.
pub fn bar_tooltip(value: u64, peak: u64, axis: SortAxis) -> (r: String)
    ensures
        r@ == tooltip_text(value as nat, peak as nat, axis),
{
    let mut out = axis.label().to_owned();
    if peak == 0 {
        out.append(": nothing recorded on this axis");
        return out;
    }
    let share: u64 = percent(value, peak);
    let reading = if value > 0 && share == 0 {
        "under 1%".to_owned()
    } else {
        decimal_text(share).concat("%")
    };
    out.append(": ");
    out.append(reading.as_str());
    out.append(" of the heaviest tool in this conversation");
    out
}

/// The window title for a conversation title.
pub open spec fn title_text(conversation_title: Seq<char>) -> Seq<char> {
    if trimmed(conversation_title).len() == 0 {
        "Tool Usage"@
    } else {
        "Tool Usage - "@ + trimmed(conversation_title)
    }
}

/// The window and header title, naming the conversation the figures describe.
pub fn window_title(conversation_title: &str) -> (r: String)
    ensures
        r@ == title_text(conversation_title@),
{
    let name = trim(conversation_title);
    if name.is_empty() {
        "Tool Usage".to_owned()
    } else {
        "Tool Usage - ".to_owned().concat(name)
    }
}

/// Whether the figures on screen came from an answer, and from which one.
///
/// The view cannot infer this from the rows. An empty list means "this
/// conversation called no tools"; a failed read means "nobody knows what it
/// called". Both leave the same empty `Vec` behind, and presenting the second
/// as the first is the one reading this window must never give.
#[derive(Debug, PartialEq, Eq)]
pub enum LoadState {
    /// The first read has not come back yet.
    Loading,
    /// The daemon answered. An empty list is a real answer.
    Loaded,
    /// The daemon could not answer. Any rows on screen are from an earlier
    /// read and are stale.
    Failed(String),
}

impl Clone for LoadState {
    fn clone(&self) -> (r: Self)
        ensures
            r == *self,
    {
        match self {
            LoadState::Loading => LoadState::Loading,
            LoadState::Loaded => LoadState::Loaded,
            LoadState::Failed(error) => LoadState::Failed(error.clone()),
        }
    }
}

/// The status line for a load outcome and a number of rows.
pub open spec fn status_line(load: LoadState, row_count: nat) -> Seq<char> {
    match load {
        LoadState::Loading => if row_count == 0 {
            "Loading..."@
        } else {
            "Reloading..."@
        },
        LoadState::Loaded => if row_count == 0 {
            EMPTY_STATE@
        } else {
            Seq::empty()
        },
        LoadState::Failed(error) => if row_count == 0 {
            "Error: "@ + error@
        } else {
            "Error: "@ + error@ + " - the figures below are from the last reading."@
        },
    }
}

/// The status line for a load outcome and the number of rows it left on screen.
///
/// The empty state and a failed read are different answers and must never
/// share a rendering: "this conversation called no tools" is about the
/// conversation, and "the daemon could not answer" is not. Where a failure
/// leaves an earlier reading on screen, the line says the figures are stale
/// rather than letting them pass as current.
pub fn status_text(load: &LoadState, row_count: usize) -> (r: String)
    ensures
        r@ == status_line(*load, row_count as nat),
{
    match load {
        LoadState::Loading => if row_count == 0 {
            "Loading...".to_owned()
        } else {
            "Reloading...".to_owned()
        },
        LoadState::Loaded => if row_count == 0 {
            EMPTY_STATE.to_owned()
        } else {
            String::new()
        },
        LoadState::Failed(error) => {
            let mut out = "Error: ".to_owned();
            out.append(error.as_str());
            if row_count > 0 {
                out.append(" - the figures below are from the last reading.");
            }
            out
        },
    }
}

/// The header totals of a load outcome and the rows on screen.
pub open spec fn totals_shown(load: LoadState, rows: Seq<ToolUsageView>) -> Seq<char> {
    if rows.len() == 0 && !(load is Loaded) {
        Seq::empty()
    } else {
        totals_line(
            tool_names(rows).len(),
            summed(rows, Figure::Calls),
            summed(rows, Figure::Tokens),
        )
    }
}

/// The header totals line, or nothing where no reading has landed.
///
/// Zeros are a measured answer and are printed for a conversation that really
/// called no tools. They are not printed for a read that never returned, where
/// they would present "nobody knows" as "nothing happened".
pub fn totals_text(load: &LoadState, rows: &Vec<ToolUsageView>) -> (r: String)
    requires
        summed(rows@, Figure::Calls) <= u64::MAX,
        summed(rows@, Figure::Tokens) <= u64::MAX,
    ensures
        r@ == totals_shown(*load, rows@),
{
    if rows.len() == 0 && !matches!(load, LoadState::Loaded) {
        return String::new();
    }
    format_totals(&totals(rows))
}

/// The note of a row with `evicted` results that the model reads as a pointer.
pub open spec fn note_text(evicted: nat) -> Seq<char> {
    thousands(evicted) + " of these results are now read as a pointer"@
}

/// The note for a row whose results the model reads as a pointer, or `None`.
///
/// `evicted_results` counts two shapes that a client cannot tell apart, and
/// they move the figures in opposite directions:
///
/// - A completed agentic step distilled its results into a note. The
///   conversation still holds every byte, so `result_bytes` counts them in
///   full, while the model now reads a short pointer. Here the figures
///   overstate what the turn costs today. This is the normal, healthy shape
///   for long agentic work, not data loss.
/// - A conversation compacted by an older build had the row overwritten. Those
///   bytes are unrecoverable and count zero, so the figures understate what
///   the tool once cost.
///
/// So the note names the fact and neither direction, because asserting either
/// one would be a claim this view cannot support. It states no size.
pub fn eviction_note(row: &ToolUsageView) -> (r: Option<String>)
    ensures
        r is None <==> row.evicted_results == 0,
        r is Some ==> r->0@ == note_text(row.evicted_results as nat),
{
    if row.evicted_results == 0 {
        return None;
    }
    Some(
        format_thousands(row.evicted_results as u64).concat(
            " of these results are now read as a pointer",
        ),
    )
}

/// All rows of the groups, from the top of the view to the bottom.
pub open spec fn on_screen(groups: Seq<NamespaceGroup>) -> Seq<ToolUsageView>
    decreases groups.len(),
{
    if groups.len() == 0 {
        Seq::empty()
    } else {
        on_screen(groups.drop_last()) + groups.last().rows@
    }
}

/// The sum of a figure over the groups' subtotals.
pub open spec fn subtotals(groups: Seq<NamespaceGroup>, figure: Figure) -> nat
    decreases groups.len(),
{
    if groups.len() == 0 {
        0
    } else {
        subtotals(groups.drop_last(), figure) + (match figure {
            Figure::Calls => groups.last().subtotal_calls as nat,
            Figure::Tokens => groups.last().subtotal_tokens as nat,
            Figure::Bytes => groups.last().subtotal_bytes as nat,
        })
    }
}

proof fn lemma_peak_bounds(rows: Seq<ToolUsageView>, axis: SortAxis)
    ensures
        forall|i: int| 0 <= i < rows.len() ==> axis.figure(#[trigger] rows[i]) <= peak_of(rows, axis),
        rows.len() > 0 ==> exists|i: int|
            0 <= i < rows.len() && axis.figure(#[trigger] rows[i]) == peak_of(rows, axis),
    decreases rows.len(),
{
    if rows.len() > 0 {
        let rest = rows.drop_last();
        lemma_peak_bounds(rest, axis);
        assert forall|i: int| 0 <= i < rows.len() implies axis.figure(#[trigger] rows[i])
            <= peak_of(rows, axis) by {
            if i < rest.len() {
                assert(rest[i] == rows[i]);
            }
        }
        if axis.figure(rows.last()) > peak_of(rest, axis) {
            assert(axis.figure(rows[rows.len() - 1]) == peak_of(rows, axis));
        } else if rest.len() > 0 {
            let k = choose|k: int|
                0 <= k < rest.len() && axis.figure(#[trigger] rest[k]) == peak_of(rest, axis);
            assert(axis.figure(rows[k]) == peak_of(rows, axis));
        } else {
            assert(axis.figure(rows[0]) == peak_of(rows, axis));
        }
    }
}

/// The heaviest tool on the axis is the first row on screen, however the
/// servers' subtotals compare.
pub proof fn law_heaviest_tool_is_the_first_row(
    rows: Seq<ToolUsageView>,
    axis: SortAxis,
    groups: Seq<NamespaceGroup>,
)
    requires
        rows.len() > 0,
        grouped(rows, axis, groups),
    ensures
        groups.len() > 0,
        groups[0].rows@.len() > 0,
        axis.figure(groups[0].rows@[0]) == peak_of(rows, axis),
        forall|i: int|
            0 <= i < rows.len() ==> axis.figure(#[trigger] rows[i]) <= axis.figure(
                groups[0].rows@[0],
            ),
{
    broadcast use vstd::seq_lib::group_to_multiset_ensures;

    lemma_peak_bounds(rows, axis);
    let top = choose|i: int|
        0 <= i < rows.len() && axis.figure(#[trigger] rows[i]) == peak_of(rows, axis);
    let key = key_of(rows[top]);
    assert(has_key(groups, key));
    let g = choose|g: int| 0 <= g < groups.len() && (#[trigger] groups[g]).key@ == key;
    assert(groups[g].holds(rows, axis));
    let own = rows_under(rows, key);
    rows.lemma_filter_contains(|row: ToolUsageView| key_of(row) == key, top);
    assert(own.contains(rows[top]));
    assert(groups[g].rows@.to_multiset().count(rows[top]) > 0);
    assert(groups[g].rows@.contains(rows[top]));
    lemma_peak_bounds(groups[g].rows@, axis);
    lemma_peak_bounds(groups[0].rows@, axis);
    assert(groups[0].holds(rows, axis));
    let first = groups[0].rows@;
    assert(first.len() == first.to_multiset().len());
    assert(rows_under(rows, groups[0].key@).len() == rows_under(
        rows,
        groups[0].key@,
    ).to_multiset().len());
    if g > 0 {
        assert(!ByHeaviest { axis }.before(groups[g], groups[0]));
    }
    assert(peak_of(first, axis) >= peak_of(rows, axis));
    let k = choose|k: int|
        0 <= k < first.len() && axis.figure(#[trigger] first[k]) == peak_of(first, axis);
    if k > 0 {
        assert(!ByAxis { axis }.before(first[k], first[0]));
    }
    assert(rows.contains(first[0])) by {
        assert(first.to_multiset().count(first[0]) > 0);
        rows.lemma_filter_contains_rev(
            |row: ToolUsageView| key_of(row) == groups[0].key@,
            first[0],
        );
    }
}

proof fn lemma_filter_count(rows: Seq<ToolUsageView>, key: NamespaceKeyView, x: ToolUsageView)
    ensures
        rows_under(rows, key).to_multiset().count(x) == (if key_of(x) == key {
            rows.to_multiset().count(x)
        } else {
            0
        }),
    decreases rows.len(),
{
    broadcast use {vstd::seq_lib::group_to_multiset_ensures, vstd::multiset::group_multiset_axioms};

    let f = |row: ToolUsageView| key_of(row) == key;
    reveal(Seq::filter);
    if rows.len() > 0 {
        let rest = rows.drop_last();
        lemma_filter_count(rest, key, x);
        assert(rows =~= rest.push(rows.last()));
    }
}

proof fn lemma_add_count(a: Seq<ToolUsageView>, b: Seq<ToolUsageView>, x: ToolUsageView)
    ensures
        (a + b).to_multiset().count(x) == a.to_multiset().count(x) + b.to_multiset().count(x),
{
    broadcast use vstd::multiset::group_multiset_axioms;

    vstd::seq_lib::lemma_multiset_commutative(a, b);
}

proof fn lemma_on_screen_count(
    rows: Seq<ToolUsageView>,
    axis: SortAxis,
    groups: Seq<NamespaceGroup>,
    x: ToolUsageView,
)
    requires
        forall|i: int| 0 <= i < groups.len() ==> (#[trigger] groups[i]).holds(rows, axis),
        forall|i: int, j: int|
            0 <= i < j < groups.len() ==> (#[trigger] groups[i]).key@ != (#[trigger] groups[j]).key@,
    ensures
        on_screen(groups).to_multiset().count(x) == (if has_key(groups, key_of(x)) {
            rows.to_multiset().count(x)
        } else {
            0
        }),
    decreases groups.len(),
{
    broadcast use {vstd::seq_lib::group_to_multiset_ensures, vstd::multiset::group_multiset_axioms};

    if groups.len() > 0 {
        let rest = groups.drop_last();
        let g = groups.last();
        lemma_on_screen_count(rows, axis, rest, x);
        lemma_add_count(on_screen(rest), g.rows@, x);
        lemma_filter_count(rows, g.key@, x);
        assert(g == groups[groups.len() - 1]);
        assert(g.holds(rows, axis));
        if g.key@ == key_of(x) {
            assert(!has_key(rest, key_of(x))) by {
                if has_key(rest, key_of(x)) {
                    let k = choose|k: int|
                        0 <= k < rest.len() && (#[trigger] rest[k]).key@ == key_of(x);
                    assert(groups[k].key@ != groups[groups.len() - 1].key@);
                }
            }
        } else if has_key(groups, key_of(x)) {
            let k = choose|k: int|
                0 <= k < groups.len() && (#[trigger] groups[k]).key@ == key_of(x);
            assert(rest[k].key@ == key_of(x));
        } else if has_key(rest, key_of(x)) {
            let k = choose|k: int| 0 <= k < rest.len() && (#[trigger] rest[k]).key@ == key_of(x);
            assert(groups[k].key@ == key_of(x));
        }
    }
}

/// Grouping loses no row, repeats none and changes none: what is on screen is
/// what was read.
pub proof fn law_grouping_keeps_every_row(
    rows: Seq<ToolUsageView>,
    axis: SortAxis,
    groups: Seq<NamespaceGroup>,
)
    requires
        grouped(rows, axis, groups),
    ensures
        on_screen(groups).to_multiset() == rows.to_multiset(),
{
    broadcast use vstd::seq_lib::group_to_multiset_ensures;

    assert forall|x: ToolUsageView|
        on_screen(groups).to_multiset().count(x) == rows.to_multiset().count(x) by {
        lemma_on_screen_count(rows, axis, groups, x);
        if rows.contains(x) {
            let i = choose|i: int| 0 <= i < rows.len() && rows[i] == x;
            assert(has_key(groups, key_of(rows[i])));
        }
    }
    assert(on_screen(groups).to_multiset() =~= rows.to_multiset());
}

proof fn lemma_summed_add(a: Seq<ToolUsageView>, b: Seq<ToolUsageView>, figure: Figure)
    ensures
        summed(a + b, figure) == summed(a, figure) + summed(b, figure),
    decreases b.len(),
{
    if b.len() == 0 {
        assert(a + b =~= a);
    } else {
        assert((a + b).drop_last() =~= a + b.drop_last());
        lemma_summed_add(a, b.drop_last(), figure);
    }
}

proof fn lemma_summed_remove(a: Seq<ToolUsageView>, i: int, figure: Figure)
    requires
        0 <= i < a.len(),
    ensures
        summed(a, figure) == summed(a.remove(i), figure) + figure.of(a[i]),
{
    let x = seq![a[i]];
    assert(a =~= a.take(i) + x + a.skip(i + 1));
    assert(a.remove(i) =~= a.take(i) + a.skip(i + 1));
    lemma_summed_add(a.take(i) + x, a.skip(i + 1), figure);
    lemma_summed_add(a.take(i), x, figure);
    lemma_summed_add(a.take(i), a.skip(i + 1), figure);
    assert(x.drop_last() =~= Seq::<ToolUsageView>::empty());
    reveal_with_fuel(summed, 2);
}

proof fn lemma_summed_permutation(a: Seq<ToolUsageView>, b: Seq<ToolUsageView>, figure: Figure)
    requires
        a.to_multiset() == b.to_multiset(),
    ensures
        summed(a, figure) == summed(b, figure),
    decreases a.len(),
{
    broadcast use {vstd::seq_lib::group_to_multiset_ensures, vstd::multiset::group_multiset_axioms};

    assert(a.len() == a.to_multiset().len());
    assert(b.len() == b.to_multiset().len());
    if a.len() > 0 {
        let x = a.last();
        assert(b.contains(x)) by {
            assert(a.to_multiset().count(x) > 0);
        }
        let i = choose|i: int| 0 <= i < b.len() && b[i] == x;
        assert(a.drop_last() =~= a.remove(a.len() - 1));
        lemma_summed_remove(b, i, figure);
        lemma_summed_permutation(a.drop_last(), b.remove(i), figure);
    }
}

proof fn lemma_subtotals_are_sums(
    rows: Seq<ToolUsageView>,
    axis: SortAxis,
    groups: Seq<NamespaceGroup>,
    figure: Figure,
)
    requires
        forall|i: int| 0 <= i < groups.len() ==> (#[trigger] groups[i]).holds(rows, axis),
    ensures
        subtotals(groups, figure) == summed(on_screen(groups), figure),
    decreases groups.len(),
{
    if groups.len() > 0 {
        let g = groups.last();
        assert(g == groups[groups.len() - 1]);
        assert(g.holds(rows, axis));
        lemma_subtotals_are_sums(rows, axis, groups.drop_last(), figure);
        lemma_summed_add(on_screen(groups.drop_last()), g.rows@, figure);
        lemma_summed_permutation(rows_under(rows, g.key@), g.rows@, figure);
    }
}

/// The servers' subtotals add up to the conversation's totals, on every figure.
pub proof fn law_subtotals_add_up_to_the_totals(
    rows: Seq<ToolUsageView>,
    axis: SortAxis,
    groups: Seq<NamespaceGroup>,
    figure: Figure,
)
    requires
        grouped(rows, axis, groups),
    ensures
        subtotals(groups, figure) == summed(rows, figure),
{
    law_grouping_keeps_every_row(rows, axis, groups);
    lemma_subtotals_are_sums(rows, axis, groups, figure);
    lemma_summed_permutation(on_screen(groups), rows, figure);
}

/// A failed read never reads as an empty conversation: its line is not the
/// empty state's, it begins with the word for an error, and no totals that
/// nobody measured stand above it.
pub proof fn law_a_failed_read_is_not_an_empty_conversation(error: String, row_count: nat)
    ensures
        status_line(LoadState::Failed(error), row_count) != EMPTY_STATE@,
        "Error: "@.is_prefix_of(status_line(LoadState::Failed(error), row_count)),
        totals_shown(LoadState::Failed(error), Seq::empty()) == Seq::<char>::empty(),
{
    reveal_strlit("Error: ");
    reveal_strlit("No tool calls in this conversation.");
    let line = status_line(LoadState::Failed(error), row_count);
    assert(line[0] == 'E');
    assert(EMPTY_STATE@[0] == 'N');
    assert("Error: "@ =~= line.take("Error: "@.len() as int));
}

/// Only an answer that says so reads as an empty conversation.
pub proof fn law_only_an_empty_answer_shows_the_empty_state(load: LoadState, row_count: nat)
    ensures
        status_line(load, row_count) == EMPTY_STATE@ <==> load is Loaded && row_count == 0,
{
    reveal_strlit("Loading...");
    reveal_strlit("Reloading...");
    reveal_strlit("No tool calls in this conversation.");
    if let LoadState::Failed(error) = load {
        law_a_failed_read_is_not_an_empty_conversation(error, row_count);
    }
    assert(EMPTY_STATE@.len() > 0);
    assert("Loading..."@[0] == 'L');
    assert("Reloading..."@[0] == 'R');
    assert(EMPTY_STATE@[0] == 'N');
}

/// The sort options, in the order the control offers them. The first is the
/// default: "what ate my context" is the question this view exists for.
pub open spec fn offered_axis(index: int) -> SortAxis {
    if index == 1 {
        SortAxis::Calls
    } else {
        SortAxis::Tokens
    }
}

/// What the window is currently showing.
pub struct UsageState {
    pub rows: Vec<ToolUsageView>,
    pub axis: SortAxis,
    pub load: LoadState,
    /// Namespaces the user collapsed. Held here rather than on the widgets so
    /// the choice survives a re-sort and a reload, both of which rebuild every
    /// expander from scratch.
    pub collapsed: Vec<NamespaceKey>,
}

/// One tool's line: its name, its bar, and the figures behind it.
pub struct UsageLine {
    pub name: String,
    /// The bar shows `value` set against `peak`.
    pub value: u64,
    pub peak: u64,
    pub tooltip: String,
    pub tokens: String,
    pub calls: String,
    pub bytes: String,
    pub max: String,
    pub note: Option<String>,
}

/// One server's panel.
pub struct UsagePanel {
    pub key: NamespaceKey,
    pub expanded: bool,
    pub heading: String,
    pub hint: Option<&'static str>,
    pub lines: Vec<UsageLine>,
}

/// Everything the window paints.
pub struct UsagePage {
    pub totals: String,
    pub status: String,
    pub panels: Vec<UsagePanel>,
}

impl UsageLine {
    /// The line shows `row`.
    pub open spec fn shows(self, row: ToolUsageView, axis: SortAxis, peak: nat) -> bool {
        &&& self.name@ == row.tool_name@
        &&& self.value == axis.figure(row)
        &&& self.peak == peak
        &&& self.tooltip@ == tooltip_text(axis.figure(row), peak, axis)
        &&& self.tokens@ == counted(row.result_tokens as nat, "token"@)
        &&& self.calls@ == counted(row.call_count as nat, "call"@)
        &&& self.bytes@ == bytes_text(row.result_bytes as nat)
        &&& self.max@ == "max "@ + bytes_text(row.max_result_bytes as nat)
        &&& self.note is None <==> row.evicted_results == 0
        &&& self.note is Some ==> self.note->0@ == note_text(row.evicted_results as nat)
    }
}

impl UsagePanel {
    /// The panel shows `group`.
    pub open spec fn shows(
        self,
        group: NamespaceGroup,
        axis: SortAxis,
        peak: nat,
        collapsed: Set<NamespaceKeyView>,
    ) -> bool {
        &&& self.key@ == group.key@
        &&& self.expanded == !collapsed.contains(group.key@)
        &&& self.heading@ == group_heading(group)
        &&& self.hint is None <==> group.key is Reported
        &&& group.key is Derived ==> self.hint->0@ == DERIVED_NAMESPACE_HINT@
        &&& group.key is Unresolved ==> self.hint->0@ == UNRESOLVED_NAMESPACE_HINT@
        &&& self.lines@.len() == group.rows@.len()
        &&& forall|i: int|
            0 <= i < self.lines@.len() ==> (#[trigger] self.lines@[i]).shows(
                group.rows@[i],
                axis,
                peak,
            )
    }
}

/// One tool's line.
///
/// Every bar in the window scales against one peak, so a bar means the same
/// length in every group and re-sorting visibly re-ranks the whole view.
pub fn usage_line(row: &ToolUsageView, axis: SortAxis, peak: u64) -> (r: UsageLine)
    ensures
        r.shows(*row, axis, peak as nat),
{
    let value: u64 = axis.value_of(row);
    UsageLine {
        name: row.tool_name.clone(),
        value,
        peak,
        tooltip: bar_tooltip(value, peak, axis),
        tokens: pluralize(row.result_tokens, "token"),
        calls: pluralize(row.call_count as u64, "call"),
        bytes: format_bytes(row.result_bytes),
        max: "max ".to_owned().concat(format_bytes(row.max_result_bytes).as_str()),
        note: eviction_note(row),
    }
}

impl UsageState {
    /// The collapsed servers as a set.
    pub open spec fn collapsed_keys(self) -> Set<NamespaceKeyView> {
        Set::new(|key: NamespaceKeyView| self.is_collapsed(key))
    }

    /// The user collapsed the server `key`.
    pub open spec fn is_collapsed(self, key: NamespaceKeyView) -> bool {
        exists|i: int| 0 <= i < self.collapsed@.len() && (#[trigger] self.collapsed@[i])@ == key
    }

    /// What a window shows before its first read comes back.
    pub fn new() -> (r: Self)
        ensures
            r.rows@ == Seq::<ToolUsageView>::empty(),
            r.axis == SortAxis::Tokens,
            r.load is Loading,
            r.collapsed_keys() == Set::<NamespaceKeyView>::empty(),
    {
        let r = UsageState {
            rows: Vec::new(),
            axis: SortAxis::Tokens,
            load: LoadState::Loading,
            collapsed: Vec::new(),
        };
        assert(r.collapsed_keys() =~= Set::<NamespaceKeyView>::empty());
        r
    }

    /// A read is on its way; the rows on screen stay.
    pub fn reloading(&mut self)
        ensures
            final(self).load is Loading,
            final(self).rows == old(self).rows,
            final(self).axis == old(self).axis,
            final(self).collapsed == old(self).collapsed,
    {
        self.load = LoadState::Loading;
    }

    /// The daemon answered with `rows`.
    pub fn loaded(&mut self, rows: Vec<ToolUsageView>)
        ensures
            final(self).load is Loaded,
            final(self).rows == rows,
            final(self).axis == old(self).axis,
            final(self).collapsed == old(self).collapsed,
    {
        self.rows = rows;
        self.load = LoadState::Loaded;
    }

    /// The daemon could not answer. Recorded, not just printed: a failure that
    /// lives only in a label is erased by the next repaint, and the view then
    /// reads as an empty conversation.
    pub fn failed(&mut self, error: String)
        ensures
            final(self).load == LoadState::Failed(error),
            final(self).rows == old(self).rows,
            final(self).axis == old(self).axis,
            final(self).collapsed == old(self).collapsed,
    {
        self.load = LoadState::Failed(error);
    }

    /// The user picked the sort option at `index`; one that is not offered is
    /// read as the default.
    pub fn select_axis(&mut self, index: u32)
        ensures
            final(self).axis == offered_axis(index as int),
            final(self).rows == old(self).rows,
            final(self).load == old(self).load,
            final(self).collapsed == old(self).collapsed,
    {
        self.axis = if index == 1 {
            SortAxis::Calls
        } else {
            SortAxis::Tokens
        };
    }

    /// Whether the server `key` is shown expanded.
    pub fn is_expanded(&self, key: &NamespaceKey) -> (r: bool)
        ensures
            r == !self.collapsed_keys().contains(key@),
    {
        let mut i: usize = 0;
        while i < self.collapsed.len()
            invariant
                i <= self.collapsed.len(),
                forall|j: int| 0 <= j < i ==> (#[trigger] self.collapsed@[j])@ != key@,
            decreases self.collapsed.len() - i,
        {
            if self.collapsed[i].same(key) {
                return false;
            }
            i = i + 1;
        }
        true
    }

    /// The user opened or closed the server `key`.
    pub fn set_expanded(&mut self, key: &NamespaceKey, expanded: bool)
        ensures
            final(self).collapsed_keys() == (if expanded {
                old(self).collapsed_keys().remove(key@)
            } else {
                old(self).collapsed_keys().insert(key@)
            }),
            final(self).rows == old(self).rows,
            final(self).axis == old(self).axis,
            final(self).load == old(self).load,
    {
        let mut kept: Vec<NamespaceKey> = Vec::new();
        let mut i: usize = 0;
        while i < self.collapsed.len()
            invariant
                i <= self.collapsed.len(),
                forall|j: int| 0 <= j < kept@.len() ==> (#[trigger] kept@[j])@ != key@,
                forall|j: int|
                    0 <= j < kept@.len() ==> self.is_collapsed((#[trigger] kept@[j])@),
                forall|j: int|
                    0 <= j < i && (#[trigger] self.collapsed@[j])@ != key@ ==> (exists|k: int|
                        0 <= k < kept@.len() && (#[trigger] kept@[k])@ == self.collapsed@[j]@),
            decreases self.collapsed.len() - i,
        {
            let ghost before = kept@;
            if !self.collapsed[i].same(key) {
                kept.push(self.collapsed[i].clone());
                assert(kept@[before.len() as int]@ == self.collapsed@[i as int]@);
                assert forall|j: int|
                    0 <= j < i && (#[trigger] self.collapsed@[j])@ != key@ implies exists|k: int|
                    0 <= k < kept@.len() && (#[trigger] kept@[k])@ == self.collapsed@[j]@ by {
                    let k = choose|k: int|
                        0 <= k < before.len() && (#[trigger] before[k])@ == self.collapsed@[j]@;
                    assert(kept@[k]@ == self.collapsed@[j]@);
                }
            }
            i = i + 1;
        }
        let ghost others = kept@;
        if !expanded {
            kept.push(key.clone());
        }
        let ghost was = *self;
        self.collapsed = kept;
        proof {
            assert forall|k: NamespaceKeyView| #[trigger]
                self.is_collapsed(k) == (if k == key@ {
                    !expanded
                } else {
                    was.is_collapsed(k)
                }) by {
                if k == key@ {
                    if !expanded {
                        assert(self.collapsed@[others.len() as int]@ == k);
                    }
                } else {
                    if was.is_collapsed(k) {
                        let a = choose|a: int|
                            0 <= a < was.collapsed@.len() && (#[trigger] was.collapsed@[a])@ == k;
                        let b = choose|b: int|
                            0 <= b < others.len() && (#[trigger] others[b])@ == was.collapsed@[a]@;
                        assert(self.collapsed@[b]@ == k);
                    }
                    if self.is_collapsed(k) {
                        let b = choose|b: int|
                            0 <= b < self.collapsed@.len() && (#[trigger] self.collapsed@[b])@ == k;
                        assert(others[b]@ == k);
                    }
                }
            }
            if expanded {
                assert(self.collapsed_keys() =~= was.collapsed_keys().remove(key@));
            } else {
                assert(self.collapsed_keys() =~= was.collapsed_keys().insert(key@));
            }
        }
    }

    /// What the window paints for this state. Called after a load and after
    /// the sort axis changes, so both routes render through one path.
    pub fn page(&self) -> (r: UsagePage)
        requires
            sums_fit(self.rows@),
        ensures
            r.totals@ == totals_shown(self.load, self.rows@),
            r.status@ == status_line(self.load, self.rows@.len()),
            exists|groups: Seq<NamespaceGroup>| #[trigger]
                grouped(self.rows@, self.axis, groups) && shows_groups(
                    r.panels@,
                    groups,
                    self.axis,
                    peak_of(self.rows@, self.axis),
                    self.collapsed_keys(),
                ),
    {
        let peak: u64 = peak_axis_value(&self.rows, self.axis);
        let groups = group_by_namespace(&self.rows, self.axis);
        let mut panels: Vec<UsagePanel> = Vec::new();
        let mut i: usize = 0;
        while i < groups.len()
            invariant
                i <= groups.len(),
                panels@.len() == i,
                forall|j: int|
                    0 <= j < i ==> (#[trigger] panels@[j]).shows(
                        groups@[j],
                        self.axis,
                        peak as nat,
                        self.collapsed_keys(),
                    ),
            decreases groups.len() - i,
        {
            let group = &groups[i];
            let mut lines: Vec<UsageLine> = Vec::new();
            let mut k: usize = 0;
            while k < group.rows.len()
                invariant
                    k <= group.rows.len(),
                    lines@.len() == k,
                    forall|j: int|
                        0 <= j < k ==> (#[trigger] lines@[j]).shows(
                            group.rows@[j],
                            self.axis,
                            peak as nat,
                        ),
                decreases group.rows.len() - k,
            {
                lines.push(usage_line(&group.rows[k], self.axis, peak));
                k = k + 1;
            }
            panels.push(
                UsagePanel {
                    key: group.key.clone(),
                    expanded: self.is_expanded(&group.key),
                    heading: format_group_heading(group),
                    hint: group.key.hint(),
                    lines,
                },
            );
            i = i + 1;
        }
        assert(shows_groups(
            panels@,
            groups@,
            self.axis,
            peak_of(self.rows@, self.axis),
            self.collapsed_keys(),
        ));
        UsagePage {
            totals: totals_text(&self.load, &self.rows),
            status: status_text(&self.load, self.rows.len()),
            panels,
        }
    }
}

/// The panels show the groups, one each, in their order.
pub open spec fn shows_groups(
    panels: Seq<UsagePanel>,
    groups: Seq<NamespaceGroup>,
    axis: SortAxis,
    peak: nat,
    collapsed: Set<NamespaceKeyView>,
) -> bool {
    &&& panels.len() == groups.len()
    &&& forall|i: int|
        0 <= i < panels.len() ==> (#[trigger] panels[i]).shows(groups[i], axis, peak, collapsed)
}

/// The sum of a figure over rows, where it fits.
fn checked_sum(rows: &Vec<ToolUsageView>, axis: Option<SortAxis>) -> (r: Option<u64>)
    ensures
        match r {
            Some(sum) => sum == summed(rows@, figure_for(axis)),
            None => summed(rows@, figure_for(axis)) > u64::MAX,
        },
{
    let mut sum: u64 = 0;
    let mut i: usize = 0;
    while i < rows.len()
        invariant
            i <= rows.len(),
            sum == summed(rows@.take(i as int), figure_for(axis)),
        decreases rows.len() - i,
    {
        proof {
            assert(rows@.take(i as int + 1).drop_last() =~= rows@.take(i as int));
            lemma_summed_prefix(rows@, i as int + 1, figure_for(axis));
        }
        let value: u64 = match axis {
            Some(axis) => axis.value_of(&rows[i]),
            None => rows[i].result_bytes,
        };
        match sum.checked_add(value) {
            Some(next) => {
                sum = next;
            },
            None => {
                return None;
            },
        }
        i = i + 1;
    }
    assert(rows@.take(rows@.len() as int) =~= rows@);
    Some(sum)
}

/// Every server's sums fit where the calls and tokens of all rows do, and the bytes
/// of every server that has a row.
proof fn lemma_subtotals_fit(rows: Seq<ToolUsageView>)
    requires
        summed(rows, Figure::Calls) <= u64::MAX,
        summed(rows, Figure::Tokens) <= u64::MAX,
        forall|i: int|
            0 <= i < rows.len() ==> summed(
                rows_under(rows, key_of(#[trigger] rows[i])),
                Figure::Bytes,
            ) <= u64::MAX,
    ensures
        subtotals_fit(rows),
{
    assert forall|key: NamespaceKeyView, figure: Figure| #[trigger]
        summed(rows_under(rows, key), figure) <= u64::MAX by {
        let f = |row: ToolUsageView| key_of(row) == key;
        let own = rows_under(rows, key);
        lemma_summed_filter(rows, f, figure);
        if figure is Bytes && own.len() > 0 {
            rows.lemma_filter_pred(f, 0);
            assert(own.contains(own[0]));
            rows.lemma_filter_contains_rev(f, own[0]);
            let i = choose|i: int| 0 <= i < rows.len() && rows[i] == own[0];
            assert(key_of(rows[i]) == key);
        }
    }
}

/// Whether the sums that the view shows of `rows` fit its figures.
pub fn rows_fit(rows: &Vec<ToolUsageView>) -> (r: bool)
    ensures
        r == sums_fit(rows@),
{
    if checked_sum(rows, Some(SortAxis::Calls)).is_none() || checked_sum(
        rows,
        Some(SortAxis::Tokens),
    ).is_none() {
        return false;
    }
    let mut i: usize = 0;
    while i < rows.len()
        invariant
            i <= rows.len(),
            forall|j: int|
                0 <= j < i ==> summed(
                    rows_under(rows@, key_of(#[trigger] rows@[j])),
                    Figure::Bytes,
                ) <= u64::MAX,
        decreases rows.len() - i,
    {
        let key = namespace_key(&rows[i]);
        let own = bucket(rows, &key);
        if checked_sum(&own, None).is_none() {
            assert(summed(rows_under(rows@, key@), Figure::Bytes) > u64::MAX);
            return false;
        }
        i = i + 1;
    }
    proof {
        lemma_subtotals_fit(rows@);
    }
    true
}

/// The tokens of rows.
pub open spec fn tokens_in(rows: Seq<ToolUsageView>) -> nat
    decreases rows.len(),
{
    if rows.len() == 0 {
        0
    } else {
        tokens_in(rows.drop_last()) + rows.last().result_tokens as nat
    }
}

/// The calls of rows.
pub open spec fn calls_in(rows: Seq<ToolUsageView>) -> nat
    decreases rows.len(),
{
    if rows.len() == 0 {
        0
    } else {
        calls_in(rows.drop_last()) + rows.last().call_count as nat
    }
}

/// The bytes of rows.
pub open spec fn bytes_in(rows: Seq<ToolUsageView>) -> nat
    decreases rows.len(),
{
    if rows.len() == 0 {
        0
    } else {
        bytes_in(rows.drop_last()) + rows.last().result_bytes as nat
    }
}

proof fn lemma_sums_of_rows(rows: Seq<ToolUsageView>)
    ensures
        summed(rows, Figure::Tokens) == tokens_in(rows),
        summed(rows, Figure::Calls) == calls_in(rows),
        summed(rows, Figure::Bytes) == bytes_in(rows),
    decreases rows.len(),
{
    if rows.len() > 0 {
        lemma_sums_of_rows(rows.drop_last());
    }
}

/// `panel` shows `rows`, a line each, and sums them up in its heading.
pub open spec fn panel_of(panel: UsagePanel, axis: SortAxis, rows: Seq<ToolUsageView>) -> bool {
    &&& panel.lines@.len() == rows.len()
    &&& forall|i: int| #![trigger panel.lines@[i]] #![trigger rows[i]]
        0 <= i < rows.len() ==> {
            let line = panel.lines@[i];
            &&& line.name@ == rows[i].tool_name@
            &&& line.tokens@ == counted(rows[i].result_tokens as nat, "token"@)
            &&& line.calls@ == counted(rows[i].call_count as nat, "call"@)
            &&& line.bytes@ == bytes_text(rows[i].result_bytes as nat)
            &&& line.max@ == "max "@ + bytes_text(rows[i].max_result_bytes as nat)
            &&& line.note is Some <==> rows[i].evicted_results > 0
            &&& line.note is Some ==> line.note->0@ == thousands(rows[i].evicted_results as nat)
                + " of these results are now read as a pointer"@
            &&& axis is Tokens ==> line.value == rows[i].result_tokens
            &&& axis is Calls ==> line.value == rows[i].call_count
        }
    &&& forall|i: int| 0 <= i < rows.len() ==> key_of(#[trigger] rows[i]) == panel.key@
    &&& panel.heading@ == panel.key@.heading() + " - "@ + counted(rows.len(), "tool"@) + ", "@
        + counted(calls_in(rows), "call"@) + ", "@ + counted(tokens_in(rows), "token"@) + ", "@
        + bytes_text(bytes_in(rows))
}

/// The rows of all panels together.
pub open spec fn all_rows(shown: Seq<Seq<ToolUsageView>>) -> Seq<ToolUsageView>
    decreases shown.len(),
{
    if shown.len() == 0 {
        Seq::empty()
    } else {
        all_rows(shown.drop_last()) + shown.last()
    }
}

proof fn lemma_all_rows(groups: Seq<NamespaceGroup>)
    ensures
        all_rows(groups.map_values(|g: NamespaceGroup| g.rows@)) == on_screen(groups),
    decreases groups.len(),
{
    let shown = groups.map_values(|g: NamespaceGroup| g.rows@);
    if groups.len() > 0 {
        lemma_all_rows(groups.drop_last());
        assert(shown.drop_last() =~= groups.drop_last().map_values(|g: NamespaceGroup| g.rows@));
    } else {
        assert(shown =~= Seq::<Seq<ToolUsageView>>::empty());
    }
}

/// The page shows every row of the conversation once, under its own server, with its
/// own figures; and the heading of a server adds up the calls, tokens and bytes of the
/// lines below it.
pub proof fn law_the_page_shows_every_row_and_adds_up(state: UsageState, page: UsagePage)
    requires
        call_ensures(UsageState::page, (&state,), page),
    ensures
        exists|shown: Seq<Seq<ToolUsageView>>|
            {
                &&& shown.len() == page.panels@.len()
                &&& #[trigger] all_rows(shown).to_multiset() == state.rows@.to_multiset()
                &&& forall|g: int|
                    0 <= g < shown.len() ==> panel_of(
                        #[trigger] page.panels@[g],
                        state.axis,
                        shown[g],
                    )
            },
{
    broadcast use vstd::seq_lib::group_to_multiset_ensures;

    let groups = choose|groups: Seq<NamespaceGroup>| #[trigger]
        grouped(state.rows@, state.axis, groups) && shows_groups(
            page.panels@,
            groups,
            state.axis,
            peak_of(state.rows@, state.axis),
            state.collapsed_keys(),
        );
    let shown = groups.map_values(|g: NamespaceGroup| g.rows@);
    lemma_all_rows(groups);
    law_grouping_keeps_every_row(state.rows@, state.axis, groups);
    assert forall|g: int| 0 <= g < shown.len() implies panel_of(
        #[trigger] page.panels@[g],
        state.axis,
        shown[g],
    ) by {
        let group = groups[g];
        let own = rows_under(state.rows@, group.key@);
        assert(group.holds(state.rows@, state.axis));
        assert(page.panels@[g].shows(
            group,
            state.axis,
            peak_of(state.rows@, state.axis),
            state.collapsed_keys(),
        ));
        lemma_sums_of_rows(own);
        lemma_sums_of_rows(group.rows@);
        lemma_summed_permutation(own, group.rows@, Figure::Calls);
        lemma_summed_permutation(own, group.rows@, Figure::Tokens);
        lemma_summed_permutation(own, group.rows@, Figure::Bytes);
        assert forall|i: int| 0 <= i < group.rows@.len() implies key_of(#[trigger] group.rows@[i])
            == page.panels@[g].key@ by {
            assert(group.rows@.to_multiset().count(group.rows@[i]) > 0);
            assert(own.contains(group.rows@[i]));
            let k = choose|k: int| 0 <= k < own.len() && own[k] == group.rows@[i];
            state.rows@.lemma_filter_pred(
                |row: ToolUsageView| key_of(row) == group.key@,
                k,
            );
        }
        assert forall|i: int| #![trigger page.panels@[g].lines@[i]]
            0 <= i < group.rows@.len() implies page.panels@[g].lines@[i].shows(
            group.rows@[i],
            state.axis,
            peak_of(state.rows@, state.axis),
        ) by {}
    }
}

/// The figure that a bar stands for is the figure printed beside it: the tokens on the
/// token axis, the calls on the call axis.
pub proof fn law_a_bar_is_the_figure_beside_it(
    state: UsageState,
    page: UsagePage,
    g: int,
    i: int,
)
    requires
        call_ensures(UsageState::page, (&state,), page),
        0 <= g < page.panels@.len(),
        0 <= i < page.panels@[g].lines@.len(),
    ensures
        state.axis is Tokens ==> page.panels@[g].lines@[i].tokens@ == counted(
            page.panels@[g].lines@[i].value as nat,
            "token"@,
        ),
        state.axis is Calls ==> page.panels@[g].lines@[i].calls@ == counted(
            page.panels@[g].lines@[i].value as nat,
            "call"@,
        ),
{
    law_the_page_shows_every_row_and_adds_up(state, page);
    let shown = choose|shown: Seq<Seq<ToolUsageView>>|
        {
            &&& shown.len() == page.panels@.len()
            &&& #[trigger] all_rows(shown).to_multiset() == state.rows@.to_multiset()
            &&& forall|g: int|
                0 <= g < shown.len() ==> panel_of(
                    #[trigger] page.panels@[g],
                    state.axis,
                    shown[g],
                )
        };
    assert(panel_of(page.panels@[g], state.axis, shown[g]));
}

/// The heaviest tool comes first on the page, and every bar is measured against it;
/// within a server, and from server to server, nothing heavier follows something
/// lighter.
pub proof fn law_the_page_is_heaviest_first(state: UsageState, page: UsagePage)
    requires
        call_ensures(UsageState::page, (&state,), page),
    ensures
        page.panels@.len() == 0 <==> state.rows@.len() == 0,
        forall|g: int|
            0 <= g < page.panels@.len() ==> (#[trigger] page.panels@[g]).lines@.len() > 0,
        forall|g: int, i: int| #![trigger page.panels@[g].lines@[i]]
            0 <= g < page.panels@.len() && 0 <= i < page.panels@[g].lines@.len() ==> {
                &&& page.panels@[g].lines@[i].peak == page.panels@[0].lines@[0].value
                &&& page.panels@[g].lines@[i].value <= page.panels@[0].lines@[0].value
            },
        forall|g: int, i: int, j: int|
            0 <= g < page.panels@.len() && 0 <= i < j < page.panels@[g].lines@.len() ==> (
            #[trigger] page.panels@[g].lines@[i]).value >= (
            #[trigger] page.panels@[g].lines@[j]).value,
        forall|g: int, h: int|
            0 <= g < h < page.panels@.len() ==> (
            #[trigger] page.panels@[g]).lines@[0].value >= (
            #[trigger] page.panels@[h]).lines@[0].value,
{
    broadcast use vstd::seq_lib::group_to_multiset_ensures;

    let axis = state.axis;
    let rows = state.rows@;
    let groups = choose|groups: Seq<NamespaceGroup>| #[trigger]
        grouped(rows, axis, groups) && shows_groups(
            page.panels@,
            groups,
            axis,
            peak_of(rows, axis),
            state.collapsed_keys(),
        );
    assert forall|g: int| 0 <= g < groups.len() implies {
        &&& (#[trigger] groups[g]).rows@.len() > 0
        &&& axis.figure(groups[g].rows@[0]) == peak_of(groups[g].rows@, axis)
        &&& forall|i: int, j: int|
            0 <= i < j < groups[g].rows@.len() ==> axis.figure(#[trigger] groups[g].rows@[i])
                >= axis.figure(#[trigger] groups[g].rows@[j])
    } by {
        let own = rows_under(rows, groups[g].key@);
        assert(groups[g].holds(rows, axis));
        assert(groups[g].rows@.len() == groups[g].rows@.to_multiset().len());
        assert(own.len() == own.to_multiset().len());
        assert forall|i: int, j: int| 0 <= i < j < groups[g].rows@.len() implies axis.figure(
            #[trigger] groups[g].rows@[i],
        ) >= axis.figure(#[trigger] groups[g].rows@[j]) by {
            assert(!(ByAxis { axis }).before(groups[g].rows@[j], groups[g].rows@[i]));
        }
        lemma_peak_is_first(groups[g].rows@, axis);
    }
    assert forall|g: int| 0 <= g < page.panels@.len() implies (
    #[trigger] page.panels@[g]).lines@.len() > 0 by {
        assert(groups[g].rows@.len() > 0);
    }
    assert forall|g: int, i: int| #![trigger page.panels@[g].lines@[i]]
        0 <= g < page.panels@.len() && 0 <= i < page.panels@[g].lines@.len() implies {
        &&& page.panels@[g].lines@[i].shows(groups[g].rows@[i], axis, peak_of(rows, axis))
    } by {
        assert(page.panels@[g].shows(
            groups[g],
            axis,
            peak_of(rows, axis),
            state.collapsed_keys(),
        ));
    }
    if rows.len() > 0 {
        law_heaviest_tool_is_the_first_row(rows, axis, groups);
        assert(page.panels@[0].lines@[0].value == axis.figure(groups[0].rows@[0]));
        assert forall|g: int, i: int| #![trigger page.panels@[g].lines@[i]]
            0 <= g < page.panels@.len() && 0 <= i < page.panels@[g].lines@.len() implies {
            &&& page.panels@[g].lines@[i].peak == page.panels@[0].lines@[0].value
            &&& page.panels@[g].lines@[i].value <= page.panels@[0].lines@[0].value
        } by {
            let own = rows_under(rows, groups[g].key@);
            let row = groups[g].rows@[i];
            assert(groups[g].holds(rows, axis));
            assert(groups[g].rows@.to_multiset().count(row) > 0);
            assert(own.contains(row));
            rows.lemma_filter_contains_rev(
                |r: ToolUsageView| key_of(r) == groups[g].key@,
                row,
            );
            let k = choose|k: int| 0 <= k < rows.len() && rows[k] == row;
            assert(axis.figure(rows[k]) <= axis.figure(groups[0].rows@[0]));
        }
    } else {
        if groups.len() > 0 {
            assert(groups[0].holds(rows, axis));
            assert(rows_under(rows, groups[0].key@).len() > 0);
            rows.lemma_filter_len(|row: ToolUsageView| key_of(row) == groups[0].key@);
        }
    }
    assert forall|g: int, i: int, j: int|
        0 <= g < page.panels@.len() && 0 <= i < j < page.panels@[g].lines@.len() implies (
    #[trigger] page.panels@[g].lines@[i]).value >= (#[trigger] page.panels@[g].lines@[j]).value by {
        assert(groups[g].rows@.len() > 0);
        assert(axis.figure(groups[g].rows@[i]) >= axis.figure(groups[g].rows@[j]));
    }
    assert forall|g: int, h: int| 0 <= g < h < page.panels@.len() implies (
    #[trigger] page.panels@[g]).lines@[0].value >= (#[trigger] page.panels@[h]).lines@[0].value by {
        assert(groups[g].rows@.len() > 0 && groups[h].rows@.len() > 0);
        assert(!(ByHeaviest { axis }).before(groups[h], groups[g]));
        assert(page.panels@[g].lines@[0].value == axis.figure(groups[g].rows@[0]));
        assert(page.panels@[h].lines@[0].value == axis.figure(groups[h].rows@[0]));
    }
}

/// Where rows come heaviest first, the first is the peak.
proof fn lemma_peak_is_first(rows: Seq<ToolUsageView>, axis: SortAxis)
    requires
        forall|i: int, j: int|
            0 <= i < j < rows.len() ==> axis.figure(#[trigger] rows[i]) >= axis.figure(
                #[trigger] rows[j],
            ),
    ensures
        rows.len() > 0 ==> peak_of(rows, axis) == axis.figure(rows[0]),
    decreases rows.len(),
{
    if rows.len() > 1 {
        let rest = rows.drop_last();
        assert forall|i: int, j: int| 0 <= i < j < rest.len() implies axis.figure(
            #[trigger] rest[i],
        ) >= axis.figure(#[trigger] rest[j]) by {
            assert(axis.figure(rows[i]) >= axis.figure(rows[j]));
        }
        lemma_peak_is_first(rest, axis);
        assert(axis.figure(rows[0]) >= axis.figure(rows[rows.len() - 1]));
    } else if rows.len() == 1 {
        assert(peak_of(rows.drop_last(), axis) == 0);
    }
}

/// The totals above the page add up the calls and tokens of all rows, and nothing is
/// claimed before a first reading.
pub proof fn law_the_totals_add_up(state: UsageState, page: UsagePage)
    requires
        call_ensures(UsageState::page, (&state,), page),
    ensures
        state.rows@.len() > 0 || state.load is Loaded ==> page.totals@ == counted(
            state.rows@.map_values(|row: ToolUsageView| row.tool_name@).to_set().len(),
            "tool"@,
        ) + " - "@ + counted(calls_in(state.rows@), "call"@) + " - "@ + counted(
            tokens_in(state.rows@),
            "token"@,
        ),
        state.rows@.len() == 0 && !(state.load is Loaded) ==> page.totals@.len() == 0,
{
    lemma_sums_of_rows(state.rows@);
}

/// The line under the totals: it is busy while a read is out, quiet after an answer with
/// rows, says so after an answer without any, and passes on a failure, after which
/// figures still on screen are called stale.
pub proof fn law_the_status_line(state: UsageState, page: UsagePage)
    requires
        call_ensures(UsageState::page, (&state,), page),
    ensures
        state.load is Loading && state.rows@.len() == 0 ==> page.status@ == "Loading..."@,
        state.load is Loading && state.rows@.len() > 0 ==> page.status@ == "Reloading..."@,
        state.load is Loaded && state.rows@.len() == 0 ==> page.status@
            == "No tool calls in this conversation."@,
        state.load is Loaded && state.rows@.len() > 0 ==> page.status@.len() == 0,
        state.load is Failed && state.rows@.len() == 0 ==> page.status@ == "Error: "@
            + state.load->Failed_0@,
        state.load is Failed && state.rows@.len() > 0 ==> page.status@ == "Error: "@
            + state.load->Failed_0@ + " - the figures below are from the last reading."@,
{
}

/// A panel is open unless the user closed its server, and opening or closing one server
/// leaves the others as they were.
pub proof fn law_a_server_stays_as_the_user_left_it(
    state: &mut UsageState,
    key: NamespaceKey,
    other: NamespaceKey,
    expanded: bool,
    before: bool,
    own: bool,
    after: bool,
)
    requires
        call_ensures(UsageState::is_expanded, (old(state), &other), before),
        call_ensures(UsageState::set_expanded, (state, &key, expanded), ()),
        call_ensures(UsageState::is_expanded, (final(state), &key), own),
        call_ensures(UsageState::is_expanded, (final(state), &other), after),
    ensures
        own == expanded,
        other@ != key@ ==> after == before,
        final(state).rows@ == old(state).rows@,
        final(state).axis == old(state).axis,
        final(state).load == old(state).load,
{
}

/// The panels are open or closed as the user left their servers, and say how their
/// server was found out where the daemon did not report it.
pub proof fn law_panels_are_open_as_the_user_left_them(
    state: UsageState,
    page: UsagePage,
    key: NamespaceKey,
    expanded: bool,
    g: int,
)
    requires
        call_ensures(UsageState::page, (&state,), page),
        call_ensures(UsageState::is_expanded, (&state, &key), expanded),
        0 <= g < page.panels@.len(),
        page.panels@[g].key@ == key@,
    ensures
        page.panels@[g].expanded == expanded,
        page.panels@[g].hint is None <==> page.panels@[g].key is Reported,
        page.panels@[g].key is Derived ==> page.panels@[g].hint->0@
            == "Read from the tool names. The daemon did not report a server for these."@,
        page.panels@[g].key is Unresolved ==> page.panels@[g].hint->0@
            == "The daemon did not report which server hosts these tools."@,
{
    let groups = choose|groups: Seq<NamespaceGroup>| #[trigger]
        grouped(state.rows@, state.axis, groups) && shows_groups(
            page.panels@,
            groups,
            state.axis,
            peak_of(state.rows@, state.axis),
            state.collapsed_keys(),
        );
    assert(page.panels@[g].shows(
        groups[g],
        state.axis,
        peak_of(state.rows@, state.axis),
        state.collapsed_keys(),
    ));
}

/// The sort control offers the token cost first and the call count second, under those
/// names, and choosing one changes nothing else.
pub proof fn law_the_sort_control(state: &mut UsageState, index: u32, label: &'static str)
    requires
        call_ensures(UsageState::select_axis, (state, index), ()),
        call_ensures(SortAxis::label, (final(state).axis,), label),
    ensures
        index == 0 ==> final(state).axis is Tokens && label@ == "Token cost"@,
        index == 1 ==> final(state).axis is Calls && label@ == "Call count"@,
        index > 1 ==> final(state).axis is Tokens,
        final(state).rows@ == old(state).rows@,
        final(state).load == old(state).load,
        final(state).collapsed@ == old(state).collapsed@,
{
}

/// A reload keeps the figures on screen until the answer comes; an answer replaces them
/// and a failure leaves them.
pub proof fn law_figures_stay_until_an_answer(
    state: &mut UsageState,
    answered: &mut UsageState,
    failed: &mut UsageState,
    rows: Vec<ToolUsageView>,
    error: String,
)
    requires
        call_ensures(UsageState::reloading, (state,), ()),
        *old(answered) == *final(state),
        *old(failed) == *final(state),
        call_ensures(UsageState::loaded, (answered, rows), ()),
        call_ensures(UsageState::failed, (failed, error), ()),
    ensures
        final(state).load is Loading && final(state).rows@ == old(state).rows@,
        final(answered).load is Loaded && final(answered).rows@ == rows@,
        final(failed).load is Failed && final(failed).load->Failed_0@ == error@,
        final(failed).rows@ == old(state).rows@,
        final(answered).axis == old(state).axis && final(failed).axis == old(state).axis,
        final(answered).collapsed@ == old(state).collapsed@,
        final(failed).collapsed@ == old(state).collapsed@,
{
}

/// Sorting keeps the rows and puts the heavier before the lighter: by the axis, then by
/// the other one, then by name.
pub proof fn law_sorting_ranks_the_rows(rows: &mut Vec<ToolUsageView>, axis: SortAxis)
    requires
        call_ensures(sort_rows, (rows, axis), ()),
    ensures
        final(rows)@.to_multiset() == old(rows)@.to_multiset(),
        forall|i: int, j: int|
            0 <= i < j < final(rows)@.len() ==> {
                let a = #[trigger] final(rows)@[i];
                let b = #[trigger] final(rows)@[j];
                &&& axis is Tokens ==> a.result_tokens >= b.result_tokens
                &&& axis is Calls ==> a.call_count >= b.call_count
                &&& axis is Tokens && a.result_tokens == b.result_tokens ==> a.call_count
                    >= b.call_count
                &&& axis is Calls && a.call_count == b.call_count ==> a.result_tokens
                    >= b.result_tokens
                &&& a.result_tokens == b.result_tokens && a.call_count == b.call_count
                    ==> a.tool_name@ == b.tool_name@ || text_before(a.tool_name@, b.tool_name@)
            },
{
    assert forall|i: int, j: int| 0 <= i < j < final(rows)@.len() implies {
        let a = #[trigger] final(rows)@[i];
        let b = #[trigger] final(rows)@[j];
        &&& axis is Tokens ==> a.result_tokens >= b.result_tokens
        &&& axis is Calls ==> a.call_count >= b.call_count
        &&& axis is Tokens && a.result_tokens == b.result_tokens ==> a.call_count >= b.call_count
        &&& axis is Calls && a.call_count == b.call_count ==> a.result_tokens >= b.result_tokens
        &&& a.result_tokens == b.result_tokens && a.call_count == b.call_count ==> a.tool_name@
            == b.tool_name@ || text_before(a.tool_name@, b.tool_name@)
    } by {
        let a = final(rows)@[i];
        let b = final(rows)@[j];
        assert(!(ByAxis { axis }).before(b, a));
        lemma_text_before_total(a.tool_name@, b.tool_name@);
    }
}

/// Where the separator last stands.
proof fn lemma_last_separator(s: Seq<char>)
    ensures
        last_separator(s) matches Some(at) ==> {
            &&& 0 <= at
            &&& at + 2 <= s.len()
            &&& s[at] == '_'
            &&& s[at + 1] == '_'
            &&& forall|j: int| at < j < s.len() - 1 ==> !(#[trigger] s[j] == '_' && s[j + 1] == '_')
        },
        last_separator(s) is None ==> forall|j: int|
            0 <= j < s.len() - 1 ==> !(#[trigger] s[j] == '_' && s[j + 1] == '_'),
    decreases s.len(),
{
    if s.len() >= 2 && !(s[s.len() - 2] == '_' && s[s.len() - 1] == '_') {
        let rest = s.drop_last();
        lemma_last_separator(rest);
        if last_separator(s) is None {
            assert forall|j: int| 0 <= j < s.len() - 1 implies !(#[trigger] s[j] == '_' && s[j + 1]
                == '_') by {
                if j < rest.len() - 1 {
                    assert(!(rest[j] == '_' && rest[j + 1] == '_'));
                }
            }
        } else {
            let at = last_separator(s)->0;
            assert forall|j: int| at < j < s.len() - 1 implies !(#[trigger] s[j] == '_' && s[j + 1]
                == '_') by {
                if j < rest.len() - 1 {
                    assert(!(rest[j] == '_' && rest[j + 1] == '_'));
                }
            }
        }
    }
}

/// A server that the daemon reports wins. Without one the server is read off the tool's
/// name: what stands before its last double underscore, where something stands on both
/// sides of it.
pub proof fn law_a_tool_belongs_to_its_server(row: ToolUsageView, r: NamespaceKey)
    requires
        call_ensures(namespace_key, (&row,), r),
    ensures
        r is Reported <==> row.namespace is Some && trimmed(row.namespace->0@).len() > 0,
        r is Reported ==> r->Reported_0@ == trimmed(row.namespace->0@),
        r is Derived ==> {
            let server = r->Derived_0@;
            let name = row.tool_name@;
            &&& server.len() > 0
            &&& server.len() + 2 < name.len()
            &&& name.take(server.len() as int) == server
            &&& name[server.len() as int] == '_' && name[server.len() as int + 1] == '_'
            &&& forall|j: int|
                server.len() < j < name.len() - 1 ==> !(#[trigger] name[j] == '_' && name[j + 1]
                    == '_')
        },
        r is Unresolved ==> forall|j: int|
            0 < j < row.tool_name@.len() - 2 && (#[trigger] row.tool_name@[j]) == '_'
                && row.tool_name@[j + 1] == '_' ==> exists|k: int|
                j < k < row.tool_name@.len() - 1 && (#[trigger] row.tool_name@[k]) == '_'
                    && row.tool_name@[k + 1] == '_',
{
    let name = row.tool_name@;
    lemma_last_separator(name);
    if r is Unresolved && last_separator(name) is Some {
        let at = last_separator(name)->0;
        assert forall|j: int|
            0 < j < name.len() - 2 && (#[trigger] name[j]) == '_' && name[j + 1]
                == '_' implies exists|k: int|
            j < k < name.len() - 1 && (#[trigger] name[k]) == '_' && name[k + 1] == '_' by {
            if j < at {
                assert(name[at] == '_' && name[at + 1] == '_');
            }
        }
    }
}

/// The group of a server has its name as its title; where none is known the title says
/// so.
pub proof fn law_groups_are_titled(key: NamespaceKey, r: &str, hint: Option<&'static str>)
    requires
        call_ensures(NamespaceKey::title, (&key,), r),
        call_ensures(NamespaceKey::hint, (&key,), hint),
    ensures
        key is Reported ==> r@ == key->Reported_0@ && hint is None,
        key is Derived ==> r@ == key->Derived_0@ && hint is Some,
        key is Unresolved ==> r@ == "Server not recorded"@ && hint is Some,
{
}

/// A line printed on its own has the figures of its row.
pub proof fn law_a_line_prints_its_row(
    row: ToolUsageView,
    axis: SortAxis,
    peak: u64,
    r: UsageLine,
    tooltip: String,
)
    requires
        call_ensures(usage_line, (&row, axis, peak), r),
        call_ensures(bar_tooltip, (r.value, peak, axis), tooltip),
    ensures
        r.name@ == row.tool_name@,
        r.tokens@ == counted(row.result_tokens as nat, "token"@),
        r.calls@ == counted(row.call_count as nat, "call"@),
        r.bytes@ == bytes_text(row.result_bytes as nat),
        r.max@ == "max "@ + bytes_text(row.max_result_bytes as nat),
        axis is Tokens ==> r.value == row.result_tokens,
        axis is Calls ==> r.value == row.call_count,
        r.peak == peak,
        r.tooltip@ == tooltip@,
        r.note is Some <==> row.evicted_results > 0,
{
}

/// A bar's tooltip names its axis; it never calls a real figure nothing, and the
/// heaviest tool has the whole bar.
pub proof fn law_a_tooltip_names_its_axis(value: u64, peak: u64, axis: SortAxis, r: String)
    requires
        call_ensures(bar_tooltip, (value, peak, axis), r),
    ensures
        peak == 0 && axis is Tokens ==> r@ == "Token cost: nothing recorded on this axis"@,
        peak == 0 && axis is Calls ==> r@ == "Call count: nothing recorded on this axis"@,
        peak > 0 ==> ({
            let name = if axis is Tokens {
                "Token cost"@
            } else {
                "Call count"@
            };
            let rest = " of the heaviest tool in this conversation"@;
            &&& value >= peak ==> r@ == name + ": "@ + (decimal(100) + "%"@) + rest
            &&& value > 0 && percent_of(value as nat, peak as nat) == 0 ==> r@ == name + ": "@
                + "under 1%"@ + rest
            &&& value == 0 ==> r@ == name + ": "@ + (decimal(
                percent_of(0, peak as nat),
            ) + "%"@) + rest
        }),
{
    reveal_strlit("Token cost");
    reveal_strlit("Call count");
    reveal_strlit(": nothing recorded on this axis");
    reveal_strlit("Token cost: nothing recorded on this axis");
    reveal_strlit("Call count: nothing recorded on this axis");
    if peak == 0 {
        assert("Token cost"@ + ": nothing recorded on this axis"@
            =~= "Token cost: nothing recorded on this axis"@);
        assert("Call count"@ + ": nothing recorded on this axis"@
            =~= "Call count: nothing recorded on this axis"@);
    }
}

/// The peak is the figure of some row, and no row is above it.
pub proof fn law_the_peak_is_the_largest_figure(
    rows: Vec<ToolUsageView>,
    axis: SortAxis,
    r: u64,
)
    requires
        call_ensures(peak_axis_value, (&rows, axis), r),
    ensures
        forall|i: int|
            0 <= i < rows@.len() ==> {
                &&& axis is Tokens ==> (#[trigger] rows@[i]).result_tokens <= r
                &&& axis is Calls ==> rows@[i].call_count <= r
            },
        rows@.len() == 0 ==> r == 0,
        rows@.len() > 0 ==> exists|i: int|
            0 <= i < rows@.len() && r == (if axis is Tokens {
                (#[trigger] rows@[i]).result_tokens as nat
            } else {
                rows@[i].call_count as nat
            }),
{
    lemma_peak_bounds(rows@, axis);
}

/// The axes are each other's second: a row is ranked by one and, where it ties, by the
/// other.
pub proof fn law_each_axis_reads_its_figure(
    axis: SortAxis,
    row: ToolUsageView,
    value: u64,
    other: SortAxis,
    back: SortAxis,
)
    requires
        call_ensures(SortAxis::value_of, (axis, &row), value),
        call_ensures(SortAxis::other, (axis,), other),
        call_ensures(SortAxis::other, (other,), back),
    ensures
        axis is Tokens ==> value == row.result_tokens,
        axis is Calls ==> value == row.call_count,
        other != axis,
        back == axis,
{
}

/// Two tools have the same server exactly where both know it in the same way and under
/// the same name.
pub proof fn law_servers_are_told_by_kind_and_name(a: NamespaceKey, b: NamespaceKey, r: bool)
    requires
        call_ensures(NamespaceKey::same, (&a, &b), r),
    ensures
        r <==> ({
            ||| a is Reported && b is Reported && a->Reported_0@ == b->Reported_0@
            ||| a is Derived && b is Derived && a->Derived_0@ == b->Derived_0@
            ||| a is Unresolved && b is Unresolved
        }),
{
}

/// A server's group holds every row of that server, and adds up exactly those; no two
/// groups are for one server, and every row has its group.
pub proof fn law_a_group_adds_up_its_rows(
    rows: Vec<ToolUsageView>,
    axis: SortAxis,
    r: Vec<NamespaceGroup>,
    g: int,
)
    requires
        call_ensures(group_by_namespace, (&rows, axis), r),
        0 <= g < r@.len(),
    ensures
        r@[g].rows@.to_multiset() == rows@.filter(
            |row: ToolUsageView| key_of(row) == r@[g].key@,
        ).to_multiset(),
        r@[g].rows@.len() > 0,
        r@[g].subtotal_calls == calls_in(r@[g].rows@),
        r@[g].subtotal_tokens == tokens_in(r@[g].rows@),
        r@[g].subtotal_bytes == bytes_in(r@[g].rows@),
        forall|h: int| 0 <= h < r@.len() && h != g ==> (#[trigger] r@[h]).key@ != r@[g].key@,
        forall|i: int|
            0 <= i < rows@.len() ==> exists|h: int|
                0 <= h < r@.len() && (#[trigger] r@[h]).key@ == key_of(#[trigger] rows@[i]),
        forall|i: int, j: int|
            0 <= i < j < r@[g].rows@.len() ==> {
                let a = #[trigger] r@[g].rows@[i];
                let b = #[trigger] r@[g].rows@[j];
                &&& axis is Tokens ==> a.result_tokens >= b.result_tokens
                &&& axis is Calls ==> a.call_count >= b.call_count
            },
{
    broadcast use vstd::seq_lib::group_to_multiset_ensures;

    let group = r@[g];
    let own = rows_under(rows@, group.key@);
    assert(group.holds(rows@, axis));
    lemma_sums_of_rows(own);
    lemma_sums_of_rows(group.rows@);
    lemma_summed_permutation(own, group.rows@, Figure::Calls);
    lemma_summed_permutation(own, group.rows@, Figure::Tokens);
    lemma_summed_permutation(own, group.rows@, Figure::Bytes);
    assert(group.rows@.to_multiset().len() == own.to_multiset().len());
    assert forall|h: int| 0 <= h < r@.len() && h != g implies (#[trigger] r@[h]).key@
        != r@[g].key@ by {
        if h < g {
            assert(r@[h].key@ != r@[g].key@);
        } else {
            assert(r@[g].key@ != r@[h].key@);
        }
    }
    assert forall|i: int| 0 <= i < rows@.len() implies exists|h: int|
        0 <= h < r@.len() && (#[trigger] r@[h]).key@ == key_of(#[trigger] rows@[i]) by {
        assert(has_key(r@, key_of(rows@[i])));
    }
    assert forall|i: int, j: int| 0 <= i < j < group.rows@.len() implies {
        let a = #[trigger] group.rows@[i];
        let b = #[trigger] group.rows@[j];
        &&& axis is Tokens ==> a.result_tokens >= b.result_tokens
        &&& axis is Calls ==> a.call_count >= b.call_count
    } by {
        assert(!(ByAxis { axis }).before(group.rows@[j], group.rows@[i]));
    }
}

/// Groups come by their heaviest tool; of two that tie the one with the larger subtotal
/// comes first, and then those that the daemon reported, by name.
pub proof fn law_groups_come_by_their_heaviest_tool(
    rows: Vec<ToolUsageView>,
    axis: SortAxis,
    r: Vec<NamespaceGroup>,
    g: int,
    h: int,
)
    requires
        call_ensures(group_by_namespace, (&rows, axis), r),
        0 <= g < h < r@.len(),
    ensures
        r@[g].rows@.len() > 0 && r@[h].rows@.len() > 0,
        ({
            let a = r@[g];
            let b = r@[h];
            let top_a = if axis is Tokens {
                a.rows@[0].result_tokens as int
            } else {
                a.rows@[0].call_count as int
            };
            let top_b = if axis is Tokens {
                b.rows@[0].result_tokens as int
            } else {
                b.rows@[0].call_count as int
            };
            let sum_a = if axis is Tokens {
                a.subtotal_tokens
            } else {
                a.subtotal_calls
            };
            let sum_b = if axis is Tokens {
                b.subtotal_tokens
            } else {
                b.subtotal_calls
            };
            &&& top_a >= top_b
            &&& top_a == top_b ==> sum_a >= sum_b
            &&& top_a == top_b && sum_a == sum_b ==> {
                &&& b.key is Reported ==> a.key is Reported
                &&& b.key is Derived ==> !(a.key is Unresolved)
                &&& a.key is Reported && b.key is Reported ==> text_before(
                    a.key->Reported_0@,
                    b.key->Reported_0@,
                )
                &&& a.key is Derived && b.key is Derived ==> text_before(
                    a.key->Derived_0@,
                    b.key->Derived_0@,
                )
            }
        }),
{
    broadcast use vstd::seq_lib::group_to_multiset_ensures;

    let a = r@[g];
    let b = r@[h];
    assert(a.holds(rows@, axis) && b.holds(rows@, axis));
    assert(a.rows@.to_multiset().len() == rows_under(rows@, a.key@).to_multiset().len());
    assert(b.rows@.to_multiset().len() == rows_under(rows@, b.key@).to_multiset().len());
    lemma_peak_is_first(a.rows@, axis);
    lemma_peak_is_first(b.rows@, axis);
    assert(!(ByHeaviest { axis }).before(b, a));
    assert(a.key@ != b.key@);
    lemma_key_before_total(a.key@, b.key@);
}

/// The totals count every tool once and add up all rows; their line tells tools, calls
/// and tokens in that order, and is left out only where nothing was read yet.
pub proof fn law_the_totals_tell_all_rows(
    rows: Vec<ToolUsageView>,
    load: LoadState,
    r: Totals,
    line: String,
    shown: String,
)
    requires
        call_ensures(totals, (&rows,), r),
        call_ensures(format_totals, (&r,), line),
        call_ensures(totals_text, (&load, &rows), shown),
    ensures
        r.distinct_tools == rows@.map_values(
            |row: ToolUsageView| row.tool_name@,
        ).to_set().len(),
        r.total_calls == calls_in(rows@),
        r.total_tokens == tokens_in(rows@),
        line@ == counted(r.distinct_tools as nat, "tool"@) + " - "@ + counted(
            r.total_calls as nat,
            "call"@,
        ) + " - "@ + counted(r.total_tokens as nat, "token"@),
        rows@.len() > 0 || load is Loaded ==> shown@ == line@,
        rows@.len() == 0 && !(load is Loaded) ==> shown@.len() == 0,
{
    lemma_sums_of_rows(rows@);
}

/// A group's heading names its server and tells its tools, calls, tokens and bytes.
pub proof fn law_a_heading_tells_its_group(group: NamespaceGroup, title: &str, r: String)
    requires
        call_ensures(NamespaceKey::title, (&group.key,), title),
        call_ensures(format_group_heading, (&group,), r),
    ensures
        r@ == title@ + " - "@ + counted(group.rows@.len(), "tool"@) + ", "@ + counted(
            group.subtotal_calls as nat,
            "call"@,
        ) + ", "@ + counted(group.subtotal_tokens as nat, "token"@) + ", "@ + bytes_text(
            group.subtotal_bytes as nat,
        ),
{
}

/// The window is titled by its conversation, or by itself where that has no title.
pub proof fn law_the_window_names_its_conversation(conversation_title: &str, r: String)
    requires
        call_ensures(window_title, (conversation_title,), r),
    ensures
        trimmed(conversation_title@).len() == 0 ==> r@ == "Tool Usage"@,
        trimmed(conversation_title@).len() > 0 ==> r@ == "Tool Usage - "@ + trimmed(
            conversation_title@,
        ),
{
}

/// The status says what is being read, that there is nothing, or what failed, and with
/// a failure whether the figures are old.
pub proof fn law_the_status_tells_the_reading(load: LoadState, row_count: usize, r: String)
    requires
        call_ensures(status_text, (&load, row_count), r),
    ensures
        load is Loading && row_count == 0 ==> r@ == "Loading..."@,
        load is Loading && row_count > 0 ==> r@ == "Reloading..."@,
        load is Loaded && row_count == 0 ==> r@ == "No tool calls in this conversation."@,
        load is Loaded && row_count > 0 ==> r@.len() == 0,
        load is Failed && row_count == 0 ==> r@ == "Error: "@ + load->Failed_0@,
        load is Failed && row_count > 0 ==> r@ == "Error: "@ + load->Failed_0@
            + " - the figures below are from the last reading."@,
{
}

/// Results that were evicted are noted with their number, on the line too.
pub proof fn law_evicted_results_are_noted(
    row: ToolUsageView,
    axis: SortAxis,
    peak: u64,
    line: UsageLine,
    r: Option<String>,
)
    requires
        call_ensures(eviction_note, (&row,), r),
        call_ensures(usage_line, (&row, axis, peak), line),
    ensures
        r is Some <==> row.evicted_results > 0,
        r is Some ==> r->0@ == thousands(row.evicted_results as nat)
            + " of these results are now read as a pointer"@,
        line.note is Some <==> r is Some,
        r is Some ==> line.note->0@ == r->0@,
{
}

/// A tooltip tells the percentage of the heaviest tool, and a share that rounds to
/// nothing as less than one.
pub proof fn law_a_tooltip_tells_the_percentage(
    value: u64,
    peak: u64,
    axis: SortAxis,
    share: u64,
    r: String,
)
    requires
        peak > 0,
        call_ensures(percent, (value, peak), share),
        call_ensures(bar_tooltip, (value, peak, axis), r),
    ensures
        ({
            let name = if axis is Tokens {
                "Token cost: "@
            } else {
                "Call count: "@
            };
            let rest = " of the heaviest tool in this conversation"@;
            &&& value > 0 && share == 0 ==> r@ == name + "under 1%"@ + rest
            &&& value == 0 || share > 0 ==> r@ == name + (decimal(share as nat) + "%"@) + rest
        }),
{
    reveal_strlit("Token cost");
    reveal_strlit("Call count");
    reveal_strlit(": ");
    reveal_strlit("Token cost: ");
    reveal_strlit("Call count: ");
    assert("Token cost"@ + ": "@ =~= "Token cost: "@);
    assert("Call count"@ + ": "@ =~= "Call count: "@);
}

/// A window opens on the token axis, reading, with every server open.
pub proof fn law_a_window_opens_reading(r: UsageState, key: NamespaceKey, open: bool)
    requires
        call_ensures(UsageState::new, (), r),
        call_ensures(UsageState::is_expanded, (&r, &key), open),
    ensures
        r.rows@.len() == 0 && r.axis is Tokens && r.load is Loading && open,
{
}

/// Rows are taken exactly where all their sums can be counted.
pub proof fn law_rows_fit_where_their_sums_do(rows: Vec<ToolUsageView>, r: bool)
    requires
        call_ensures(rows_fit, (&rows,), r),
    ensures
        r ==> calls_in(rows@) <= u64::MAX && tokens_in(rows@) <= u64::MAX,
        !r ==> calls_in(rows@) > u64::MAX || tokens_in(rows@) > u64::MAX || bytes_in(rows@)
            > u64::MAX,
{
    lemma_sums_of_rows(rows@);
    if !r && calls_in(rows@) <= u64::MAX && tokens_in(rows@) <= u64::MAX && bytes_in(rows@)
        <= u64::MAX {
        assert forall|key: NamespaceKeyView, figure: Figure| #[trigger]
            summed(rows_under(rows@, key), figure) <= u64::MAX by {
            lemma_summed_filter(rows@, |row: ToolUsageView| key_of(row) == key, figure);
        }
        assert(subtotals_fit(rows@));
    }
}

/// Each server has one panel on the page.
pub proof fn law_each_server_has_one_panel(state: UsageState, page: UsagePage, g: int, h: int)
    requires
        call_ensures(UsageState::page, (&state,), page),
        0 <= g < h < page.panels@.len(),
    ensures
        page.panels@[g].key@ != page.panels@[h].key@,
{
    let peak = peak_of(state.rows@, state.axis);
    let groups = choose|groups: Seq<NamespaceGroup>| #[trigger]
        grouped(state.rows@, state.axis, groups) && shows_groups(
            page.panels@,
            groups,
            state.axis,
            peak,
            state.collapsed_keys(),
        );
    assert(page.panels@[g].shows(groups[g], state.axis, peak, state.collapsed_keys()));
    assert(page.panels@[h].shows(groups[h], state.axis, peak, state.collapsed_keys()));
    assert(groups[g].key@ != groups[h].key@);
}

} // verus!
