//! Text as the widgets handle it: sequences of characters, trimmed, split,
//! compared, and numbers written out in decimal.

use vstd::prelude::*;

verus! {

/// A character with the Unicode `White_Space` property.
pub open spec fn is_white_space(c: char) -> bool {
    let n = c as u32;
    ||| 0x09 <= n <= 0x0d
    ||| n == 0x20
    ||| n == 0x85
    ||| n == 0xa0
    ||| n == 0x1680
    ||| 0x2000 <= n <= 0x200a
    ||| n == 0x2028
    ||| n == 0x2029
    ||| n == 0x202f
    ||| n == 0x205f
    ||| n == 0x3000
}

/// `s` from its first character that is not white space.
pub open spec fn trimmed_start(s: Seq<char>) -> Seq<char>
    decreases s.len(),
{
    if s.len() > 0 && is_white_space(s[0]) {
        trimmed_start(s.drop_first())
    } else {
        s
    }
}

/// `s` up to its last character that is not white space.
pub open spec fn trimmed_end(s: Seq<char>) -> Seq<char>
    decreases s.len(),
{
    if s.len() > 0 && is_white_space(s.last()) {
        trimmed_end(s.drop_last())
    } else {
        s
    }
}

/// `s` without the white space at either end.
pub open spec fn trimmed(s: Seq<char>) -> Seq<char> {
    trimmed_end(trimmed_start(s))
}

/// Whether `a` comes before `b`, comparing code points from the left; a proper
/// prefix comes first.
pub open spec fn text_before(a: Seq<char>, b: Seq<char>) -> bool
    decreases a.len(),
{
    if b.len() == 0 {
        false
    } else if a.len() == 0 {
        true
    } else if a[0] != b[0] {
        a[0] < b[0]
    } else {
        text_before(a.drop_first(), b.drop_first())
    }
}

/// The decimal digit for `d`, a number under ten.
pub open spec fn digit(d: nat) -> char {
    ('0' as u32 + d) as char
}

/// `n` in decimal, without leading zeros.
pub open spec fn decimal(n: nat) -> Seq<char>
    decreases n,
{
    if n < 10 {
        seq![digit(n)]
    } else {
        decimal(n / 10).push(digit(n % 10))
    }
}

/// `parts` one after another with `sep` between neighbours.
pub open spec fn joined(parts: Seq<Seq<char>>, sep: Seq<char>) -> Seq<char>
    decreases parts.len(),
{
    if parts.len() == 0 {
        Seq::empty()
    } else if parts.len() == 1 {
        parts[0]
    } else {
        joined(parts.drop_last(), sep) + sep + parts.last()
    }
}

/// The texts of a list of strings.
pub open spec fn texts(v: Seq<String>) -> Seq<Seq<char>> {
    v.map_values(|s: String| s@)
}

/// The text of an optional string.
pub open spec fn opt_text(o: Option<String>) -> Option<Seq<char>> {
    match o {
        Some(s) => Some(s@),
        None => None,
    }
}

/// Nothing comes before itself.
pub proof fn lemma_text_before_irreflexive(a: Seq<char>)
    ensures
        !text_before(a, a),
    decreases a.len(),
{
    if a.len() > 0 {
        lemma_text_before_irreflexive(a.drop_first());
    }
}

/// Of two different texts exactly one comes before the other.
pub proof fn lemma_text_before_total(a: Seq<char>, b: Seq<char>)
    ensures
        text_before(a, b) ==> !text_before(b, a),
        a == b || text_before(a, b) || text_before(b, a),
    decreases a.len(),
{
    if a.len() == 0 {
        assert(b.len() == 0 ==> a =~= b);
    } else if b.len() > 0 && a[0] == b[0] {
        lemma_text_before_total(a.drop_first(), b.drop_first());
        if a.drop_first() == b.drop_first() {
            assert(a =~= seq![a[0]] + a.drop_first());
            assert(b =~= seq![b[0]] + b.drop_first());
        }
    }
}

/// The order of texts is transitive.
pub proof fn lemma_text_before_transitive(a: Seq<char>, b: Seq<char>, c: Seq<char>)
    requires
        text_before(a, b),
        text_before(b, c),
    ensures
        text_before(a, c),
    decreases a.len(),
{
    if a.len() > 0 && a[0] == b[0] && b[0] == c[0] {
        lemma_text_before_transitive(a.drop_first(), b.drop_first(), c.drop_first());
    }
}

/// What is not before `b`, which is not before `c`, is not before `c`.
pub proof fn lemma_text_before_negatively_transitive(a: Seq<char>, b: Seq<char>, c: Seq<char>)
    ensures
        !text_before(a, b) && !text_before(b, c) ==> !text_before(a, c),
{
    lemma_text_before_total(a, b);
    lemma_text_before_total(b, c);
    if text_before(b, a) && text_before(c, b) {
        lemma_text_before_transitive(c, b, a);
        lemma_text_before_total(a, c);
    }
}

/// The characters of `s`.
pub fn chars_of(s: &str) -> (r: Vec<char>)
    ensures
        r@ == s@,
{
    let mut out: Vec<char> = Vec::new();
    for c in it: s.chars()
        invariant
            out@ == s@.take(it.index() as int),
            it.seq() == s@,
    {
        out.push(c);
        assert(out@ =~= s@.take(it.index() as int + 1));
    }
    assert(out@ =~= s@);
    out
}

/// Whether `c` is white space, as `is_white_space` lists it.
pub fn white_space(c: char) -> (r: bool)
    ensures
        r == is_white_space(c),
{
    let n: u32 = c as u32;
    (0x09 <= n && n <= 0x0d) || n == 0x20 || n == 0x85 || n == 0xa0 || n == 0x1680 || (0x2000 <= n
        && n <= 0x200a) || n == 0x2028 || n == 0x2029 || n == 0x202f || n == 0x205f || n == 0x3000
}

/// `s` without the white space at either end.
pub fn trim(s: &str) -> (r: &str)
    ensures
        r@ == trimmed(s@),
{
    let cs = chars_of(s);
    let mut i: usize = 0;
    assert(s@.skip(0) =~= s@);
    while i < cs.len() && white_space(cs[i])
        invariant
            i <= cs.len(),
            cs@ == s@,
            trimmed_start(s@) == trimmed_start(s@.skip(i as int)),
        decreases cs.len() - i,
    {
        assert(s@.skip(i as int).drop_first() =~= s@.skip(i as int + 1));
        i = i + 1;
    }
    assert(trimmed_start(s@) == s@.skip(i as int));
    let mut j: usize = cs.len();
    assert(s@.subrange(i as int, j as int) =~= s@.skip(i as int));
    while j > i && white_space(cs[j - 1])
        invariant
            i <= j <= cs.len(),
            cs@ == s@,
            trimmed(s@) == trimmed_end(s@.subrange(i as int, j as int)),
        decreases j,
    {
        assert(s@.subrange(i as int, j as int).drop_last() =~= s@.subrange(i as int, j - 1));
        j = j - 1;
    }
    s.substring_char(i, j)
}

/// Whether two texts are the same.
pub fn same_text(a: &str, b: &str) -> (r: bool)
    ensures
        r == (a@ == b@),
{
    a.to_owned() == b.to_owned()
}

/// Whether `a` comes before `b`.
pub fn comes_before(a: &str, b: &str) -> (r: bool)
    ensures
        r == text_before(a@, b@),
{
    let x = chars_of(a);
    let y = chars_of(b);
    let mut i: usize = 0;
    assert(a@.skip(0) =~= a@);
    assert(b@.skip(0) =~= b@);
    while i < x.len() && i < y.len() && x[i] == y[i]
        invariant
            i <= x.len(),
            i <= y.len(),
            x@ == a@,
            y@ == b@,
            text_before(a@, b@) == text_before(a@.skip(i as int), b@.skip(i as int)),
        decreases x.len() - i,
    {
        assert(a@.skip(i as int).drop_first() =~= a@.skip(i as int + 1));
        assert(b@.skip(i as int).drop_first() =~= b@.skip(i as int + 1));
        i = i + 1;
    }
    if i == y.len() {
        false
    } else if i == x.len() {
        true
    } else {
        x[i] < y[i]
    }
}

/// The digit for `d`.
pub(crate) fn digit_text(d: u64) -> (r: &'static str)
    requires
        d < 10,
    ensures
        r@ == seq![digit(d as nat)],
{
    proof {
        reveal_strlit("0123456789");
    }
    let r = "0123456789".substring_char(d as usize, d as usize + 1);
    assert(r@ =~= seq![digit(d as nat)]);
    r
}

/// `n` in decimal.
pub fn decimal_text(n: u64) -> (r: String)
    ensures
        r@ == decimal(n as nat),
    decreases n,
{
    if n < 10 {
        digit_text(n).to_owned()
    } else {
        let mut out = decimal_text(n / 10);
        out.append(digit_text(n % 10));
        assert(out@ =~= decimal(n as nat));
        out
    }
}

/// `parts` with `sep` between neighbours.
pub fn join(parts: &Vec<String>, sep: &str) -> (r: String)
    ensures
        r@ == joined(texts(parts@), sep@),
{
    let mut out = String::new();
    let mut i: usize = 0;
    while i < parts.len()
        invariant
            i <= parts.len(),
            out@ == joined(texts(parts@.take(i as int)), sep@),
        decreases parts.len() - i,
    {
        proof {
            let now = texts(parts@.take(i as int + 1));
            assert(now.drop_last() =~= texts(parts@.take(i as int)));
            assert(now.last() == parts@[i as int]@);
        }
        if i > 0 {
            out.append(sep);
        }
        out.append(parts[i].as_str());
        proof {
            assert(out@ =~= joined(texts(parts@.take(i as int + 1)), sep@));
        }
        i = i + 1;
    }
    assert(parts@.take(parts@.len() as int) =~= parts@);
    out
}

/// Where a text is cut into pieces.
#[derive(Clone, Copy)]
pub enum Cut {
    /// At line feeds.
    Lines,
    /// At white space.
    Words,
    /// At commas and white space.
    List,
}

impl Cut {
    /// The text is cut at this character.
    pub open spec fn at(self, c: char) -> bool {
        match self {
            Cut::Lines => c == '\n',
            Cut::Words => is_white_space(c),
            Cut::List => c == ',' || is_white_space(c),
        }
    }

    fn is_at(self, c: char) -> (r: bool)
        ensures
            r == self.at(c),
    {
        match self {
            Cut::Lines => c == '\n',
            Cut::Words => white_space(c),
            Cut::List => c == ',' || white_space(c),
        }
    }
}

/// The pieces between the cuts of `s`, empty ones too.
pub open spec fn pieces(s: Seq<char>, cut: Cut) -> Seq<Seq<char>>
    decreases s.len(),
{
    if s.len() == 0 {
        seq![Seq::empty()]
    } else {
        let before = pieces(s.drop_last(), cut);
        if cut.at(s.last()) {
            before.push(Seq::empty())
        } else {
            before.drop_last().push(before.last().push(s.last()))
        }
    }
}

/// The texts of `parts` trimmed, without those that are empty then.
pub open spec fn filled(parts: Seq<Seq<char>>) -> Seq<Seq<char>>
    decreases parts.len(),
{
    if parts.len() == 0 {
        Seq::empty()
    } else if trimmed(parts.last()).len() == 0 {
        filled(parts.drop_last())
    } else {
        filled(parts.drop_last()).push(trimmed(parts.last()))
    }
}

/// What stands between the cuts of `s`: each piece trimmed, and empty ones
/// left out.
pub open spec fn items(s: Seq<char>, cut: Cut) -> Seq<Seq<char>> {
    filled(pieces(s, cut))
}

/// Appends `part` trimmed to `out`, unless it is empty then.
fn push_filled(out: &mut Vec<String>, part: &str)
    ensures
        texts(final(out)@) == (if trimmed(part@).len() == 0 {
            texts(old(out)@)
        } else {
            texts(old(out)@).push(trimmed(part@))
        }),
{
    let item = trim(part);
    if !item.is_empty() {
        let ghost before = texts(out@);
        out.push(item.to_owned());
        assert(texts(out@) =~= before.push(item@));
    }
}

/// The items of `s` between its cuts.
pub fn split_items(s: &str, cut: Cut) -> (r: Vec<String>)
    ensures
        texts(r@) == items(s@, cut),
{
    let cs = chars_of(s);
    let mut out: Vec<String> = Vec::new();
    let mut start: usize = 0;
    let mut i: usize = 0;
    assert(texts(out@) =~= Seq::<Seq<char>>::empty());
    assert(s@.subrange(0, 0) =~= Seq::<char>::empty());
    assert(pieces(s@.take(0), cut).drop_last() =~= Seq::<Seq<char>>::empty());
    while i < cs.len()
        invariant
            start <= i <= cs.len(),
            cs@ == s@,
            pieces(s@.take(i as int), cut).len() > 0,
            pieces(s@.take(i as int), cut).last() == s@.subrange(start as int, i as int),
            texts(out@) == filled(pieces(s@.take(i as int), cut).drop_last()),
        decreases cs.len() - i,
    {
        let ghost now = pieces(s@.take(i as int), cut);
        let ghost next = pieces(s@.take(i as int + 1), cut);
        assert(s@.take(i as int + 1).drop_last() =~= s@.take(i as int));
        if cut.is_at(cs[i]) {
            push_filled(&mut out, s.substring_char(start, i));
            start = i + 1;
            assert(next.drop_last() =~= now);
            assert(now =~= now.drop_last().push(now.last()));
            assert(s@.subrange(start as int, i as int + 1) =~= Seq::<char>::empty());
        } else {
            assert(next.drop_last() =~= now.drop_last());
            assert(s@.subrange(start as int, i as int + 1) =~= s@.subrange(
                start as int,
                i as int,
            ).push(s@[i as int]));
        }
        i = i + 1;
    }
    push_filled(&mut out, s.substring_char(start, i));
    assert(s@.take(i as int) =~= s@);
    out
}

/// A letter, digit, hyphen or underscore of ASCII.
pub open spec fn is_slug_char(c: char) -> bool {
    ||| 'a' <= c <= 'z'
    ||| 'A' <= c <= 'Z'
    ||| '0' <= c <= '9'
    ||| c == '-'
    ||| c == '_'
}

/// Nothing but letters, digits, hyphens and underscores.
pub open spec fn is_slug(s: Seq<char>) -> bool {
    forall|i: int| 0 <= i < s.len() ==> is_slug_char(#[trigger] s[i])
}

/// Whether `s` holds nothing but letters, digits, hyphens and underscores.
pub fn all_slug_chars(s: &str) -> (r: bool)
    ensures
        r == is_slug(s@),
{
    let cs = chars_of(s);
    let mut i: usize = 0;
    while i < cs.len()
        invariant
            i <= cs.len(),
            cs@ == s@,
            forall|j: int| 0 <= j < i ==> is_slug_char(#[trigger] s@[j]),
        decreases cs.len() - i,
    {
        let c = cs[i];
        let ok = ('a' <= c && c <= 'z') || ('A' <= c && c <= 'Z') || ('0' <= c && c <= '9') || c
            == '-' || c == '_';
        if !ok {
            assert(!is_slug_char(s@[i as int]));
            return false;
        }
        i = i + 1;
    }
    true
}

/// `s` trimmed, and nothing where that is empty.
pub open spec fn filled_text(s: Seq<char>) -> Option<Seq<char>> {
    if trimmed(s).len() == 0 {
        None
    } else {
        Some(trimmed(s))
    }
}

/// `s` trimmed; `None` where that is empty.
pub fn opt(s: &str) -> (r: Option<String>)
    ensures
        opt_text(r) == filled_text(s@),
{
    let t = trim(s);
    if t.is_empty() {
        None
    } else {
        Some(t.to_owned())
    }
}

/// Whether `name` is one of `names`.
pub fn is_among(name: &str, names: &Vec<String>) -> (r: bool)
    ensures
        r == texts(names@).contains(name@),
{
    let mut i: usize = 0;
    while i < names.len()
        invariant
            i <= names.len(),
            forall|j: int| 0 <= j < i ==> #[trigger] texts(names@)[j] != name@,
        decreases names.len() - i,
    {
        assert(texts(names@)[i as int] == names@[i as int]@);
        if same_text(names[i].as_str(), name) {
            assert(texts(names@).contains(name@));
            return true;
        }
        i = i + 1;
    }
    false
}

/// A copy of a list of strings.
pub fn copy_texts(v: &Vec<String>) -> (r: Vec<String>)
    ensures
        r@ == v@,
{
    let mut out: Vec<String> = Vec::new();
    let mut i: usize = 0;
    while i < v.len()
        invariant
            i <= v.len(),
            out@ == v@.take(i as int),
        decreases v.len() - i,
    {
        out.push(v[i].clone());
        i = i + 1;
        assert(out@ =~= v@.take(i as int));
    }
    assert(out@ =~= v@);
    out
}

/// The text of an optional string, empty where there is none.
pub open spec fn text_or_empty(o: Option<String>) -> Seq<char> {
    match o {
        Some(s) => s@,
        None => Seq::empty(),
    }
}

/// The string, or an empty one where there is none.
pub fn or_empty(o: &Option<String>) -> (r: String)
    ensures
        r@ == text_or_empty(*o),
{
    match o {
        Some(s) => s.clone(),
        None => String::new(),
    }
}

/// A text with no white space at either end is its own trimmed text.
pub proof fn lemma_trimmed_of_clean(s: Seq<char>)
    requires
        s.len() > 0 ==> !is_white_space(s[0]) && !is_white_space(s.last()),
    ensures
        trimmed(s) == s,
{
}

proof fn lemma_trimmed_start_clean(s: Seq<char>)
    ensures
        trimmed_start(s).len() > 0 ==> !is_white_space(trimmed_start(s)[0]),
    decreases s.len(),
{
    if s.len() > 0 && is_white_space(s[0]) {
        lemma_trimmed_start_clean(s.drop_first());
    }
}

proof fn lemma_trimmed_end_clean(s: Seq<char>)
    ensures
        trimmed_end(s).is_prefix_of(s),
        trimmed_end(s).len() > 0 ==> !is_white_space(trimmed_end(s).last()),
    decreases s.len(),
{
    if s.len() > 0 && is_white_space(s.last()) {
        lemma_trimmed_end_clean(s.drop_last());
    }
}

/// Trimming a second time changes nothing.
pub proof fn lemma_trimmed_idempotent(s: Seq<char>)
    ensures
        trimmed(trimmed(s)) == trimmed(s),
{
    lemma_trimmed_start_clean(s);
    lemma_trimmed_end_clean(trimmed_start(s));
    lemma_trimmed_of_clean(trimmed(s));
}

/// A text that can stand as one item between cuts.
pub open spec fn is_item(s: Seq<char>, cut: Cut) -> bool {
    &&& s.len() > 0
    &&& !is_white_space(s[0])
    &&& !is_white_space(s.last())
    &&& forall|i: int| 0 <= i < s.len() ==> !cut.at(#[trigger] s[i])
}

/// Every text of the list can stand as one item.
pub open spec fn are_items(list: Seq<Seq<char>>, cut: Cut) -> bool {
    forall|i: int| 0 <= i < list.len() ==> is_item(#[trigger] list[i], cut)
}

proof fn lemma_pieces_nonempty(s: Seq<char>, cut: Cut)
    ensures
        pieces(s, cut).len() > 0,
    decreases s.len(),
{
    if s.len() > 0 {
        lemma_pieces_nonempty(s.drop_last(), cut);
    }
}

proof fn lemma_pieces_extend(a: Seq<char>, b: Seq<char>, cut: Cut)
    requires
        forall|i: int| 0 <= i < b.len() ==> !cut.at(#[trigger] b[i]),
    ensures
        pieces(a + b, cut) == pieces(a, cut).drop_last().push(pieces(a, cut).last() + b),
    decreases b.len(),
{
    lemma_pieces_nonempty(a, cut);
    let p = pieces(a, cut);
    if b.len() == 0 {
        assert(a + b =~= a);
        assert(p.last() + b =~= p.last());
        assert(p =~= p.drop_last().push(p.last()));
    } else {
        let c = b.drop_last();
        lemma_pieces_extend(a, c, cut);
        assert((a + b).drop_last() =~= a + c);
        assert((a + b).last() == b[b.len() - 1]);
        let q = pieces(a + c, cut);
        assert(q.drop_last() =~= p.drop_last());
        assert((p.last() + c).push(b.last()) =~= p.last() + b);
    }
}

proof fn lemma_pieces_of_joined(list: Seq<Seq<char>>, sep: Seq<char>, cut: Cut)
    requires
        list.len() > 0,
        sep.len() == 1,
        cut.at(sep[0]),
        are_items(list, cut),
    ensures
        pieces(joined(list, sep), cut) == list,
    decreases list.len(),
{
    let last = list.last();
    assert(is_item(list[list.len() - 1], cut));
    if list.len() == 1 {
        let none = Seq::<char>::empty();
        lemma_pieces_extend(none, last, cut);
        assert(none + last =~= last);
        assert(pieces(none, cut) =~= seq![none]);
        assert(pieces(last, cut) =~= list);
    } else {
        let rest = list.drop_last();
        assert(are_items(rest, cut)) by {
            assert forall|i: int| 0 <= i < rest.len() implies is_item(#[trigger] rest[i], cut) by {
                assert(rest[i] == list[i]);
            }
        }
        lemma_pieces_of_joined(rest, sep, cut);
        let x = joined(rest, sep);
        assert((x + sep).drop_last() =~= x);
        assert((x + sep).last() == sep[0]);
        lemma_pieces_extend(x + sep, last, cut);
        assert(pieces(x + sep, cut) =~= rest.push(Seq::empty()));
        assert(Seq::<char>::empty() + last =~= last);
        assert(pieces(x + sep + last, cut) =~= rest.push(last));
        assert(list =~= rest.push(last));
    }
}

proof fn lemma_filled_of_items(list: Seq<Seq<char>>, cut: Cut)
    requires
        are_items(list, cut),
    ensures
        filled(list) == list,
    decreases list.len(),
{
    if list.len() > 0 {
        let rest = list.drop_last();
        assert forall|i: int| 0 <= i < rest.len() implies is_item(#[trigger] rest[i], cut) by {
            assert(rest[i] == list[i]);
        }
        lemma_filled_of_items(rest, cut);
        assert(is_item(list[list.len() - 1], cut));
        lemma_trimmed_of_clean(list.last());
        assert(list =~= rest.push(list.last()));
    }
}

/// What was joined with a separator comes apart again into the same items.
pub proof fn law_split_undoes_join(list: Seq<Seq<char>>, sep: Seq<char>, cut: Cut)
    requires
        sep.len() == 1,
        cut.at(sep[0]),
        are_items(list, cut),
    ensures
        items(joined(list, sep), cut) == list,
{
    if list.len() == 0 {
        reveal_with_fuel(filled, 2);
        assert(pieces(joined(list, sep), cut) =~= seq![Seq::<char>::empty()]);
        lemma_trimmed_of_clean(Seq::<char>::empty());
        assert(items(joined(list, sep), cut) =~= list);
    } else {
        lemma_pieces_of_joined(list, sep, cut);
        lemma_filled_of_items(list, cut);
    }
}

/// White space is what Unicode calls white space: the controls that move on, the spaces
/// of every width, and the separators of lines and paragraphs.
pub proof fn law_white_space(c: char, r: bool)
    requires
        call_ensures(white_space, (c,), r),
    ensures
        '!' <= c <= '~' ==> !r,
        c <= '~' ==> (r <==> c == ' ' || '\t' <= c <= '\r'),
        r <==> ({
            ||| c == ' ' || c == '\u{a0}' || c == '\u{1680}' || c == '\u{202f}'
            ||| '\t' <= c <= '\r' || c == '\u{85}'
            ||| '\u{2000}' <= c <= '\u{200a}' || c == '\u{205f}' || c == '\u{3000}'
            ||| c == '\u{2028}' || c == '\u{2029}'
        }),
{
}

proof fn lemma_trimmed_start_at(s: Seq<char>) -> (i: int)
    ensures
        0 <= i <= s.len(),
        trimmed_start(s) == s.skip(i),
        forall|k: int| 0 <= k < i ==> is_white_space(#[trigger] s[k]),
    decreases s.len(),
{
    if s.len() > 0 && is_white_space(s[0]) {
        let rest = s.drop_first();
        let j = lemma_trimmed_start_at(rest);
        assert(rest.skip(j) =~= s.skip(j + 1));
        assert forall|k: int| 0 <= k < j + 1 implies is_white_space(#[trigger] s[k]) by {
            if k > 0 {
                assert(rest[k - 1] == s[k]);
            }
        }
        j + 1
    } else {
        assert(s.skip(0) =~= s);
        0
    }
}

proof fn lemma_trimmed_end_at(s: Seq<char>) -> (j: int)
    ensures
        0 <= j <= s.len(),
        trimmed_end(s) == s.take(j),
        forall|k: int| j <= k < s.len() ==> is_white_space(#[trigger] s[k]),
    decreases s.len(),
{
    if s.len() > 0 && is_white_space(s.last()) {
        let rest = s.drop_last();
        let j = lemma_trimmed_end_at(rest);
        assert(rest.take(j) =~= s.take(j));
        assert forall|k: int| j <= k < s.len() implies is_white_space(#[trigger] s[k]) by {
            if k < s.len() - 1 {
                assert(rest[k] == s[k]);
            }
        }
        j
    } else {
        assert(s.take(s.len() as int) =~= s);
        s.len() as int
    }
}

/// Where the trimmed text begins and ends in the text that it was taken from.
pub open spec fn stands_between(s: Seq<char>, r: Seq<char>, i: int, j: int) -> bool {
    &&& 0 <= i <= j <= s.len()
    &&& r == s.subrange(i, j)
    &&& forall|k: int| 0 <= k < i ==> is_white_space(#[trigger] s[k])
    &&& forall|k: int| j <= k < s.len() ==> is_white_space(#[trigger] s[k])
}

/// What trimming leaves stands in the text, with white space alone before and behind it.
pub proof fn lemma_trimmed_stands(s: Seq<char>)
    ensures
        exists|i: int, j: int| stands_between(s, trimmed(s), i, j),
        trimmed(s).len() > 0 ==> !is_white_space(trimmed(s)[0]) && !is_white_space(
            trimmed(s).last(),
        ),
{
    let i = lemma_trimmed_start_at(s);
    let rest = trimmed_start(s);
    let j = lemma_trimmed_end_at(rest);
    lemma_trimmed_start_clean(s);
    lemma_trimmed_end_clean(rest);
    assert(trimmed(s) =~= s.subrange(i, i + j));
    if trimmed(s).len() > 0 {
        assert(trimmed(s)[0] == rest[0]);
    }
    assert forall|k: int| i + j <= k < s.len() implies is_white_space(#[trigger] s[k]) by {
        assert(rest[k - i] == s[k]);
    }
    assert(stands_between(s, trimmed(s), i, i + j));
}

/// Trimming takes white space off both ends, all of it, and nothing else.
pub proof fn law_trimming_takes_white_space_off_the_ends(s: &str, r: &str)
    requires
        call_ensures(trim, (s,), r),
    ensures
        exists|i: int, j: int| stands_between(s@, r@, i, j),
        r@.len() > 0 ==> !is_white_space(r@[0]) && !is_white_space(r@.last()),
        r@.len() == 0 <==> forall|k: int| 0 <= k < s@.len() ==> is_white_space(#[trigger] s@[k]),
{
    lemma_trimmed_stands(s@);
    let (i, j) = choose|i: int, j: int| stands_between(s@, r@, i, j);
    if r@.len() > 0 {
        assert(s@[i] == r@[0]);
    }
}

/// The figures of a number, read from the left.
pub open spec fn number_read(s: Seq<char>) -> int
    decreases s.len(),
{
    if s.len() == 0 {
        0
    } else {
        10 * number_read(s.drop_last()) + (s.last() as int - '0' as int)
    }
}

proof fn lemma_decimal_reads_back(n: nat)
    ensures
        number_read(decimal(n)) == n,
        decimal(n).len() > 0,
        forall|i: int| 0 <= i < decimal(n).len() ==> '0' <= #[trigger] decimal(n)[i] <= '9',
        decimal(n)[0] == '0' ==> n == 0,
        n == 0 ==> decimal(n).len() == 1,
    decreases n,
{
    let s = decimal(n);
    if n < 10 {
        assert(s.drop_last() =~= Seq::<char>::empty());
        assert(number_read(s.drop_last()) == 0);
        assert(s.last() as int == '0' as int + n);
    } else {
        lemma_decimal_reads_back(n / 10);
        assert(s.drop_last() =~= decimal(n / 10));
        assert(s.last() as int == '0' as int + n % 10);
    }
}

/// A number is written in figures that read back as the number, without zeros in front.
pub proof fn law_a_number_reads_back(n: u64, r: String)
    requires
        call_ensures(decimal_text, (n,), r),
    ensures
        number_read(r@) == n,
        r@.len() > 0,
        forall|i: int| 0 <= i < r@.len() ==> '0' <= #[trigger] r@[i] <= '9',
        r@.len() > 1 ==> r@[0] != '0',
{
    lemma_decimal_reads_back(n as nat);
}

/// Texts are compared character by character: the first that differs decides, and of two
/// texts that differ in length alone the shorter comes first.
pub proof fn law_the_first_difference_decides(a: &str, b: &str, k: int, r: bool)
    requires
        call_ensures(comes_before, (a, b), r),
        0 <= k <= a@.len() && k <= b@.len(),
        a@.take(k) == b@.take(k),
        k == a@.len() || k == b@.len() || a@[k] != b@[k],
    ensures
        r <==> k < b@.len() && (k == a@.len() || a@[k] < b@[k]),
{
    lemma_first_difference(a@, b@, k);
}

proof fn lemma_first_difference(a: Seq<char>, b: Seq<char>, k: int)
    requires
        0 <= k <= a.len() && k <= b.len(),
        a.take(k) == b.take(k),
        k == a.len() || k == b.len() || a[k] != b[k],
    ensures
        text_before(a, b) <==> k < b.len() && (k == a.len() || a[k] < b[k]),
    decreases k,
{
    if k > 0 {
        assert forall|i: int| 0 <= i < k implies a[i] == b[i] by {
            assert(a.take(k)[i] == a[i] && b.take(k)[i] == b[i]);
        }
        assert(a[0] == b[0]);
        let x = a.drop_first();
        let y = b.drop_first();
        assert(x.take(k - 1) =~= y.take(k - 1));
        lemma_first_difference(x, y, k - 1);
    }
}

/// Of two texts exactly one comes first, unless they are the same.
pub proof fn law_texts_are_the_same_or_one_comes_first(
    a: &str,
    b: &str,
    same: bool,
    first: bool,
    second: bool,
)
    requires
        call_ensures(same_text, (a, b), same),
        call_ensures(comes_before, (a, b), first),
        call_ensures(comes_before, (b, a), second),
    ensures
        same <==> a@ == b@,
        same <==> !first && !second,
        !(first && second),
{
    lemma_text_before_total(a@, b@);
    lemma_text_before_irreflexive(a@);
}

/// Parts are joined in their order with the separator between every two: one more part
/// comes behind the rest and a separator.
pub proof fn law_parts_are_joined_in_order(
    parts: Vec<String>,
    more: Vec<String>,
    sep: &str,
    r: String,
    longer: String,
)
    requires
        call_ensures(join, (&parts, sep), r),
        call_ensures(join, (&more, sep), longer),
        more@ == parts@.push(more@.last()),
    ensures
        parts@.len() == 0 ==> r@.len() == 0 && longer@ == more@.last()@,
        parts@.len() > 0 ==> longer@ == r@ + sep@ + more@.last()@,
{
    let all = texts(more@);
    assert(all.len() == more@.len());
    assert(all.drop_last() =~= texts(parts@));
    assert(all.last() == more@.last()@);
}

/// Parts that were joined are what splitting gives back.
pub proof fn law_splitting_undoes_joining(
    parts: Vec<String>,
    sep: &str,
    cut: Cut,
    text: String,
    line: &str,
    r: Vec<String>,
)
    requires
        call_ensures(join, (&parts, sep), text),
        line@ == text@,
        call_ensures(split_items, (line, cut), r),
        sep@.len() == 1,
        cut.at(sep@[0]),
        are_items(texts(parts@), cut),
    ensures
        texts(r@) == texts(parts@),
{
    law_split_undoes_join(texts(parts@), sep@, cut);
}

/// The characters of a text that are neither white space nor places to cut at.
pub open spec fn solid(s: Seq<char>, cut: Cut) -> Seq<char> {
    s.filter(|c: char| !cut.at(c) && !is_white_space(c))
}

/// The same of each part in turn.
pub open spec fn solid_of_all(parts: Seq<Seq<char>>, cut: Cut) -> Seq<char>
    decreases parts.len(),
{
    if parts.len() == 0 {
        Seq::empty()
    } else {
        solid_of_all(parts.drop_last(), cut) + solid(parts.last(), cut)
    }
}

proof fn lemma_solid_push(s: Seq<char>, c: char, cut: Cut)
    ensures
        solid(s.push(c), cut) == (if !cut.at(c) && !is_white_space(c) {
            solid(s, cut).push(c)
        } else {
            solid(s, cut)
        }),
{
    reveal(Seq::filter);
    assert(s.push(c).drop_last() =~= s);
}

proof fn lemma_solid_white(s: Seq<char>, cut: Cut)
    requires
        forall|k: int| 0 <= k < s.len() ==> is_white_space(#[trigger] s[k]),
    ensures
        solid(s, cut) == Seq::<char>::empty(),
    decreases s.len(),
{
    reveal(Seq::filter);
    if s.len() > 0 {
        assert forall|k: int| 0 <= k < s.drop_last().len() implies is_white_space(
            #[trigger] s.drop_last()[k],
        ) by {
            assert(s[k] == s.drop_last()[k]);
        }
        lemma_solid_white(s.drop_last(), cut);
        assert(is_white_space(s[s.len() - 1]));
    }
}

proof fn lemma_solid_trimmed(s: Seq<char>, cut: Cut)
    ensures
        solid(trimmed(s), cut) == solid(s, cut),
{
    lemma_trimmed_stands(s);
    let (i, j) = choose|i: int, j: int| stands_between(s, trimmed(s), i, j);
    let p = |c: char| !cut.at(c) && !is_white_space(c);
    assert(s =~= s.take(i) + (trimmed(s) + s.skip(j)));
    Seq::filter_distributes_over_add(s.take(i), trimmed(s) + s.skip(j), p);
    Seq::filter_distributes_over_add(trimmed(s), s.skip(j), p);
    lemma_solid_white(s.take(i), cut);
    lemma_solid_white(s.skip(j), cut);
    assert(solid(s, cut) =~= solid(trimmed(s), cut));
}

proof fn lemma_solid_pieces(s: Seq<char>, cut: Cut)
    ensures
        solid_of_all(pieces(s, cut), cut) == solid(s, cut),
    decreases s.len(),
{
    let none = Seq::<char>::empty();
    assert(solid(none, cut) =~= none) by {
        reveal(Seq::filter);
    }
    if s.len() == 0 {
        assert(s =~= none);
        let parts = pieces(s, cut);
        assert(parts =~= seq![none]);
        assert(parts.drop_last() =~= Seq::<Seq<char>>::empty());
        assert(solid_of_all(parts.drop_last(), cut) =~= none);
        assert(solid_of_all(parts, cut) =~= none + none);
    } else {
        let rest = s.drop_last();
        let c = s.last();
        let before = pieces(rest, cut);
        lemma_solid_pieces(rest, cut);
        lemma_pieces_nonempty(rest, cut);
        assert(s =~= rest.push(c));
        lemma_solid_push(rest, c, cut);
        if cut.at(c) {
            assert(before.push(none).drop_last() =~= before);
            assert(solid_of_all(before.push(none), cut) =~= solid_of_all(before, cut));
        } else {
            let now = before.drop_last().push(before.last().push(c));
            assert(now.drop_last() =~= before.drop_last());
            lemma_solid_push(before.last(), c, cut);
            assert(solid_of_all(now, cut) =~= solid(s, cut));
        }
    }
}

proof fn lemma_solid_filled(parts: Seq<Seq<char>>, cut: Cut)
    ensures
        solid_of_all(filled(parts), cut) == solid_of_all(parts, cut),
    decreases parts.len(),
{
    if parts.len() > 0 {
        let rest = parts.drop_last();
        let last = parts.last();
        lemma_solid_filled(rest, cut);
        lemma_solid_trimmed(last, cut);
        if trimmed(last).len() == 0 {
            assert(trimmed(last) =~= Seq::<char>::empty());
            assert(solid(trimmed(last), cut) =~= Seq::<char>::empty()) by {
                reveal(Seq::filter);
            }
            assert(solid_of_all(filled(parts), cut) =~= solid_of_all(parts, cut));
        } else {
            assert(filled(parts).drop_last() =~= filled(rest));
        }
    }
}

proof fn lemma_pieces_are_uncut(s: Seq<char>, cut: Cut)
    ensures
        forall|i: int, k: int| #![trigger pieces(s, cut)[i][k]]
            0 <= i < pieces(s, cut).len() && 0 <= k < pieces(s, cut)[i].len() ==> !cut.at(
                pieces(s, cut)[i][k],
            ),
    decreases s.len(),
{
    if s.len() > 0 {
        let before = pieces(s.drop_last(), cut);
        let now = pieces(s, cut);
        lemma_pieces_are_uncut(s.drop_last(), cut);
        lemma_pieces_nonempty(s.drop_last(), cut);
        assert forall|i: int, k: int| #![trigger now[i][k]]
            0 <= i < now.len() && 0 <= k < now[i].len() implies !cut.at(now[i][k]) by {
            if i < now.len() - 1 {
                assert(now[i] == before[i]);
                assert(!cut.at(before[i][k]));
            } else if !cut.at(s.last()) {
                let last = before[before.len() - 1];
                assert(now[i] == last.push(s.last()));
                if k < last.len() {
                    assert(!cut.at(before[before.len() - 1][k]));
                }
            }
        }
    }
}

proof fn lemma_filled_are_items(parts: Seq<Seq<char>>, cut: Cut)
    requires
        forall|i: int, k: int| #![trigger parts[i][k]]
            0 <= i < parts.len() && 0 <= k < parts[i].len() ==> !cut.at(parts[i][k]),
    ensures
        are_items(filled(parts), cut),
    decreases parts.len(),
{
    if parts.len() > 0 {
        let rest = parts.drop_last();
        let last = parts.last();
        assert forall|i: int, k: int| #![trigger rest[i][k]]
            0 <= i < rest.len() && 0 <= k < rest[i].len() implies !cut.at(rest[i][k]) by {
            assert(!cut.at(parts[i][k]));
        }
        lemma_filled_are_items(rest, cut);
        lemma_trimmed_stands(last);
        let t = trimmed(last);
        let (i, j) = choose|i: int, j: int| stands_between(last, t, i, j);
        assert forall|k: int| 0 <= k < t.len() implies !cut.at(#[trigger] t[k]) by {
            assert(t[k] == last[i + k]);
            assert(!cut.at(parts[parts.len() - 1][i + k]));
        }
        assert forall|k: int| 0 <= k < filled(parts).len() implies is_item(
            #[trigger] filled(parts)[k],
            cut,
        ) by {
            if k < filled(rest).len() {
                assert(filled(parts)[k] == filled(rest)[k]);
            }
        }
    }
}

/// Splitting gives items: none is empty, none begins or ends with white space, and none
/// holds a place to cut at. Nothing else of the text is lost, and its order stays.
pub proof fn law_splitting_loses_no_character(s: &str, cut: Cut, r: Vec<String>)
    requires
        call_ensures(split_items, (s, cut), r),
    ensures
        solid_of_all(texts(r@), cut) == solid(s@, cut),
        forall|i: int|
            0 <= i < r@.len() ==> {
                let item = (#[trigger] r@[i])@;
                &&& item.len() > 0
                &&& !is_white_space(item[0]) && !is_white_space(item.last())
                &&& cut is Lines ==> !item.contains('\n')
                &&& cut is Words ==> forall|k: int|
                    0 <= k < item.len() ==> !is_white_space(#[trigger] item[k])
                &&& cut is List ==> !item.contains(',') && forall|k: int|
                    0 <= k < item.len() ==> !is_white_space(#[trigger] item[k])
            },
{
    lemma_solid_pieces(s@, cut);
    lemma_solid_filled(pieces(s@, cut), cut);
    lemma_pieces_are_uncut(s@, cut);
    lemma_filled_are_items(pieces(s@, cut), cut);
    assert forall|i: int| 0 <= i < r@.len() implies is_item((#[trigger] r@[i])@, cut) by {
        assert(texts(r@)[i] == r@[i]@);
    }
}

/// A text that holds no place to cut at is one item, trimmed, or none where it is blank.
pub proof fn law_an_uncut_text_is_one_item(s: &str, cut: Cut, r: Vec<String>)
    requires
        call_ensures(split_items, (s, cut), r),
        cut is Lines ==> !s@.contains('\n'),
        cut is Words ==> forall|k: int| 0 <= k < s@.len() ==> !is_white_space(#[trigger] s@[k]),
        cut is List ==> !s@.contains(',') && forall|k: int|
            0 <= k < s@.len() ==> !is_white_space(#[trigger] s@[k]),
    ensures
        trimmed(s@).len() == 0 ==> r@.len() == 0,
        trimmed(s@).len() > 0 ==> r@.len() == 1 && r@[0]@ == trimmed(s@),
{
    let none = Seq::<char>::empty();
    assert forall|k: int| 0 <= k < s@.len() implies !cut.at(#[trigger] s@[k]) by {
        if s@[k] == '\n' {
            assert(s@.contains('\n'));
        }
        if s@[k] == ',' {
            assert(s@.contains(','));
        }
    }
    lemma_pieces_extend(none, s@, cut);
    assert(none + s@ =~= s@);
    assert(pieces(none, cut) == seq![none]);
    let parts = pieces(s@, cut);
    assert(parts =~= seq![s@]);
    assert(parts.drop_last() =~= Seq::<Seq<char>>::empty());
    assert(filled(parts.drop_last()) =~= Seq::<Seq<char>>::empty());
    assert(texts(r@).len() == r@.len());
    if r@.len() > 0 {
        assert(texts(r@)[0] == r@[0]@);
    }
}

/// A slug is made of letters and figures of the Latin alphabet, hyphens and underscores.
pub proof fn law_slugs_are_plain(s: &str, r: bool)
    requires
        call_ensures(all_slug_chars, (s,), r),
    ensures
        r <==> forall|i: int|
            0 <= i < s@.len() ==> {
                let c = #[trigger] s@[i];
                ||| 'a' <= c <= 'z'
                ||| 'A' <= c <= 'Z'
                ||| '0' <= c <= '9'
                ||| c == '-' || c == '_'
            },
{
    if r {
        assert forall|i: int| 0 <= i < s@.len() implies is_slug_char(#[trigger] s@[i]) by {}
    } else {
        let i = choose|i: int| 0 <= i < s@.len() && !is_slug_char(#[trigger] s@[i]);
        assert(!is_slug_char(s@[i]));
    }
}

/// A blank entry is none, any other is taken trimmed, and nothing is shown as an empty
/// entry, so what was taken shows as it was.
pub proof fn law_a_blank_entry_is_none(
    s: &str,
    trimmed_text: &str,
    taken: Option<String>,
    shown: String,
)
    requires
        call_ensures(opt, (s,), taken),
        call_ensures(trim, (s,), trimmed_text),
        call_ensures(or_empty, (&taken,), shown),
    ensures
        taken is None <==> forall|k: int| 0 <= k < s@.len() ==> is_white_space(#[trigger] s@[k]),
        taken is Some ==> taken->0@ == trimmed_text@,
        shown@ == trimmed_text@,
{
    law_trimming_takes_white_space_off_the_ends(s, trimmed_text);
    if taken is None {
        assert(shown@ =~= trimmed_text@);
    }
}

/// A name is found exactly where it stands, and copies are copies.
pub proof fn law_a_name_is_found_where_it_stands(
    name: &str,
    names: Vec<String>,
    r: bool,
    copies: Vec<String>,
    chars: Vec<char>,
)
    requires
        call_ensures(is_among, (name, &names), r),
        call_ensures(copy_texts, (&names,), copies),
        call_ensures(chars_of, (name,), chars),
    ensures
        r <==> exists|i: int| 0 <= i < names@.len() && (#[trigger] names@[i])@ == name@,
        copies@ == names@,
        chars@ == name@,
{
    let all = texts(names@);
    assert(all.len() == names@.len());
    if r {
        let i = choose|i: int| 0 <= i < all.len() && all[i] == name@;
        assert(names@[i]@ == name@);
    }
    if exists|i: int| 0 <= i < names@.len() && (#[trigger] names@[i])@ == name@ {
        let i = choose|i: int| 0 <= i < names@.len() && (#[trigger] names@[i])@ == name@;
        assert(all[i] == name@);
    }
}

/// Trimming is told by what it leaves: whatever stands in a text with white space alone
/// around it, and begins and ends with something else, is the trimmed text.
pub proof fn lemma_trimmed_unique(s: Seq<char>, r: Seq<char>, i: int, j: int)
    requires
        stands_between(s, r, i, j),
        r.len() > 0 ==> !is_white_space(r[0]) && !is_white_space(r.last()),
    ensures
        trimmed(s) == r,
{
    let t = trimmed(s);
    lemma_trimmed_stands(s);
    let (a, b) = choose|a: int, b: int| stands_between(s, t, a, b);
    if r.len() == 0 {
        if t.len() > 0 {
            assert(t[0] == s[a]);
            assert(is_white_space(s[a]));
        }
        assert(t =~= r);
    } else {
        assert(r[0] == s[i] && r.last() == s[j - 1]);
        assert(a <= i < b);
        assert(t[0] == s[a] && t.last() == s[b - 1]);
        assert(a == i && b == j);
    }
}

/// White space in front does not count.
pub proof fn lemma_trimmed_skips(s: Seq<char>, n: int)
    requires
        0 <= n <= s.len(),
        forall|k: int| 0 <= k < n ==> is_white_space(#[trigger] s[k]),
    ensures
        trimmed(s.skip(n)) == trimmed(s),
{
    let rest = s.skip(n);
    lemma_trimmed_stands(rest);
    let (i, j) = choose|i: int, j: int| stands_between(rest, trimmed(rest), i, j);
    assert forall|k: int| 0 <= k < n + i implies is_white_space(#[trigger] s[k]) by {
        if k >= n {
            assert(rest[k - n] == s[k]);
        }
    }
    assert forall|k: int| n + j <= k < s.len() implies is_white_space(#[trigger] s[k]) by {
        assert(rest[k - n] == s[k]);
    }
    assert(s.subrange(n + i, n + j) =~= rest.subrange(i, j));
    lemma_trimmed_unique(s, trimmed(rest), n + i, n + j);
}

/// White space behind does not count.
pub proof fn lemma_trimmed_takes(s: Seq<char>, n: int)
    requires
        0 <= n <= s.len(),
        forall|k: int| n <= k < s.len() ==> is_white_space(#[trigger] s[k]),
    ensures
        trimmed(s.take(n)) == trimmed(s),
{
    let front = s.take(n);
    lemma_trimmed_stands(front);
    let (i, j) = choose|i: int, j: int| stands_between(front, trimmed(front), i, j);
    assert forall|k: int| 0 <= k < i implies is_white_space(#[trigger] s[k]) by {
        assert(front[k] == s[k]);
    }
    assert forall|k: int| j <= k < s.len() implies is_white_space(#[trigger] s[k]) by {
        if k < n {
            assert(front[k] == s[k]);
        }
    }
    assert(s.subrange(i, j) =~= front.subrange(i, j));
    lemma_trimmed_unique(s, trimmed(front), i, j);
}

/// One more piece behind a place to cut at is one more item, unless it is blank.
pub proof fn lemma_items_push(s: Seq<char>, c: char, piece: Seq<char>, cut: Cut)
    requires
        cut.at(c),
        forall|k: int| 0 <= k < piece.len() ==> !cut.at(#[trigger] piece[k]),
    ensures
        items(s.push(c) + piece, cut) == (if trimmed(piece).len() == 0 {
            items(s, cut)
        } else {
            items(s, cut).push(trimmed(piece))
        }),
{
    let none = Seq::<char>::empty();
    let before = pieces(s, cut);
    assert(s.push(c).drop_last() =~= s);
    assert(pieces(s.push(c), cut) == before.push(none));
    lemma_pieces_extend(s.push(c), piece, cut);
    assert(none + piece =~= piece);
    assert(before.push(none).drop_last() =~= before);
    let now = pieces(s.push(c) + piece, cut);
    assert(now == before.push(piece));
    assert(now.drop_last() =~= before);
}

/// What stands behind one more line break, blank or comma is one more item behind those
/// that were there.
pub proof fn law_one_more_item_comes_last(
    text: &str,
    longer: &str,
    cut: Cut,
    c: char,
    piece: Seq<char>,
    r: Vec<String>,
    more: Vec<String>,
)
    requires
        call_ensures(split_items, (text, cut), r),
        call_ensures(split_items, (longer, cut), more),
        longer@ == text@.push(c) + piece,
        cut is Lines ==> c == '\n',
        cut is Words ==> is_white_space(c),
        cut is List ==> c == ',' || is_white_space(c),
        forall|k: int| 0 <= k < piece.len() ==> !cut.at(#[trigger] piece[k]),
    ensures
        trimmed(piece).len() == 0 ==> texts(more@) == texts(r@),
        trimmed(piece).len() > 0 ==> texts(more@) == texts(r@).push(trimmed(piece)),
{
    lemma_items_push(text@, c, piece, cut);
}

} // verus!
