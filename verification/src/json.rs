//! JSON text, as the daemon reads it: compact, with strings quoted and escaped.

use crate::text::texts;
use vstd::prelude::*;

verus! {

/// Any error of the JSON encoder.
#[verifier::external_type_specification]
#[verifier::external_body]
pub struct ExJsonError(serde_json::Error);

/// The lower-case hexadecimal digit for `d`, a number under sixteen.
pub open spec fn hex_digit(d: nat) -> char {
    if d < 10 {
        ('0' as u32 + d) as char
    } else {
        ('a' as u32 + d - 10) as char
    }
}

/// A character as it stands inside a JSON string.
pub open spec fn escaped_char(c: char) -> Seq<char> {
    let n = c as u32;
    if c == '"' || c == '\\' {
        seq!['\\', c]
    } else if n == 0x08 {
        seq!['\\', 'b']
    } else if n == 0x09 {
        seq!['\\', 't']
    } else if n == 0x0a {
        seq!['\\', 'n']
    } else if n == 0x0c {
        seq!['\\', 'f']
    } else if n == 0x0d {
        seq!['\\', 'r']
    } else if n < 0x20 {
        seq!['\\', 'u', '0', '0', hex_digit(n as nat / 16), hex_digit(n as nat % 16)]
    } else {
        seq![c]
    }
}

/// A text as it stands inside a JSON string.
pub open spec fn escaped(s: Seq<char>) -> Seq<char>
    decreases s.len(),
{
    if s.len() == 0 {
        Seq::empty()
    } else {
        escaped(s.drop_last()) + escaped_char(s.last())
    }
}

/// A text as a JSON string.
pub open spec fn quoted(s: Seq<char>) -> Seq<char> {
    seq!['"'] + escaped(s) + seq!['"']
}

/// Texts as the members of a JSON array, without its brackets.
pub open spec fn quoted_list(items: Seq<Seq<char>>) -> Seq<char>
    decreases items.len(),
{
    if items.len() == 0 {
        Seq::empty()
    } else if items.len() == 1 {
        quoted(items[0])
    } else {
        quoted_list(items.drop_last()) + ","@ + quoted(items.last())
    }
}

/// Pairs of texts as the members of a JSON object, without its braces.
pub open spec fn quoted_pairs(pairs: Seq<(Seq<char>, Seq<char>)>) -> Seq<char>
    decreases pairs.len(),
{
    if pairs.len() == 0 {
        Seq::empty()
    } else {
        quoted_pairs(pairs.drop_last()) + (if pairs.len() > 1 {
            ","@
        } else {
            Seq::empty()
        }) + quoted(pairs.last().0) + ":"@ + quoted(pairs.last().1)
    }
}

/// `serde_json::to_string` of a string. It writes the string between quotation
/// marks, escapes the quotation mark, the backslash and the characters under
/// U+0020 as `escaped_char` lists them, and leaves every other character as it
/// is. It reports an error only where a type's own serialisation fails or a map
/// has a key that is no string, so of a string it reports none.
#[verifier::external_body]
fn encode_string(text: &str) -> (r: Result<String, serde_json::Error>)
    ensures
        r is Ok,
        r->Ok_0@ == quoted(text@),
{
    serde_json::to_string(text)
}

/// `text` as a JSON string.
pub fn quote(text: &str) -> (r: String)
    ensures
        r@ == quoted(text@),
{
    encode_string(text).unwrap()
}

/// `items` as the members of a JSON array, without its brackets.
pub fn quote_list(items: &Vec<String>) -> (r: String)
    ensures
        r@ == quoted_list(texts(items@)),
{
    let mut out = String::new();
    let mut i: usize = 0;
    while i < items.len()
        invariant
            i <= items.len(),
            out@ == quoted_list(texts(items@.take(i as int))),
        decreases items.len() - i,
    {
        proof {
            let now = texts(items@.take(i as int + 1));
            assert(now.drop_last() =~= texts(items@.take(i as int)));
            assert(now.last() == items@[i as int]@);
        }
        if i > 0 {
            out.append(",");
        }
        out.append(quote(items[i].as_str()).as_str());
        assert(out@ =~= quoted_list(texts(items@.take(i as int + 1))));
        i = i + 1;
    }
    assert(items@.take(items@.len() as int) =~= items@);
    out
}

proof fn lemma_escaped_char(c: char)
    ensures
        forall|i: int| 0 <= i < escaped_char(c).len() ==> ' ' <= #[trigger] escaped_char(c)[i],
        c == '"' || c == '\\' ==> escaped_char(c) == seq!['\\', c],
        c == '\n' ==> escaped_char(c) == seq!['\\', 'n'],
        c == '\r' ==> escaped_char(c) == seq!['\\', 'r'],
        c == '\t' ==> escaped_char(c) == seq!['\\', 't'],
        c == '\u{8}' ==> escaped_char(c) == seq!['\\', 'b'],
        c == '\u{c}' ==> escaped_char(c) == seq!['\\', 'f'],
        ' ' <= c && c != '"' && c != '\\' ==> escaped_char(c) == seq![c],
        c < ' ' ==> escaped_char(c).len() > 0 && escaped_char(c)[0] == '\\',
{
    let n = c as u32;
    assert(n as int == c as int);
    if n < 0x20 {
        let high = n as nat / 16;
        let low = n as nat % 16;
        assert(hex_digit(high) as int >= '0' as int);
        assert(hex_digit(low) as int >= '0' as int);
    }
    assert forall|i: int| 0 <= i < escaped_char(c).len() implies ' ' <= #[trigger] escaped_char(
        c,
    )[i] by {}
}

proof fn lemma_escaped_shows(s: Seq<char>)
    ensures
        forall|i: int| 0 <= i < escaped(s).len() ==> ' ' <= #[trigger] escaped(s)[i],
        (forall|i: int|
            0 <= i < s.len() ==> ' ' <= #[trigger] s[i] && s[i] != '"' && s[i] != '\\')
            ==> escaped(s) == s,
    decreases s.len(),
{
    if s.len() > 0 {
        let rest = s.drop_last();
        let c = s.last();
        lemma_escaped_shows(rest);
        let tail = escaped_char(c);
        lemma_escaped_char(c);
        assert forall|i: int| 0 <= i < escaped(s).len() implies ' ' <= #[trigger] escaped(
            s,
        )[i] by {
            if i < escaped(rest).len() {
                assert(escaped(s)[i] == escaped(rest)[i]);
            } else {
                assert(escaped(s)[i] == tail[i - escaped(rest).len()]);
            }
        }
        if forall|i: int|
            0 <= i < s.len() ==> ' ' <= #[trigger] s[i] && s[i] != '"' && s[i] != '\\' {
            assert forall|i: int| 0 <= i < rest.len() implies ' ' <= #[trigger] rest[i] && rest[i]
                != '"' && rest[i] != '\\' by {
                assert(rest[i] == s[i]);
            }
            assert(s[s.len() - 1] == c);
            assert(escaped(s) =~= s);
        }
    }
}

/// A quoted text stands between quotation marks and holds no control character; a text
/// without marks, backslashes and controls stands there as it is.
pub proof fn law_plain_text_is_quoted_as_it_is(text: &str, r: String)
    requires
        call_ensures(quote, (text,), r),
    ensures
        r@.len() >= 2 && r@[0] == '"' && r@.last() == '"',
        forall|i: int| 0 <= i < r@.len() ==> ' ' <= #[trigger] r@[i],
        (forall|i: int|
            0 <= i < text@.len() ==> ' ' <= #[trigger] text@[i] && text@[i] != '"' && text@[i]
                != '\\') ==> r@ == seq!['"'] + text@ + seq!['"'],
{
    lemma_escaped_shows(text@);
    assert forall|i: int| 0 <= i < r@.len() implies ' ' <= #[trigger] r@[i] by {
        if 0 < i < r@.len() - 1 {
            assert(r@[i] == escaped(text@)[i - 1]);
        }
    }
}

/// One more character adds its own escape before the closing mark: marks and backslashes
/// a backslash in front, line breaks and the like their letter, other controls their
/// number, and any other character itself.
pub proof fn law_each_character_is_escaped_by_itself(
    text: &str,
    longer: &str,
    r: String,
    more: String,
)
    requires
        call_ensures(quote, (text,), r),
        call_ensures(quote, (longer,), more),
        longer@ == text@.push(longer@.last()),
    ensures
        ({
            let c = longer@.last();
            let added = more@.subrange(r@.len() - 1, more@.len() - 1);
            &&& more@ == r@.drop_last() + added + seq!['"']
            &&& c == '"' || c == '\\' ==> added == seq!['\\', c]
            &&& c == '\n' ==> added == seq!['\\', 'n']
            &&& c == '\r' ==> added == seq!['\\', 'r']
            &&& c == '\t' ==> added == seq!['\\', 't']
            &&& c == '\u{8}' ==> added == seq!['\\', 'b']
            &&& c == '\u{c}' ==> added == seq!['\\', 'f']
            &&& ' ' <= c && c != '"' && c != '\\' ==> added == seq![c]
            &&& c < ' ' ==> added[0] == '\\'
        }),
{
    let c = longer@.last();
    assert(longer@.drop_last() =~= text@);
    let added = more@.subrange(r@.len() - 1, more@.len() - 1);
    lemma_escaped_char(c);
    assert(escaped(longer@) == escaped(text@) + escaped_char(c));
    assert(added =~= escaped_char(c));
    assert(more@ =~= r@.drop_last() + added + seq!['"']);
}

/// A list is its items quoted, in their order and with commas between them.
pub proof fn law_a_list_is_its_items_quoted(
    items: Vec<String>,
    more: Vec<String>,
    last: &str,
    r: String,
    longer: String,
    item: String,
)
    requires
        call_ensures(quote_list, (&items,), r),
        call_ensures(quote_list, (&more,), longer),
        call_ensures(quote, (last,), item),
        more@ == items@.push(more@.last()),
        last@ == more@.last()@,
    ensures
        items@.len() == 0 ==> r@.len() == 0 && longer@ == item@,
        items@.len() > 0 ==> longer@ == r@ + ","@ + item@,
{
    let all = texts(more@);
    assert(all.len() == more@.len());
    assert(all.drop_last() =~= texts(items@));
    assert(all.last() == last@);
    if items@.len() == 0 {
        assert(texts(items@).len() == 0);
        assert(all[0] == last@);
    }
}

} // verus!
