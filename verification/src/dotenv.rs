//! Settings in lines of the form `KEY=VALUE`.

use vstd::prelude::*;
use crate::text;

verus! {

/// A line that sets nothing: blank, or a comment.
pub open spec fn is_ignored(line: Seq<char>) -> bool {
    line.len() == 0 || line[0] == '#'
}

/// Key and value of a line, without the white space around them.
pub open spec fn assignment(line: Seq<char>) -> Option<(Seq<char>, Seq<char>)> {
    let s = text::trimmed(line);
    let i = text::first_index(s, '=');
    if is_ignored(s) || i >= s.len() {
        None
    } else {
        Some((text::trimmed(s.take(i)), text::trimmed(s.skip(i + 1))))
    }
}

pub struct Assignment {
    pub key: String,
    pub value: String,
}

pub fn parse_line(line: &str) -> (r: Option<Assignment>)
    ensures
        r is Some == assignment(line@) is Some,
        r is Some ==> assignment(line@) == Some((r->0.key@, r->0.value@)),
{
    let trimmed = text::trim(line);
    let chars: Vec<char> = text::chars_of(trimmed.as_str());
    if chars.len() == 0 || chars[0] == '#' {
        return None;
    }
    let n: usize = chars.len();
    let i: usize = text::find_first(chars.as_slice(), '=');
    if i >= n {
        return None;
    }
    let key = text::substring(chars.as_slice(), 0, i);
    let value = text::substring(chars.as_slice(), i + 1, n);
    assert(key@ =~= trimmed@.take(i as int));
    assert(value@ =~= trimmed@.skip(i + 1));
    Some(Assignment { key: text::trim(key.as_str()), value: text::trim(value.as_str()) })
}

pub open spec fn is_quote(c: char) -> bool {
    c == '"' || c == '\''
}

pub open spec fn without_leading_quotes(s: Seq<char>) -> Seq<char>
    decreases s.len(),
{
    if s.len() > 0 && is_quote(s[0]) {
        without_leading_quotes(s.skip(1))
    } else {
        s
    }
}

pub open spec fn without_trailing_quotes(s: Seq<char>) -> Seq<char>
    decreases s.len(),
{
    if s.len() > 0 && is_quote(s.last()) {
        without_trailing_quotes(s.drop_last())
    } else {
        s
    }
}

/// A value without the quotes around it.
pub open spec fn without_quotes(s: Seq<char>) -> Seq<char> {
    without_trailing_quotes(without_leading_quotes(s))
}

pub fn strip_quotes(s: &str) -> (r: String)
    ensures
        r@ == without_quotes(s@),
{
    let chars: Vec<char> = text::chars_of(s);
    let n: usize = chars.len();
    let mut from: usize = 0;
    assert(s@.skip(0) =~= s@);
    while from < n && (chars[from] == '"' || chars[from] == '\'')
        invariant
            chars@ == s@,
            n == chars@.len(),
            from <= n,
            without_leading_quotes(s@) == without_leading_quotes(s@.skip(from as int)),
        decreases n - from,
    {
        assert(s@.skip(from as int).skip(1) =~= s@.skip(from + 1));
        from += 1;
    }
    let ghost rest = s@.skip(from as int);
    assert(without_leading_quotes(s@) == rest);
    let mut to: usize = n;
    assert(s@.subrange(from as int, n as int) =~= rest);
    while to > from && (chars[to - 1] == '"' || chars[to - 1] == '\'')
        invariant
            chars@ == s@,
            n == chars@.len(),
            from <= to <= n,
            without_trailing_quotes(rest) == without_trailing_quotes(
                s@.subrange(from as int, to as int),
            ),
        decreases to,
    {
        assert(s@.subrange(from as int, to as int).drop_last() =~= s@.subrange(
            from as int,
            to - 1,
        ));
        to -= 1;
    }
    text::substring(chars.as_slice(), from, to)
}

/// The settings that a line may forward, and the name each is forwarded under.
pub open spec fn forwarded_name(key: Seq<char>) -> Option<Seq<char>> {
    if key == "SSID"@ {
        Some("WC_WIFI_SSID"@)
    } else if key == "PASSWORD"@ {
        Some("WC_WIFI_PASSWORD"@)
    } else {
        None
    }
}

/// What a line sets. Keys that are not to be forwarded set nothing.
pub fn forward(line: &str) -> (r: Option<Assignment>)
    ensures
        match assignment(line@) {
            Some((key, value)) => {
                &&& r is Some == forwarded_name(key) is Some
                &&& r is Some ==> Some(r->0.key@) == forwarded_name(key) && r->0.value@
                    == without_quotes(value)
            },
            None => r is None,
        },
{
    match parse_line(line) {
        Some(a) => {
            if text::same(a.key.as_str(), "SSID") {
                Some(
                    Assignment {
                        key: "WC_WIFI_SSID".to_owned(),
                        value: strip_quotes(a.value.as_str()),
                    },
                )
            } else if text::same(a.key.as_str(), "PASSWORD") {
                Some(
                    Assignment {
                        key: "WC_WIFI_PASSWORD".to_owned(),
                        value: strip_quotes(a.value.as_str()),
                    },
                )
            } else {
                None
            }
        },
        None => None,
    }
}

/// A line sets what stands behind its first equals sign to the key before it,
/// whatever white space stands around the line and around the sign.
pub proof fn lines_set_their_key(
    before: Seq<char>,
    key: Seq<char>,
    left: Seq<char>,
    right: Seq<char>,
    value: Seq<char>,
    after: Seq<char>,
)
    requires
        forall|i: int| 0 <= i < before.len() ==> text::is_white(#[trigger] before[i]),
        forall|i: int| 0 <= i < left.len() ==> text::is_white(#[trigger] left[i]),
        forall|i: int| 0 <= i < right.len() ==> text::is_white(#[trigger] right[i]),
        forall|i: int| 0 <= i < after.len() ==> text::is_white(#[trigger] after[i]),
        key.len() > 0,
        !text::is_white(key[0]),
        !text::is_white(key.last()),
        key[0] != '#',
        forall|i: int| 0 <= i < key.len() ==> #[trigger] key[i] != '=',
        value.len() > 0,
        !text::is_white(value[0]),
        !text::is_white(value.last()),
    ensures
        assignment(before + (key + left + seq!['='] + right + value) + after) == Some((key, value)),
{
    let core = key + left + seq!['='] + right + value;
    assert(core[0] == key[0]);
    assert(core.last() == value.last());
    text::only_the_edges_are_trimmed(before, core, after);
    let at = (key.len() + left.len()) as int;
    text::first_index_is_first(core, '=');
    let f = text::first_index(core, '=');
    assert(core[at] == '=');
    if f < at {
        if f < key.len() {
            assert(core[f] == key[f]);
        } else {
            assert(core[f] == left[f - key.len()]);
            assert(text::is_white('=')) by {
                assert(left[f - key.len()] == '=');
            }
        }
    }
    assert(f == at);
    assert(core.take(at) =~= Seq::<char>::empty() + key + left);
    text::only_the_edges_are_trimmed(Seq::empty(), key, left);
    assert(core.skip(at + 1) =~= right + value + Seq::<char>::empty());
    text::only_the_edges_are_trimmed(right, value, Seq::empty());
}

/// Comments and lines without an equals sign set nothing.
pub proof fn other_lines_set_nothing(s: Seq<char>)
    requires
        s.len() > 0,
        !text::is_white(s[0]),
        !text::is_white(s.last()),
    ensures
        s[0] == '#' ==> assignment(s) is None,
        (forall|i: int| 0 <= i < s.len() ==> #[trigger] s[i] != '=') ==> assignment(s) is None,
        assignment(Seq::empty()) is None,
{
    assert(s =~= Seq::<char>::empty() + s + Seq::<char>::empty());
    text::only_the_edges_are_trimmed(Seq::empty(), s, Seq::empty());
    text::first_index_is_first(s, '=');
}

/// Quotes of either kind around a value are taken off, however many there are,
/// and those within it stay.
pub proof fn only_outer_quotes_are_taken_off(
    before: Seq<char>,
    value: Seq<char>,
    after: Seq<char>,
)
    requires
        forall|i: int|
            0 <= i < before.len() ==> #[trigger] before[i] == '"' || before[i] == '\'',
        forall|i: int| 0 <= i < after.len() ==> #[trigger] after[i] == '"' || after[i] == '\'',
        value.len() > 0,
        value[0] != '"' && value[0] != '\'',
        value.last() != '"' && value.last() != '\'',
    ensures
        without_quotes(before + value + after) == value,
    decreases before.len() + after.len(),
{
    let whole = before + value + after;
    if before.len() > 0 {
        assert(whole[0] == before[0]);
        assert(whole.skip(1) =~= before.skip(1) + value + after);
        only_outer_quotes_are_taken_off(before.skip(1), value, after);
    } else {
        assert(whole =~= value + after);
        assert(whole[0] == value[0]);
        assert(without_leading_quotes(whole) == whole);
        if after.len() > 0 {
            assert(whole.last() == after[after.len() - 1]);
            let shorter = before + value + after.drop_last();
            assert(whole.drop_last() =~= shorter);
            only_outer_quotes_are_taken_off(before, value, after.drop_last());
            assert(shorter[0] == value[0]);
            assert(without_leading_quotes(shorter) == shorter);
        } else {
            assert(whole =~= value);
        }
    }
}

/// Two settings are forwarded, each under its own name.
pub proof fn two_settings_are_forwarded(key: Seq<char>)
    ensures
        forwarded_name(key) == Some("WC_WIFI_SSID"@) <==> key == "SSID"@,
        forwarded_name(key) == Some("WC_WIFI_PASSWORD"@) <==> key == "PASSWORD"@,
        forwarded_name(key) is Some <==> key == "SSID"@ || key == "PASSWORD"@,
{
    reveal_strlit("SSID");
    reveal_strlit("PASSWORD");
    reveal_strlit("WC_WIFI_SSID");
    reveal_strlit("WC_WIFI_PASSWORD");
    assert("SSID"@.len() == 4 && "PASSWORD"@.len() == 8);
    assert("WC_WIFI_SSID"@.len() == 12 && "WC_WIFI_PASSWORD"@.len() == 16);
}

} // verus!
