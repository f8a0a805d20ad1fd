//! JSON strings, as `serde_json` writes and reads them.

use vstd::prelude::*;

verus! {

/// A character that stands for itself in a JSON string.
pub open spec fn is_plain(c: char) -> bool {
    c as u32 >= 0x20 && c != '"' && c != '\\'
}

/// A character as it is written in a JSON string: quotes, backslashes and
/// control characters are escaped.
pub open spec fn escaped(c: char) -> Seq<char> {
    if is_plain(c) {
        seq![c]
    } else if c == '"' || c == '\\' {
        seq!['\\', c]
    } else if c as u32 == 0x08 {
        seq!['\\', 'b']
    } else if c as u32 == 0x09 {
        seq!['\\', 't']
    } else if c as u32 == 0x0A {
        seq!['\\', 'n']
    } else if c as u32 == 0x0C {
        seq!['\\', 'f']
    } else if c as u32 == 0x0D {
        seq!['\\', 'r']
    } else {
        "\\u00"@ + seq![
            "0123456789abcdef"@[c as u32 as int / 16],
            "0123456789abcdef"@[c as u32 as int % 16],
        ]
    }
}

/// A text as it is written between the quotes of a JSON string.
pub open spec fn escaped_text(text: Seq<char>) -> Seq<char>
    decreases text.len(),
{
    if text.len() == 0 {
        Seq::empty()
    } else {
        escaped_text(text.drop_last()) + escaped(text.last())
    }
}

/// A text as a JSON string.
pub open spec fn json_quoted(text: Seq<char>) -> Seq<char> {
    "\""@ + escaped_text(text) + "\""@
}

/// A text of plain characters is only put between quotes.
pub proof fn plain_text_stays(text: Seq<char>)
    requires
        forall|i: int| 0 <= i < text.len() ==> is_plain(#[trigger] text[i]),
    ensures
        json_quoted(text) == "\""@ + text + "\""@,
{
    plain_text_is_not_escaped(text);
}

proof fn plain_text_is_not_escaped(text: Seq<char>)
    requires
        forall|i: int| 0 <= i < text.len() ==> is_plain(#[trigger] text[i]),
    ensures
        escaped_text(text) == text,
    decreases text.len(),
{
    if text.len() > 0 {
        let before = text.drop_last();
        assert forall|i: int| 0 <= i < before.len() implies is_plain(#[trigger] before[i]) by {
            assert(before[i] == text[i]);
        }
        plain_text_is_not_escaped(before);
        assert(is_plain(text[text.len() - 1]));
        assert(escaped_text(text) =~= text);
    } else {
        assert(escaped_text(text) =~= text);
    }
}

/// What `serde_json::from_str::<String>` reads, if it accepts the input.
pub uninterp spec fn json_unquoted(json: Seq<char>) -> Option<Seq<char>>;

/// `serde_json::to_string` on a string slice: the text between quotes, with the
/// escapes of the table that `serde_json` goes by, which `serde_json::from_str`
/// turns back into the text. Writing to memory cannot fail.
#[verifier::external_body]
pub(crate) fn quote(text: &str) -> (json: String)
    ensures
        json@ == json_quoted(text@),
        json_unquoted(json@) == Some(text@),
{
    serde_json::to_string(text).expect("a string always serializes")
}

/// `serde_json::from_str::<String>`: the text that a JSON string stands for,
/// or nothing where the input is not exactly one JSON string.
#[verifier::external_body]
pub(crate) fn unquote(json: &str) -> (text: Option<String>)
    ensures
        text is Some == json_unquoted(json@) is Some,
        text is Some ==> text->0@ == json_unquoted(json@)->0,
{
    serde_json::from_str::<String>(json).ok()
}

/// One member of a JSON object: its name, and its value as JSON.
pub struct JsonField {
    pub name: String,
    pub value: String,
}

/// Members by name and value.
pub open spec fn field_views(fields: Seq<JsonField>) -> Seq<(Seq<char>, Seq<char>)> {
    Seq::new(fields.len(), |i: int| (fields[i].name@, fields[i].value@))
}

/// One member as text.
pub open spec fn member_text(name: Seq<char>, value: Seq<char>) -> Seq<char> {
    "\""@ + name + "\":"@ + value
}

/// Members with commas between them.
pub open spec fn members_text(fields: Seq<(Seq<char>, Seq<char>)>) -> Seq<char>
    decreases fields.len(),
{
    if fields.len() == 0 {
        Seq::empty()
    } else if fields.len() == 1 {
        member_text(fields[0].0, fields[0].1)
    } else {
        members_text(fields.drop_last()) + ","@ + member_text(fields.last().0, fields.last().1)
    }
}

/// An object as text, without white space.
pub open spec fn object_text(fields: Seq<(Seq<char>, Seq<char>)>) -> Seq<char> {
    "{"@ + members_text(fields) + "}"@
}

/// Writes an object out of members whose names need no escapes.
pub fn json_object(fields: &Vec<JsonField>) -> (json: String)
    ensures
        json@ == object_text(field_views(fields@)),
{
    let ghost views = field_views(fields@);
    let mut json = "{".to_owned();
    let mut i: usize = 0;
    assert(views.take(0) =~= Seq::<(Seq<char>, Seq<char>)>::empty());
    assert("{"@ + members_text(views.take(0)) =~= "{"@);
    while i < fields.len()
        invariant
            i <= fields@.len(),
            views == field_views(fields@),
            json@ == "{"@ + members_text(views.take(i as int)),
        decreases fields@.len() - i,
    {
        let ghost before = members_text(views.take(i as int));
        if i > 0 {
            json.append(",");
        }
        json.append("\"");
        json.append(fields[i].name.as_str());
        json.append("\":");
        json.append(fields[i].value.as_str());
        proof {
            let now = views.take(i + 1);
            let member = member_text(fields@[i as int].name@, fields@[i as int].value@);
            assert(now.drop_last() =~= views.take(i as int));
            assert(now.last() == (fields@[i as int].name@, fields@[i as int].value@));
            if i == 0 {
                assert(now[0] == now.last());
                assert(json@ =~= "{"@ + member);
            } else {
                assert(json@ =~= "{"@ + (before + ","@ + member));
            }
        }
        i += 1;
    }
    json.append("}");
    assert(views.take(views.len() as int) =~= views);
    json
}

/// Adds a member.
pub fn put_raw(fields: &mut Vec<JsonField>, name: &str, value: String)
    ensures
        field_views(final(fields)@) == field_views(old(fields)@).push((name@, value@)),
{
    let ghost before = fields@;
    fields.push(JsonField { name: name.to_owned(), value });
    assert(field_views(fields@) =~= field_views(before).push((name@, value@)));
}

/// Adds a member with a text as its value.
pub fn put_text(fields: &mut Vec<JsonField>, name: &str, text: &str)
    ensures
        field_views(final(fields)@) == field_views(old(fields)@).push(
            (name@, json_quoted(text@)),
        ),
{
    put_raw(fields, name, quote(text));
}

/// A member that is left out where it has no value.
pub open spec fn optional_field(name: Seq<char>, text: Option<Seq<char>>) -> Seq<
    (Seq<char>, Seq<char>),
> {
    match text {
        Some(t) => seq![(name, json_quoted(t))],
        None => Seq::empty(),
    }
}

/// Adds a member with a text as its value, where there is one.
pub fn put_optional(fields: &mut Vec<JsonField>, name: &str, text: Option<&str>)
    ensures
        field_views(final(fields)@) == field_views(old(fields)@) + optional_field(
            name@,
            match text {
                Some(t) => Some(t@),
                None => None,
            },
        ),
{
    match text {
        Some(t) => {
            put_text(fields, name, t);
            assert(field_views(fields@) =~= field_views(old(fields)@) + optional_field(
                name@,
                Some(t@),
            ));
        },
        None => {
            assert(field_views(fields@) =~= field_views(old(fields)@) + optional_field(
                name@,
                None,
            ));
        },
    }
}

/// An object is its members between braces, each a name in quotes, a colon and
/// its value, with a comma between two of them.
pub proof fn members_stand_between_commas(
    fields: Seq<(Seq<char>, Seq<char>)>,
    name: Seq<char>,
    value: Seq<char>,
)
    ensures
        object_text(Seq::empty()) == "{}"@,
        object_text(seq![(name, value)]) == "{\""@ + name + "\":"@ + value + "}"@,
        fields.len() > 0 ==> object_text(fields.push((name, value))) == object_text(
            fields,
        ).drop_last() + ",\""@ + name + "\":"@ + value + "}"@,
{
    reveal_strlit("{");
    reveal_strlit("}");
    reveal_strlit("{}");
    reveal_strlit("{\"");
    reveal_strlit("\"");
    reveal_strlit(",");
    reveal_strlit(",\"");
    assert(object_text(Seq::empty()) =~= "{}"@);
    let one = seq![(name, value)];
    assert(one.len() == 1 && one[0] == (name, value));
    assert(object_text(one) =~= "{\""@ + name + "\":"@ + value + "}"@);
    if fields.len() > 0 {
        let more = fields.push((name, value));
        assert(more.drop_last() =~= fields);
        assert(more.last() == (name, value));
        assert(object_text(fields).drop_last() =~= "{"@ + members_text(fields));
        assert(object_text(more) =~= object_text(fields).drop_last() + ",\""@ + name + "\":"@
            + value + "}"@);
    }
}

/// A member without a value is left out, one with a value is quoted.
pub proof fn missing_members_are_left_out(name: Seq<char>, value: Seq<char>)
    ensures
        optional_field(name, None).len() == 0,
        optional_field(name, Some(value)) == seq![(name, json_quoted(value))],
{
}

/// How single characters are written: quotes and backslashes behind a backslash,
/// five control characters by a letter, and the others as `\u00` and their
/// number in two hexadecimal digits.
pub proof fn characters_are_escaped(c: char, k: int)
    ensures
        c == '"' ==> escaped(c) == seq!['\\', '"'],
        c == '\\' ==> escaped(c) == seq!['\\', '\\'],
        c as u32 == 8 ==> escaped(c) == seq!['\\', 'b'],
        c as u32 == 9 ==> escaped(c) == seq!['\\', 't'],
        c as u32 == 10 ==> escaped(c) == seq!['\\', 'n'],
        c as u32 == 12 ==> escaped(c) == seq!['\\', 'f'],
        c as u32 == 13 ==> escaped(c) == seq!['\\', 'r'],
        c as u32 >= 32 && c != '"' && c != '\\' ==> escaped(c) == seq![c],
        c as u32 == k && (0 <= k < 8 || k == 11 || 14 <= k < 32) ==> {
            let e = escaped(c);
            let low = e[5] as u32 as int - (if e[5] <= '9' { 48int } else { 87 });
            &&& e.len() == 6
            &&& e.take(4) == seq!['\\', 'u', '0', '0']
            &&& e[4] as u32 as int - 48 == k / 16
            &&& 0 <= low < 16 && low == k % 16
        },
{
    reveal_strlit("\\u00");
    reveal_strlit("0123456789abcdef");
    if c as u32 == k && (0 <= k < 8 || k == 11 || 14 <= k < 32) {
        let e = escaped(c);
        assert(e.take(4) =~= seq!['\\', 'u', '0', '0']);
        let hex = "0123456789abcdef"@;
        assert(e[4] == hex[k / 16] && e[5] == hex[k % 16]);
        assert(k / 16 == 0 || k / 16 == 1);
    }
}

} // verus!
