//! JSON text: string literals, written by `serde_json`, and the framing of
//! arrays.

use vstd::prelude::*;
use vstd::string::*;

verus! {

/// The numeral of a hexadecimal digit, in lower case.
pub open spec fn hex_digit_text(d: int) -> Seq<char> {
    if d == 0 {
        "0"@
    } else if d == 1 {
        "1"@
    } else if d == 2 {
        "2"@
    } else if d == 3 {
        "3"@
    } else if d == 4 {
        "4"@
    } else if d == 5 {
        "5"@
    } else if d == 6 {
        "6"@
    } else if d == 7 {
        "7"@
    } else if d == 8 {
        "8"@
    } else if d == 9 {
        "9"@
    } else if d == 10 {
        "a"@
    } else if d == 11 {
        "b"@
    } else if d == 12 {
        "c"@
    } else if d == 13 {
        "d"@
    } else if d == 14 {
        "e"@
    } else {
        "f"@
    }
}

/// How one character stands inside a JSON string literal: a quote, a
/// backslash, backspace, tab, line feed, form feed and carriage return as
/// their two-character escapes, any other character below U+0020 as `\u00`
/// and two hexadecimal digits, and every other character as itself.
pub open spec fn escaped_char(c: char) -> Seq<char> {
    if c == '"' {
        "\\\""@
    } else if c == '\\' {
        "\\\\"@
    } else if c == '\u{8}' {
        "\\b"@
    } else if c == '\t' {
        "\\t"@
    } else if c == '\n' {
        "\\n"@
    } else if c == '\u{c}' {
        "\\f"@
    } else if c == '\r' {
        "\\r"@
    } else if (c as u32) < 0x20 {
        "\\u00"@ + hex_digit_text((c as u32) as int / 16) + hex_digit_text((c as u32) as int % 16)
    } else {
        seq![c]
    }
}

/// A text with each of its characters as it stands inside a JSON string
/// literal.
pub open spec fn escaped(text: Seq<char>) -> Seq<char>
    decreases text.len(),
{
    if text.len() == 0 {
        Seq::empty()
    } else {
        escaped(text.drop_last()) + escaped_char(text.last())
    }
}

/// The JSON string literal of a text: its escaped characters between quotes.
pub open spec fn quoted(text: Seq<char>) -> Seq<char> {
    "\""@ + escaped(text) + "\""@
}

/// Calls `serde_json::to_string` on a string slice, which writes the JSON
/// string literal of the text: a quote, the text with the escapes of
/// [`escaped_char`], and a quote. On a string slice the call has no failure
/// to report: it writes into a vector, and a string slice is neither a map
/// nor a value that refuses to be written.
#[verifier::external_body]
fn to_json_string(text: &str) -> (json: String)
    ensures
        json@ == quoted(text@),
{
    serde_json::to_string(text).unwrap_or_default()
}

/// The JSON string literals of a sequence of texts, separated by commas.
pub open spec fn quoted_items(texts: Seq<Seq<char>>) -> Seq<char>
    decreases texts.len(),
{
    if texts.len() == 0 {
        Seq::empty()
    } else if texts.len() == 1 {
        quoted(texts[0])
    } else {
        quoted_items(texts.drop_last()) + ","@ + quoted(texts.last())
    }
}

/// The JSON array of the string literals of a sequence of texts.
pub open spec fn string_array_text(texts: Seq<Seq<char>>) -> Seq<char> {
    "["@ + quoted_items(texts) + "]"@
}

/// The texts that a slice of string slices holds.
pub open spec fn texts_view(texts: Seq<&str>) -> Seq<Seq<char>> {
    texts.map_values(|t: &str| t@)
}

/// Appends the JSON string literal of `text` to `out`.
pub fn push_json_string(out: &mut String, text: &str)
    ensures
        final(out)@ == old(out)@ + quoted(text@),
{
    let json = to_json_string(text);
    out.append(json.as_str());
}

/// The JSON string literal of `text`.
pub fn json_string(text: &str) -> (json: String)
    ensures
        json@ == quoted(text@),
{
    to_json_string(text)
}

/// The JSON array of the string literals of `texts`.
pub fn json_string_array(texts: &[&str]) -> (json: String)
    ensures
        json@ == string_array_text(texts_view(texts@)),
{
    let ghost items = texts_view(texts@);
    let mut out = String::from_str("[");
    let mut i: usize = 0;
    proof {
        assert(items.take(0) =~= Seq::<Seq<char>>::empty());
        assert(out@ =~= "["@ + quoted_items(items.take(0)));
    }
    while i < texts.len()
        invariant
            i <= texts.len(),
            items == texts_view(texts@),
            out@ == "["@ + quoted_items(items.take(i as int)),
        decreases texts.len() - i,
    {
        if i > 0 {
            out.append(",");
        }
        push_json_string(&mut out, texts[i]);
        proof {
            let done = items.take(i as int);
            let next = items.take(i + 1);
            assert(next.drop_last() =~= done);
            assert(next.last() == items[i as int]);
            if i == 0 {
                assert(quoted_items(done) =~= Seq::<char>::empty());
            }
            assert(out@ =~= "["@ + quoted_items(next));
        }
        i += 1;
    }
    assert(items.take(i as int) =~= items);
    out.append("]");
    out
}

} // verus!
