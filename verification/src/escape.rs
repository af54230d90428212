//! The three escaping rules of the XML parts: for attribute values, for
//! element text and for URLs.

use std::borrow::Cow;
use vstd::prelude::*;
use vstd::std_specs::iter::IteratorSpec;
use vstd::string::*;
use crate::text::{digit_char, hex_upper, lower_digit_char};

verus! {

/// What replaces `ch` in an attribute value, if anything does.
pub open spec fn attribute_escape(ch: char) -> Option<Seq<char>> {
    if ch == '&' {
        Some("&amp;"@)
    } else if ch == '"' {
        Some("&quot;"@)
    } else if ch == '<' {
        Some("&lt;"@)
    } else if ch == '>' {
        Some("&gt;"@)
    } else if ch == '\n' {
        Some("&#xA;"@)
    } else {
        None
    }
}

/// The control characters that element text cannot hold as they are: those
/// below U+0020 other than tab and newline.
pub open spec fn is_escaped_control(ch: char) -> bool {
    (ch as u32) < 0x20 && ch != '\t' && ch != '\n'
}

/// The escape for a control character: `_x`, its code as four hexadecimal
/// digits in upper case, and `_`.
pub open spec fn control_escape(ch: char) -> Seq<char> {
    "_x"@ + hex_upper(ch as nat, 4) + "_"@
}

/// What replaces `ch` in element text, if anything does. Double quotes and
/// newlines stay as they are.
pub open spec fn xml_data_escape(ch: char) -> Option<Seq<char>> {
    if is_escaped_control(ch) {
        Some(control_escape(ch))
    } else if ch == '&' {
        Some("&amp;"@)
    } else if ch == '<' {
        Some("&lt;"@)
    } else if ch == '>' {
        Some("&gt;"@)
    } else {
        None
    }
}

/// Whether a URL holds `ch` as a percent escape.
pub open spec fn is_url_escaped(ch: char) -> bool {
    ch == '%' || ch == '"' || ch == ' ' || ch == '<' || ch == '>' || ch == '[' || ch == ']'
        || ch == '^' || ch == '`' || ch == '{' || ch == '}'
}

/// What replaces `ch` in a URL, if anything does: `%` and the character's
/// code as two hexadecimal digits in lower case.
pub open spec fn url_escape(ch: char) -> Option<Seq<char>> {
    if is_url_escaped(ch) {
        Some(seq!['%', lower_digit_char((ch as int) / 16), lower_digit_char((ch as int) % 16)])
    } else {
        None
    }
}

/// The text that stands for `ch` when its replacement is `replacement`.
pub open spec fn replaced_char(ch: char, replacement: Option<Seq<char>>) -> Seq<char> {
    match replacement {
        Some(s) => s,
        None => seq![ch],
    }
}

/// `text` with each character replaced as `table` says.
pub open spec fn escape_text(
    text: Seq<char>,
    table: spec_fn(char) -> Option<Seq<char>>,
) -> Seq<char>
    decreases text.len(),
{
    if text.len() == 0 {
        Seq::empty()
    } else {
        escape_text(text.drop_last(), table) + replaced_char(text.last(), table(text.last()))
    }
}

/// `text` as it stands in an attribute value.
pub open spec fn attribute_escaped(text: Seq<char>) -> Seq<char> {
    escape_text(text, |ch: char| attribute_escape(ch))
}

/// `text` as it stands between the tags of an element.
pub open spec fn xml_data_escaped(text: Seq<char>) -> Seq<char> {
    escape_text(text, |ch: char| xml_data_escape(ch))
}

/// `text` as it stands in the target of a hyperlink.
pub open spec fn url_escaped(text: Seq<char>) -> Seq<char> {
    escape_text(text, |ch: char| url_escape(ch))
}

/// The view of an optional replacement string.
pub open spec fn replacement_view(r: Option<&'static str>) -> Option<Seq<char>> {
    match r {
        Some(s) => Some(s@),
        None => None,
    }
}

/// `text` with its `i`-th character replaced as `replacements[i]` says.
pub open spec fn replace_chars(text: Seq<char>, replacements: Seq<Option<Seq<char>>>) -> Seq<char>
    decreases text.len(),
{
    if text.len() == 0 || replacements.len() == 0 {
        Seq::empty()
    } else {
        replace_chars(text.drop_last(), replacements.drop_last()) + replaced_char(
            text.last(),
            replacements.last(),
        )
    }
}

/// `found[i]` is what one call of `handler` on the `i`-th character of
/// `text` may return.
pub open spec fn answers_of<F: Fn(char) -> Option<&'static str>>(
    handler: F,
    text: Seq<char>,
    found: Seq<Option<&'static str>>,
) -> bool {
    &&& found.len() == text.len()
    &&& forall|i: int| 0 <= i < text.len() ==> call_ensures(handler, (#[trigger] text[i],), found[i])
}

/// `escaped` is `text` with each character replaced by what one call of
/// `handler` on it may return.
pub open spec fn is_escaped_by<F: Fn(char) -> Option<&'static str>>(
    text: Seq<char>,
    escaped: Seq<char>,
    handler: F,
) -> bool {
    exists|found: Seq<Option<&'static str>>| #[trigger]
        answers_of(handler, text, found) && escaped == replace_chars(
            text,
            found.map_values(|r: Option<&'static str>| replacement_view(r)),
        )
}

/// The handler may leave every character of `text` as it is: there are
/// answers of it to the characters of `text` of which none is a replacement.
pub open spec fn none_replaced<F: Fn(char) -> Option<&'static str>>(
    text: Seq<char>,
    handler: F,
) -> bool {
    exists|found: Seq<Option<&'static str>>| #[trigger]
        answers_of(handler, text, found) && all_kept(found)
}

/// None of the answers is a replacement.
pub open spec fn all_kept(found: Seq<Option<&'static str>>) -> bool {
    forall|i: int| 0 <= i < found.len() ==> #[trigger] found[i] is None
}

/// The handler may replace a character of `text`: one of its answers to a
/// character of `text` is a replacement.
pub open spec fn some_replaced<F: Fn(char) -> Option<&'static str>>(
    text: Seq<char>,
    handler: F,
) -> bool {
    exists|i: int, r: Option<&'static str>|
        0 <= i < text.len() && #[trigger] call_ensures(handler, (text[i],), r) && r is Some
}

/// `table` says what every call of `handler` returns.
pub open spec fn follows_table<F: Fn(char) -> Option<&'static str>>(
    handler: F,
    table: spec_fn(char) -> Option<Seq<char>>,
) -> bool {
    forall|ch: char, r: Option<&'static str>| #[trigger]
        call_ensures(handler, (ch,), r) ==> replacement_view(r) == table(ch)
}

proof fn lemma_replace_chars_table(
    text: Seq<char>,
    replacements: Seq<Option<Seq<char>>>,
    table: spec_fn(char) -> Option<Seq<char>>,
)
    requires
        replacements.len() == text.len(),
        forall|i: int| 0 <= i < text.len() ==> #[trigger] replacements[i] == table(text[i]),
    ensures
        replace_chars(text, replacements) == escape_text(text, table),
    decreases text.len(),
{
    if text.len() > 0 {
        lemma_replace_chars_table(text.drop_last(), replacements.drop_last(), table);
    }
}

/// Where a handler follows a table, what it escapes a text to is the text
/// escaped by that table.
pub proof fn lemma_escaped_by_table<F: Fn(char) -> Option<&'static str>>(
    text: Seq<char>,
    escaped: Seq<char>,
    handler: F,
    table: spec_fn(char) -> Option<Seq<char>>,
)
    requires
        is_escaped_by(text, escaped, handler),
        follows_table(handler, table),
    ensures
        escaped == escape_text(text, table),
{
    let found = choose|found: Seq<Option<&'static str>>| #[trigger]
        answers_of(handler, text, found) && escaped == replace_chars(
            text,
            found.map_values(|r: Option<&'static str>| replacement_view(r)),
        );
    let replacements = found.map_values(|r: Option<&'static str>| replacement_view(r));
    assert forall|i: int| 0 <= i < text.len() implies #[trigger] replacements[i] == table(
        text[i],
    ) by {
        assert(call_ensures(handler, (text[i],), found[i]));
    }
    lemma_replace_chars_table(text, replacements, table);
}

/// Where a handler follows a table, it may leave every character of a text
/// as it is only if the table replaces none of them, and it may replace one
/// only if the table replaces one.
pub proof fn lemma_replaced_by_table<F: Fn(char) -> Option<&'static str>>(
    text: Seq<char>,
    handler: F,
    table: spec_fn(char) -> Option<Seq<char>>,
)
    requires
        follows_table(handler, table),
    ensures
        none_replaced(text, handler) ==> forall|i: int|
            0 <= i < text.len() ==> table(#[trigger] text[i]) is None,
        some_replaced(text, handler) ==> exists|i: int|
            0 <= i < text.len() && table(#[trigger] text[i]) is Some,
{
    if none_replaced(text, handler) {
        let found = choose|found: Seq<Option<&'static str>>| #[trigger]
            answers_of(handler, text, found) && all_kept(found);
        assert forall|i: int| 0 <= i < text.len() implies table(#[trigger] text[i]) is None by {
            assert(call_ensures(handler, (text[i],), found[i]));
            assert(found[i] is None);
        }
    }
    if some_replaced(text, handler) {
        let (i, r) = choose|i: int, r: Option<&'static str>|
            0 <= i < text.len() && #[trigger] call_ensures(handler, (text[i],), r) && r is Some;
        assert(table(text[i]) is Some);
    }
}

/// A text in which no character is replaced is its own escaped form.
proof fn lemma_nothing_replaced(
    text: Seq<char>,
    found: Seq<Option<&'static str>>,
)
    requires
        found.len() == text.len(),
        forall|i: int| 0 <= i < found.len() ==> #[trigger] found[i] is None,
    ensures
        text == replace_chars(text, found.map_values(|r: Option<&'static str>| replacement_view(r))),
    decreases text.len(),
{
    let views = found.map_values(|r: Option<&'static str>| replacement_view(r));
    if text.len() > 0 {
        lemma_nothing_replaced(text.drop_last(), found.drop_last());
        assert(views.drop_last() =~= found.drop_last().map_values(
            |r: Option<&'static str>| replacement_view(r),
        ));
        assert(found.last() is None);
        assert(text =~= text.drop_last() + seq![text.last()]);
    } else {
        assert(text =~= Seq::empty());
    }
}

/// The replacement of a character in an attribute value.
pub fn match_attribute_html_char(ch: char) -> (r: Option<&'static str>)
    ensures
        replacement_view(r) == attribute_escape(ch),
{
    match ch {
        '&' => Some("&amp;"),
        '"' => Some("&quot;"),
        '<' => Some("&lt;"),
        '>' => Some("&gt;"),
        '\n' => Some("&#xA;"),
        _ => None,
    }
}

/// The escape of a control character, digit by digit.
proof fn lemma_control_escape(ch: char)
    requires
        (ch as u32) < 0x20,
    ensures
        control_escape(ch) == seq![
            '_',
            'x',
            '0',
            '0',
            digit_char((ch as int) / 16),
            digit_char((ch as int) % 16),
            '_',
        ],
{
    reveal_strlit("_x");
    reveal_strlit("_");
    reveal_with_fuel(hex_upper, 5);
    let n = ch as nat;
    assert(hex_upper(n, 4) =~= seq![
        '0',
        '0',
        digit_char((ch as int) / 16),
        digit_char((ch as int) % 16),
    ]);
    assert(control_escape(ch) =~= seq![
        '_',
        'x',
        '0',
        '0',
        digit_char((ch as int) / 16),
        digit_char((ch as int) % 16),
        '_',
    ]);
}

/// The replacement of a character in element text.
pub fn match_xml_char(ch: char) -> (r: Option<&'static str>)
    ensures
        replacement_view(r) == xml_data_escape(ch),
{
    proof {
        if (ch as u32) < 0x20 {
            lemma_control_escape(ch);
        }
        reveal_strlit("_x0000_");
        reveal_strlit("_x0001_");
        reveal_strlit("_x0002_");
        reveal_strlit("_x0003_");
        reveal_strlit("_x0004_");
        reveal_strlit("_x0005_");
        reveal_strlit("_x0006_");
        reveal_strlit("_x0007_");
        reveal_strlit("_x0008_");
        reveal_strlit("_x000B_");
        reveal_strlit("_x000C_");
        reveal_strlit("_x000D_");
        reveal_strlit("_x000E_");
        reveal_strlit("_x000F_");
        reveal_strlit("_x0010_");
        reveal_strlit("_x0011_");
        reveal_strlit("_x0012_");
        reveal_strlit("_x0013_");
        reveal_strlit("_x0014_");
        reveal_strlit("_x0015_");
        reveal_strlit("_x0016_");
        reveal_strlit("_x0017_");
        reveal_strlit("_x0018_");
        reveal_strlit("_x0019_");
        reveal_strlit("_x001A_");
        reveal_strlit("_x001B_");
        reveal_strlit("_x001C_");
        reveal_strlit("_x001D_");
        reveal_strlit("_x001E_");
        reveal_strlit("_x001F_");
    }
    let r = match ch {
        '\x00' => Some("_x0000_"),
        '\x01' => Some("_x0001_"),
        '\x02' => Some("_x0002_"),
        '\x03' => Some("_x0003_"),
        '\x04' => Some("_x0004_"),
        '\x05' => Some("_x0005_"),
        '\x06' => Some("_x0006_"),
        '\x07' => Some("_x0007_"),
        '\x08' => Some("_x0008_"),
        '\x0B' => Some("_x000B_"),
        '\x0C' => Some("_x000C_"),
        '\x0D' => Some("_x000D_"),
        '\x0E' => Some("_x000E_"),
        '\x0F' => Some("_x000F_"),
        '\x10' => Some("_x0010_"),
        '\x11' => Some("_x0011_"),
        '\x12' => Some("_x0012_"),
        '\x13' => Some("_x0013_"),
        '\x14' => Some("_x0014_"),
        '\x15' => Some("_x0015_"),
        '\x16' => Some("_x0016_"),
        '\x17' => Some("_x0017_"),
        '\x18' => Some("_x0018_"),
        '\x19' => Some("_x0019_"),
        '\x1A' => Some("_x001A_"),
        '\x1B' => Some("_x001B_"),
        '\x1C' => Some("_x001C_"),
        '\x1D' => Some("_x001D_"),
        '\x1E' => Some("_x001E_"),
        '\x1F' => Some("_x001F_"),
        '&' => Some("&amp;"),
        '<' => Some("&lt;"),
        '>' => Some("&gt;"),
        _ => None,
    };
    assert(replacement_view(r) =~= xml_data_escape(ch));
    r
}

/// The replacement of a character in a URL.
pub fn match_url_char(ch: char) -> (r: Option<&'static str>)
    ensures
        replacement_view(r) == url_escape(ch),
{
    proof {
        reveal_strlit("%25");
        reveal_strlit("%22");
        reveal_strlit("%20");
        reveal_strlit("%3c");
        reveal_strlit("%3e");
        reveal_strlit("%5b");
        reveal_strlit("%5d");
        reveal_strlit("%5e");
        reveal_strlit("%60");
        reveal_strlit("%7b");
        reveal_strlit("%7d");
    }
    let r = match ch {
        '%' => Some("%25"),
        '"' => Some("%22"),
        ' ' => Some("%20"),
        '<' => Some("%3c"),
        '>' => Some("%3e"),
        '[' => Some("%5b"),
        ']' => Some("%5d"),
        '^' => Some("%5e"),
        '`' => Some("%60"),
        '{' => Some("%7b"),
        '}' => Some("%7d"),
        _ => None,
    };
    assert(replacement_view(r) =~= url_escape(ch));
    r
}

/// A digit is a character from `0` to `9` or from `A` to `F`.
proof fn lemma_digit_char_is_alphanumeric(d: int)
    requires
        0 <= d < 16,
    ensures
        ('0' <= digit_char(d) <= '9') || ('A' <= digit_char(d) <= 'F'),
        (digit_char(d) as u32) >= 0x30,
        digit_char(d) != '<',
        digit_char(d) != '>',
{
}

/// Whether `ch` can stand in an attribute value without ending the value or
/// the tag.
pub open spec fn is_attribute_char(ch: char) -> bool {
    ch != '"' && ch != '<' && ch != '>' && ch != '\n'
}

/// Whether `ch` can stand in element text without starting a tag, and is no
/// control character that the text cannot hold.
pub open spec fn is_data_char(ch: char) -> bool {
    ch != '<' && ch != '>' && !is_escaped_control(ch)
}

/// An escaped attribute value holds no double quote, no angle bracket and no
/// newline: whatever the value was, it cannot end the attribute or the tag.
pub proof fn lemma_attribute_escaped_is_safe(text: Seq<char>)
    ensures
        forall|i: int|
            0 <= i < attribute_escaped(text).len() ==> is_attribute_char(
                #[trigger] attribute_escaped(text)[i],
            ),
    decreases text.len(),
{
    if text.len() > 0 {
        lemma_attribute_escaped_is_safe(text.drop_last());
        reveal_strlit("&amp;");
        reveal_strlit("&quot;");
        reveal_strlit("&lt;");
        reveal_strlit("&gt;");
        reveal_strlit("&#xA;");
        let before = attribute_escaped(text.drop_last());
        let last = replaced_char(text.last(), attribute_escape(text.last()));
        assert(attribute_escaped(text) == before + last);
        assert forall|j: int| 0 <= j < last.len() implies is_attribute_char(#[trigger] last[j]) by {}
        assert forall|i: int| 0 <= i < attribute_escaped(text).len() implies is_attribute_char(
            #[trigger] attribute_escaped(text)[i],
        ) by {
            if i >= before.len() {
                assert(attribute_escaped(text)[i] == last[i - before.len()]);
            } else {
                assert(attribute_escaped(text)[i] == before[i]);
            }
        }
    }
}

/// What stands for one character in element text holds no angle bracket and
/// no control character other than tab and newline.
proof fn lemma_xml_data_char_is_safe(ch: char)
    ensures
        forall|j: int|
            0 <= j < replaced_char(ch, xml_data_escape(ch)).len() ==> is_data_char(
                #[trigger] replaced_char(ch, xml_data_escape(ch))[j],
            ),
{
    reveal_strlit("&amp;");
    reveal_strlit("&lt;");
    reveal_strlit("&gt;");
    if (ch as u32) < 0x20 {
        lemma_control_escape(ch);
        lemma_digit_char_is_alphanumeric((ch as int) / 16);
        lemma_digit_char_is_alphanumeric((ch as int) % 16);
    }
}

/// Escaped element text holds no angle bracket and no control character
/// other than tab and newline: whatever the text was, it cannot start a tag.
pub proof fn lemma_xml_data_escaped_is_safe(text: Seq<char>)
    ensures
        forall|i: int|
            0 <= i < xml_data_escaped(text).len() ==> is_data_char(
                #[trigger] xml_data_escaped(text)[i],
            ),
    decreases text.len(),
{
    if text.len() > 0 {
        lemma_xml_data_escaped_is_safe(text.drop_last());
        lemma_xml_data_char_is_safe(text.last());
        let before = xml_data_escaped(text.drop_last());
        let last = replaced_char(text.last(), xml_data_escape(text.last()));
        assert(xml_data_escaped(text) == before + last);
        assert forall|i: int| 0 <= i < xml_data_escaped(text).len() implies is_data_char(
            #[trigger] xml_data_escaped(text)[i],
        ) by {
            if i >= before.len() {
                assert(xml_data_escaped(text)[i] == last[i - before.len()]);
            } else {
                assert(xml_data_escaped(text)[i] == before[i]);
            }
        }
    }
}

/// Text in which the table replaces no character is its own escaped form.
pub proof fn lemma_escape_text_unchanged(text: Seq<char>, table: spec_fn(char) -> Option<Seq<char>>)
    requires
        forall|i: int| 0 <= i < text.len() ==> table(#[trigger] text[i]) is None,
    ensures
        escape_text(text, table) == text,
    decreases text.len(),
{
    if text.len() > 0 {
        assert(table(text[text.len() - 1]) is None);
        lemma_escape_text_unchanged(text.drop_last(), table);
        assert(text =~= text.drop_last() + seq![text.last()]);
    } else {
        assert(text =~= Seq::empty());
    }
}

/// Escapes a string for use as an attribute value. A string that needs no
/// escape is handed back borrowed, and no other is.
pub fn escape_attributes(attribute: &str) -> (escaped: Cow<'_, str>)
    ensures
        escaped@ == attribute_escaped(attribute@),
        escaped matches Cow::Borrowed(_) <==> forall|i: int|
            0 <= i < attribute@.len() ==> attribute_escape(#[trigger] attribute@[i]) is None,
{
    let escaped = escape_string(attribute, match_attribute_html_char);
    proof {
        lemma_escaped_by_table(
            attribute@,
            escaped@,
            match_attribute_html_char,
            |ch: char| attribute_escape(ch),
        );
        lemma_replaced_by_table(
            attribute@,
            match_attribute_html_char,
            |ch: char| attribute_escape(ch),
        );
    }
    escaped
}

/// Escapes a string for use as the text of an element. A string that needs
/// no escape is handed back borrowed, and no other is.
pub fn escape_xml_data(data: &str) -> (escaped: Cow<'_, str>)
    ensures
        escaped@ == xml_data_escaped(data@),
        escaped matches Cow::Borrowed(_) <==> forall|i: int|
            0 <= i < data@.len() ==> xml_data_escape(#[trigger] data@[i]) is None,
{
    let escaped = escape_string(data, match_xml_char);
    proof {
        lemma_escaped_by_table(data@, escaped@, match_xml_char, |ch: char| xml_data_escape(ch));
        lemma_replaced_by_table(data@, match_xml_char, |ch: char| xml_data_escape(ch));
    }
    escaped
}

/// Escapes the characters of a URL that a hyperlink cannot hold as they are.
/// A URL that holds none of them is handed back borrowed, and no other is.
pub fn escape_url(data: &str) -> (escaped: Cow<'_, str>)
    ensures
        escaped@ == url_escaped(data@),
        escaped matches Cow::Borrowed(_) <==> forall|i: int|
            0 <= i < data@.len() ==> url_escape(#[trigger] data@[i]) is None,
{
    let escaped = escape_string(data, match_url_char);
    proof {
        lemma_escaped_by_table(data@, escaped@, match_url_char, |ch: char| url_escape(ch));
        lemma_replaced_by_table(data@, match_url_char, |ch: char| url_escape(ch));
    }
    escaped
}

/// Escapes a string with the handler given: each character for which the
/// handler returns a replacement is replaced by it, the others are kept.
/// A string in which the handler replaces nothing is handed back borrowed,
/// without a copy; one in which it replaces a character is handed back owned.
pub fn escape_string<F>(original: &str, char_handler: F) -> (escaped: Cow<'_, str>)
    where F: Fn(char) -> Option<&'static str>
    requires
        forall|ch: char| call_requires(char_handler, (ch,)),
    ensures
        is_escaped_by(original@, escaped@, char_handler),
        escaped matches Cow::Borrowed(_) ==> none_replaced(original@, char_handler),
        escaped matches Cow::Owned(_) ==> some_replaced(original@, char_handler),
{
    broadcast use vstd::string::group_string_axioms;

    let mut chars = original.chars();
    let ghost mut found: Seq<Option<&'static str>> = Seq::empty();
    let mut changed = false;
    while !changed
        invariant
            found.len() <= original@.len(),
            !changed ==> chars.remaining() == original@.skip(found.len() as int),
            forall|ch: char| call_requires(char_handler, (ch,)),
            !changed ==> answers_of(char_handler, original@.take(found.len() as int), found),
            !changed ==> all_kept(found),
            changed ==> some_replaced(original@, char_handler),
        decreases original@.len() - found.len() + if changed { 0int } else { 1int },
    {
        let ghost rest = chars.remaining();
        match chars.next() {
            None => {
                proof {
                    assert(original@.take(found.len() as int) == original@);
                    lemma_nothing_replaced(original@, found);
                }
                return Cow::Borrowed(original);
            },
            Some(ch) => {
                assert(rest.drop_first() =~= original@.skip(found.len() as int + 1));
                let r = char_handler(ch);
                if r.is_some() {
                    assert(call_ensures(char_handler, (original@[found.len() as int],), r));
                    changed = true;
                } else {
                    proof {
                        found = found.push(r);
                    }
                }
            },
        }
    }
    let mut escaped_string = String::new();
    let mut chars = original.chars();
    proof {
        found = Seq::empty();
    }
    loop
        invariant
            found.len() <= original@.len(),
            chars.remaining() == original@.skip(found.len() as int),
            forall|ch: char| call_requires(char_handler, (ch,)),
            answers_of(char_handler, original@.take(found.len() as int), found),
            some_replaced(original@, char_handler),
            escaped_string@ == replace_chars(
                original@.take(found.len() as int),
                found.map_values(|r: Option<&'static str>| replacement_view(r)),
            ),
        decreases original@.len() - found.len(),
    {
        let ghost rest = chars.remaining();
        match chars.next() {
            None => {
                assert(original@.take(found.len() as int) == original@);
                return Cow::Owned(escaped_string);
            },
            Some(ch) => {
                assert(rest.drop_first() =~= original@.skip(found.len() as int + 1));
                let ghost before = escaped_string@;
                let ghost text = original@.take(found.len() as int + 1);
                let r = char_handler(ch);
                match r {
                    Some(escaped_char) => escaped_string.append(escaped_char),
                    None => escaped_string.push(ch),
                }
                proof {
                    let views = found.map_values(|r: Option<&'static str>| replacement_view(r));
                    let longer = found.push(r);
                    let longer_views = longer.map_values(
                        |r: Option<&'static str>| replacement_view(r),
                    );
                    assert(text.drop_last() =~= original@.take(found.len() as int));
                    assert(longer_views.drop_last() =~= views);
                    assert(before.push(ch) =~= before + seq![ch]);
                    found = longer;
                }
            },
        }
    }
}

} // verus!
