//! A writer for XML in the form, and with the escaping, that xlsx files use.
//! Every part of a file is written through it.

use std::borrow::Cow;
use regex::Regex;
use vstd::prelude::*;
use vstd::string::*;
use crate::escape::{attribute_escaped, escape_attributes, escape_xml_data, xml_data_escaped};

verus! {

/// `String::clear` empties a string.
pub assume_specification[ String::clear ](s: &mut String)
    ensures
        final(s)@ == Seq::<char>::empty(),
;

/// Whether `regex::Regex::new` compiles `pattern`.
pub uninterp spec fn regex_compiles(pattern: Seq<char>) -> bool;

/// What `regex::Regex::replace_all` returns, for the regex that `pattern`
/// compiles to: `haystack` with every match replaced as `replacement` says.
pub uninterp spec fn regex_replace_all(
    pattern: Seq<char>,
    haystack: Seq<char>,
    replacement: Seq<char>,
) -> Seq<char>;

/// Compiles `pattern` with `regex::Regex::new` and replaces every match in
/// `haystack` with `regex::Regex::replace_all`. What is claimed: a pattern
/// that does not compile gives `None`, and one that compiles gives the text
/// that the regex crate defines for these three strings.
#[verifier::external_body]
fn replace_all_matches(
    pattern: &str,
    haystack: &str,
    replacement: &str,
) -> (replaced: Option<String>)
    ensures
        replaced is Some <==> regex_compiles(pattern@),
        replaced matches Some(text) ==> text@ == regex_replace_all(
            pattern@,
            haystack@,
            replacement@,
        ),
{
    match Regex::new(pattern) {
        Ok(re) => Some(re.replace_all(haystack, replacement).into_owned()),
        Err(_) => None,
    }
}

/// The text of a `Cow`, borrowed.
pub fn cow_str<'a>(text: &'a Cow<'a, str>) -> (s: &'a str)
    ensures
        s@ == text@,
{
    match text {
        Cow::Borrowed(borrowed) => borrowed,
        Cow::Owned(owned) => owned.as_str(),
    }
}

/// The text of one attribute in a tag: a space, the name, and the escaped
/// value in double quotes.
pub open spec fn attribute_text(name: Seq<char>, value: Seq<char>) -> Seq<char> {
    " "@ + name + "=\""@ + attribute_escaped(value) + "\""@
}

/// The text of the attributes of a tag, in their order.
pub open spec fn attributes_text(attributes: Seq<(Seq<char>, Seq<char>)>) -> Seq<char>
    decreases attributes.len(),
{
    if attributes.len() == 0 {
        Seq::empty()
    } else {
        attributes_text(attributes.drop_last()) + attribute_text(
            attributes.last().0,
            attributes.last().1,
        )
    }
}

/// `<tag attributes>`.
pub open spec fn start_tag_text(
    tag: Seq<char>,
    attributes: Seq<(Seq<char>, Seq<char>)>,
) -> Seq<char> {
    "<"@ + tag + attributes_text(attributes) + ">"@
}

/// `</tag>`.
pub open spec fn end_tag_text(tag: Seq<char>) -> Seq<char> {
    "</"@ + tag + ">"@
}

/// `<tag attributes/>`.
pub open spec fn empty_tag_text(
    tag: Seq<char>,
    attributes: Seq<(Seq<char>, Seq<char>)>,
) -> Seq<char> {
    "<"@ + tag + attributes_text(attributes) + "/>"@
}

/// `<tag attributes>data</tag>`, the data escaped as element text.
pub open spec fn data_element_text(
    tag: Seq<char>,
    data: Seq<char>,
    attributes: Seq<(Seq<char>, Seq<char>)>,
) -> Seq<char> {
    "<"@ + tag + attributes_text(attributes) + ">"@ + xml_data_escaped(data) + "</"@ + tag + ">"@
}

/// A value that can be written as an attribute of a tag.
pub trait IntoAttribute {
    /// The attribute's name.
    spec fn name(&self) -> Seq<char>;

    /// The attribute's value, before escaping.
    spec fn value(&self) -> Seq<char>;

    /// Appends the attribute to the text of a tag.
    fn write_to(&self, xmlfile: &mut String)
        ensures
            final(xmlfile)@ == old(xmlfile)@ + attribute_text(self.name(), self.value()),
    ;
}

/// Appends ` name="value"` to `xmlfile`, the value escaped.
pub fn write_attribute(xmlfile: &mut String, name: &str, value: &str)
    ensures
        final(xmlfile)@ == old(xmlfile)@ + attribute_text(name@, value@),
{
    let escaped = escape_attributes(value);
    xmlfile.append(" ");
    xmlfile.append(name);
    xmlfile.append("=\"");
    xmlfile.append(cow_str(&escaped));
    xmlfile.append("\"");
    assert(xmlfile@ =~= old(xmlfile)@ + attribute_text(name@, value@));
}

impl IntoAttribute for (&str, &str) {
    open spec fn name(&self) -> Seq<char> {
        self.0@
    }

    open spec fn value(&self) -> Seq<char> {
        self.1@
    }

    fn write_to(&self, xmlfile: &mut String) {
        write_attribute(xmlfile, self.0, self.1);
    }
}

impl IntoAttribute for (&str, String) {
    open spec fn name(&self) -> Seq<char> {
        self.0@
    }

    open spec fn value(&self) -> Seq<char> {
        self.1@
    }

    fn write_to(&self, xmlfile: &mut String) {
        write_attribute(xmlfile, self.0, self.1.as_str());
    }
}

/// The names and values of a list of attributes.
pub open spec fn attributes_view<T: IntoAttribute>(
    attributes: Seq<T>,
) -> Seq<(Seq<char>, Seq<char>)> {
    Seq::new(attributes.len(), |i: int| (attributes[i].name(), attributes[i].value()))
}

/// Appends the attributes to the text of a tag, in their order.
pub fn write_attributes<T: IntoAttribute>(xmlfile: &mut String, attributes: &[T])
    ensures
        final(xmlfile)@ == old(xmlfile)@ + attributes_text(attributes_view(attributes@)),
{
    let mut i: usize = 0;
    while i < attributes.len()
        invariant
            i <= attributes@.len(),
            xmlfile@ == old(xmlfile)@ + attributes_text(attributes_view(attributes@.take(i as int))),
        decreases attributes@.len() - i,
    {
        attributes[i].write_to(xmlfile);
        proof {
            let done = attributes_view(attributes@.take(i as int));
            let next = attributes_view(attributes@.take(i + 1));
            assert(next.drop_last() =~= done);
            assert(next.last() == (attributes@[i as int].name(), attributes@[i as int].value()));
            assert(xmlfile@ =~= old(xmlfile)@ + attributes_text(next));
        }
        i += 1;
    }
    assert(attributes@.take(i as int) =~= attributes@);
}

/// Text written after text is their concatenation written at once.
pub proof fn lemma_written(start: Seq<char>, written: Seq<char>, next: Seq<char>)
    ensures
        (start + written) + next == start + (written + next),
{
    assert((start + written) + next =~= start + (written + next));
}

/// Text that is written only where `written_now` holds.
pub open spec fn text_if(written_now: bool, text: Seq<char>) -> Seq<char> {
    if written_now {
        text
    } else {
        Seq::empty()
    }
}

/// What is written once `next` follows `written`. Text written after text
/// is their concatenation written at once.
pub proof fn written_then(start: Seq<char>, written: Seq<char>, next: Seq<char>) -> (all: Seq<char>)
    ensures
        all == written + next,
        (start + written) + next == start + all,
{
    lemma_written(start, written, next);
    written + next
}

/// What is written once `next` follows `written`, or is left out.
pub proof fn written_then_if(
    start: Seq<char>,
    written: Seq<char>,
    now: Seq<char>,
    written_now: bool,
    next: Seq<char>,
) -> (all: Seq<char>)
    requires
        written_now ==> now == (start + written) + next,
        !written_now ==> now == start + written,
    ensures
        all == written + text_if(written_now, next),
        now == start + all,
{
    assert(now =~= start + (written + text_if(written_now, next)));
    written + text_if(written_now, next)
}

/// The attributes and one more, where `added` holds.
pub open spec fn attribute_if(
    attributes: Seq<(Seq<char>, Seq<char>)>,
    added: bool,
    name: Seq<char>,
    value: Seq<char>,
) -> Seq<(Seq<char>, Seq<char>)> {
    if added {
        attributes.push((name, value))
    } else {
        attributes
    }
}

/// Adds an attribute to a list of attributes.
pub fn push_attribute(attributes: &mut Vec<(&'static str, String)>, name: &'static str, value: String)
    ensures
        attributes_view(final(attributes)@) == attributes_view(old(attributes)@).push((name@, value@)),
{
    attributes.push((name, value));
    assert(attributes_view(attributes@) =~= attributes_view(old(attributes)@).push((name@, value@)));
}

/// The declaration that every XML part starts with.
pub open spec fn declaration_text() -> Seq<char> {
    "<?xml version=\"1.0\" encoding=\"UTF-8\" standalone=\"yes\"?>\n"@
}

/// The pattern of the escapes that element text uses for control characters:
/// `_x`, four hexadecimal digits and `_`.
pub open spec fn marker_pattern() -> Seq<char> {
    "(_x[0-9a-fA-F]{4}_)"@
}

/// What replaces such an escape where it occurs in a string literally: the
/// escape of its leading underscore, followed by the match.
pub open spec fn marker_replacement() -> Seq<char> {
    "_x005F$1"@
}

/// `text` with every literal occurrence of a control-character escape marked,
/// so that a reader does not take it for an escape. The occurrences are found
/// and replaced by the regex crate; were the pattern one that it does not
/// compile, the text would stay as it is.
pub open spec fn markers_escaped(text: Seq<char>) -> Seq<char> {
    if regex_compiles(marker_pattern()) {
        regex_replace_all(marker_pattern(), text, marker_replacement())
    } else {
        text
    }
}

/// The shared-string element for text in which literal escapes are marked
/// already: `<si><t>text</t></si>`, with `xml:space="preserve"` on `t` where
/// white space at the ends must be kept.
pub open spec fn si_element_text(marked: Seq<char>, preserve_whitespace: bool) -> Seq<char> {
    if preserve_whitespace {
        "<si><t xml:space=\"preserve\">"@ + xml_data_escaped(marked) + "</t></si>"@
    } else {
        "<si><t>"@ + xml_data_escaped(marked) + "</t></si>"@
    }
}

/// Marks the literal occurrences of `_xHHHH_` in a string by the escape of
/// their leading underscore, so `_x0000_` becomes `_x005F_x0000_`.
pub fn escape_xml_escapes(si_string: &str) -> (marked: String)
    ensures
        marked@ == markers_escaped(si_string@),
{
    match replace_all_matches("(_x[0-9a-fA-F]{4}_)", si_string, "_x005F$1") {
        Some(replaced) => replaced,
        None => si_string.to_owned(),
    }
}

/// The text of one XML part, as written so far.
pub struct XMLWriter {
    pub xmlfile: String,
}

impl Clone for XMLWriter {
    fn clone(&self) -> (writer: XMLWriter)
        ensures
            writer == *self,
    {
        XMLWriter { xmlfile: self.xmlfile.clone() }
    }
}

impl View for XMLWriter {
    type V = Seq<char>;

    open spec fn view(&self) -> Seq<char> {
        self.xmlfile@
    }
}

impl Default for XMLWriter {
    fn default() -> (writer: Self)
        ensures
            writer@ == Seq::<char>::empty(),
    {
        Self::new()
    }
}

impl XMLWriter {
    /// A writer that holds no text.
    pub fn new() -> (writer: XMLWriter)
        ensures
            writer@ == Seq::<char>::empty(),
    {
        XMLWriter { xmlfile: String::new() }
    }

    /// The text written so far.
    pub fn read_to_str(&mut self) -> (text: &str)
        ensures
            text@ == old(self)@,
            final(self)@ == old(self)@,
    {
        self.xmlfile.as_str()
    }

    /// A copy of the text written so far.
    pub fn read_to_string(&mut self) -> (text: String)
        ensures
            text@ == old(self)@,
            final(self)@ == old(self)@,
    {
        self.xmlfile.clone()
    }

    /// Empties the writer for the next part.
    pub fn reset(&mut self)
        ensures
            final(self)@ == Seq::<char>::empty(),
    {
        self.xmlfile.clear();
    }

    /// Writes the XML declaration.
    pub fn xml_declaration(&mut self)
        ensures
            final(self)@ == old(self)@ + declaration_text(),
    {
        self.xmlfile.append("<?xml version=\"1.0\" encoding=\"UTF-8\" standalone=\"yes\"?>\n");
    }

    /// Writes a start tag without attributes.
    pub fn xml_start_tag_only(&mut self, tag: &str)
        ensures
            final(self)@ == old(self)@ + start_tag_text(tag@, Seq::empty()),
    {
        self.xmlfile.append("<");
        self.xmlfile.append(tag);
        self.xmlfile.append(">");
        assert(self@ =~= old(self)@ + start_tag_text(tag@, Seq::empty()));
    }

    /// Writes a start tag with attributes.
    pub fn xml_start_tag<T>(&mut self, tag: &str, attributes: &[T]) where T: IntoAttribute
        ensures
            final(self)@ == old(self)@ + start_tag_text(tag@, attributes_view(attributes@)),
    {
        self.xmlfile.append("<");
        self.xmlfile.append(tag);
        write_attributes(&mut self.xmlfile, attributes);
        self.xmlfile.append(">");
        assert(self@ =~= old(self)@ + start_tag_text(tag@, attributes_view(attributes@)));
    }

    /// Writes an end tag.
    pub fn xml_end_tag(&mut self, tag: &str)
        ensures
            final(self)@ == old(self)@ + end_tag_text(tag@),
    {
        self.xmlfile.append("</");
        self.xmlfile.append(tag);
        self.xmlfile.append(">");
        assert(self@ =~= old(self)@ + end_tag_text(tag@));
    }

    /// Writes an empty tag without attributes.
    pub fn xml_empty_tag_only(&mut self, tag: &str)
        ensures
            final(self)@ == old(self)@ + empty_tag_text(tag@, Seq::empty()),
    {
        self.xmlfile.append("<");
        self.xmlfile.append(tag);
        self.xmlfile.append("/>");
        assert(self@ =~= old(self)@ + empty_tag_text(tag@, Seq::empty()));
    }

    /// Writes an empty tag with attributes.
    pub fn xml_empty_tag<T>(&mut self, tag: &str, attributes: &[T]) where T: IntoAttribute
        ensures
            final(self)@ == old(self)@ + empty_tag_text(tag@, attributes_view(attributes@)),
    {
        self.xmlfile.append("<");
        self.xmlfile.append(tag);
        write_attributes(&mut self.xmlfile, attributes);
        self.xmlfile.append("/>");
        assert(self@ =~= old(self)@ + empty_tag_text(tag@, attributes_view(attributes@)));
    }

    /// Writes an element that holds data, without attributes.
    pub fn xml_data_element_only(&mut self, tag: &str, data: &str)
        ensures
            final(self)@ == old(self)@ + data_element_text(tag@, data@, Seq::empty()),
    {
        let escaped = escape_xml_data(data);
        self.xmlfile.append("<");
        self.xmlfile.append(tag);
        self.xmlfile.append(">");
        self.xmlfile.append(cow_str(&escaped));
        self.xmlfile.append("</");
        self.xmlfile.append(tag);
        self.xmlfile.append(">");
        assert(self@ =~= old(self)@ + data_element_text(tag@, data@, Seq::empty()));
    }

    /// Writes an element that holds data, with attributes.
    pub fn xml_data_element<T>(&mut self, tag: &str, data: &str, attributes: &[T]) where
        T: IntoAttribute,

        ensures
            final(self)@ == old(self)@ + data_element_text(
                tag@,
                data@,
                attributes_view(attributes@),
            ),
    {
        let escaped = escape_xml_data(data);
        self.xmlfile.append("<");
        self.xmlfile.append(tag);
        write_attributes(&mut self.xmlfile, attributes);
        self.xmlfile.append(">");
        self.xmlfile.append(cow_str(&escaped));
        self.xmlfile.append("</");
        self.xmlfile.append(tag);
        self.xmlfile.append(">");
        assert(self@ =~= old(self)@ + data_element_text(tag@, data@, attributes_view(attributes@)));
    }

    /// Writes the shared-string element for text in which literal escapes are
    /// marked already.
    pub fn xml_si_element_marked(&mut self, marked: &str, preserve_whitespace: bool)
        ensures
            final(self)@ == old(self)@ + si_element_text(marked@, preserve_whitespace),
    {
        let escaped = escape_xml_data(marked);
        if preserve_whitespace {
            self.xmlfile.append("<si><t xml:space=\"preserve\">");
        } else {
            self.xmlfile.append("<si><t>");
        }
        self.xmlfile.append(cow_str(&escaped));
        self.xmlfile.append("</t></si>");
        assert(self@ =~= old(self)@ + si_element_text(marked@, preserve_whitespace));
    }

    /// Writes the shared-string element of a string: literal escapes in it
    /// are marked, then it is escaped as element text.
    pub fn xml_si_element(&mut self, string: &str, preserve_whitespace: bool)
        ensures
            final(self)@ == old(self)@ + si_element_text(
                markers_escaped(string@),
                preserve_whitespace,
            ),
    {
        let marked = escape_xml_escapes(string);
        self.xml_si_element_marked(marked.as_str(), preserve_whitespace);
    }

    /// Writes the shared-string element of a rich string, whose runs are
    /// written already.
    pub fn xml_rich_si_element(&mut self, string: &str)
        ensures
            final(self)@ == old(self)@ + "<si>"@ + string@ + "</si>"@,
    {
        self.xmlfile.append("<si>");
        self.xmlfile.append(string);
        self.xmlfile.append("</si>");
    }

    /// Writes the theme, which is given as text, and ends the line.
    pub fn write_theme(&mut self, theme: &str)
        ensures
            final(self)@ == old(self)@ + theme@ + "\n"@,
    {
        self.xmlfile.append(theme);
        self.xmlfile.append("\n");
    }
}

} // verus!
