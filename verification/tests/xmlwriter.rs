use std::borrow::Cow;

use rust_xlsxwriter::escape::{escape_attributes, escape_url, escape_xml_data};
use rust_xlsxwriter::xmlwriter::{escape_xml_escapes, XMLWriter};

#[test]
fn test_xml_declaration() {
    let expected = "<?xml version=\"1.0\" encoding=\"UTF-8\" standalone=\"yes\"?>\n";

    let mut writer = XMLWriter::default();
    writer.xml_declaration();

    let got = writer.read_to_str();
    assert_eq!(expected, got);
}

#[test]
fn test_xml_start_tag_without_attributes() {
    let expected = "<foo>";

    let mut writer = XMLWriter::new();
    writer.xml_start_tag_only("foo");

    let got = writer.read_to_str();
    assert_eq!(expected, got);
}

#[test]
fn test_xml_start_tag_without_attributes_implicit() {
    let expected = "<foo>";
    let attributes: Vec<(&str, &str)> = vec![];

    let mut writer = XMLWriter::new();
    writer.xml_start_tag("foo", &attributes);

    let got = writer.read_to_str();
    assert_eq!(expected, got);
}

#[test]
fn test_xml_start_tag_with_attributes() {
    let expected = r#"<foo span="8" baz="7">"#;
    let attributes = vec![("span", "8"), ("baz", "7")];

    let mut writer = XMLWriter::new();
    writer.xml_start_tag("foo", &attributes);

    let got = writer.read_to_str();
    assert_eq!(expected, got);
}

#[test]
fn test_xml_end_tag() {
    let expected = "</foo>";

    let mut writer = XMLWriter::new();

    writer.xml_end_tag("foo");

    let got = writer.read_to_str();
    assert_eq!(expected, got);
}

#[test]
fn test_xml_empty_tag() {
    let expected = "<foo/>";

    let mut writer = XMLWriter::new();

    writer.xml_empty_tag_only("foo");

    let got = writer.read_to_str();
    assert_eq!(expected, got);
}

#[test]
fn test_xml_empty_tag_with_attributes() {
    let expected = r#"<foo span="8"/>"#;
    let attributes = [("span", "8")];

    let mut writer = XMLWriter::new();

    writer.xml_empty_tag("foo", &attributes);

    let got = writer.read_to_str();
    assert_eq!(expected, got);
}

#[test]
fn test_xml_data_element() {
    let expected = r#"<foo>bar</foo>"#;

    let mut writer = XMLWriter::new();
    writer.xml_data_element_only("foo", "bar");

    let got = writer.read_to_str();
    assert_eq!(expected, got);
}

#[test]
fn test_xml_data_element_with_attributes() {
    let expected = r#"<foo span="8">bar</foo>"#;
    let attributes = [("span", "8")];

    let mut writer = XMLWriter::new();
    writer.xml_data_element("foo", "bar", &attributes);

    let got = writer.read_to_str();
    assert_eq!(expected, got);
}

#[test]
fn test_xml_data_element_with_escapes() {
    let expected = r#"<foo span="8">&amp;&lt;&gt;"</foo>"#;
    let attributes = vec![("span", "8")];

    let mut writer = XMLWriter::new();
    writer.xml_data_element("foo", "&<>\"", &attributes);

    let got = writer.read_to_str();
    assert_eq!(expected, got);
}

#[test]
fn test_xml_data_element_with_escapes_non_ascii() {
    let expected = r#"<foo span="8" text="Ы&amp;&lt;&gt;&quot;&#xA;">Ы&amp;&lt;&gt;"</foo>"#;
    let attributes = vec![("span", "8"), ("text", "Ы&<>\"\n")];

    let mut writer = XMLWriter::new();
    writer.xml_data_element("foo", "Ы&<>\"", &attributes);

    let got = writer.read_to_str();
    assert_eq!(expected, got);
}

#[test]
fn test_xml_si_element() {
    let expected = "<si><t>foo</t></si>";

    let mut writer = XMLWriter::new();
    writer.xml_si_element("foo", false);

    let got = writer.read_to_str();
    assert_eq!(expected, got);
}

#[test]
fn test_xml_si_element_whitespace() {
    let expected = r#"<si><t xml:space="preserve">    foo</t></si>"#;

    let mut writer = XMLWriter::new();
    writer.xml_si_element("    foo", true);

    let got = writer.read_to_str();
    assert_eq!(expected, got);
}

#[test]
fn data_element_escapes_control_characters() {
    let mut writer = XMLWriter::new();
    writer.xml_data_element_only("t", "A&B<C>D\x01");
    assert_eq!("<t>A&amp;B&lt;C&gt;D_x0001_</t>", writer.read_to_str());
}

#[test]
fn si_element_marks_literal_escapes() {
    let mut writer = XMLWriter::new();
    writer.xml_si_element("_x0041_", false);
    assert_eq!("<si><t>_x005F_x0041_</t></si>", writer.read_to_str());
}

#[test]
fn literal_escapes_are_marked_wherever_they_stand() {
    assert_eq!("_x005F_x0000_", escape_xml_escapes("_x0000_"));
    assert_eq!("a_x005F_x00aF_b_x005F_xFFFF_", escape_xml_escapes("a_x00aF_b_xFFFF_"));
    assert_eq!("_x00G0_", escape_xml_escapes("_x00G0_"));
    assert_eq!("_x000_", escape_xml_escapes("_x000_"));
    assert_eq!("plain", escape_xml_escapes("plain"));
    assert_eq!("", escape_xml_escapes(""));
}

#[test]
fn si_element_written_from_marked_text() {
    let mut writer = XMLWriter::new();
    writer.xml_si_element_marked("_x005F_x0041_ & more", true);
    assert_eq!(
        "<si><t xml:space=\"preserve\">_x005F_x0041_ &amp; more</t></si>",
        writer.read_to_str()
    );
}

#[test]
fn data_escapes_every_control_character_but_tab_and_newline() {
    for code in 0u32..0x20 {
        let ch = char::from_u32(code).unwrap();
        let escaped = escape_xml_data(&ch.to_string()).into_owned();
        if code == 0x09 || code == 0x0A {
            assert_eq!(ch.to_string(), escaped);
        } else {
            assert_eq!(format!("_x{:04X}_", code), escaped);
        }
    }
    assert_eq!(" ", escape_xml_data(" "));
    assert_eq!("\"\n\t", escape_xml_data("\"\n\t"));
    assert_eq!("\u{7f}", escape_xml_data("\u{7f}"));
}

#[test]
fn attribute_escapes_quotes_and_newlines() {
    assert_eq!("&amp;&quot;&lt;&gt;&#xA;", escape_attributes("&\"<>\n"));
    assert_eq!("a\x01b\t", escape_attributes("a\x01b\t"));
    assert_eq!("", escape_attributes(""));
}

#[test]
fn url_escapes_its_fixed_set() {
    assert_eq!(
        "%25%22%20%3c%3e%5b%5d%5e%60%7b%7d",
        escape_url("%\" <>[]^`{}")
    );
    assert_eq!("http://a.b/c?d=e&f", escape_url("http://a.b/c?d=e&f"));
}

#[test]
fn unescaped_text_is_borrowed() {
    assert!(matches!(
        escape_xml_data("nothing to do"),
        Cow::Borrowed(_)
    ));
    assert!(matches!(
        escape_xml_data("a<b"),
        Cow::Owned(_)
    ));
}

#[test]
fn reset_empties_the_writer() {
    let mut writer = XMLWriter::new();
    writer.xml_start_tag_only("a");
    writer.reset();
    assert_eq!("", writer.read_to_str());
    writer.xml_end_tag("a");
    assert_eq!("</a>", writer.read_to_string());
}

#[test]
fn rich_si_element_and_theme_are_written_as_given() {
    let mut writer = XMLWriter::new();
    writer.xml_rich_si_element("<r><t>a&b</t></r>");
    assert_eq!("<si><r><t>a&b</t></r></si>", writer.read_to_str());
    writer.reset();
    writer.write_theme("<a:theme/>");
    assert_eq!("<a:theme/>\n", writer.read_to_str());
}

#[test]
fn attributes_with_owned_values() {
    let attributes = vec![("a", String::from("1")), ("b", String::from("x\"y"))];
    let mut writer = XMLWriter::new();
    writer.xml_empty_tag("t", &attributes);
    assert_eq!(r#"<t a="1" b="x&quot;y"/>"#, writer.read_to_str());
}

#[test]
fn escaped_text_cannot_break_the_markup() {
    let all: String = (0u32..0x250).filter_map(char::from_u32).collect();
    let data = escape_xml_data(&all);
    assert!(!data.contains('<') && !data.contains('>'));
    assert!(data
        .chars()
        .all(|ch| ch as u32 >= 0x20 || ch == '\t' || ch == '\n'));
    let attribute = escape_attributes(&all);
    assert!(!attribute.contains('"') && !attribute.contains('<'));
    assert!(!attribute.contains('>') && !attribute.contains('\n'));
}

#[test]
fn escaping_with_a_handler_of_ones_own() {
    fn stars(ch: char) -> Option<&'static str> {
        if ch == '*' {
            Some("<star>")
        } else {
            None
        }
    }
    assert_eq!(
        "a<star>b<star><star>",
        rust_xlsxwriter::escape::escape_string("a*b**", stars)
    );
    assert_eq!("", rust_xlsxwriter::escape::escape_string("", stars));
    assert_eq!(
        Some("&quot;"),
        rust_xlsxwriter::escape::match_attribute_html_char('"')
    );
    assert_eq!(None, rust_xlsxwriter::escape::match_xml_char('"'));
    assert_eq!(Some("_x001F_"), rust_xlsxwriter::escape::match_xml_char('\x1f'));
    assert_eq!(Some("%7d"), rust_xlsxwriter::escape::match_url_char('}'));
    assert_eq!(None, rust_xlsxwriter::escape::match_url_char('a'));
}

#[test]
fn each_escape_borrows_exactly_what_it_leaves_alone() {
    assert!(matches!(escape_attributes("a b\tc\u{1}"), Cow::Borrowed("a b\tc\u{1}")));
    assert!(matches!(escape_attributes("a\nb"), Cow::Owned(_)));
    assert!(matches!(escape_attributes("\""), Cow::Owned(_)));
    assert!(matches!(escape_attributes(""), Cow::Borrowed("")));

    assert!(matches!(escape_xml_data("a\"b\n\tc"), Cow::Borrowed("a\"b\n\tc")));
    assert!(matches!(escape_xml_data("a\u{1}"), Cow::Owned(_)));
    assert!(matches!(escape_xml_data("Ы"), Cow::Borrowed("Ы")));
    assert!(matches!(escape_xml_data("Ы&"), Cow::Owned(_)));

    assert!(matches!(escape_url("a&b\n"), Cow::Borrowed("a&b\n")));
    assert!(matches!(escape_url("a b"), Cow::Owned(_)));

    fn last_only(ch: char) -> Option<&'static str> {
        if ch == 'z' {
            Some("")
        } else {
            None
        }
    }
    let escape_string = rust_xlsxwriter::escape::escape_string::<fn(char) -> Option<&'static str>>;
    assert!(matches!(escape_string("abc", last_only), Cow::Borrowed("abc")));
    // A replacement by the empty text is a replacement: the result is owned.
    match escape_string("abz", last_only) {
        Cow::Owned(text) => assert_eq!("ab", text),
        Cow::Borrowed(_) => panic!("a replaced character must give an owned string"),
    }
}
