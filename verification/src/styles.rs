//! The part of an xlsx file that holds the styles, `xl/styles.xml`: the
//! number formats, fonts, fills and borders, and the styles that refer to
//! them, each list in the order of the style table.

use vstd::prelude::*;
use vstd::string::*;
use crate::format::{Format, XlsxAlign, XlsxColor, XlsxScript, XlsxUnderline};
use crate::style_table::{
    StylePools, StyleTable, find_key, keys_view, lemma_pool_index, pool_index,
};
use crate::text::{decimal, decimal_string};
use crate::xmlwriter::{
    XMLWriter, attribute_if, attributes_view, declaration_text, empty_tag_text, end_tag_text,
    lemma_written, push_attribute, start_tag_text, text_if, written_then, written_then_if,
};

verus! {

/// `<tag val="value"/>`.
pub open spec fn val_tag_text(tag: Seq<char>, value: Seq<char>) -> Seq<char> {
    empty_tag_text(tag, seq![("val"@, value)])
}

/// `<tag/>`.
pub open spec fn flag_tag_text(tag: Seq<char>) -> Seq<char> {
    empty_tag_text(tag, Seq::empty())
}

/// A color as the file holds it: opaque, in hexadecimal.
pub open spec fn argb_text(color: XlsxColor) -> Seq<char> {
    "FF"@ + color.hex_text()
}

/// The underline of a font. A single underline is the element without a
/// value; no underline is no element.
pub open spec fn underline_text(underline: XlsxUnderline) -> Seq<char> {
    match underline {
        XlsxUnderline::NoUnderline => Seq::empty(),
        XlsxUnderline::Single => flag_tag_text("u"@),
        XlsxUnderline::Double => val_tag_text("u"@, "double"@),
        XlsxUnderline::SingleAccounting => val_tag_text("u"@, "singleAccounting"@),
        XlsxUnderline::DoubleAccounting => val_tag_text("u"@, "doubleAccounting"@),
    }
}

/// Whether a font is raised or lowered; neither is no element.
pub open spec fn vert_align_text(script: XlsxScript) -> Seq<char> {
    match script {
        XlsxScript::NoScript => Seq::empty(),
        XlsxScript::Superscript => val_tag_text("vertAlign"@, "superscript"@),
        XlsxScript::Subscript => val_tag_text("vertAlign"@, "subscript"@),
    }
}

/// The color of a font: the automatic color is the first color of the theme.
pub open spec fn font_color_text(color: XlsxColor) -> Seq<char> {
    if color == XlsxColor::Automatic {
        empty_tag_text("color"@, seq![("theme"@, "1"@)])
    } else {
        empty_tag_text("color"@, seq![("rgb"@, argb_text(color))])
    }
}

/// The scheme of a font: the one that is set, or `minor` for Calibri, the
/// font of the theme; no element for another font without a scheme.
pub open spec fn font_scheme_text(format: Format) -> Seq<char> {
    if format.font_scheme@.len() != 0 {
        val_tag_text("scheme"@, format.font_scheme@)
    } else if format.font_name@ == "Calibri"@ {
        val_tag_text("scheme"@, "minor"@)
    } else {
        Seq::empty()
    }
}

/// One font.
pub open spec fn font_text(format: Format) -> Seq<char> {
    start_tag_text("font"@, Seq::empty()) + text_if(format.bold, flag_tag_text("b"@)) + text_if(
        format.italic,
        flag_tag_text("i"@),
    ) + text_if(format.font_strikeout, flag_tag_text("strike"@)) + underline_text(format.underline)
        + vert_align_text(format.font_script) + val_tag_text("sz"@, format.font_size@)
        + font_color_text(format.font_color) + val_tag_text("name"@, format.font_name@)
        + val_tag_text("family"@, decimal(format.font_family as nat)) + text_if(
        format.font_charset > 0,
        val_tag_text("charset"@, decimal(format.font_charset as nat)),
    ) + font_scheme_text(format) + end_tag_text("font"@)
}

/// The fonts, one after the other.
pub open spec fn font_list_text(fonts: Seq<Format>) -> Seq<char>
    decreases fonts.len(),
{
    if fonts.len() == 0 {
        Seq::empty()
    } else {
        font_list_text(fonts.drop_last()) + font_text(fonts.last())
    }
}

/// The list of the fonts, with their number.
pub open spec fn fonts_text(fonts: Seq<Format>) -> Seq<char> {
    start_tag_text("fonts"@, seq![("count"@, decimal(fonts.len()))]) + font_list_text(fonts)
        + end_tag_text("fonts"@)
}

/// A fill that is a pattern without colors of its own.
pub open spec fn plain_fill_text(pattern: Seq<char>) -> Seq<char> {
    start_tag_text("fill"@, Seq::empty()) + empty_tag_text(
        "patternFill"@,
        seq![("patternType"@, pattern)],
    ) + end_tag_text("fill"@)
}

/// The background color of a fill: where none is set, the one of the system.
pub open spec fn background_color_text(color: XlsxColor) -> Seq<char> {
    if color == XlsxColor::Automatic {
        empty_tag_text("bgColor"@, seq![("indexed"@, "64"@)])
    } else {
        empty_tag_text("bgColor"@, seq![("rgb"@, argb_text(color))])
    }
}

/// Whether a fill has no colors of its own.
pub open spec fn is_plain_fill(format: Format) -> bool {
    format.background_color == XlsxColor::Automatic && format.foreground_color
        == XlsxColor::Automatic
}

/// A fill with a color: the pattern, the foreground color where one is set,
/// and the background color.
pub open spec fn colored_fill_text(format: Format) -> Seq<char> {
    start_tag_text("fill"@, Seq::empty()) + start_tag_text(
        "patternFill"@,
        seq![("patternType"@, format.pattern.name())],
    ) + text_if(
        format.foreground_color != XlsxColor::Automatic,
        empty_tag_text("fgColor"@, seq![("rgb"@, argb_text(format.foreground_color))]),
    ) + background_color_text(format.background_color) + end_tag_text("patternFill"@)
        + end_tag_text("fill"@)
}

/// One fill.
pub open spec fn fill_text(format: Format) -> Seq<char> {
    if is_plain_fill(format) {
        plain_fill_text(format.pattern.name())
    } else {
        colored_fill_text(format)
    }
}

/// The fills, one after the other.
pub open spec fn fill_list_text(fills: Seq<Format>) -> Seq<char>
    decreases fills.len(),
{
    if fills.len() == 0 {
        Seq::empty()
    } else {
        fill_list_text(fills.drop_last()) + fill_text(fills.last())
    }
}

/// The list of the fills, with their number.
pub open spec fn fills_text(fills: Seq<Format>) -> Seq<char> {
    start_tag_text("fills"@, seq![("count"@, decimal(fills.len()))]) + fill_list_text(fills)
        + end_tag_text("fills"@)
}

/// The only border that the part lists: one without lines.
pub open spec fn border_text() -> Seq<char> {
    start_tag_text("border"@, Seq::empty()) + flag_tag_text("left"@) + flag_tag_text("right"@)
        + flag_tag_text("top"@) + flag_tag_text("bottom"@) + flag_tag_text("diagonal"@)
        + end_tag_text("border"@)
}

/// The list of the borders.
pub open spec fn borders_text() -> Seq<char> {
    start_tag_text("borders"@, seq![("count"@, "1"@)]) + border_text() + end_tag_text("borders"@)
}

/// The format that named styles start from.
pub open spec fn style_xf_text() -> Seq<char> {
    empty_tag_text(
        "xf"@,
        seq![("numFmtId"@, "0"@), ("fontId"@, "0"@), ("fillId"@, "0"@), ("borderId"@, "0"@)],
    )
}

/// The list of the formats of the named styles.
pub open spec fn cell_style_xfs_text() -> Seq<char> {
    start_tag_text("cellStyleXfs"@, seq![("count"@, "1"@)]) + style_xf_text() + end_tag_text(
        "cellStyleXfs"@,
    )
}

/// The only named style, `Normal`.
pub open spec fn cell_style_text() -> Seq<char> {
    empty_tag_text("cellStyle"@, seq![("name"@, "Normal"@), ("xfId"@, "0"@), ("builtinId"@, "0"@)])
}

/// The list of the named styles.
pub open spec fn cell_styles_text() -> Seq<char> {
    start_tag_text("cellStyles"@, seq![("count"@, "1"@)]) + cell_style_text() + end_tag_text(
        "cellStyles"@,
    )
}

/// The list of the formats of conditional formatting, which is empty.
pub open spec fn dxfs_text() -> Seq<char> {
    empty_tag_text("dxfs"@, seq![("count"@, "0"@)])
}

/// The list of the styles of tables, which is empty, and the defaults.
pub open spec fn table_styles_text() -> Seq<char> {
    empty_tag_text(
        "tableStyles"@,
        seq![
            ("count"@, "0"@),
            ("defaultTableStyle"@, "TableStyleMedium9"@),
            ("defaultPivotStyle"@, "PivotStyleLight16"@),
        ],
    )
}

/// The start tag of the part, with its namespace.
pub open spec fn style_sheet_text() -> Seq<char> {
    start_tag_text(
        "styleSheet"@,
        seq![("xmlns"@, "http://schemas.openxmlformats.org/spreadsheetml/2006/main"@)],
    )
}

/// The name of a horizontal alignment in the file; `General` and the
/// vertical alignments have none.
pub open spec fn horizontal_name(align: XlsxAlign) -> Option<Seq<char>> {
    match align {
        XlsxAlign::Center => Some("center"@),
        XlsxAlign::CenterAcross => Some("centerContinuous"@),
        XlsxAlign::Distributed => Some("distributed"@),
        XlsxAlign::Fill => Some("fill"@),
        XlsxAlign::Justify => Some("justify"@),
        XlsxAlign::Left => Some("left"@),
        XlsxAlign::Right => Some("right"@),
        _ => None,
    }
}

/// The name of a vertical alignment in the file. `Bottom`, which is how cells
/// are aligned anyway, has none, nor have `General` and the horizontal
/// alignments.
pub open spec fn vertical_name(align: XlsxAlign) -> Option<Seq<char>> {
    match align {
        XlsxAlign::VerticalCenter => Some("center"@),
        XlsxAlign::VerticalDistributed => Some("distributed"@),
        XlsxAlign::VerticalJustify => Some("justify"@),
        XlsxAlign::Top => Some("top"@),
        _ => None,
    }
}

/// The name, or the empty text where there is none.
pub open spec fn name_or_empty(name: Option<Seq<char>>) -> Seq<char> {
    match name {
        Some(name) => name,
        None => Seq::empty(),
    }
}

/// The attributes of the alignment of a format: each property that is not
/// at its default, in a fixed order.
pub open spec fn alignment_attributes(format: Format) -> Seq<(Seq<char>, Seq<char>)> {
    let listed = Seq::empty();
    let listed = attribute_if(
        listed,
        horizontal_name(format.horizontal_align) is Some,
        "horizontal"@,
        name_or_empty(horizontal_name(format.horizontal_align)),
    );
    let listed = attribute_if(
        listed,
        vertical_name(format.vertical_align) is Some,
        "vertical"@,
        name_or_empty(vertical_name(format.vertical_align)),
    );
    let listed = attribute_if(
        listed,
        format.indent != 0,
        "indent"@,
        decimal(format.indent as nat),
    );
    let listed = attribute_if(
        listed,
        format.rotation != 0,
        "textRotation"@,
        crate::text::signed_decimal(format.rotation as int),
    );
    let listed = attribute_if(listed, format.text_wrap, "wrapText"@, "1"@);
    let listed = attribute_if(listed, format.shrink, "shrinkToFit"@, "1"@);
    attribute_if(
        listed,
        format.reading_direction != 0,
        "readingOrder"@,
        decimal(format.reading_direction as nat),
    )
}

/// The alignment of a format.
pub open spec fn alignment_text(format: Format) -> Seq<char> {
    empty_tag_text("alignment"@, alignment_attributes(format))
}

/// Whether a format has a protection that is written out: it is hidden, or
/// it is not locked.
pub open spec fn has_protection(format: Format) -> bool {
    format.hidden || !format.locked
}

/// The protection of a format.
pub open spec fn protection_text(format: Format) -> Seq<char> {
    empty_tag_text(
        "protection"@,
        attribute_if(
            attribute_if(Seq::empty(), !format.locked, "locked"@, "0"@),
            format.hidden,
            "hidden"@,
            "1"@,
        ),
    )
}

/// The number formats that are given as format strings, each once, in the
/// order in which the styles first use them.
pub open spec fn custom_num_formats(styles: Seq<Format>) -> Seq<Seq<char>>
    decreases styles.len(),
{
    if styles.len() == 0 {
        Seq::empty()
    } else {
        let before = custom_num_formats(styles.drop_last());
        let code = styles.last().num_format@;
        if code.len() == 0 || pool_index(before, code) < before.len() {
            before
        } else {
            before.push(code)
        }
    }
}

/// The identifier of the number format of a format: the index of a built-in
/// one, or 164 and more for one given as a format string, by its place among
/// those.
pub open spec fn num_format_id(format: Format, custom: Seq<Seq<char>>) -> nat {
    if format.num_format@.len() == 0 {
        format.num_format_index as nat
    } else {
        (164 + pool_index(custom, format.num_format@)) as nat
    }
}

/// One number format that is given as a format string.
pub open spec fn num_fmt_text(id: nat, code: Seq<char>) -> Seq<char> {
    empty_tag_text("numFmt"@, seq![("numFmtId"@, decimal(id)), ("formatCode"@, code)])
}

/// The number formats given as format strings, one after the other; the
/// first has the identifier 164.
pub open spec fn num_fmt_list_text(custom: Seq<Seq<char>>) -> Seq<char>
    decreases custom.len(),
{
    if custom.len() == 0 {
        Seq::empty()
    } else {
        num_fmt_list_text(custom.drop_last()) + num_fmt_text(
            (163 + custom.len()) as nat,
            custom.last(),
        )
    }
}

/// The list of the number formats given as format strings, which is left out
/// where there is none.
pub open spec fn num_fmts_text(custom: Seq<Seq<char>>) -> Seq<char> {
    if custom.len() == 0 {
        Seq::empty()
    } else {
        start_tag_text("numFmts"@, seq![("count"@, decimal(custom.len()))]) + num_fmt_list_text(
            custom,
        ) + end_tag_text("numFmts"@)
    }
}

/// The attributes of a style: the identifiers of its number format, font,
/// fill and border, and a mark for each of number format, font, fill,
/// alignment and protection that the style applies.
pub open spec fn xf_attributes(format: Format, num_fmt_id: nat) -> Seq<(Seq<char>, Seq<char>)> {
    let listed = seq![
        ("numFmtId"@, decimal(num_fmt_id)),
        ("fontId"@, decimal(format.font_index as nat)),
        ("fillId"@, decimal(format.fill_index as nat)),
        ("borderId"@, "0"@),
        ("xfId"@, "0"@),
    ];
    let listed = attribute_if(listed, num_fmt_id > 0, "applyNumberFormat"@, "1"@);
    let listed = attribute_if(listed, format.has_font, "applyFont"@, "1"@);
    let listed = attribute_if(listed, format.has_fill, "applyFill"@, "1"@);
    let listed = attribute_if(listed, format.spec_apply_alignment(), "applyAlignment"@, "1"@);
    attribute_if(listed, has_protection(format), "applyProtection"@, "1"@)
}

/// One style. Its alignment and its protection are written inside it where
/// it has them; else the element is empty.
pub open spec fn cell_xf_text(format: Format, num_fmt_id: nat) -> Seq<char> {
    if format.spec_has_alignment() || has_protection(format) {
        start_tag_text("xf"@, xf_attributes(format, num_fmt_id)) + text_if(
            format.spec_has_alignment(),
            alignment_text(format),
        ) + text_if(has_protection(format), protection_text(format)) + end_tag_text("xf"@)
    } else {
        empty_tag_text("xf"@, xf_attributes(format, num_fmt_id))
    }
}

/// The styles, one after the other.
pub open spec fn cell_xf_list_text(styles: Seq<Format>, custom: Seq<Seq<char>>) -> Seq<char>
    decreases styles.len(),
{
    if styles.len() == 0 {
        Seq::empty()
    } else {
        cell_xf_list_text(styles.drop_last(), custom) + cell_xf_text(
            styles.last(),
            num_format_id(styles.last(), custom),
        )
    }
}

/// The list of the styles, with their number.
pub open spec fn cell_xfs_text(styles: Seq<Format>, custom: Seq<Seq<char>>) -> Seq<char> {
    start_tag_text("cellXfs"@, seq![("count"@, decimal(styles.len()))]) + cell_xf_list_text(
        styles,
        custom,
    ) + end_tag_text("cellXfs"@)
}

/// The whole part for the pools of a style table: the declaration, then the
/// number formats, the fonts, the fills, the borders, the formats of the
/// named styles, the styles, the named styles, the formats of conditional
/// formatting and the styles of tables.
pub open spec fn styles_text(pools: StylePools) -> Seq<char> {
    declaration_text() + style_sheet_text() + num_fmts_text(custom_num_formats(pools.styles))
        + fonts_text(pools.fonts) + fills_text(pools.fills) + borders_text() + cell_style_xfs_text()
        + cell_xfs_text(pools.styles, custom_num_formats(pools.styles)) + cell_styles_text()
        + dxfs_text() + table_styles_text() + end_tag_text("styleSheet"@)
}

/// The name of a horizontal alignment in the file, if it has one.
pub fn horizontal_align_name(align: XlsxAlign) -> (name: Option<&'static str>)
    ensures
        name is Some == horizontal_name(align) is Some,
        name matches Some(text) ==> horizontal_name(align) == Some(text@),
{
    match align {
        XlsxAlign::Center => Some("center"),
        XlsxAlign::CenterAcross => Some("centerContinuous"),
        XlsxAlign::Distributed => Some("distributed"),
        XlsxAlign::Fill => Some("fill"),
        XlsxAlign::Justify => Some("justify"),
        XlsxAlign::Left => Some("left"),
        XlsxAlign::Right => Some("right"),
        _ => None,
    }
}

/// The name of a vertical alignment in the file, if it has one.
pub fn vertical_align_name(align: XlsxAlign) -> (name: Option<&'static str>)
    ensures
        name is Some == vertical_name(align) is Some,
        name matches Some(text) ==> vertical_name(align) == Some(text@),
{
    match align {
        XlsxAlign::VerticalCenter => Some("center"),
        XlsxAlign::VerticalDistributed => Some("distributed"),
        XlsxAlign::VerticalJustify => Some("justify"),
        XlsxAlign::Top => Some("top"),
        _ => None,
    }
}

/// The number formats that the styles give as format strings, each once, in
/// the order of first use.
pub fn collect_num_formats(xf_formats: &Vec<Format>) -> (custom: Vec<String>)
    ensures
        keys_view(custom@) == custom_num_formats(xf_formats@),
{
    let mut custom: Vec<String> = Vec::new();
    assert(keys_view(custom@) =~= custom_num_formats(xf_formats@.take(0)));
    let mut i: usize = 0;
    while i < xf_formats.len()
        invariant
            i <= xf_formats@.len(),
            keys_view(custom@) == custom_num_formats(xf_formats@.take(i as int)),
        decreases xf_formats@.len() - i,
    {
        let ghost before = keys_view(custom@);
        assert(xf_formats@.take(i + 1).drop_last() =~= xf_formats@.take(i as int));
        assert(xf_formats@.take(i + 1).last() == xf_formats@[i as int]);
        if !xf_formats[i].num_format.as_str().is_empty() {
            let index = find_key(&custom, &xf_formats[i].num_format);
            proof {
                lemma_pool_index(before, xf_formats@[i as int].num_format@);
            }
            if index == custom.len() {
                custom.push(xf_formats[i].num_format.clone());
                assert(keys_view(custom@) =~= before.push(xf_formats@[i as int].num_format@));
            }
        }
        i += 1;
    }
    assert(xf_formats@.take(i as int) =~= xf_formats@);
    custom
}

/// The identifier of the number format of a format, where `custom` are the
/// number formats given as format strings.
pub fn num_format_id_of(format: &Format, custom: &Vec<String>) -> (id: u128)
    ensures
        id == num_format_id(*format, keys_view(custom@)),
{
    if format.num_format.as_str().is_empty() {
        format.num_format_index as u128
    } else {
        let index = find_key(custom, &format.num_format);
        proof {
            lemma_pool_index(keys_view(custom@), format.num_format@);
        }
        164 + index as u128
    }
}

/// The writer of the styles part.
pub struct Styles {
    pub writer: XMLWriter,
}

impl Styles {
    /// A writer that holds no text.
    pub fn new() -> (styles: Styles)
        ensures
            styles.writer@ == Seq::<char>::empty(),
    {
        Styles { writer: XMLWriter::new() }
    }

    /// Writes `<tag val="value"/>`.
    pub fn write_val_tag(&mut self, tag: &str, value: &str)
        ensures
            final(self).writer@ == old(self).writer@ + val_tag_text(tag@, value@),
    {
        let attributes = vec![("val", value)];
        self.writer.xml_empty_tag(tag, attributes.as_slice());
        assert(attributes_view(attributes@) =~= seq![("val"@, value@)]);
    }

    /// Writes the underline of a font.
    pub fn write_font_underline(&mut self, underline: XlsxUnderline)
        ensures
            final(self).writer@ == old(self).writer@ + underline_text(underline),
    {
        match underline {
            XlsxUnderline::NoUnderline => {
                assert(self.writer@ =~= old(self).writer@ + underline_text(underline));
            },
            XlsxUnderline::Single => self.writer.xml_empty_tag_only("u"),
            XlsxUnderline::Double => self.write_val_tag("u", "double"),
            XlsxUnderline::SingleAccounting => self.write_val_tag("u", "singleAccounting"),
            XlsxUnderline::DoubleAccounting => self.write_val_tag("u", "doubleAccounting"),
        }
    }

    /// Writes whether a font is raised or lowered.
    pub fn write_vert_align(&mut self, script: XlsxScript)
        ensures
            final(self).writer@ == old(self).writer@ + vert_align_text(script),
    {
        match script {
            XlsxScript::NoScript => {
                assert(self.writer@ =~= old(self).writer@ + vert_align_text(script));
            },
            XlsxScript::Superscript => self.write_val_tag("vertAlign", "superscript"),
            XlsxScript::Subscript => self.write_val_tag("vertAlign", "subscript"),
        }
    }

    /// Writes the color of a font.
    pub fn write_font_color(&mut self, color: XlsxColor)
        ensures
            final(self).writer@ == old(self).writer@ + font_color_text(color),
    {
        if matches!(color, XlsxColor::Automatic) {
            let attributes = vec![("theme", "1")];
            self.writer.xml_empty_tag("color", attributes.as_slice());
            assert(attributes_view(attributes@) =~= seq![("theme"@, "1"@)]);
        } else {
            let mut rgb = "FF".to_owned();
            rgb.append(color.hex_value().as_str());
            let attributes = vec![("rgb", rgb)];
            self.writer.xml_empty_tag("color", attributes.as_slice());
            assert(attributes_view(attributes@) =~= seq![("rgb"@, argb_text(color))]);
        }
    }

    /// Writes the scheme of a font.
    pub fn write_font_scheme(&mut self, format: &Format)
        ensures
            final(self).writer@ == old(self).writer@ + font_scheme_text(*format),
    {
        let calibri = "Calibri".to_owned();
        if !format.font_scheme.as_str().is_empty() {
            self.write_val_tag("scheme", format.font_scheme.as_str());
        } else if format.font_name == calibri {
            self.write_val_tag("scheme", "minor");
        } else {
            assert(self.writer@ =~= old(self).writer@ + font_scheme_text(*format));
        }
    }

    /// Writes one font.
    pub fn write_font(&mut self, format: &Format)
        ensures
            final(self).writer@ == old(self).writer@ + font_text(*format),
    {
        let ghost start = self.writer@;
        self.writer.xml_start_tag_only("font");
        let ghost mut written = start_tag_text("font"@, Seq::empty());
        if format.bold {
            self.writer.xml_empty_tag_only("b");
        }
        proof {
            written = written_then_if(
                start,
                written,
                self.writer@,
                format.bold,
                flag_tag_text("b"@),
            );
        }
        if format.italic {
            self.writer.xml_empty_tag_only("i");
        }
        proof {
            written = written_then_if(
                start,
                written,
                self.writer@,
                format.italic,
                flag_tag_text("i"@),
            );
        }
        if format.font_strikeout {
            self.writer.xml_empty_tag_only("strike");
        }
        proof {
            written = written_then_if(
                start,
                written,
                self.writer@,
                format.font_strikeout,
                flag_tag_text("strike"@),
            );
        }
        self.write_font_underline(format.underline);
        proof {
            written = written_then(start, written, underline_text(format.underline));
        }
        self.write_vert_align(format.font_script);
        proof {
            written = written_then(start, written, vert_align_text(format.font_script));
        }
        self.write_val_tag("sz", format.font_size.as_str());
        proof {
            written = written_then(start, written, val_tag_text("sz"@, format.font_size@));
        }
        self.write_font_color(format.font_color);
        proof {
            written = written_then(start, written, font_color_text(format.font_color));
        }
        self.write_val_tag("name", format.font_name.as_str());
        proof {
            written = written_then(start, written, val_tag_text("name"@, format.font_name@));
        }
        self.write_val_tag("family", decimal_string(format.font_family as u128).as_str());
        proof {
            written = written_then(
                start,
                written,
                val_tag_text("family"@, decimal(format.font_family as nat)),
            );
        }
        if format.font_charset > 0 {
            self.write_val_tag("charset", decimal_string(format.font_charset as u128).as_str());
        }
        proof {
            written = written_then_if(
                start,
                written,
                self.writer@,
                format.font_charset > 0,
                val_tag_text("charset"@, decimal(format.font_charset as nat)),
            );
        }
        self.write_font_scheme(format);
        proof {
            written = written_then(start, written, font_scheme_text(*format));
        }
        self.writer.xml_end_tag("font");
        proof {
            written = written_then(start, written, end_tag_text("font"@));
        }
    }

    /// Writes the list of the fonts.
    pub fn write_fonts(&mut self, fonts: &Vec<Format>)
        ensures
            final(self).writer@ == old(self).writer@ + fonts_text(fonts@),
    {
        let count = decimal_string(fonts.len() as u128);
        let attributes = vec![("count", count)];
        self.writer.xml_start_tag("fonts", attributes.as_slice());
        assert(attributes_view(attributes@) =~= seq![("count"@, decimal(fonts@.len()))]);
        let ghost opened = start_tag_text("fonts"@, seq![("count"@, decimal(fonts@.len()))]);
        let mut i: usize = 0;
        while i < fonts.len()
            invariant
                i <= fonts@.len(),
                self.writer@ == old(self).writer@ + (opened + font_list_text(fonts@.take(i as int))),
            decreases fonts@.len() - i,
        {
            let ghost written = opened + font_list_text(fonts@.take(i as int));
            self.write_font(&fonts[i]);
            proof {
                assert(fonts@.take(i + 1).drop_last() =~= fonts@.take(i as int));
                assert(fonts@.take(i + 1).last() == fonts@[i as int]);
                lemma_written(old(self).writer@, written, font_text(fonts@[i as int]));
                lemma_written(
                    opened,
                    font_list_text(fonts@.take(i as int)),
                    font_text(fonts@[i as int]),
                );
            }
            i += 1;
        }
        assert(fonts@.take(i as int) =~= fonts@);
        self.writer.xml_end_tag("fonts");
        proof {
            lemma_written(
                old(self).writer@,
                opened + font_list_text(fonts@),
                end_tag_text("fonts"@),
            );
        }
    }

    /// Writes a color as the attribute `rgb` of a tag.
    pub fn write_color_tag(&mut self, tag: &str, color: XlsxColor)
        ensures
            final(self).writer@ == old(self).writer@ + empty_tag_text(
                tag@,
                seq![("rgb"@, argb_text(color))],
            ),
    {
        let mut rgb = "FF".to_owned();
        rgb.append(color.hex_value().as_str());
        let attributes = vec![("rgb", rgb)];
        self.writer.xml_empty_tag(tag, attributes.as_slice());
        assert(attributes_view(attributes@) =~= seq![("rgb"@, argb_text(color))]);
    }

    /// Writes the background color of a fill.
    pub fn write_background_color(&mut self, color: XlsxColor)
        ensures
            final(self).writer@ == old(self).writer@ + background_color_text(color),
    {
        if matches!(color, XlsxColor::Automatic) {
            let attributes = vec![("indexed", "64")];
            self.writer.xml_empty_tag("bgColor", attributes.as_slice());
            assert(attributes_view(attributes@) =~= seq![("indexed"@, "64"@)]);
        } else {
            self.write_color_tag("bgColor", color);
        }
    }

    /// Writes a fill that is a pattern without colors of its own.
    pub fn write_default_fill(&mut self, pattern: &str)
        ensures
            final(self).writer@ == old(self).writer@ + plain_fill_text(pattern@),
    {
        let attributes = vec![("patternType", pattern)];
        self.writer.xml_start_tag_only("fill");
        self.writer.xml_empty_tag("patternFill", attributes.as_slice());
        self.writer.xml_end_tag("fill");
        assert(attributes_view(attributes@) =~= seq![("patternType"@, pattern@)]);
        assert(self.writer@ =~= old(self).writer@ + plain_fill_text(pattern@));
    }

    /// Writes one fill.
    pub fn write_fill(&mut self, format: &Format)
        ensures
            final(self).writer@ == old(self).writer@ + fill_text(*format),
    {
        if matches!(format.background_color, XlsxColor::Automatic) && matches!(
            format.foreground_color,
            XlsxColor::Automatic
        ) {
            self.write_default_fill(format.pattern.value());
            return ;
        }
        let attributes = vec![("patternType", format.pattern.value())];
        assert(attributes_view(attributes@) =~= seq![("patternType"@, format.pattern.name())]);
        let ghost start = self.writer@;
        self.writer.xml_start_tag_only("fill");
        let ghost mut written = start_tag_text("fill"@, Seq::empty());
        self.writer.xml_start_tag("patternFill", attributes.as_slice());
        proof {
            written = written_then(
                start,
                written,
                start_tag_text("patternFill"@, seq![("patternType"@, format.pattern.name())]),
            );
        }
        if !matches!(format.foreground_color, XlsxColor::Automatic) {
            self.write_color_tag("fgColor", format.foreground_color);
        }
        proof {
            written = written_then_if(
                start,
                written,
                self.writer@,
                format.foreground_color != XlsxColor::Automatic,
                empty_tag_text("fgColor"@, seq![("rgb"@, argb_text(format.foreground_color))]),
            );
        }
        self.write_background_color(format.background_color);
        proof {
            written = written_then(start, written, background_color_text(format.background_color));
        }
        self.writer.xml_end_tag("patternFill");
        proof {
            written = written_then(start, written, end_tag_text("patternFill"@));
        }
        self.writer.xml_end_tag("fill");
        proof {
            written = written_then(start, written, end_tag_text("fill"@));
        }
    }

    /// Writes the list of the fills.
    pub fn write_fills(&mut self, fills: &Vec<Format>)
        ensures
            final(self).writer@ == old(self).writer@ + fills_text(fills@),
    {
        let count = decimal_string(fills.len() as u128);
        let attributes = vec![("count", count)];
        self.writer.xml_start_tag("fills", attributes.as_slice());
        assert(attributes_view(attributes@) =~= seq![("count"@, decimal(fills@.len()))]);
        let ghost opened = start_tag_text("fills"@, seq![("count"@, decimal(fills@.len()))]);
        let mut i: usize = 0;
        while i < fills.len()
            invariant
                i <= fills@.len(),
                self.writer@ == old(self).writer@ + (opened + fill_list_text(fills@.take(i as int))),
            decreases fills@.len() - i,
        {
            let ghost written = opened + fill_list_text(fills@.take(i as int));
            self.write_fill(&fills[i]);
            proof {
                assert(fills@.take(i + 1).drop_last() =~= fills@.take(i as int));
                assert(fills@.take(i + 1).last() == fills@[i as int]);
                lemma_written(old(self).writer@, written, fill_text(fills@[i as int]));
                lemma_written(
                    opened,
                    fill_list_text(fills@.take(i as int)),
                    fill_text(fills@[i as int]),
                );
            }
            i += 1;
        }
        assert(fills@.take(i as int) =~= fills@);
        self.writer.xml_end_tag("fills");
        proof {
            lemma_written(
                old(self).writer@,
                opened + fill_list_text(fills@),
                end_tag_text("fills"@),
            );
        }
    }

    /// Writes the start tag of the part.
    pub fn write_style_sheet(&mut self)
        ensures
            final(self).writer@ == old(self).writer@ + style_sheet_text(),
    {
        let attributes = vec![
            ("xmlns", "http://schemas.openxmlformats.org/spreadsheetml/2006/main"),
        ];
        self.writer.xml_start_tag("styleSheet", attributes.as_slice());
        assert(attributes_view(attributes@) =~= seq![
            ("xmlns"@, "http://schemas.openxmlformats.org/spreadsheetml/2006/main"@),
        ]);
    }

    /// Writes the border without lines.
    pub fn write_border(&mut self)
        ensures
            final(self).writer@ == old(self).writer@ + border_text(),
    {
        let ghost start = self.writer@;
        self.writer.xml_start_tag_only("border");
        let ghost mut written = start_tag_text("border"@, Seq::empty());
        self.writer.xml_empty_tag_only("left");
        proof {
            written = written_then(start, written, flag_tag_text("left"@));
        }
        self.writer.xml_empty_tag_only("right");
        proof {
            written = written_then(start, written, flag_tag_text("right"@));
        }
        self.writer.xml_empty_tag_only("top");
        proof {
            written = written_then(start, written, flag_tag_text("top"@));
        }
        self.writer.xml_empty_tag_only("bottom");
        proof {
            written = written_then(start, written, flag_tag_text("bottom"@));
        }
        self.writer.xml_empty_tag_only("diagonal");
        proof {
            written = written_then(start, written, flag_tag_text("diagonal"@));
        }
        self.writer.xml_end_tag("border");
        proof {
            written = written_then(start, written, end_tag_text("border"@));
        }
    }

    /// Writes the list of the borders.
    pub fn write_borders(&mut self)
        ensures
            final(self).writer@ == old(self).writer@ + borders_text(),
    {
        let attributes = vec![("count", "1")];
        self.writer.xml_start_tag("borders", attributes.as_slice());
        assert(attributes_view(attributes@) =~= seq![("count"@, "1"@)]);
        self.write_border();
        self.writer.xml_end_tag("borders");
        assert(self.writer@ =~= old(self).writer@ + borders_text());
    }

    /// Writes the format that named styles start from.
    pub fn write_style_xf(&mut self)
        ensures
            final(self).writer@ == old(self).writer@ + style_xf_text(),
    {
        let attributes = vec![
            ("numFmtId", "0"),
            ("fontId", "0"),
            ("fillId", "0"),
            ("borderId", "0"),
        ];
        self.writer.xml_empty_tag("xf", attributes.as_slice());
        assert(attributes_view(attributes@) =~= seq![
            ("numFmtId"@, "0"@),
            ("fontId"@, "0"@),
            ("fillId"@, "0"@),
            ("borderId"@, "0"@),
        ]);
    }

    /// Writes the list of the formats of the named styles.
    pub fn write_cell_style_xfs(&mut self)
        ensures
            final(self).writer@ == old(self).writer@ + cell_style_xfs_text(),
    {
        let attributes = vec![("count", "1")];
        self.writer.xml_start_tag("cellStyleXfs", attributes.as_slice());
        assert(attributes_view(attributes@) =~= seq![("count"@, "1"@)]);
        self.write_style_xf();
        self.writer.xml_end_tag("cellStyleXfs");
        assert(self.writer@ =~= old(self).writer@ + cell_style_xfs_text());
    }

    /// Writes the named style `Normal`.
    pub fn write_cell_style(&mut self)
        ensures
            final(self).writer@ == old(self).writer@ + cell_style_text(),
    {
        let attributes = vec![("name", "Normal"), ("xfId", "0"), ("builtinId", "0")];
        self.writer.xml_empty_tag("cellStyle", attributes.as_slice());
        assert(attributes_view(attributes@) =~= seq![
            ("name"@, "Normal"@),
            ("xfId"@, "0"@),
            ("builtinId"@, "0"@),
        ]);
    }

    /// Writes the list of the named styles.
    pub fn write_cell_styles(&mut self)
        ensures
            final(self).writer@ == old(self).writer@ + cell_styles_text(),
    {
        let attributes = vec![("count", "1")];
        self.writer.xml_start_tag("cellStyles", attributes.as_slice());
        assert(attributes_view(attributes@) =~= seq![("count"@, "1"@)]);
        self.write_cell_style();
        self.writer.xml_end_tag("cellStyles");
        assert(self.writer@ =~= old(self).writer@ + cell_styles_text());
    }

    /// Writes the empty list of the formats of conditional formatting.
    pub fn write_dxfs(&mut self)
        ensures
            final(self).writer@ == old(self).writer@ + dxfs_text(),
    {
        let attributes = vec![("count", "0")];
        self.writer.xml_empty_tag("dxfs", attributes.as_slice());
        assert(attributes_view(attributes@) =~= seq![("count"@, "0"@)]);
    }

    /// Writes the empty list of the styles of tables.
    pub fn write_table_styles(&mut self)
        ensures
            final(self).writer@ == old(self).writer@ + table_styles_text(),
    {
        let attributes = vec![
            ("count", "0"),
            ("defaultTableStyle", "TableStyleMedium9"),
            ("defaultPivotStyle", "PivotStyleLight16"),
        ];
        self.writer.xml_empty_tag("tableStyles", attributes.as_slice());
        assert(attributes_view(attributes@) =~= seq![
            ("count"@, "0"@),
            ("defaultTableStyle"@, "TableStyleMedium9"@),
            ("defaultPivotStyle"@, "PivotStyleLight16"@),
        ]);
    }

    /// Writes the alignment of a format.
    pub fn write_alignment(&mut self, format: &Format)
        ensures
            final(self).writer@ == old(self).writer@ + alignment_text(*format),
    {
        let mut attributes: Vec<(&'static str, String)> = Vec::new();
        assert(attributes_view(attributes@) =~= Seq::empty());
        match horizontal_align_name(format.horizontal_align) {
            Some(name) => push_attribute(&mut attributes, "horizontal", name.to_owned()),
            None => {},
        }
        match vertical_align_name(format.vertical_align) {
            Some(name) => push_attribute(&mut attributes, "vertical", name.to_owned()),
            None => {},
        }
        if format.indent != 0 {
            push_attribute(&mut attributes, "indent", decimal_string(format.indent as u128));
        }
        if format.rotation != 0 {
            let mut angle = String::new();
            crate::text::push_signed_decimal(&mut angle, format.rotation as i32);
            assert(angle@ =~= crate::text::signed_decimal(format.rotation as int));
            push_attribute(&mut attributes, "textRotation", angle);
        }
        if format.text_wrap {
            push_attribute(&mut attributes, "wrapText", "1".to_owned());
        }
        if format.shrink {
            push_attribute(&mut attributes, "shrinkToFit", "1".to_owned());
        }
        if format.reading_direction != 0 {
            push_attribute(
                &mut attributes,
                "readingOrder",
                decimal_string(format.reading_direction as u128),
            );
        }
        self.writer.xml_empty_tag("alignment", attributes.as_slice());
    }

    /// Writes the protection of a format.
    pub fn write_protection(&mut self, format: &Format)
        ensures
            final(self).writer@ == old(self).writer@ + protection_text(*format),
    {
        let mut attributes: Vec<(&'static str, String)> = Vec::new();
        assert(attributes_view(attributes@) =~= Seq::empty());
        if !format.locked {
            push_attribute(&mut attributes, "locked", "0".to_owned());
        }
        if format.hidden {
            push_attribute(&mut attributes, "hidden", "1".to_owned());
        }
        self.writer.xml_empty_tag("protection", attributes.as_slice());
    }

    /// Writes one style, whose number format has the identifier given.
    pub fn write_cell_xf(&mut self, format: &Format, num_fmt_id: u128)
        ensures
            final(self).writer@ == old(self).writer@ + cell_xf_text(*format, num_fmt_id as nat),
    {
        let protected = format.hidden || !format.locked;
        let aligned = format.has_alignment();
        let mut attributes: Vec<(&'static str, String)> = Vec::new();
        assert(attributes_view(attributes@) =~= Seq::empty());
        push_attribute(&mut attributes, "numFmtId", decimal_string(num_fmt_id));
        push_attribute(&mut attributes, "fontId", decimal_string(format.font_index as u128));
        push_attribute(&mut attributes, "fillId", decimal_string(format.fill_index as u128));
        push_attribute(&mut attributes, "borderId", "0".to_owned());
        push_attribute(&mut attributes, "xfId", "0".to_owned());
        assert(attributes_view(attributes@) =~= seq![
            ("numFmtId"@, decimal(num_fmt_id as nat)),
            ("fontId"@, decimal(format.font_index as nat)),
            ("fillId"@, decimal(format.fill_index as nat)),
            ("borderId"@, "0"@),
            ("xfId"@, "0"@),
        ]);
        if num_fmt_id > 0 {
            push_attribute(&mut attributes, "applyNumberFormat", "1".to_owned());
        }
        if format.has_font {
            push_attribute(&mut attributes, "applyFont", "1".to_owned());
        }
        if format.has_fill {
            push_attribute(&mut attributes, "applyFill", "1".to_owned());
        }
        if format.apply_alignment() {
            push_attribute(&mut attributes, "applyAlignment", "1".to_owned());
        }
        if protected {
            push_attribute(&mut attributes, "applyProtection", "1".to_owned());
        }
        assert(attributes_view(attributes@) == xf_attributes(*format, num_fmt_id as nat));
        if aligned || protected {
            let ghost start = self.writer@;
            self.writer.xml_start_tag("xf", attributes.as_slice());
            let ghost mut written = start_tag_text("xf"@, xf_attributes(*format, num_fmt_id as nat));
            if aligned {
                self.write_alignment(format);
            }
            proof {
                written = written_then_if(
                    start,
                    written,
                    self.writer@,
                    format.spec_has_alignment(),
                    alignment_text(*format),
                );
            }
            if protected {
                self.write_protection(format);
            }
            proof {
                written = written_then_if(
                    start,
                    written,
                    self.writer@,
                    has_protection(*format),
                    protection_text(*format),
                );
            }
            self.writer.xml_end_tag("xf");
            proof {
                written = written_then(start, written, end_tag_text("xf"@));
            }
        } else {
            self.writer.xml_empty_tag("xf", attributes.as_slice());
        }
    }

    /// Writes one number format that is given as a format string.
    pub fn write_num_fmt(&mut self, id: u128, code: &str)
        ensures
            final(self).writer@ == old(self).writer@ + num_fmt_text(id as nat, code@),
    {
        let attributes = vec![("numFmtId", decimal_string(id)), ("formatCode", code.to_owned())];
        self.writer.xml_empty_tag("numFmt", attributes.as_slice());
        assert(attributes_view(attributes@) =~= seq![
            ("numFmtId"@, decimal(id as nat)),
            ("formatCode"@, code@),
        ]);
    }

    /// Writes the list of the number formats given as format strings, if
    /// there are any.
    pub fn write_num_fmts(&mut self, custom: &Vec<String>)
        ensures
            final(self).writer@ == old(self).writer@ + num_fmts_text(keys_view(custom@)),
    {
        let ghost codes = keys_view(custom@);
        if custom.len() == 0 {
            assert(self.writer@ =~= old(self).writer@ + num_fmts_text(codes));
            return ;
        }
        let count = decimal_string(custom.len() as u128);
        let attributes = vec![("count", count)];
        self.writer.xml_start_tag("numFmts", attributes.as_slice());
        assert(attributes_view(attributes@) =~= seq![("count"@, decimal(codes.len()))]);
        let ghost opened = start_tag_text("numFmts"@, seq![("count"@, decimal(codes.len()))]);
        let mut i: usize = 0;
        while i < custom.len()
            invariant
                i <= custom@.len(),
                codes == keys_view(custom@),
                self.writer@ == old(self).writer@ + (opened + num_fmt_list_text(codes.take(i as int))),
            decreases custom@.len() - i,
        {
            let ghost written = opened + num_fmt_list_text(codes.take(i as int));
            self.write_num_fmt(164 + i as u128, custom[i].as_str());
            proof {
                assert(codes.take(i + 1).drop_last() =~= codes.take(i as int));
                assert(codes.take(i + 1).last() == codes[i as int]);
                let text = num_fmt_text((164 + i) as nat, codes[i as int]);
                lemma_written(old(self).writer@, written, text);
                lemma_written(opened, num_fmt_list_text(codes.take(i as int)), text);
            }
            i += 1;
        }
        assert(codes.take(i as int) =~= codes);
        self.writer.xml_end_tag("numFmts");
        proof {
            lemma_written(
                old(self).writer@,
                opened + num_fmt_list_text(codes),
                end_tag_text("numFmts"@),
            );
        }
    }

    /// Writes the list of the styles, where `custom` are the number formats
    /// given as format strings.
    pub fn write_cell_xfs(&mut self, xf_formats: &Vec<Format>, custom: &Vec<String>)
        ensures
            final(self).writer@ == old(self).writer@ + cell_xfs_text(
                xf_formats@,
                keys_view(custom@),
            ),
    {
        let ghost codes = keys_view(custom@);
        let count = decimal_string(xf_formats.len() as u128);
        let attributes = vec![("count", count)];
        self.writer.xml_start_tag("cellXfs", attributes.as_slice());
        assert(attributes_view(attributes@) =~= seq![("count"@, decimal(xf_formats@.len()))]);
        let ghost opened = start_tag_text("cellXfs"@, seq![("count"@, decimal(xf_formats@.len()))]);
        let mut i: usize = 0;
        while i < xf_formats.len()
            invariant
                i <= xf_formats@.len(),
                codes == keys_view(custom@),
                self.writer@ == old(self).writer@ + (opened + cell_xf_list_text(
                    xf_formats@.take(i as int),
                    codes,
                )),
            decreases xf_formats@.len() - i,
        {
            let ghost written = opened + cell_xf_list_text(xf_formats@.take(i as int), codes);
            let id = num_format_id_of(&xf_formats[i], custom);
            self.write_cell_xf(&xf_formats[i], id);
            proof {
                assert(xf_formats@.take(i + 1).drop_last() =~= xf_formats@.take(i as int));
                assert(xf_formats@.take(i + 1).last() == xf_formats@[i as int]);
                let text = cell_xf_text(xf_formats@[i as int], id as nat);
                lemma_written(old(self).writer@, written, text);
                lemma_written(opened, cell_xf_list_text(xf_formats@.take(i as int), codes), text);
            }
            i += 1;
        }
        assert(xf_formats@.take(i as int) =~= xf_formats@);
        self.writer.xml_end_tag("cellXfs");
        proof {
            lemma_written(
                old(self).writer@,
                opened + cell_xf_list_text(xf_formats@, codes),
                end_tag_text("cellXfs"@),
            );
        }
    }

    /// Writes the whole part for a style table.
    pub fn assemble_xml_file(&mut self, table: &StyleTable)
        ensures
            final(self).writer@ == old(self).writer@ + styles_text(table@),
    {
        let custom = collect_num_formats(table.xf_formats());
        let ghost start = self.writer@;
        self.writer.xml_declaration();
        let ghost mut written = declaration_text();
        self.write_style_sheet();
        proof {
            written = written_then(start, written, style_sheet_text());
        }
        self.write_num_fmts(&custom);
        proof {
            written = written_then(
                start,
                written,
                num_fmts_text(custom_num_formats(table@.styles)),
            );
        }
        self.write_fonts(table.font_formats());
        proof {
            written = written_then(start, written, fonts_text(table@.fonts));
        }
        self.write_fills(table.fill_formats());
        proof {
            written = written_then(start, written, fills_text(table@.fills));
        }
        self.write_borders();
        proof {
            written = written_then(start, written, borders_text());
        }
        self.write_cell_style_xfs();
        proof {
            written = written_then(start, written, cell_style_xfs_text());
        }
        self.write_cell_xfs(table.xf_formats(), &custom);
        proof {
            written = written_then(
                start,
                written,
                cell_xfs_text(table@.styles, custom_num_formats(table@.styles)),
            );
        }
        self.write_cell_styles();
        proof {
            written = written_then(start, written, cell_styles_text());
        }
        self.write_dxfs();
        proof {
            written = written_then(start, written, dxfs_text());
        }
        self.write_table_styles();
        proof {
            written = written_then(start, written, table_styles_text());
        }
        self.writer.xml_end_tag("styleSheet");
        proof {
            written = written_then(start, written, end_tag_text("styleSheet"@));
        }
    }
}

} // verus!
