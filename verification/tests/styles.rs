use rust_xlsxwriter::format::{
    Format, XlsxAlign, XlsxColor, XlsxPattern, XlsxScript, XlsxUnderline,
};
use rust_xlsxwriter::style_table::StyleTable;
use rust_xlsxwriter::styles::{
    collect_num_formats, horizontal_align_name, num_format_id_of, vertical_align_name, Styles,
};

const HEAD: &str = "<?xml version=\"1.0\" encoding=\"UTF-8\" standalone=\"yes\"?>\n\
    <styleSheet xmlns=\"http://schemas.openxmlformats.org/spreadsheetml/2006/main\">";
const DEFAULT_FONT: &str = "<font><sz val=\"11\"/><color theme=\"1\"/><name val=\"Calibri\"/>\
    <family val=\"2\"/><scheme val=\"minor\"/></font>";
const DEFAULT_FILLS: &str = "<fill><patternFill patternType=\"none\"/></fill>\
    <fill><patternFill patternType=\"gray125\"/></fill>";
const BORDERS: &str = "<borders count=\"1\"><border><left/><right/><top/><bottom/><diagonal/>\
    </border></borders>";
const STYLE_XFS: &str = "<cellStyleXfs count=\"1\">\
    <xf numFmtId=\"0\" fontId=\"0\" fillId=\"0\" borderId=\"0\"/></cellStyleXfs>";
const TAIL: &str = "<cellStyles count=\"1\"><cellStyle name=\"Normal\" xfId=\"0\" builtinId=\"0\"/>\
    </cellStyles><dxfs count=\"0\"/><tableStyles count=\"0\" \
    defaultTableStyle=\"TableStyleMedium9\" defaultPivotStyle=\"PivotStyleLight16\"/>\
    </styleSheet>";
const DEFAULT_XF: &str = "<xf numFmtId=\"0\" fontId=\"0\" fillId=\"0\" borderId=\"0\" xfId=\"0\"/>";

fn styles_part(formats: &[Format]) -> String {
    let mut table = StyleTable::new();
    for format in formats {
        table.register(format);
    }
    let mut styles = Styles::new();
    styles.assemble_xml_file(&table);
    styles.writer.read_to_string()
}

fn written(write: fn(&mut Styles)) -> String {
    let mut styles = Styles::new();
    write(&mut styles);
    styles.writer.read_to_string()
}

#[test]
fn the_styles_of_an_unformatted_workbook() {
    let expected = format!(
        "{HEAD}<fonts count=\"1\">{DEFAULT_FONT}</fonts><fills count=\"2\">{DEFAULT_FILLS}</fills>\
         {BORDERS}{STYLE_XFS}<cellXfs count=\"1\">{DEFAULT_XF}</cellXfs>{TAIL}"
    );
    assert_eq!(expected, styles_part(&[Format::new()]));
}

#[test]
fn default_bold_and_bold_italic_cells() {
    let got = styles_part(&[
        Format::new(),
        Format::new().set_bold(),
        Format::new().set_bold().set_italic(),
    ]);
    let expected = format!(
        "{HEAD}<fonts count=\"3\">{DEFAULT_FONT}\
         <font><b/><sz val=\"11\"/><color theme=\"1\"/><name val=\"Calibri\"/><family val=\"2\"/>\
         <scheme val=\"minor\"/></font>\
         <font><b/><i/><sz val=\"11\"/><color theme=\"1\"/><name val=\"Calibri\"/>\
         <family val=\"2\"/><scheme val=\"minor\"/></font></fonts>\
         <fills count=\"2\">{DEFAULT_FILLS}</fills>{BORDERS}{STYLE_XFS}\
         <cellXfs count=\"3\">{DEFAULT_XF}\
         <xf numFmtId=\"0\" fontId=\"1\" fillId=\"0\" borderId=\"0\" xfId=\"0\" applyFont=\"1\"/>\
         <xf numFmtId=\"0\" fontId=\"2\" fillId=\"0\" borderId=\"0\" xfId=\"0\" applyFont=\"1\"/>\
         </cellXfs>{TAIL}"
    );
    assert_eq!(expected, got);

    let cell_xfs = &got[got.find("<cellXfs").unwrap()..got.find("</cellXfs>").unwrap()];
    assert_eq!(3, cell_xfs.matches("<xf ").count());
    assert_eq!(2, cell_xfs.matches("applyFont=\"1\"").count());
    assert!(!DEFAULT_XF.contains("applyFont"));
    assert_eq!(3, got.matches("<font>").count());
}

#[test]
fn the_same_cells_in_any_order_of_setters() {
    let one = styles_part(&[Format::new(), Format::new().set_bold().set_italic()]);
    let other = styles_part(&[
        Format::new(),
        Format::new().set_italic().set_bold(),
        Format::new().set_bold().set_italic(),
    ]);
    assert_eq!(one, other);
}

#[test]
fn a_font_with_every_property() {
    let mut styles = Styles::new();
    let format = Format::new()
        .set_bold()
        .set_italic()
        .set_font_strikeout()
        .set_underline(XlsxUnderline::Double)
        .set_font_script(XlsxScript::Superscript)
        .set_font_size("10.5")
        .set_font_color(XlsxColor::RGB(0x9C0006))
        .set_font_name("Arial")
        .set_font_family(3)
        .set_font_charset(204);
    styles.write_font(&format);
    assert_eq!(
        "<font><b/><i/><strike/><u val=\"double\"/><vertAlign val=\"superscript\"/>\
         <sz val=\"10.5\"/><color rgb=\"FF9C0006\"/><name val=\"Arial\"/><family val=\"3\"/>\
         <charset val=\"204\"/></font>",
        styles.writer.read_to_string()
    );
}

#[test]
fn underlines_scripts_and_schemes() {
    let mut styles = Styles::new();
    styles.write_font_underline(XlsxUnderline::NoUnderline);
    styles.write_font_underline(XlsxUnderline::Single);
    styles.write_font_underline(XlsxUnderline::Double);
    styles.write_font_underline(XlsxUnderline::SingleAccounting);
    styles.write_font_underline(XlsxUnderline::DoubleAccounting);
    assert_eq!(
        "<u/><u val=\"double\"/><u val=\"singleAccounting\"/><u val=\"doubleAccounting\"/>",
        styles.writer.read_to_string()
    );
    styles.writer.reset();

    styles.write_vert_align(XlsxScript::NoScript);
    styles.write_vert_align(XlsxScript::Superscript);
    styles.write_vert_align(XlsxScript::Subscript);
    assert_eq!(
        "<vertAlign val=\"superscript\"/><vertAlign val=\"subscript\"/>",
        styles.writer.read_to_string()
    );
    styles.writer.reset();

    styles.write_font_scheme(&Format::new());
    styles.write_font_scheme(&Format::new().set_font_name("Arial"));
    styles.write_font_scheme(&Format::new().set_font_name("Arial").set_font_scheme("major"));
    assert_eq!(
        "<scheme val=\"minor\"/><scheme val=\"major\"/>",
        styles.writer.read_to_string()
    );
    styles.writer.reset();

    styles.write_font_color(XlsxColor::Automatic);
    styles.write_font_color(XlsxColor::Blue);
    styles.write_val_tag("sz", "8");
    styles.write_color_tag("fgColor", XlsxColor::RGB(0xA));
    assert_eq!(
        "<color theme=\"1\"/><color rgb=\"FF0000FF\"/><sz val=\"8\"/><fgColor rgb=\"FF00000A\"/>",
        styles.writer.read_to_string()
    );
}

#[test]
fn fills() {
    let mut styles = Styles::new();
    styles.write_fill(&Format::new());
    styles.write_fill(&Format::new().set_pattern(XlsxPattern::Gray125));
    styles.write_fill(&Format::new().set_pattern(XlsxPattern::LightUp));
    assert_eq!(
        format!("{DEFAULT_FILLS}<fill><patternFill patternType=\"lightUp\"/></fill>"),
        styles.writer.read_to_string()
    );
    styles.writer.reset();

    styles.write_fill(
        &Format::new()
            .set_pattern(XlsxPattern::Solid)
            .set_foreground_color(XlsxColor::RGB(0xFFC7CE)),
    );
    assert_eq!(
        "<fill><patternFill patternType=\"solid\"><fgColor rgb=\"FFFFC7CE\"/>\
         <bgColor indexed=\"64\"/></patternFill></fill>",
        styles.writer.read_to_string()
    );
    styles.writer.reset();

    styles.write_fill(
        &Format::new()
            .set_pattern(XlsxPattern::DarkGrid)
            .set_foreground_color(XlsxColor::Red)
            .set_background_color(XlsxColor::Yellow),
    );
    assert_eq!(
        "<fill><patternFill patternType=\"darkGrid\"><fgColor rgb=\"FFFF0000\"/>\
         <bgColor rgb=\"FFFFFF00\"/></patternFill></fill>",
        styles.writer.read_to_string()
    );
    styles.writer.reset();

    styles.write_fill(&Format::new().set_background_color(XlsxColor::Green));
    assert_eq!(
        "<fill><patternFill patternType=\"none\"><bgColor rgb=\"FF008000\"/></patternFill></fill>",
        styles.writer.read_to_string()
    );
    styles.writer.reset();

    styles.write_default_fill("gray0625");
    styles.write_background_color(XlsxColor::Automatic);
    assert_eq!(
        "<fill><patternFill patternType=\"gray0625\"/></fill><bgColor indexed=\"64\"/>",
        styles.writer.read_to_string()
    );
}

#[test]
fn a_fill_in_the_part() {
    let got = styles_part(&[
        Format::new(),
        Format::new()
            .set_pattern(XlsxPattern::Solid)
            .set_foreground_color(XlsxColor::Yellow),
    ]);
    assert!(got.contains(&format!(
        "<fills count=\"3\">{DEFAULT_FILLS}<fill><patternFill patternType=\"solid\">\
         <fgColor rgb=\"FFFFFF00\"/><bgColor indexed=\"64\"/></patternFill></fill></fills>"
    )));
    assert!(got.contains(&format!(
        "<cellXfs count=\"2\">{DEFAULT_XF}\
         <xf numFmtId=\"0\" fontId=\"0\" fillId=\"2\" borderId=\"0\" xfId=\"0\" applyFill=\"1\"/>\
         </cellXfs>"
    )));
}

#[test]
fn alignments() {
    let mut styles = Styles::new();
    styles.write_alignment(
        &Format::new()
            .set_align(XlsxAlign::CenterAcross)
            .set_align(XlsxAlign::VerticalJustify)
            .set_indent(2)
            .set_rotation(-30)
            .set_text_wrap()
            .set_shrink()
            .set_reading_direction(2),
    );
    assert_eq!(
        "<alignment horizontal=\"centerContinuous\" vertical=\"justify\" indent=\"2\" \
         textRotation=\"120\" wrapText=\"1\" shrinkToFit=\"1\" readingOrder=\"2\"/>",
        styles.writer.read_to_string()
    );
    styles.writer.reset();

    styles.write_alignment(&Format::new().set_align(XlsxAlign::Bottom));
    styles.write_alignment(&Format::new().set_rotation(270));
    assert_eq!(
        "<alignment/><alignment textRotation=\"255\"/>",
        styles.writer.read_to_string()
    );

    let names: Vec<Option<&str>> = [
        XlsxAlign::General,
        XlsxAlign::Left,
        XlsxAlign::Center,
        XlsxAlign::Right,
        XlsxAlign::Fill,
        XlsxAlign::Justify,
        XlsxAlign::CenterAcross,
        XlsxAlign::Distributed,
        XlsxAlign::Top,
    ]
    .iter()
    .map(|align| horizontal_align_name(*align))
    .collect();
    assert_eq!(
        vec![
            None,
            Some("left"),
            Some("center"),
            Some("right"),
            Some("fill"),
            Some("justify"),
            Some("centerContinuous"),
            Some("distributed"),
            None
        ],
        names
    );
    let names: Vec<Option<&str>> = [
        XlsxAlign::General,
        XlsxAlign::Center,
        XlsxAlign::Top,
        XlsxAlign::Bottom,
        XlsxAlign::VerticalCenter,
        XlsxAlign::VerticalJustify,
        XlsxAlign::VerticalDistributed,
    ]
    .iter()
    .map(|align| vertical_align_name(*align))
    .collect();
    assert_eq!(
        vec![
            None,
            None,
            Some("top"),
            None,
            Some("center"),
            Some("justify"),
            Some("distributed")
        ],
        names
    );
}

#[test]
fn a_style_aligned_to_the_bottom_applies_an_alignment_and_writes_none() {
    let mut styles = Styles::new();
    styles.write_cell_xf(&Format::new().set_align(XlsxAlign::Bottom), 0);
    assert_eq!(
        "<xf numFmtId=\"0\" fontId=\"0\" fillId=\"0\" borderId=\"0\" xfId=\"0\" \
         applyAlignment=\"1\"/>",
        styles.writer.read_to_string()
    );
}

#[test]
fn a_style_with_alignment_and_protection() {
    let mut format = Format::new().set_align(XlsxAlign::Center).set_num_format_index(2);
    format.locked = false;
    format.hidden = true;
    format.set_font_index(3, true);
    format.set_fill_index(4, true);
    let mut styles = Styles::new();
    styles.write_cell_xf(&format, 2);
    assert_eq!(
        "<xf numFmtId=\"2\" fontId=\"3\" fillId=\"4\" borderId=\"0\" xfId=\"0\" \
         applyNumberFormat=\"1\" applyFont=\"1\" applyFill=\"1\" applyAlignment=\"1\" \
         applyProtection=\"1\"><alignment horizontal=\"center\"/>\
         <protection locked=\"0\" hidden=\"1\"/></xf>",
        styles.writer.read_to_string()
    );
    styles.writer.reset();

    let mut hidden = Format::new();
    hidden.hidden = true;
    styles.write_protection(&hidden);
    styles.write_protection(&Format::new());
    assert_eq!("<protection hidden=\"1\"/><protection/>", styles.writer.read_to_string());
}

#[test]
fn number_formats_given_as_strings() {
    let formats = [
        Format::new(),
        Format::new().set_num_format("0.000"),
        Format::new().set_num_format_index(14),
        Format::new().set_num_format("yyyy"),
        Format::new().set_num_format("0.000").set_bold(),
    ];
    let got = styles_part(&formats);
    assert!(got.starts_with(&format!(
        "{HEAD}<numFmts count=\"2\"><numFmt numFmtId=\"164\" formatCode=\"0.000\"/>\
         <numFmt numFmtId=\"165\" formatCode=\"yyyy\"/></numFmts><fonts count=\"2\">"
    )));
    assert!(got.contains(&format!(
        "<cellXfs count=\"5\">{DEFAULT_XF}\
         <xf numFmtId=\"164\" fontId=\"0\" fillId=\"0\" borderId=\"0\" xfId=\"0\" \
         applyNumberFormat=\"1\"/>\
         <xf numFmtId=\"14\" fontId=\"0\" fillId=\"0\" borderId=\"0\" xfId=\"0\" \
         applyNumberFormat=\"1\"/>\
         <xf numFmtId=\"165\" fontId=\"0\" fillId=\"0\" borderId=\"0\" xfId=\"0\" \
         applyNumberFormat=\"1\"/>\
         <xf numFmtId=\"164\" fontId=\"1\" fillId=\"0\" borderId=\"0\" xfId=\"0\" \
         applyNumberFormat=\"1\" applyFont=\"1\"/></cellXfs>"
    )));

    let custom = collect_num_formats(&formats.to_vec());
    assert_eq!(vec![String::from("0.000"), String::from("yyyy")], custom);
    assert_eq!(0, num_format_id_of(&formats[0], &custom));
    assert_eq!(164, num_format_id_of(&formats[1], &custom));
    assert_eq!(14, num_format_id_of(&formats[2], &custom));
    assert_eq!(165, num_format_id_of(&formats[3], &custom));
    assert_eq!(164, num_format_id_of(&formats[4], &custom));

    let mut styles = Styles::new();
    styles.write_num_fmts(&Vec::new());
    assert_eq!("", styles.writer.read_to_string());
    styles.write_num_fmt(170, "\"x\" 0");
    assert_eq!(
        "<numFmt numFmtId=\"170\" formatCode=\"&quot;x&quot; 0\"/>",
        styles.writer.read_to_string()
    );
}

#[test]
fn the_fixed_sections() {
    assert_eq!(
        "<styleSheet xmlns=\"http://schemas.openxmlformats.org/spreadsheetml/2006/main\">",
        written(Styles::write_style_sheet)
    );
    assert_eq!(BORDERS, written(Styles::write_borders));
    assert_eq!(
        "<border><left/><right/><top/><bottom/><diagonal/></border>",
        written(Styles::write_border)
    );
    assert_eq!(STYLE_XFS, written(Styles::write_cell_style_xfs));
    assert_eq!(
        "<xf numFmtId=\"0\" fontId=\"0\" fillId=\"0\" borderId=\"0\"/>",
        written(Styles::write_style_xf)
    );
    assert_eq!(
        "<cellStyles count=\"1\"><cellStyle name=\"Normal\" xfId=\"0\" builtinId=\"0\"/></cellStyles>",
        written(Styles::write_cell_styles)
    );
    assert_eq!(
        "<cellStyle name=\"Normal\" xfId=\"0\" builtinId=\"0\"/>",
        written(Styles::write_cell_style)
    );
    assert_eq!("<dxfs count=\"0\"/>", written(Styles::write_dxfs));
    assert_eq!(
        "<tableStyles count=\"0\" defaultTableStyle=\"TableStyleMedium9\" \
         defaultPivotStyle=\"PivotStyleLight16\"/>",
        written(Styles::write_table_styles)
    );
}

#[test]
fn lists_with_their_counts() {
    let mut styles = Styles::new();
    styles.write_fonts(&vec![Format::new()]);
    assert_eq!(
        format!("<fonts count=\"1\">{DEFAULT_FONT}</fonts>"),
        styles.writer.read_to_string()
    );
    styles.writer.reset();
    styles.write_fills(&vec![
        Format::new(),
        Format::new().set_pattern(XlsxPattern::Gray125),
    ]);
    assert_eq!(
        format!("<fills count=\"2\">{DEFAULT_FILLS}</fills>"),
        styles.writer.read_to_string()
    );
    styles.writer.reset();
    styles.write_cell_xfs(&vec![Format::new()], &Vec::new());
    assert_eq!(
        format!("<cellXfs count=\"1\">{DEFAULT_XF}</cellXfs>"),
        styles.writer.read_to_string()
    );
    styles.writer.reset();
    styles.write_cell_xfs(&Vec::new(), &Vec::new());
    assert_eq!("<cellXfs count=\"0\"></cellXfs>", styles.writer.read_to_string());
}
