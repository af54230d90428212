use rust_xlsxwriter::app::App;
use rust_xlsxwriter::format::{Format, XlsxAlign, XlsxColor};
use rust_xlsxwriter::style_table::StyleTable;
use rust_xlsxwriter::styles::Styles;
use rust_xlsxwriter::xmlwriter::XMLWriter;

const STYLES_HEAD: &str = "<?xml version=\"1.0\" encoding=\"UTF-8\" standalone=\"yes\"?>\n\
    <styleSheet xmlns=\"http://schemas.openxmlformats.org/spreadsheetml/2006/main\">\
    <fonts count=\"1\"><font><sz val=\"11\"/><color theme=\"1\"/><name val=\"Calibri\"/>\
    <family val=\"2\"/><scheme val=\"minor\"/></font></fonts>\
    <fills count=\"2\"><fill><patternFill patternType=\"none\"/></fill>\
    <fill><patternFill patternType=\"gray125\"/></fill></fills>\
    <borders count=\"1\"><border><left/><right/><top/><bottom/><diagonal/></border></borders>\
    <cellStyleXfs count=\"1\"><xf numFmtId=\"0\" fontId=\"0\" fillId=\"0\" borderId=\"0\"/>\
    </cellStyleXfs>";
const STYLES_TAIL: &str = "<cellStyles count=\"1\">\
    <cellStyle name=\"Normal\" xfId=\"0\" builtinId=\"0\"/></cellStyles><dxfs count=\"0\"/>\
    <tableStyles count=\"0\" defaultTableStyle=\"TableStyleMedium9\" \
    defaultPivotStyle=\"PivotStyleLight16\"/></styleSheet>";
const DEFAULT_XF: &str = "<xf numFmtId=\"0\" fontId=\"0\" fillId=\"0\" borderId=\"0\" xfId=\"0\"/>";

// The styles part of a workbook whose cells have the formats given, after the
// default format that every workbook starts with. Returns the part and the
// style index of each format.
fn styles_of(formats: &[Format]) -> (String, Vec<u32>) {
    let mut table = StyleTable::new();
    assert_eq!(0, table.register(&Format::new()).xf_index);
    let indices = formats
        .iter()
        .map(|format| table.register(format).xf_index)
        .collect();
    let mut styles = Styles::new();
    styles.assemble_xml_file(&table);
    (styles.writer.read_to_string(), indices)
}

// The app part of a workbook with the sheets given.
fn app_of(worksheets: &[&str], chartsheets: &[&str]) -> String {
    let mut app = App::new();
    app.add_heading_pair("Worksheets", worksheets.len() as u16);
    if !chartsheets.is_empty() {
        app.add_heading_pair("Charts", chartsheets.len() as u16);
    }
    for name in worksheets.iter().chain(chartsheets) {
        app.add_part_name(name);
    }
    app.assemble_xml_file();
    app.writer.read_to_string()
}

fn expected_app(headings: &str, heading_entries: usize, parts: &[&str]) -> String {
    let mut names = String::new();
    for part in parts {
        names.push_str(&format!("<vt:lpstr>{part}</vt:lpstr>"));
    }
    format!(
        "<?xml version=\"1.0\" encoding=\"UTF-8\" standalone=\"yes\"?>\n\
         <Properties xmlns=\"http://schemas.openxmlformats.org/officeDocument/2006/extended-properties\" \
         xmlns:vt=\"http://schemas.openxmlformats.org/officeDocument/2006/docPropsVTypes\">\
         <Application>Microsoft Excel</Application><DocSecurity>0</DocSecurity>\
         <ScaleCrop>false</ScaleCrop><HeadingPairs>\
         <vt:vector size=\"{heading_entries}\" baseType=\"variant\">{headings}</vt:vector>\
         </HeadingPairs><TitlesOfParts><vt:vector size=\"{}\" baseType=\"lpstr\">{names}\
         </vt:vector></TitlesOfParts><Company></Company><LinksUpToDate>false</LinksUpToDate>\
         <SharedDoc>false</SharedDoc><HyperlinksChanged>false</HyperlinksChanged>\
         <AppVersion>12.0000</AppVersion></Properties>",
        parts.len()
    )
}

fn heading(name: &str, count: usize) -> String {
    format!(
        "<vt:variant><vt:lpstr>{name}</vt:lpstr></vt:variant>\
         <vt:variant><vt:i4>{count}</vt:i4></vt:variant>"
    )
}

fn unformatted_styles() -> String {
    format!("{STYLES_HEAD}<cellXfs count=\"1\">{DEFAULT_XF}</cellXfs>{STYLES_TAIL}")
}

// Four worksheets and two chartsheets, no cell formats.
#[test]
fn test_chart_bar13() {
    let app = app_of(&["Sheet1", "Sheet2", "Sheet3", "Sheet4"], &["Chart1", "Chart2"]);
    let headings = heading("Worksheets", 4) + &heading("Charts", 2);
    assert_eq!(
        expected_app(
            &headings,
            4,
            &["Sheet1", "Sheet2", "Sheet3", "Sheet4", "Chart1", "Chart2"]
        ),
        app
    );
    assert_eq!(unformatted_styles(), styles_of(&[]).0);
}

// One worksheet with a chart on it, no cell formats.
#[test]
fn test_chart_pattern01() {
    let app = app_of(&["Sheet1"], &[]);
    assert_eq!(expected_app(&heading("Worksheets", 1), 2, &["Sheet1"]), app);
    assert_eq!(unformatted_styles(), styles_of(&[]).0);
}

// A conditional format with a format of its own: that format is kept apart
// from the formats of the cells, and found by the same key.
#[test]
fn test_cond_format01() {
    let format = Format::new()
        .set_font_color(XlsxColor::RGB(0x9C0006))
        .set_background_color(XlsxColor::RGB(0xFFC7CE));

    let mut conditional = StyleTable::new();
    assert_eq!(0, conditional.register(&format).xf_index);
    assert_eq!(0, conditional.register(&format.clone()).xf_index);
    assert_eq!(
        "false:0:9C0006:false:false:2:Calibri::0:11:false:false:0:0",
        format.font_key()
    );
    assert_eq!("FFC7CE:FFFFFFFF:0", format.fill_key());

    assert_eq!(unformatted_styles(), styles_of(&[]).0);
    assert_eq!(
        expected_app(&heading("Worksheets", 1), 2, &["Sheet1"]),
        app_of(&["Sheet1"], &[])
    );
}

// Two conditional formats without a format: the styles are those of an
// unformatted workbook.
#[test]
fn test_cond_format22() {
    assert_eq!(unformatted_styles(), styles_of(&[]).0);
    assert_eq!(
        expected_app(&heading("Worksheets", 1), 2, &["Sheet1"]),
        app_of(&["Sheet1"], &[])
    );
}

// A merged range of three cells with a centered format: each cell of the
// range has the same style.
#[test]
fn test_merge_range01() {
    let format = Format::new().set_align(XlsxAlign::Center);

    let (styles, indices) = styles_of(&[format.clone(), format.clone(), format]);
    assert_eq!(vec![1, 1, 1], indices);
    assert_eq!(
        format!(
            "{STYLES_HEAD}<cellXfs count=\"2\">{DEFAULT_XF}\
             <xf numFmtId=\"0\" fontId=\"0\" fillId=\"0\" borderId=\"0\" xfId=\"0\" \
             applyAlignment=\"1\"><alignment horizontal=\"center\"/></xf></cellXfs>{STYLES_TAIL}"
        ),
        styles
    );

    let mut strings = XMLWriter::new();
    strings.xml_si_element("Foo", false);
    assert_eq!("<si><t>Foo</t></si>", strings.read_to_string());
}

// The first 128 characters but the double quote, each as a string of its own.
#[test]
fn test_optimize06() {
    let mut expected = String::new();
    let mut writer = XMLWriter::new();
    for i in 0u8..128 {
        if i == 34 {
            continue;
        }

        let string = (i as char).to_string();
        let preserve_whitespace = string.starts_with(['\t', '\n', ' ']);
        writer.xml_si_element(&string, preserve_whitespace);

        let text = match i {
            9 | 10 => string,
            0..=31 => format!("_x{:04X}_", i),
            38 => String::from("&amp;"),
            60 => String::from("&lt;"),
            62 => String::from("&gt;"),
            _ => string,
        };
        if preserve_whitespace {
            expected.push_str(&format!("<si><t xml:space=\"preserve\">{text}</t></si>"));
        } else {
            expected.push_str(&format!("<si><t>{text}</t></si>"));
        }
    }
    assert_eq!(expected, writer.read_to_string());
    assert_eq!(127, expected.matches("<si>").count());
    assert!(expected.contains("<si><t>_x0000_</t></si><si><t>_x0001_</t></si>"));
    assert!(expected.contains("<si><t>_x001F_</t></si><si><t xml:space=\"preserve\"> </t></si>"));
}

// A protected worksheet with an unlocked cell and a hidden, unlocked cell.
#[test]
fn test_protect02() {
    let mut unlocked = Format::new();
    unlocked.locked = false;
    let mut hidden = Format::new();
    hidden.locked = false;
    hidden.hidden = true;

    let (styles, indices) = styles_of(&[unlocked, hidden]);
    assert_eq!(vec![1, 2], indices);
    assert_eq!(
        format!(
            "{STYLES_HEAD}<cellXfs count=\"3\">{DEFAULT_XF}\
             <xf numFmtId=\"0\" fontId=\"0\" fillId=\"0\" borderId=\"0\" xfId=\"0\" \
             applyProtection=\"1\"><protection locked=\"0\"/></xf>\
             <xf numFmtId=\"0\" fontId=\"0\" fillId=\"0\" borderId=\"0\" xfId=\"0\" \
             applyProtection=\"1\"><protection locked=\"0\" hidden=\"1\"/></xf>\
             </cellXfs>{STYLES_TAIL}"
        ),
        styles
    );
}

// One worksheet, with a text box and data, and one chartsheet.
#[test]
fn test_textbox27() {
    let app = app_of(&["Sheet1"], &["Chart1"]);
    let headings = heading("Worksheets", 1) + &heading("Charts", 1);
    assert_eq!(expected_app(&headings, 4, &["Sheet1", "Chart1"]), app);
    assert_eq!(unformatted_styles(), styles_of(&[]).0);
}

const BOLD_FONT: &str = "<font><b/><sz val=\"11\"/><color theme=\"1\"/><name val=\"Calibri\"/>\
    <family val=\"2\"/><scheme val=\"minor\"/></font>";
const ITALIC_FONT: &str = "<font><i/><sz val=\"11\"/><color theme=\"1\"/><name val=\"Calibri\"/>\
    <family val=\"2\"/><scheme val=\"minor\"/></font>";
const BOLD_ITALIC_FONT: &str = "<font><b/><i/><sz val=\"11\"/><color theme=\"1\"/>\
    <name val=\"Calibri\"/><family val=\"2\"/><scheme val=\"minor\"/></font>";

fn styles_with_fonts(fonts: &[&str]) -> String {
    let mut list = String::new();
    let mut xfs = String::from(DEFAULT_XF);
    for (index, font) in fonts.iter().enumerate() {
        list.push_str(font);
        xfs.push_str(&format!(
            "<xf numFmtId=\"0\" fontId=\"{}\" fillId=\"0\" borderId=\"0\" xfId=\"0\" applyFont=\"1\"/>",
            index + 1
        ));
    }
    let head = STYLES_HEAD.replace(
        "<fonts count=\"1\">",
        &format!("<fonts count=\"{}\">", fonts.len() + 1),
    );
    let head = head.replace("</font></fonts>", &format!("</font>{list}</fonts>"));
    format!(
        "{head}<cellXfs count=\"{}\">{xfs}</cellXfs>{STYLES_TAIL}",
        fonts.len() + 1
    )
}

// Two worksheets, a row of the first in bold and a row of the second in
// italic.
#[test]
fn bootstrap27_set_row_2_worksheets() {
    let format1 = Format::new().set_bold();
    let format2 = Format::new().set_italic();

    let (styles, indices) = styles_of(&[format1, format2]);
    assert_eq!(vec![1, 2], indices);
    assert_eq!(styles_with_fonts(&[BOLD_FONT, ITALIC_FONT]), styles);
    assert_eq!(
        expected_app(&heading("Worksheets", 2), 2, &["Sheet1", "Sheet2"]),
        app_of(&["Sheet1", "Sheet2"], &[])
    );
}

// Columns with three formats, set in this order, some of them several times.
#[test]
fn bootstrap28_set_column_contiguous_formats() {
    let format1 = Format::new().set_bold();
    let format2 = Format::new().set_italic();
    let format3 = Format::new().set_bold().set_italic();

    let (styles, indices) = styles_of(&[
        format1.clone(),
        format2.clone(),
        format1.clone(),
        format1.clone(),
        format1.clone(),
        format1.clone(),
        format1.clone(),
        format1,
        format2,
        format3,
    ]);
    assert_eq!(vec![1, 2, 1, 1, 1, 1, 1, 1, 2, 3], indices);
    assert_eq!(
        styles_with_fonts(&[BOLD_FONT, ITALIC_FONT, BOLD_ITALIC_FONT]),
        styles
    );
}
