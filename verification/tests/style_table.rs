use rust_xlsxwriter::format::{Format, XlsxAlign, XlsxColor, XlsxPattern};
use rust_xlsxwriter::style_table::{find_key, intern, StyleTable};

#[test]
fn a_repeated_format_keeps_its_index() {
    let d1 = Format::new().set_bold();
    let d2 = Format::new().set_italic();
    let d3 = Format::new().set_align(XlsxAlign::Center);

    let mut table = StyleTable::new();
    let indices: Vec<u32> = [&d1, &d2, &d1, &d3]
        .iter()
        .map(|format| table.register(format).xf_index)
        .collect();

    assert_eq!(vec![0, 1, 0, 2], indices);
    assert_eq!(3, table.xf_formats().len());
}

#[test]
fn indices_follow_registration_not_the_keys() {
    // The key of the first format is the greater one.
    let first = Format::new().set_bold();
    let second = Format::new();
    assert!(first.format_key() > second.format_key());

    let mut table = StyleTable::new();
    assert_eq!(0, table.register(&first).xf_index);
    assert_eq!(1, table.register(&second).xf_index);
}

#[test]
fn equal_keys_give_equal_indices() {
    let a = Format::new()
        .set_bold()
        .set_font_color(XlsxColor::Red)
        .set_align(XlsxAlign::Top)
        .set_num_format("0.0");
    let b = Format::new()
        .set_num_format("0.0")
        .set_align(XlsxAlign::Top)
        .set_font_color(XlsxColor::RGB(0xFF0000))
        .set_bold();
    assert_eq!(a.format_key(), b.format_key());

    let mut table = StyleTable::new();
    table.register(&Format::new());
    let index_a = table.register(&a).xf_index;
    table.register(&Format::new().set_italic());
    let index_b = table.register(&b).xf_index;
    assert_eq!(1, index_a);
    assert_eq!(index_a, index_b);
    assert_eq!(3, table.xf_formats().len());
}

#[test]
fn the_default_format_takes_the_reserved_entries() {
    let mut table = StyleTable::new();
    assert_eq!(0, table.xf_formats().len());
    assert_eq!(1, table.font_formats().len());
    assert_eq!(2, table.fill_formats().len());

    let resolved = table.register(&Format::new());
    assert_eq!(0, resolved.xf_index);
    assert_eq!(0, resolved.font_index);
    assert_eq!(0, resolved.fill_index);
    assert!(!resolved.has_font);
    assert!(!resolved.has_fill);
    assert_eq!(1, table.xf_formats().len());
    assert_eq!(1, table.font_formats().len());
    assert_eq!(2, table.fill_formats().len());
}

#[test]
fn reserved_entries_stay_as_they_are() {
    let mut table = StyleTable::new();
    let font0 = table.font_formats()[0].font_key();
    let fill0 = table.fill_formats()[0].fill_key();
    let fill1 = table.fill_formats()[1].fill_key();
    assert_eq!(Format::new().font_key(), font0);
    assert_eq!("FFFFFFFF:FFFFFFFF:0", fill0);
    assert_eq!("FFFFFFFF:FFFFFFFF:17", fill1);

    for size in 1..40u8 {
        let format = Format::new()
            .set_font_family(size)
            .set_pattern(XlsxPattern::Solid)
            .set_foreground_color(XlsxColor::RGB(size as u32));
        table.register(&format);
    }
    assert_eq!(39, table.xf_formats().len());
    // Family 2 is the default font, so one of the fonts was there already.
    assert_eq!(39, table.font_formats().len());
    assert_eq!(41, table.fill_formats().len());
    assert_eq!(font0, table.font_formats()[0].font_key());
    assert_eq!(fill0, table.fill_formats()[0].fill_key());
    assert_eq!(fill1, table.fill_formats()[1].fill_key());
    assert!(table.fill_formats()[0].pattern == XlsxPattern::NoFill);
    assert!(table.fill_formats()[1].pattern == XlsxPattern::Gray125);
}

#[test]
fn fonts_and_fills_are_shared_between_styles() {
    let mut table = StyleTable::new();
    let plain = table.register(&Format::new());
    let bold = table.register(&Format::new().set_bold());
    let bold_centered = table.register(&Format::new().set_bold().set_align(XlsxAlign::Center));
    let yellow = table.register(
        &Format::new()
            .set_pattern(XlsxPattern::Solid)
            .set_foreground_color(XlsxColor::Yellow),
    );
    let bold_yellow = table.register(
        &Format::new()
            .set_bold()
            .set_pattern(XlsxPattern::Solid)
            .set_foreground_color(XlsxColor::Yellow),
    );
    let gray = table.register(&Format::new().set_pattern(XlsxPattern::Gray125));

    assert_eq!((0, 0, 0), (plain.xf_index, plain.font_index, plain.fill_index));
    assert_eq!((1, 1, 0), (bold.xf_index, bold.font_index, bold.fill_index));
    assert_eq!(
        (2, 1, 0),
        (bold_centered.xf_index, bold_centered.font_index, bold_centered.fill_index)
    );
    assert_eq!((3, 0, 2), (yellow.xf_index, yellow.font_index, yellow.fill_index));
    assert_eq!(
        (4, 1, 2),
        (bold_yellow.xf_index, bold_yellow.font_index, bold_yellow.fill_index)
    );
    assert_eq!((5, 0, 1), (gray.xf_index, gray.font_index, gray.fill_index));

    assert!(bold.has_font && bold_centered.has_font && bold_yellow.has_font);
    assert!(!plain.has_font && !yellow.has_font && !gray.has_font);
    assert!(yellow.has_fill && bold_yellow.has_fill && gray.has_fill);
    assert!(!plain.has_fill && !bold.has_fill);

    assert_eq!(2, table.font_formats().len());
    assert_eq!(3, table.fill_formats().len());
    assert!(table.has_room());
}

#[test]
fn the_registered_format_keeps_its_properties() {
    let mut table = StyleTable::new();
    table.register(&Format::new());
    let format = Format::new().set_font_name("Arial").set_rotation(-10).set_indent(2);
    let resolved = table.register(&format);
    assert_eq!("Arial", resolved.font_name);
    assert_eq!(100, resolved.rotation);
    assert_eq!(2, resolved.indent);
    assert_eq!(format.format_key(), resolved.format_key());
    assert_eq!(1, table.xf_formats()[1].xf_index);
    assert_eq!(format.format_key(), table.xf_formats()[1].format_key());
}

#[test]
fn keys_are_found_by_position() {
    let keys = vec![String::from("a"), String::from("b"), String::from("a")];
    assert_eq!(0, find_key(&keys, &String::from("a")));
    assert_eq!(1, find_key(&keys, &String::from("b")));
    assert_eq!(3, find_key(&keys, &String::from("c")));
    assert_eq!(0, find_key(&Vec::new(), &String::from("c")));
}

#[test]
fn a_new_key_is_added_at_the_end() {
    let mut keys = vec![String::from("a")];
    let mut formats = vec![Format::new()];
    let bold = Format::new().set_bold();
    assert_eq!(1, intern(&mut keys, &mut formats, String::from("b"), &bold));
    assert_eq!(0, intern(&mut keys, &mut formats, String::from("a"), &bold));
    assert_eq!(1, intern(&mut keys, &mut formats, String::from("b"), &Format::new()));
    assert_eq!(vec![String::from("a"), String::from("b")], keys);
    assert_eq!(2, formats.len());
    assert!(formats[1].bold);
}

#[test]
fn a_table_with_room_registers() {
    let mut table = StyleTable::new();
    assert!(table.has_room());
    let bold = Format::new().set_bold();
    let first = table.try_register(&bold).unwrap();
    let second = table.try_register(&bold).unwrap();
    assert_eq!(0, first.xf_index);
    assert_eq!(0, second.xf_index);
    assert_eq!(1, first.font_index);
    assert_eq!(1, table.xf_formats().len());
}

#[test]
fn room_is_asked_only_of_the_pools_that_grow() {
    let mut table = StyleTable::new();
    let format = Format::new()
        .set_italic()
        .set_pattern(XlsxPattern::Solid)
        .set_foreground_color(XlsxColor::Cyan);
    assert!(table.has_room_for(&format));
    let first = table.register(&format);
    assert!(table.has_room_for(&format));
    let again = table.try_register(&format).unwrap();
    assert_eq!(first.xf_index, again.xf_index);
    assert_eq!((0, 1, 2), (again.xf_index, again.font_index, again.fill_index));
    assert_eq!(1, table.xf_formats().len());
    assert_eq!(2, table.font_formats().len());
    assert_eq!(3, table.fill_formats().len());
}

#[test]
fn fills_are_numbered_behind_the_reserved_ones() {
    let mut table = StyleTable::new();
    let colors = [XlsxColor::Red, XlsxColor::Green, XlsxColor::Red, XlsxColor::Blue];
    let indices: Vec<(u16, bool)> = colors
        .iter()
        .map(|color| {
            let format = Format::new()
                .set_pattern(XlsxPattern::Solid)
                .set_foreground_color(*color);
            let resolved = table.register(&format);
            (resolved.fill_index, resolved.has_fill)
        })
        .collect();
    assert_eq!(vec![(2, true), (3, true), (2, true), (4, true)], indices);

    let plain = table.register(&Format::new().set_bold());
    assert_eq!((0, false), (plain.fill_index, plain.has_fill));
    let gray = table.register(&Format::new().set_pattern(XlsxPattern::Gray125));
    assert_eq!((1, true), (gray.fill_index, gray.has_fill));
    // Registered once more, with another font: the fill is found again.
    let red_bold = table.register(
        &Format::new()
            .set_bold()
            .set_pattern(XlsxPattern::Solid)
            .set_foreground_color(XlsxColor::Red),
    );
    assert_eq!((2, true), (red_bold.fill_index, red_bold.has_fill));
    assert_eq!(5, table.fill_formats().len());
}

#[test]
fn two_formats_with_one_key_are_one_style() {
    // Colons in a name and in a number format: the two formats differ in
    // their fonts and have the same key.
    let first = Format::new()
        .set_font_name("N")
        .set_font_scheme("S")
        .set_num_format("Q::0:11:false:false:0:0:false:true:");
    let second = Format::new().set_font_name("N:S:0:11:false:false:0:0:false:true:Q");
    assert_eq!(first.format_key(), second.format_key());
    assert_ne!(first.font_key(), second.font_key());
    assert_eq!(first.fill_key(), second.fill_key());

    let mut table = StyleTable::new();
    table.register(&Format::new());
    let first = table.register(&first);
    let second = table.register(&second);
    assert_eq!((1, 1, true), (first.xf_index, first.font_index, first.has_font));
    // The second gets the style of the first, and the font found for it.
    assert_eq!((1, 1, true), (second.xf_index, second.font_index, second.has_font));
    assert_eq!("N:S:0:11:false:false:0:0:false:true:Q", second.font_name);
    assert_eq!(2, table.xf_formats().len());
    // Its own font was looked up, and added to the fonts.
    assert_eq!(3, table.font_formats().len());
}
