//! The format of a cell: font, alignment, borders, fill, protection and
//! number format, and the keys by which equal formats are found.

use vstd::prelude::*;
use vstd::string::*;
use crate::text::{
    bool_text, colons, decimal, hex_upper, is_number, is_number_text, lemma_bool_text_no_colon,
    lemma_colon_splits, lemma_colons_field, lemma_concat_assoc, lemma_decimal_no_colon,
    lemma_hex_upper_no_colon, lemma_signed_decimal_no_colon, push_bool, push_decimal,
    push_hex_upper, push_signed_decimal, signed_decimal,
};

verus! {

/// A color: one of the named ones, the automatic one, or a value `0xRRGGBB`.
#[derive(Clone, Copy, PartialEq, Eq, Structural)]
pub enum XlsxColor {
    RGB(u32),
    Automatic,
    Black,
    Blue,
    Brown,
    Cyan,
    Gray,
    Green,
    Lime,
    Magenta,
    Navy,
    Orange,
    Pink,
    Purple,
    Red,
    Silver,
    White,
    Yellow,
}

impl XlsxColor {
    /// The color as `0xRRGGBB`; the automatic color is `0xFFFFFFFF`.
    pub open spec fn spec_value(self) -> u32 {
        match self {
            XlsxColor::RGB(color) => color,
            XlsxColor::Automatic => 0xFFFFFFFF,
            XlsxColor::Black => 0x000000,
            XlsxColor::Blue => 0x0000FF,
            XlsxColor::Brown => 0x800000,
            XlsxColor::Cyan => 0x00FFFF,
            XlsxColor::Gray => 0x808080,
            XlsxColor::Green => 0x008000,
            XlsxColor::Lime => 0x00FF00,
            XlsxColor::Magenta => 0xFF00FF,
            XlsxColor::Navy => 0x000080,
            XlsxColor::Orange => 0xFF6600,
            XlsxColor::Pink => 0xFF00FF,
            XlsxColor::Purple => 0x800080,
            XlsxColor::Red => 0xFF0000,
            XlsxColor::Silver => 0xC0C0C0,
            XlsxColor::White => 0xFFFFFF,
            XlsxColor::Yellow => 0xFFFF00,
        }
    }

    /// The color as `0xRRGGBB`; the automatic color is `0xFFFFFFFF`.
    #[verifier::when_used_as_spec(spec_value)]
    pub fn value(self) -> (value: u32)
        ensures
            value == self.spec_value(),
    {
        match self {
            XlsxColor::RGB(color) => color,
            XlsxColor::Automatic => 0xFFFFFFFF,
            XlsxColor::Black => 0x000000,
            XlsxColor::Blue => 0x0000FF,
            XlsxColor::Brown => 0x800000,
            XlsxColor::Cyan => 0x00FFFF,
            XlsxColor::Gray => 0x808080,
            XlsxColor::Green => 0x008000,
            XlsxColor::Lime => 0x00FF00,
            XlsxColor::Magenta => 0xFF00FF,
            XlsxColor::Navy => 0x000080,
            XlsxColor::Orange => 0xFF6600,
            XlsxColor::Pink => 0xFF00FF,
            XlsxColor::Purple => 0x800080,
            XlsxColor::Red => 0xFF0000,
            XlsxColor::Silver => 0xC0C0C0,
            XlsxColor::White => 0xFFFFFF,
            XlsxColor::Yellow => 0xFFFF00,
        }
    }

    /// The color in hexadecimal, upper case, with at least six digits.
    pub open spec fn hex_text(self) -> Seq<char> {
        hex_upper(self.spec_value() as nat, 6)
    }

    /// The color in hexadecimal, upper case, with at least six digits.
    pub fn hex_value(self) -> (hex: String)
        ensures
            hex@ == self.hex_text(),
    {
        let mut hex = String::new();
        push_hex_upper(&mut hex, self.value() as u64, 6);
        assert(hex@ =~= self.hex_text());
        hex
    }

    /// Whether the color can be used: a value given as a number must not
    /// exceed `0xFFFFFF`.
    pub open spec fn spec_is_valid(self) -> bool {
        match self {
            XlsxColor::RGB(color) => color <= 0xFFFFFF,
            _ => true,
        }
    }

    /// Whether the color can be used: a value given as a number must not
    /// exceed `0xFFFFFF`.
    #[verifier::when_used_as_spec(spec_is_valid)]
    pub fn is_valid(self) -> (valid: bool)
        ensures
            valid == self.spec_is_valid(),
    {
        match self {
            XlsxColor::RGB(color) => color <= 0xFFFFFF,
            _ => true,
        }
    }
}

/// The pattern of a cell's fill.
#[derive(Clone, Copy, PartialEq, Eq, Structural)]
pub enum XlsxPattern {
    NoFill,
    Solid,
    MediumGray,
    DarkGray,
    LightGray,
    DarkHorizontal,
    DarkVertical,
    DarkDown,
    DarkUp,
    DarkGrid,
    DarkTrellis,
    LightHorizontal,
    LightVertical,
    LightDown,
    LightUp,
    LightGrid,
    LightTrellis,
    Gray125,
    Gray0625,
}

impl XlsxPattern {
    /// The number that stands for the variant in a key.
    pub open spec fn code(self) -> u8 {
        match self {
            XlsxPattern::NoFill => 0,
            XlsxPattern::Solid => 1,
            XlsxPattern::MediumGray => 2,
            XlsxPattern::DarkGray => 3,
            XlsxPattern::LightGray => 4,
            XlsxPattern::DarkHorizontal => 5,
            XlsxPattern::DarkVertical => 6,
            XlsxPattern::DarkDown => 7,
            XlsxPattern::DarkUp => 8,
            XlsxPattern::DarkGrid => 9,
            XlsxPattern::DarkTrellis => 10,
            XlsxPattern::LightHorizontal => 11,
            XlsxPattern::LightVertical => 12,
            XlsxPattern::LightDown => 13,
            XlsxPattern::LightUp => 14,
            XlsxPattern::LightGrid => 15,
            XlsxPattern::LightTrellis => 16,
            XlsxPattern::Gray125 => 17,
            XlsxPattern::Gray0625 => 18,
        }
    }

    /// The number that stands for the variant in a key.
    pub fn to_code(self) -> (code: u8)
        ensures
            code == self.code(),
    {
        match self {
            XlsxPattern::NoFill => 0,
            XlsxPattern::Solid => 1,
            XlsxPattern::MediumGray => 2,
            XlsxPattern::DarkGray => 3,
            XlsxPattern::LightGray => 4,
            XlsxPattern::DarkHorizontal => 5,
            XlsxPattern::DarkVertical => 6,
            XlsxPattern::DarkDown => 7,
            XlsxPattern::DarkUp => 8,
            XlsxPattern::DarkGrid => 9,
            XlsxPattern::DarkTrellis => 10,
            XlsxPattern::LightHorizontal => 11,
            XlsxPattern::LightVertical => 12,
            XlsxPattern::LightDown => 13,
            XlsxPattern::LightUp => 14,
            XlsxPattern::LightGrid => 15,
            XlsxPattern::LightTrellis => 16,
            XlsxPattern::Gray125 => 17,
            XlsxPattern::Gray0625 => 18,
        }
    }

    /// The name of the pattern in the file format.
    pub open spec fn name(self) -> Seq<char> {
        match self {
            XlsxPattern::NoFill => "none"@,
            XlsxPattern::Solid => "solid"@,
            XlsxPattern::MediumGray => "mediumGray"@,
            XlsxPattern::DarkGray => "darkGray"@,
            XlsxPattern::LightGray => "lightGray"@,
            XlsxPattern::DarkHorizontal => "darkHorizontal"@,
            XlsxPattern::DarkVertical => "darkVertical"@,
            XlsxPattern::DarkDown => "darkDown"@,
            XlsxPattern::DarkUp => "darkUp"@,
            XlsxPattern::DarkGrid => "darkGrid"@,
            XlsxPattern::DarkTrellis => "darkTrellis"@,
            XlsxPattern::LightHorizontal => "lightHorizontal"@,
            XlsxPattern::LightVertical => "lightVertical"@,
            XlsxPattern::LightDown => "lightDown"@,
            XlsxPattern::LightUp => "lightUp"@,
            XlsxPattern::LightGrid => "lightGrid"@,
            XlsxPattern::LightTrellis => "lightTrellis"@,
            XlsxPattern::Gray125 => "gray125"@,
            XlsxPattern::Gray0625 => "gray0625"@,
        }
    }

    /// The name of the pattern in the file format.
    pub fn value(&self) -> (name: &str)
        ensures
            name@ == self.name(),
    {
        match self {
            XlsxPattern::NoFill => "none",
            XlsxPattern::Solid => "solid",
            XlsxPattern::MediumGray => "mediumGray",
            XlsxPattern::DarkGray => "darkGray",
            XlsxPattern::LightGray => "lightGray",
            XlsxPattern::DarkHorizontal => "darkHorizontal",
            XlsxPattern::DarkVertical => "darkVertical",
            XlsxPattern::DarkDown => "darkDown",
            XlsxPattern::DarkUp => "darkUp",
            XlsxPattern::DarkGrid => "darkGrid",
            XlsxPattern::DarkTrellis => "darkTrellis",
            XlsxPattern::LightHorizontal => "lightHorizontal",
            XlsxPattern::LightVertical => "lightVertical",
            XlsxPattern::LightDown => "lightDown",
            XlsxPattern::LightUp => "lightUp",
            XlsxPattern::LightGrid => "lightGrid",
            XlsxPattern::LightTrellis => "lightTrellis",
            XlsxPattern::Gray125 => "gray125",
            XlsxPattern::Gray0625 => "gray0625",
        }
    }
}

/// The kind of underline of a font.
#[derive(Clone, Copy, PartialEq, Eq, Structural)]
pub enum XlsxUnderline {
    NoUnderline,
    Single,
    Double,
    SingleAccounting,
    DoubleAccounting,
}

impl XlsxUnderline {
    /// The number that stands for the variant in a key.
    pub open spec fn code(self) -> u8 {
        match self {
            XlsxUnderline::NoUnderline => 0,
            XlsxUnderline::Single => 1,
            XlsxUnderline::Double => 2,
            XlsxUnderline::SingleAccounting => 3,
            XlsxUnderline::DoubleAccounting => 4,
        }
    }

    /// The number that stands for the variant in a key.
    pub fn to_code(self) -> (code: u8)
        ensures
            code == self.code(),
    {
        match self {
            XlsxUnderline::NoUnderline => 0,
            XlsxUnderline::Single => 1,
            XlsxUnderline::Double => 2,
            XlsxUnderline::SingleAccounting => 3,
            XlsxUnderline::DoubleAccounting => 4,
        }
    }
}

/// Whether a font is raised or lowered.
#[derive(Clone, Copy, PartialEq, Eq, Structural)]
pub enum XlsxScript {
    NoScript,
    Superscript,
    Subscript,
}

impl XlsxScript {
    /// The number that stands for the variant in a key.
    pub open spec fn code(self) -> u8 {
        match self {
            XlsxScript::NoScript => 0,
            XlsxScript::Superscript => 1,
            XlsxScript::Subscript => 2,
        }
    }

    /// The number that stands for the variant in a key.
    pub fn to_code(self) -> (code: u8)
        ensures
            code == self.code(),
    {
        match self {
            XlsxScript::NoScript => 0,
            XlsxScript::Superscript => 1,
            XlsxScript::Subscript => 2,
        }
    }
}

/// The alignment of a cell's content. The first eight are horizontal, the others vertical.
#[derive(Clone, Copy, PartialEq, Eq, Structural)]
pub enum XlsxAlign {
    General,
    Left,
    Center,
    Right,
    Fill,
    Justify,
    CenterAcross,
    Distributed,
    Top,
    Bottom,
    VerticalCenter,
    VerticalJustify,
    VerticalDistributed,
}

impl XlsxAlign {
    /// The number that stands for the variant in a key.
    pub open spec fn code(self) -> u8 {
        match self {
            XlsxAlign::General => 0,
            XlsxAlign::Left => 1,
            XlsxAlign::Center => 2,
            XlsxAlign::Right => 3,
            XlsxAlign::Fill => 4,
            XlsxAlign::Justify => 5,
            XlsxAlign::CenterAcross => 6,
            XlsxAlign::Distributed => 7,
            XlsxAlign::Top => 8,
            XlsxAlign::Bottom => 9,
            XlsxAlign::VerticalCenter => 10,
            XlsxAlign::VerticalJustify => 11,
            XlsxAlign::VerticalDistributed => 12,
        }
    }

    /// The number that stands for the variant in a key.
    pub fn to_code(self) -> (code: u8)
        ensures
            code == self.code(),
    {
        match self {
            XlsxAlign::General => 0,
            XlsxAlign::Left => 1,
            XlsxAlign::Center => 2,
            XlsxAlign::Right => 3,
            XlsxAlign::Fill => 4,
            XlsxAlign::Justify => 5,
            XlsxAlign::CenterAcross => 6,
            XlsxAlign::Distributed => 7,
            XlsxAlign::Top => 8,
            XlsxAlign::Bottom => 9,
            XlsxAlign::VerticalCenter => 10,
            XlsxAlign::VerticalJustify => 11,
            XlsxAlign::VerticalDistributed => 12,
        }
    }
}

/// The format of a cell. A new format holds the defaults; each setter takes
/// the format and returns it changed, so that calls can be chained.
pub struct Format {
    /// The index of the format in the style table, once registered.
    pub xf_index: u32,
    /// The index of the format's font in the font pool, once registered.
    pub font_index: u16,
    /// The index of the format's fill in the fill pool, once registered.
    pub fill_index: u16,
    /// Whether the format's font is another than the default font.
    pub has_font: bool,
    /// Whether the format's fill is another than the default fill.
    pub has_fill: bool,
    /// The number format as a format string; empty where an index is used.
    pub num_format: String,
    /// The index of a built-in number format; 0 is General.
    pub num_format_index: u16,
    pub bold: bool,
    pub italic: bool,
    pub underline: XlsxUnderline,
    pub font_name: String,
    /// The font size in points, as decimal text such as `11` or `10.5`, in
    /// the one form that a number has.
    pub font_size: String,
    pub font_color: XlsxColor,
    pub font_strikeout: bool,
    pub font_script: XlsxScript,
    pub font_family: u8,
    pub font_charset: u8,
    pub font_scheme: String,
    pub font_condense: bool,
    pub font_extend: bool,
    pub theme: u8,
    pub horizontal_align: XlsxAlign,
    pub vertical_align: XlsxAlign,
    pub text_wrap: bool,
    pub justify_last: bool,
    /// The angle of the text as the file format counts it: 0 to 90 upwards,
    /// 91 to 180 for 1 to 90 degrees downwards, 255 for stacked text.
    pub rotation: i16,
    pub indent: u8,
    pub shrink: bool,
    pub reading_direction: u8,
    pub bottom: u8,
    pub top: u8,
    pub left: u8,
    pub right: u8,
    pub diagonal_border: u8,
    pub diagonal_type: u8,
    pub bottom_color: XlsxColor,
    pub top_color: XlsxColor,
    pub left_color: XlsxColor,
    pub right_color: XlsxColor,
    pub diagonal_color: XlsxColor,
    pub foreground_color: XlsxColor,
    pub background_color: XlsxColor,
    pub pattern: XlsxPattern,
    pub hidden: bool,
    pub locked: bool,
}

/// Whether `format` holds the defaults of a new format.
pub open spec fn is_default_format(format: Format) -> bool {
    &&& format.xf_index == 0
    &&& format.font_index == 0
    &&& format.fill_index == 0
    &&& !format.has_font
    &&& !format.has_fill
    &&& format.num_format@ == Seq::<char>::empty()
    &&& format.num_format_index == 0
    &&& !format.bold
    &&& !format.italic
    &&& format.underline == XlsxUnderline::NoUnderline
    &&& format.font_name@ == "Calibri"@
    &&& format.font_size@ == "11"@
    &&& format.font_color == XlsxColor::Automatic
    &&& !format.font_strikeout
    &&& format.font_script == XlsxScript::NoScript
    &&& format.font_family == 2
    &&& format.font_charset == 0
    &&& format.font_scheme@ == Seq::<char>::empty()
    &&& !format.font_condense
    &&& !format.font_extend
    &&& format.theme == 0
    &&& format.horizontal_align == XlsxAlign::General
    &&& format.vertical_align == XlsxAlign::General
    &&& !format.text_wrap
    &&& !format.justify_last
    &&& format.rotation == 0
    &&& format.indent == 0
    &&& !format.shrink
    &&& format.reading_direction == 0
    &&& format.bottom == 0
    &&& format.top == 0
    &&& format.left == 0
    &&& format.right == 0
    &&& format.diagonal_border == 0
    &&& format.diagonal_type == 0
    &&& format.bottom_color == XlsxColor::Automatic
    &&& format.top_color == XlsxColor::Automatic
    &&& format.left_color == XlsxColor::Automatic
    &&& format.right_color == XlsxColor::Automatic
    &&& format.diagonal_color == XlsxColor::Automatic
    &&& format.foreground_color == XlsxColor::Automatic
    &&& format.background_color == XlsxColor::Automatic
    &&& format.pattern == XlsxPattern::NoFill
    &&& !format.hidden
    &&& format.locked
}

impl Clone for Format {
    fn clone(&self) -> (format: Format)
        ensures
            format == *self,
    {
        Format {
            xf_index: self.xf_index,
            font_index: self.font_index,
            fill_index: self.fill_index,
            has_font: self.has_font,
            has_fill: self.has_fill,
            num_format: self.num_format.clone(),
            num_format_index: self.num_format_index,
            bold: self.bold,
            italic: self.italic,
            underline: self.underline,
            font_name: self.font_name.clone(),
            font_size: self.font_size.clone(),
            font_color: self.font_color,
            font_strikeout: self.font_strikeout,
            font_script: self.font_script,
            font_family: self.font_family,
            font_charset: self.font_charset,
            font_scheme: self.font_scheme.clone(),
            font_condense: self.font_condense,
            font_extend: self.font_extend,
            theme: self.theme,
            horizontal_align: self.horizontal_align,
            vertical_align: self.vertical_align,
            text_wrap: self.text_wrap,
            justify_last: self.justify_last,
            rotation: self.rotation,
            indent: self.indent,
            shrink: self.shrink,
            reading_direction: self.reading_direction,
            bottom: self.bottom,
            top: self.top,
            left: self.left,
            right: self.right,
            diagonal_border: self.diagonal_border,
            diagonal_type: self.diagonal_type,
            bottom_color: self.bottom_color,
            top_color: self.top_color,
            left_color: self.left_color,
            right_color: self.right_color,
            diagonal_color: self.diagonal_color,
            foreground_color: self.foreground_color,
            background_color: self.background_color,
            pattern: self.pattern,
            hidden: self.hidden,
            locked: self.locked,
        }
    }
}

impl Default for Format {
    fn default() -> (format: Format)
        ensures
            is_default_format(format),
    {
        Format::new()
    }
}

impl Format {
    /// A format that holds the defaults: Calibri 11, no fill, no borders,
    /// general alignment, locked and not hidden, number format General.
    pub fn new() -> (format: Format)
        ensures
            is_default_format(format),
    {
        Format {
            xf_index: 0,
            font_index: 0,
            fill_index: 0,
            has_font: false,
            has_fill: false,
            num_format: String::new(),
            num_format_index: 0,
            bold: false,
            italic: false,
            underline: XlsxUnderline::NoUnderline,
            font_name: "Calibri".to_owned(),
            font_size: "11".to_owned(),
            font_color: XlsxColor::Automatic,
            font_strikeout: false,
            font_script: XlsxScript::NoScript,
            font_family: 2,
            font_charset: 0,
            font_scheme: String::new(),
            font_condense: false,
            font_extend: false,
            theme: 0,
            horizontal_align: XlsxAlign::General,
            vertical_align: XlsxAlign::General,
            text_wrap: false,
            justify_last: false,
            rotation: 0,
            indent: 0,
            shrink: false,
            reading_direction: 0,
            bottom: 0,
            top: 0,
            left: 0,
            right: 0,
            diagonal_border: 0,
            diagonal_type: 0,
            bottom_color: XlsxColor::Automatic,
            top_color: XlsxColor::Automatic,
            left_color: XlsxColor::Automatic,
            right_color: XlsxColor::Automatic,
            diagonal_color: XlsxColor::Automatic,
            foreground_color: XlsxColor::Automatic,
            background_color: XlsxColor::Automatic,
            pattern: XlsxPattern::NoFill,
            hidden: false,
            locked: true,
        }
    }

    /// The key of the alignment: its properties in a fixed order, separated
    /// by colons.
    #[verifier::opaque]
    pub open spec fn alignment_key_text(self) -> Seq<char> {
        decimal(self.indent as nat) + ":"@
            + decimal(self.reading_direction as nat) + ":"@
            + signed_decimal(self.rotation as int) + ":"@
            + bool_text(self.shrink) + ":"@
            + decimal(self.horizontal_align.code() as nat) + ":"@
            + decimal(self.vertical_align.code() as nat) + ":"@
            + bool_text(self.justify_last) + ":"@
            + bool_text(self.text_wrap)
    }

    /// The key of the alignment: its properties in a fixed order, separated
    /// by colons.
    pub fn alignment_key(&self) -> (key: String)
        ensures
            key@ == self.alignment_key_text(),
    {
        reveal(Format::alignment_key_text);
        let mut key = String::new();
        push_decimal(&mut key, self.indent as u128);
        assert(key@ =~= decimal(self.indent as nat));
        key.append(":");
        push_decimal(&mut key, self.reading_direction as u128);
        key.append(":");
        push_signed_decimal(&mut key, self.rotation as i32);
        key.append(":");
        push_bool(&mut key, self.shrink);
        key.append(":");
        push_decimal(&mut key, self.horizontal_align.to_code() as u128);
        key.append(":");
        push_decimal(&mut key, self.vertical_align.to_code() as u128);
        key.append(":");
        push_bool(&mut key, self.justify_last);
        key.append(":");
        push_bool(&mut key, self.text_wrap);
        key
    }

    /// The key of the borders: the style and color of each side in a fixed
    /// order, separated by colons.
    #[verifier::opaque]
    pub open spec fn border_key_text(self) -> Seq<char> {
        decimal(self.bottom as nat) + ":"@
            + self.bottom_color.hex_text() + ":"@
            + decimal(self.diagonal_border as nat) + ":"@
            + self.diagonal_color.hex_text() + ":"@
            + decimal(self.diagonal_type as nat) + ":"@
            + decimal(self.left as nat) + ":"@
            + self.left_color.hex_text() + ":"@
            + decimal(self.right as nat) + ":"@
            + self.right_color.hex_text() + ":"@
            + decimal(self.top as nat) + ":"@
            + self.top_color.hex_text()
    }

    /// The key of the borders: the style and color of each side in a fixed
    /// order, separated by colons.
    pub fn border_key(&self) -> (key: String)
        ensures
            key@ == self.border_key_text(),
    {
        reveal(Format::border_key_text);
        let mut key = String::new();
        push_decimal(&mut key, self.bottom as u128);
        assert(key@ =~= decimal(self.bottom as nat));
        key.append(":");
        push_hex_upper(&mut key, self.bottom_color.value() as u64, 6);
        key.append(":");
        push_decimal(&mut key, self.diagonal_border as u128);
        key.append(":");
        push_hex_upper(&mut key, self.diagonal_color.value() as u64, 6);
        key.append(":");
        push_decimal(&mut key, self.diagonal_type as u128);
        key.append(":");
        push_decimal(&mut key, self.left as u128);
        key.append(":");
        push_hex_upper(&mut key, self.left_color.value() as u64, 6);
        key.append(":");
        push_decimal(&mut key, self.right as u128);
        key.append(":");
        push_hex_upper(&mut key, self.right_color.value() as u64, 6);
        key.append(":");
        push_decimal(&mut key, self.top as u128);
        key.append(":");
        push_hex_upper(&mut key, self.top_color.value() as u64, 6);
        key
    }

    /// The key of the fill: background color, foreground color and pattern,
    /// separated by colons.
    #[verifier::opaque]
    pub open spec fn fill_key_text(self) -> Seq<char> {
        self.background_color.hex_text() + ":"@
            + self.foreground_color.hex_text() + ":"@
            + decimal(self.pattern.code() as nat)
    }

    /// The key of the fill: background color, foreground color and pattern,
    /// separated by colons.
    pub fn fill_key(&self) -> (key: String)
        ensures
            key@ == self.fill_key_text(),
    {
        reveal(Format::fill_key_text);
        let mut key = String::new();
        push_hex_upper(&mut key, self.background_color.value() as u64, 6);
        assert(key@ =~= self.background_color.hex_text());
        key.append(":");
        push_hex_upper(&mut key, self.foreground_color.value() as u64, 6);
        key.append(":");
        push_decimal(&mut key, self.pattern.to_code() as u128);
        key
    }

    /// The key of the font: its properties in a fixed order, separated by
    /// colons.
    #[verifier::opaque]
    pub open spec fn font_key_text(self) -> Seq<char> {
        bool_text(self.bold) + ":"@
            + decimal(self.font_charset as nat) + ":"@
            + self.font_color.hex_text() + ":"@
            + bool_text(self.font_condense) + ":"@
            + bool_text(self.font_extend) + ":"@
            + decimal(self.font_family as nat) + ":"@
            + self.font_name@ + ":"@
            + self.font_scheme@ + ":"@
            + decimal(self.font_script.code() as nat) + ":"@
            + self.font_size@ + ":"@
            + bool_text(self.font_strikeout) + ":"@
            + bool_text(self.italic) + ":"@
            + decimal(self.theme as nat) + ":"@
            + decimal(self.underline.code() as nat)
    }

    /// The key of the font: its properties in a fixed order, separated by
    /// colons.
    pub fn font_key(&self) -> (key: String)
        ensures
            key@ == self.font_key_text(),
    {
        reveal(Format::font_key_text);
        let mut key = String::new();
        push_bool(&mut key, self.bold);
        assert(key@ =~= bool_text(self.bold));
        key.append(":");
        push_decimal(&mut key, self.font_charset as u128);
        key.append(":");
        push_hex_upper(&mut key, self.font_color.value() as u64, 6);
        key.append(":");
        push_bool(&mut key, self.font_condense);
        key.append(":");
        push_bool(&mut key, self.font_extend);
        key.append(":");
        push_decimal(&mut key, self.font_family as u128);
        key.append(":");
        key.append(self.font_name.as_str());
        key.append(":");
        key.append(self.font_scheme.as_str());
        key.append(":");
        push_decimal(&mut key, self.font_script.to_code() as u128);
        key.append(":");
        key.append(self.font_size.as_str());
        key.append(":");
        push_bool(&mut key, self.font_strikeout);
        key.append(":");
        push_bool(&mut key, self.italic);
        key.append(":");
        push_decimal(&mut key, self.theme as u128);
        key.append(":");
        push_decimal(&mut key, self.underline.to_code() as u128);
        key
    }

    /// The key of the whole format: the keys of alignment, borders, fill and
    /// font, then hidden, locked, the number format and its index, separated
    /// by colons. Two formats are the same style exactly if their keys are
    /// equal.
    #[verifier::opaque]
    pub open spec fn format_key_text(self) -> Seq<char> {
        self.alignment_key_text() + ":"@
            + self.border_key_text() + ":"@
            + self.fill_key_text() + ":"@
            + self.font_key_text() + ":"@
            + bool_text(self.hidden) + ":"@
            + bool_text(self.locked) + ":"@
            + self.num_format@ + ":"@
            + decimal(self.num_format_index as nat)
    }

    /// The key of the whole format: the keys of alignment, borders, fill and
    /// font, then hidden, locked, the number format and its index, separated
    /// by colons. Two formats are the same style exactly if their keys are
    /// equal.
    pub fn format_key(&self) -> (key: String)
        ensures
            key@ == self.format_key_text(),
    {
        reveal(Format::format_key_text);
        let mut key = self.alignment_key();
        key.append(":");
        key.append(self.border_key().as_str());
        key.append(":");
        key.append(self.fill_key().as_str());
        key.append(":");
        key.append(self.font_key().as_str());
        key.append(":");
        push_bool(&mut key, self.hidden);
        key.append(":");
        push_bool(&mut key, self.locked);
        key.append(":");
        key.append(self.num_format.as_str());
        key.append(":");
        push_decimal(&mut key, self.num_format_index as u128);
        key
    }

    /// The keys of a format do not depend on its indices: a format and the
    /// same format with other indices have the same keys.
    pub proof fn lemma_keys_ignore_indices(self, other: Format)
        requires
            other == self.with_indices(
                other.xf_index,
                other.font_index,
                other.has_font,
                other.fill_index,
                other.has_fill,
            ),
        ensures
            other.format_key_text() == self.format_key_text(),
            other.font_key_text() == self.font_key_text(),
            other.fill_key_text() == self.fill_key_text(),
            other.border_key_text() == self.border_key_text(),
            other.alignment_key_text() == self.alignment_key_text(),
    {
        reveal(Format::format_key_text);
        reveal(Format::font_key_text);
        reveal(Format::fill_key_text);
        reveal(Format::border_key_text);
        reveal(Format::alignment_key_text);
    }

    /// The key of the alignment holds 7 colons, those between its fields:
    /// no field of it holds one.
    pub proof fn lemma_alignment_key_colons(self)
        ensures
            colons(self.alignment_key_text()) == 7,
    {
        reveal(Format::alignment_key_text);
        lemma_decimal_no_colon(self.indent as nat);
        lemma_decimal_no_colon(self.reading_direction as nat);
        lemma_signed_decimal_no_colon(self.rotation as int);
        lemma_bool_text_no_colon(self.shrink);
        lemma_decimal_no_colon(self.horizontal_align.code() as nat);
        lemma_decimal_no_colon(self.vertical_align.code() as nat);
        lemma_bool_text_no_colon(self.justify_last);
        lemma_bool_text_no_colon(self.text_wrap);
        let text = decimal(self.indent as nat);
        lemma_colons_field(text, decimal(self.reading_direction as nat));
        let text = text + ":"@ + decimal(self.reading_direction as nat);
        lemma_colons_field(text, signed_decimal(self.rotation as int));
        let text = text + ":"@ + signed_decimal(self.rotation as int);
        lemma_colons_field(text, bool_text(self.shrink));
        let text = text + ":"@ + bool_text(self.shrink);
        lemma_colons_field(text, decimal(self.horizontal_align.code() as nat));
        let text = text + ":"@ + decimal(self.horizontal_align.code() as nat);
        lemma_colons_field(text, decimal(self.vertical_align.code() as nat));
        let text = text + ":"@ + decimal(self.vertical_align.code() as nat);
        lemma_colons_field(text, bool_text(self.justify_last));
        let text = text + ":"@ + bool_text(self.justify_last);
        lemma_colons_field(text, bool_text(self.text_wrap));
        let text = text + ":"@ + bool_text(self.text_wrap);
    }

    /// The key of the borders holds 10 colons, those between its fields:
    /// no field of it holds one.
    pub proof fn lemma_border_key_colons(self)
        ensures
            colons(self.border_key_text()) == 10,
    {
        reveal(Format::border_key_text);
        lemma_decimal_no_colon(self.bottom as nat);
        lemma_hex_upper_no_colon(self.bottom_color.spec_value() as nat, 6);
        lemma_decimal_no_colon(self.diagonal_border as nat);
        lemma_hex_upper_no_colon(self.diagonal_color.spec_value() as nat, 6);
        lemma_decimal_no_colon(self.diagonal_type as nat);
        lemma_decimal_no_colon(self.left as nat);
        lemma_hex_upper_no_colon(self.left_color.spec_value() as nat, 6);
        lemma_decimal_no_colon(self.right as nat);
        lemma_hex_upper_no_colon(self.right_color.spec_value() as nat, 6);
        lemma_decimal_no_colon(self.top as nat);
        lemma_hex_upper_no_colon(self.top_color.spec_value() as nat, 6);
        let text = decimal(self.bottom as nat);
        lemma_colons_field(text, self.bottom_color.hex_text());
        let text = text + ":"@ + self.bottom_color.hex_text();
        lemma_colons_field(text, decimal(self.diagonal_border as nat));
        let text = text + ":"@ + decimal(self.diagonal_border as nat);
        lemma_colons_field(text, self.diagonal_color.hex_text());
        let text = text + ":"@ + self.diagonal_color.hex_text();
        lemma_colons_field(text, decimal(self.diagonal_type as nat));
        let text = text + ":"@ + decimal(self.diagonal_type as nat);
        lemma_colons_field(text, decimal(self.left as nat));
        let text = text + ":"@ + decimal(self.left as nat);
        lemma_colons_field(text, self.left_color.hex_text());
        let text = text + ":"@ + self.left_color.hex_text();
        lemma_colons_field(text, decimal(self.right as nat));
        let text = text + ":"@ + decimal(self.right as nat);
        lemma_colons_field(text, self.right_color.hex_text());
        let text = text + ":"@ + self.right_color.hex_text();
        lemma_colons_field(text, decimal(self.top as nat));
        let text = text + ":"@ + decimal(self.top as nat);
        lemma_colons_field(text, self.top_color.hex_text());
        let text = text + ":"@ + self.top_color.hex_text();
    }

    /// The key of the fill holds 2 colons, those between its fields:
    /// no field of it holds one.
    pub proof fn lemma_fill_key_colons(self)
        ensures
            colons(self.fill_key_text()) == 2,
    {
        reveal(Format::fill_key_text);
        lemma_hex_upper_no_colon(self.background_color.spec_value() as nat, 6);
        lemma_hex_upper_no_colon(self.foreground_color.spec_value() as nat, 6);
        lemma_decimal_no_colon(self.pattern.code() as nat);
        let text = self.background_color.hex_text();
        lemma_colons_field(text, self.foreground_color.hex_text());
        let text = text + ":"@ + self.foreground_color.hex_text();
        lemma_colons_field(text, decimal(self.pattern.code() as nat));
        let text = text + ":"@ + decimal(self.pattern.code() as nat);
    }

    /// What stands in the key of a format behind the keys of alignment,
    /// borders and fill, and the colon that follows them.
    pub open spec fn format_key_rest(self) -> Seq<char> {
        self.font_key_text() + ":"@ + bool_text(self.hidden) + ":"@ + bool_text(self.locked) + ":"@
            + self.num_format@ + ":"@ + decimal(self.num_format_index as nat)
    }

    /// The key of a format is the keys of alignment, borders and fill, a
    /// colon, and the rest.
    proof fn lemma_format_key_parts(self)
        ensures
            self.format_key_text() == (self.alignment_key_text() + ":"@ + self.border_key_text()
                + ":"@ + self.fill_key_text() + seq![':']) + self.format_key_rest(),
    {
        reveal(Format::format_key_text);
        reveal_strlit(":");
        assert(":"@ =~= seq![':']);
        let start = self.alignment_key_text() + ":"@ + self.border_key_text() + ":"@
            + self.fill_key_text() + ":"@;
        let rest = self.font_key_text();
        lemma_concat_assoc(start, rest, ":"@);
        let rest = rest + ":"@;
        lemma_concat_assoc(start, rest, bool_text(self.hidden));
        let rest = rest + bool_text(self.hidden);
        lemma_concat_assoc(start, rest, ":"@);
        let rest = rest + ":"@;
        lemma_concat_assoc(start, rest, bool_text(self.locked));
        let rest = rest + bool_text(self.locked);
        lemma_concat_assoc(start, rest, ":"@);
        let rest = rest + ":"@;
        lemma_concat_assoc(start, rest, self.num_format@);
        let rest = rest + self.num_format@;
        lemma_concat_assoc(start, rest, ":"@);
        let rest = rest + ":"@;
        lemma_concat_assoc(start, rest, decimal(self.num_format_index as nat));
    }

    /// The key of a format fixes the keys of its alignment, its borders and
    /// its fill: formats with the same key have the same three keys. Their
    /// fields hold no colon, so each of them ends where the colons are
    /// counted out. The key of the font is not fixed so: the names in it may
    /// hold colons.
    pub proof fn lemma_format_key_fixes_fill(self, other: Format)
        requires
            self.format_key_text() == other.format_key_text(),
        ensures
            self.alignment_key_text() == other.alignment_key_text(),
            self.border_key_text() == other.border_key_text(),
            self.fill_key_text() == other.fill_key_text(),
    {
        self.lemma_format_key_parts();
        other.lemma_format_key_parts();
        self.lemma_alignment_key_colons();
        self.lemma_border_key_colons();
        self.lemma_fill_key_colons();
        other.lemma_alignment_key_colons();
        other.lemma_border_key_colons();
        other.lemma_fill_key_colons();
        let a = self.alignment_key_text();
        let b = self.border_key_text();
        let f = self.fill_key_text();
        let a2 = other.alignment_key_text();
        let b2 = other.border_key_text();
        let f2 = other.fill_key_text();
        lemma_colons_field(a, b);
        lemma_colons_field(a + ":"@ + b, f);
        lemma_colons_field(a2, b2);
        lemma_colons_field(a2 + ":"@ + b2, f2);
        lemma_colon_splits(
            a + ":"@ + b + ":"@ + f,
            self.format_key_rest(),
            a2 + ":"@ + b2 + ":"@ + f2,
            other.format_key_rest(),
        );
        lemma_colon_splits(a + ":"@ + b, f, a2 + ":"@ + b2, f2);
        lemma_colon_splits(a, b, a2, b2);
    }

    /// Whether the format has an alignment that is written out: any
    /// alignment property other than the defaults, where a vertical alignment
    /// to the bottom counts as a default, since cells are aligned so anyway.
    pub open spec fn spec_has_alignment(&self) -> bool {
        self.horizontal_align != XlsxAlign::General || !(self.vertical_align == XlsxAlign::General
            || self.vertical_align == XlsxAlign::Bottom) || self.indent != 0 || self.rotation != 0
            || self.text_wrap || self.shrink || self.reading_direction != 0
    }

    /// Whether the format has an alignment that is written out: any
    /// alignment property other than the defaults, where a vertical alignment
    /// to the bottom counts as a default, since cells are aligned so anyway.
    #[verifier::when_used_as_spec(spec_has_alignment)]
    pub fn has_alignment(&self) -> (has: bool)
        ensures
            has == self.spec_has_alignment(),
    {
        !matches!(self.horizontal_align, XlsxAlign::General) || !(matches!(
            self.vertical_align,
            XlsxAlign::General
        ) || matches!(self.vertical_align, XlsxAlign::Bottom)) || self.indent != 0 || self.rotation
            != 0 || self.text_wrap || self.shrink || self.reading_direction != 0
    }

    /// Whether the style is marked as applying an alignment: any alignment
    /// property other than the defaults, a vertical alignment to the bottom
    /// included.
    pub open spec fn spec_apply_alignment(&self) -> bool {
        self.horizontal_align != XlsxAlign::General || self.vertical_align != XlsxAlign::General
            || self.indent != 0 || self.rotation != 0 || self.text_wrap || self.shrink
            || self.reading_direction != 0
    }

    /// Whether the style is marked as applying an alignment: any alignment
    /// property other than the defaults, a vertical alignment to the bottom
    /// included.
    #[verifier::when_used_as_spec(spec_apply_alignment)]
    pub fn apply_alignment(&self) -> (apply: bool)
        ensures
            apply == self.spec_apply_alignment(),
    {
        !matches!(self.horizontal_align, XlsxAlign::General) || !matches!(
            self.vertical_align,
            XlsxAlign::General
        ) || self.indent != 0 || self.rotation != 0 || self.text_wrap || self.shrink
            || self.reading_direction != 0
    }

    /// The two alignment predicates differ on exactly one kind of format:
    /// one that is aligned to the bottom and has no other alignment property.
    /// Such a format is marked as applying an alignment, and none is written.
    pub proof fn lemma_alignment_predicates(self)
        ensures
            self.spec_has_alignment() ==> self.spec_apply_alignment(),
            (self.spec_apply_alignment() && !self.spec_has_alignment()) <==> (self.vertical_align
                == XlsxAlign::Bottom && self.horizontal_align == XlsxAlign::General && self.indent
                == 0 && self.rotation == 0 && !self.text_wrap && !self.shrink
                && self.reading_direction == 0),
    {
    }

    /// The format with the indices given in place of its own.
    pub open spec fn with_indices(
        self,
        xf_index: u32,
        font_index: u16,
        has_font: bool,
        fill_index: u16,
        has_fill: bool,
    ) -> Format {
        Format { xf_index, font_index, fill_index, has_font, has_fill, ..self }
    }

    /// A copy of the format with the indices given in place of its own.
    pub fn to_resolved(
        &self,
        xf_index: u32,
        font_index: u16,
        has_font: bool,
        fill_index: u16,
        has_fill: bool,
    ) -> (resolved: Format)
        ensures
            resolved == self.with_indices(xf_index, font_index, has_font, fill_index, has_fill),
    {
        let mut resolved = self.clone();
        resolved.xf_index = xf_index;
        resolved.font_index = font_index;
        resolved.has_font = has_font;
        resolved.fill_index = fill_index;
        resolved.has_fill = has_fill;
        resolved
    }

    /// Records the index of the format in the style table.
    pub fn set_xf_index(&mut self, index: u32)
        ensures
            *final(self) == (Format { xf_index: index, ..*old(self) }),
    {
        self.xf_index = index;
    }

    /// Records the index of the format's font, and whether it is another than the default font.
    pub fn set_font_index(&mut self, font_index: u16, has_font: bool)
        ensures
            *final(self) == (Format { font_index: font_index, has_font: has_font, ..*old(self) }),
    {
        self.font_index = font_index;
        self.has_font = has_font;
    }

    /// Records the index of the format's fill, and whether it is another than the default fill.
    pub fn set_fill_index(&mut self, fill_index: u16, has_fill: bool)
        ensures
            *final(self) == (Format { fill_index: fill_index, has_fill: has_fill, ..*old(self) }),
    {
        self.fill_index = fill_index;
        self.has_fill = has_fill;
    }

    /// Sets the index of the number format to one beyond the built-in ones.
    pub fn set_num_format_index_u16(&mut self, num_format_index: u16)
        ensures
            *final(self) == (Format { num_format_index: num_format_index, ..*old(self) }),
    {
        self.num_format_index = num_format_index;
    }

    /// Sets the number format, as a format string such as `0.00`.
    pub fn set_num_format(self, num_format: &str) -> (result: Format)
        ensures
            result.num_format@ == num_format@,
            result == (Format { num_format: result.num_format, ..self }),
    {
        let mut format = self;
        format.num_format = num_format.to_owned();
        format
    }

    /// Sets the number format to one of the built-in ones, by its index.
    pub fn set_num_format_index(self, num_format_index: u8) -> (result: Format)
        ensures
            result == (Format { num_format_index: num_format_index as u16, ..self }),
    {
        let mut format = self;
        format.num_format_index = num_format_index as u16;
        format
    }

    /// Makes the font bold.
    pub fn set_bold(self) -> (result: Format)
        ensures
            result == (Format { bold: true, ..self }),
    {
        let mut format = self;
        format.bold = true;
        format
    }

    /// Makes the font italic.
    pub fn set_italic(self) -> (result: Format)
        ensures
            result == (Format { italic: true, ..self }),
    {
        let mut format = self;
        format.italic = true;
        format
    }

    /// Sets the color of the font. A color that is not valid is ignored, and the
    /// format stays as it is.
    pub fn set_font_color(self, font_color: XlsxColor) -> (result: Format)
        ensures
            font_color.spec_is_valid() ==> result == (Format { font_color: font_color, ..self }),
            !font_color.spec_is_valid() ==> result == self,
    {
        let mut format = self;
        if !font_color.is_valid() {
            return format;
        }
        format.font_color = font_color;
        format
    }

    /// Sets the name of the font.
    pub fn set_font_name(self, font_name: &str) -> (result: Format)
        ensures
            result.font_name@ == font_name@,
            result == (Format { font_name: result.font_name, ..self }),
    {
        let mut format = self;
        format.font_name = font_name.to_owned();
        format
    }

    /// Whether a text is the size of a font: the decimal text of a number
    /// that is not negative, in the one form that a number has, such as `11`
    /// or `10.5`. A size has one text, so equal sizes are one font.
    pub fn is_valid_font_size(font_size: &str) -> (valid: bool)
        ensures
            valid == is_number_text(font_size@),
    {
        is_number(font_size)
    }

    /// Sets the size of the font in points, given as decimal text such as
    /// `11` or `10.5`. Text of another form, such as `11.0` or `-1`, is
    /// ignored, and the format stays as it is.
    pub fn set_font_size(self, font_size: &str) -> (result: Format)
        ensures
            is_number_text(font_size@) ==> result.font_size@ == font_size@ && result == (Format {
                font_size: result.font_size,
                ..self
            }),
            !is_number_text(font_size@) ==> result == self,
    {
        let mut format = self;
        if !is_number(font_size) {
            return format;
        }
        format.font_size = font_size.to_owned();
        format
    }

    /// Sets the scheme of the font.
    pub fn set_font_scheme(self, font_scheme: &str) -> (result: Format)
        ensures
            result.font_scheme@ == font_scheme@,
            result == (Format { font_scheme: result.font_scheme, ..self }),
    {
        let mut format = self;
        format.font_scheme = font_scheme.to_owned();
        format
    }

    /// Sets the family of the font.
    pub fn set_font_family(self, font_family: u8) -> (result: Format)
        ensures
            result == (Format { font_family: font_family, ..self }),
    {
        let mut format = self;
        format.font_family = font_family;
        format
    }

    /// Sets the character set of the font.
    pub fn set_font_charset(self, font_charset: u8) -> (result: Format)
        ensures
            result == (Format { font_charset: font_charset, ..self }),
    {
        let mut format = self;
        format.font_charset = font_charset;
        format
    }

    /// Sets the underline of the font.
    pub fn set_underline(self, underline: XlsxUnderline) -> (result: Format)
        ensures
            result == (Format { underline: underline, ..self }),
    {
        let mut format = self;
        format.underline = underline;
        format
    }

    /// Strikes the text out.
    pub fn set_font_strikeout(self) -> (result: Format)
        ensures
            result == (Format { font_strikeout: true, ..self }),
    {
        let mut format = self;
        format.font_strikeout = true;
        format
    }

    /// Raises or lowers the font.
    pub fn set_font_script(self, font_script: XlsxScript) -> (result: Format)
        ensures
            result == (Format { font_script: font_script, ..self }),
    {
        let mut format = self;
        format.font_script = font_script;
        format
    }

    /// The horizontal alignment after `align` is set: `align` itself where
    /// it is horizontal or `General`, else what it was.
    pub open spec fn horizontal_after(self, align: XlsxAlign) -> XlsxAlign {
        if align.code() <= 7 {
            align
        } else {
            self.horizontal_align
        }
    }

    /// The vertical alignment after `align` is set: `align` itself where it
    /// is vertical or `General`, else what it was.
    pub open spec fn vertical_after(self, align: XlsxAlign) -> XlsxAlign {
        if align.code() == 0 || align.code() >= 8 {
            align
        } else {
            self.vertical_align
        }
    }

    /// Sets an alignment: a horizontal alignment replaces the horizontal one,
    /// a vertical alignment the vertical one, and `General` resets both.
    pub fn set_align(self, align: XlsxAlign) -> (result: Format)
        ensures
            result == (Format {
                horizontal_align: self.horizontal_after(align),
                vertical_align: self.vertical_after(align),
                ..self
            }),
    {
        let mut format = self;
        let code = align.to_code();
        if code <= 7 {
            format.horizontal_align = align;
        }
        if code == 0 || code >= 8 {
            format.vertical_align = align;
        }
        format
    }

    /// Wraps the text in the cell.
    pub fn set_text_wrap(self) -> (result: Format)
        ensures
            result == (Format { text_wrap: true, ..self }),
    {
        let mut format = self;
        format.text_wrap = true;
        format
    }

    /// Sets the level of indentation.
    pub fn set_indent(self, indent: u8) -> (result: Format)
        ensures
            result == (Format { indent: indent, ..self }),
    {
        let mut format = self;
        format.indent = indent;
        format
    }

    /// The angle that the file holds for a rotation given in degrees, where
    /// the rotation is one that a cell can have: 0 to 90 stay, -1 to -90
    /// become 91 to 180, and 270, which asks for stacked text, becomes 255.
    pub open spec fn stored_rotation(rotation: i16) -> Option<i16> {
        if rotation == 270 {
            Some(255i16)
        } else if -90 <= rotation <= -1 {
            Some((90 - rotation) as i16)
        } else if 0 <= rotation <= 90 {
            Some(rotation)
        } else {
            None
        }
    }

    /// Whether a rotation, in degrees, is one that a cell can have.
    pub fn is_valid_rotation(rotation: i16) -> (valid: bool)
        ensures
            valid == Self::stored_rotation(rotation) is Some,
    {
        rotation == 270 || (-90 <= rotation && rotation <= 90)
    }

    /// Whether a number stands for a reading direction.
    pub fn is_valid_reading_direction(reading_direction: u8) -> (valid: bool)
        ensures
            valid == (reading_direction <= 2),
    {
        reading_direction <= 2
    }

    /// Sets the rotation of the text, in degrees from -90 to 90, or 270 for
    /// stacked text. Any other rotation is ignored, and the format stays as
    /// it is.
    pub fn set_rotation(self, rotation: i16) -> (result: Format)
        ensures
            match Self::stored_rotation(rotation) {
                Some(angle) => result == (Format { rotation: angle, ..self }),
                None => result == self,
            },
    {
        let mut format = self;
        if rotation == 270 {
            format.rotation = 255;
        } else if -90 <= rotation && rotation <= -1 {
            format.rotation = 90 - rotation;
        } else if 0 <= rotation && rotation <= 90 {
            format.rotation = rotation;
        }
        format
    }

    /// Sets the reading direction: 0 for the context's, 1 for left to right,
    /// 2 for right to left. Any other value is ignored, and the format stays
    /// as it is.
    pub fn set_reading_direction(self, reading_direction: u8) -> (result: Format)
        ensures
            reading_direction <= 2 ==> result == (Format { reading_direction, ..self }),
            reading_direction > 2 ==> result == self,
    {
        let mut format = self;
        if reading_direction > 2 {
            return format;
        }
        format.reading_direction = reading_direction;
        format
    }

    /// Shrinks the text to fit the cell.
    pub fn set_shrink(self) -> (result: Format)
        ensures
            result == (Format { shrink: true, ..self }),
    {
        let mut format = self;
        format.shrink = true;
        format
    }

    /// Sets the pattern of the fill.
    pub fn set_pattern(self, pattern: XlsxPattern) -> (result: Format)
        ensures
            result == (Format { pattern: pattern, ..self }),
    {
        let mut format = self;
        format.pattern = pattern;
        format
    }

    /// Sets the background color of the fill. A color that is not valid is ignored, and the
    /// format stays as it is.
    pub fn set_background_color(self, background_color: XlsxColor) -> (result: Format)
        ensures
            background_color.spec_is_valid() ==> result == (Format { background_color: background_color, ..self }),
            !background_color.spec_is_valid() ==> result == self,
    {
        let mut format = self;
        if !background_color.is_valid() {
            return format;
        }
        format.background_color = background_color;
        format
    }

    /// Sets the foreground color of the fill. A color that is not valid is ignored, and the
    /// format stays as it is.
    pub fn set_foreground_color(self, foreground_color: XlsxColor) -> (result: Format)
        ensures
            foreground_color.spec_is_valid() ==> result == (Format { foreground_color: foreground_color, ..self }),
            !foreground_color.spec_is_valid() ==> result == self,
    {
        let mut format = self;
        if !foreground_color.is_valid() {
            return format;
        }
        format.foreground_color = foreground_color;
        format
    }
}

} // verus!
