//! The table of styles: every distinct format gets an index in the order in
//! which it is first registered, and so do the distinct fonts and fills.

use vstd::prelude::*;
use crate::format::{Format, XlsxColor, XlsxPattern, XlsxScript, XlsxUnderline, is_default_format};

verus! {

/// The index of `key` in a pool of keys: the first position that holds it,
/// or the length of the pool where none does.
pub open spec fn pool_index(pool: Seq<Seq<char>>, key: Seq<char>) -> int
    decreases pool.len(),
{
    if pool.len() == 0 || pool[0] == key {
        0
    } else {
        1 + pool_index(pool.drop_first(), key)
    }
}

/// What `pool_index` returns is within the pool or just behind it; where it
/// is within, that position holds the key, and no position before it does.
pub proof fn lemma_pool_index(pool: Seq<Seq<char>>, key: Seq<char>)
    ensures
        0 <= pool_index(pool, key) <= pool.len(),
        pool_index(pool, key) < pool.len() ==> pool[pool_index(pool, key)] == key,
        forall|j: int| 0 <= j < pool_index(pool, key) ==> pool[j] != key,
        pool_index(pool, key) < pool.len() <==> pool.contains(key),
    decreases pool.len(),
{
    if pool.len() == 0 || pool[0] == key {
        if pool.len() > 0 {
            assert(pool[0] == key);
        }
    } else {
        let rest = pool.drop_first();
        lemma_pool_index(rest, key);
        let i = pool_index(rest, key);
        assert forall|j: int| 0 <= j < 1 + i implies pool[j] != key by {
            if j > 0 {
                assert(rest[j - 1] == pool[j]);
            }
        }
        if i < rest.len() {
            assert(rest[i] == pool[i + 1]);
        }
        if pool.contains(key) {
            let k = choose|k: int| 0 <= k < pool.len() && pool[k] == key;
            assert(rest[k - 1] == key);
        }
    }
}

/// The first position that holds the key, or the length where none does, is
/// what `pool_index` returns.
pub proof fn lemma_pool_index_is(pool: Seq<Seq<char>>, key: Seq<char>, i: int)
    requires
        0 <= i <= pool.len(),
        forall|j: int| 0 <= j < i ==> pool[j] != key,
        i < pool.len() ==> pool[i] == key,
    ensures
        pool_index(pool, key) == i,
{
    lemma_pool_index(pool, key);
}

/// The keys of a sequence of strings.
pub open spec fn keys_view(keys: Seq<String>) -> Seq<Seq<char>> {
    Seq::new(keys.len(), |i: int| keys[i]@)
}

/// The position of `key` among `keys`, or their number where it is not among
/// them.
pub fn find_key(keys: &Vec<String>, key: &String) -> (index: usize)
    ensures
        index == pool_index(keys_view(keys@), key@),
{
    let mut i: usize = 0;
    while i < keys.len()
        invariant
            i <= keys@.len(),
            forall|j: int| 0 <= j < i ==> keys_view(keys@)[j] != key@,
        decreases keys@.len() - i,
    {
        if keys[i] == *key {
            proof {
                lemma_pool_index_is(keys_view(keys@), key@, i as int);
            }
            return i;
        }
        i += 1;
    }
    proof {
        lemma_pool_index_is(keys_view(keys@), key@, i as int);
    }
    i
}

/// Whether the font of `format` is the default font, Calibri 11.
pub open spec fn has_default_font(format: Format) -> bool {
    &&& !format.bold
    &&& format.font_charset == 0
    &&& format.font_color == XlsxColor::Automatic
    &&& !format.font_condense
    &&& !format.font_extend
    &&& format.font_family == 2
    &&& format.font_name@ == "Calibri"@
    &&& format.font_scheme@ == Seq::<char>::empty()
    &&& format.font_script == XlsxScript::NoScript
    &&& format.font_size@ == "11"@
    &&& !format.font_strikeout
    &&& !format.italic
    &&& format.theme == 0
    &&& format.underline == XlsxUnderline::NoUnderline
}

/// Whether the fill of `format` has the pattern given and no colors of its
/// own. The two fills that every file holds are of this kind.
pub open spec fn has_plain_fill(format: Format, pattern: XlsxPattern) -> bool {
    &&& format.background_color == XlsxColor::Automatic
    &&& format.foreground_color == XlsxColor::Automatic
    &&& format.pattern == pattern
}

/// What a style table holds: the styles, the fonts and the fills, each in the
/// order of first registration. A style is held as the format that was
/// registered, with its indices set; a font or a fill as the first format
/// that was registered with it.
pub struct StylePools {
    pub styles: Seq<Format>,
    pub fonts: Seq<Format>,
    pub fills: Seq<Format>,
}

impl StylePools {
    /// The keys of the styles, by index.
    pub open spec fn style_keys(self) -> Seq<Seq<char>> {
        Seq::new(self.styles.len(), |i: int| self.styles[i].format_key_text())
    }

    /// The keys of the fonts, by index.
    pub open spec fn font_keys(self) -> Seq<Seq<char>> {
        Seq::new(self.fonts.len(), |i: int| self.fonts[i].font_key_text())
    }

    /// The keys of the fills, by index.
    pub open spec fn fill_keys(self) -> Seq<Seq<char>> {
        Seq::new(self.fills.len(), |i: int| self.fills[i].fill_key_text())
    }

    /// The reserved entries are there: the default font at index 0, the empty
    /// fill at index 0 and the fill `gray125` at index 1.
    pub open spec fn has_reserved(self) -> bool {
        &&& self.fonts.len() >= 1
        &&& has_default_font(self.fonts[0])
        &&& self.fills.len() >= 2
        &&& has_plain_fill(self.fills[0], XlsxPattern::NoFill)
        &&& has_plain_fill(self.fills[1], XlsxPattern::Gray125)
    }

    /// The style at index `i` knows its index, and its font and fill are the
    /// ones that its indices name.
    pub open spec fn style_resolved(self, i: int) -> bool {
        let style = self.styles[i];
        &&& style.xf_index == i
        &&& style.font_index < self.fonts.len()
        &&& style.fill_index < self.fills.len()
        &&& style.has_font == (style.font_index != 0)
        &&& style.has_fill == (style.fill_index != 0)
        &&& self.fonts[style.font_index as int].font_key_text() == style.font_key_text()
        &&& self.fills[style.fill_index as int].fill_key_text() == style.fill_key_text()
    }

    /// No key occurs twice in a pool, the reserved entries are there, every
    /// style is resolved, and the indices fit their types.
    pub open spec fn wf(self) -> bool {
        &&& self.style_keys().no_duplicates()
        &&& self.font_keys().no_duplicates()
        &&& self.fill_keys().no_duplicates()
        &&& self.has_reserved()
        &&& forall|i: int| 0 <= i < self.styles.len() ==> #[trigger] self.style_resolved(i)
        &&& self.styles.len() <= u32::MAX
        &&& self.fonts.len() <= u16::MAX
        &&& self.fills.len() <= u16::MAX
    }

    /// Whether `format` can be registered: each pool to which it would add an
    /// entry has an index left. A format whose style, font and fill are
    /// registered adds nothing, and can be registered in a full table.
    pub open spec fn has_room_for(self, format: Format) -> bool {
        &&& self.has_style(format) || self.styles.len() < u32::MAX
        &&& self.font_index(format) < self.fonts.len() || self.fonts.len() < u16::MAX
        &&& self.fill_index(format) < self.fills.len() || self.fills.len() < u16::MAX
    }

    /// Whether one more style, font and fill can get an index, whatever
    /// format is registered.
    pub open spec fn has_room(self) -> bool {
        &&& self.styles.len() < u32::MAX
        &&& self.fonts.len() < u16::MAX
        &&& self.fills.len() < u16::MAX
    }

    /// The index of the style of `format`: that of the style with its key, or
    /// the next free one.
    pub open spec fn style_index(self, format: Format) -> int {
        pool_index(self.style_keys(), format.format_key_text())
    }

    /// The index of the font of `format`: that of the font with its key, or
    /// the next free one.
    pub open spec fn font_index(self, format: Format) -> int {
        pool_index(self.font_keys(), format.font_key_text())
    }

    /// The index of the fill of `format`: that of the fill with its key, or
    /// the next free one.
    pub open spec fn fill_index(self, format: Format) -> int {
        pool_index(self.fill_keys(), format.fill_key_text())
    }

    /// Whether a style with the key of `format` is registered.
    pub open spec fn has_style(self, format: Format) -> bool {
        self.style_index(format) < self.styles.len()
    }

    /// `format` with its indices set as registering it sets them. A format
    /// whose style is registered gets that style's index, and the font and
    /// fill indices that were found for that style. Another one gets the next
    /// free style index, and the indices of its font and fill. A font or a
    /// fill counts as the format's own where its index is not 0.
    pub open spec fn resolved(self, format: Format) -> Format {
        let index = self.style_index(format);
        if self.has_style(format) {
            format.with_indices(
                index as u32,
                self.styles[index].font_index,
                self.styles[index].has_font,
                self.styles[index].fill_index,
                self.styles[index].has_fill,
            )
        } else {
            format.with_indices(
                index as u32,
                self.font_index(format) as u16,
                self.font_index(format) != 0,
                self.fill_index(format) as u16,
                self.fill_index(format) != 0,
            )
        }
    }

    /// The pools after `format` is registered: its font, its fill and its
    /// style are added at the end of their pools, each only if its key is not
    /// in the pool yet.
    pub open spec fn register(self, format: Format) -> StylePools {
        StylePools {
            styles: if self.has_style(format) {
                self.styles
            } else {
                self.styles.push(self.resolved(format))
            },
            fonts: if self.font_index(format) < self.fonts.len() {
                self.fonts
            } else {
                self.fonts.push(format)
            },
            fills: if self.fill_index(format) < self.fills.len() {
                self.fills
            } else {
                self.fills.push(format)
            },
        }
    }
}

/// A pool to which a key that it does not hold is added still holds no key
/// twice, and the key is found at the end.
pub proof fn lemma_pool_push(pool: Seq<Seq<char>>, key: Seq<char>)
    requires
        pool.no_duplicates(),
        pool_index(pool, key) == pool.len(),
    ensures
        pool.push(key).no_duplicates(),
        pool_index(pool.push(key), key) == pool.len(),
{
    lemma_pool_index(pool, key);
    lemma_pool_index_is(pool.push(key), key, pool.len() as int);
}

/// Adding a key at the end of a pool leaves the index of every key that the
/// pool holds as it was.
pub proof fn lemma_pool_index_stable(pool: Seq<Seq<char>>, added: Seq<char>, key: Seq<char>)
    requires
        pool_index(pool, key) < pool.len(),
    ensures
        pool_index(pool.push(added), key) == pool_index(pool, key),
{
    lemma_pool_index(pool, key);
    lemma_pool_index_is(pool.push(added), key, pool_index(pool, key));
}

/// Looks `key` up among `keys` and returns its index. A key that is not held
/// yet is added at the end, and `format` with it.
pub fn intern(
    keys: &mut Vec<String>,
    formats: &mut Vec<Format>,
    key: String,
    format: &Format,
) -> (index: usize)
    ensures
        index == pool_index(keys_view(old(keys)@), key@),
        index < old(keys)@.len() ==> final(keys)@ == old(keys)@ && final(formats)@ == old(formats)@,
        index == old(keys)@.len() ==> final(keys)@ == old(keys)@.push(key) && final(formats)@ == old(
            formats,
        )@.push(*format),
{
    let index = find_key(keys, &key);
    proof {
        lemma_pool_index(keys_view(keys@), key@);
    }
    if index == keys.len() {
        keys.push(key);
        formats.push(format.clone());
    }
    index
}

impl StylePools {
    /// The keys of a pool to which a format is added are its keys and the
    /// key of that format.
    pub proof fn lemma_keys_push(self, format: Format)
        ensures
            (StylePools { styles: self.styles.push(format), ..self }).style_keys()
                == self.style_keys().push(format.format_key_text()),
            (StylePools { fonts: self.fonts.push(format), ..self }).font_keys() == self.font_keys().push(
                format.font_key_text(),
            ),
            (StylePools { fills: self.fills.push(format), ..self }).fill_keys() == self.fill_keys().push(
                format.fill_key_text(),
            ),
    {
        assert((StylePools { styles: self.styles.push(format), ..self }).style_keys()
            =~= self.style_keys().push(format.format_key_text()));
        assert((StylePools { fonts: self.fonts.push(format), ..self }).font_keys()
            =~= self.font_keys().push(format.font_key_text()));
        assert((StylePools { fills: self.fills.push(format), ..self }).fill_keys()
            =~= self.fill_keys().push(format.fill_key_text()));
    }

    /// Registering a format keeps the pools well formed.
    pub proof fn lemma_register_wf(self, format: Format)
        requires
            self.wf(),
            self.has_room_for(format),
        ensures
            self.register(format).wf(),
    {
        let after = self.register(format);
        let resolved = self.resolved(format);
        self.lemma_keys_push(format);
        self.lemma_keys_push(resolved);
        format.lemma_keys_ignore_indices(resolved);
        lemma_pool_index(self.font_keys(), format.font_key_text());
        lemma_pool_index(self.fill_keys(), format.fill_key_text());
        lemma_pool_index(self.style_keys(), format.format_key_text());
        if self.font_index(format) == self.fonts.len() {
            lemma_pool_push(self.font_keys(), format.font_key_text());
        }
        if self.fill_index(format) == self.fills.len() {
            lemma_pool_push(self.fill_keys(), format.fill_key_text());
        }
        if !self.has_style(format) {
            lemma_pool_push(self.style_keys(), format.format_key_text());
        }
        assert(after.font_keys().no_duplicates());
        assert(after.fill_keys().no_duplicates());
        assert(after.style_keys().no_duplicates());
        assert forall|i: int| 0 <= i < after.styles.len() implies #[trigger] after.style_resolved(
            i,
        ) by {
            if i < self.styles.len() {
                assert(self.style_resolved(i));
            }
        }
    }
}

impl StylePools {
    /// The pools after the formats of a sequence are registered one after the
    /// other.
    pub open spec fn register_all(self, formats: Seq<Format>) -> StylePools
        decreases formats.len(),
    {
        if formats.len() == 0 {
            self
        } else {
            self.register_all(formats.drop_last()).register(formats.last())
        }
    }

    /// Formats with the same key are one style. In any state of the pools
    /// they get the same index; and once one of them is registered, the other
    /// gets that index too, and registering it adds no style.
    pub proof fn lemma_same_key_same_index(self, a: Format, b: Format)
        requires
            a.format_key_text() == b.format_key_text(),
        ensures
            self.resolved(a).xf_index == self.resolved(b).xf_index,
            self.register(a).has_style(b),
            self.register(a).resolved(b).xf_index == self.resolved(a).xf_index,
            self.register(a).register(b).styles == self.register(a).styles,
    {
        let key = a.format_key_text();
        lemma_pool_index(self.style_keys(), key);
        if !self.has_style(a) {
            let resolved = self.resolved(a);
            a.lemma_keys_ignore_indices(resolved);
            self.lemma_keys_push(resolved);
            lemma_pool_index_is(self.style_keys().push(key), key, self.styles.len() as int);
        }
    }

    /// A style that is registered keeps its index, and a format of that style
    /// is resolved as before, whatever is registered after it.
    pub proof fn lemma_index_stable(self, format: Format, later: Format)
        requires
            self.has_style(format),
        ensures
            self.register(later).has_style(format),
            self.register(later).style_index(format) == self.style_index(format),
            self.register(later).resolved(format) == self.resolved(format),
    {
        let resolved = self.resolved(later);
        later.lemma_keys_ignore_indices(resolved);
        self.lemma_keys_push(resolved);
        lemma_pool_index(self.style_keys(), format.format_key_text());
        if !self.has_style(later) {
            lemma_pool_index_stable(
                self.style_keys(),
                later.format_key_text(),
                format.format_key_text(),
            );
        }
    }

    /// A style that is not registered yet gets the next free index: indices
    /// are given in the order of first registration.
    pub proof fn lemma_new_style_is_last(self, format: Format)
        requires
            !self.has_style(format),
        ensures
            self.style_index(format) == self.styles.len(),
            self.register(format).styles == self.styles.push(self.resolved(format)),
            self.register(format).style_index(format) == self.styles.len(),
    {
        let key = format.format_key_text();
        let resolved = self.resolved(format);
        lemma_pool_index(self.style_keys(), key);
        format.lemma_keys_ignore_indices(resolved);
        self.lemma_keys_push(resolved);
        lemma_pool_index_is(self.style_keys().push(key), key, self.styles.len() as int);
    }

    /// Registering a format leaves the reserved entries where they are and as
    /// they are: the font at index 0 and the fills at indices 0 and 1.
    pub proof fn lemma_register_keeps_reserved(self, format: Format)
        requires
            self.has_reserved(),
        ensures
            self.register(format).has_reserved(),
            self.register(format).fonts[0] == self.fonts[0],
            self.register(format).fills[0] == self.fills[0],
            self.register(format).fills[1] == self.fills[1],
    {
    }

    /// However many formats are registered, the reserved entries stay where
    /// they are and as they are.
    pub proof fn lemma_register_all_keeps_reserved(self, formats: Seq<Format>)
        requires
            self.has_reserved(),
        ensures
            self.register_all(formats).has_reserved(),
            self.register_all(formats).fonts[0] == self.fonts[0],
            self.register_all(formats).fills[0] == self.fills[0],
            self.register_all(formats).fills[1] == self.fills[1],
        decreases formats.len(),
    {
        if formats.len() > 0 {
            self.lemma_register_all_keeps_reserved(formats.drop_last());
            self.register_all(formats.drop_last()).lemma_register_keeps_reserved(formats.last());
        }
    }

    /// A format with the default font and the empty fill takes the reserved
    /// entries: it adds no font and no fill, and its font and fill indices
    /// are 0. Registered first, it is style 0.
    pub proof fn lemma_register_default(self, format: Format)
        requires
            self.has_reserved(),
            has_default_font(format),
            has_plain_fill(format, XlsxPattern::NoFill),
        ensures
            self.register(format).fonts == self.fonts,
            self.register(format).fills == self.fills,
            !self.has_style(format) ==> !self.resolved(format).has_font && !self.resolved(
                format,
            ).has_fill && self.resolved(format).font_index == 0 && self.resolved(format).fill_index
                == 0,
            self.styles.len() == 0 ==> self.resolved(format).xf_index == 0,
    {
        reveal(Format::font_key_text);
        reveal(Format::fill_key_text);
        assert(self.font_keys()[0] == format.font_key_text());
        assert(self.fill_keys()[0] == format.fill_key_text());
        lemma_pool_index(self.style_keys(), format.format_key_text());
    }
}

impl StylePools {
    /// The fill index that a format gets is the index of its fill in the pool
    /// of the fills, and the fill counts as the format's own exactly where
    /// that index is not 0. This holds of a format whose style is registered
    /// too: the key of a format fixes the key of its fill.
    ///
    /// So a format with the empty fill gets the fill index 0 and no fill of
    /// its own, one with the fill `gray125` gets the index 1, every other
    /// fill has an index of 2 or more, and a fill that is new gets the next
    /// free index.
    pub proof fn lemma_resolved_fill(self, format: Format)
        requires
            self.wf(),
        ensures
            self.resolved(format).fill_index == self.fill_index(format),
            self.resolved(format).has_fill == (self.fill_index(format) != 0),
            has_plain_fill(format, XlsxPattern::NoFill) ==> self.resolved(format).fill_index == 0
                && !self.resolved(format).has_fill,
            has_plain_fill(format, XlsxPattern::Gray125) ==> self.resolved(format).fill_index == 1,
            format.fill_key_text() != self.fill_keys()[0] && format.fill_key_text()
                != self.fill_keys()[1] ==> self.resolved(format).fill_index >= 2 && self.resolved(
                format,
            ).has_fill,
            !self.fill_keys().contains(format.fill_key_text()) ==> self.resolved(format).fill_index
                == self.fills.len(),
    {
        let key = format.fill_key_text();
        lemma_pool_index(self.fill_keys(), key);
        lemma_pool_index(self.style_keys(), format.format_key_text());
        if self.has_style(format) {
            let style = self.styles[self.style_index(format)];
            assert(self.style_resolved(self.style_index(format)));
            assert(self.style_keys()[self.style_index(format)] == format.format_key_text());
            style.lemma_format_key_fixes_fill(format);
            assert(self.fill_keys()[style.fill_index as int] == key);
        }
        reveal(Format::fill_key_text);
        assert(has_plain_fill(format, XlsxPattern::NoFill) ==> self.fill_keys()[0] == key);
        assert(has_plain_fill(format, XlsxPattern::Gray125) ==> self.fill_keys()[1] == key);
    }

    /// The font index that a format gets is the index of its font in the pool
    /// of the fonts, and the font counts as the format's own exactly where
    /// that index is not 0: the default font has the index 0 and every other
    /// font an index of 1 or more. This holds of a format whose style is new,
    /// and of one whose style is registered with the same font. A key of a
    /// format can be that of two formats with different fonts, where the
    /// fonts' names hold colons; the second of them gets the indices that
    /// were found for the first.
    pub proof fn lemma_resolved_font(self, format: Format)
        requires
            self.wf(),
            self.has_style(format) ==> self.styles[self.style_index(format)].font_key_text()
                == format.font_key_text(),
        ensures
            self.resolved(format).font_index == self.font_index(format),
            self.resolved(format).has_font == (self.font_index(format) != 0),
            has_default_font(format) ==> self.resolved(format).font_index == 0 && !self.resolved(
                format,
            ).has_font,
            format.font_key_text() != self.font_keys()[0] ==> self.resolved(format).font_index >= 1
                && self.resolved(format).has_font,
            !self.font_keys().contains(format.font_key_text()) ==> self.resolved(format).font_index
                == self.fonts.len(),
    {
        let key = format.font_key_text();
        lemma_pool_index(self.font_keys(), key);
        lemma_pool_index(self.style_keys(), format.format_key_text());
        if self.has_style(format) {
            let style = self.styles[self.style_index(format)];
            assert(self.style_resolved(self.style_index(format)));
            assert(self.font_keys()[style.font_index as int] == key);
        }
        reveal(Format::font_key_text);
        assert(has_default_font(format) ==> self.font_keys()[0] == key);
    }
}

/// The table of styles of one workbook. Its fields are its own: a table is
/// made by `new` and changed by `register` alone, so it is always well formed.
pub struct StyleTable {
    /// The styles, by index: each as the format that was registered, with its
    /// indices set.
    xf_formats: Vec<Format>,
    /// The fonts, by index: each as the first format registered with it.
    font_formats: Vec<Format>,
    /// The fills, by index: each as the first format registered with it.
    fill_formats: Vec<Format>,
    /// The key of each style.
    style_keys: Vec<String>,
    /// The key of each font.
    font_keys: Vec<String>,
    /// The key of each fill.
    fill_keys: Vec<String>,
}

impl View for StyleTable {
    type V = StylePools;

    closed spec fn view(&self) -> StylePools {
        StylePools {
            styles: self.xf_formats@,
            fonts: self.font_formats@,
            fills: self.fill_formats@,
        }
    }
}

impl StyleTable {
    /// The pools are well formed, and the table holds the key of each entry.
    pub closed spec fn wf(&self) -> bool {
        &&& self@.wf()
        &&& keys_view(self.style_keys@) == self@.style_keys()
        &&& keys_view(self.font_keys@) == self@.font_keys()
        &&& keys_view(self.fill_keys@) == self@.fill_keys()
    }

    /// A table that holds the reserved entries and no style: the default font,
    /// the empty fill and the fill `gray125`.
    pub fn new() -> (table: StyleTable)
        ensures
            table.wf(),
            table@.wf(),
            table@.styles.len() == 0,
            table@.fonts.len() == 1,
            is_default_format(table@.fonts[0]),
            table@.fills.len() == 2,
            is_default_format(table@.fills[0]),
            table@.fills[1].pattern == XlsxPattern::Gray125,
            is_default_format(Format { pattern: XlsxPattern::NoFill, ..table@.fills[1] }),
    {
        let default_format = Format::new();
        let gray125 = Format::new().set_pattern(XlsxPattern::Gray125);
        let font_key = default_format.font_key();
        let none_key = default_format.fill_key();
        let gray_key = gray125.fill_key();
        proof {
            lemma_gray125_key_differs(default_format, gray125);
        }
        let mut font_formats: Vec<Format> = Vec::new();
        let mut fill_formats: Vec<Format> = Vec::new();
        let mut font_keys: Vec<String> = Vec::new();
        let mut fill_keys: Vec<String> = Vec::new();
        font_formats.push(default_format.clone());
        fill_formats.push(default_format);
        fill_formats.push(gray125);
        font_keys.push(font_key);
        fill_keys.push(none_key);
        fill_keys.push(gray_key);
        let table = StyleTable {
            xf_formats: Vec::new(),
            font_formats,
            fill_formats,
            style_keys: Vec::new(),
            font_keys,
            fill_keys,
        };
        assert(keys_view(table.style_keys@) =~= table@.style_keys());
        assert(keys_view(table.font_keys@) =~= table@.font_keys());
        assert(keys_view(table.fill_keys@) =~= table@.fill_keys());
        table
    }

    /// Registers a format and returns it with its indices set.
    ///
    /// The font of the format is looked up by its key and added to the fonts
    /// if it is new; so is its fill. Then the style is looked up by the key of
    /// the whole format. A format whose style is registered gets that style's
    /// index and the font and fill indices found for it; a new style gets the
    /// next index and is added. Nothing that was registered before changes.
    pub fn register(&mut self, format: &Format) -> (resolved: Format)
        requires
            old(self).wf(),
            old(self)@.has_room_for(*format),
        ensures
            final(self).wf(),
            final(self)@ == old(self)@.register(*format),
            resolved == old(self)@.resolved(*format),
            final(self)@.wf(),
    {
        let ghost before = self@;
        let font_index = intern(
            &mut self.font_keys,
            &mut self.font_formats,
            format.font_key(),
            format,
        );
        let fill_index = intern(
            &mut self.fill_keys,
            &mut self.fill_formats,
            format.fill_key(),
            format,
        );
        let key = format.format_key();
        let xf_index = find_key(&self.style_keys, &key);
        proof {
            lemma_pool_index(before.font_keys(), format.font_key_text());
            lemma_pool_index(before.fill_keys(), format.fill_key_text());
            lemma_pool_index(before.style_keys(), format.format_key_text());
            before.lemma_register_wf(*format);
            before.lemma_keys_push(*format);
        }
        assert(keys_view(self.font_keys@) =~= before.register(*format).font_keys());
        assert(keys_view(self.fill_keys@) =~= before.register(*format).fill_keys());
        let resolved = if xf_index < self.style_keys.len() {
            let stored = &self.xf_formats[xf_index];
            format.to_resolved(
                xf_index as u32,
                stored.font_index,
                stored.has_font,
                stored.fill_index,
                stored.has_fill,
            )
        } else {
            let resolved = format.to_resolved(
                xf_index as u32,
                font_index as u16,
                font_index != 0,
                fill_index as u16,
                fill_index != 0,
            );
            self.style_keys.push(key);
            self.xf_formats.push(resolved.clone());
            proof {
                format.lemma_keys_ignore_indices(resolved);
                before.lemma_keys_push(resolved);
            }
            resolved
        };
        assert(keys_view(self.style_keys@) =~= before.register(*format).style_keys());
        resolved
    }

    /// Registers a format where the table has room for what it adds, and
    /// returns it with its indices set. Where a pool to which the format
    /// would add is full, the table stays as it is.
    pub fn try_register(&mut self, format: &Format) -> (resolved: Option<Format>)
        requires
            old(self).wf(),
        ensures
            final(self).wf(),
            final(self)@.wf(),
            resolved is Some <==> old(self)@.has_room_for(*format),
            resolved matches Some(resolved) ==> final(self)@ == old(self)@.register(*format)
                && resolved == old(self)@.resolved(*format),
            resolved is None ==> final(self)@ == old(self)@,
    {
        if self.has_room() || self.has_room_for(format) {
            Some(self.register(format))
        } else {
            None
        }
    }

    /// Whether `format` can be registered: each pool to which it would add an
    /// entry has an index left.
    pub fn has_room_for(&self, format: &Format) -> (room: bool)
        requires
            self.wf(),
        ensures
            room == self@.has_room_for(*format),
    {
        let font_index = find_key(&self.font_keys, &format.font_key());
        let fill_index = find_key(&self.fill_keys, &format.fill_key());
        let xf_index = find_key(&self.style_keys, &format.format_key());
        let style_fits = xf_index < self.style_keys.len() || self.xf_formats.len()
            < u32::MAX as usize;
        let font_fits = font_index < self.font_keys.len() || self.font_formats.len()
            < u16::MAX as usize;
        let fill_fits = fill_index < self.fill_keys.len() || self.fill_formats.len()
            < u16::MAX as usize;
        style_fits && font_fits && fill_fits
    }

    /// A well-formed table has well-formed pools.
    pub proof fn lemma_wf(&self)
        requires
            self.wf(),
        ensures
            self@.wf(),
    {
    }

    /// The styles, by index: each as the format that was registered, with its
    /// indices set.
    pub fn xf_formats(&self) -> (styles: &Vec<Format>)
        ensures
            styles@ == self@.styles,
    {
        &self.xf_formats
    }

    /// The fonts, by index: each as the first format registered with it.
    pub fn font_formats(&self) -> (fonts: &Vec<Format>)
        ensures
            fonts@ == self@.fonts,
    {
        &self.font_formats
    }

    /// The fills, by index: each as the first format registered with it.
    pub fn fill_formats(&self) -> (fills: &Vec<Format>)
        ensures
            fills@ == self@.fills,
    {
        &self.fill_formats
    }

    /// Whether one more style, font and fill can get an index, whatever
    /// format is registered.
    pub fn has_room(&self) -> (room: bool)
        ensures
            room == self@.has_room(),
    {
        self.xf_formats.len() < u32::MAX as usize && self.font_formats.len() < u16::MAX as usize
            && self.fill_formats.len() < u16::MAX as usize
    }
}

/// The keys of the empty fill and of the fill `gray125` differ.
proof fn lemma_gray125_key_differs(plain: Format, gray125: Format)
    requires
        has_plain_fill(plain, XlsxPattern::NoFill),
        has_plain_fill(gray125, XlsxPattern::Gray125),
    ensures
        plain.fill_key_text() != gray125.fill_key_text(),
{
    reveal_with_fuel(crate::text::decimal, 3);
    reveal(Format::fill_key_text);
    let a = plain.fill_key_text();
    let b = gray125.fill_key_text();
    let prefix = XlsxColor::Automatic.hex_text() + ":"@ + XlsxColor::Automatic.hex_text() + ":"@;
    assert(a == prefix + crate::text::decimal(0));
    assert(b == prefix + crate::text::decimal(17));
    assert(a.len() == prefix.len() + 1);
    assert(b.len() == prefix.len() + 2);
}

} // verus!
