//! Text forms of integers and booleans, as they appear in attribute values and
//! in the keys by which formats are told apart.

use vstd::prelude::*;
use vstd::std_specs::iter::IteratorSpec;
use vstd::string::*;

verus! {

/// Appending one character to a `String` with `String::push` extends its view
/// by that character.
pub assume_specification[ String::push ](s: &mut String, ch: char)
    ensures
        final(s)@ == old(s)@.push(ch),
;

/// The character for one digit of a number in base 16 or less, upper case.
pub open spec fn digit_char(d: int) -> char {
    if d < 10 {
        (48 + d) as u8 as char
    } else {
        (55 + d) as u8 as char
    }
}

/// The character for one digit of a number in base 16 or less, lower case.
pub open spec fn lower_digit_char(d: int) -> char {
    if d < 10 {
        (48 + d) as u8 as char
    } else {
        (87 + d) as u8 as char
    }
}

/// The decimal digits of `n`, most significant first, without leading zeros.
pub open spec fn decimal(n: nat) -> Seq<char>
    decreases n,
{
    if n < 10 {
        seq![digit_char(n as int)]
    } else {
        decimal(n / 10).push(digit_char((n % 10) as int))
    }
}

/// The decimal text of a signed number: a minus sign before the digits of a
/// negative one.
pub open spec fn signed_decimal(n: int) -> Seq<char> {
    if n < 0 {
        seq!['-'] + decimal((-n) as nat)
    } else {
        decimal(n as nat)
    }
}

/// The digits of `n` in base 16, upper case, most significant first, padded
/// with zeros on the left to at least `width` digits.
pub open spec fn hex_upper(n: nat, width: nat) -> Seq<char>
    decreases n, width,
{
    if n < 16 && width <= 1 {
        seq![digit_char(n as int)]
    } else {
        hex_upper(n / 16, if width > 0 { (width - 1) as nat } else { 0 }).push(digit_char((n % 16) as int))
    }
}

/// `true` or `false`, spelled out.
pub open spec fn bool_text(b: bool) -> Seq<char> {
    if b {
        "true"@
    } else {
        "false"@
    }
}

/// The character of a digit below 16.
pub fn digit_to_char(d: u8) -> (c: char)
    requires
        d < 16,
    ensures
        c == digit_char(d as int),
{
    if d < 10 {
        (48u8 + d) as char
    } else {
        (55u8 + d) as char
    }
}

/// Appends the decimal digits of `n` to `buf`.
pub fn push_decimal(buf: &mut String, n: u128)
    ensures
        final(buf)@ == old(buf)@ + decimal(n as nat),
    decreases n,
{
    if n >= 10 {
        push_decimal(buf, n / 10);
    }
    buf.push(digit_to_char((n % 10) as u8));
}

/// Appends the decimal text of a signed number to `buf`.
pub fn push_signed_decimal(buf: &mut String, n: i32)
    ensures
        final(buf)@ == old(buf)@ + signed_decimal(n as int),
{
    if n < 0 {
        buf.push('-');
        push_decimal(buf, (-(n as i64)) as u128);
    } else {
        push_decimal(buf, n as u128);
    }
}

/// Appends the upper-case hexadecimal digits of `n` to `buf`, padded with
/// zeros to at least `width` digits.
pub fn push_hex_upper(buf: &mut String, n: u64, width: u8)
    ensures
        final(buf)@ == old(buf)@ + hex_upper(n as nat, width as nat),
    decreases n, width,
{
    if n >= 16 || width > 1 {
        push_hex_upper(buf, n / 16, if width > 0 { width - 1 } else { 0 });
    }
    buf.push(digit_to_char((n % 16) as u8));
}

/// Appends `true` or `false` to `buf`.
pub fn push_bool(buf: &mut String, b: bool)
    ensures
        final(buf)@ == old(buf)@ + bool_text(b),
{
    if b {
        buf.append("true");
    } else {
        buf.append("false");
    }
}

/// The decimal text of `n`.
pub fn decimal_string(n: u128) -> (s: String)
    ensures
        s@ == decimal(n as nat),
{
    let mut s = String::new();
    push_decimal(&mut s, n);
    s
}

/// Whether `ch` is one of the digits `0` to `9`.
pub open spec fn is_digit(ch: char) -> bool {
    '0' <= ch <= '9'
}

/// Whether `text` holds digits only.
pub open spec fn all_digits(text: Seq<char>) -> bool {
    forall|i: int| 0 <= i < text.len() ==> is_digit(#[trigger] text[i])
}

/// The position of the first decimal point in `text`, or the length of
/// `text` where it holds none.
pub open spec fn point_position(text: Seq<char>) -> int
    decreases text.len(),
{
    if text.len() == 0 || text[0] == '.' {
        0
    } else {
        1 + point_position(text.drop_first())
    }
}

/// What `point_position` returns is within the text or just behind it;
/// where it is within, that position holds a point, and none before it does.
pub proof fn lemma_point_position(text: Seq<char>)
    ensures
        0 <= point_position(text) <= text.len(),
        point_position(text) < text.len() ==> text[point_position(text)] == '.',
        forall|j: int| 0 <= j < point_position(text) ==> text[j] != '.',
    decreases text.len(),
{
    if !(text.len() == 0 || text[0] == '.') {
        let rest = text.drop_first();
        lemma_point_position(rest);
        assert forall|j: int| 0 <= j < 1 + point_position(rest) implies text[j] != '.' by {
            if j > 0 {
                assert(rest[j - 1] == text[j]);
            }
        }
        if point_position(rest) < rest.len() {
            assert(rest[point_position(rest)] == text[point_position(rest) + 1]);
        }
    }
}

/// The first position that holds a point, or the length where none does, is
/// what `point_position` returns.
pub proof fn lemma_point_position_is(text: Seq<char>, i: int)
    requires
        0 <= i <= text.len(),
        forall|j: int| 0 <= j < i ==> text[j] != '.',
        i < text.len() ==> text[i] == '.',
    ensures
        point_position(text) == i,
{
    lemma_point_position(text);
}

/// A whole number in digits, without leading zeros: `0`, or digits of which
/// the first is not `0`.
pub open spec fn is_whole_text(text: Seq<char>) -> bool {
    text.len() >= 1 && all_digits(text) && (text.len() == 1 || text[0] != '0')
}

/// The digits behind a decimal point, without trailing zeros: at least one
/// digit, and the last is not `0`.
pub open spec fn is_fraction_text(text: Seq<char>) -> bool {
    text.len() >= 1 && all_digits(text) && text.last() != '0'
}

/// Whether `text` is the decimal text of a number that is not negative, in
/// the one form that a number has: a whole number without leading zeros,
/// and, where the number is not whole, a point and the digits behind it
/// without trailing zeros. So `11` and `10.5` are such texts, and `11.0`,
/// `011`, `.5`, `5.` and `-1` are not.
pub open spec fn is_number_text(text: Seq<char>) -> bool {
    let point = point_position(text);
    is_whole_text(text.take(point)) && (point == text.len() || is_fraction_text(
        text.skip(point + 1),
    ))
}

/// Whether `text` is the decimal text of a number that is not negative, in
/// the one form that a number has.
pub fn is_number(text: &str) -> (valid: bool)
    ensures
        valid == is_number_text(text@),
{
    broadcast use vstd::string::group_string_axioms;

    let mut chars = text.chars();
    let ghost mut done: int = 0;
    let ghost mut point: int = 0;
    let mut point_seen = false;
    let mut whole_empty = true;
    let mut whole_single = false;
    let mut first_is_zero = false;
    let mut fraction_empty = true;
    let mut last_is_zero = false;
    loop
        invariant
            0 <= done <= text@.len(),
            chars.remaining() == text@.skip(done),
            !point_seen ==> point == done,
            point_seen ==> 0 <= point < done && text@[point] == '.',
            forall|j: int| 0 <= j < done && j != point ==> is_digit(#[trigger] text@[j]),
            whole_empty == (point == 0),
            whole_single == (point == 1),
            point > 0 ==> first_is_zero == (text@[0] == '0'),
            !point_seen ==> fraction_empty,
            point_seen ==> fraction_empty == (done == point + 1),
            point_seen && done > point + 1 ==> last_is_zero == (text@[done - 1] == '0'),
        decreases text@.len() - done,
    {
        let ghost rest = chars.remaining();
        match chars.next() {
            None => {
                proof {
                    lemma_point_position_is(text@, point);
                    let whole = text@.take(point);
                    assert forall|i: int| 0 <= i < whole.len() implies is_digit(
                        #[trigger] whole[i],
                    ) by {
                        assert(whole[i] == text@[i]);
                    }
                    if point_seen {
                        let fraction = text@.skip(point + 1);
                        assert forall|i: int| 0 <= i < fraction.len() implies is_digit(
                            #[trigger] fraction[i],
                        ) by {
                            assert(fraction[i] == text@[point + 1 + i]);
                        }
                        if fraction.len() > 0 {
                            assert(fraction.last() == text@[done - 1]);
                        }
                    }
                }
                let whole = !whole_empty && (whole_single || !first_is_zero);
                let fraction = !point_seen || (!fraction_empty && !last_is_zero);
                return whole && fraction;
            },
            Some(ch) => {
                assert(rest.drop_first() =~= text@.skip(done + 1));
                assert(ch == text@[done]);
                if ch >= '0' && ch <= '9' {
                    if point_seen {
                        fraction_empty = false;
                        last_is_zero = ch == '0';
                    } else {
                        if whole_empty {
                            first_is_zero = ch == '0';
                            whole_single = true;
                        } else {
                            whole_single = false;
                        }
                        whole_empty = false;
                        proof {
                            point = point + 1;
                        }
                    }
                } else if ch == '.' && !point_seen {
                    point_seen = true;
                } else {
                    proof {
                        lemma_point_position(text@);
                        let first = point_position(text@);
                        if point_seen {
                            lemma_point_position_is(text@, point);
                            let fraction = text@.skip(point + 1);
                            assert(fraction[done - point - 1] == ch);
                            assert(!is_digit(ch));
                        } else {
                            assert(first >= done) by {
                                if first < done {
                                    assert(is_digit(text@[first]));
                                }
                            }
                            assert(first != done);
                            let whole = text@.take(first);
                            assert(whole[done] == ch);
                            assert(!is_digit(ch));
                        }
                    }
                    return false;
                }
                proof {
                    done = done + 1;
                }
            },
        }
    }
}

/// The number of colons in `text`.
pub open spec fn colons(text: Seq<char>) -> nat
    decreases text.len(),
{
    if text.len() == 0 {
        0
    } else {
        colons(text.drop_last()) + if text.last() == ':' {
            1nat
        } else {
            0nat
        }
    }
}

/// The colons of two texts, one after the other, are those of both.
pub proof fn lemma_colons_add(a: Seq<char>, b: Seq<char>)
    ensures
        colons(a + b) == colons(a) + colons(b),
    decreases b.len(),
{
    if b.len() == 0 {
        assert(a + b =~= a);
    } else {
        lemma_colons_add(a, b.drop_last());
        assert((a + b).drop_last() =~= a + b.drop_last());
        assert((a + b).last() == b.last());
    }
}

/// A text that starts with a colon holds at least one.
proof fn lemma_colons_first(text: Seq<char>)
    requires
        text.len() > 0,
        text[0] == ':',
    ensures
        colons(text) >= 1,
{
    reveal_with_fuel(colons, 2);
    assert(text =~= text.take(1) + text.skip(1));
    lemma_colons_add(text.take(1), text.skip(1));
    assert(text.take(1).drop_last() =~= Seq::<char>::empty());
}

/// Two texts that hold equally many colons, each followed by a colon and
/// more text, give the same whole only where they are the same and what
/// follows them is the same: the colon behind them is found by counting.
pub proof fn lemma_colon_splits(x: Seq<char>, u: Seq<char>, y: Seq<char>, v: Seq<char>)
    requires
        colons(x) == colons(y),
        (x + seq![':']) + u == (y + seq![':']) + v,
    ensures
        x == y,
        u == v,
{
    let left = (x + seq![':']) + u;
    let right = (y + seq![':']) + v;
    if x.len() < y.len() {
        assert(left[x.len() as int] == ':');
        assert(right[x.len() as int] == y[x.len() as int]);
        assert(y =~= y.take(x.len() as int) + y.skip(x.len() as int));
        assert(y.take(x.len() as int) =~= x) by {
            assert forall|i: int| 0 <= i < x.len() implies y[i] == x[i] by {
                assert(left[i] == x[i]);
                assert(right[i] == y[i]);
            }
        }
        lemma_colons_add(x, y.skip(x.len() as int));
        lemma_colons_first(y.skip(x.len() as int));
    } else if y.len() < x.len() {
        assert(right[y.len() as int] == ':');
        assert(left[y.len() as int] == x[y.len() as int]);
        assert(x =~= x.take(y.len() as int) + x.skip(y.len() as int));
        assert(x.take(y.len() as int) =~= y) by {
            assert forall|i: int| 0 <= i < y.len() implies x[i] == y[i] by {
                assert(left[i] == x[i]);
                assert(right[i] == y[i]);
            }
        }
        lemma_colons_add(y, x.skip(y.len() as int));
        lemma_colons_first(x.skip(y.len() as int));
    } else {
        assert(x =~= y) by {
            assert forall|i: int| 0 <= i < x.len() implies x[i] == y[i] by {
                assert(left[i] == x[i]);
                assert(right[i] == y[i]);
            }
        }
        assert(left.len() == x.len() + 1 + u.len());
        assert(right.len() == y.len() + 1 + v.len());
        assert(u.len() == v.len());
        assert(u =~= v) by {
            assert forall|i: int| 0 <= i < u.len() implies u[i] == v[i] by {
                assert(left[x.len() + 1 + i] == u[i]);
                assert(right[y.len() + 1 + i] == v[i]);
            }
        }
    }
}

/// The text of a number holds no colon.
pub proof fn lemma_decimal_no_colon(n: nat)
    ensures
        colons(decimal(n)) == 0,
    decreases n,
{
    reveal_with_fuel(colons, 2);
    if n >= 10 {
        lemma_decimal_no_colon(n / 10);
        assert(decimal(n).drop_last() =~= decimal(n / 10));
    } else {
        assert(decimal(n).drop_last() =~= Seq::<char>::empty());
    }
}

/// The text of a signed number holds no colon.
pub proof fn lemma_signed_decimal_no_colon(n: int)
    ensures
        colons(signed_decimal(n)) == 0,
{
    reveal_with_fuel(colons, 2);
    if n < 0 {
        lemma_decimal_no_colon((-n) as nat);
        lemma_colons_add(seq!['-'], decimal((-n) as nat));
        assert(seq!['-'].drop_last() =~= Seq::<char>::empty());
    } else {
        lemma_decimal_no_colon(n as nat);
    }
}

/// The hexadecimal text of a number holds no colon.
pub proof fn lemma_hex_upper_no_colon(n: nat, width: nat)
    ensures
        colons(hex_upper(n, width)) == 0,
    decreases n, width,
{
    reveal_with_fuel(colons, 2);
    if n < 16 && width <= 1 {
        assert(hex_upper(n, width).drop_last() =~= Seq::<char>::empty());
    } else {
        let rest = if width > 0 {
            (width - 1) as nat
        } else {
            0
        };
        lemma_hex_upper_no_colon(n / 16, rest);
        assert(hex_upper(n, width).drop_last() =~= hex_upper(n / 16, rest));
    }
}

/// `true` and `false` hold no colon.
pub proof fn lemma_bool_text_no_colon(b: bool)
    ensures
        colons(bool_text(b)) == 0,
{
    reveal_strlit("true");
    reveal_strlit("false");
    reveal_with_fuel(colons, 6);
    if b {
        assert("true"@ =~= seq!['t', 'r', 'u', 'e']);
    } else {
        assert("false"@ =~= seq!['f', 'a', 'l', 's', 'e']);
    }
}

/// A text, a colon and more text hold the colons of both texts and one more.
pub proof fn lemma_colons_field(prefix: Seq<char>, field: Seq<char>)
    ensures
        colons(prefix + ":"@ + field) == colons(prefix) + 1 + colons(field),
        ":"@ == seq![':'],
{
    reveal_strlit(":");
    reveal_with_fuel(colons, 2);
    assert(":"@ =~= seq![':']);
    assert(seq![':'].drop_last() =~= Seq::<char>::empty());
    lemma_colons_add(prefix, ":"@);
    lemma_colons_add(prefix + ":"@, field);
}

/// Texts one after the other are one text, however they are grouped.
pub proof fn lemma_concat_assoc(a: Seq<char>, b: Seq<char>, c: Seq<char>)
    ensures
        (a + b) + c == a + (b + c),
{
    assert((a + b) + c =~= a + (b + c));
}

} // verus!
