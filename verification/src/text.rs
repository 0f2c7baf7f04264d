//! Text building: decimal and hexadecimal numbers, padding and joining.
use vstd::prelude::*;

verus! {

/// The character of a decimal digit.
pub open spec fn digit_char(d: nat) -> char
    recommends
        d < 10,
{
    ('0' as u32 + d) as char
}

/// A natural number in decimal notation, without leading zeros.
pub open spec fn decimal(n: nat) -> Seq<char>
    decreases n,
{
    if n < 10 {
        seq![digit_char(n)]
    } else {
        decimal(n / 10).push(digit_char(n % 10))
    }
}

/// Appends the character of one decimal digit.
fn push_digit(out: &mut String, d: u8)
    requires
        d < 10,
    ensures
        final(out)@ == old(out)@.push(digit_char(d as nat)),
{
    proof {
        reveal_strlit("0");
        reveal_strlit("1");
        reveal_strlit("2");
        reveal_strlit("3");
        reveal_strlit("4");
        reveal_strlit("5");
        reveal_strlit("6");
        reveal_strlit("7");
        reveal_strlit("8");
        reveal_strlit("9");
    }
    let text: &str = match d {
        0 => "0",
        1 => "1",
        2 => "2",
        3 => "3",
        4 => "4",
        5 => "5",
        6 => "6",
        7 => "7",
        8 => "8",
        _ => "9",
    };
    assert(text@ =~= seq![digit_char(d as nat)]);
    out.append(text);
    assert(out@ =~= old(out)@.push(digit_char(d as nat)));
}

/// Appends a number in decimal notation.
pub fn push_decimal(out: &mut String, n: u128)
    ensures
        final(out)@ == old(out)@ + decimal(n as nat),
    decreases n,
{
    if n >= 10 {
        push_decimal(out, n / 10);
    }
    push_digit(out, (n % 10) as u8);
    assert(out@ =~= old(out)@ + decimal(n as nat));
}

/// The character of an upper case hexadecimal digit.
pub open spec fn hex_char(d: nat) -> char
    recommends
        d < 16,
{
    if d < 10 {
        digit_char(d)
    } else {
        ('A' as u32 + (d - 10)) as char
    }
}

/// The last `width` upper case hexadecimal digits of a number.
pub open spec fn hex_digits(n: nat, width: nat) -> Seq<char>
    decreases width,
{
    if width == 0 {
        seq![]
    } else {
        hex_digits(n / 16, (width - 1) as nat).push(hex_char(n % 16))
    }
}

/// How many hexadecimal digits a number has; at least one.
pub open spec fn hex_width(n: nat) -> nat
    decreases n,
{
    if n < 16 {
        1
    } else {
        hex_width(n / 16) + 1
    }
}

/// A number in upper case hexadecimal, filled with zeros to at least four
/// digits.
pub open spec fn hex4(n: nat) -> Seq<char> {
    hex_digits(n, if hex_width(n) < 4 { 4 } else { hex_width(n) })
}

/// Appends one upper case hexadecimal digit.
fn push_hex_digit(out: &mut String, d: u8)
    requires
        d < 16,
    ensures
        final(out)@ == old(out)@.push(hex_char(d as nat)),
{
    if d < 10 {
        push_digit(out, d);
    } else {
        proof {
            reveal_strlit("A");
            reveal_strlit("B");
            reveal_strlit("C");
            reveal_strlit("D");
            reveal_strlit("E");
            reveal_strlit("F");
        }
        let text: &str = match d {
            10 => "A",
            11 => "B",
            12 => "C",
            13 => "D",
            14 => "E",
            _ => "F",
        };
        assert(text@ =~= seq![hex_char(d as nat)]);
        out.append(text);
        assert(out@ =~= old(out)@.push(hex_char(d as nat)));
    }
}

/// Appends the last `width` hexadecimal digits of a number.
fn push_hex_digits(out: &mut String, n: u32, width: u8)
    ensures
        final(out)@ == old(out)@ + hex_digits(n as nat, width as nat),
    decreases width,
{
    if width > 0 {
        push_hex_digits(out, n / 16, (width - 1) as u8);
        push_hex_digit(out, (n % 16) as u8);
    }
    assert(out@ =~= old(out)@ + hex_digits(n as nat, width as nat));
}

fn count_hex_digits(n: u32) -> (width: u8)
    ensures
        width == hex_width(n as nat),
        n < 0x1_0000 ==> width <= 4,
        width <= 8,
{
    proof {
        reveal_with_fuel(hex_width, 8);
    }
    if n < 0x10 {
        1
    } else if n < 0x100 {
        2
    } else if n < 0x1000 {
        3
    } else if n < 0x1_0000 {
        4
    } else if n < 0x10_0000 {
        5
    } else if n < 0x100_0000 {
        6
    } else if n < 0x1000_0000 {
        7
    } else {
        8
    }
}

/// Appends a number in upper case hexadecimal with at least four digits.
pub fn push_hex4(out: &mut String, n: u32)
    ensures
        final(out)@ == old(out)@ + hex4(n as nat),
{
    let digits: u8 = count_hex_digits(n);
    let width: u8 = if digits < 4 {
        4
    } else {
        digits
    };
    push_hex_digits(out, n, width);
}

/// A text filled with spaces on the right up to `width` characters; a longer
/// text stays as it is.
pub open spec fn padded_right(text: Seq<char>, width: nat) -> Seq<char> {
    if text.len() >= width {
        text
    } else {
        text + Seq::new((width - text.len()) as nat, |i: int| ' ')
    }
}

/// Fills a text with spaces on the right up to `width` characters.
pub fn pad_right(text: &str, width: usize) -> (padded: String)
    ensures
        padded@ == padded_right(text@, width as nat),
{
    let mut padded = text.to_string();
    let length: usize = text.unicode_len();
    let mut filled: usize = length;
    proof {
        reveal_strlit(" ");
    }
    while filled < width
        invariant
            length == text@.len(),
            length <= filled,
            filled <= width || filled == length,
            padded@ == text@ + Seq::new((filled - length) as nat, |i: int| ' '),
            " "@ =~= seq![' '],
        decreases width - filled,
    {
        padded.append(" ");
        filled = filled + 1;
        assert(padded@ =~= text@ + Seq::new((filled - length) as nat, |i: int| ' '));
    }
    assert(padded@ =~= padded_right(text@, width as nat));
    padded
}

/// The views of a sequence of strings.
pub open spec fn texts(parts: Seq<String>) -> Seq<Seq<char>> {
    parts.map_values(|part: String| part@)
}

/// Texts joined by a separator.
pub open spec fn joined(parts: Seq<Seq<char>>, separator: Seq<char>) -> Seq<char>
    decreases parts.len(),
{
    if parts.len() == 0 {
        seq![]
    } else if parts.len() == 1 {
        parts[0]
    } else {
        joined(parts.drop_last(), separator) + separator + parts.last()
    }
}

/// Joins texts by a separator.
pub fn join(parts: &Vec<String>, separator: &str) -> (text: String)
    ensures
        text@ == joined(texts(parts@), separator@),
{
    let mut text = String::new();
    let mut i: usize = 0;
    assert(texts(parts@).take(0) =~= seq![]);
    while i < parts.len()
        invariant
            i <= parts.len(),
            text@ == joined(texts(parts@).take(i as int), separator@),
        decreases parts.len() - i,
    {
        let ghost before = text@;
        if i > 0 {
            text.append(separator);
        }
        text.append(parts[i].as_str());
        proof {
            let done = texts(parts@).take(i + 1);
            assert(done.drop_last() =~= texts(parts@).take(i as int));
            assert(done.last() == parts[i as int]@);
            if i == 0 {
                assert(before =~= seq![]);
                assert(text@ =~= done[0]);
            }
        }
        i = i + 1;
    }
    assert(texts(parts@).take(i as int) =~= texts(parts@));
    text
}

/// A decimal digit.
pub open spec fn is_digit(c: char) -> bool {
    '0' <= c && c <= '9'
}

/// The number that a sequence of decimal digits stands for.
pub open spec fn digits_value(digits: Seq<char>) -> nat
    decreases digits.len(),
{
    if digits.len() == 0 {
        0
    } else {
        digits_value(digits.drop_last()) * 10 + (digits.last() as nat - '0' as nat) as nat
    }
}

/// The digits of a number that may carry a plus sign in front.
pub open spec fn unsigned_digits(text: Seq<char>) -> Seq<char> {
    if text.len() > 0 && text[0] == '+' {
        text.skip(1)
    } else {
        text
    }
}

/// What a text says as an unsigned machine number: one or more decimal
/// digits, with or without a plus sign in front, of a value that fits.
pub open spec fn parsed_usize(text: Seq<char>) -> Option<usize> {
    let digits = unsigned_digits(text);
    if digits.len() > 0 && (forall|i: int| 0 <= i < digits.len() ==> is_digit(#[trigger] digits[i]))
        && digits_value(digits) <= usize::MAX {
        Some(digits_value(digits) as usize)
    } else {
        None
    }
}

proof fn lemma_digits_value_grows(digits: Seq<char>, n: int)
    requires
        0 <= n <= digits.len(),
    ensures
        digits_value(digits.take(n)) <= digits_value(digits),
    decreases digits.len(),
{
    if n == digits.len() {
        assert(digits.take(n) =~= digits);
    } else {
        lemma_digits_value_grows(digits.drop_last(), n);
        assert(digits.drop_last().take(n) =~= digits.take(n));
    }
}

/// Reads an unsigned machine number.
pub fn parse_usize(text: &str) -> (value: Option<usize>)
    ensures
        value == parsed_usize(text@),
{
    let length: usize = text.unicode_len();
    let start: usize = if length > 0 && text.get_char(0) == '+' {
        1
    } else {
        0
    };
    let ghost digits = unsigned_digits(text@);
    assert(digits =~= text@.skip(start as int));
    if start == length {
        return None;
    }
    let mut total: u128 = 0;
    let mut i: usize = start;
    assert(digits.take(0) =~= seq![]);
    while i < length
        invariant
            length == text@.len(),
            start <= i <= length,
            digits == text@.skip(start as int),
            digits == unsigned_digits(text@),
            forall|j: int| 0 <= j < i - start ==> is_digit(#[trigger] digits[j]),
            total == digits_value(digits.take(i - start)),
            total <= usize::MAX,
        decreases length - i,
    {
        let c: char = text.get_char(i);
        assert(digits[i - start] == c);
        if c < '0' || c > '9' {
            assert(!is_digit(digits[i - start]));
            return None;
        }
        let digit: u128 = (c as u32 - '0' as u32) as u128;
        proof {
            let now = digits.take(i - start + 1);
            assert(now.drop_last() =~= digits.take(i - start));
            assert(now.last() == c);
            lemma_digits_value_grows(digits, i - start + 1);
        }
        total = total * 10 + digit;
        if total > usize::MAX as u128 {
            return None;
        }
        i = i + 1;
    }
    assert(digits.take(i - start) =~= digits);
    Some(total as usize)
}

/// Whether two texts are the same.
pub fn same_text(a: &str, b: &str) -> (same: bool)
    ensures
        same == (a@ == b@),
{
    a.to_string() == b.to_string()
}

} // verus!
