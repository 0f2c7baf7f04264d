//! What texts say: numbers can be read back, and padding and joining keep what
//! they are given.
use vstd::prelude::*;

#[allow(unused_imports)]
use crate::cli::{
    asks_for_list, bad_index_warning, choice_of, device_at, memory_view, named_device, Choice,
};
#[allow(unused_imports)]
use crate::score::rounded;
#[allow(unused_imports)]
use crate::text::{
    decimal, digit_char, digits_value, hex4, hex_char, hex_digits, hex_width, is_digit, joined,
    padded_right, parsed_usize, unsigned_digits,
};

verus! {

proof fn lemma_decimal(n: nat)
    ensures
        decimal(n).len() > 0,
        forall|i: int|
            0 <= i < decimal(n).len() ==> '0' <= #[trigger] decimal(n)[i] && decimal(n)[i] <= '9',
        digits_value(decimal(n)) == n,
        n >= 10 ==> decimal(n).len() > 1,
        n > 0 ==> decimal(n)[0] != '0',
    decreases n,
{
    if n < 10 {
        assert(decimal(n).drop_last() =~= seq![]);
        assert(digits_value(seq![]) == 0);
    } else {
        lemma_decimal(n / 10);
        assert(decimal(n).drop_last() =~= decimal(n / 10));
        assert(decimal(n)[0] == decimal(n / 10)[0]);
    }
}

/// A number that was written in decimals is read as the number that it was, with
/// or without a plus sign. It has no zeros in front.
pub proof fn law_decimals_are_read_back(n: usize)
    ensures
        parsed_usize(decimal(n as nat)) == Some(n),
        parsed_usize(seq!['+'] + decimal(n as nat)) == Some(n),
        n > 0 ==> decimal(n as nat)[0] != '0',
{
    let text = decimal(n as nat);
    lemma_decimal(n as nat);
    assert(unsigned_digits(text) == text);
    assert((seq!['+'] + text).skip(1) =~= text);
}

/// Different numbers are written differently, and a number of more digits is
/// larger.
pub proof fn law_decimals_differ(a: nat, b: nat)
    requires
        a != b,
    ensures
        decimal(a) != decimal(b),
        decimal(a).len() > decimal(b).len() ==> a > b,
{
    lemma_decimal(a);
    lemma_decimal(b);
    if a <= b {
        lemma_longer(a, b);
    }
}

proof fn lemma_longer(a: nat, b: nat)
    requires
        a <= b,
    ensures
        decimal(a).len() <= decimal(b).len(),
    decreases b,
{
    if a < 10 {
        lemma_decimal(b);
    } else {
        lemma_longer(a / 10, b / 10);
    }
}

/// Only digits are read, with a plus sign in front of them at most. Zeros in front
/// change nothing, and one more digit makes ten times as much and the digit.
pub proof fn law_only_digits_are_read(text: Seq<char>, digit: nat)
    requires
        digit < 10,
    ensures
        parsed_usize(text) is Some ==> forall|i: int|
            0 <= i < text.len() ==> '0' <= #[trigger] text[i] && text[i] <= '9' || i == 0 && text[0]
                == '+' && text.len() > 1,
        parsed_usize(seq![]) is None,
        parsed_usize(seq!['+']) is None,
        parsed_usize(text) is Some && text[0] != '+' ==> parsed_usize(seq!['0'] + text)
            == parsed_usize(text),
        parsed_usize(text) matches Some(n) ==> parsed_usize(text.push(digit_char(digit))) == if n
            * 10 + digit <= usize::MAX {
            Some((n * 10 + digit) as usize)
        } else {
            None
        },
{
    let digits = unsigned_digits(text);
    assert(seq!['+'].skip(1) =~= seq![]);
    if parsed_usize(text) is Some {
        assert forall|i: int| 0 <= i < text.len() implies '0' <= #[trigger] text[i] && text[i]
            <= '9' || i == 0 && text[0] == '+' && text.len() > 1 by {
            if text[0] == '+' {
                if i > 0 {
                    assert(is_digit(digits[i - 1]));
                }
            } else {
                assert(is_digit(digits[i]));
            }
        }
        let more = text.push(digit_char(digit));
        assert(unsigned_digits(more) =~= digits.push(digit_char(digit)));
        assert(digits.push(digit_char(digit)).drop_last() =~= digits);
        let longer = digits.push(digit_char(digit));
        assert forall|i: int| 0 <= i < longer.len() implies is_digit(#[trigger] longer[i]) by {
            if i < digits.len() {
                assert(is_digit(digits[i]));
            }
        }
        assert(digits_value(longer) == digits_value(digits) * 10 + digit);
        if text[0] != '+' {
            let zero = seq!['0'] + text;
            lemma_zero_in_front(text);
            assert(unsigned_digits(zero) == zero);
            assert forall|i: int| 0 <= i < zero.len() implies is_digit(#[trigger] zero[i]) by {
                if i > 0 {
                    assert(is_digit(text[i - 1]));
                }
            }
        }
    }
}

proof fn lemma_zero_in_front(digits: Seq<char>)
    ensures
        digits_value(seq!['0'] + digits) == digits_value(digits),
    decreases digits.len(),
{
    let longer = seq!['0'] + digits;
    if digits.len() == 0 {
        assert(longer.drop_last() =~= seq![]);
        assert(digits_value(seq![]) == 0);
    } else {
        assert(longer.drop_last() =~= seq!['0'] + digits.drop_last());
        lemma_zero_in_front(digits.drop_last());
    }
}

/// What a hexadecimal digit stands for.
pub open spec fn hex_value_of(c: char) -> int {
    if '0' <= c && c <= '9' {
        c as int - '0' as int
    } else if 'A' <= c && c <= 'F' {
        c as int - 'A' as int + 10
    } else {
        -1
    }
}

/// The number that hexadecimal digits stand for.
pub open spec fn hex_value(digits: Seq<char>) -> int
    decreases digits.len(),
{
    if digits.len() == 0 {
        0
    } else {
        hex_value(digits.drop_last()) * 16 + hex_value_of(digits.last())
    }
}

proof fn lemma_hex_digits(n: nat, width: nat)
    requires
        width >= hex_width(n),
    ensures
        hex_digits(n, width).len() == width,
        hex_value(hex_digits(n, width)) == n,
        forall|i: int|
            0 <= i < width ==> hex_value_of(#[trigger] hex_digits(n, width)[i]) >= 0,
        width == hex_width(n) && width > 1 ==> hex_digits(n, width)[0] != '0',
        n > 0 && width == hex_width(n) ==> hex_digits(n, width)[0] != '0',
    decreases width,
{
    let digits = hex_digits(n, width);
    let less = (width - 1) as nat;
    let before = hex_digits(n / 16, less);
    lemma_hex_width(n / 16);
    assert(digits.drop_last() =~= before);
    if less == 0 {
        assert(before =~= seq![]);
        assert(hex_value(seq![]) == 0);
    } else if n < 16 {
        lemma_hex_digits(0, less);
    } else {
        lemma_hex_digits(n / 16, less);
        assert(digits[0] == before[0]);
    }
    assert(hex_value_of(hex_char(n % 16)) == n % 16);
}

proof fn lemma_hex_width(n: nat)
    ensures
        hex_width(n) >= 1,
        hex_width(n) <= 4 <==> n < 0x1_0000,
{
    reveal_with_fuel(hex_width, 5);
}

/// A number in hexadecimal says the number, in digits and capital letters: four of
/// them, or more where four are not enough, and then without zeros in front.
pub proof fn law_hexadecimals_say_the_number(n: nat)
    ensures
        hex_value(hex4(n)) == n,
        forall|i: int| 0 <= i < hex4(n).len() ==> hex_value_of(#[trigger] hex4(n)[i]) >= 0,
        hex4(n).len() >= 4,
        hex4(n).len() == 4 <==> n < 0x1_0000,
        n >= 0x1_0000 ==> hex4(n)[0] != '0',
{
    lemma_hex_width(n);
    lemma_hex_digits(n, if hex_width(n) < 4 { 4 } else { hex_width(n) });
}

/// Padding keeps the text, in front, and fills it up with spaces to exactly the
/// width, unless the text is longer.
pub proof fn law_padding_fills_up(text: Seq<char>, width: nat)
    ensures
        ({
            let padded = padded_right(text, width);
            &&& padded.len() >= text.len()
            &&& padded.len() >= width
            &&& padded.len() == width || padded.len() == text.len()
            &&& padded.take(text.len() as int) == text
            &&& forall|i: int| text.len() <= i < padded.len() ==> #[trigger] padded[i] == ' '
        }),
{
    assert(padded_right(text, width).take(text.len() as int) =~= text);
}

/// The first of joined texts stands in front, the separator behind it, and then
/// the others, joined. A text alone is itself, and none is empty.
pub proof fn law_joining_begins_with_the_first(
    first: Seq<char>,
    rest: Seq<Seq<char>>,
    separator: Seq<char>,
)
    ensures
        joined(seq![], separator) == Seq::<char>::empty(),
        joined(seq![first], separator) == first,
        rest.len() > 0 ==> joined(seq![first] + rest, separator) == first + separator + joined(
            rest,
            separator,
        ),
    decreases rest.len(),
{
    if rest.len() > 0 {
        let all = seq![first] + rest;
        let fewer = rest.drop_last();
        assert(all.drop_last() =~= seq![first] + fewer);
        assert(all.last() == rest.last());
        law_joining_begins_with_the_first(first, fewer, separator);
        if rest.len() == 1 {
            assert(seq![first] + fewer =~= seq![first]);
            assert(all.drop_last() =~= seq![first]);
            assert(rest.last() == rest[0]);
        } else {
            assert(joined(all, separator) =~= first + separator + joined(rest, separator));
        }
    }
}

/// Rounding goes to the nearest whole number: no other is nearer, and where two
/// are as near, the even one is taken.
pub proof fn law_rounding_is_nearest(num: nat, den: nat, other: nat)
    requires
        den > 0,
    ensures
        ({
            let near = rounded(num, den) as int;
            let off = if near * den >= num {
                near * den - num
            } else {
                num - near * den
            };
            let other_off = if other * den >= num {
                other * den - num
            } else {
                num - other * den
            };
            &&& 2 * off <= den
            &&& off <= other_off
            &&& off == other_off && other != near ==> near % 2 == 0
        }),
{
    let below = (num / den) as int;
    let rest = (num % den) as int;
    let d = den as int;
    vstd::arithmetic::div_mod::lemma_fundamental_div_mod(num as int, d);
    vstd::arithmetic::div_mod::lemma_mod_bound(num as int, d);
    assert(d * below == below * d) by (nonlinear_arith);
    assert((below + 1) * d == below * d + d) by (nonlinear_arith);
    let k = other as int;
    if k < below {
        assert(k * d <= below * d - d) by (nonlinear_arith)
            requires
                k <= below - 1,
                d > 0,
        ;
    } else if k > below + 1 {
        assert(k * d >= below * d + 2 * d) by (nonlinear_arith)
            requires
                k >= below + 2,
                d > 0,
        ;
    }
}

/// An amount of memory is told in megabytes, and in gigabytes to the nearest tenth
/// of 1024 megabytes.
pub proof fn law_memory_is_told_to_a_tenth(mb: u64, tenths: nat)
    requires
        2 * (tenths * 1024) < 2 * (mb * 10) + 1024,
        2 * (tenths * 1024) > 2 * (mb * 10) - 1024,
    ensures
        memory_view(mb) == decimal(mb as nat) + " MB ("@ + decimal(tenths / 10) + "."@ + decimal(
            tenths % 10,
        ) + " GB)"@,
{
    law_rounding_is_nearest(mb as nat * 10, 1024, tenths);
}

/// A device is named by its number behind one of the two arguments for it.
pub proof fn law_devices_are_named_by_numbers(before: Seq<Seq<char>>, rest: Seq<Seq<char>>, n: usize)
    ensures
        device_at(before + seq!["--device"@, decimal(n as nat)] + rest, before.len() as int)
            == Some(n),
        device_at(before + seq!["-d"@, decimal(n as nat)] + rest, before.len() as int) == Some(n),
        device_at(before + seq!["-d"@], before.len() as int) is None,
        device_at(before + seq!["--device"@], before.len() as int) is None,
{
    law_decimals_are_read_back(n);
    let at = before.len() as int;
    let long = before + seq!["--device"@, decimal(n as nat)] + rest;
    let short = before + seq!["-d"@, decimal(n as nat)] + rest;
    assert(long[at] == "--device"@ && long[at + 1] == decimal(n as nat));
    assert(short[at] == "-d"@ && short[at + 1] == decimal(n as nat));
}

/// The places from one on where a device is named that does not exist.
pub open spec fn bad_places(args: Seq<Seq<char>>, gpu_count: usize, from: int, to: int) -> Set<int> {
    Set::new(
        |i: int|
            {
                &&& from <= i < to
                &&& device_at(args, i) matches Some(index) && index >= gpu_count
            },
    )
}

/// Whether a place is the first from one on where a device is named that exists.
pub open spec fn names_first(args: Seq<Seq<char>>, gpu_count: usize, from: int, place: int) -> bool {
    &&& from <= place < args.len()
    &&& device_at(args, place) matches Some(index) && index < gpu_count
    &&& forall|i: int|
        from <= i < place ==> !(#[trigger] device_at(args, i) matches Some(index) && index
            < gpu_count)
}

/// The first device that is named and exists is taken, wherever it stands; before
/// it there is one warning for each that is named and does not exist. Where none
/// exists, all are warned about.
pub proof fn law_the_first_existing_device_is_taken(
    args: Seq<Seq<char>>,
    gpu_count: usize,
    from: nat,
)
    requires
        from <= args.len(),
    ensures
        ({
            let (warnings, device) = named_device(args, gpu_count, from);
            match device {
                Some(index) => exists|place: int| #[trigger]
                    names_first(args, gpu_count, from as int, place) && device_at(args, place)
                        == Some(index) && bad_places(args, gpu_count, from as int, place).finite()
                        && warnings.len() == bad_places(args, gpu_count, from as int, place).len(),
                None => {
                    &&& forall|place: int| !#[trigger]
                        names_first(args, gpu_count, from as int, place)
                    &&& bad_places(args, gpu_count, from as int, args.len() as int).finite()
                    &&& warnings.len() == bad_places(
                        args,
                        gpu_count,
                        from as int,
                        args.len() as int,
                    ).len()
                },
            }
        }),
        named_device(args, gpu_count, from).1 is None <==> forall|i: int|
            from <= i < args.len() ==> !(#[trigger] device_at(args, i) matches Some(index) && index
                < gpu_count),
    decreases args.len() - from,
{
    let f = from as int;
    let n = args.len() as int;
    if from >= args.len() {
        assert(bad_places(args, gpu_count, f, n) =~= Set::empty());
    } else {
        law_the_first_existing_device_is_taken(args, gpu_count, from + 1);
        let rest = named_device(args, gpu_count, from + 1);
        let here = device_at(args, f);
        if here is Some && here->0 < gpu_count {
            assert(names_first(args, gpu_count, f, f));
            assert(bad_places(args, gpu_count, f, f) =~= Set::empty());
            assert(named_device(args, gpu_count, from).0 =~= seq![]);
        } else {
            let end = if rest.1 is Some {
                choose|place: int| #[trigger]
                    names_first(args, gpu_count, f + 1, place) && device_at(args, place) == rest.1
                        && bad_places(args, gpu_count, f + 1, place).finite() && rest.0.len()
                        == bad_places(args, gpu_count, f + 1, place).len()
            } else {
                n
            };
            let later = bad_places(args, gpu_count, f + 1, end);
            let all = bad_places(args, gpu_count, f, end);
            if here is Some {
                assert(all =~= later.insert(f));
                assert(!later.contains(f));
            } else {
                assert(all =~= later);
            }
            if rest.1 is Some {
                assert(names_first(args, gpu_count, f, end));
            } else {
                assert forall|place: int| !#[trigger] names_first(args, gpu_count, f, place) by {
                    if names_first(args, gpu_count, f, place) {
                        assert(names_first(args, gpu_count, f + 1, place));
                    }
                }
            }
        }
    }
}

/// A warning about a device that does not exist tells its number, how many there
/// are, and the last number.
pub proof fn law_warnings_tell_the_numbers(index: usize, gpu_count: usize)
    requires
        gpu_count > 0,
    ensures
        bad_index_warning(index, gpu_count) == "Chỉ số card '"@ + decimal(index as nat)
            + "' không hợp lệ! Có "@ + decimal(gpu_count as nat) + " GPU (0.."@ + decimal(
            (gpu_count - 1) as nat,
        ) + ")"@,
{
}

/// The list is asked for by two arguments, and a device named behind two others,
/// and by nothing else.
pub proof fn law_no_other_arguments_count(args: Seq<Seq<char>>, i: int, arg: Seq<char>)
    ensures
        asks_for_list(arg) <==> arg == "--list"@ || arg == "-l"@,
        device_at(args, i) is Some ==> (args[i] == "--device"@ || args[i] == "-d"@) && i + 1
            < args.len() && parsed_usize(args[i + 1]) == device_at(args, i),
{
}

/// A GPU that is named is the one; the user is asked exactly where none is named and
/// there is more than one.
pub proof fn law_users_are_asked_only_where_needed(named: Option<usize>, gpu_count: usize)
    requires
        gpu_count > 0,
    ensures
        choice_of(named, gpu_count) is Ask <==> named is None && gpu_count > 1,
        choice_of(named, gpu_count) is OnlyOne <==> named is None && gpu_count == 1,
        named matches Some(index) ==> choice_of(named, gpu_count) == Choice::Named(index),
{
}

} // verus!
