//! Whole numbers as decimal text, and text padded to a width.

use vstd::prelude::*;
use vstd::string::*;

use crate::text::{ascii_digit, chars_of};

verus! {

/// The digit that stands for `d`.
pub open spec fn digit(d: int) -> char {
    ('0' as int + d) as char
}

/// The decimal digits of `n`, without leading zeros.
pub open spec fn decimal(n: int) -> Seq<char>
    decreases n,
{
    if n < 10 {
        seq![digit(n)]
    } else {
        decimal(n / 10).push(digit(n % 10))
    }
}

/// `n` in decimal, with a minus sign where it is negative.
pub open spec fn signed_decimal(n: int) -> Seq<char> {
    if n < 0 {
        seq!['-'] + decimal(-n)
    } else {
        decimal(n)
    }
}

/// `n` in decimal with at least two digits.
pub open spec fn two_digits(n: int) -> Seq<char> {
    if n < 10 {
        seq!['0', digit(n)]
    } else {
        decimal(n)
    }
}

/// A run of `n` copies of `c`.
pub open spec fn run(c: char, n: int) -> Seq<char> {
    Seq::new(
        if n > 0 {
            n as nat
        } else {
            0
        },
        |i: int| c,
    )
}

/// `s` followed by the blanks that bring it to `width` characters.
pub open spec fn pad(s: Seq<char>, width: int) -> Seq<char> {
    s + run(' ', width - s.len())
}

/// The number that a run of decimal digits stands for.
pub open spec fn digits_value(s: Seq<char>) -> int
    decreases s.len(),
{
    if s.len() == 0 {
        0
    } else {
        digits_value(s.drop_last()) * 10 + (s.last() as int - '0' as int)
    }
}

pub open spec fn all_digits(s: Seq<char>) -> bool {
    forall|i: int| 0 <= i < s.len() ==> ascii_digit(#[trigger] s[i])
}

/// The digits of `s` behind an optional sign.
pub open spec fn unsigned_part(s: Seq<char>) -> Seq<char> {
    if s.len() > 0 && (s[0] == '-' || s[0] == '+') {
        s.skip(1)
    } else {
        s
    }
}

/// The number that `s` stands for, as far as an `i64` can hold it: an optional sign and
/// one or more decimal digits.
pub open spec fn parse_i64(s: Seq<char>) -> Option<i64> {
    let body = unsigned_part(s);
    let value = if s.len() > 0 && s[0] == '-' {
        -digits_value(body)
    } else {
        digits_value(body)
    };
    if body.len() > 0 && all_digits(body) && i64::MIN <= value <= i64::MAX {
        Some(value as i64)
    } else {
        None
    }
}

fn digit_char(d: u64) -> (c: char)
    requires
        d < 10,
    ensures
        c == digit(d as int),
{
    (48 + d as u8) as char
}

/// The decimal digits of `n`.
pub fn decimal_text(n: u64) -> (s: String)
    ensures
        s@ == decimal(n as int),
    decreases n,
{
    let mut s = if n < 10 {
        String::new()
    } else {
        decimal_text(n / 10)
    };
    s.push(digit_char(n % 10));
    proof {
        if n < 10 {
            assert(s@ =~= seq![digit(n as int)]);
        }
    }
    s
}

/// `n` in decimal.
pub fn signed_text(n: i64) -> (s: String)
    ensures
        s@ == signed_decimal(n as int),
{
    if n < 0 {
        let mut s = String::new();
        s.push('-');
        let size: u64 = if n == i64::MIN {
            9223372036854775808
        } else {
            (-n) as u64
        };
        s.append(decimal_text(size).as_str());
        proof {
            assert(s@ =~= seq!['-'] + decimal(-n as int));
        }
        s
    } else {
        decimal_text(n as u64)
    }
}

/// `n` in decimal with at least two digits.
pub fn two_digit_text(n: u32) -> (s: String)
    ensures
        s@ == two_digits(n as int),
{
    if n < 10 {
        let mut s = String::new();
        s.push('0');
        s.push(digit_char(n as u64));
        proof {
            assert(s@ =~= seq!['0', digit(n as int)]);
        }
        s
    } else {
        decimal_text(n as u64)
    }
}

/// A run of `n` copies of `c`.
pub fn run_text(c: char, n: usize) -> (s: String)
    ensures
        s@ == run(c, n as int),
{
    let mut s = String::new();
    let mut i: usize = 0;
    while i < n
        invariant
            i <= n,
            s@ =~= run(c, i as int),
        decreases n - i,
    {
        s.push(c);
        i = i + 1;
    }
    s
}

/// `text` followed by the blanks that bring it to `width` characters.
pub fn padded(text: &str, width: usize) -> (s: String)
    ensures
        s@ == pad(text@, width as int),
{
    let have = text.unicode_len();
    let mut s = text.to_string();
    let blanks: usize = if have < width {
        width - have
    } else {
        0
    };
    s.append(run_text(' ', blanks).as_str());
    proof {
        assert(run(' ', blanks as int) =~= run(' ', width - have));
    }
    s
}

proof fn lemma_digits_value_grows(s: Seq<char>, k: int)
    requires
        all_digits(s),
        0 <= k <= s.len(),
    ensures
        0 <= digits_value(s.take(k)) <= digits_value(s),
    decreases s.len(),
{
    if k == s.len() {
        assert(s.take(k) =~= s);
        if s.len() > 0 {
            lemma_digits_value_grows(s.drop_last(), k - 1);
            assert(ascii_digit(s.last()));
        }
    } else {
        lemma_digits_value_grows(s.drop_last(), k);
        assert(s.drop_last().take(k) =~= s.take(k));
        assert(ascii_digit(s.last()));
    }
}

/// Reads a signed decimal number.
pub fn parse_signed(text: &str) -> (r: Option<i64>)
    ensures
        r == parse_i64(text@),
{
    let v = chars_of(text);
    if v.len() == 0 {
        return None;
    }
    let negative = v[0] == '-';
    let start: usize = if negative || v[0] == '+' {
        1
    } else {
        0
    };
    let ghost body = unsigned_part(text@);
    proof {
        assert(body =~= v@.skip(start as int));
    }
    if start == v.len() {
        return None;
    }
    let limit: u64 = if negative {
        9223372036854775808
    } else {
        9223372036854775807
    };
    let mut value: u64 = 0;
    let mut i: usize = start;
    proof {
        assert(body.take(0) =~= Seq::<char>::empty());
    }
    while i < v.len()
        invariant
            start <= i <= v@.len(),
            body == v@.skip(start as int),
            body == unsigned_part(text@),
            v@ == text@,
            limit == if negative {
                9223372036854775808u64
            } else {
                9223372036854775807u64
            },
            negative == (text@[0] == '-'),
            text@.len() > 0,
            value <= limit,
            value == digits_value(body.take(i - start)),
            forall|j: int| 0 <= j < i - start ==> ascii_digit(#[trigger] body[j]),
        decreases v@.len() - i,
    {
        let c = v[i];
        proof {
            assert(body[i - start] == c);
        }
        if c < '0' || '9' < c {
            return None;
        }
        let d: u64 = (c as u32 - '0' as u32) as u64;
        proof {
            let next = body.take(i - start + 1);
            assert(next.drop_last() =~= body.take(i - start));
            assert(next.last() == c);
            assert(digits_value(next) == value * 10 + d);
            if all_digits(body) {
                lemma_digits_value_grows(body, i - start + 1);
            }
        }
        if value > (limit - d) / 10 {
            proof {
                assert(value * 10 + d > limit);
            }
            return None;
        }
        value = value * 10 + d;
        i = i + 1;
    }
    proof {
        assert(body.take(i - start) =~= body);
    }
    if negative {
        if value == 9223372036854775808 {
            Some(i64::MIN)
        } else {
            Some(-(value as i64))
        }
    } else {
        Some(value as i64)
    }
}

proof fn lemma_decimal_digits(n: int)
    requires
        n >= 0,
    ensures
        decimal(n).len() > 0,
        all_digits(decimal(n)),
        digits_value(decimal(n)) == n,
    decreases n,
{
    reveal_with_fuel(digits_value, 2);
    if n >= 10 {
        lemma_decimal_digits(n / 10);
        assert(decimal(n).drop_last() =~= decimal(n / 10));
    } else {
        assert(decimal(n).drop_last() =~= Seq::<char>::empty());
    }
}

/// Reading the text that a number is written as gives the number back.
pub proof fn law_numbers_read_back(n: i64)
    ensures
        parse_i64(signed_decimal(n as int)) == Some(n),
{
    let size = if n < 0 {
        -n
    } else {
        n as int
    };
    lemma_decimal_digits(size);
    if n < 0 {
        assert(unsigned_part(signed_decimal(n as int)) =~= decimal(size));
    } else {
        assert(ascii_digit(decimal(size)[0]));
    }
}

/// Padding adds blanks behind a text until it is as wide as asked, and cuts nothing off.
pub proof fn law_padding_only_adds_blanks(s: Seq<char>, width: int)
    ensures
        pad(s, width).len() == if s.len() < width {
            width
        } else {
            s.len() as int
        },
        pad(s, width).take(s.len() as int) == s,
        forall|i: int| s.len() <= i < pad(s, width).len() ==> #[trigger] pad(s, width)[i] == ' ',
{
    assert(pad(s, width).take(s.len() as int) =~= s);
}

/// A text that is wide enough is not padded.
pub proof fn law_no_padding_beyond(s: Seq<char>, width: int)
    requires
        s.len() >= width,
    ensures
        pad(s, width) == s,
{
    assert(pad(s, width) =~= s);
}

/// A number is written with decimal digits that stand for it, and without a leading zero.
pub proof fn law_decimals_stand_for_their_number(n: int)
    requires
        n >= 0,
    ensures
        all_digits(decimal(n)),
        digits_value(decimal(n)) == n,
        n > 0 ==> decimal(n)[0] != '0',
        n < 10 ==> decimal(n).len() == 1,
    decreases n,
{
    lemma_decimal_digits(n);
    if n >= 10 {
        law_decimals_stand_for_their_number(n / 10);
        assert(decimal(n)[0] == decimal(n / 10)[0]);
    }
}

/// A number below a hundred is written with exactly two digits that stand for it.
pub proof fn law_two_digits_stand_for_their_number(n: int)
    requires
        0 <= n < 100,
    ensures
        two_digits(n).len() == 2,
        all_digits(two_digits(n)),
        digits_value(two_digits(n)) == n,
{
    reveal_with_fuel(digits_value, 4);
    reveal_with_fuel(decimal, 3);
    lemma_decimal_digits(n);
    if n < 10 {
        let s = two_digits(n);
        assert(s.drop_last() =~= seq!['0']);
        assert(s.drop_last().drop_last() =~= Seq::<char>::empty());
    }
}

/// Digits are the ten characters from `0` to `9`, and only texts of them are numbers.
pub proof fn law_digits_are_digits(s: Seq<char>, i: int)
    ensures
        all_digits(s) && 0 <= i < s.len() ==> '0' <= s[i] <= '9',
        0 <= i < s.len() && !('0' <= s[i] <= '9') ==> !all_digits(s),
        (forall|i: int| 0 <= i < s.len() ==> '0' <= #[trigger] s[i] <= '9') ==> all_digits(s),
{
    if 0 <= i < s.len() {
        assert(ascii_digit(s[i]) <==> '0' <= s[i] <= '9');
    }
}

/// A text stands for a number exactly where it has digits, nothing else behind an optional
/// sign, and a value that can be held; a minus sign turns the value round, and a plus sign
/// makes no difference.
pub proof fn law_which_texts_are_numbers(s: Seq<char>, i: int)
    ensures
        parse_i64(Seq::empty()) is None,
        0 < i < s.len() && !('0' <= s[i] <= '9') ==> parse_i64(s) is None,
        s.len() > 0 && !('0' <= s[0] <= '9') && s[0] != '-' && s[0] != '+' ==> parse_i64(s) is None,
        all_digits(s) && s.len() > 0 && digits_value(s) <= i64::MAX ==> parse_i64(s) == Some(
            digits_value(s) as i64,
        ) && parse_i64(seq!['+'] + s) == parse_i64(s),
        all_digits(s) && s.len() > 0 && digits_value(s) <= 0x8000_0000_0000_0000 ==> parse_i64(
            seq!['-'] + s,
        ) == Some((-digits_value(s)) as i64),
        all_digits(s) && digits_value(s) > i64::MAX ==> parse_i64(s) is None && parse_i64(
            seq!['+'] + s,
        ) is None,
        all_digits(s) && digits_value(s) > 0x8000_0000_0000_0000 ==> parse_i64(seq!['-'] + s) is None,
{
    if 0 < i < s.len() && !('0' <= s[i] <= '9') {
        law_digits_are_digits(s, i);
        if s[0] == '-' || s[0] == '+' {
            assert(s.skip(1)[i - 1] == s[i]);
            law_digits_are_digits(s.skip(1), i - 1);
        }
    }
    if s.len() > 0 {
        law_digits_are_digits(s, 0);
        assert((seq!['+'] + s).skip(1) =~= s);
        assert((seq!['-'] + s).skip(1) =~= s);
        assert((seq!['+'] + s)[0] == '+');
        assert((seq!['-'] + s)[0] == '-');
        if all_digits(s) {
            lemma_digits_are_no_debt(s);
        }
    }
}

proof fn lemma_digits_are_no_debt(s: Seq<char>)
    requires
        all_digits(s),
    ensures
        digits_value(s) >= 0,
    decreases s.len(),
{
    if s.len() > 0 {
        let front = s.drop_last();
        assert forall|i: int| 0 <= i < front.len() implies ascii_digit(#[trigger] front[i]) by {
            assert(front[i] == s[i]);
        }
        lemma_digits_are_no_debt(front);
        assert(ascii_digit(s[s.len() - 1]));
    }
}

/// A digit more makes ten times the number and the digit.
pub proof fn law_digits_count_by_place(s: Seq<char>, d: char)
    requires
        '0' <= d <= '9',
    ensures
        digits_value(s.push(d)) == 10 * digits_value(s) + (d as int - '0' as int),
        digits_value(Seq::empty()) == 0,
{
    assert(s.push(d).drop_last() =~= s);
}

/// A run is as long as it is asked to be, of one character throughout; a run of less than none
/// is empty.
pub proof fn law_runs_are_of_one_character(c: char, n: int, i: int)
    ensures
        n >= 0 ==> run(c, n).len() == n,
        n < 0 ==> run(c, n).len() == 0,
        0 <= i < n ==> run(c, n)[i] == c,
{
}

} // verus!
