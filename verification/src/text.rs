//! Decimal numbers as text: reading them from characters and writing them out.

use vstd::prelude::*;

verus! {

/// Whether `c` is one of the ten decimal digits.
pub open spec fn is_digit(c: char) -> bool {
    '0' <= c <= '9'
}

/// The number that the digit `c` stands for.
pub open spec fn digit_value(c: char) -> nat
    recommends
        is_digit(c),
{
    (c as u32 - '0' as u32) as nat
}

/// Whether every character of `s` is a decimal digit.
pub open spec fn all_digits(s: Seq<char>) -> bool {
    forall|i: int| 0 <= i < s.len() ==> is_digit(#[trigger] s[i])
}

/// The number written by the digits `s`, most significant first.
pub open spec fn digits_value(s: Seq<char>) -> nat
    decreases s.len(),
{
    if s.len() == 0 {
        0
    } else {
        digits_value(s.drop_last()) * 10 + digit_value(s.last())
    }
}

/// The characters of `s` as a vector.
pub fn chars_of(s: &str) -> (r: Vec<char>)
    ensures
        r@ == s@,
{
    let mut r: Vec<char> = Vec::new();
    for c in it: s.chars()
        invariant
            r@ == it.seq().take(it.index() as int),
    {
        r.push(c);
    }
    r
}


/// The digits of a prefix of `s` never write a larger number than `s` does.
pub proof fn lemma_prefix_value(s: Seq<char>, k: int)
    requires
        0 <= k <= s.len(),
    ensures
        digits_value(s.take(k)) <= digits_value(s),
    decreases s.len(),
{
    if k == s.len() {
        assert(s.take(k) =~= s);
    } else {
        assert(s.drop_last().take(k) =~= s.take(k));
        lemma_prefix_value(s.drop_last(), k);
    }
}

/// The text of an unsigned number: an optional `+`, then at least one digit.
/// `None` where `s` is no such text.
pub open spec fn unsigned_value(s: Seq<char>) -> Option<nat> {
    let body = if s.len() > 0 && s[0] == '+' {
        s.skip(1)
    } else {
        s
    };
    if body.len() > 0 && all_digits(body) {
        Some(digits_value(body))
    } else {
        None
    }
}

/// The text of a signed number: an optional `+` or `-`, then at least one
/// digit. `None` where `s` is no such text.
pub open spec fn signed_value(s: Seq<char>) -> Option<int> {
    if s.len() > 0 && s[0] == '-' {
        let body = s.skip(1);
        if body.len() > 0 && all_digits(body) {
            Some(-(digits_value(body) as int))
        } else {
            None
        }
    } else {
        match unsigned_value(s) {
            Some(v) => Some(v as int),
            None => None,
        }
    }
}

/// What `s` reads as an unsigned 32-bit number, if it is the text of one.
pub open spec fn u32_of_text(s: Seq<char>) -> Option<u32> {
    match unsigned_value(s) {
        Some(v) => if v <= u32::MAX {
            Some(v as u32)
        } else {
            None
        },
        None => None,
    }
}

/// What `s` reads as a signed 64-bit number, if it is the text of one.
pub open spec fn i64_of_text(s: Seq<char>) -> Option<i64> {
    match signed_value(s) {
        Some(v) => if i64::MIN <= v <= i64::MAX {
            Some(v as i64)
        } else {
            None
        },
        None => None,
    }
}

/// Reads the digits `chars[from..to]` as a number no larger than `limit`.
/// `None` where the range is empty, holds anything but digits, or writes a
/// larger number.
pub fn read_digits(chars: &Vec<char>, from: usize, to: usize, limit: u64) -> (r: Option<u64>)
    requires
        from <= to <= chars.len(),
    ensures
        r == (if from < to && all_digits(chars@.subrange(from as int, to as int)) && digits_value(
            chars@.subrange(from as int, to as int),
        ) <= limit {
            Some(digits_value(chars@.subrange(from as int, to as int)) as u64)
        } else {
            None
        }),
{
    let ghost body = chars@.subrange(from as int, to as int);
    if from == to {
        return None;
    }
    let mut acc: u128 = 0;
    let mut i: usize = from;
    while i < to
        invariant
            from <= i <= to <= chars.len(),
            body == chars@.subrange(from as int, to as int),
            all_digits(body.take(i - from)),
            acc == digits_value(body.take(i - from)),
            acc <= limit,
        decreases to - i,
    {
        let c = chars[i];
        assert(body[i - from] == c);
        if c < '0' || c > '9' {
            return None;
        }
        let d: u128 = (c as u32 - '0' as u32) as u128;
        proof {
            assert(body.take(i - from + 1).drop_last() =~= body.take(i - from));
            assert(body.take(i - from + 1).last() == c);
            lemma_prefix_value(body, i - from + 1);
        }
        acc = acc * 10 + d;
        if acc > limit as u128 {
            return None;
        }
        i = i + 1;
    }
    assert(body.take(to - from) =~= body);
    Some(acc as u64)
}

/// Reads `chars[from..to]` as an unsigned 32-bit number.
pub fn read_u32(chars: &Vec<char>, from: usize, to: usize) -> (r: Option<u32>)
    requires
        from <= to <= chars.len(),
    ensures
        r == u32_of_text(chars@.subrange(from as int, to as int)),
{
    let ghost s = chars@.subrange(from as int, to as int);
    let start: usize = if from < to && chars[from] == '+' {
        from + 1
    } else {
        from
    };
    assert(chars@.subrange(start as int, to as int) =~= if s.len() > 0 && s[0] == '+' {
        s.skip(1)
    } else {
        s
    });
    match read_digits(chars, start, to, 0xffff_ffff) {
        Some(v) => Some(v as u32),
        None => None,
    }
}

/// Reads `chars[from..to]` as a signed 64-bit number.
pub fn read_i64(chars: &Vec<char>, from: usize, to: usize) -> (r: Option<i64>)
    requires
        from <= to <= chars.len(),
    ensures
        r == i64_of_text(chars@.subrange(from as int, to as int)),
{
    let ghost s = chars@.subrange(from as int, to as int);
    if from < to && chars[from] == '-' {
        assert(chars@.subrange(from + 1, to as int) =~= s.skip(1));
        match read_digits(chars, from + 1, to, 0x8000_0000_0000_0000) {
            Some(v) => if v == 0x8000_0000_0000_0000 {
                Some(i64::MIN)
            } else {
                Some(-(v as i64))
            },
            None => None,
        }
    } else {
        let start: usize = if from < to && chars[from] == '+' {
            from + 1
        } else {
            from
        };
        assert(chars@.subrange(start as int, to as int) =~= if s.len() > 0 && s[0] == '+' {
            s.skip(1)
        } else {
            s
        });
        match read_digits(chars, start, to, 0x7fff_ffff_ffff_ffff) {
            Some(v) => Some(v as i64),
            None => None,
        }
    }
}

/// Reads `text` as an unsigned 32-bit number.
pub fn parse_u32(text: &str) -> (r: Option<u32>)
    ensures
        r == u32_of_text(text@),
{
    let chars = chars_of(text);
    assert(chars@.subrange(0, chars.len() as int) =~= text@);
    read_u32(&chars, 0, chars.len())
}

/// Reads `text` as a signed 64-bit number.
pub fn parse_i64(text: &str) -> (r: Option<i64>)
    ensures
        r == i64_of_text(text@),
{
    let chars = chars_of(text);
    assert(chars@.subrange(0, chars.len() as int) =~= text@);
    read_i64(&chars, 0, chars.len())
}

/// The character that writes the digit `d`.
pub open spec fn digit_char(d: nat) -> char
    recommends
        d < 10,
{
    if d == 0 {
        '0'
    } else if d == 1 {
        '1'
    } else if d == 2 {
        '2'
    } else if d == 3 {
        '3'
    } else if d == 4 {
        '4'
    } else if d == 5 {
        '5'
    } else if d == 6 {
        '6'
    } else if d == 7 {
        '7'
    } else if d == 8 {
        '8'
    } else {
        '9'
    }
}

/// The decimal text of `n`: no sign, and no leading zero but for zero itself.
pub open spec fn decimal(n: nat) -> Seq<char>
    decreases n,
{
    if n < 10 {
        seq![digit_char(n)]
    } else {
        decimal(n / 10).push(digit_char(n % 10))
    }
}

/// The decimal text of `n`, with a leading `-` where it is negative.
pub open spec fn signed_decimal(n: int) -> Seq<char> {
    if n < 0 {
        seq!['-'] + decimal((-n) as nat)
    } else {
        decimal(n as nat)
    }
}

/// The one-character text of the digit `d`.
fn digit_text(d: u64) -> (r: &'static str)
    requires
        d < 10,
    ensures
        r@ == seq![digit_char(d as nat)],
{
    proof {
        reveal_strlit("0");
        reveal_strlit("1");
        reveal_strlit("2");
        reveal_strlit("3");
        reveal_strlit("4");
        reveal_strlit("5");
        reveal_strlit("6");
        reveal_strlit("7");
        reveal_strlit("8");
        reveal_strlit("9");
    }
    let r = if d == 0 {
        "0"
    } else if d == 1 {
        "1"
    } else if d == 2 {
        "2"
    } else if d == 3 {
        "3"
    } else if d == 4 {
        "4"
    } else if d == 5 {
        "5"
    } else if d == 6 {
        "6"
    } else if d == 7 {
        "7"
    } else if d == 8 {
        "8"
    } else {
        "9"
    };
    assert(r@ =~= seq![digit_char(d as nat)]);
    r
}

/// Appends the decimal text of `n` to `out`.
pub fn push_decimal(out: &mut String, n: u64)
    ensures
        final(out)@ == old(out)@ + decimal(n as nat),
    decreases n,
{
    if n >= 10 {
        push_decimal(out, n / 10);
    }
    out.append(digit_text(n % 10));
    assert(old(out)@ + decimal(n as nat / 10).push(digit_char(n as nat % 10)) =~= (old(out)@
        + decimal(n as nat / 10)) + seq![digit_char(n as nat % 10)]);
}

/// Appends the decimal text of `n` to `out`, with a `-` before a negative one.
pub fn push_signed_decimal(out: &mut String, n: i64)
    ensures
        final(out)@ == old(out)@ + signed_decimal(n as int),
{
    if n < 0 {
        proof {
            reveal_strlit("-");
        }
        out.append("-");
        let magnitude: u64 = if n == i64::MIN {
            0x8000_0000_0000_0000
        } else {
            (-n) as u64
        };
        push_decimal(out, magnitude);
        assert(old(out)@ + (seq!['-'] + decimal((-n) as nat)) =~= (old(out)@ + "-"@) + decimal(
            magnitude as nat,
        ));
    } else {
        push_decimal(out, n as u64);
    }
}

/// The decimal text of a number is made of digits, at least one.
pub proof fn lemma_decimal_is_digits(n: nat)
    ensures
        decimal(n).len() >= 1,
        all_digits(decimal(n)),
    decreases n,
{
    if n >= 10 {
        lemma_decimal_is_digits(n / 10);
    }
}

/// The decimal text of a number writes that number.
pub proof fn lemma_decimal_value(n: nat)
    ensures
        digits_value(decimal(n)) == n,
    decreases n,
{
    if n < 10 {
        assert(decimal(n).drop_last() =~= Seq::<char>::empty());
        assert(digits_value(decimal(n).drop_last()) == 0);
    } else {
        lemma_decimal_value(n / 10);
        assert(decimal(n).drop_last() =~= decimal(n / 10));
    }
}

/// Reading the decimal text of an unsigned 32-bit number gives the number.
pub proof fn lemma_u32_round_trip(n: u32)
    ensures
        u32_of_text(decimal(n as nat)) == Some(n),
{
    lemma_decimal_is_digits(n as nat);
    lemma_decimal_value(n as nat);
    assert(is_digit(decimal(n as nat)[0]));
}

/// Reading the decimal text of a signed 64-bit number gives the number.
pub proof fn lemma_i64_round_trip(n: i64)
    ensures
        i64_of_text(signed_decimal(n as int)) == Some(n),
{
    if n < 0 {
        let magnitude = (-n) as nat;
        lemma_decimal_is_digits(magnitude);
        lemma_decimal_value(magnitude);
        assert(signed_decimal(n as int).skip(1) =~= decimal(magnitude));
    } else {
        lemma_decimal_is_digits(n as nat);
        lemma_decimal_value(n as nat);
        assert(is_digit(decimal(n as nat)[0]));
    }
}

} // verus!
