//! Number formatting for labels: decimal digits, two-digit zero padding and
//! Chinese numerals.

use vstd::prelude::*;
use vstd::string::*;

verus! {

/// The ASCII digit for `d` in `0..10`.
pub open spec fn digit_char(d: int) -> char {
    if d == 0 {
        '0'
    } else if d == 1 {
        '1'
    } else if d == 2 {
        '2'
    } else if d == 3 {
        '3'
    } else if d == 4 {
        '4'
    } else if d == 5 {
        '5'
    } else if d == 6 {
        '6'
    } else if d == 7 {
        '7'
    } else if d == 8 {
        '8'
    } else {
        '9'
    }
}

/// The decimal digits of `n`, most significant first, without leading zeros.
pub open spec fn decimal(n: nat) -> Seq<char>
    decreases n,
{
    if n < 10 {
        seq![digit_char(n as int)]
    } else {
        decimal(n / 10) + seq![digit_char((n % 10) as int)]
    }
}

/// `n` in decimal, padded with a leading zero to at least two digits.
pub open spec fn pad2(n: nat) -> Seq<char> {
    if n < 10 {
        seq!['0'] + decimal(n)
    } else {
        decimal(n)
    }
}

/// The Chinese numeral character for `d` in `0..10`.
pub open spec fn chinese_digit(d: int) -> char {
    if d == 0 {
        '零'
    } else if d == 1 {
        '一'
    } else if d == 2 {
        '二'
    } else if d == 3 {
        '三'
    } else if d == 4 {
        '四'
    } else if d == 5 {
        '五'
    } else if d == 6 {
        '六'
    } else if d == 7 {
        '七'
    } else if d == 8 {
        '八'
    } else {
        '九'
    }
}

/// `n` as a Chinese numeral below 20 (`十`, `十一` ...), in decimal digits from 20 on.
pub open spec fn chinese_num(n: nat) -> Seq<char> {
    if n < 10 {
        seq![chinese_digit(n as int)]
    } else if n < 20 {
        seq!['十'] + if n > 10 {
            seq![chinese_digit(n - 10)]
        } else {
            Seq::empty()
        }
    } else {
        decimal(n)
    }
}

fn digit_str(d: usize) -> (s: &'static str)
    requires
        d < 10,
    ensures
        s@ == seq![digit_char(d as int)],
{
    if d == 0 {
        proof { reveal_strlit("0"); }
        "0"
    } else if d == 1 {
        proof { reveal_strlit("1"); }
        "1"
    } else if d == 2 {
        proof { reveal_strlit("2"); }
        "2"
    } else if d == 3 {
        proof { reveal_strlit("3"); }
        "3"
    } else if d == 4 {
        proof { reveal_strlit("4"); }
        "4"
    } else if d == 5 {
        proof { reveal_strlit("5"); }
        "5"
    } else if d == 6 {
        proof { reveal_strlit("6"); }
        "6"
    } else if d == 7 {
        proof { reveal_strlit("7"); }
        "7"
    } else if d == 8 {
        proof { reveal_strlit("8"); }
        "8"
    } else {
        proof { reveal_strlit("9"); }
        "9"
    }
}

fn chinese_digit_str(d: usize) -> (s: &'static str)
    requires
        d < 10,
    ensures
        s@ == seq![chinese_digit(d as int)],
{
    if d == 0 {
        proof { reveal_strlit("零"); }
        "零"
    } else if d == 1 {
        proof { reveal_strlit("一"); }
        "一"
    } else if d == 2 {
        proof { reveal_strlit("二"); }
        "二"
    } else if d == 3 {
        proof { reveal_strlit("三"); }
        "三"
    } else if d == 4 {
        proof { reveal_strlit("四"); }
        "四"
    } else if d == 5 {
        proof { reveal_strlit("五"); }
        "五"
    } else if d == 6 {
        proof { reveal_strlit("六"); }
        "六"
    } else if d == 7 {
        proof { reveal_strlit("七"); }
        "七"
    } else if d == 8 {
        proof { reveal_strlit("八"); }
        "八"
    } else {
        proof { reveal_strlit("九"); }
        "九"
    }
}

/// Appends the decimal digits of `n` to `s`.
pub fn push_decimal(s: &mut String, n: usize)
    ensures
        final(s)@ == old(s)@ + decimal(n as nat),
    decreases n,
{
    if n >= 10 {
        push_decimal(s, n / 10);
    }
    s.append(digit_str(n % 10));
    proof {
        if n >= 10 {
            assert(final(s)@ =~= old(s)@ + decimal(n as nat));
        } else {
            assert(final(s)@ =~= old(s)@ + decimal(n as nat));
        }
    }
}

/// Appends `n` padded to two digits to `s` (the `{:02}` format).
pub fn push_pad2(s: &mut String, n: usize)
    ensures
        final(s)@ == old(s)@ + pad2(n as nat),
{
    if n < 10 {
        s.append(digit_str(0));
    }
    push_decimal(s, n);
    proof {
        assert(final(s)@ =~= old(s)@ + pad2(n as nat));
    }
}

/// Appends the Chinese numeral for `n` to `s`.
pub fn push_chinese_num(s: &mut String, n: usize)
    ensures
        final(s)@ == old(s)@ + chinese_num(n as nat),
{
    if n < 10 {
        s.append(chinese_digit_str(n));
    } else if n < 20 {
        proof { reveal_strlit("十"); }
        s.append("十");
        if n > 10 {
            s.append(chinese_digit_str(n - 10));
        }
    } else {
        push_decimal(s, n);
    }
    proof {
        assert(final(s)@ =~= old(s)@ + chinese_num(n as nat));
    }
}

/// The Chinese numeral for `n`: `零` to `十九` below 20, decimal digits from 20 on.
pub fn to_chinese_num(n: usize) -> (s: String)
    ensures
        s@ == chinese_num(n as nat),
{
    let mut s = String::new();
    push_chinese_num(&mut s, n);
    proof {
        assert(s@ =~= chinese_num(n as nat));
    }
    s
}

} // verus!
