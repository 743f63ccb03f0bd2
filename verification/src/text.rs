//! Decimal numerals and the coarse relative-age labels shown next to messages.
use vstd::prelude::*;

verus! {

/// The character that writes the digit `d`, for `0 <= d <= 9`.
pub open spec fn digit_char(d: int) -> char {
    seq!['0', '1', '2', '3', '4', '5', '6', '7', '8', '9'][d]
}

/// The decimal numeral of `n`, most significant digit first, without leading zeros.
pub open spec fn decimal(n: nat) -> Seq<char>
    decreases n,
{
    if n < 10 {
        seq![digit_char(n as int)]
    } else {
        decimal(n / 10).push(digit_char((n % 10) as int))
    }
}

/// The label for an age of `ms` milliseconds: `now` below five seconds, then
/// whole seconds, whole minutes from one minute on, whole hours from one hour on.
pub open spec fn age_label(ms: u64) -> Seq<char> {
    if ms < 5_000 {
        seq!['n', 'o', 'w']
    } else if ms < 60_000 {
        decimal((ms / 1_000) as nat).push('s')
    } else if ms < 3_600_000 {
        decimal((ms / 60_000) as nat).push('m')
    } else {
        decimal((ms / 3_600_000) as nat).push('h')
    }
}

fn digit_str(d: u64) -> (s: &'static str)
    requires
        d < 10,
    ensures
        s@ == seq![digit_char(d as int)],
{
    proof {
        reveal_strlit("0");
        reveal_strlit("1");
        reveal_strlit("2");
        reveal_strlit("3");
        reveal_strlit("4");
        reveal_strlit("5");
        reveal_strlit("6");
        reveal_strlit("7");
        reveal_strlit("8");
        reveal_strlit("9");
    }
    let s = if d == 0 {
        "0"
    } else if d == 1 {
        "1"
    } else if d == 2 {
        "2"
    } else if d == 3 {
        "3"
    } else if d == 4 {
        "4"
    } else if d == 5 {
        "5"
    } else if d == 6 {
        "6"
    } else if d == 7 {
        "7"
    } else if d == 8 {
        "8"
    } else {
        "9"
    };
    assert(s@ =~= seq![digit_char(d as int)]);
    s
}

/// Writes `n` in decimal.
pub fn decimal_string(n: u64) -> (s: String)
    ensures
        s@ == decimal(n as nat),
    decreases n,
{
    if n < 10 {
        String::from_str(digit_str(n))
    } else {
        let mut s = decimal_string(n / 10);
        s.append(digit_str(n % 10));
        assert(s@ =~= decimal((n / 10) as nat).push(digit_char((n % 10) as int)));
        s
    }
}

/// Renders an age in milliseconds as `now`, `<n>s`, `<n>m` or `<n>h`, rounding down.
pub fn format_duration(milliseconds: u64) -> (s: String)
    ensures
        s@ == age_label(milliseconds),
{
    if milliseconds >= 3_600_000 {
        let mut s = decimal_string(milliseconds / 3_600_000);
        proof {
            reveal_strlit("h");
        }
        s.append("h");
        assert(s@ =~= age_label(milliseconds));
        s
    } else if milliseconds >= 60_000 {
        let mut s = decimal_string(milliseconds / 60_000);
        proof {
            reveal_strlit("m");
        }
        s.append("m");
        assert(s@ =~= age_label(milliseconds));
        s
    } else if milliseconds < 5_000 {
        proof {
            reveal_strlit("now");
        }
        let s = String::from_str("now");
        assert(s@ =~= age_label(milliseconds));
        s
    } else {
        let mut s = decimal_string(milliseconds / 1_000);
        proof {
            reveal_strlit("s");
        }
        s.append("s");
        assert(s@ =~= age_label(milliseconds));
        s
    }
}

} // verus!
