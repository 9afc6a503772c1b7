//! On-screen texts built from numbers: the sanity change indicator and the
//! date line.
use vstd::prelude::*;
use crate::calendar::{english_ordinal, march_2020_dow, ordinal_spec, weekday_spec};

verus! {

pub open spec fn digit_char(d: nat) -> char {
    seq!['0', '1', '2', '3', '4', '5', '6', '7', '8', '9'][d as int]
}

/// The decimal digits of `n`, without leading zeros ("0" for zero).
pub open spec fn decimal_spec(n: nat) -> Seq<char>
    decreases n,
{
    if n < 10 {
        seq![digit_char(n)]
    } else {
        decimal_spec(n / 10).push(digit_char(n % 10))
    }
}

/// The decimal digits of `n`.
pub fn decimal_string(n: u64) -> (r: String)
    ensures
        r@ == decimal_spec(n as nat),
    decreases n,
{
    let digits = "0123456789";
    proof {
        reveal_strlit("0123456789");
    }
    let d = (n % 10) as usize;
    let last = digits.substring_char(d, d + 1);
    assert(last@ == seq![digit_char(d as nat)]);
    if n < 10 {
        last.to_owned()
    } else {
        let mut head = decimal_string(n / 10);
        head.append(last);
        head
    }
}

/// The indicator for a sanity change: a `+` or `-` sign (none for zero)
/// and the size of the change.
pub open spec fn sanity_label_spec(n: i32) -> Seq<char> {
    let sign = if n > 0 { seq!['+'] } else if n < 0 { seq!['-'] } else { Seq::empty() };
    sign + decimal_spec((if n < 0 { -n } else { n as int }) as nat)
}

pub fn sanity_label(n: i32) -> (r: String)
    ensures
        r@ == sanity_label_spec(n),
{
    let size: u64 = if n < 0 { (0 - (n as i64)) as u64 } else { n as u64 };
    let digits = decimal_string(size);
    let mut r = if n > 0 {
        String::from_str("+")
    } else if n < 0 {
        String::from_str("-")
    } else {
        String::new()
    };
    proof {
        reveal_strlit("+");
        reveal_strlit("-");
    }
    r.append(digits.as_str());
    assert(r@ =~= sanity_label_spec(n));
    r
}

/// The status bar's date line for day `day` of March 2020.
pub open spec fn date_label_spec(day: u64) -> Seq<char> {
    "It’s "@ + weekday_spec(day)@ + ", "@ + decimal_spec(day as nat) + ordinal_spec(day)@ + " March 2020"@
}

pub fn date_label(day: u64) -> (r: String)
    ensures
        r@ == date_label_spec(day),
{
    let mut r = String::from_str("It’s ");
    r.append(march_2020_dow(day));
    r.append(", ");
    let digits = decimal_string(day);
    r.append(digits.as_str());
    r.append(english_ordinal(day));
    r.append(" March 2020");
    r
}

} // verus!
