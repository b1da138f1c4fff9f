//! Rendering of a due date's distance as a short figure with a unit
//! letter, and the colour class the terminal renderer shows it in.
use vstd::prelude::*;

use vstd::arithmetic::div_mod::lemma_fundamental_div_mod;
use vstd::string::StringExecFns;

verus! {

broadcast use vstd::string::group_string_axioms;

/// The colour class of a rendered due time.
#[derive(Clone, Copy, Debug, PartialEq, Eq, Structural)]
pub enum DueStyle {
    Red,
    Orange,
    YellowGreen,
    Green,
    Gray,
    White,
}

/// The decimal digit `d` as a character.
pub open spec fn digit_char(d: nat) -> char
    recommends
        d < 10,
{
    if d == 0 {
        '0'
    } else if d == 1 {
        '1'
    } else if d == 2 {
        '2'
    } else if d == 3 {
        '3'
    } else if d == 4 {
        '4'
    } else if d == 5 {
        '5'
    } else if d == 6 {
        '6'
    } else if d == 7 {
        '7'
    } else if d == 8 {
        '8'
    } else {
        '9'
    }
}

/// The decimal digits of `n`, most significant first.
pub open spec fn dec_digits(n: nat) -> Seq<char>
    decreases n,
{
    if n < 10 {
        seq![digit_char(n)]
    } else {
        dec_digits(n / 10).push(digit_char(n % 10))
    }
}

/// The figure and unit letter for a distance of `secs` seconds (`secs`
/// taken non-negative): seconds up to a minute, then minutes, hours, days,
/// weeks, and years.
pub open spec fn due_value(secs: int) -> int
    recommends
        secs >= 0,
{
    if secs <= 59 {
        secs
    } else if secs <= 3599 {
        secs / 60
    } else if secs <= 86399 {
        secs / 3600
    } else if secs <= 604799 {
        secs / 86400
    } else if secs <= 31535999 {
        secs / 604800
    } else {
        secs / 31536000
    }
}

/// The unit letter that goes with `due_value`.
pub open spec fn due_unit(secs: int) -> char
    recommends
        secs >= 0,
{
    if secs <= 59 {
        's'
    } else if secs <= 3599 {
        'm'
    } else if secs <= 86399 {
        'h'
    } else if secs <= 604799 {
        'd'
    } else if secs <= 31535999 {
        'w'
    } else {
        'y'
    }
}

/// The colour class for a signed distance: overdue is always red; ahead,
/// the colour cools down as the distance grows.
pub open spec fn due_style(seconds_till: int) -> DueStyle {
    if seconds_till < 0 {
        DueStyle::Red
    } else if seconds_till <= 59 {
        DueStyle::Red
    } else if seconds_till <= 3599 {
        DueStyle::Orange
    } else if seconds_till <= 86399 {
        DueStyle::YellowGreen
    } else if seconds_till <= 604799 {
        DueStyle::Green
    } else if seconds_till <= 31535999 {
        DueStyle::Gray
    } else {
        DueStyle::White
    }
}

/// The rendered text for a signed distance: the figure and unit letter of
/// the absolute distance, with a leading minus sign when overdue.
pub open spec fn due_text(seconds_till: int) -> Seq<char> {
    let mag = if seconds_till < 0 {
        -seconds_till
    } else {
        seconds_till
    };
    let digits = dec_digits(due_value(mag) as nat);
    if seconds_till < 0 {
        seq!['-'] + digits.push(due_unit(mag))
    } else {
        digits.push(due_unit(mag))
    }
}

/// The decimal digit `d` as a string slice.
fn digit_str(d: u64) -> (r: &'static str)
    requires
        d < 10,
    ensures
        r@ == seq![digit_char(d as nat)],
{
    if d == 0 {
        proof {
            reveal_strlit("0");
        }
        "0"
    } else if d == 1 {
        proof {
            reveal_strlit("1");
        }
        "1"
    } else if d == 2 {
        proof {
            reveal_strlit("2");
        }
        "2"
    } else if d == 3 {
        proof {
            reveal_strlit("3");
        }
        "3"
    } else if d == 4 {
        proof {
            reveal_strlit("4");
        }
        "4"
    } else if d == 5 {
        proof {
            reveal_strlit("5");
        }
        "5"
    } else if d == 6 {
        proof {
            reveal_strlit("6");
        }
        "6"
    } else if d == 7 {
        proof {
            reveal_strlit("7");
        }
        "7"
    } else if d == 8 {
        proof {
            reveal_strlit("8");
        }
        "8"
    } else {
        proof {
            reveal_strlit("9");
        }
        "9"
    }
}

/// `n` in decimal.
pub fn u64_to_string(n: u64) -> (r: String)
    ensures
        r@ == dec_digits(n as nat),
    decreases n,
{
    if n < 10 {
        digit_str(n).to_owned()
    } else {
        proof {
            lemma_fundamental_div_mod(n as int, 10);
        }
        let mut s = u64_to_string(n / 10);
        s.append(digit_str(n % 10));
        proof {
            assert(s@ =~= dec_digits((n / 10) as nat).push(digit_char((n % 10) as nat)));
        }
        s
    }
}

/// Renders how far a due date lies from now: a short figure with a unit
/// letter (seconds, minutes, hours, days, weeks or years), a leading minus
/// sign when overdue, and the colour class to show it in.
pub fn display_due_date_time(seconds_till: i64) -> (r: (String, DueStyle))
    requires
        seconds_till > i64::MIN,
    ensures
        r.0@ == due_text(seconds_till as int),
        r.1 == due_style(seconds_till as int),
{
    let is_negative = seconds_till < 0;
    let mag: i64 = if is_negative {
        -seconds_till
    } else {
        seconds_till
    };
    let (value, unit): (i64, &'static str) = if mag <= 59 {
        proof {
            reveal_strlit("s");
        }
        (mag, "s")
    } else if mag <= 3599 {
        proof {
            reveal_strlit("m");
        }
        (mag / 60, "m")
    } else if mag <= 86399 {
        proof {
            reveal_strlit("h");
        }
        (mag / 3600, "h")
    } else if mag <= 604799 {
        proof {
            reveal_strlit("d");
        }
        (mag / 86400, "d")
    } else if mag <= 31535999 {
        proof {
            reveal_strlit("w");
        }
        (mag / 604800, "w")
    } else {
        proof {
            reveal_strlit("y");
        }
        (mag / 31536000, "y")
    };
    proof {
        assert(value == due_value(mag as int));
        assert(unit@ =~= seq![due_unit(mag as int)]);
    }
    let digits = u64_to_string(value as u64);
    let mut out = String::new();
    if is_negative {
        out.append("-");
        proof {
            reveal_strlit("-");
        }
    }
    out.append(digits.as_str());
    out.append(unit);
    let style = if is_negative {
        DueStyle::Red
    } else if mag <= 59 {
        DueStyle::Red
    } else if mag <= 3599 {
        DueStyle::Orange
    } else if mag <= 86399 {
        DueStyle::YellowGreen
    } else if mag <= 604799 {
        DueStyle::Green
    } else if mag <= 31535999 {
        DueStyle::Gray
    } else {
        DueStyle::White
    };
    proof {
        assert(out@ =~= due_text(seconds_till as int));
    }
    (out, style)
}

} // verus!
