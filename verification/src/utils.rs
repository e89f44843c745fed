//! Small verified helpers: human-readable byte formatting and the
//! compression-ratio computation, both over exact integer arithmetic.

use vstd::prelude::*;
use vstd::string::StringExecFns;

verus! {

/// The decimal digit character for `d` in `0..10`.
pub open spec fn spec_digit_char(d: int) -> char {
    if d == 0 {
        '0'
    } else if d == 1 {
        '1'
    } else if d == 2 {
        '2'
    } else if d == 3 {
        '3'
    } else if d == 4 {
        '4'
    } else if d == 5 {
        '5'
    } else if d == 6 {
        '6'
    } else if d == 7 {
        '7'
    } else if d == 8 {
        '8'
    } else {
        '9'
    }
}

/// The decimal rendering of a non-negative integer, most significant
/// digit first.
pub open spec fn spec_decimal(n: int) -> Seq<char>
    recommends
        n >= 0,
    decreases n,
{
    if n < 10 {
        seq![spec_digit_char(n)]
    } else {
        spec_decimal(n / 10) + seq![spec_digit_char(n % 10)]
    }
}

/// One decimal digit as a string slice.
fn digit_str(d: u64) -> (r: &'static str)
    requires
        d < 10,
    ensures
        r@ == seq![spec_digit_char(d as int)],
{
    if d == 0 {
        let s = "0";
        proof {
            reveal_strlit("0");
            assert(s@ =~= seq![spec_digit_char(0int)]);
        }
        s
    } else if d == 1 {
        let s = "1";
        proof {
            reveal_strlit("1");
            assert(s@ =~= seq![spec_digit_char(1int)]);
        }
        s
    } else if d == 2 {
        let s = "2";
        proof {
            reveal_strlit("2");
            assert(s@ =~= seq![spec_digit_char(2int)]);
        }
        s
    } else if d == 3 {
        let s = "3";
        proof {
            reveal_strlit("3");
            assert(s@ =~= seq![spec_digit_char(3int)]);
        }
        s
    } else if d == 4 {
        let s = "4";
        proof {
            reveal_strlit("4");
            assert(s@ =~= seq![spec_digit_char(4int)]);
        }
        s
    } else if d == 5 {
        let s = "5";
        proof {
            reveal_strlit("5");
            assert(s@ =~= seq![spec_digit_char(5int)]);
        }
        s
    } else if d == 6 {
        let s = "6";
        proof {
            reveal_strlit("6");
            assert(s@ =~= seq![spec_digit_char(6int)]);
        }
        s
    } else if d == 7 {
        let s = "7";
        proof {
            reveal_strlit("7");
            assert(s@ =~= seq![spec_digit_char(7int)]);
        }
        s
    } else if d == 8 {
        let s = "8";
        proof {
            reveal_strlit("8");
            assert(s@ =~= seq![spec_digit_char(8int)]);
        }
        s
    } else {
        let s = "9";
        proof {
            reveal_strlit("9");
            assert(s@ =~= seq![spec_digit_char(9int)]);
        }
        s
    }
}

/// Render a number in decimal.
pub fn u64_to_string(n: u64) -> (r: String)
    ensures
        r@ == spec_decimal(n as int),
    decreases n,
{
    if n < 10 {
        String::from_str(digit_str(n))
    } else {
        let mut s = u64_to_string(n / 10);
        s.append(digit_str(n % 10));
        s
    }
}

/// One decimal digit as a character.
fn digit_char(d: u64) -> (c: char)
    requires
        d < 10,
    ensures
        c == spec_digit_char(d as int),
{
    if d == 0 {
        '0'
    } else if d == 1 {
        '1'
    } else if d == 2 {
        '2'
    } else if d == 3 {
        '3'
    } else if d == 4 {
        '4'
    } else if d == 5 {
        '5'
    } else if d == 6 {
        '6'
    } else if d == 7 {
        '7'
    } else if d == 8 {
        '8'
    } else {
        '9'
    }
}

/// Render a number in decimal as a character vector.
pub fn decimal_chars(n: u64) -> (r: Vec<char>)
    ensures
        r@ == spec_decimal(n as int),
    decreases n,
{
    if n < 10 {
        let mut v: Vec<char> = Vec::new();
        v.push(digit_char(n));
        proof {
            assert(v@ =~= seq![spec_digit_char(n as int)]);
        }
        v
    } else {
        let mut v = decimal_chars(n / 10);
        v.push(digit_char(n % 10));
        proof {
            assert(v@ =~= spec_decimal((n / 10) as int) + seq![spec_digit_char((n % 10) as int)]);
        }
        v
    }
}

/// Which size unit a byte count is shown in: 0 for bytes up to 4 for
/// terabytes.
pub open spec fn spec_unit_index(b: int) -> int {
    if b < 1024 {
        0
    } else if b < 1048576 {
        1
    } else if b < 1073741824 {
        2
    } else if b < 1099511627776 {
        3
    } else {
        4
    }
}

/// The divisor belonging to a unit index.
pub open spec fn spec_unit_divisor(idx: int) -> int {
    if idx == 0 {
        1
    } else if idx == 1 {
        1024
    } else if idx == 2 {
        1048576
    } else if idx == 3 {
        1073741824
    } else {
        1099511627776
    }
}

/// The suffix belonging to a unit index.
pub open spec fn spec_unit_suffix(idx: int) -> Seq<char> {
    if idx == 0 {
        " B"@
    } else if idx == 1 {
        " KB"@
    } else if idx == 2 {
        " MB"@
    } else if idx == 3 {
        " GB"@
    } else {
        " TB"@
    }
}

/// Tenths digit of `b` scaled into its unit, rounded to nearest with
/// exact ties to the even digit; 10 means the whole part carries.
pub open spec fn spec_scaled_tenths(b: int) -> int {
    let den = spec_unit_divisor(spec_unit_index(b));
    let q = ((b % den) * 10) / den;
    let r2 = ((b % den) * 10) % den;
    if 2 * r2 > den || (2 * r2 == den && q % 2 == 1) {
        q + 1
    } else {
        q
    }
}

/// Whole part shown, after the rounding carry.
pub open spec fn spec_display_whole(b: int) -> int {
    let den = spec_unit_divisor(spec_unit_index(b));
    if spec_scaled_tenths(b) == 10 {
        b / den + 1
    } else {
        b / den
    }
}

/// Tenths digit shown, after the rounding carry.
pub open spec fn spec_display_tenths(b: int) -> int {
    if spec_scaled_tenths(b) == 10 {
        0
    } else {
        spec_scaled_tenths(b)
    }
}

/// The full human-readable rendering: plain bytes below 1024, else one
/// decimal place in the chosen unit.
pub open spec fn spec_format_bytes(b: int) -> Seq<char> {
    let idx = spec_unit_index(b);
    if idx == 0 {
        spec_decimal(b) + " B"@
    } else {
        spec_decimal(spec_display_whole(b)) + "."@ + spec_decimal(spec_display_tenths(b))
            + spec_unit_suffix(idx)
    }
}

/// Format a byte count as a human-readable string, one decimal place,
/// units from bytes to terabytes.
pub fn format_bytes(bytes: u64) -> (r: String)
    ensures
        r@ == spec_format_bytes(bytes as int),
{
    if bytes < 1024 {
        let mut s = u64_to_string(bytes);
        s.append(" B");
        return s;
    }
    let den: u64 = if bytes < 1048576 {
        1024
    } else if bytes < 1073741824 {
        1048576
    } else if bytes < 1099511627776 {
        1073741824
    } else {
        1099511627776
    };
    let suffix: &'static str = if bytes < 1048576 {
        " KB"
    } else if bytes < 1073741824 {
        " MB"
    } else if bytes < 1099511627776 {
        " GB"
    } else {
        " TB"
    };
    let whole: u64 = bytes / den;
    let rem: u64 = bytes % den;
    let scaled: u64 = rem * 10;
    let q: u64 = scaled / den;
    let r2: u64 = scaled % den;
    let tenths: u64 = if 2 * r2 > den || (2 * r2 == den && q % 2 == 1) {
        q + 1
    } else {
        q
    };
    let display_whole: u64 = if tenths == 10 {
        whole + 1
    } else {
        whole
    };
    let display_tenths: u64 = if tenths == 10 {
        0
    } else {
        tenths
    };
    let mut s = u64_to_string(display_whole);
    s.append(".");
    let t = u64_to_string(display_tenths);
    s.append(t.as_str());
    s.append(suffix);
    s
}

/// Space saved as tenths of a percent of the original size, exact
/// integer arithmetic, truncated toward zero; zero when the original
/// size is zero, negative when the output grew.
pub open spec fn spec_compression_ratio_tenths(original: int, compressed: int) -> int {
    if original == 0 {
        0
    } else if compressed <= original {
        ((original - compressed) * 1000) / original
    } else {
        -(((compressed - original) * 1000) / original)
    }
}

/// Compute the compression ratio in tenths of a percent.
pub fn calculate_compression_ratio(original: u64, compressed: u64) -> (r: i128)
    ensures
        r == spec_compression_ratio_tenths(original as int, compressed as int),
{
    if original == 0 {
        return 0;
    }
    if compressed <= original {
        let diff: u128 = (original - compressed) as u128;
        let scaled: u128 = (diff * 1000) / (original as u128);
        proof {
            assert(scaled <= 1000) by (nonlinear_arith)
                requires
                    diff <= original,
                    original > 0,
                    scaled == (diff * 1000) as int / (original as int),
            ;
        }
        scaled as i128
    } else {
        let diff: u128 = (compressed - original) as u128;
        let scaled: u128 = (diff * 1000) / (original as u128);
        -(scaled as i128)
    }
}

} // verus!
