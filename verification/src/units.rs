//! Unit formatter: scales raw byte and bit-rate counts into human-readable
//! strings on the 1024-ladder (B/KB/MB/GB, bps/Kbps/Mbps/Gbps), with the
//! numeric part rounded to two decimal places.
use vstd::prelude::*;
use vstd::arithmetic::div_mod::lemma_fundamental_div_mod;
use vstd::arithmetic::div_mod::lemma_div_is_ordered;
use vstd::string::StringExecFns;

verus! {

pub const KB: u64 = 1024;
pub const MB: u64 = 1024 * 1024;
pub const GB: u64 = 1024 * 1024 * 1024;

/// The character for one decimal digit.
pub open spec fn digit_char(d: nat) -> char {
    if d == 0 { '0' }
    else if d == 1 { '1' }
    else if d == 2 { '2' }
    else if d == 3 { '3' }
    else if d == 4 { '4' }
    else if d == 5 { '5' }
    else if d == 6 { '6' }
    else if d == 7 { '7' }
    else if d == 8 { '8' }
    else { '9' }
}

/// Decimal representation of a natural number, most significant digit first,
/// with no leading zeros (`0` is the single character `'0'`).
pub open spec fn dec_str(n: nat) -> Seq<char>
    decreases n,
{
    if n < 10 {
        seq![digit_char(n)]
    } else {
        dec_str(n / 10).push(digit_char(n % 10))
    }
}

fn digit_to_str(d: u64) -> (r: &'static str)
    requires
        d < 10,
    ensures
        r@ == seq![digit_char(d as nat)],
{
    if d == 0 { proof { reveal_strlit("0"); assert("0"@ =~= seq![digit_char(0)]); } "0" }
    else if d == 1 { proof { reveal_strlit("1"); assert("1"@ =~= seq![digit_char(1)]); } "1" }
    else if d == 2 { proof { reveal_strlit("2"); assert("2"@ =~= seq![digit_char(2)]); } "2" }
    else if d == 3 { proof { reveal_strlit("3"); assert("3"@ =~= seq![digit_char(3)]); } "3" }
    else if d == 4 { proof { reveal_strlit("4"); assert("4"@ =~= seq![digit_char(4)]); } "4" }
    else if d == 5 { proof { reveal_strlit("5"); assert("5"@ =~= seq![digit_char(5)]); } "5" }
    else if d == 6 { proof { reveal_strlit("6"); assert("6"@ =~= seq![digit_char(6)]); } "6" }
    else if d == 7 { proof { reveal_strlit("7"); assert("7"@ =~= seq![digit_char(7)]); } "7" }
    else if d == 8 { proof { reveal_strlit("8"); assert("8"@ =~= seq![digit_char(8)]); } "8" }
    else { proof { reveal_strlit("9"); assert("9"@ =~= seq![digit_char(9)]); } "9" }
}

/// Decimal rendering of a `u64`.
pub fn u64_to_dec(n: u64) -> (s: String)
    ensures
        s@ == dec_str(n as nat),
    decreases n,
{
    if n < 10 {
        digit_to_str(n).to_owned()
    } else {
        let mut s = u64_to_dec(n / 10);
        s.append(digit_to_str(n % 10));
        proof {
            assert(s@ =~= dec_str(n as nat));
        }
        s
    }
}

/// `100 * b / unit`, rounded half-up to the nearest integer: the scaled value
/// in hundredths of a unit.
pub open spec fn hundredths_of(b: u64, unit: u64) -> nat
    recommends
        unit > 0,
{
    ((100 * b + unit / 2) / (unit as int)) as nat
}

fn scale_hundredths(b: u64, unit: u64) -> (h: u64)
    requires
        unit == KB || unit == MB || unit == GB,
    ensures
        h == hundredths_of(b, unit),
{
    let n: u128 = 100u128 * (b as u128) + (unit / 2) as u128;
    let q: u128 = n / (unit as u128);
    proof {
        lemma_div_is_ordered(n as int, 100 * (u64::MAX as int) + 0x2000_0000, 1024);
        lemma_div_is_ordered(n as int, n as int, unit as int);
        if unit > 1024 {
            vstd::arithmetic::div_mod::lemma_div_is_ordered_by_denominator(
                n as int, 1024, unit as int);
        }
    }
    q as u64
}

/// Two-decimal rendering of a value given in hundredths, written the way a
/// plain decimal number prints: trailing fractional zeros dropped, and the
/// fraction omitted entirely when it is zero.
pub open spec fn two_dec_str(h: nat) -> Seq<char> {
    let whole = h / 100;
    let frac = h % 100;
    if frac == 0 {
        dec_str(whole)
    } else if frac % 10 == 0 {
        dec_str(whole) + seq!['.'] + dec_str(frac / 10)
    } else if frac < 10 {
        dec_str(whole) + seq!['.', '0'] + dec_str(frac)
    } else {
        dec_str(whole) + seq!['.'] + dec_str(frac)
    }
}

fn format_two_dec(h: u64) -> (s: String)
    ensures
        s@ == two_dec_str(h as nat),
{
    let whole: u64 = h / 100;
    let frac: u64 = h % 100;
    let mut s = u64_to_dec(whole);
    if frac == 0 {
        return s;
    }
    proof { reveal_strlit("."); }
    s.append(".");
    if frac % 10 == 0 {
        s.append(digit_to_str(frac / 10));
        proof { assert(s@ =~= two_dec_str(h as nat)); }
        s
    } else if frac < 10 {
        proof { reveal_strlit("0"); }
        s.append("0");
        s.append(digit_to_str(frac));
        proof {
            assert("0"@ =~= seq!['0']);
            assert(s@ =~= two_dec_str(h as nat));
        }
        s
    } else {
        let f = u64_to_dec(frac);
        s.append(f.as_str());
        proof { assert(s@ =~= two_dec_str(h as nat)); }
        s
    }
}

/// Rendering of a value given in hundredths with exactly two decimal places,
/// as a fixed-precision percentage prints.
pub open spec fn fixed2_str(h: nat) -> Seq<char> {
    let whole = h / 100;
    let frac = h % 100;
    if frac < 10 {
        dec_str(whole) + seq!['.', '0'] + dec_str(frac)
    } else {
        dec_str(whole) + seq!['.'] + dec_str(frac)
    }
}

/// Fixed two-decimal rendering of a value in hundredths (`1234` prints as
/// `12.34`, `5` as `0.05`).
pub fn format_fixed2(h: u64) -> (s: String)
    ensures
        s@ == fixed2_str(h as nat),
{
    let whole: u64 = h / 100;
    let frac: u64 = h % 100;
    let mut s = u64_to_dec(whole);
    proof { reveal_strlit("."); }
    s.append(".");
    if frac < 10 {
        proof { reveal_strlit("0"); }
        s.append("0");
        s.append(digit_to_str(frac));
        proof {
            assert("0"@ =~= seq!['0']);
            assert(s@ =~= fixed2_str(h as nat));
        }
        s
    } else {
        let f = u64_to_dec(frac);
        s.append(f.as_str());
        proof { assert(s@ =~= fixed2_str(h as nat)); }
        s
    }
}

/// The unit the formatter picks: the largest rung of the 1024-ladder that is
/// at most `b`, or 1 (plain bytes / bits) below 1024.
pub open spec fn auto_unit(b: u64) -> u64 {
    if b >= GB { GB } else if b >= MB { MB } else if b >= KB { KB } else { 1 }
}

/// The numeric prefix the formatter prints, in hundredths of the chosen unit.
pub open spec fn auto_prefix_hundredths(b: u64) -> nat {
    if b >= KB {
        hundredths_of(b, auto_unit(b))
    } else {
        (100 * b) as nat
    }
}

/// The text of a byte count scaled to its unit.
pub open spec fn auto_size_spec(b: u64) -> Seq<char> {
    if b >= GB { two_dec_str(hundredths_of(b, GB)) + " GB"@ }
    else if b >= MB { two_dec_str(hundredths_of(b, MB)) + " MB"@ }
    else if b >= KB { two_dec_str(hundredths_of(b, KB)) + " KB"@ }
    else { dec_str(b as nat) + " B"@ }
}

/// The text of a bits-per-second rate scaled to its unit.
pub open spec fn auto_bits_spec(b: u64) -> Seq<char> {
    if b >= GB { two_dec_str(hundredths_of(b, GB)) + " Gbps"@ }
    else if b >= MB { two_dec_str(hundredths_of(b, MB)) + " Mbps"@ }
    else if b >= KB { two_dec_str(hundredths_of(b, KB)) + " Kbps"@ }
    else { dec_str(b as nat) + " bps"@ }
}

/// Human-readable byte count: `"8 GB"`, `"953.67 MB"`, `"0 B"`.
pub fn auto_size(b: u64) -> (s: String)
    ensures
        s@ == auto_size_spec(b),
{
    if b >= GB {
        let mut s = format_two_dec(scale_hundredths(b, GB));
        s.append(" GB");
        s
    } else if b >= MB {
        let mut s = format_two_dec(scale_hundredths(b, MB));
        s.append(" MB");
        s
    } else if b >= KB {
        let mut s = format_two_dec(scale_hundredths(b, KB));
        s.append(" KB");
        s
    } else {
        let mut s = u64_to_dec(b);
        s.append(" B");
        s
    }
}

/// Human-readable bit rate: `"1.5 Gbps"`, `"0 bps"`.
pub fn auto_bits(b: u64) -> (s: String)
    ensures
        s@ == auto_bits_spec(b),
{
    if b >= GB {
        let mut s = format_two_dec(scale_hundredths(b, GB));
        s.append(" Gbps");
        s
    } else if b >= MB {
        let mut s = format_two_dec(scale_hundredths(b, MB));
        s.append(" Mbps");
        s
    } else if b >= KB {
        let mut s = format_two_dec(scale_hundredths(b, KB));
        s.append(" Kbps");
        s
    } else {
        let mut s = u64_to_dec(b);
        s.append(" bps");
        s
    }
}

/// Law of the unit formatter: the chosen unit is the largest rung of the
/// 1024-ladder not exceeding the input (bytes for anything under 1024), and
/// re-scaling the printed two-decimal prefix by the unit's multiplier lands
/// within half a hundredth of a unit of the original count — the rounding
/// error of the display never exceeds 0.005 of the chosen unit.
pub proof fn lemma_auto_choice(b: u64)
    ensures
        b >= 1 ==> auto_unit(b) <= b,
        auto_unit(b) == GB || b < auto_unit(b) * 1024,
        100 * b <= auto_prefix_hundredths(b) * auto_unit(b) + auto_unit(b) / 2,
        auto_prefix_hundredths(b) * auto_unit(b) <= 100 * b + auto_unit(b) / 2,
{
    let u = auto_unit(b);
    if b >= KB {
        let h = hundredths_of(b, u);
        lemma_fundamental_div_mod(100 * b + u / 2, u as int);
        assert(100 * b + u / 2 == (u as int) * ((100 * b + u / 2) / (u as int))
            + (100 * b + u / 2) % (u as int));
        assert(h * u == (u as int) * ((100 * b + u / 2) / (u as int)));
    } else {
        assert(auto_prefix_hundredths(b) * auto_unit(b) == 100 * b);
    }
}

} // verus!
