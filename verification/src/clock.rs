use vstd::prelude::*;

use vstd::arithmetic::div_mod::{lemma_div_denominator, lemma_fundamental_div_mod};

use chrono::{Datelike, Timelike};

use crate::hexutil::{hex_digit, hex_digit_str};

verus! {

/// One reading of the UTC clock, split into plain calendar fields.
#[derive(Clone, Copy, Debug, PartialEq, Eq, Structural)]
pub struct Timestamp {
    pub year: i32,
    pub month: u32,
    pub day: u32,
    pub hour: u32,
    pub minute: u32,
    pub second: u32,
}

/// The ranges the calendar accessors promise for every reading.
pub open spec fn spec_time_fields_in_range(t: Timestamp) -> bool {
    &&& 1 <= t.month <= 12
    &&& 1 <= t.day <= 31
    &&& t.hour <= 23
    &&& t.minute <= 59
    &&& t.second <= 59
}

/// Relies on chrono::Utc::now and the chrono::Datelike / chrono::Timelike
/// accessors, whose documentation bounds month to 1..=12, day to 1..=31,
/// hour to 0..=23, and minute and second to 0..=59. Inherits chrono's abort
/// on a system clock set before the epoch; that state is no input, so no
/// precondition can exclude it.
#[verifier::external_body]
pub(crate) fn now_utc() -> (t: Timestamp)
    ensures
        spec_time_fields_in_range(t),
{
    let now = chrono::Utc::now();
    Timestamp {
        year: now.year(),
        month: now.month(),
        day: now.day(),
        hour: now.hour(),
        minute: now.minute(),
        second: now.second(),
    }
}

/// The decimal digits of `n`, most significant first, with no padding.
pub open spec fn spec_decimal(n: nat) -> Seq<char>
    decreases n,
{
    if n < 10 {
        seq![hex_digit(n as u8)]
    } else {
        spec_decimal(n / 10).push(hex_digit((n % 10) as u8))
    }
}

/// The decimal digits of `n`, zero-padded to at least two places.
pub open spec fn spec_two_digits(n: nat) -> Seq<char> {
    if n < 10 {
        "0"@ + spec_decimal(n)
    } else {
        spec_decimal(n)
    }
}

/// The decimal digits of `n`, zero-padded to at least four places.
pub open spec fn spec_four_digits(n: nat) -> Seq<char> {
    if n < 10 {
        "000"@ + spec_decimal(n)
    } else if n < 100 {
        "00"@ + spec_decimal(n)
    } else if n < 1000 {
        "0"@ + spec_decimal(n)
    } else {
        spec_decimal(n)
    }
}

/// A year, zero-padded to four places, with a leading sign for years before
/// the common era.
pub open spec fn spec_year_digits(y: int) -> Seq<char> {
    if y < 0 {
        "-"@ + spec_four_digits((-y) as nat)
    } else {
        spec_four_digits(y as nat)
    }
}

/// The compact timestamp `YYYYMMDDHHMMSS` used to prefix stored file names.
pub open spec fn spec_compact_timestamp(t: Timestamp) -> Seq<char> {
    spec_year_digits(t.year as int) + spec_two_digits(t.month as nat) + spec_two_digits(
        t.day as nat,
    ) + spec_two_digits(t.hour as nat) + spec_two_digits(t.minute as nat) + spec_two_digits(
        t.second as nat,
    )
}

/// The dashed timestamp `YYYY-MM-DD_HH-MM-SS` used to name assembled
/// artifacts.
pub open spec fn spec_dashed_timestamp(t: Timestamp) -> Seq<char> {
    spec_year_digits(t.year as int) + "-"@ + spec_two_digits(t.month as nat) + "-"@
        + spec_two_digits(t.day as nat) + "_"@ + spec_two_digits(t.hour as nat) + "-"@
        + spec_two_digits(t.minute as nat) + "-"@ + spec_two_digits(t.second as nat)
}

/// Text that holds no path separator.
pub open spec fn spec_sep_free(s: Seq<char>) -> bool {
    forall|i: int| 0 <= i < s.len() ==> s[i] != '/'
}

proof fn lemma_sep_free_concat(a: Seq<char>, b: Seq<char>)
    requires
        spec_sep_free(a),
        spec_sep_free(b),
    ensures
        spec_sep_free(a + b),
{
    assert forall|i: int| 0 <= i < (a + b).len() implies (a + b)[i] != '/' by {
        if i < a.len() {
            assert((a + b)[i] == a[i]);
        } else {
            assert((a + b)[i] == b[i - a.len()]);
        }
    }
}

proof fn lemma_decimal_sep_free(n: nat)
    ensures
        spec_sep_free(spec_decimal(n)),
    decreases n,
{
    if n >= 10 {
        lemma_decimal_sep_free(n / 10);
    }
}

proof fn lemma_two_digits_sep_free(n: nat)
    ensures
        spec_sep_free(spec_two_digits(n)),
{
    reveal_strlit("0");
    lemma_decimal_sep_free(n);
    if n < 10 {
        lemma_sep_free_concat("0"@, spec_decimal(n));
    }
}

proof fn lemma_four_digits_sep_free(n: nat)
    ensures
        spec_sep_free(spec_four_digits(n)),
{
    reveal_strlit("0");
    reveal_strlit("00");
    reveal_strlit("000");
    lemma_decimal_sep_free(n);
    if n < 10 {
        lemma_sep_free_concat("000"@, spec_decimal(n));
    } else if n < 100 {
        lemma_sep_free_concat("00"@, spec_decimal(n));
    } else if n < 1000 {
        lemma_sep_free_concat("0"@, spec_decimal(n));
    }
}

proof fn lemma_year_sep_free(y: int)
    ensures
        spec_sep_free(spec_year_digits(y)),
{
    reveal_strlit("-");
    if y < 0 {
        lemma_four_digits_sep_free((-y) as nat);
        lemma_sep_free_concat("-"@, spec_four_digits((-y) as nat));
    } else {
        lemma_four_digits_sep_free(y as nat);
    }
}

/// No path separator ever appears in a compact timestamp.
pub proof fn lemma_compact_timestamp_sep_free(t: Timestamp)
    ensures
        spec_sep_free(spec_compact_timestamp(t)),
{
    lemma_year_sep_free(t.year as int);
    lemma_two_digits_sep_free(t.month as nat);
    lemma_two_digits_sep_free(t.day as nat);
    lemma_two_digits_sep_free(t.hour as nat);
    lemma_two_digits_sep_free(t.minute as nat);
    lemma_two_digits_sep_free(t.second as nat);
    let a = spec_year_digits(t.year as int);
    let b = spec_two_digits(t.month as nat);
    let c = spec_two_digits(t.day as nat);
    let d = spec_two_digits(t.hour as nat);
    let e = spec_two_digits(t.minute as nat);
    let f = spec_two_digits(t.second as nat);
    lemma_sep_free_concat(a, b);
    lemma_sep_free_concat(a + b, c);
    lemma_sep_free_concat(a + b + c, d);
    lemma_sep_free_concat(a + b + c + d, e);
    lemma_sep_free_concat(a + b + c + d + e, f);
}

/// No path separator ever appears in a dashed timestamp.
pub proof fn lemma_dashed_timestamp_sep_free(t: Timestamp)
    ensures
        spec_sep_free(spec_dashed_timestamp(t)),
{
    reveal_strlit("-");
    reveal_strlit("_");
    lemma_year_sep_free(t.year as int);
    lemma_two_digits_sep_free(t.month as nat);
    lemma_two_digits_sep_free(t.day as nat);
    lemma_two_digits_sep_free(t.hour as nat);
    lemma_two_digits_sep_free(t.minute as nat);
    lemma_two_digits_sep_free(t.second as nat);
    let a = spec_year_digits(t.year as int);
    let b = spec_two_digits(t.month as nat);
    let c = spec_two_digits(t.day as nat);
    let d = spec_two_digits(t.hour as nat);
    let e = spec_two_digits(t.minute as nat);
    let f = spec_two_digits(t.second as nat);
    lemma_sep_free_concat(a, "-"@);
    lemma_sep_free_concat(a + "-"@, b);
    lemma_sep_free_concat(a + "-"@ + b, "-"@);
    lemma_sep_free_concat(a + "-"@ + b + "-"@, c);
    lemma_sep_free_concat(a + "-"@ + b + "-"@ + c, "_"@);
    lemma_sep_free_concat(a + "-"@ + b + "-"@ + c + "_"@, d);
    lemma_sep_free_concat(a + "-"@ + b + "-"@ + c + "_"@ + d, "-"@);
    lemma_sep_free_concat(a + "-"@ + b + "-"@ + c + "_"@ + d + "-"@, e);
    lemma_sep_free_concat(a + "-"@ + b + "-"@ + c + "_"@ + d + "-"@ + e, "-"@);
    lemma_sep_free_concat(a + "-"@ + b + "-"@ + c + "_"@ + d + "-"@ + e + "-"@, f);
}

proof fn lemma_digit_injective(a: nat, b: nat)
    requires
        a < 10,
        b < 10,
        hex_digit(a as u8) == hex_digit(b as u8),
    ensures
        a == b,
{
}

proof fn lemma_two_digits_form(n: nat)
    requires
        n < 100,
    ensures
        spec_two_digits(n) == seq![hex_digit((n / 10) as u8), hex_digit((n % 10) as u8)],
{
    reveal_strlit("0");
    if n < 10 {
        assert(spec_two_digits(n) =~= seq![hex_digit((n / 10) as u8), hex_digit((n % 10) as u8)]);
    } else {
        assert(spec_decimal(n / 10) == seq![hex_digit((n / 10) as u8)]);
        assert(spec_two_digits(n) =~= seq![hex_digit((n / 10) as u8), hex_digit((n % 10) as u8)]);
    }
}

proof fn lemma_four_digits_form(n: nat)
    requires
        n < 10000,
    ensures
        spec_four_digits(n) == seq![
            hex_digit((n / 1000) as u8),
            hex_digit((n / 100 % 10) as u8),
            hex_digit((n / 10 % 10) as u8),
            hex_digit((n % 10) as u8),
        ],
{
    reveal_strlit("0");
    reveal_strlit("00");
    reveal_strlit("000");
    lemma_div_denominator(n as int, 10, 10);
    lemma_div_denominator(n as int, 100, 10);
    let target = seq![
        hex_digit((n / 1000) as u8),
        hex_digit((n / 100 % 10) as u8),
        hex_digit((n / 10 % 10) as u8),
        hex_digit((n % 10) as u8),
    ];
    if n < 10 {
        assert(spec_four_digits(n) =~= target);
    } else if n < 100 {
        assert(spec_decimal(n / 10) == seq![hex_digit((n / 10) as u8)]);
        assert(spec_decimal(n) =~= seq![hex_digit((n / 10) as u8), hex_digit((n % 10) as u8)]);
        assert(spec_four_digits(n) =~= target);
    } else if n < 1000 {
        assert(spec_decimal(n / 10 / 10) == seq![hex_digit((n / 100) as u8)]);
        assert(spec_decimal(n / 10) =~= seq![
            hex_digit((n / 100) as u8),
            hex_digit((n / 10 % 10) as u8),
        ]);
        assert(spec_decimal(n) =~= seq![
            hex_digit((n / 100) as u8),
            hex_digit((n / 10 % 10) as u8),
            hex_digit((n % 10) as u8),
        ]);
        assert(spec_four_digits(n) =~= target);
    } else {
        assert(spec_decimal(n / 100 / 10) == seq![hex_digit((n / 1000) as u8)]);
        assert(spec_decimal(n / 100) =~= seq![
            hex_digit((n / 1000) as u8),
            hex_digit((n / 100 % 10) as u8),
        ]);
        assert(spec_decimal(n / 10) =~= seq![
            hex_digit((n / 1000) as u8),
            hex_digit((n / 100 % 10) as u8),
            hex_digit((n / 10 % 10) as u8),
        ]);
        assert(spec_decimal(n) =~= target);
        assert(spec_four_digits(n) =~= target);
    }
}

proof fn lemma_compact_form(t: Timestamp)
    requires
        spec_time_fields_in_range(t),
        0 <= t.year <= 9999,
    ensures
        spec_compact_timestamp(t) == seq![
            hex_digit((t.year as nat / 1000) as u8),
            hex_digit((t.year as nat / 100 % 10) as u8),
            hex_digit((t.year as nat / 10 % 10) as u8),
            hex_digit((t.year as nat % 10) as u8),
            hex_digit((t.month as nat / 10) as u8),
            hex_digit((t.month as nat % 10) as u8),
            hex_digit((t.day as nat / 10) as u8),
            hex_digit((t.day as nat % 10) as u8),
            hex_digit((t.hour as nat / 10) as u8),
            hex_digit((t.hour as nat % 10) as u8),
            hex_digit((t.minute as nat / 10) as u8),
            hex_digit((t.minute as nat % 10) as u8),
            hex_digit((t.second as nat / 10) as u8),
            hex_digit((t.second as nat % 10) as u8),
        ],
{
    lemma_four_digits_form(t.year as nat);
    lemma_two_digits_form(t.month as nat);
    lemma_two_digits_form(t.day as nat);
    lemma_two_digits_form(t.hour as nat);
    lemma_two_digits_form(t.minute as nat);
    lemma_two_digits_form(t.second as nat);
    assert(spec_year_digits(t.year as int) == spec_four_digits(t.year as nat));
    assert(spec_compact_timestamp(t) =~= seq![
        hex_digit((t.year as nat / 1000) as u8),
        hex_digit((t.year as nat / 100 % 10) as u8),
        hex_digit((t.year as nat / 10 % 10) as u8),
        hex_digit((t.year as nat % 10) as u8),
        hex_digit((t.month as nat / 10) as u8),
        hex_digit((t.month as nat % 10) as u8),
        hex_digit((t.day as nat / 10) as u8),
        hex_digit((t.day as nat % 10) as u8),
        hex_digit((t.hour as nat / 10) as u8),
        hex_digit((t.hour as nat % 10) as u8),
        hex_digit((t.minute as nat / 10) as u8),
        hex_digit((t.minute as nat % 10) as u8),
        hex_digit((t.second as nat / 10) as u8),
        hex_digit((t.second as nat % 10) as u8),
    ]);
}

proof fn lemma_digits_determine(a: nat, b: nat)
    requires
        a < 100,
        b < 100,
        hex_digit((a / 10) as u8) == hex_digit((b / 10) as u8),
        hex_digit((a % 10) as u8) == hex_digit((b % 10) as u8),
    ensures
        a == b,
{
    lemma_digit_injective(a / 10, b / 10);
    lemma_digit_injective(a % 10, b % 10);
    lemma_fundamental_div_mod(a as int, 10);
    lemma_fundamental_div_mod(b as int, 10);
}

/// The compact stamp determines every calendar field: distinct in-range
/// clock readings with common-era, four-digit years render to distinct
/// `YYYYMMDDHHMMSS` stamps. This is what makes timestamp-prefixed stored
/// names distinct across uploads at distinct times.
#[verifier::rlimit(100)]
pub proof fn lemma_compact_timestamp_injective(t1: Timestamp, t2: Timestamp)
    requires
        spec_time_fields_in_range(t1),
        spec_time_fields_in_range(t2),
        0 <= t1.year <= 9999,
        0 <= t2.year <= 9999,
        spec_compact_timestamp(t1) == spec_compact_timestamp(t2),
    ensures
        t1 == t2,
{
    lemma_compact_form(t1);
    lemma_compact_form(t2);
    let y1 = t1.year as nat;
    let y2 = t2.year as nat;
    lemma_digit_injective(y1 / 1000, y2 / 1000);
    lemma_digit_injective(y1 / 100 % 10, y2 / 100 % 10);
    lemma_digit_injective(y1 / 10 % 10, y2 / 10 % 10);
    lemma_digit_injective(y1 % 10, y2 % 10);
    lemma_div_denominator(y1 as int, 10, 10);
    lemma_div_denominator(y1 as int, 100, 10);
    lemma_div_denominator(y2 as int, 10, 10);
    lemma_div_denominator(y2 as int, 100, 10);
    lemma_fundamental_div_mod(y1 as int / 100, 10);
    lemma_fundamental_div_mod(y2 as int / 100, 10);
    lemma_fundamental_div_mod(y1 as int / 10, 10);
    lemma_fundamental_div_mod(y2 as int / 10, 10);
    lemma_fundamental_div_mod(y1 as int, 10);
    lemma_fundamental_div_mod(y2 as int, 10);
    assert(y1 == y2);
    lemma_digits_determine(t1.month as nat, t2.month as nat);
    lemma_digits_determine(t1.day as nat, t2.day as nat);
    lemma_digits_determine(t1.hour as nat, t2.hour as nat);
    lemma_digits_determine(t1.minute as nat, t2.minute as nat);
    lemma_digits_determine(t1.second as nat, t2.second as nat);
}

/// Render `v` as unpadded decimal text.
fn format_u32(v: u32) -> (r: String)
    ensures
        r@ == spec_decimal(v as nat),
    decreases v,
{
    if v < 10 {
        let r = String::from_str(hex_digit_str(v as u8));
        proof {
            assert(r@ =~= spec_decimal(v as nat));
        }
        r
    } else {
        let rest = format_u32(v / 10);
        let r = rest.concat(hex_digit_str((v % 10) as u8));
        proof {
            assert(r@ =~= spec_decimal(v as nat));
        }
        r
    }
}

/// Render `v` as decimal text zero-padded to at least two places.
fn format_two_digits(v: u32) -> (r: String)
    ensures
        r@ == spec_two_digits(v as nat),
{
    if v < 10 {
        String::from_str("0").concat(format_u32(v).as_str())
    } else {
        format_u32(v)
    }
}

/// Render a year zero-padded to at least four places, with a leading sign
/// for years before the common era.
fn format_year(y: i32) -> (r: String)
    ensures
        r@ == spec_year_digits(y as int),
{
    let magnitude: u32 = if y < 0 {
        (-(y as i64)) as u32
    } else {
        y as u32
    };
    let digits = if magnitude < 10 {
        String::from_str("000").concat(format_u32(magnitude).as_str())
    } else if magnitude < 100 {
        String::from_str("00").concat(format_u32(magnitude).as_str())
    } else if magnitude < 1000 {
        String::from_str("0").concat(format_u32(magnitude).as_str())
    } else {
        format_u32(magnitude)
    };
    if y < 0 {
        String::from_str("-").concat(digits.as_str())
    } else {
        digits
    }
}

/// Render the compact `YYYYMMDDHHMMSS` form of a clock reading.
pub fn format_compact_timestamp(t: Timestamp) -> (r: String)
    ensures
        r@ == spec_compact_timestamp(t),
{
    format_year(t.year).concat(format_two_digits(t.month).as_str()).concat(
        format_two_digits(t.day).as_str(),
    ).concat(format_two_digits(t.hour).as_str()).concat(
        format_two_digits(t.minute).as_str(),
    ).concat(format_two_digits(t.second).as_str())
}

/// Render the dashed `YYYY-MM-DD_HH-MM-SS` form of a clock reading.
pub fn format_dashed_timestamp(t: Timestamp) -> (r: String)
    ensures
        r@ == spec_dashed_timestamp(t),
{
    format_year(t.year).concat("-").concat(format_two_digits(t.month).as_str()).concat(
        "-",
    ).concat(format_two_digits(t.day).as_str()).concat("_").concat(
        format_two_digits(t.hour).as_str(),
    ).concat("-").concat(format_two_digits(t.minute).as_str()).concat("-").concat(
        format_two_digits(t.second).as_str(),
    )
}

} // verus!
