//! Clock renderings of millisecond times for the timeline table and the
//! subtitle formats.
use vstd::prelude::*;

use crate::text::{
    dec_seq, decimal, decimal_padded, digits_value, extend_chars, is_digit, lemma_dec_numeral,
    lemma_padded_numeral, pad_zeros, string_of,
};

verus! {

/// `h:mm:ss` when at least an hour has passed, else `m:ss` (whole seconds).
pub open spec fn clock_seq(ms: nat) -> Seq<char> {
    let total = ms / 1000;
    let h = total / 3600;
    let m = (total % 3600) / 60;
    let s = total % 60;
    if h > 0 {
        dec_seq(h) + seq![':'] + pad_zeros(dec_seq(m), 2) + seq![':'] + pad_zeros(dec_seq(s), 2)
    } else {
        dec_seq(m) + seq![':'] + pad_zeros(dec_seq(s), 2)
    }
}

/// `h:mm:ss` followed by `sep` and three digits of milliseconds.
pub open spec fn stamp_seq(ms: nat, sep: char) -> Seq<char> {
    let h = ms / 3_600_000;
    let m = (ms % 3_600_000) / 60_000;
    let s = (ms % 60_000) / 1000;
    let f = ms % 1000;
    dec_seq(h) + seq![':'] + pad_zeros(dec_seq(m), 2) + seq![':'] + pad_zeros(dec_seq(s), 2)
        + seq![sep] + pad_zeros(dec_seq(f), 3)
}

/// Whether every character of `s` is an ASCII digit.
pub open spec fn all_digits(s: Seq<char>) -> bool {
    forall|i: int| 0 <= i < s.len() ==> is_digit(#[trigger] s[i])
}

/// A subtitle stamp reads back as the time it renders: it is hours, `:`,
/// two digits of minutes, `:`, two digits of seconds, the separator, and
/// three digits of milliseconds, the hours without a leading zero, the
/// minutes and seconds below 60, and together they make `ms`.
pub proof fn law_stamp_reads_back(ms: nat, sep: char) -> (parts: (
    Seq<char>,
    Seq<char>,
    Seq<char>,
    Seq<char>,
))
    ensures
        ({
            let (h, m, s, f) = parts;
            &&& stamp_seq(ms, sep) == h + seq![':'] + m + seq![':'] + s + seq![sep] + f
            &&& all_digits(h) && all_digits(m) && all_digits(s) && all_digits(f)
            &&& h.len() > 0 && (h.len() == 1 || h[0] != '0')
            &&& m.len() == 2 && s.len() == 2 && f.len() == 3
            &&& digits_value(m) < 60 && digits_value(s) < 60
            &&& digits_value(h) * 3_600_000 + digits_value(m) * 60_000 + digits_value(s) * 1000
                + digits_value(f) == ms
        }),
{
    let hh = ms / 3_600_000;
    let mm = (ms % 3_600_000) / 60_000;
    let ss = (ms % 60_000) / 1000;
    let ff = ms % 1000;
    lemma_dec_numeral(hh);
    lemma_padded_numeral(mm, 2);
    lemma_padded_numeral(ss, 2);
    lemma_padded_numeral(ff, 3);
    assert(hh * 3_600_000 + mm * 60_000 + ss * 1000 + ff == ms) by (nonlinear_arith)
        requires
            hh == ms / 3_600_000,
            mm == (ms % 3_600_000) / 60_000,
            ss == (ms % 60_000) / 1000,
            ff == ms % 1000,
    {
        assert(ms == hh * 3_600_000 + ms % 3_600_000);
        assert(ms % 3_600_000 == mm * 60_000 + (ms % 3_600_000) % 60_000);
        assert((ms % 3_600_000) % 60_000 == ms % 60_000);
        assert(ms % 60_000 == ss * 1000 + (ms % 60_000) % 1000);
        assert((ms % 60_000) % 1000 == ms % 1000);
    }
    (dec_seq(hh), pad_zeros(dec_seq(mm), 2), pad_zeros(dec_seq(ss), 2), pad_zeros(dec_seq(ff), 3))
}

/// A timeline clock reads back as the whole seconds of the time: `h:mm:ss`
/// from an hour on, else `m:ss`; the leading part without a leading zero,
/// minutes and seconds below 60, and together they make `ms / 1000`.
pub proof fn law_clock_reads_back(ms: nat) -> (parts: (Seq<char>, Seq<char>, Seq<char>))
    ensures
        ({
            let (h, m, s) = parts;
            &&& all_digits(h) && all_digits(m) && all_digits(s)
            &&& s.len() == 2 && digits_value(s) < 60 && digits_value(m) < 60
            &&& ms / 1000 >= 3600 ==> clock_seq(ms) == h + seq![':'] + m + seq![':'] + s
                && m.len() == 2 && h.len() > 0 && h[0] != '0'
            &&& ms / 1000 < 3600 ==> clock_seq(ms) == m + seq![':'] + s && h.len() == 0 && m.len()
                > 0 && (m.len() == 1 || m[0] != '0')
            &&& digits_value(h) * 3600 + digits_value(m) * 60 + digits_value(s) == ms / 1000
        }),
{
    let total = ms / 1000;
    let hh = total / 3600;
    let mm = (total % 3600) / 60;
    let ss = total % 60;
    assert(hh * 3600 + mm * 60 + ss == total) by (nonlinear_arith)
        requires
            hh == total / 3600,
            mm == (total % 3600) / 60,
            ss == total % 60,
    {
        assert(total == hh * 3600 + total % 3600);
        assert(total % 3600 == mm * 60 + (total % 3600) % 60);
        assert((total % 3600) % 60 == total % 60);
    }
    lemma_padded_numeral(ss, 2);
    lemma_dec_numeral(mm);
    lemma_dec_numeral(hh);
    if total >= 3600 {
        lemma_padded_numeral(mm, 2);
        (dec_seq(hh), pad_zeros(dec_seq(mm), 2), pad_zeros(dec_seq(ss), 2))
    } else {
        assert(hh == 0);
        assert(digits_value(Seq::<char>::empty()) == 0);
        assert(dec_seq(mm).len() > 1 ==> mm > 0);
        (Seq::<char>::empty(), dec_seq(mm), pad_zeros(dec_seq(ss), 2))
    }
}

pub(crate) fn clock_chars(ms: u64) -> (r: Vec<char>)
    ensures
        r@ == clock_seq(ms as nat),
{
    let total = ms / 1000;
    let h = total / 3600;
    let m = (total % 3600) / 60;
    let s = total % 60;
    let mut r: Vec<char>;
    if h > 0 {
        r = decimal(h);
        r.push(':');
        extend_chars(&mut r, &decimal_padded(m, 2));
    } else {
        r = decimal(m);
    }
    r.push(':');
    extend_chars(&mut r, &decimal_padded(s, 2));
    r
}

pub(crate) fn stamp_chars(ms: u64, sep: char) -> (r: Vec<char>)
    ensures
        r@ == stamp_seq(ms as nat, sep),
{
    let h = ms / 3_600_000;
    let m = (ms % 3_600_000) / 60_000;
    let s = (ms % 60_000) / 1000;
    let f = ms % 1000;
    let mut r = decimal(h);
    r.push(':');
    extend_chars(&mut r, &decimal_padded(m, 2));
    r.push(':');
    extend_chars(&mut r, &decimal_padded(s, 2));
    r.push(sep);
    extend_chars(&mut r, &decimal_padded(f, 3));
    r
}

/// Timeline clock of a time: `h:mm:ss` from one hour on, else `m:ss`.
pub fn fmt_time(ms: u64) -> (r: String)
    ensures
        r@ == clock_seq(ms as nat),
{
    string_of(&clock_chars(ms))
}

/// SRT timestamp `h:mm:ss,mmm`.
pub fn srt_time(ms: u64) -> (r: String)
    ensures
        r@ == stamp_seq(ms as nat, ','),
{
    string_of(&stamp_chars(ms, ','))
}

/// WebVTT timestamp `h:mm:ss.mmm`.
pub fn vtt_time(ms: u64) -> (r: String)
    ensures
        r@ == stamp_seq(ms as nat, '.'),
{
    string_of(&stamp_chars(ms, '.'))
}

} // verus!
