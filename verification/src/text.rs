//! Character-level text helpers shared by the output formatters: conversion
//! between `String` and `Vec<char>`, Unicode whitespace trimming, decimal
//! rendering and zero padding.
use vstd::prelude::*;

verus! {

// ---------------------------------------------------------------------------
// Conversions
// ---------------------------------------------------------------------------

/// Appends one character to a string (std `String::push`): the string's
/// characters afterwards are the old ones followed by `c`.
#[verifier::external_body]
pub(crate) fn push_char(s: &mut String, c: char)
    ensures
        final(s)@ == old(s)@.push(c),
{
    s.push(c);
}

/// The characters of a string slice, in order.
pub fn chars_of(s: &str) -> (v: Vec<char>)
    ensures
        v@ == s@,
{
    let mut v: Vec<char> = Vec::new();
    for c in it: s.chars()
        invariant
            v@ == it.seq().take(it.index() as int),
    {
        v.push(c);
    }
    v
}

/// A string holding exactly the given characters.
pub fn string_of(v: &Vec<char>) -> (s: String)
    ensures
        s@ == v@,
{
    let mut s = String::new();
    for i in 0..v.len()
        invariant
            s@ == v@.take(i as int),
    {
        push_char(&mut s, v[i]);
        assert(v@.take((i + 1) as int) == v@.take(i as int).push(v@[i as int]));
    }
    assert(v@.take(v@.len() as int) == v@);
    s
}

/// Appends the characters of `src` to `dst`.
pub fn extend_chars(dst: &mut Vec<char>, src: &Vec<char>)
    ensures
        final(dst)@ == old(dst)@ + src@,
{
    let ghost start = dst@;
    for i in 0..src.len()
        invariant
            dst@ == start + src@.take(i as int),
    {
        dst.push(src[i]);
        assert(src@.take((i + 1) as int) == src@.take(i as int).push(src@[i as int]));
    }
    assert(src@.take(src@.len() as int) == src@);
}

/// Appends the characters of a string slice to `dst`.
pub fn extend_str(dst: &mut Vec<char>, s: &str)
    ensures
        final(dst)@ == old(dst)@ + s@,
{
    let v = chars_of(s);
    extend_chars(dst, &v);
}

/// The characters `v[lo..hi]` as a new vector.
pub fn slice_chars(v: &Vec<char>, lo: usize, hi: usize) -> (r: Vec<char>)
    requires
        lo <= hi <= v@.len(),
    ensures
        r@ == v@.subrange(lo as int, hi as int),
{
    let mut r: Vec<char> = Vec::new();
    let mut i = lo;
    while i < hi
        invariant
            lo <= i <= hi <= v@.len(),
            r@ == v@.subrange(lo as int, i as int),
        decreases hi - i,
    {
        r.push(v[i]);
        assert(v@.subrange(lo as int, i + 1) == v@.subrange(lo as int, i as int).push(v@[i as int]));
        i = i + 1;
    }
    r
}

// ---------------------------------------------------------------------------
// Whitespace and trimming
// ---------------------------------------------------------------------------

/// Unicode `White_Space` property, the set that std's `char::is_whitespace`
/// documents: U+0009..U+000D, U+0020, U+0085, U+00A0, U+1680,
/// U+2000..U+200A, U+2028, U+2029, U+202F, U+205F and U+3000.
pub open spec fn is_ws(c: char) -> bool {
    let n = c as u32;
    ||| 0x9 <= n <= 0xd
    ||| n == 0x20
    ||| n == 0x85
    ||| n == 0xa0
    ||| n == 0x1680
    ||| 0x2000 <= n <= 0x200a
    ||| n == 0x2028
    ||| n == 0x2029
    ||| n == 0x202f
    ||| n == 0x205f
    ||| n == 0x3000
}

/// Whether `c` is Unicode whitespace.
pub fn is_whitespace(c: char) -> (b: bool)
    ensures
        b == is_ws(c),
{
    let n = c as u32;
    (0x9 <= n && n <= 0xd) || n == 0x20 || n == 0x85 || n == 0xa0 || n == 0x1680 || (0x2000 <= n
        && n <= 0x200a) || n == 0x2028 || n == 0x2029 || n == 0x202f || n == 0x205f || n == 0x3000
}

/// `s` without its trailing whitespace.
pub open spec fn trim_end_seq(s: Seq<char>) -> Seq<char>
    decreases s.len(),
{
    if s.len() > 0 && is_ws(s.last()) {
        trim_end_seq(s.drop_last())
    } else {
        s
    }
}

/// `s` without its leading whitespace.
pub open spec fn trim_start_seq(s: Seq<char>) -> Seq<char>
    decreases s.len(),
{
    if s.len() > 0 && is_ws(s[0]) {
        trim_start_seq(s.drop_first())
    } else {
        s
    }
}

/// `s` without leading and trailing whitespace.
pub open spec fn trim_seq(s: Seq<char>) -> Seq<char> {
    trim_start_seq(trim_end_seq(s))
}

/// The non-whitespace characters of `s`, in order.
pub open spec fn visible(s: Seq<char>) -> Seq<char>
    decreases s.len(),
{
    if s.len() == 0 {
        s
    } else if is_ws(s.last()) {
        visible(s.drop_last())
    } else {
        visible(s.drop_last()).push(s.last())
    }
}

pub proof fn lemma_trim_end_prefix(s: Seq<char>)
    ensures
        trim_end_seq(s).len() <= s.len(),
        trim_end_seq(s) == s.take(trim_end_seq(s).len() as int),
        trim_end_seq(s).len() == 0 || !is_ws(trim_end_seq(s).last()),
        forall|i: int| trim_end_seq(s).len() <= i < s.len() ==> is_ws(#[trigger] s[i]),
    decreases s.len(),
{
    if s.len() > 0 && is_ws(s.last()) {
        lemma_trim_end_prefix(s.drop_last());
        assert(s.drop_last().take(trim_end_seq(s).len() as int) == s.take(
            trim_end_seq(s).len() as int,
        ));
        assert forall|i: int| trim_end_seq(s).len() <= i < s.len() implies is_ws(#[trigger] s[i]) by {
            if i < s.len() - 1 {
                assert(s[i] == s.drop_last()[i]);
            }
        }
    } else {
        assert(s.take(s.len() as int) == s);
    }
}

pub proof fn lemma_trim_start_suffix(s: Seq<char>)
    ensures
        trim_start_seq(s).len() <= s.len(),
        trim_start_seq(s) == s.skip(s.len() - trim_start_seq(s).len()),
        trim_start_seq(s).len() == 0 || !is_ws(trim_start_seq(s)[0]),
        forall|i: int| 0 <= i < s.len() - trim_start_seq(s).len() ==> is_ws(#[trigger] s[i]),
    decreases s.len(),
{
    if s.len() > 0 && is_ws(s[0]) {
        lemma_trim_start_suffix(s.drop_first());
        let k = s.len() - trim_start_seq(s).len();
        assert(s.drop_first().skip(k - 1) == s.skip(k));
        assert forall|i: int| 0 <= i < k implies is_ws(#[trigger] s[i]) by {
            if i > 0 {
                assert(s[i] == s.drop_first()[i - 1]);
            }
        }
    } else {
        assert(s.skip(0) == s);
    }
}

/// Trimming never lengthens, and the trimmed text is empty or starts and ends
/// with a non-whitespace character.
pub proof fn lemma_trim_facts(s: Seq<char>)
    ensures
        trim_seq(s).len() <= s.len(),
        trim_seq(s).len() == 0 || (!is_ws(trim_seq(s)[0]) && !is_ws(trim_seq(s).last())),
        trim_seq(s).len() == 0 <==> (forall|i: int| 0 <= i < s.len() ==> is_ws(#[trigger] s[i])),
{
    let e = trim_end_seq(s);
    lemma_trim_end_prefix(s);
    lemma_trim_start_suffix(e);
    let t = trim_seq(s);
    if t.len() > 0 {
        assert(t.last() == e.last());
    }
    if t.len() == 0 {
        assert forall|i: int| 0 <= i < s.len() implies is_ws(#[trigger] s[i]) by {
            if i < e.len() {
                assert(e[i] == s[i]);
            }
        }
    } else {
        let k = e.len() - t.len();
        assert(e[k] == t[0]);
        assert(s[k] == e[k]);
    }
}

pub proof fn lemma_visible_add(a: Seq<char>, b: Seq<char>)
    ensures
        visible(a + b) == visible(a) + visible(b),
    decreases b.len(),
{
    if b.len() == 0 {
        assert(a + b == a);
    } else {
        lemma_visible_add(a, b.drop_last());
        assert((a + b).drop_last() == a + b.drop_last());
        assert((a + b).last() == b.last());
    }
}

pub proof fn lemma_visible_all_ws(s: Seq<char>)
    requires
        forall|i: int| 0 <= i < s.len() ==> is_ws(#[trigger] s[i]),
    ensures
        visible(s) == Seq::<char>::empty(),
    decreases s.len(),
{
    if s.len() > 0 {
        assert(is_ws(s[s.len() - 1]));
        lemma_visible_all_ws(s.drop_last());
    }
}

pub proof fn lemma_visible_len(s: Seq<char>)
    ensures
        visible(s).len() <= s.len(),
    decreases s.len(),
{
    if s.len() > 0 {
        lemma_visible_len(s.drop_last());
    }
}

/// Text that starts and ends with non-whitespace is its own trim.
pub proof fn lemma_trim_noop(s: Seq<char>)
    requires
        s.len() > 0,
        !is_ws(s[0]),
        !is_ws(s.last()),
    ensures
        trim_seq(s) == s,
        trim_end_seq(s) == s,
{
}

/// Trimming keeps every non-whitespace character.
pub proof fn lemma_visible_trim(s: Seq<char>)
    ensures
        visible(trim_end_seq(s)) == visible(s),
        visible(trim_seq(s)) == visible(s),
{
    let e = trim_end_seq(s);
    lemma_trim_end_prefix(s);
    let tail = s.skip(e.len() as int);
    assert(s == e + tail);
    assert forall|i: int| 0 <= i < tail.len() implies is_ws(#[trigger] tail[i]) by {
        assert(tail[i] == s[i + e.len()]);
    }
    lemma_visible_all_ws(tail);
    lemma_visible_add(e, tail);
    let t = trim_start_seq(e);
    lemma_trim_start_suffix(e);
    let k = e.len() - t.len();
    let head = e.take(k);
    assert(e == head + t);
    assert forall|i: int| 0 <= i < head.len() implies is_ws(#[trigger] head[i]) by {
        assert(head[i] == e[i]);
    }
    lemma_visible_all_ws(head);
    lemma_visible_add(head, t);
}

/// `v` without trailing whitespace.
pub fn trim_end_chars(v: &Vec<char>) -> (r: Vec<char>)
    ensures
        r@ == trim_end_seq(v@),
{
    let mut hi = v.len();
    assert(v@.take(hi as int) == v@);
    while hi > 0 && is_whitespace(v[hi - 1])
        invariant
            hi <= v@.len(),
            trim_end_seq(v@) == trim_end_seq(v@.take(hi as int)),
        decreases hi,
    {
        assert(v@.take(hi as int).drop_last() == v@.take(hi - 1));
        hi = hi - 1;
    }
    slice_chars(v, 0, hi)
}

/// `v` without leading or trailing whitespace.
pub fn trim_chars(v: &Vec<char>) -> (r: Vec<char>)
    ensures
        r@ == trim_seq(v@),
{
    let e = trim_end_chars(v);
    let mut lo: usize = 0;
    assert(e@.skip(0) == e@);
    while lo < e.len() && is_whitespace(e[lo])
        invariant
            lo <= e@.len(),
            trim_start_seq(e@) == trim_start_seq(e@.skip(lo as int)),
        decreases e@.len() - lo,
    {
        assert(e@.skip(lo as int).drop_first() == e@.skip(lo + 1));
        lo = lo + 1;
    }
    assert(e@.skip(lo as int) == e@.subrange(lo as int, e@.len() as int));
    slice_chars(&e, lo, e.len())
}

/// A string slice without leading or trailing whitespace (as std's `str::trim`).
pub fn trim(s: &str) -> (r: String)
    ensures
        r@ == trim_seq(s@),
{
    let v = chars_of(s);
    let t = trim_chars(&v);
    string_of(&t)
}

// ---------------------------------------------------------------------------
// Decimal rendering
// ---------------------------------------------------------------------------

/// The ASCII digit for `d` (expected below 10).
pub open spec fn digit_char(d: nat) -> char {
    ((48 + d) as u32) as char
}

/// The shortest decimal rendering of `n` (as `{}` formats an unsigned integer).
pub open spec fn dec_seq(n: nat) -> Seq<char>
    decreases n,
{
    if n < 10 {
        seq![digit_char(n)]
    } else {
        dec_seq(n / 10).push(digit_char(n % 10))
    }
}

/// `s` padded on the left with `'0'` up to `width` characters
/// (as `{:0width$}` formats an unsigned integer).
pub open spec fn pad_zeros(s: Seq<char>, width: nat) -> Seq<char> {
    if s.len() >= width {
        s
    } else {
        Seq::new((width - s.len()) as nat, |i: int| '0') + s
    }
}

/// The decimal digits of `n`.
pub fn decimal(n: u64) -> (r: Vec<char>)
    ensures
        r@ == dec_seq(n as nat),
    decreases n,
{
    let d = (n % 10) as u32;
    let c = char_from_digit(d);
    if n < 10 {
        let mut v: Vec<char> = Vec::new();
        v.push(c);
        assert(v@ == seq![digit_char(n as nat)]);
        v
    } else {
        let mut v = decimal(n / 10);
        v.push(c);
        v
    }
}

/// The ASCII digit for `d`.
pub fn char_from_digit(d: u32) -> (c: char)
    requires
        d < 10,
    ensures
        c == digit_char(d as nat),
{
    if d == 0 {
        '0'
    } else if d == 1 {
        '1'
    } else if d == 2 {
        '2'
    } else if d == 3 {
        '3'
    } else if d == 4 {
        '4'
    } else if d == 5 {
        '5'
    } else if d == 6 {
        '6'
    } else if d == 7 {
        '7'
    } else if d == 8 {
        '8'
    } else {
        '9'
    }
}

/// The decimal digits of `n`, left-padded with zeros to `width`.
pub fn decimal_padded(n: u64, width: usize) -> (r: Vec<char>)
    ensures
        r@ == pad_zeros(dec_seq(n as nat), width as nat),
{
    let digits = decimal(n);
    if digits.len() >= width {
        digits
    } else {
        let mut r: Vec<char> = Vec::new();
        let k = width - digits.len();
        for i in 0..k
            invariant
                r@ == Seq::new(i as nat, |j: int| '0'),
        {
            r.push('0');
            assert(r@ == Seq::new((i + 1) as nat, |j: int| '0'));
        }
        extend_chars(&mut r, &digits);
        r
    }
}

// ---------------------------------------------------------------------------
// Sequences of strings
// ---------------------------------------------------------------------------

/// The character sequences of a list of strings.
pub open spec fn string_views(v: Seq<String>) -> Seq<Seq<char>> {
    Seq::new(v.len(), |i: int| v[i]@)
}

/// All pieces written one after another.
pub open spec fn concat_all(ls: Seq<Seq<char>>) -> Seq<char>
    decreases ls.len(),
{
    if ls.len() == 0 {
        Seq::<char>::empty()
    } else {
        concat_all(ls.drop_last()) + ls.last()
    }
}

/// The pieces written one after another with `sep` between neighbours
/// (as `[String]::join`).
pub open spec fn join_with(ls: Seq<Seq<char>>, sep: Seq<char>) -> Seq<char>
    decreases ls.len(),
{
    if ls.len() == 0 {
        Seq::<char>::empty()
    } else if ls.len() == 1 {
        ls[0]
    } else {
        join_with(ls.drop_last(), sep) + sep + ls.last()
    }
}

pub proof fn lemma_string_views_push(v: Seq<String>, s: String)
    ensures
        string_views(v.push(s)) == string_views(v).push(s@),
{
    assert(string_views(v.push(s)) =~= string_views(v).push(s@));
}

/// Appends a copy of `s` to a list of strings.
pub fn push_item(v: &mut Vec<String>, s: &str)
    ensures
        string_views(final(v)@) == string_views(old(v)@).push(s@),
{
    let item = s.to_string();
    proof {
        lemma_string_views_push(v@, item);
    }
    v.push(item);
}

/// Whether a list of strings holds `s`.
pub fn contains_text(v: &Vec<String>, s: &str) -> (r: bool)
    ensures
        r == string_views(v@).contains(s@),
{
    for i in 0..v.len()
        invariant
            forall|j: int| 0 <= j < i ==> v@[j]@ != s@,
    {
        if same_text(v[i].as_str(), s) {
            assert(string_views(v@)[i as int] == s@);
            return true;
        }
    }
    assert(!string_views(v@).contains(s@)) by {
        if string_views(v@).contains(s@) {
            let k = choose|k: int| 0 <= k < string_views(v@).len() && string_views(v@)[k] == s@;
            assert(v@[k]@ == s@);
        }
    }
    false
}

/// `dst` followed by those of `extra` not yet present, in order (each added
/// item counts as present for the ones after it).
pub open spec fn append_new_seq(dst: Seq<Seq<char>>, extra: Seq<Seq<char>>) -> Seq<Seq<char>>
    decreases extra.len(),
{
    if extra.len() == 0 {
        dst
    } else {
        let d = append_new_seq(dst, extra.drop_last());
        if d.contains(extra.last()) {
            d
        } else {
            d.push(extra.last())
        }
    }
}

/// Appends to `dst` each item of `extra` that it does not hold yet.
pub fn append_new(dst: Vec<String>, extra: &[String]) -> (r: Vec<String>)
    ensures
        string_views(r@) == append_new_seq(string_views(dst@), string_views(extra@)),
{
    let mut r = dst;
    let ghost d0 = string_views(r@);
    for i in 0..extra.len()
        invariant
            string_views(r@) == append_new_seq(d0, string_views(extra@).take(i as int)),
    {
        assert(string_views(extra@).take(i + 1).drop_last() =~= string_views(extra@).take(
            i as int,
        ));
        assert(string_views(extra@).take(i + 1).last() == extra@[i as int]@);
        if !contains_text(&r, extra[i].as_str()) {
            push_item(&mut r, extra[i].as_str());
        }
    }
    assert(string_views(extra@).take(extra@.len() as int) =~= string_views(extra@));
    r
}

// ---------------------------------------------------------------------------
// Searching and matching
// ---------------------------------------------------------------------------

/// Whether `s` begins with `p`.
pub open spec fn starts_with_seq(s: Seq<char>, p: Seq<char>) -> bool {
    p.len() <= s.len() && s.take(p.len() as int) == p
}

/// Whether `p` occurs in `s` as a contiguous run.
pub open spec fn contains_seq(s: Seq<char>, p: Seq<char>) -> bool {
    exists|i: int| 0 <= i <= s.len() - p.len() && #[trigger] s.subrange(i, i + p.len()) == p
}

/// Whether two strings hold the same text.
pub fn same_text(a: &str, b: &str) -> (r: bool)
    ensures
        r == (a@ == b@),
{
    let x = chars_of(a);
    let y = chars_of(b);
    if x.len() != y.len() {
        return false;
    }
    for i in 0..x.len()
        invariant
            x@ == a@,
            y@ == b@,
            x@.len() == y@.len(),
            forall|j: int| 0 <= j < i ==> x@[j] == y@[j],
    {
        if x[i] != y[i] {
            assert(a@[i as int] != b@[i as int]);
            return false;
        }
    }
    assert(x@ =~= y@);
    true
}

/// Whether `v` begins with `p` at index `at`.
fn matches_at(v: &Vec<char>, p: &Vec<char>, at: usize) -> (r: bool)
    requires
        at + p@.len() <= v@.len(),
    ensures
        r == (v@.subrange(at as int, at + p@.len()) == p@),
{
    let n = v.len();
    for j in 0..p.len()
        invariant
            n == v@.len(),
            at + p@.len() <= v@.len(),
            forall|k: int| 0 <= k < j ==> v@[at + k] == p@[k],
    {
        if v[at + j] != p[j] {
            assert(v@.subrange(at as int, at + p@.len())[j as int] != p@[j as int]);
            return false;
        }
    }
    assert(v@.subrange(at as int, at + p@.len()) =~= p@);
    true
}

/// Whether `s` begins with `p`.
pub fn starts_with(s: &str, p: &str) -> (r: bool)
    ensures
        r == starts_with_seq(s@, p@),
{
    let v = chars_of(s);
    let q = chars_of(p);
    if q.len() > v.len() {
        return false;
    }
    let r = matches_at(&v, &q, 0);
    assert(v@.subrange(0, q@.len() as int) == v@.take(q@.len() as int));
    r
}

/// Whether `p` occurs in `s`.
pub fn contains(s: &str, p: &str) -> (r: bool)
    ensures
        r == contains_seq(s@, p@),
{
    let v = chars_of(s);
    let q = chars_of(p);
    if q.len() > v.len() {
        assert(!contains_seq(s@, p@));
        return false;
    }
    let last = v.len() - q.len();
    let mut i: usize = 0;
    while i < last
        invariant
            v@ == s@,
            q@ == p@,
            last == v@.len() - q@.len(),
            i <= last,
            forall|k: int| 0 <= k < i ==> #[trigger] v@.subrange(k, k + q@.len()) != q@,
        decreases last - i,
    {
        if matches_at(&v, &q, i) {
            return true;
        }
        i = i + 1;
    }
    matches_at(&v, &q, last)
}

/// `s` with every leading repetition of the non-empty `p` removed (as std's
/// `str::trim_start_matches` with a string pattern).
pub open spec fn strip_all_prefixes(s: Seq<char>, p: Seq<char>) -> Seq<char>
    decreases s.len(),
{
    if p.len() > 0 && starts_with_seq(s, p) {
        strip_all_prefixes(s.skip(p.len() as int), p)
    } else {
        s
    }
}

pub fn trim_start_matches(s: &str, p: &str) -> (r: String)
    ensures
        r@ == strip_all_prefixes(s@, p@),
{
    let v = chars_of(s);
    let q = chars_of(p);
    if q.len() == 0 {
        return string_of(&v);
    }
    let mut i: usize = 0;
    assert(v@.skip(0) == v@);
    while q.len() <= v.len() - i && matches_at(&v, &q, i)
        invariant
            v@ == s@,
            q@ == p@,
            q@.len() > 0,
            i <= v@.len(),
            strip_all_prefixes(s@, p@) == strip_all_prefixes(v@.skip(i as int), p@),
        decreases v@.len() - i,
    {
        assert(v@.skip(i as int).take(q@.len() as int) == v@.subrange(i as int, i + q@.len()));
        assert(v@.skip(i as int).skip(q@.len() as int) == v@.skip(i + q@.len()));
        i = i + q.len();
    }
    assert(!starts_with_seq(v@.skip(i as int), q@)) by {
        if q@.len() <= v@.skip(i as int).len() {
            assert(v@.skip(i as int).take(q@.len() as int) == v@.subrange(i as int, i + q@.len()));
        }
    }
    assert(v@.skip(i as int) == v@.subrange(i as int, v@.len() as int));
    string_of(&slice_chars(&v, i, v.len()))
}

// ---------------------------------------------------------------------------
// Lines
// ---------------------------------------------------------------------------

/// `s` without one trailing carriage return.
pub open spec fn strip_cr(s: Seq<char>) -> Seq<char> {
    if s.len() > 0 && s.last() == '\r' {
        s.drop_last()
    } else {
        s
    }
}

/// Lines finished so far and the open line, after reading `s` (as std's
/// `str::lines`: a line ends at `\n`, and a `\r` right before it is dropped).
pub open spec fn lines_state(s: Seq<char>) -> (Seq<Seq<char>>, Seq<char>)
    decreases s.len(),
{
    if s.len() == 0 {
        (Seq::<Seq<char>>::empty(), Seq::<char>::empty())
    } else {
        let (done, cur) = lines_state(s.drop_last());
        if s.last() == '\n' {
            (done.push(strip_cr(cur)), Seq::<char>::empty())
        } else {
            (done, cur.push(s.last()))
        }
    }
}

/// The lines of `s`; a final line ending adds no empty line.
pub open spec fn lines_seq(s: Seq<char>) -> Seq<Seq<char>> {
    let (done, cur) = lines_state(s);
    if cur.len() > 0 {
        done.push(cur)
    } else {
        done
    }
}

/// The lines of a text.
pub fn lines(s: &str) -> (r: Vec<String>)
    ensures
        string_views(r@) == lines_seq(s@),
{
    let v = chars_of(s);
    let mut done: Vec<String> = Vec::new();
    let mut cur: Vec<char> = Vec::new();
    for i in 0..v.len()
        invariant
            v@ == s@,
            (string_views(done@), cur@) == lines_state(v@.take(i as int)),
    {
        assert(v@.take(i + 1).drop_last() == v@.take(i as int));
        if v[i] == '\n' {
            let mut line = cur;
            if line.len() > 0 && line[line.len() - 1] == '\r' {
                line.pop();
            }
            let l = string_of(&line);
            proof {
                lemma_string_views_push(done@, l);
            }
            done.push(l);
            cur = Vec::new();
        } else {
            cur.push(v[i]);
        }
    }
    assert(v@.take(v@.len() as int) == v@);
    if cur.len() > 0 {
        let l = string_of(&cur);
        proof {
            lemma_string_views_push(done@, l);
        }
        done.push(l);
    }
    done
}

// ---------------------------------------------------------------------------
// Numbers in text
// ---------------------------------------------------------------------------

/// Whether `c` is an ASCII decimal digit.
pub open spec fn is_digit(c: char) -> bool {
    48 <= (c as u32) <= 57
}

/// The value of a run of decimal digits.
pub open spec fn digits_value(s: Seq<char>) -> nat
    decreases s.len(),
{
    if s.len() == 0 {
        0
    } else {
        digits_value(s.drop_last()) * 10 + ((s.last() as u32) - 48) as nat
    }
}

/// The digits of a decimal numeral: the text after an optional leading `+`.
pub open spec fn numeral_digits(s: Seq<char>) -> Seq<char> {
    if s.len() > 0 && s[0] == '+' {
        s.drop_first()
    } else {
        s
    }
}

/// Whether `s` is a decimal numeral as std's unsigned `from_str` accepts it:
/// an optional `+`, then at least one ASCII digit and nothing else.
pub open spec fn is_numeral(s: Seq<char>) -> bool {
    let d = numeral_digits(s);
    d.len() > 0 && forall|i: int| 0 <= i < d.len() ==> is_digit(#[trigger] d[i])
}

/// The value of `s` as an unsigned number below or equal to `max`, if `s` is a
/// numeral and its value fits.
pub open spec fn parse_unsigned(s: Seq<char>, max: nat) -> Option<nat> {
    if is_numeral(s) && digits_value(numeral_digits(s)) <= max {
        Some(digits_value(numeral_digits(s)))
    } else {
        None
    }
}

proof fn lemma_digits_value_mono(s: Seq<char>, i: int)
    requires
        0 <= i <= s.len(),
        forall|k: int| 0 <= k < s.len() ==> is_digit(#[trigger] s[k]),
    ensures
        digits_value(s.take(i)) <= digits_value(s),
    decreases s.len() - i,
{
    if i < s.len() {
        lemma_digits_value_mono(s, i + 1);
        assert(s.take(i + 1).drop_last() == s.take(i));
    } else {
        assert(s.take(i) == s);
    }
}

/// Parses a decimal numeral as a `u64` (as std's `str::parse::<u64>`).
pub fn parse_u64(s: &str) -> (r: Option<u64>)
    ensures
        match r {
            Some(n) => parse_unsigned(s@, u64::MAX as nat) == Some(n as nat),
            None => parse_unsigned(s@, u64::MAX as nat) is None,
        },
{
    let v = chars_of(s);
    let start: usize = if v.len() > 0 && v[0] == '+' {
        1
    } else {
        0
    };
    let ghost d = numeral_digits(s@);
    assert(d == v@.skip(start as int));
    if start >= v.len() {
        return None;
    }
    let mut acc: u64 = 0;
    let mut overflow = false;
    let mut i = start;
    while i < v.len()
        invariant
            v@ == s@,
            d == v@.skip(start as int),
            d == numeral_digits(s@),
            start <= i <= v@.len(),
            forall|k: int| 0 <= k < i - start ==> is_digit(#[trigger] d[k]),
            !overflow ==> acc as nat == digits_value(d.take(i - start)),
            overflow ==> digits_value(d.take(i - start)) > u64::MAX,
        decreases v@.len() - i,
    {
        let c = v[i];
        let n = c as u32;
        assert(d[i - start] == v@[i as int]);
        if n < 48 || n > 57 {
            assert(!is_digit(d[i - start]));
            return None;
        }
        assert(d.take(i + 1 - start).drop_last() == d.take(i - start));
        assert(d.take(i + 1 - start).last() == c);
        if !overflow {
            let dig = (n - 48) as u64;
            if acc > (u64::MAX - dig) / 10 {
                overflow = true;
                assert(acc * 10 + dig > u64::MAX) by (nonlinear_arith)
                    requires
                        acc > (u64::MAX - dig) / 10,
                        dig < 10,
                ;
            } else {
                assert(acc * 10 + dig <= u64::MAX) by (nonlinear_arith)
                    requires
                        acc <= (u64::MAX - dig) / 10,
                        dig < 10,
                ;
                acc = acc * 10 + dig;
            }
        } else {
            assert(digits_value(d.take(i + 1 - start)) >= digits_value(d.take(i - start)));
        }
        i = i + 1;
    }
    assert(d.take(i - start) == d);
    if overflow {
        None
    } else {
        Some(acc)
    }
}

/// Parses a decimal numeral as a `usize` (as std's `str::parse::<usize>`).
pub fn parse_usize(s: &str) -> (r: Option<usize>)
    ensures
        match r {
            Some(n) => parse_unsigned(s@, usize::MAX as nat) == Some(n as nat),
            None => parse_unsigned(s@, usize::MAX as nat) is None,
        },
{
    match parse_u64(s) {
        Some(n) => if n <= usize::MAX as u64 {
            Some(n as usize)
        } else {
            None
        },
        None => None,
    }
}

/// The lowercase hexadecimal digit for `d` (expected below 16).
pub open spec fn hex_digit(d: nat) -> char {
    if d < 10 {
        digit_char(d)
    } else {
        ((87 + d) as u32) as char
    }
}

/// The shortest lowercase hexadecimal rendering of `n` (as `{:x}`).
pub open spec fn hex_seq(n: nat) -> Seq<char>
    decreases n,
{
    if n < 16 {
        seq![hex_digit(n)]
    } else {
        hex_seq(n / 16).push(hex_digit(n % 16))
    }
}

fn hex_char(d: u64) -> (c: char)
    requires
        d < 16,
    ensures
        c == hex_digit(d as nat),
{
    if d < 10 {
        char_from_digit(d as u32)
    } else if d == 10 {
        'a'
    } else if d == 11 {
        'b'
    } else if d == 12 {
        'c'
    } else if d == 13 {
        'd'
    } else if d == 14 {
        'e'
    } else {
        'f'
    }
}

/// The lowercase hexadecimal digits of `n`.
pub fn hex(n: u64) -> (r: Vec<char>)
    ensures
        r@ == hex_seq(n as nat),
    decreases n,
{
    let c = hex_char(n % 16);
    if n < 16 {
        let mut v: Vec<char> = Vec::new();
        v.push(c);
        assert(v@ == seq![hex_digit(n as nat)]);
        v
    } else {
        let mut v = hex(n / 16);
        v.push(c);
        v
    }
}

/// The lowercase hexadecimal digits of `n`, left-padded with zeros to `width`.
pub fn hex_padded(n: u64, width: usize) -> (r: Vec<char>)
    ensures
        r@ == pad_zeros(hex_seq(n as nat), width as nat),
{
    let digits = hex(n);
    if digits.len() >= width {
        digits
    } else {
        let mut r: Vec<char> = Vec::new();
        let k = width - digits.len();
        for i in 0..k
            invariant
                r@ == Seq::new(i as nat, |j: int| '0'),
        {
            r.push('0');
            assert(r@ == Seq::new((i + 1) as nat, |j: int| '0'));
        }
        extend_chars(&mut r, &digits);
        r
    }
}

// ---------------------------------------------------------------------------
// Ordering texts
// ---------------------------------------------------------------------------

/// Lexicographic order of texts by code point (the order of std's `String`).
pub open spec fn text_le(a: Seq<char>, b: Seq<char>) -> bool
    decreases a.len(),
{
    if a.len() == 0 {
        true
    } else if b.len() == 0 {
        false
    } else if (a[0] as u32) < (b[0] as u32) {
        true
    } else if (a[0] as u32) > (b[0] as u32) {
        false
    } else {
        text_le(a.drop_first(), b.drop_first())
    }
}

/// Whether texts are in ascending order.
pub open spec fn texts_sorted(s: Seq<Seq<char>>) -> bool {
    forall|i: int, j: int| 0 <= i < j < s.len() ==> text_le(#[trigger] s[i], #[trigger] s[j])
}

pub proof fn lemma_text_le_total(a: Seq<char>, b: Seq<char>)
    ensures
        text_le(a, b) || text_le(b, a),
    decreases a.len(),
{
    if a.len() > 0 && b.len() > 0 && (a[0] as u32) == (b[0] as u32) {
        lemma_text_le_total(a.drop_first(), b.drop_first());
    }
}

pub proof fn lemma_text_le_trans(a: Seq<char>, b: Seq<char>, c: Seq<char>)
    requires
        text_le(a, b),
        text_le(b, c),
    ensures
        text_le(a, c),
    decreases a.len(),
{
    if a.len() > 0 && b.len() > 0 && c.len() > 0 && (a[0] as u32) == (b[0] as u32) && (b[0] as u32)
        == (c[0] as u32) {
        lemma_text_le_trans(a.drop_first(), b.drop_first(), c.drop_first());
    }
}

fn text_le_chars(a: &Vec<char>, b: &Vec<char>) -> (r: bool)
    ensures
        r == text_le(a@, b@),
{
    let mut i: usize = 0;
    assert(a@.skip(0) == a@ && b@.skip(0) == b@);
    while i < a.len() && i < b.len() && (a[i] as u32) == (b[i] as u32)
        invariant
            i <= a@.len(),
            i <= b@.len(),
            text_le(a@, b@) == text_le(a@.skip(i as int), b@.skip(i as int)),
        decreases a@.len() - i,
    {
        assert(a@.skip(i as int).drop_first() == a@.skip(i + 1));
        assert(b@.skip(i as int).drop_first() == b@.skip(i + 1));
        i = i + 1;
    }
    if i == a.len() {
        true
    } else if i == b.len() {
        false
    } else {
        assert(a@.skip(i as int)[0] == a@[i as int]);
        assert(b@.skip(i as int)[0] == b@[i as int]);
        (a[i] as u32) < (b[i] as u32)
    }
}

/// Sorts texts in ascending order (as `Vec<String>::sort`).
pub fn sort_texts(v: Vec<String>) -> (r: Vec<String>)
    ensures
        texts_sorted(string_views(r@)),
        string_views(r@).to_multiset() == string_views(v@).to_multiset(),
{
    broadcast use vstd::seq_lib::to_multiset_insert, vstd::seq_lib::to_multiset_build;

    let mut r: Vec<String> = Vec::new();
    assert(string_views(v@).take(0) =~= Seq::<Seq<char>>::empty());
    assert(string_views(r@) =~= Seq::<Seq<char>>::empty());
    for i in 0..v.len()
        invariant
            texts_sorted(string_views(r@)),
            string_views(r@).to_multiset() == string_views(v@).take(i as int).to_multiset(),
    {
        let x = v[i].clone();
        let xc = chars_of(x.as_str());
        let ghost old_r = string_views(r@);
        let mut pos: usize = 0;
        while pos < r.len() && text_le_chars(&chars_of(r[pos].as_str()), &xc)
            invariant
                pos <= r@.len(),
                xc@ == x@,
                old_r == string_views(r@),
                forall|k: int| 0 <= k < pos ==> text_le(#[trigger] old_r[k], x@),
            decreases r@.len() - pos,
        {
            pos = pos + 1;
        }
        proof {
            if pos < r@.len() {
                lemma_text_le_total(old_r[pos as int], x@);
            }
        }
        r.insert(pos, x);
        let ghost new_r = string_views(r@);
        assert(new_r =~= old_r.insert(pos as int, x@));
        assert(x@ == v@[i as int]@);
        assert(string_views(v@).take(i + 1) =~= string_views(v@).take(i as int).push(x@));
        proof {
            vstd::seq_lib::to_multiset_insert(old_r, pos as int, x@);
            vstd::seq_lib::to_multiset_build(string_views(v@).take(i as int), x@);
        }
        assert forall|a: int, b: int| 0 <= a < b < new_r.len() implies text_le(
            #[trigger] new_r[a],
            #[trigger] new_r[b],
        ) by {
            if b < pos {
            } else if b == pos {
                assert(new_r[a] == old_r[a]);
            } else if a < pos {
                assert(new_r[b] == old_r[b - 1]);
                assert(text_le(old_r[a], x@));
                if b - 1 > pos {
                    assert(text_le(old_r[pos as int], old_r[b - 1]));
                    lemma_text_le_trans(x@, old_r[pos as int], old_r[b - 1]);
                }
                lemma_text_le_trans(old_r[a], x@, old_r[b - 1]);
            } else if a == pos {
                assert(new_r[b] == old_r[b - 1]);
                if b - 1 > pos {
                    assert(text_le(old_r[pos as int], old_r[b - 1]));
                    lemma_text_le_trans(x@, old_r[pos as int], old_r[b - 1]);
                }
            } else {
                assert(new_r[a] == old_r[a - 1]);
                assert(new_r[b] == old_r[b - 1]);
            }
        }
    }
    assert(string_views(v@).take(v@.len() as int) =~= string_views(v@));
    r
}

// ---------------------------------------------------------------------------
// Unicode case and classes, as std computes them
// ---------------------------------------------------------------------------

/// What std's `str::to_lowercase` gives for a text.
pub uninterp spec fn lowercase_of(s: Seq<char>) -> Seq<char>;

/// What std's `char::is_alphanumeric` says of a character.
pub uninterp spec fn alphanumeric(c: char) -> bool;

/// The lowercase form of a text (std `str::to_lowercase`, full Unicode case
/// mapping); the result is exactly `lowercase_of` of the text.
#[verifier::external_body]
pub(crate) fn to_lowercase(s: &str) -> (r: String)
    ensures
        r@ == lowercase_of(s@),
{
    s.to_lowercase()
}

/// Whether a character is alphabetic or numeric in Unicode (std
/// `char::is_alphanumeric`); the result is exactly `alphanumeric` of it.
#[verifier::external_body]
pub(crate) fn is_alphanumeric(c: char) -> (r: bool)
    ensures
        r == alphanumeric(c),
{
    c.is_alphanumeric()
}

// ---------------------------------------------------------------------------
// UTF-8 byte lengths
// ---------------------------------------------------------------------------

/// The number of bytes UTF-8 takes for a character.
pub open spec fn utf8_len(c: char) -> nat {
    let n = c as u32;
    if n < 0x80 {
        1
    } else if n < 0x800 {
        2
    } else if n < 0x10000 {
        3
    } else {
        4
    }
}

/// The number of bytes UTF-8 takes for a text.
pub open spec fn utf8_total(s: Seq<char>) -> nat
    decreases s.len(),
{
    if s.len() == 0 {
        0
    } else {
        utf8_total(s.drop_last()) + utf8_len(s.last())
    }
}

pub proof fn lemma_utf8_total_add(a: Seq<char>, b: Seq<char>)
    ensures
        utf8_total(a + b) == utf8_total(a) + utf8_total(b),
    decreases b.len(),
{
    if b.len() == 0 {
        assert(a + b =~= a);
    } else {
        lemma_utf8_total_add(a, b.drop_last());
        assert((a + b).drop_last() =~= a + b.drop_last());
    }
}

fn char_utf8_len(c: char) -> (n: usize)
    ensures
        n == utf8_len(c),
{
    let v = c as u32;
    if v < 0x80 {
        1
    } else if v < 0x800 {
        2
    } else if v < 0x10000 {
        3
    } else {
        4
    }
}

/// The longest start of a text that fits in `max` bytes of UTF-8: the text
/// cut at a character boundary.
pub fn utf8_head(s: &str, max: usize) -> (r: String)
    ensures
        r@.len() <= s@.len(),
        r@ == s@.take(r@.len() as int),
        utf8_total(r@) <= max,
        r@.len() < s@.len() ==> utf8_total(s@.take((r@.len() + 1) as int)) > max,
{
    let v = chars_of(s);
    let mut k: usize = 0;
    let mut used: usize = 0;
    let mut full = false;
    while k < v.len() && !full
        invariant
            v@ == s@,
            k <= v@.len(),
            used == utf8_total(v@.take(k as int)),
            used <= max,
            full ==> k < v@.len() && utf8_total(v@.take(k + 1)) > max,
        decreases v@.len() - k + (if full { 0int } else { 1int }),
    {
        let n = char_utf8_len(v[k]);
        assert(v@.take(k + 1).drop_last() =~= v@.take(k as int));
        if max - used < n {
            full = true;
        } else {
            used = used + n;
            k = k + 1;
        }
    }
    let r = slice_chars(&v, 0, k);
    assert(r@ =~= s@.take(k as int));
    string_of(&r)
}

/// The longest end of a text that fits in `max` bytes of UTF-8: the text
/// cut at a character boundary.
pub fn utf8_tail(s: &str, max: usize) -> (r: String)
    ensures
        r@.len() <= s@.len(),
        r@ == s@.skip(s@.len() - r@.len()),
        utf8_total(r@) <= max,
        r@.len() < s@.len() ==> utf8_total(s@.skip(s@.len() - r@.len() - 1)) > max,
{
    let v = chars_of(s);
    let mut j: usize = v.len();
    let mut used: usize = 0;
    let mut full = false;
    assert(v@.skip(v@.len() as int) =~= Seq::<char>::empty());
    while j > 0 && !full
        invariant
            v@ == s@,
            j <= v@.len(),
            used == utf8_total(v@.skip(j as int)),
            used <= max,
            full ==> j > 0 && utf8_total(v@.skip(j - 1)) > max,
        decreases j + (if full { 0int } else { 1int }),
    {
        let n = char_utf8_len(v[j - 1]);
        proof {
            let c = v@[j - 1];
            assert(v@.skip(j - 1) =~= seq![c] + v@.skip(j as int));
            lemma_utf8_total_add(seq![c], v@.skip(j as int));
            assert(seq![c].drop_last() =~= Seq::<char>::empty());
            assert(utf8_total(seq![c]) == utf8_total(Seq::<char>::empty()) + utf8_len(c));
        }
        if max - used < n {
            full = true;
        } else {
            used = used + n;
            j = j - 1;
        }
    }
    let r = slice_chars(&v, j, v.len());
    assert(r@ =~= s@.skip(j as int));
    string_of(&r)
}

/// The decimal rendering of `n` is a numeral without leading zero whose
/// value is `n`.
pub proof fn lemma_dec_numeral(n: nat)
    ensures
        dec_seq(n).len() > 0,
        forall|i: int| 0 <= i < dec_seq(n).len() ==> is_digit(#[trigger] dec_seq(n)[i]),
        n > 0 ==> dec_seq(n)[0] != '0',
        digits_value(dec_seq(n)) == n,
    decreases n,
{
    let d = n % 10;
    assert(digit_char(d) as u32 == 48 + d);
    if n < 10 {
        let s1 = seq![digit_char(n)];
        assert(s1.drop_last() =~= Seq::<char>::empty());
        assert(digits_value(Seq::<char>::empty()) == 0);
        assert(s1.last() == digit_char(n));
        assert(digits_value(s1) == digits_value(s1.drop_last()) * 10 + ((s1.last() as u32) - 48) as nat);
    } else {
        lemma_dec_numeral(n / 10);
        let p = dec_seq(n / 10);
        assert(dec_seq(n).drop_last() =~= p);
        assert forall|i: int| 0 <= i < dec_seq(n).len() implies is_digit(#[trigger] dec_seq(n)[i]) by {
            if i < p.len() {
                assert(dec_seq(n)[i] == p[i]);
            }
        }
        assert(dec_seq(n)[0] == p[0]);
        assert(dec_seq(n).last() == digit_char(d));
        assert(digits_value(dec_seq(n)) == digits_value(p) * 10 + d);
        assert((n / 10) * 10 + n % 10 == n) by (nonlinear_arith);
    }
}

/// The decimal rendering of a number below 10, 100 or 1000 has at most one,
/// two or three digits.
pub proof fn lemma_dec_len(n: nat)
    ensures
        n < 10 ==> dec_seq(n).len() == 1,
        n < 100 ==> dec_seq(n).len() <= 2,
        n < 1000 ==> dec_seq(n).len() <= 3,
    decreases n,
{
    if n >= 10 {
        lemma_dec_len(n / 10);
        assert(dec_seq(n).len() == dec_seq(n / 10).len() + 1);
    }
}

/// Zeros put in front of digits leave their value as it is.
pub proof fn lemma_digits_leading_zeros(z: Seq<char>, s: Seq<char>)
    requires
        forall|i: int| 0 <= i < z.len() ==> #[trigger] z[i] == '0',
    ensures
        digits_value(z + s) == digits_value(s),
    decreases z.len() + s.len(),
{
    if s.len() == 0 {
        assert(z + s =~= z);
        if z.len() > 0 {
            lemma_digits_leading_zeros(z.drop_last(), s);
            assert(z.drop_last() + s =~= z.drop_last());
        }
    } else {
        lemma_digits_leading_zeros(z, s.drop_last());
        assert((z + s).drop_last() =~= z + s.drop_last());
        assert((z + s).last() == s.last());
    }
}

/// A number below `10^w` (for a width of two or three), rendered with
/// leading zeros to `w` characters: exactly `w` digits whose value is the
/// number.
pub proof fn lemma_padded_numeral(n: nat, w: nat)
    requires
        (w == 2 && n < 100) || (w == 3 && n < 1000),
    ensures
        pad_zeros(dec_seq(n), w).len() == w,
        forall|i: int| 0 <= i < w ==> is_digit(#[trigger] pad_zeros(dec_seq(n), w)[i]),
        digits_value(pad_zeros(dec_seq(n), w)) == n,
{
    lemma_dec_numeral(n);
    lemma_dec_len(n);
    let d = dec_seq(n);
    if d.len() < w {
        let z = Seq::new((w - d.len()) as nat, |i: int| '0');
        lemma_digits_leading_zeros(z, d);
        let p = pad_zeros(d, w);
        assert forall|i: int| 0 <= i < w implies is_digit(#[trigger] p[i]) by {
            if i < z.len() {
                assert(p[i] == z[i]);
            } else {
                assert(p[i] == d[i - z.len()]);
            }
        }
    }
}

} // verus!
