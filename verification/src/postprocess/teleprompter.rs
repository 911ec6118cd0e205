//! Line breaking for the teleprompter script: a paragraph is cut into short
//! lines of at most `max_chars` characters, preferably right after
//! punctuation, and a line is closed after a sentence-ending mark.
use vstd::prelude::*;

use crate::text::{
    concat_all, lemma_trim_end_prefix, lemma_trim_facts, lemma_trim_noop, lemma_trim_start_suffix, lemma_visible_add, lemma_visible_trim,
    visible, chars_of, is_ws, lemma_string_views_push, slice_chars, string_of, string_views, trim_chars,
    trim_end_chars, trim_end_seq, trim_seq,
};

verus! {

/// The marks after which a line may be broken:
/// `, ， 、 ； 。 ！ ？ . ! ? … space : ：`.
pub open spec fn is_break_mark(c: char) -> bool {
    let n = c as u32;
    ||| n == 0x2c
    ||| n == 0xff0c
    ||| n == 0x3001
    ||| n == 0xff1b
    ||| n == 0x3002
    ||| n == 0xff01
    ||| n == 0xff1f
    ||| n == 0x2e
    ||| n == 0x21
    ||| n == 0x3f
    ||| n == 0x2026
    ||| n == 0x20
    ||| n == 0x3a
    ||| n == 0xff1a
}

/// The sentence-ending marks `。 ！ ？ . ! ? …`.
pub open spec fn is_sentence_end(c: char) -> bool {
    let n = c as u32;
    ||| n == 0x3002
    ||| n == 0xff01
    ||| n == 0xff1f
    ||| n == 0x2e
    ||| n == 0x21
    ||| n == 0x3f
    ||| n == 0x2026
}

/// The sentence-ending marks are exactly the ideographic full stop `。`, the
/// fullwidth `！` and `？`, the ASCII `.`, `!` and `?`, and the ellipsis `…`.
pub proof fn law_sentence_end_marks(c: char)
    ensures
        is_sentence_end(c) <==> (c == '。' || c == '！' || c == '？' || c == '.' || c == '!' || c
            == '?' || c == '…'),
{
}

/// A line may be broken after exactly these marks: `,` `，` `、` `；` `。`
/// `！` `？` `.` `!` `?` `…`, the space, `:` and `：`.
pub proof fn law_break_marks(c: char)
    ensures
        is_break_mark(c) <==> (c == ',' || c == '，' || c == '、' || c == '；' || c == '。' || c
            == '！' || c == '？' || c == '.' || c == '!' || c == '?' || c == '…' || c == ' ' || c
            == ':' || c == '：'),
{
}

/// Whether `c` is a mark after which a line may be broken.
pub fn break_mark(c: char) -> (b: bool)
    ensures
        b == is_break_mark(c),
{
    let n = c as u32;
    n == 0x2c || n == 0xff0c || n == 0x3001 || n == 0xff1b || n == 0x3002 || n == 0xff01 || n
        == 0xff1f || n == 0x2e || n == 0x21 || n == 0x3f || n == 0x2026 || n == 0x20 || n == 0x3a
        || n == 0xff1a
}

/// Whether `c` ends a sentence.
pub fn sentence_end(c: char) -> (b: bool)
    ensures
        b == is_sentence_end(c),
{
    let n = c as u32;
    n == 0x3002 || n == 0xff01 || n == 0xff1f || n == 0x2e || n == 0x21 || n == 0x3f || n == 0x2026
}

/// The largest index below `k` holding a break mark, if any.
pub open spec fn last_mark_before(s: Seq<char>, k: int) -> Option<int>
    decreases k,
{
    if k <= 0 {
        None
    } else if is_break_mark(s[k - 1]) {
        Some(k - 1)
    } else {
        last_mark_before(s, k - 1)
    }
}

/// Where an overlong line `s` is cut: right after the last break mark before
/// its final character, or else after `max` characters (at most `|s| - 1`).
pub open spec fn cut_point(s: Seq<char>, max: nat) -> nat {
    match last_mark_before(s, s.len() - 1) {
        Some(i) => (i + 1) as nat,
        None => if max <= s.len() - 1 {
            max
        } else {
            (s.len() - 1) as nat
        },
    }
}

/// One character of input: the finished lines and the open line before it,
/// to those after it.
pub open spec fn split_step(lines: Seq<Seq<char>>, cur: Seq<char>, ch: char, max: nat) -> (
    Seq<Seq<char>>,
    Seq<char>,
) {
    let cur1 = cur.push(ch);
    let (lines2, cur2) = if cur1.len() > max {
        let b = cut_point(cur1, max);
        let line = trim_end_seq(cur1.take(b as int));
        (
            if line.len() > 0 {
                lines.push(line)
            } else {
                lines
            },
            cur1.skip(b as int),
        )
    } else {
        (lines, cur1)
    };
    if is_sentence_end(ch) && cur2.len() >= max / 2 {
        (lines2.push(trim_seq(cur2)), Seq::<char>::empty())
    } else {
        (lines2, cur2)
    }
}

/// The finished lines and the open line after reading all of `text`.
pub open spec fn split_state(text: Seq<char>, max: nat) -> (Seq<Seq<char>>, Seq<char>)
    decreases text.len(),
{
    if text.len() == 0 {
        (Seq::<Seq<char>>::empty(), Seq::<char>::empty())
    } else {
        let (ls, cur) = split_state(text.drop_last(), max);
        split_step(ls, cur, text.last(), max)
    }
}

/// The teleprompter lines of `text`: the finished lines, then what is left of
/// the open line once trimmed, if anything.
pub open spec fn teleprompter_lines(text: Seq<char>, max: nat) -> Seq<Seq<char>> {
    let (ls, cur) = split_state(text, max);
    let rem = trim_seq(cur);
    if rem.len() > 0 {
        ls.push(rem)
    } else {
        ls
    }
}

pub proof fn lemma_last_mark_range(s: Seq<char>, k: int)
    ensures
        last_mark_before(s, k) matches Some(i) ==> 0 <= i < k && is_break_mark(s[i]),
    decreases k,
{
    if k > 0 && !is_break_mark(s[k - 1]) {
        lemma_last_mark_range(s, k - 1);
    }
}

/// Each lines fits and nothing visible is lost, after every character.
proof fn lemma_split_state(text: Seq<char>, max: nat)
    ensures
        ({
            let (ls, cur) = split_state(text, max);
            &&& visible(concat_all(ls) + cur) == visible(text)
            &&& max >= 1 ==> cur.len() <= max
            &&& max >= 1 ==> forall|i: int| 0 <= i < ls.len() ==> 0 < #[trigger] ls[i].len() <= max
        }),
    decreases text.len(),
{
    if text.len() > 0 {
        let prev = text.drop_last();
        lemma_split_state(prev, max);
        let (ls, cur) = split_state(prev, max);
        let ch = text.last();
        assert(text == prev.push(ch));
        assert(prev.push(ch) == prev + seq![ch]);
        lemma_visible_add(prev, seq![ch]);
        let cur1 = cur.push(ch);
        assert(concat_all(ls) + cur1 == (concat_all(ls) + cur) + seq![ch]);
        lemma_visible_add(concat_all(ls) + cur, seq![ch]);
        // after the cut
        let (lines2, cur2) = if cur1.len() > max {
            let b = cut_point(cur1, max);
            let line = trim_end_seq(cur1.take(b as int));
            (
                if line.len() > 0 {
                    ls.push(line)
                } else {
                    ls
                },
                cur1.skip(b as int),
            )
        } else {
            (ls, cur1)
        };
        assert(visible(concat_all(lines2) + cur2) == visible(concat_all(ls) + cur1)
            && (max >= 1 ==> cur2.len() <= max && cur2.len() > 0 && cur2.last() == ch)
            && (max >= 1 ==> forall|i: int|
            0 <= i < lines2.len() ==> 0 < #[trigger] lines2[i].len() <= max)) by {
            if cur1.len() > max {
                let b = cut_point(cur1, max);
                lemma_last_mark_range(cur1, cur1.len() - 1);
                assert(b <= cur1.len());
                let head = cur1.take(b as int);
                let tail = cur1.skip(b as int);
                let line = trim_end_seq(head);
                assert(cur1 == head + tail);
                lemma_visible_trim(head);
                lemma_trim_end_prefix(head);
                lemma_visible_add(head, tail);
                lemma_visible_add(concat_all(ls), cur1);
                if line.len() > 0 {
                    assert(ls.push(line).drop_last() == ls);
                    assert(concat_all(ls.push(line)) == concat_all(ls) + line);
                    lemma_visible_add(concat_all(ls), line);
                    lemma_visible_add(concat_all(ls) + line, tail);
                    assert(concat_all(ls) + cur1 == concat_all(ls) + (head + tail));
                    assert(visible(concat_all(ls) + cur1) == visible(concat_all(ls)) + (visible(
                        head,
                    ) + visible(tail)));
                } else {
                    assert(visible(line) == Seq::<char>::empty());
                    lemma_visible_add(concat_all(ls), tail);
                    assert(visible(concat_all(ls) + cur1) == visible(concat_all(ls)) + (visible(
                        head,
                    ) + visible(tail)));
                }
                if max >= 1 {
                    assert(b >= 1 && b <= cur1.len() - 1);
                    assert(tail.last() == ch);
                    assert forall|i: int| 0 <= i < lines2.len() implies 0 < #[trigger] lines2[i].len() <= max by {
                        if i < ls.len() {
                            assert(lines2[i] == ls[i]);
                        }
                    }
                }
            }
        }
        if is_sentence_end(ch) && cur2.len() >= max / 2 {
            let t = trim_seq(cur2);
            lemma_visible_trim(cur2);
            assert(lines2.push(t).drop_last() == lines2);
            assert(concat_all(lines2.push(t)) == concat_all(lines2) + t);
            assert(concat_all(lines2.push(t)) + Seq::<char>::empty() == concat_all(lines2) + t);
            lemma_visible_add(concat_all(lines2), t);
            lemma_visible_add(concat_all(lines2), cur2);
            if max >= 1 {
                lemma_trim_facts(cur2);
                assert(!is_ws(cur2[cur2.len() - 1]));
                assert forall|i: int| 0 <= i < lines2.push(t).len() implies 0 < #[trigger] lines2.push(t)[i].len() <= max by {
                    if i < lines2.len() {
                        assert(lines2.push(t)[i] == lines2[i]);
                    }
                }
            }
        }
    }
}

/// Every finished line is non-empty and ends with a non-whitespace character,
/// whatever the line width.
proof fn lemma_split_lines_end_visible(text: Seq<char>, max: nat)
    ensures
        ({
            let (ls, cur) = split_state(text, max);
            forall|i: int| 0 <= i < ls.len() ==> #[trigger] ls[i].len() > 0 && !is_ws(ls[i].last())
        }),
    decreases text.len(),
{
    if text.len() > 0 {
        let prev = text.drop_last();
        lemma_split_lines_end_visible(prev, max);
        let (ls, cur) = split_state(prev, max);
        let ch = text.last();
        let cur1 = cur.push(ch);
        let (lines2, cur2) = if cur1.len() > max {
            let b = cut_point(cur1, max);
            let line = trim_end_seq(cur1.take(b as int));
            (
                if line.len() > 0 {
                    ls.push(line)
                } else {
                    ls
                },
                cur1.skip(b as int),
            )
        } else {
            (ls, cur1)
        };
        assert(cur2.len() > 0 && cur2.last() == ch && forall|i: int|
            0 <= i < lines2.len() ==> #[trigger] lines2[i].len() > 0 && !is_ws(lines2[i].last()))
            by {
            if cur1.len() > max {
                let b = cut_point(cur1, max);
                lemma_last_mark_range(cur1, cur1.len() - 1);
                assert(b <= cur1.len() - 1);
                let line = trim_end_seq(cur1.take(b as int));
                lemma_trim_end_prefix(cur1.take(b as int));
                assert(cur1.skip(b as int).last() == ch);
                assert forall|i: int| 0 <= i < lines2.len() implies #[trigger] lines2[i].len() > 0
                    && !is_ws(lines2[i].last()) by {
                    if i < ls.len() {
                        assert(lines2[i] == ls[i]);
                    }
                }
            }
        }
        if is_sentence_end(ch) && cur2.len() >= max / 2 {
            let t = trim_seq(cur2);
            lemma_trim_facts(cur2);
            assert(!is_ws(cur2[cur2.len() - 1]));
            assert forall|i: int| 0 <= i < lines2.push(t).len() implies #[trigger] lines2.push(
                t,
            )[i].len() > 0 && !is_ws(lines2.push(t)[i].last()) by {
                if i < lines2.len() {
                    assert(lines2.push(t)[i] == lines2[i]);
                }
            }
        }
    }
}

/// No teleprompter line is empty or ends in whitespace: trimming its end
/// leaves it unchanged, whatever the line width.
pub proof fn law_teleprompter_lines_end_visible(text: Seq<char>, max: nat)
    ensures
        forall|i: int|
            0 <= i < teleprompter_lines(text, max).len() ==> {
                let l = #[trigger] teleprompter_lines(text, max)[i];
                &&& l.len() > 0
                &&& trim_end_seq(l) == l
            },
{
    lemma_split_lines_end_visible(text, max);
    let (ls, cur) = split_state(text, max);
    let rem = trim_seq(cur);
    lemma_trim_facts(cur);
    let lines = teleprompter_lines(text, max);
    assert forall|i: int| 0 <= i < lines.len() implies {
        let l = #[trigger] lines[i];
        &&& l.len() > 0
        &&& trim_end_seq(l) == l
    } by {
        let l = lines[i];
        if i < ls.len() {
            assert(l == ls[i]);
        } else {
            assert(l == rem);
        }
        assert(l.len() > 0 && !is_ws(l.last()));
        assert(trim_end_seq(l) == l);
    }
}

/// Every teleprompter line holds between one and `max` characters, when `max`
/// is at least one.
pub proof fn law_teleprompter_lines_fit(text: Seq<char>, max: nat)
    requires
        max >= 1,
    ensures
        forall|i: int|
            0 <= i < teleprompter_lines(text, max).len() ==> 0 < #[trigger] teleprompter_lines(
                text,
                max,
            )[i].len() <= max,
{
    lemma_split_state(text, max);
    let (ls, cur) = split_state(text, max);
    let rem = trim_seq(cur);
    lemma_trim_facts(cur);
    if rem.len() > 0 {
        assert forall|i: int| 0 <= i < ls.push(rem).len() implies 0 < #[trigger] ls.push(rem)[i].len() <= max by {
            if i < ls.len() {
                assert(ls.push(rem)[i] == ls[i]);
            }
        }
    }
}

/// Breaking a paragraph into lines drops only whitespace: the non-whitespace
/// characters of the lines, read in order, are those of the paragraph.
pub proof fn law_teleprompter_keeps_text(text: Seq<char>, max: nat)
    ensures
        visible(concat_all(teleprompter_lines(text, max))) == visible(text),
{
    lemma_split_state(text, max);
    let (ls, cur) = split_state(text, max);
    let rem = trim_seq(cur);
    lemma_visible_trim(cur);
    lemma_visible_add(concat_all(ls), cur);
    if rem.len() > 0 {
        assert(ls.push(rem).drop_last() == ls);
        lemma_visible_add(concat_all(ls), rem);
    } else {
        assert(visible(rem) == Seq::<char>::empty());
        assert(visible(concat_all(ls) + cur) == visible(concat_all(ls)) + Seq::<char>::empty());
        assert(visible(concat_all(ls)) + Seq::<char>::empty() == visible(concat_all(ls)));
    }
}

/// Every sentence-ending mark of `s` stands among its first `max / 2 - 1`
/// characters: the part up to and including it is shorter than half a line.
pub open spec fn marks_before_half(s: Seq<char>, max: nat) -> bool {
    forall|i: int| 0 <= i < s.len() && is_sentence_end(#[trigger] s[i]) ==> i + 1 < max / 2
}

/// No sentence-ending mark of line `l` is followed by more text unless the
/// part up to and including it is shorter than half a line.
pub open spec fn closed_after_sentences(l: Seq<char>, max: nat) -> bool {
    forall|i: int| 0 <= i < l.len() - 1 && is_sentence_end(#[trigger] l[i]) ==> i + 1 < max / 2
}

proof fn lemma_marks_skip(s: Seq<char>, m: int, max: nat)
    requires
        marks_before_half(s, max),
        0 <= m <= s.len(),
    ensures
        marks_before_half(s.skip(m), max),
{
    assert forall|i: int| 0 <= i < s.skip(m).len() && is_sentence_end(#[trigger] s.skip(m)[i])
        implies i + 1 < max / 2 by {
        assert(s.skip(m)[i] == s[i + m]);
    }
}

proof fn lemma_marks_take(s: Seq<char>, m: int, max: nat)
    requires
        marks_before_half(s, max),
        0 <= m <= s.len(),
    ensures
        marks_before_half(s.take(m), max),
{
    assert forall|i: int| 0 <= i < s.take(m).len() && is_sentence_end(#[trigger] s.take(m)[i])
        implies i + 1 < max / 2 by {
        assert(s.take(m)[i] == s[i]);
    }
}

proof fn lemma_marks_trim(s: Seq<char>, max: nat)
    requires
        marks_before_half(s, max),
    ensures
        marks_before_half(trim_seq(s), max),
{
    let e = trim_end_seq(s);
    lemma_trim_end_prefix(s);
    lemma_marks_take(s, e.len() as int, max);
    lemma_trim_start_suffix(e);
    lemma_marks_skip(e, e.len() - trim_seq(s).len(), max);
}

proof fn lemma_closed_skip(s: Seq<char>, m: int, max: nat)
    requires
        closed_after_sentences(s, max),
        0 <= m <= s.len(),
    ensures
        closed_after_sentences(s.skip(m), max),
{
    assert forall|i: int| 0 <= i < s.skip(m).len() - 1 && is_sentence_end(
        #[trigger] s.skip(m)[i],
    ) implies i + 1 < max / 2 by {
        assert(s.skip(m)[i] == s[i + m]);
    }
}

/// After every character: the open line's marks stand before half a line,
/// and every finished line is closed after its sentences.
proof fn lemma_split_sentences(text: Seq<char>, max: nat)
    ensures
        ({
            let (ls, cur) = split_state(text, max);
            &&& marks_before_half(cur, max)
            &&& forall|k: int| 0 <= k < ls.len() ==> closed_after_sentences(#[trigger] ls[k], max)
        }),
    decreases text.len(),
{
    if text.len() > 0 {
        let prev = text.drop_last();
        lemma_split_sentences(prev, max);
        let (ls, cur) = split_state(prev, max);
        let ch = text.last();
        let cur1 = cur.push(ch);
        let (lines2, cur2) = if cur1.len() > max {
            let b = cut_point(cur1, max);
            let line = trim_end_seq(cur1.take(b as int));
            (
                if line.len() > 0 {
                    ls.push(line)
                } else {
                    ls
                },
                cur1.skip(b as int),
            )
        } else {
            (ls, cur1)
        };
        // After the cut: the open line ends with `ch`, its earlier
        // characters come from `cur`, and the finished lines are closed.
        assert(cur2.len() > 0 && cur2.last() == ch && marks_before_half(cur2.drop_last(), max)
            && forall|k: int| 0 <= k < lines2.len() ==> closed_after_sentences(
            #[trigger] lines2[k],
            max,
        )) by {
            if cur1.len() > max {
                let b = cut_point(cur1, max);
                lemma_last_mark_range(cur1, cur1.len() - 1);
                assert(b <= cur1.len() - 1);
                let head = cur1.take(b as int);
                assert(head =~= cur.take(b as int));
                lemma_marks_take(cur, b as int, max);
                let line = trim_end_seq(head);
                lemma_trim_end_prefix(head);
                lemma_marks_take(head, line.len() as int, max);
                assert(cur2.drop_last() =~= cur.skip(b as int));
                lemma_marks_skip(cur, b as int, max);
                assert forall|k: int| 0 <= k < lines2.len() implies closed_after_sentences(
                    #[trigger] lines2[k],
                    max,
                ) by {
                    if k < ls.len() {
                        assert(lines2[k] == ls[k]);
                    } else {
                        assert(lines2[k] == line);
                    }
                }
            } else {
                assert(cur2.drop_last() =~= cur);
            }
        }
        if is_sentence_end(ch) && cur2.len() >= max / 2 {
            let t = trim_seq(cur2);
            assert(!is_ws(cur2.last()));
            assert(trim_end_seq(cur2) == cur2);
            assert(closed_after_sentences(cur2, max)) by {
                assert forall|i: int| 0 <= i < cur2.len() - 1 && is_sentence_end(
                    #[trigger] cur2[i],
                ) implies i + 1 < max / 2 by {
                    assert(cur2[i] == cur2.drop_last()[i]);
                }
            }
            let e = trim_end_seq(cur2);
            lemma_trim_start_suffix(e);
            lemma_closed_skip(cur2, cur2.len() - t.len(), max);
            assert forall|k: int| 0 <= k < lines2.push(t).len() implies closed_after_sentences(
                #[trigger] lines2.push(t)[k],
                max,
            ) by {
                if k < lines2.len() {
                    assert(lines2.push(t)[k] == lines2[k]);
                }
            }
        } else {
            assert(marks_before_half(cur2, max)) by {
                assert forall|i: int| 0 <= i < cur2.len() && is_sentence_end(#[trigger] cur2[i])
                    implies i + 1 < max / 2 by {
                    if i < cur2.len() - 1 {
                        assert(cur2[i] == cur2.drop_last()[i]);
                    }
                }
            }
        }
    }
}

/// A line is closed after a sentence-ending mark once it holds half a line:
/// in no teleprompter line is such a mark followed by more text unless the
/// part up to and including the mark is shorter than `max / 2` characters.
pub proof fn law_teleprompter_closes_after_sentences(text: Seq<char>, max: nat)
    ensures
        forall|k: int|
            0 <= k < teleprompter_lines(text, max).len() ==> {
                let l = #[trigger] teleprompter_lines(text, max)[k];
                forall|i: int|
                    0 <= i < l.len() - 1 && is_sentence_end(#[trigger] l[i]) ==> i + 1 < max / 2
            },
{
    lemma_split_sentences(text, max);
    let (ls, cur) = split_state(text, max);
    let rem = trim_seq(cur);
    lemma_marks_trim(cur, max);
    let lines = teleprompter_lines(text, max);
    assert forall|k: int| 0 <= k < lines.len() implies closed_after_sentences(
        #[trigger] lines[k],
        max,
    ) by {
        if k < ls.len() {
            assert(lines[k] == ls[k]);
        } else {
            assert(lines[k] == rem);
        }
    }
}

/// The state after the first `j` characters of a text that fits on a line
/// and holds one sentence-ending mark, at `p`.
proof fn lemma_one_mark_prefix(text: Seq<char>, max: nat, p: int, j: int)
    requires
        text.len() <= max,
        0 <= p < text.len(),
        is_sentence_end(text[p]),
        forall|i: int| 0 <= i < text.len() && i != p ==> !is_sentence_end(#[trigger] text[i]),
        0 <= j <= text.len(),
    ensures
        split_state(text.take(j), max) == (if j <= p || p + 1 < max / 2 {
            (Seq::<Seq<char>>::empty(), text.take(j))
        } else {
            (seq![trim_seq(text.take(p + 1))], text.subrange(p + 1, j))
        }),
    decreases j,
{
    if j == 0 {
        assert(text.take(0) =~= Seq::<char>::empty());
    } else {
        lemma_one_mark_prefix(text, max, p, j - 1);
        assert(text.take(j).drop_last() =~= text.take(j - 1));
        assert(text.take(j).last() == text[j - 1]);
        let ch = text[j - 1];
        if j - 1 == p {
            assert(text.take(j - 1).push(ch) =~= text.take(j));
            assert(text.subrange(p + 1, j) =~= Seq::<char>::empty());
        } else if j <= p || p + 1 < max / 2 {
            assert(text.take(j - 1).push(ch) =~= text.take(j));
        } else {
            assert(text.subrange(p + 1, j - 1).push(ch) =~= text.subrange(p + 1, j));
        }
    }
}

/// On a text that fits on one line and holds a single sentence-ending mark,
/// the line is closed after the mark exactly when the part up to and
/// including it holds at least `max / 2` characters; otherwise the text
/// stays one line.
pub proof fn law_teleprompter_sentence_close(text: Seq<char>, max: nat, p: int)
    requires
        text.len() <= max,
        0 <= p < text.len(),
        is_sentence_end(text[p]),
        forall|i: int| 0 <= i < text.len() && i != p ==> !is_sentence_end(#[trigger] text[i]),
    ensures
        p + 1 >= max / 2 ==> teleprompter_lines(text, max) == seq![trim_seq(text.take(p + 1))] + (
        if trim_seq(text.skip(p + 1)).len() > 0 {
            seq![trim_seq(text.skip(p + 1))]
        } else {
            Seq::<Seq<char>>::empty()
        }),
        p + 1 < max / 2 ==> teleprompter_lines(text, max) == (if trim_seq(text).len() > 0 {
            seq![trim_seq(text)]
        } else {
            Seq::<Seq<char>>::empty()
        }),
{
    lemma_one_mark_prefix(text, max, p, text.len() as int);
    assert(text.take(text.len() as int) =~= text);
    assert(text.subrange(p + 1, text.len() as int) =~= text.skip(p + 1));
    if p + 1 >= max / 2 {
        let first = seq![trim_seq(text.take(p + 1))];
        let rem = trim_seq(text.skip(p + 1));
        if rem.len() > 0 {
            assert(first.push(rem) =~= first + seq![rem]);
        } else {
            assert(first =~= first + Seq::<Seq<char>>::empty());
        }
    } else {
        let rem = trim_seq(text);
        if rem.len() > 0 {
            assert(Seq::<Seq<char>>::empty().push(rem) =~= seq![rem]);
        }
    }
}

/// The state after the first `j <= max` characters of a text without
/// whitespace or sentence-ending marks: nothing finished, all of it open.
proof fn lemma_no_break_prefix(text: Seq<char>, max: nat, j: int)
    requires
        forall|i: int| 0 <= i < text.len() ==> !is_sentence_end(#[trigger] text[i]),
        0 <= j <= text.len(),
        j <= max,
    ensures
        split_state(text.take(j), max) == (Seq::<Seq<char>>::empty(), text.take(j)),
    decreases j,
{
    if j == 0 {
        assert(text.take(0) =~= Seq::<char>::empty());
    } else {
        lemma_no_break_prefix(text, max, j - 1);
        assert(text.take(j).drop_last() =~= text.take(j - 1));
        assert(text.take(j).last() == text[j - 1]);
        assert(text.take(j - 1).push(text[j - 1]) =~= text.take(j));
    }
}

proof fn lemma_last_mark_is(s: Seq<char>, k: int, p: int)
    requires
        0 <= p < k <= s.len(),
        is_break_mark(s[p]),
        forall|i: int| p < i < k ==> !is_break_mark(#[trigger] s[i]),
    ensures
        last_mark_before(s, k) == Some(p),
    decreases k,
{
    if k - 1 > p {
        lemma_last_mark_is(s, k - 1, p);
    }
}

proof fn lemma_no_mark_before(s: Seq<char>, k: int)
    requires
        0 <= k <= s.len(),
        forall|i: int| 0 <= i < k ==> !is_break_mark(#[trigger] s[i]),
    ensures
        last_mark_before(s, k) is None,
    decreases k,
{
    if k > 0 {
        lemma_no_mark_before(s, k - 1);
    }
}

/// Where a line one character too long is cut: right after its last break
/// mark before the final character, or, with no such mark, after `max`
/// characters (for text without whitespace or sentence-ending marks).
pub proof fn law_teleprompter_cut(text: Seq<char>, max: nat, p: int)
    requires
        max >= 1,
        text.len() == max + 1,
        forall|i: int|
            0 <= i < text.len() ==> !is_ws(#[trigger] text[i]) && !is_sentence_end(text[i]),
        -1 <= p < max,
        p >= 0 ==> is_break_mark(text[p]),
        forall|i: int| p < i < max ==> !is_break_mark(#[trigger] text[i]),
    ensures
        p >= 0 ==> teleprompter_lines(text, max) == seq![text.take(p + 1), text.skip(p + 1)],
        p < 0 ==> teleprompter_lines(text, max) == seq![text.take(max as int), text.skip(
            max as int,
        )],
{
    lemma_no_break_prefix(text, max, max as int);
    assert(text.take((max + 1) as int) =~= text);
    assert(text.drop_last() =~= text.take(max as int));
    assert(text.last() == text[max as int]);
    let cur1 = text.take(max as int).push(text[max as int]);
    assert(cur1 =~= text);
    let b: int = if p >= 0 {
        lemma_last_mark_is(text, max as int, p);
        p + 1
    } else {
        lemma_no_mark_before(text, max as int);
        max as int
    };
    assert(cut_point(text, max) == b);
    let head = text.take(b);
    let tail = text.skip(b);
    assert(head.len() > 0 && head.last() == text[b - 1]);
    assert(trim_end_seq(head) == head);
    assert(tail.len() > 0 && tail[0] == text[b] && tail.last() == text[max as int]);
    lemma_trim_noop(tail);
    assert(Seq::<Seq<char>>::empty().push(head).push(tail) =~= seq![head, tail]);
}

/// The index of the last break mark among `v[0..k]`.
fn find_last_mark(v: &Vec<char>, k: usize) -> (r: Option<usize>)
    requires
        k <= v@.len(),
    ensures
        r matches Some(i) ==> last_mark_before(v@, k as int) == Some(i as int) && i < k,
        r is None ==> last_mark_before(v@, k as int) is None,
{
    let mut j = k;
    while j > 0
        invariant
            j <= k <= v@.len(),
            last_mark_before(v@, k as int) == last_mark_before(v@, j as int),
        decreases j,
    {
        if break_mark(v[j - 1]) {
            proof {
                lemma_last_mark_range(v@, k as int);
            }
            return Some(j - 1);
        }
        j = j - 1;
    }
    None
}

/// Splits a paragraph into teleprompter lines of at most `max_chars`
/// characters each, breaking preferably right after punctuation and closing a
/// line after a sentence-ending mark once it holds at least half a line.
pub fn split_teleprompter_lines(text: &str, max_chars: usize) -> (lines: Vec<String>)
    ensures
        string_views(lines@) == teleprompter_lines(text@, max_chars as nat),
{
    let chars = chars_of(text);
    let mut lines: Vec<String> = Vec::new();
    let mut cur: Vec<char> = Vec::new();
    let ghost max = max_chars as nat;
    for i in 0..chars.len()
        invariant
            chars@ == text@,
            max == max_chars as nat,
            (string_views(lines@), cur@) == split_state(chars@.take(i as int), max),
    {
        let ch = chars[i];
        assert(chars@.take(i + 1).drop_last() == chars@.take(i as int));
        assert(chars@.take(i + 1).last() == ch);
        let ghost lines0 = string_views(lines@);
        let ghost cur0 = cur@;
        cur.push(ch);
        if cur.len() > max_chars {
            let n = cur.len();
            let b = match find_last_mark(&cur, n - 1) {
                Some(k) => k + 1,
                None => if max_chars <= n - 1 {
                    max_chars
                } else {
                    n - 1
                },
            };
            assert(b == cut_point(cur@, max));
            let head = slice_chars(&cur, 0, b);
            let line = trim_end_chars(&head);
            assert(head@ == cur@.take(b as int));
            if line.len() > 0 {
                let s = string_of(&line);
                proof {
                    lemma_string_views_push(lines@, s);
                }
                lines.push(s);
            }
            cur = slice_chars(&cur, b, n);
            assert(cur@ == cur0.push(ch).skip(b as int));
        }
        if sentence_end(ch) && cur.len() >= max_chars / 2 {
            let t = trim_chars(&cur);
            let s = string_of(&t);
            proof {
                lemma_string_views_push(lines@, s);
            }
            lines.push(s);
            cur = Vec::new();
        }
        assert((string_views(lines@), cur@) == split_step(lines0, cur0, ch, max));
    }
    assert(chars@.take(chars@.len() as int) == chars@);
    let rem = trim_chars(&cur);
    if rem.len() > 0 {
        let s = string_of(&rem);
        proof {
            lemma_string_views_push(lines@, s);
        }
        lines.push(s);
    }
    lines
}

} // verus!
