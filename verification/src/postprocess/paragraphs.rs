//! Merging transcription segments into natural paragraphs: a paragraph ends
//! after a sentence-ending mark followed by a pause of more than a second (or
//! once it holds more than 120 characters), or after any pause of more than
//! two and a half seconds.
use vstd::prelude::*;

use crate::engine::Segment;
use crate::postprocess::teleprompter::{is_sentence_end, law_sentence_end_marks, sentence_end};
use crate::text::{
    extend_chars, is_ws, lemma_trim_noop, join_with, lemma_string_views_push, lemma_trim_facts, string_of,
    string_views, trim, trim_chars, trim_seq, chars_of,
};

verus! {

/// Paragraphs closed so far, the open paragraph, and the end of the last
/// segment with text.
pub type ParaState = (Seq<Seq<char>>, Seq<char>, Option<nat>);

/// Whether the open paragraph `cur` is closed before a segment that starts
/// `gap` milliseconds after the previous one ended.
pub open spec fn closes_paragraph(cur: Seq<char>, gap: int) -> bool {
    let ends = cur.len() > 0 && is_sentence_end(cur.last());
    let too_long = cur.len() > 120;
    cur.len() > 0 && ((ends && (gap > 1000 || too_long)) || gap > 2500)
}

/// One segment of input.
pub open spec fn para_step(st: ParaState, seg: Segment) -> ParaState {
    let (paras, cur, prev_end) = st;
    let text = trim_seq(seg.text@);
    if text.len() == 0 {
        st
    } else {
        let gap: int = match prev_end {
            None => 0,
            Some(p) => seg.start_ms - p,
        };
        let new_para = closes_paragraph(cur, gap);
        let paras2 = if new_para {
            paras.push(trim_seq(cur))
        } else {
            paras
        };
        let cur2 = if new_para {
            Seq::<char>::empty()
        } else {
            cur
        };
        let cur3 = if cur2.len() > 0 {
            cur2.push(' ') + text
        } else {
            text
        };
        (paras2, cur3, Some(seg.end_ms as nat))
    }
}

/// The state after reading all of `segs`.
pub open spec fn para_state(segs: Seq<Segment>) -> ParaState
    decreases segs.len(),
{
    if segs.len() == 0 {
        (Seq::<Seq<char>>::empty(), Seq::<char>::empty(), None)
    } else {
        para_step(para_state(segs.drop_last()), segs.last())
    }
}

/// The paragraphs of a transcript.
pub open spec fn paragraphs_of(segs: Seq<Segment>) -> Seq<Seq<char>> {
    let (paras, cur, _) = para_state(segs);
    if cur.len() > 0 {
        paras.push(trim_seq(cur))
    } else {
        paras
    }
}

/// The trimmed texts of the segments that have any.
pub open spec fn spoken_texts(segs: Seq<Segment>) -> Seq<Seq<char>>
    decreases segs.len(),
{
    if segs.len() == 0 {
        Seq::<Seq<char>>::empty()
    } else {
        let t = trim_seq(segs.last().text@);
        if t.len() > 0 {
            spoken_texts(segs.drop_last()).push(t)
        } else {
            spoken_texts(segs.drop_last())
        }
    }
}

proof fn lemma_join_extend(ps: Seq<Seq<char>>, cur: Seq<char>, text: Seq<char>)
    ensures
        join_with(ps.push(cur), seq![' ']) + seq![' '] + text == join_with(
            ps.push(cur.push(' ') + text),
            seq![' '],
        ),
{
    let sep = seq![' '];
    assert(cur.push(' ') == cur + sep);
    assert(ps.push(cur).drop_last() == ps);
    assert(ps.push(cur.push(' ') + text).drop_last() == ps);
    if ps.len() == 0 {
        assert(ps.push(cur)[0] == cur);
        assert(ps.push(cur.push(' ') + text)[0] == cur.push(' ') + text);
        assert(cur + sep + text == (cur + sep) + text);
    } else {
        let j = join_with(ps, sep);
        assert(join_with(ps.push(cur), sep) == j + sep + cur);
        assert(join_with(ps.push(cur.push(' ') + text), sep) == j + sep + (cur.push(' ') + text));
        assert(j + sep + cur + sep + text == j + sep + ((cur + sep) + text));
    }
}

proof fn lemma_join_push(ls: Seq<Seq<char>>, x: Seq<char>)
    requires
        ls.len() > 0,
    ensures
        join_with(ls.push(x), seq![' ']) == join_with(ls, seq![' ']) + seq![' '] + x,
{
    assert(ls.push(x).drop_last() == ls);
}

proof fn lemma_para_state(segs: Seq<Segment>)
    ensures
        ({
            let (ps, cur, _) = para_state(segs);
            let k = spoken_texts(segs);
            &&& cur.len() == 0 ==> ps.len() == 0 && k.len() == 0
            &&& cur.len() > 0 ==> k.len() > 0 && !is_ws(cur[0]) && !is_ws(cur.last())
                && join_with(ps.push(cur), seq![' ']) == join_with(k, seq![' '])
        }),
    decreases segs.len(),
{
    if segs.len() > 0 {
        let prev = segs.drop_last();
        let seg = segs.last();
        lemma_para_state(prev);
        let (ps, cur, e) = para_state(prev);
        let k = spoken_texts(prev);
        let text = trim_seq(seg.text@);
        lemma_trim_facts(seg.text@);
        if text.len() > 0 {
            let sep = seq![' '];
            let gap: int = match e {
                None => 0,
                Some(p) => seg.start_ms - p,
            };
            if cur.len() == 0 {
                assert(k.push(text).len() == 1);
                assert(ps.push(text).len() == 1);
            } else if closes_paragraph(cur, gap) {
                lemma_trim_noop(cur);
                let ps2 = ps.push(cur);
                lemma_join_push(ps2, text);
                lemma_join_push(k, text);
            } else {
                lemma_join_extend(ps, cur, text);
                lemma_join_push(k, text);
                let cur3 = cur.push(' ') + text;
                assert(cur3[0] == cur[0]);
                assert(cur3.last() == text.last());
            }
        }
    }
}

proof fn lemma_open_after_text(segs: Seq<Segment>)
    ensures
        para_state(segs).2 is Some ==> para_state(segs).1.len() > 0,
    decreases segs.len(),
{
    if segs.len() > 0 {
        lemma_open_after_text(segs.drop_last());
        lemma_trim_facts(segs.last().text@);
    }
}

/// The paragraph rule: a segment with text that follows another segment with
/// text opens a new paragraph exactly when the pause between them is over
/// 2.5 seconds, or the paragraph so far ends with a sentence-ending mark
/// (`。` `！` `？` `.` `!` `?` `…`) and
/// either the pause is over one second or the paragraph holds over 120
/// characters. Otherwise its trimmed text joins the paragraph after one
/// space.
pub proof fn law_paragraph_break(segs: Seq<Segment>, seg: Segment)
    requires
        trim_seq(seg.text@).len() > 0,
        para_state(segs).2 is Some,
    ensures
        ({
            let (paras, cur, prev) = para_state(segs);
            let (paras2, cur2, end) = para_state(segs.push(seg));
            let gap = seg.start_ms - prev->0;
            let text = trim_seq(seg.text@);
            let mark = cur.last();
            let ends_sentence = mark == '。' || mark == '！' || mark == '？' || mark == '.' || mark
                == '!' || mark == '?' || mark == '…';
            let opens = gap > 2500 || (ends_sentence && (gap > 1000 || cur.len() > 120));
            &&& cur.len() > 0
            &&& opens ==> paras2 == paras.push(cur) && cur2 == text
            &&& !opens ==> paras2 == paras && cur2 == cur.push(' ') + text
            &&& end == Some(seg.end_ms as nat)
        }),
{
    lemma_open_after_text(segs);
    lemma_para_state(segs);
    let (paras, cur, prev) = para_state(segs);
    lemma_trim_noop(cur);
    law_sentence_end_marks(cur.last());
    assert(segs.push(seg).drop_last() == segs);
    assert(segs.push(seg).last() == seg);
}

proof fn lemma_nothing_before_text(segs: Seq<Segment>)
    ensures
        para_state(segs).2 is None ==> para_state(segs).0.len() == 0 && para_state(segs).1.len()
            == 0,
    decreases segs.len(),
{
    if segs.len() > 0 {
        lemma_nothing_before_text(segs.drop_last());
    }
}

/// A segment whose text is only whitespace changes nothing (neither the
/// paragraphs nor the time the next pause is measured from); the first
/// segment with text opens the first paragraph with its trimmed text.
pub proof fn law_paragraph_skips_and_starts(segs: Seq<Segment>, seg: Segment)
    ensures
        trim_seq(seg.text@).len() == 0 ==> para_state(segs.push(seg)) == para_state(segs),
        trim_seq(seg.text@).len() > 0 && para_state(segs).2 is None ==> para_state(segs.push(seg))
            == (Seq::<Seq<char>>::empty(), trim_seq(seg.text@), Some(seg.end_ms as nat)),
{
    lemma_nothing_before_text(segs);
    assert(segs.push(seg).drop_last() == segs);
    assert(segs.push(seg).last() == seg);
}

/// Merging loses and adds no words: the paragraphs joined by single spaces
/// are the non-empty trimmed segment texts joined by single spaces.
pub proof fn law_paragraphs_keep_text(segs: Seq<Segment>)
    ensures
        join_with(paragraphs_of(segs), seq![' ']) == join_with(spoken_texts(segs), seq![' ']),
{
    lemma_para_state(segs);
    let (ps, cur, _) = para_state(segs);
    if cur.len() > 0 {
        lemma_trim_noop(cur);
    }
}

proof fn lemma_paras_clean(segs: Seq<Segment>)
    ensures
        ({
            let (ps, cur, _) = para_state(segs);
            forall|i: int|
                0 <= i < ps.len() ==> #[trigger] ps[i].len() > 0 && !is_ws(ps[i][0]) && !is_ws(
                    ps[i].last(),
                )
        }),
    decreases segs.len(),
{
    if segs.len() > 0 {
        let prev = segs.drop_last();
        lemma_paras_clean(prev);
        lemma_para_state(prev);
        let (ps, cur, e) = para_state(prev);
        let (ps2, cur2, e2) = para_state(segs);
        if ps2.len() > ps.len() {
            lemma_trim_noop(cur);
            assert forall|i: int| 0 <= i < ps2.len() implies #[trigger] ps2[i].len() > 0 && !is_ws(
                ps2[i][0],
            ) && !is_ws(ps2[i].last()) by {
                if i < ps.len() {
                    assert(ps2[i] == ps[i]);
                }
            }
        }
    }
}

/// Every paragraph holds text and is trimmed: it starts and ends with a
/// non-whitespace character.
pub proof fn law_paragraphs_are_trimmed(segs: Seq<Segment>)
    ensures
        forall|i: int|
            0 <= i < paragraphs_of(segs).len() ==> #[trigger] paragraphs_of(segs)[i].len() > 0
                && trim_seq(paragraphs_of(segs)[i]) == paragraphs_of(segs)[i],
{
    lemma_paras_clean(segs);
    lemma_para_state(segs);
    let (ps, cur, _) = para_state(segs);
    let out = paragraphs_of(segs);
    if cur.len() > 0 {
        lemma_trim_noop(cur);
    }
    assert forall|i: int| 0 <= i < out.len() implies #[trigger] out[i].len() > 0 && trim_seq(out[i])
        == out[i] by {
        if i < ps.len() {
            assert(out[i] == ps[i]);
        }
        lemma_trim_noop(out[i]);
    }
}

/// Merges transcription segments into paragraphs.
pub fn segment_paragraphs(segments: &[Segment]) -> (paras: Vec<String>)
    ensures
        string_views(paras@) == paragraphs_of(segments@),
{
    let mut paras: Vec<String> = Vec::new();
    let mut cur: Vec<char> = Vec::new();
    let mut prev_end: Option<u64> = None;
    for i in 0..segments.len()
        invariant
            ({
                let (p, c, e) = para_state(segments@.take(i as int));
                &&& string_views(paras@) == p
                &&& cur@ == c
                &&& e == (match prev_end {
                    None => None,
                    Some(x) => Some(x as nat),
                })
            }),
    {
        let seg = &segments[i];
        assert(segments@.take(i + 1).drop_last() == segments@.take(i as int));
        assert(segments@.take(i + 1).last() == *seg);
        let ghost st0 = para_state(segments@.take(i as int));
        let t = trim(seg.text.as_str());
        let text = chars_of(t.as_str());
        if text.len() > 0 {
            let gap_over_1s: bool;
            let gap_over_2_5s: bool;
            match prev_end {
                None => {
                    gap_over_1s = false;
                    gap_over_2_5s = false;
                },
                Some(p) => {
                    gap_over_1s = seg.start_ms > p && seg.start_ms - p > 1000;
                    gap_over_2_5s = seg.start_ms > p && seg.start_ms - p > 2500;
                },
            }
            let ends = cur.len() > 0 && sentence_end(cur[cur.len() - 1]);
            let too_long = cur.len() > 120;
            let new_para = cur.len() > 0 && ((ends && (gap_over_1s || too_long)) || gap_over_2_5s);
            if new_para {
                let s = string_of(&trim_chars(&cur));
                proof {
                    lemma_string_views_push(paras@, s);
                }
                paras.push(s);
                cur = Vec::new();
            }
            if cur.len() > 0 {
                cur.push(' ');
            }
            extend_chars(&mut cur, &text);
            prev_end = Some(seg.end_ms);
        }
        assert(para_step(st0, *seg).1 == cur@);
    }
    assert(segments@.take(segments@.len() as int) == segments@);
    if cur.len() > 0 {
        let s = string_of(&trim_chars(&cur));
        proof {
            lemma_string_views_push(paras@, s);
        }
        paras.push(s);
    }
    paras
}

} // verus!
