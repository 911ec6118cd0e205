//! The documents written for a transcript: the Markdown transcript with its
//! timeline table, SRT and WebVTT subtitles, the plain-text and HTML
//! teleprompter scripts, and the RTF document.
use vstd::prelude::*;

use crate::engine::{segments_view, Segment};
use crate::postprocess::teleprompter::{
    law_teleprompter_lines_fit, split_teleprompter_lines, teleprompter_lines,
};
use crate::postprocess::timefmt::{clock_chars, clock_seq, stamp_chars, stamp_seq};
use crate::text::{
    chars_of, concat_all, contains_seq, dec_seq, digit_char, digits_value, is_digit, lemma_dec_numeral, decimal, extend_chars, extend_str, string_of, string_views, trim_chars,
    lemma_trim_end_prefix, trim_end_chars, trim_end_seq, trim_seq,
};

verus! {

/// The opening of the HTML teleprompter page, before its title.
pub const HTML_HEAD: &'static str = r#"<!DOCTYPE html>
<html lang="zh-CN">
<head>
<meta charset="UTF-8">
<meta name="viewport" content="width=device-width, initial-scale=1.0">
"#;

/// The HTML teleprompter page's style sheet and the opening of its body,
/// between the title and the paragraphs' container.
pub const HTML_STYLE: &'static str = r#"
<style>
  *,*::before,*::after{margin:0;padding:0;box-sizing:border-box}
  html{height:100%}
  body{
    min-height:100%;
    background:#0f172a;
    color:#f1f5f9;
    font-family:-apple-system,"PingFang SC","Microsoft YaHei","Noto Sans SC",sans-serif;
    display:flex;justify-content:center;align-items:center;
    padding:3rem 2rem;
  }
  .prompter{
    max-width:900px;width:100%;text-align:center;
  }
  .prompter p{
    font-size:clamp(22px,6vw,48px);
    line-height:2.6;
    letter-spacing:0.14em;
    font-weight:500;
    margin:0 0 2em;
    word-break:keep-all;
  }
  .prompter p:last-child{margin-bottom:0}
</style>
</head>
<body>
"#;

/// The start of the page's scrolling script, up to its speed and interval.
pub const HTML_SCRIPT_OPEN: &'static str = r#"
<script>
(function(){
  "#;

/// The rest of the page's scrolling script and the end of the page.
pub const HTML_SCRIPT_REST: &'static str = r#"
  var max=document.body.scrollHeight-window.innerHeight,cur=0;
  function step(){
    cur+=speed;if(cur>=max)cur=0;
    window.scrollTo(0,cur);
    setTimeout(step,interval);
  }
  step();
})();
</script>
</body>
</html>"#;

/// The RTF header: character set, the system's default CJK font, A4 paper and
/// margins.
pub const RTF_HEAD: &'static str = r#"{\rtf1\ansi\deff0
{\fonttbl{\f0\fnil\fcharset134;}}
\f0\fs44\lang2052
\paperw11906\paperh16838\margl1440\margr1440\margt1440\margb1440
"#;

/// The line length of the teleprompter scripts.
pub const TELEPROMPTER_WIDTH: usize = 12;

// ---------------------------------------------------------------------------
// Character escapes
// ---------------------------------------------------------------------------

/// A Markdown table cell for one character: `|` is escaped, a line break
/// becomes a space.
pub open spec fn md_cell_piece(c: char) -> Seq<char> {
    if c == '|' {
        seq!['\\', '|']
    } else if c == '\n' {
        seq![' ']
    } else {
        seq![c]
    }
}

/// HTML text for one character: `&`, `<` and `>` become entities.
pub open spec fn html_piece(c: char) -> Seq<char> {
    if c == '&' {
        "&amp;"@
    } else if c == '<' {
        "&lt;"@
    } else if c == '>' {
        "&gt;"@
    } else {
        seq![c]
    }
}

/// RTF text for one character: `\`, `{` and `}` are escaped, a line break
/// becomes `\line `, ASCII stays, and any other character becomes `\u`, its
/// decimal code point and `?`.
pub open spec fn rtf_piece(c: char) -> Seq<char> {
    if c == '\\' {
        "\\\\"@
    } else if c == '{' {
        "\\{"@
    } else if c == '}' {
        "\\}"@
    } else if c == '\n' {
        "\\line "@
    } else if (c as u32) <= 127 {
        seq![c]
    } else {
        "\\u"@ + dec_seq((c as u32) as nat) + "?"@
    }
}

pub open spec fn md_cell_seq(s: Seq<char>) -> Seq<char>
    decreases s.len(),
{
    if s.len() == 0 {
        Seq::<char>::empty()
    } else {
        md_cell_seq(s.drop_last()) + md_cell_piece(s.last())
    }
}

pub open spec fn html_escape_seq(s: Seq<char>) -> Seq<char>
    decreases s.len(),
{
    if s.len() == 0 {
        Seq::<char>::empty()
    } else {
        html_escape_seq(s.drop_last()) + html_piece(s.last())
    }
}

pub open spec fn rtf_seq(s: Seq<char>) -> Seq<char>
    decreases s.len(),
{
    if s.len() == 0 {
        Seq::<char>::empty()
    } else {
        rtf_seq(s.drop_last()) + rtf_piece(s.last())
    }
}

/// Escaped HTML text holds no `<` or `>`: text can never open or close a
/// tag.
pub proof fn law_html_escape_has_no_markup(s: Seq<char>)
    ensures
        forall|i: int|
            0 <= i < html_escape_seq(s).len() ==> #[trigger] html_escape_seq(s)[i] != '<'
                && html_escape_seq(s)[i] != '>',
    decreases s.len(),
{
    reveal_strlit("&amp;");
    reveal_strlit("&lt;");
    reveal_strlit("&gt;");
    if s.len() > 0 {
        law_html_escape_has_no_markup(s.drop_last());
        let a = html_escape_seq(s.drop_last());
        let b = html_piece(s.last());
        assert forall|i: int| 0 <= i < b.len() implies #[trigger] b[i] != '<' && b[i] != '>' by {
        }
        assert forall|i: int| 0 <= i < (a + b).len() implies #[trigger] (a + b)[i] != '<' && (a
            + b)[i] != '>' by {
            if i >= a.len() {
                assert((a + b)[i] == b[i - a.len()]);
            }
        }
    }
}

/// HTML text read back, from the front: `&amp;`, `&lt;` and `&gt;` become
/// `&`, `<` and `>`; every other character stays.
pub open spec fn html_unescape_seq(s: Seq<char>) -> Seq<char>
    decreases s.len(),
{
    if s.len() == 0 {
        s
    } else if s.len() >= 5 && s.take(5) == "&amp;"@ {
        seq!['&'] + html_unescape_seq(s.skip(5))
    } else if s.len() >= 4 && s.take(4) == "&lt;"@ {
        seq!['<'] + html_unescape_seq(s.skip(4))
    } else if s.len() >= 4 && s.take(4) == "&gt;"@ {
        seq!['>'] + html_unescape_seq(s.skip(4))
    } else {
        seq![s[0]] + html_unescape_seq(s.skip(1))
    }
}

proof fn lemma_html_escape_add(a: Seq<char>, b: Seq<char>)
    ensures
        html_escape_seq(a + b) == html_escape_seq(a) + html_escape_seq(b),
    decreases b.len(),
{
    if b.len() == 0 {
        assert(a + b =~= a);
        assert(html_escape_seq(a) + html_escape_seq(b) =~= html_escape_seq(a));
    } else {
        lemma_html_escape_add(a, b.drop_last());
        assert((a + b).drop_last() =~= a + b.drop_last());
        assert((a + b).last() == b.last());
        assert(html_escape_seq(a + b) =~= html_escape_seq(a) + html_escape_seq(b));
    }
}

/// Escaping can be undone: reading the escaped text back gives the original
/// text, whatever it holds (`&`, `<`, `>` or entities already written out).
pub proof fn law_html_escape_undone(s: Seq<char>)
    ensures
        html_unescape_seq(html_escape_seq(s)) == s,
    decreases s.len(),
{
    reveal_strlit("&amp;");
    reveal_strlit("&lt;");
    reveal_strlit("&gt;");
    if s.len() > 0 {
        let c = s[0];
        let rest = s.skip(1);
        law_html_escape_undone(rest);
        assert(s =~= seq![c] + rest);
        lemma_html_escape_add(seq![c], rest);
        assert(seq![c].drop_last() =~= Seq::<char>::empty());
        assert(html_escape_seq(Seq::<char>::empty()) =~= Seq::<char>::empty());
        assert(seq![c].last() == c);
        assert(html_escape_seq(seq![c]) == html_escape_seq(seq![c].drop_last()) + html_piece(c));
        assert(html_escape_seq(seq![c]) =~= html_piece(c));
        let e = html_escape_seq(rest);
        let x = html_piece(c) + e;
        assert(html_escape_seq(s) == x);
        if c == '&' {
            assert(x.take(5) =~= "&amp;"@);
            assert(x.skip(5) =~= e);
        } else if c == '<' {
            assert(x[1] == 'l');
            assert(x.take(4) =~= "&lt;"@);
            assert(x.skip(4) =~= e);
        } else if c == '>' {
            assert(x[1] == 'g');
            assert(x.take(4) =~= "&gt;"@);
            assert(x.skip(4) =~= e);
        } else {
            assert(x[0] == c);
            assert(x.len() >= 5 ==> x.take(5)[0] == c);
            assert(x.len() >= 4 ==> x.take(4)[0] == c);
            assert(x.skip(1) =~= e);
        }
        assert(html_unescape_seq(x) =~= s);
    }
}

/// `s` with each occurrence of a non-empty `pat`, found from the left and
/// not overlapping the previous one, replaced by `rep`: std's `str::replace`
/// for a non-empty pattern.
pub open spec fn replace_seq(s: Seq<char>, pat: Seq<char>, rep: Seq<char>) -> Seq<char>
    decreases s.len(),
{
    if s.len() == 0 {
        s
    } else if pat.len() > 0 && s.len() >= pat.len() && s.take(pat.len() as int) == pat {
        rep + replace_seq(s.skip(pat.len() as int), pat, rep)
    } else {
        seq![s[0]] + replace_seq(s.skip(1), pat, rep)
    }
}

/// The text made of `f` of each character of `s`, in order.
pub open spec fn pieces(s: Seq<char>, f: spec_fn(char) -> Seq<char>) -> Seq<char>
    decreases s.len(),
{
    if s.len() == 0 {
        Seq::<char>::empty()
    } else {
        f(s[0]) + pieces(s.skip(1), f)
    }
}

proof fn lemma_replace_match(e: Seq<char>, pat: Seq<char>, rep: Seq<char>)
    requires
        pat.len() > 0,
    ensures
        replace_seq(pat + e, pat, rep) == rep + replace_seq(e, pat, rep),
{
    assert((pat + e).take(pat.len() as int) =~= pat);
    assert((pat + e).skip(pat.len() as int) =~= e);
}

/// Text whose characters cannot start a match (but for a first character
/// that does not begin one) is copied through unchanged.
proof fn lemma_replace_plain(p: Seq<char>, e: Seq<char>, pat: Seq<char>, rep: Seq<char>)
    requires
        pat.len() > 0,
        p.len() > 0 ==> p[0] != pat[0] || (p.len() >= pat.len() && p.take(pat.len() as int)
            != pat),
        forall|i: int| 1 <= i < p.len() ==> #[trigger] p[i] != pat[0],
    ensures
        replace_seq(p + e, pat, rep) == p + replace_seq(e, pat, rep),
    decreases p.len(),
{
    if p.len() == 0 {
        assert(p + e =~= e);
        assert(p + replace_seq(e, pat, rep) =~= replace_seq(e, pat, rep));
    } else {
        let x = p + e;
        if x.len() >= pat.len() && x.take(pat.len() as int) == pat {
            assert(x.take(pat.len() as int)[0] == x[0]);
            if p.len() >= pat.len() {
                assert(x.take(pat.len() as int) =~= p.take(pat.len() as int));
            }
            assert(false);
        }
        let q = p.skip(1);
        assert forall|i: int| 1 <= i < q.len() implies #[trigger] q[i] != pat[0] by {
            assert(q[i] == p[i + 1]);
        }
        if q.len() > 0 {
            assert(q[0] == p[1]);
        }
        lemma_replace_plain(q, e, pat, rep);
        assert(x.skip(1) =~= q + e);
        assert(seq![p[0]] + (q + replace_seq(e, pat, rep)) =~= p + replace_seq(e, pat, rep));
    }
}

/// Replacing in text made piece by piece goes piece by piece, when each
/// piece is replaced on its own whatever follows it.
proof fn lemma_replace_pieces(
    s: Seq<char>,
    f: spec_fn(char) -> Seq<char>,
    g: spec_fn(char) -> Seq<char>,
    pat: Seq<char>,
    rep: Seq<char>,
)
    requires
        pat.len() > 0,
        forall|c: char, e: Seq<char>|
            #[trigger] replace_seq(f(c) + e, pat, rep) == g(c) + replace_seq(e, pat, rep),
    ensures
        replace_seq(pieces(s, f), pat, rep) == pieces(s, g),
    decreases s.len(),
{
    if s.len() > 0 {
        lemma_replace_pieces(s.skip(1), f, g, pat, rep);
        assert(replace_seq(f(s[0]) + pieces(s.skip(1), f), pat, rep) == g(s[0]) + replace_seq(
            pieces(s.skip(1), f),
            pat,
            rep,
        ));
    }
}

proof fn lemma_pieces_single(s: Seq<char>)
    ensures
        pieces(s, |c: char| seq![c]) == s,
    decreases s.len(),
{
    if s.len() > 0 {
        lemma_pieces_single(s.skip(1));
        assert(seq![s[0]] + s.skip(1) =~= s);
    }
}

proof fn lemma_escape_pieces(s: Seq<char>)
    ensures
        html_escape_seq(s) == pieces(s, |c: char| html_piece(c)),
    decreases s.len(),
{
    if s.len() > 0 {
        let c = s[0];
        let rest = s.skip(1);
        lemma_escape_pieces(rest);
        assert(s =~= seq![c] + rest);
        lemma_html_escape_add(seq![c], rest);
        assert(seq![c].drop_last() =~= Seq::<char>::empty());
        assert(html_escape_seq(Seq::<char>::empty()) =~= Seq::<char>::empty());
        assert(seq![c].last() == c);
        assert(html_escape_seq(seq![c]) == html_escape_seq(seq![c].drop_last()) + html_piece(c));
        assert(html_escape_seq(seq![c]) =~= html_piece(c));
    }
}

/// After `&lt;` is read back: `&` and `>` still escaped.
pub open spec fn unescape_lt_piece(c: char) -> Seq<char> {
    if c == '&' {
        "&amp;"@
    } else if c == '>' {
        "&gt;"@
    } else {
        seq![c]
    }
}

/// After `&lt;` and `&gt;` are read back: `&` still escaped.
pub open spec fn unescape_gt_piece(c: char) -> Seq<char> {
    if c == '&' {
        "&amp;"@
    } else {
        seq![c]
    }
}

/// Escaping is undone by std's `replace` of `&lt;`, then `&gt;`, then
/// `&amp;`: the three replacements, in that order, give back the original
/// text, whatever it holds.
pub proof fn law_html_escape_replace_round_trip(s: Seq<char>)
    ensures
        replace_seq(
            replace_seq(replace_seq(html_escape_seq(s), "&lt;"@, "<"@), "&gt;"@, ">"@),
            "&amp;"@,
            "&"@,
        ) == s,
{
    reveal_strlit("&amp;");
    reveal_strlit("&lt;");
    reveal_strlit("&gt;");
    reveal_strlit("<");
    reveal_strlit(">");
    reveal_strlit("&");
    let lt = "&lt;"@;
    let gt = "&gt;"@;
    let amp = "&amp;"@;
    let f0 = |c: char| html_piece(c);
    let f1 = |c: char| unescape_lt_piece(c);
    let f2 = |c: char| unescape_gt_piece(c);
    let f3 = |c: char| seq![c];
    assert forall|c: char, e: Seq<char>| #[trigger] replace_seq(f0(c) + e, lt, "<"@) == f1(c)
        + replace_seq(e, lt, "<"@) by {
        if c == '<' {
            lemma_replace_match(e, lt, "<"@);
        } else if c == '&' {
            assert(amp[1] != lt[1]);
            assert(amp.take(4)[1] == amp[1]);
            lemma_replace_plain(amp, e, lt, "<"@);
        } else if c == '>' {
            assert(gt[1] != lt[1]);
            assert(gt.take(4)[1] == gt[1]);
            lemma_replace_plain(gt, e, lt, "<"@);
        } else {
            lemma_replace_plain(seq![c], e, lt, "<"@);
        }
    }
    assert forall|c: char, e: Seq<char>| #[trigger] replace_seq(f1(c) + e, gt, ">"@) == f2(c)
        + replace_seq(e, gt, ">"@) by {
        if c == '>' {
            lemma_replace_match(e, gt, ">"@);
        } else if c == '&' {
            assert(amp.take(4)[1] == amp[1]);
            lemma_replace_plain(amp, e, gt, ">"@);
        } else {
            lemma_replace_plain(seq![c], e, gt, ">"@);
        }
    }
    assert forall|c: char, e: Seq<char>| #[trigger] replace_seq(f2(c) + e, amp, "&"@) == f3(c)
        + replace_seq(e, amp, "&"@) by {
        if c == '&' {
            lemma_replace_match(e, amp, "&"@);
            assert("&"@ =~= seq![c]);
        } else {
            lemma_replace_plain(seq![c], e, amp, "&"@);
        }
    }
    lemma_escape_pieces(s);
    lemma_replace_pieces(s, f0, f1, lt, "<"@);
    lemma_replace_pieces(s, f1, f2, gt, ">"@);
    lemma_replace_pieces(s, f2, f3, amp, "&"@);
    lemma_pieces_single(s);
}

proof fn lemma_md_text_block(ps: Seq<Seq<char>>)
    ensures
        md_text_block(ps) == concat_all(Seq::new(ps.len(), |i: int| ps[i] + "\n\n"@)),
    decreases ps.len(),
{
    if ps.len() > 0 {
        lemma_md_text_block(ps.drop_last());
        assert(Seq::new(ps.len(), |i: int| ps[i] + "\n\n"@).drop_last() =~= Seq::new(
            ps.drop_last().len(),
            |i: int| ps.drop_last()[i] + "\n\n"@,
        ));
    } else {
        assert(Seq::new(ps.len(), |i: int| ps[i] + "\n\n"@).len() == 0);
    }
}

/// The Markdown transcript is the title `# <stem>`, the heading of the full
/// text, each paragraph followed by a blank line, the heading of the
/// timeline and the table's header, then the table's rows.
pub proof fn law_markdown_layout(stem: Seq<char>, segs: Seq<(u64, u64, Seq<char>)>, ps: Seq<Seq<char>>)
    ensures
        markdown_seq(stem, segs, ps) == "# "@ + stem + "\n\n## 转写全文\n\n"@ + concat_all(
            Seq::new(ps.len(), |i: int| ps[i] + "\n\n"@),
        ) + "## 时间轴（表格）\n\n| 时间区间 | 文本 |\n| --- | --- |\n"@ + md_rows(segs),
{
    lemma_md_text_block(ps);
    reveal_strlit("\n\n");
    reveal_strlit("## 转写全文\n\n");
    reveal_strlit("\n\n## 转写全文\n\n");
    reveal_strlit("## 时间轴（表格）\n\n");
    reveal_strlit("| 时间区间 | 文本 |\n");
    reveal_strlit("| --- | --- |\n");
    reveal_strlit("## 时间轴（表格）\n\n| 时间区间 | 文本 |\n| --- | --- |\n");
    assert("\n\n## 转写全文\n\n"@ =~= "\n\n"@ + "## 转写全文\n\n"@);
    assert("## 时间轴（表格）\n\n| 时间区间 | 文本 |\n| --- | --- |\n"@ =~= "## 时间轴（表格）\n\n"@
        + "| 时间区间 | 文本 |\n"@ + "| --- | --- |\n"@);
    assert(markdown_seq(stem, segs, ps) =~= "# "@ + stem + "\n\n## 转写全文\n\n"@ + concat_all(
        Seq::new(ps.len(), |i: int| ps[i] + "\n\n"@),
    ) + "## 时间轴（表格）\n\n| 时间区间 | 文本 |\n| --- | --- |\n"@ + md_rows(segs));
}

/// A timeline cell keeps the row on one line and the table's columns
/// intact: it holds no line break, every `|` of the text is written `\|`,
/// and text without `|` or line breaks is kept as it is.
pub proof fn law_markdown_cell(s: Seq<char>)
    ensures
        forall|i: int| 0 <= i < md_cell_seq(s).len() ==> #[trigger] md_cell_seq(s)[i] != '\n',
        (forall|i: int| 0 <= i < s.len() ==> #[trigger] s[i] != '|' && s[i] != '\n')
            ==> md_cell_seq(s) == s,
        md_cell_seq(s + seq!['|']) == md_cell_seq(s) + seq!['\\', '|'],
        md_cell_seq(s + seq!['\n']) == md_cell_seq(s) + seq![' '],
    decreases s.len(),
{
    assert((s + seq!['|']).drop_last() =~= s);
    assert((s + seq!['\n']).drop_last() =~= s);
    if s.len() > 0 {
        law_markdown_cell(s.drop_last());
        let a = md_cell_seq(s.drop_last());
        let b = md_cell_piece(s.last());
        assert forall|i: int| 0 <= i < (a + b).len() implies #[trigger] (a + b)[i] != '\n' by {
            if i >= a.len() {
                assert((a + b)[i] == b[i - a.len()]);
            }
        }
        if forall|i: int| 0 <= i < s.len() ==> #[trigger] s[i] != '|' && s[i] != '\n' {
            assert(s.last() == s[s.len() - 1]);
            assert forall|i: int| 0 <= i < s.drop_last().len() implies #[trigger] s.drop_last()[i]
                != '|' && s.drop_last()[i] != '\n' by {
                assert(s.drop_last()[i] == s[i]);
            }
            assert(s.drop_last().push(s.last()) =~= s);
        }
    }
}

proof fn lemma_dec_ascii(n: nat)
    ensures
        forall|i: int|
            0 <= i < dec_seq(n).len() ==> 48 <= (#[trigger] dec_seq(n)[i] as u32) <= 57,
    decreases n,
{
    let d = n % 10;
    assert(digit_char(d) as u32 == 48 + d);
    if n >= 10 {
        lemma_dec_ascii(n / 10);
        let p = dec_seq(n / 10);
        assert forall|i: int| 0 <= i < dec_seq(n).len() implies 48 <= (
        #[trigger] dec_seq(n)[i] as u32) <= 57 by {
            if i < p.len() {
                assert(dec_seq(n)[i] == p[i]);
            }
        }
    }
}

/// RTF text is plain ASCII: every other character is written as a `\u`
/// escape.
pub proof fn law_rtf_is_ascii(s: Seq<char>)
    ensures
        forall|i: int| 0 <= i < rtf_seq(s).len() ==> (#[trigger] rtf_seq(s)[i] as u32) <= 127,
    decreases s.len(),
{
    reveal_strlit("\\\\");
    reveal_strlit("\\{");
    reveal_strlit("\\}");
    reveal_strlit("\\line ");
    reveal_strlit("\\u");
    reveal_strlit("?");
    if s.len() > 0 {
        law_rtf_is_ascii(s.drop_last());
        let a = rtf_seq(s.drop_last());
        let c = s.last();
        let b = rtf_piece(c);
        lemma_dec_ascii((c as u32) as nat);
        assert forall|i: int| 0 <= i < b.len() implies (#[trigger] b[i] as u32) <= 127 by {
            if (c as u32) > 127 && c != '\\' && c != '{' && c != '}' && c != '\n' {
                let d = dec_seq((c as u32) as nat);
                assert(b == "\\u"@ + d + "?"@);
                if i >= 2 && i < 2 + d.len() {
                    assert(b[i] == d[i - 2]);
                }
            }
        }
        assert forall|i: int| 0 <= i < (a + b).len() implies (#[trigger] (a + b)[i] as u32) <= 127 by {
            if i >= a.len() {
                assert((a + b)[i] == b[i - a.len()]);
            }
        }
    }
}

/// RTF text holds no line break: a paragraph's breaks are written as
/// `\line ` and stay inside its one line of RTF.
pub proof fn law_rtf_has_no_line_break(s: Seq<char>)
    ensures
        forall|i: int| 0 <= i < rtf_seq(s).len() ==> #[trigger] rtf_seq(s)[i] != '\n',
    decreases s.len(),
{
    reveal_strlit("\\\\");
    reveal_strlit("\\{");
    reveal_strlit("\\}");
    reveal_strlit("\\line ");
    reveal_strlit("\\u");
    reveal_strlit("?");
    if s.len() > 0 {
        law_rtf_has_no_line_break(s.drop_last());
        let a = rtf_seq(s.drop_last());
        let c = s.last();
        let b = rtf_piece(c);
        lemma_dec_ascii((c as u32) as nat);
        assert forall|i: int| 0 <= i < b.len() implies #[trigger] b[i] != '\n' by {
            if (c as u32) > 127 && c != '\\' && c != '{' && c != '}' && c != '\n' {
                let d = dec_seq((c as u32) as nat);
                assert(b == "\\u"@ + d + "?"@);
                if i >= 2 && i < 2 + d.len() {
                    assert(b[i] == d[i - 2]);
                }
            }
        }
        assert forall|i: int| 0 <= i < (a + b).len() implies #[trigger] (a + b)[i] != '\n' by {
            if i >= a.len() {
                assert((a + b)[i] == b[i - a.len()]);
            }
        }
    }
}

/// Plain ASCII text, with no `\`, `{`, `}` or line break, is written to RTF
/// unchanged.
pub proof fn law_rtf_keeps_plain_ascii(s: Seq<char>)
    requires
        forall|i: int|
            0 <= i < s.len() ==> (#[trigger] s[i] as u32) <= 127 && s[i] != '\\' && s[i] != '{'
                && s[i] != '}' && s[i] != '\n',
    ensures
        rtf_seq(s) == s,
    decreases s.len(),
{
    if s.len() > 0 {
        let c = s.last();
        assert(c == s[s.len() - 1]);
        law_rtf_keeps_plain_ascii(s.drop_last());
        assert(rtf_piece(c) == seq![c]);
        assert(s.drop_last().push(c) =~= s);
        assert(rtf_seq(s) =~= s);
    }
}

proof fn lemma_md_rows_add(a: Seq<(u64, u64, Seq<char>)>, b: Seq<(u64, u64, Seq<char>)>)
    ensures
        md_rows(a + b) == md_rows(a) + md_rows(b),
    decreases b.len(),
{
    if b.len() == 0 {
        assert(a + b =~= a);
        assert(md_rows(a) + md_rows(b) =~= md_rows(a));
    } else {
        lemma_md_rows_add(a, b.drop_last());
        assert((a + b).drop_last() =~= a + b.drop_last());
        assert((a + b).last() == b.last());
    }
}

/// Every segment has its row in the Markdown timeline table:
/// `| [<start> - <end>] | <text> |`, with the start and end times as
/// `m:ss` (or `h:mm:ss`) and the text with `|` escaped and line breaks made
/// spaces.
pub proof fn law_markdown_timeline_rows(
    stem: Seq<char>,
    segs: Seq<(u64, u64, Seq<char>)>,
    ps: Seq<Seq<char>>,
    k: int,
)
    requires
        0 <= k < segs.len(),
    ensures
        contains_seq(
            markdown_seq(stem, segs, ps),
            "| ["@ + clock_seq(segs[k].0 as nat) + " - "@ + clock_seq(segs[k].1 as nat) + "] | "@
                + md_cell_seq(segs[k].2) + " |\n"@,
        ),
{
    let row = "| ["@ + clock_seq(segs[k].0 as nat) + " - "@ + clock_seq(segs[k].1 as nat) + "] | "@
        + md_cell_seq(segs[k].2) + " |\n"@;
    let one = seq![segs[k]];
    assert(one.drop_last() =~= Seq::<(u64, u64, Seq<char>)>::empty());
    assert(md_rows(Seq::<(u64, u64, Seq<char>)>::empty()) =~= Seq::<char>::empty());
    assert(one.last() == segs[k]);
    assert(md_rows(one) == md_rows(one.drop_last()) + md_row(one.last()));
    assert(md_rows(one) =~= md_row(segs[k]));
    assert(segs =~= segs.take(k) + one + segs.skip(k + 1));
    lemma_md_rows_add(segs.take(k), one);
    lemma_md_rows_add(segs.take(k) + one, segs.skip(k + 1));
    let head = "# "@ + stem + "\n\n"@ + "## 转写全文\n\n"@ + md_text_block(ps) + "## 时间轴（表格）\n\n"@
        + "| 时间区间 | 文本 |\n"@ + "| --- | --- |\n"@;
    assert(markdown_seq(stem, segs, ps) =~= (head + md_rows(segs.take(k))) + row + md_rows(
        segs.skip(k + 1),
    ));
    lemma_contains_middle(head + md_rows(segs.take(k)), row, md_rows(segs.skip(k + 1)));
}

/// The `k`-th SRT cue (counting from one) is its number `k` in decimal
/// digits, with no leading zero, on a line of its own; then
/// `<start> --> <end>` as `h:mm:ss,mmm`, the trimmed text, and a blank line.
pub proof fn law_srt_cues(segs: Seq<(u64, u64, Seq<char>)>) -> (num: Seq<char>)
    requires
        segs.len() > 0,
    ensures
        num.len() > 0,
        forall|i: int| 0 <= i < num.len() ==> is_digit(#[trigger] num[i]),
        num[0] != '0',
        digits_value(num) == segs.len(),
        srt_seq(segs) == srt_seq(segs.drop_last()) + num + "\n"@ + stamp_seq(
            segs.last().0 as nat,
            ',',
        ) + " --> "@ + stamp_seq(segs.last().1 as nat, ',') + "\n"@ + trim_seq(segs.last().2)
            + "\n\n"@,
{
    lemma_dec_numeral(segs.len());
    dec_seq(segs.len())
}

fn md_cell_chars(v: &Vec<char>) -> (r: Vec<char>)
    ensures
        r@ == md_cell_seq(v@),
{
    let mut r: Vec<char> = Vec::new();
    for i in 0..v.len()
        invariant
            r@ == md_cell_seq(v@.take(i as int)),
    {
        assert(v@.take(i + 1).drop_last() == v@.take(i as int));
        let c = v[i];
        if c == '|' {
            r.push('\\');
            r.push('|');
        } else if c == '\n' {
            r.push(' ');
        } else {
            r.push(c);
        }
    }
    assert(v@.take(v@.len() as int) == v@);
    r
}

fn html_escape_chars(v: &Vec<char>) -> (r: Vec<char>)
    ensures
        r@ == html_escape_seq(v@),
{
    let mut r: Vec<char> = Vec::new();
    for i in 0..v.len()
        invariant
            r@ == html_escape_seq(v@.take(i as int)),
    {
        assert(v@.take(i + 1).drop_last() == v@.take(i as int));
        let c = v[i];
        if c == '&' {
            extend_str(&mut r, "&amp;");
        } else if c == '<' {
            extend_str(&mut r, "&lt;");
        } else if c == '>' {
            extend_str(&mut r, "&gt;");
        } else {
            r.push(c);
        }
    }
    assert(v@.take(v@.len() as int) == v@);
    r
}

fn rtf_chars(v: &Vec<char>) -> (r: Vec<char>)
    ensures
        r@ == rtf_seq(v@),
{
    let mut r: Vec<char> = Vec::new();
    for i in 0..v.len()
        invariant
            r@ == rtf_seq(v@.take(i as int)),
    {
        assert(v@.take(i + 1).drop_last() == v@.take(i as int));
        let c = v[i];
        if c == '\\' {
            extend_str(&mut r, "\\\\");
        } else if c == '{' {
            extend_str(&mut r, "\\{");
        } else if c == '}' {
            extend_str(&mut r, "\\}");
        } else if c == '\n' {
            extend_str(&mut r, "\\line ");
        } else if (c as u32) <= 127 {
            r.push(c);
        } else {
            extend_str(&mut r, "\\u");
            extend_chars(&mut r, &decimal((c as u32) as u64));
            extend_str(&mut r, "?");
        }
    }
    assert(v@.take(v@.len() as int) == v@);
    r
}

/// HTML-escapes `&`, `<` and `>` (in that order, so no entity is escaped
/// twice).
pub fn html_escape(s: &str) -> (r: String)
    ensures
        r@ == html_escape_seq(s@),
{
    string_of(&html_escape_chars(&chars_of(s)))
}

/// RTF text of a paragraph.
pub fn rtf_text(s: &str) -> (r: String)
    ensures
        r@ == rtf_seq(s@),
{
    string_of(&rtf_chars(&chars_of(s)))
}

// ---------------------------------------------------------------------------
// Documents
// ---------------------------------------------------------------------------

/// The paragraphs of the Markdown transcript, each followed by a blank line.
pub open spec fn md_text_block(ps: Seq<Seq<char>>) -> Seq<char>
    decreases ps.len(),
{
    if ps.len() == 0 {
        Seq::<char>::empty()
    } else {
        md_text_block(ps.drop_last()) + ps.last() + "\n\n"@
    }
}

/// One row of the timeline table for a segment (start, end, text):
/// `| [start - end] | text |`.
pub open spec fn md_row(seg: (u64, u64, Seq<char>)) -> Seq<char> {
    "| ["@ + clock_seq(seg.0 as nat) + " - "@ + clock_seq(seg.1 as nat) + "] | "@ + md_cell_seq(
        seg.2,
    ) + " |\n"@
}

pub open spec fn md_rows(segs: Seq<(u64, u64, Seq<char>)>) -> Seq<char>
    decreases segs.len(),
{
    if segs.len() == 0 {
        Seq::<char>::empty()
    } else {
        md_rows(segs.drop_last()) + md_row(segs.last())
    }
}

/// The Markdown transcript: title, full text by paragraph, then the timeline
/// table of the segments.
pub open spec fn markdown_seq(
    stem: Seq<char>,
    segs: Seq<(u64, u64, Seq<char>)>,
    ps: Seq<Seq<char>>,
) -> Seq<char> {
    "# "@ + stem + "\n\n"@ + "## 转写全文\n\n"@ + md_text_block(ps) + "## 时间轴（表格）\n\n"@
        + "| 时间区间 | 文本 |\n"@ + "| --- | --- |\n"@ + md_rows(segs)
}

/// One subtitle cue for a segment (start, end, text): `start --> end`, the
/// trimmed text, a blank line.
pub open spec fn cue_seq(seg: (u64, u64, Seq<char>), sep: char) -> Seq<char> {
    stamp_seq(seg.0 as nat, sep) + " --> "@ + stamp_seq(seg.1 as nat, sep) + "\n"@ + trim_seq(
        seg.2,
    ) + "\n\n"@
}

/// SRT cues, numbered from one.
pub open spec fn srt_seq(segs: Seq<(u64, u64, Seq<char>)>) -> Seq<char>
    decreases segs.len(),
{
    if segs.len() == 0 {
        Seq::<char>::empty()
    } else {
        srt_seq(segs.drop_last()) + dec_seq(segs.len()) + "\n"@ + cue_seq(segs.last(), ',')
    }
}

pub open spec fn vtt_cues(segs: Seq<(u64, u64, Seq<char>)>) -> Seq<char>
    decreases segs.len(),
{
    if segs.len() == 0 {
        Seq::<char>::empty()
    } else {
        vtt_cues(segs.drop_last()) + cue_seq(segs.last(), '.')
    }
}

/// The WebVTT file: the `WEBVTT` header, a blank line, then the cues.
pub open spec fn vtt_seq(segs: Seq<(u64, u64, Seq<char>)>) -> Seq<char> {
    "WEBVTT\n\n"@ + vtt_cues(segs)
}

/// Lines, each followed by a line break.
pub open spec fn lines_block(ls: Seq<Seq<char>>) -> Seq<char>
    decreases ls.len(),
{
    if ls.len() == 0 {
        Seq::<char>::empty()
    } else {
        lines_block(ls.drop_last()) + ls.last() + "\n"@
    }
}

/// The plain teleprompter script before its trailing whitespace is removed:
/// each paragraph's lines, then a blank line.
pub open spec fn teleprompter_raw(ps: Seq<Seq<char>>) -> Seq<char>
    decreases ps.len(),
{
    if ps.len() == 0 {
        Seq::<char>::empty()
    } else {
        teleprompter_raw(ps.drop_last()) + lines_block(
            teleprompter_lines(ps.last(), TELEPROMPTER_WIDTH as nat),
        ) + "\n"@
    }
}

/// The plain teleprompter script.
pub open spec fn teleprompter_seq(ps: Seq<Seq<char>>) -> Seq<char> {
    trim_end_seq(teleprompter_raw(ps))
}

/// Escaped lines separated by `<br>`.
pub open spec fn html_lines(ls: Seq<Seq<char>>) -> Seq<char>
    decreases ls.len(),
{
    if ls.len() == 0 {
        Seq::<char>::empty()
    } else if ls.len() == 1 {
        html_escape_seq(ls[0])
    } else {
        html_lines(ls.drop_last()) + "<br>"@ + html_escape_seq(ls.last())
    }
}

/// One `<p>` per paragraph, its teleprompter lines separated by `<br>`.
pub open spec fn html_body(ps: Seq<Seq<char>>) -> Seq<char>
    decreases ps.len(),
{
    if ps.len() == 0 {
        Seq::<char>::empty()
    } else {
        html_body(ps.drop_last()) + "      <p>"@ + html_lines(
            teleprompter_lines(ps.last(), TELEPROMPTER_WIDTH as nat),
        ) + "</p>\n"@
    }
}

/// The title element of the teleprompter page.
pub open spec fn html_title_seq(stem: Seq<char>) -> Seq<char> {
    "<title>"@ + html_escape_seq(stem) + " · 提词稿</title>"@
}

/// The paragraphs' container of the teleprompter page.
pub open spec fn html_prompter_seq(ps: Seq<Seq<char>>) -> Seq<char> {
    "<div class=\"prompter\">\n"@ + html_body(ps) + "</div>"@
}

/// The self-scrolling HTML teleprompter page.
pub open spec fn teleprompter_html_seq(stem: Seq<char>, ps: Seq<Seq<char>>) -> Seq<char> {
    HTML_HEAD@ + html_title_seq(stem) + HTML_STYLE@ + html_prompter_seq(ps) + HTML_SCRIPT_OPEN@
        + "var speed=1,interval=30;"@ + HTML_SCRIPT_REST@
}

proof fn lemma_contains_middle(a: Seq<char>, p: Seq<char>, b: Seq<char>)
    ensures
        contains_seq(a + p + b, p),
{
    assert((a + p + b).subrange(a.len() as int, (a.len() + p.len()) as int) =~= p);
}

/// The teleprompter page holds its title (the escaped stem), the container
/// with every paragraph's lines, and its scrolling speed and interval.
pub proof fn law_teleprompter_page_parts(stem: Seq<char>, ps: Seq<Seq<char>>)
    ensures
        contains_seq(teleprompter_html_seq(stem, ps), html_title_seq(stem)),
        contains_seq(teleprompter_html_seq(stem, ps), html_prompter_seq(ps)),
        contains_seq(teleprompter_html_seq(stem, ps), "var speed=1,interval=30;"@),
{
    let page = teleprompter_html_seq(stem, ps);
    let t = html_title_seq(stem);
    let d = html_prompter_seq(ps);
    let v = "var speed=1,interval=30;"@;
    let tail = HTML_SCRIPT_OPEN@ + v + HTML_SCRIPT_REST@;
    assert(page =~= HTML_HEAD@ + t + (HTML_STYLE@ + d + tail));
    lemma_contains_middle(HTML_HEAD@, t, HTML_STYLE@ + d + tail);
    assert(page =~= (HTML_HEAD@ + t + HTML_STYLE@) + d + tail);
    lemma_contains_middle(HTML_HEAD@ + t + HTML_STYLE@, d, tail);
    assert(page =~= (HTML_HEAD@ + t + HTML_STYLE@ + d + HTML_SCRIPT_OPEN@) + v + HTML_SCRIPT_REST@);
    lemma_contains_middle(HTML_HEAD@ + t + HTML_STYLE@ + d + HTML_SCRIPT_OPEN@, v, HTML_SCRIPT_REST@);
}

/// One centred RTF paragraph.
pub open spec fn rtf_paragraph(p: Seq<char>) -> Seq<char> {
    "\\pard\\qc\\sa240\\sl480\\slmult1{\\fs44 "@ + rtf_seq(p) + "\\par}\n"@
}

pub open spec fn rtf_body(ps: Seq<Seq<char>>) -> Seq<char>
    decreases ps.len(),
{
    if ps.len() == 0 {
        Seq::<char>::empty()
    } else {
        rtf_body(ps.drop_last()) + rtf_paragraph(ps.last())
    }
}

/// The RTF document: header, one paragraph per paragraph, closing brace.
pub open spec fn rtf_doc_seq(ps: Seq<Seq<char>>) -> Seq<char> {
    RTF_HEAD@ + rtf_body(ps) + "}\n"@
}

/// How many characters, none a line break, stand right before index `j`:
/// the length of the line that index `j` would continue.
pub open spec fn run_before(s: Seq<char>, j: int) -> nat
    decreases j,
{
    if j <= 0 || j > s.len() {
        0
    } else if s[j - 1] == '\n' {
        0
    } else {
        run_before(s, j - 1) + 1
    }
}

/// No line of `s` is longer than `m` characters.
pub open spec fn lines_within(s: Seq<char>, m: nat) -> bool {
    forall|j: int| 0 <= j <= s.len() ==> #[trigger] run_before(s, j) <= m
}

proof fn lemma_run_le_index(s: Seq<char>, j: int)
    requires
        0 <= j <= s.len(),
    ensures
        run_before(s, j) <= j,
    decreases j,
{
    if j > 0 && s[j - 1] != '\n' {
        lemma_run_le_index(s, j - 1);
    }
}

proof fn lemma_run_prefix(s: Seq<char>, t: Seq<char>, j: int)
    requires
        0 <= j <= t.len() <= s.len(),
        t == s.take(t.len() as int),
    ensures
        run_before(t, j) == run_before(s, j),
    decreases j,
{
    if j > 0 {
        assert(t[j - 1] == s[j - 1]);
        lemma_run_prefix(s, t, j - 1);
    }
}

proof fn lemma_run_after_break(a: Seq<char>, b: Seq<char>, j: int)
    requires
        a.len() > 0,
        a.last() == '\n',
        0 <= j <= b.len(),
    ensures
        run_before(a + b, a.len() + j) == run_before(b, j),
    decreases j,
{
    if j > 0 {
        assert((a + b)[a.len() + j - 1] == b[j - 1]);
        lemma_run_after_break(a, b, j - 1);
    } else {
        assert((a + b)[a.len() - 1] == '\n');
    }
}

/// Joining text that ends a line to text with short lines keeps lines short.
proof fn lemma_lines_within_concat(a: Seq<char>, b: Seq<char>, m: nat)
    requires
        lines_within(a, m),
        lines_within(b, m),
        a.len() == 0 || a.last() == '\n',
    ensures
        lines_within(a + b, m),
{
    if a.len() == 0 {
        assert(a + b == b);
    } else {
        assert forall|j: int| 0 <= j <= (a + b).len() implies #[trigger] run_before(a + b, j) <= m by {
            if j <= a.len() {
                assert(a == (a + b).take(a.len() as int));
                lemma_run_prefix(a + b, a, j);
            } else {
                lemma_run_after_break(a, b, j - a.len());
            }
        }
    }
}

proof fn lemma_line_then_break(l: Seq<char>, m: nat)
    requires
        l.len() <= m,
    ensures
        lines_within(l + "\n"@, m),
        (l + "\n"@).len() > 0 && (l + "\n"@).last() == '\n',
{
    reveal_strlit("\n");
    let t = l + "\n"@;
    assert forall|j: int| 0 <= j <= t.len() implies #[trigger] run_before(t, j) <= m by {
        if j <= l.len() {
            lemma_run_le_index(t, j);
        } else {
            assert(t[j - 1] == '\n');
        }
    }
}

proof fn lemma_lines_block_within(ls: Seq<Seq<char>>, m: nat)
    requires
        forall|i: int| 0 <= i < ls.len() ==> #[trigger] ls[i].len() <= m,
    ensures
        lines_within(lines_block(ls), m),
        lines_block(ls).len() == 0 || lines_block(ls).last() == '\n',
    decreases ls.len(),
{
    if ls.len() > 0 {
        let a = lines_block(ls.drop_last());
        assert forall|i: int| 0 <= i < ls.drop_last().len() implies #[trigger] ls.drop_last()[i].len()
            <= m by {
            assert(ls.drop_last()[i] == ls[i]);
        }
        lemma_lines_block_within(ls.drop_last(), m);
        let l = ls.last();
        assert(ls[ls.len() - 1] == l);
        lemma_line_then_break(l, m);
        lemma_lines_within_concat(a, l + "\n"@, m);
        assert(a + l + "\n"@ == a + (l + "\n"@));
    }
}

proof fn lemma_teleprompter_raw_within(ps: Seq<Seq<char>>)
    ensures
        lines_within(teleprompter_raw(ps), TELEPROMPTER_WIDTH as nat),
        teleprompter_raw(ps).len() == 0 || teleprompter_raw(ps).last() == '\n',
    decreases ps.len(),
{
    reveal_strlit("\n");
    if ps.len() > 0 {
        let m = TELEPROMPTER_WIDTH as nat;
        lemma_teleprompter_raw_within(ps.drop_last());
        let a = teleprompter_raw(ps.drop_last());
        let ls = teleprompter_lines(ps.last(), m);
        law_teleprompter_lines_fit(ps.last(), m);
        lemma_lines_block_within(ls, m);
        let b = lines_block(ls);
        lemma_lines_within_concat(a, b, m);
        lemma_line_then_break(Seq::<char>::empty(), m);
        assert(Seq::<char>::empty() + "\n"@ == "\n"@);
        if b.len() > 0 {
            lemma_lines_within_concat(a + b, "\n"@, m);
        } else {
            assert(a + b == a);
            lemma_lines_within_concat(a, "\n"@, m);
        }
    }
}

/// No line of the plain teleprompter script is longer than twelve
/// characters.
pub proof fn law_teleprompter_script_lines_fit(ps: Seq<Seq<char>>)
    ensures
        lines_within(teleprompter_seq(ps), TELEPROMPTER_WIDTH as nat),
{
    let raw = teleprompter_raw(ps);
    lemma_teleprompter_raw_within(ps);
    lemma_trim_end_prefix(raw);
    let t = teleprompter_seq(ps);
    assert forall|j: int| 0 <= j <= t.len() implies #[trigger] run_before(t, j) <= TELEPROMPTER_WIDTH as nat by {
        lemma_run_prefix(raw, t, j);
    }
}

proof fn lemma_views_step(ps: Seq<String>, i: int)
    requires
        0 <= i < ps.len(),
    ensures
        string_views(ps).take(i + 1).drop_last() == string_views(ps).take(i),
        string_views(ps).take(i + 1).last() == ps[i]@,
{
    assert(string_views(ps).take(i + 1).drop_last() =~= string_views(ps).take(i));
}

proof fn lemma_view_step(segs: Seq<Segment>, i: int)
    requires
        0 <= i < segs.len(),
    ensures
        segments_view(segs).take(i + 1).drop_last() == segments_view(segs).take(i),
        segments_view(segs).take(i + 1).last() == (segs[i].start_ms, segs[i].end_ms, segs[i].text@),
        segments_view(segs).take(i + 1).len() == i + 1,
{
    assert(segments_view(segs).take(i + 1).drop_last() =~= segments_view(segs).take(i));
}

proof fn lemma_views_all(ps: Seq<String>)
    ensures
        string_views(ps).take(ps.len() as int) == string_views(ps),
{
    assert(string_views(ps).take(ps.len() as int) =~= string_views(ps));
}

fn md_row_chars(out: &mut Vec<char>, seg: &Segment)
    ensures
        final(out)@ == old(out)@ + md_row((seg.start_ms, seg.end_ms, seg.text@)),
{
    extend_str(out, "| [");
    extend_chars(out, &clock_chars(seg.start_ms));
    extend_str(out, " - ");
    extend_chars(out, &clock_chars(seg.end_ms));
    extend_str(out, "] | ");
    extend_chars(out, &md_cell_chars(&chars_of(seg.text.as_str())));
    extend_str(out, " |\n");
}

/// The Markdown transcript of a file.
pub fn build_markdown(stem: &str, segments: &[Segment], paragraphs: &[String]) -> (md: String)
    ensures
        md@ == markdown_seq(stem@, segments_view(segments@), string_views(paragraphs@)),
{
    let mut out: Vec<char> = Vec::new();
    extend_str(&mut out, "# ");
    extend_str(&mut out, stem);
    extend_str(&mut out, "\n\n");
    extend_str(&mut out, "## 转写全文\n\n");
    let ghost head = out@;
    for i in 0..paragraphs.len()
        invariant
            out@ == head + md_text_block(string_views(paragraphs@).take(i as int)),
    {
        proof {
            lemma_views_step(paragraphs@, i as int);
        }
        extend_str(&mut out, paragraphs[i].as_str());
        extend_str(&mut out, "\n\n");
    }
    proof {
        lemma_views_all(paragraphs@);
    }
    extend_str(&mut out, "## 时间轴（表格）\n\n");
    extend_str(&mut out, "| 时间区间 | 文本 |\n");
    extend_str(&mut out, "| --- | --- |\n");
    let ghost mid = out@;
    for i in 0..segments.len()
        invariant
            out@ == mid + md_rows(segments_view(segments@).take(i as int)),
    {
        proof {
            lemma_view_step(segments@, i as int);
        }
        md_row_chars(&mut out, &segments[i]);
    }
    assert(segments_view(segments@).take(segments@.len() as int) == segments_view(segments@));
    string_of(&out)
}

fn cue_chars(out: &mut Vec<char>, seg: &Segment, sep: char)
    ensures
        final(out)@ == old(out)@ + cue_seq((seg.start_ms, seg.end_ms, seg.text@), sep),
{
    extend_chars(out, &stamp_chars(seg.start_ms, sep));
    extend_str(out, " --> ");
    extend_chars(out, &stamp_chars(seg.end_ms, sep));
    extend_str(out, "\n");
    extend_chars(out, &trim_chars(&chars_of(seg.text.as_str())));
    extend_str(out, "\n\n");
}

/// SRT subtitles: numbered cues `h:mm:ss,mmm --> h:mm:ss,mmm`.
pub fn build_srt(segments: &[Segment]) -> (srt: String)
    ensures
        srt@ == srt_seq(segments_view(segments@)),
{
    let mut out: Vec<char> = Vec::new();
    for i in 0..segments.len()
        invariant
            out@ == srt_seq(segments_view(segments@).take(i as int)),
    {
        proof {
            lemma_view_step(segments@, i as int);
        }
        extend_chars(&mut out, &decimal((i + 1) as u64));
        extend_str(&mut out, "\n");
        cue_chars(&mut out, &segments[i], ',');
    }
    assert(segments_view(segments@).take(segments@.len() as int) == segments_view(segments@));
    string_of(&out)
}

/// WebVTT subtitles: the `WEBVTT` header, then cues
/// `h:mm:ss.mmm --> h:mm:ss.mmm`.
pub fn build_vtt(segments: &[Segment]) -> (vtt: String)
    ensures
        vtt@ == vtt_seq(segments_view(segments@)),
{
    let mut out: Vec<char> = Vec::new();
    extend_str(&mut out, "WEBVTT\n\n");
    let ghost head = out@;
    for i in 0..segments.len()
        invariant
            out@ == head + vtt_cues(segments_view(segments@).take(i as int)),
    {
        proof {
            lemma_view_step(segments@, i as int);
        }
        cue_chars(&mut out, &segments[i], '.');
    }
    assert(segments_view(segments@).take(segments@.len() as int) == segments_view(segments@));
    string_of(&out)
}

/// The plain-text teleprompter script (lines of at most twelve characters,
/// a blank line between paragraphs).
pub fn build_teleprompter(_stem: &str, paragraphs: &[String]) -> (script: String)
    ensures
        script@ == teleprompter_seq(string_views(paragraphs@)),
{
    let mut out: Vec<char> = Vec::new();
    for i in 0..paragraphs.len()
        invariant
            out@ == teleprompter_raw(string_views(paragraphs@).take(i as int)),
    {
        proof {
            lemma_views_step(paragraphs@, i as int);
        }
        let lines = split_teleprompter_lines(paragraphs[i].as_str(), TELEPROMPTER_WIDTH);
        let ghost before = out@;
        for j in 0..lines.len()
            invariant
                out@ == before + lines_block(string_views(lines@).take(j as int)),
        {
            proof {
                lemma_views_step(lines@, j as int);
            }
            extend_str(&mut out, lines[j].as_str());
            extend_str(&mut out, "\n");
        }
        proof {
            lemma_views_all(lines@);
        }
        extend_str(&mut out, "\n");
    }
    proof {
        lemma_views_all(paragraphs@);
    }
    string_of(&trim_end_chars(&out))
}

/// The self-scrolling HTML teleprompter page (dark background, large centred
/// text, lines of at most twelve characters).
pub fn build_teleprompter_html(stem: &str, paragraphs: &[String]) -> (page: String)
    ensures
        page@ == teleprompter_html_seq(stem@, string_views(paragraphs@)),
{
    let mut body: Vec<char> = Vec::new();
    for i in 0..paragraphs.len()
        invariant
            body@ == html_body(string_views(paragraphs@).take(i as int)),
    {
        proof {
            lemma_views_step(paragraphs@, i as int);
        }
        extend_str(&mut body, "      <p>");
        let lines = split_teleprompter_lines(paragraphs[i].as_str(), TELEPROMPTER_WIDTH);
        let ghost before = body@;
        for j in 0..lines.len()
            invariant
                body@ == before + html_lines(string_views(lines@).take(j as int)),
        {
            proof {
                lemma_views_step(lines@, j as int);
            }
            if j > 0 {
                extend_str(&mut body, "<br>");
            }
            extend_chars(&mut body, &html_escape_chars(&chars_of(lines[j].as_str())));
        }
        proof {
            lemma_views_all(lines@);
        }
        extend_str(&mut body, "</p>\n");
    }
    proof {
        lemma_views_all(paragraphs@);
    }
    let mut out: Vec<char> = Vec::new();
    extend_str(&mut out, HTML_HEAD);
    extend_str(&mut out, "<title>");
    extend_chars(&mut out, &html_escape_chars(&chars_of(stem)));
    extend_str(&mut out, " · 提词稿</title>");
    extend_str(&mut out, HTML_STYLE);
    extend_str(&mut out, "<div class=\"prompter\">\n");
    extend_chars(&mut out, &body);
    extend_str(&mut out, "</div>");
    extend_str(&mut out, HTML_SCRIPT_OPEN);
    extend_str(&mut out, "var speed=1,interval=30;");
    extend_str(&mut out, HTML_SCRIPT_REST);
    string_of(&out)
}

/// The RTF document: one centred paragraph per paragraph, in the system's
/// default CJK font.
pub fn build_rtf(_stem: &str, paragraphs: &[String]) -> (doc: String)
    ensures
        doc@ == rtf_doc_seq(string_views(paragraphs@)),
{
    let mut out: Vec<char> = Vec::new();
    extend_str(&mut out, RTF_HEAD);
    let ghost head = out@;
    for i in 0..paragraphs.len()
        invariant
            out@ == head + rtf_body(string_views(paragraphs@).take(i as int)),
    {
        proof {
            lemma_views_step(paragraphs@, i as int);
        }
        extend_str(&mut out, "\\pard\\qc\\sa240\\sl480\\slmult1{\\fs44 ");
        extend_chars(&mut out, &rtf_chars(&chars_of(paragraphs[i].as_str())));
        extend_str(&mut out, "\\par}\n");
    }
    proof {
        lemma_views_all(paragraphs@);
    }
    extend_str(&mut out, "}\n");
    string_of(&out)
}

} // verus!
