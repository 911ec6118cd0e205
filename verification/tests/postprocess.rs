use voice2text::postprocess::t2s::{simplify, simplify_all, simplify_segments};
use voice2text::engine::Segment;
use voice2text::postprocess::documents::{
    build_markdown, build_rtf, build_srt, build_teleprompter, build_teleprompter_html, build_vtt,
    html_escape, rtf_text,
};
use voice2text::postprocess::paragraphs::segment_paragraphs;
use voice2text::postprocess::teleprompter::split_teleprompter_lines;
use voice2text::postprocess::timefmt::{fmt_time, srt_time, vtt_time};
use voice2text::postprocess::{input_stem, output_dir, render_outputs, wants};

fn seg(start_ms: u64, end_ms: u64, text: &str) -> Segment {
    Segment { start_ms, end_ms, text: text.to_string() }
}

fn strings(v: &[&str]) -> Vec<String> {
    v.iter().map(|s| s.to_string()).collect()
}

#[test]
fn vtt_uses_arrow_separator() {
    let segs = vec![seg(0, 1500, "hello")];
    let out = build_vtt(&segs);
    assert!(out.contains(" --> "), "VTT must use ' --> ' per WebVTT spec, got:\n{}", out);
    assert!(!out.contains("0:00:00.000 - "), "must not use bare hyphen separator");
}

#[test]
fn teleprompter_splits_chinese_by_char_count() {
    let text = "一二三四五六七八九十甲乙丙丁戊己庚辛壬癸子丑寅卯辰巳午未申酉戌亥春夏秋冬东西南北";
    let lines = split_teleprompter_lines(text, 12);
    assert!(
        lines.len() >= 3,
        "40-char Chinese text must split into ≥3 lines at max=12, got {} lines: {:?}",
        lines.len(),
        lines
    );
    for line in &lines {
        assert!(
            line.chars().count() <= 14,
            "each line should stay near max_chars=12, got {} chars: {:?}",
            line.chars().count(),
            line
        );
    }
}

#[test]
fn teleprompter_breaks_at_punctuation() {
    let text = "今天天气不错，我们出去散步吧，顺便买点东西。";
    let lines = split_teleprompter_lines(text, 12);
    assert!(lines.len() >= 2, "should split at punctuation: {:?}", lines);
}

#[test]
fn teleprompter_lines_exact() {
    assert_eq!(
        split_teleprompter_lines("今天天气不错，我们出去散步吧，顺便买点东西。", 12),
        strings(&["今天天气不错，", "我们出去散步吧，", "顺便买点东西。"])
    );
    assert_eq!(
        split_teleprompter_lines(
            "一二三四五六七八九十甲乙丙丁戊己庚辛壬癸子丑寅卯辰巳午未申酉戌亥春夏秋冬东西南北",
            12
        ),
        strings(&["一二三四五六七八九十甲乙", "丙丁戊己庚辛壬癸子丑寅卯", "辰巳午未申酉戌亥春夏秋冬", "东西南北"])
    );
    assert_eq!(
        split_teleprompter_lines("Hello world, this is a test. Another sentence here!", 12),
        strings(&["Hello world,", " this is a", "test.", "Another", "sentence", "here!"])
    );
    assert_eq!(split_teleprompter_lines("   ", 12), Vec::<String>::new());
    assert_eq!(split_teleprompter_lines("", 12), Vec::<String>::new());
}

#[test]
fn teleprompter_lines_fit_and_keep_text() {
    let text = "第一句话很长很长很长很长很长很长，第二句。Third part, with words; and more!";
    for max in 1..20usize {
        let lines = split_teleprompter_lines(text, max);
        for l in &lines {
            let n = l.chars().count();
            assert!(n >= 1 && n <= max, "line {:?} at max {}", l, max);
        }
        let joined: String = lines.concat().chars().filter(|c| !c.is_whitespace()).collect();
        let expected: String = text.chars().filter(|c| !c.is_whitespace()).collect();
        assert_eq!(joined, expected);
    }
}

#[test]
fn time_formats() {
    assert_eq!(fmt_time(0), "0:00");
    assert_eq!(fmt_time(59_999), "0:59");
    assert_eq!(fmt_time(3_725_000), "1:02:05");
    assert_eq!(srt_time(3_723_004), "1:02:03,004");
    assert_eq!(srt_time(0), "0:00:00,000");
    assert_eq!(vtt_time(1500), "0:00:01.500");
    assert_eq!(vtt_time(36_000_000), "10:00:00.000");
}

#[test]
fn paragraphs_split_on_pause_after_sentence() {
    let segs = vec![seg(0, 1000, " 你好。 "), seg(2500, 3000, "世界"), seg(3100, 3500, "再见")];
    assert_eq!(segment_paragraphs(&segs), strings(&["你好。", "世界 再见"]));
}

#[test]
fn paragraphs_merge_and_skip_empty() {
    let segs = vec![seg(0, 1000, "a"), seg(1000, 2000, "   "), seg(2100, 3000, "b."), seg(3500, 4000, "c")];
    assert_eq!(segment_paragraphs(&segs), strings(&["a b. c"]));
    let long_pause = vec![seg(0, 1000, "no stop"), seg(3600, 4000, "next")];
    assert_eq!(segment_paragraphs(&long_pause), strings(&["no stop", "next"]));
    assert_eq!(segment_paragraphs(&[]), Vec::<String>::new());
}

#[test]
fn paragraphs_close_long_sentences_without_pause() {
    let long = "字".repeat(121) + "。";
    let segs = vec![seg(0, 1000, &long), seg(1000, 2000, "下一段")];
    assert_eq!(segment_paragraphs(&segs), vec![long.clone(), "下一段".to_string()]);
}

#[test]
fn escapes() {
    assert_eq!(html_escape("a<b>&c"), "a&lt;b&gt;&amp;c");
    assert_eq!(html_escape("&lt;"), "&amp;lt;");
    assert_eq!(rtf_text("a{b}\\c\n中"), "a\\{b\\}\\\\c\\line \\u20013?");
}

#[test]
fn srt_document() {
    let segs = vec![seg(0, 1500, " hi "), seg(61_000, 62_250, "there")];
    assert_eq!(
        build_srt(&segs),
        "1\n0:00:00,000 --> 0:00:01,500\nhi\n\n2\n0:01:01,000 --> 0:01:02,250\nthere\n\n"
    );
    assert_eq!(build_vtt(&segs), "WEBVTT\n\n0:00:00.000 --> 0:00:01.500\nhi\n\n0:01:01.000 --> 0:01:02.250\nthere\n\n");
}

#[test]
fn markdown_document() {
    let segs = vec![seg(0, 1500, "a|b\nc")];
    let paras = strings(&["第一段"]);
    assert_eq!(
        build_markdown("talk", &segs, &paras),
        "# talk\n\n## 转写全文\n\n第一段\n\n## 时间轴（表格）\n\n| 时间区间 | 文本 |\n| --- | --- |\n| [0:00 - 0:01] | a\\|b c |\n"
    );
}

#[test]
fn teleprompter_documents() {
    let paras = strings(&["今天天气不错，我们出去散步吧，顺便买点东西。", "<短>"]);
    assert_eq!(
        build_teleprompter("x", &paras),
        "今天天气不错，\n我们出去散步吧，\n顺便买点东西。\n\n<短>"
    );
    let html = build_teleprompter_html("a&b", &paras);
    assert!(html.starts_with("<!DOCTYPE html>\n<html lang=\"zh-CN\">"));
    assert!(html.contains("<title>a&amp;b · 提词稿</title>"));
    assert!(html.contains(
        "<div class=\"prompter\">\n      <p>今天天气不错，<br>我们出去散步吧，<br>顺便买点东西。</p>\n      <p>&lt;短&gt;</p>\n</div>"
    ));
    assert!(html.ends_with("</script>\n</body>\n</html>"));
    assert!(html.contains("*,*::before,*::after{margin:0;padding:0;box-sizing:border-box}"));
}

#[test]
fn rtf_document() {
    let paras = strings(&["中{x}"]);
    assert_eq!(
        build_rtf("x", &paras),
        "{\\rtf1\\ansi\\deff0\n{\\fonttbl{\\f0\\fnil\\fcharset134;}}\n\\f0\\fs44\\lang2052\n\\paperw11906\\paperh16838\\margl1440\\margr1440\\margt1440\\margb1440\n\\pard\\qc\\sa240\\sl480\\slmult1{\\fs44 \\u20013?\\{x\\}\\par}\n}\n"
    );
}

#[test]
fn output_locations() {
    assert_eq!(output_dir("/tmp/a"), "/tmp/a/voice2text");
    assert_eq!(output_dir("/tmp/a/"), "/tmp/a/voice2text");
    assert_eq!(output_dir(""), "voice2text");
    assert_eq!(input_stem("/music/song.live.m4a"), "song.live");
    assert_eq!(input_stem("/"), "out");
}

#[test]
fn outputs_follow_formats() {
    let segs = vec![seg(0, 1000, "hello"), seg(4000, 5000, "world")];
    let only_srt = render_outputs("s", &segs, &strings(&["srt"]));
    assert_eq!(only_srt.len(), 1);
    assert_eq!(only_srt[0].name, "s.srt");
    assert_eq!(
        only_srt[0].content,
        "1\n0:00:00,000 --> 0:00:01,000\nhello\n\n2\n0:00:04,000 --> 0:00:05,000\nworld\n\n"
    );
    let all = render_outputs("s", &segs, &[]);
    let names: Vec<&str> = all.iter().map(|f| f.name.as_str()).collect();
    assert_eq!(names, vec!["s.md", "s.srt", "s.vtt", "s.txt", "s-提词稿.html", "s-提词稿.md", "s.rtf"]);
    assert_eq!(all[3].content, "hello\n\nworld");
    let prompt = render_outputs("s", &segs, &strings(&["prompt", "txt"]));
    let names: Vec<&str> = prompt.iter().map(|f| f.name.as_str()).collect();
    assert_eq!(names, vec!["s.txt", "s-提词稿.html", "s-提词稿.md"]);
    assert!(wants(&[], "md"));
    assert!(!wants(&strings(&["srt"]), "md"));
}

#[test]
fn escaped_text_is_safe() {
    let html = html_escape("<script>alert('x')</script> & <b>");
    assert!(!html.contains('<') && !html.contains('>'));
    let rtf = rtf_text("混合 text — “quotes” 🎉\n");
    assert!(rtf.chars().all(|c| (c as u32) <= 127));
    assert_eq!(rtf_text("🎉"), "\\u127881?");
}

#[test]
fn paragraphs_are_trimmed_and_keep_words() {
    let segs = vec![seg(0, 500, "  one. "), seg(3000, 3500, "\ttwo "), seg(3600, 4000, ""), seg(9000, 9500, "three")];
    let paras = segment_paragraphs(&segs);
    assert_eq!(paras, strings(&["one.", "two", "three"]));
    for p in &paras {
        assert!(!p.is_empty() && p.trim() == p);
    }
    assert_eq!(paras.join(" "), "one. two three");
}

fn original_page(title: &str, body: &str) -> String {
    format!(
        r#"<!DOCTYPE html>
<html lang="zh-CN">
<head>
<meta charset="UTF-8">
<meta name="viewport" content="width=device-width, initial-scale=1.0">
<title>{title} · 提词稿</title>
<style>
  *,*::before,*::after{{margin:0;padding:0;box-sizing:border-box}}
  html{{height:100%}}
  body{{
    min-height:100%;
    background:#0f172a;
    color:#f1f5f9;
    font-family:-apple-system,"PingFang SC","Microsoft YaHei","Noto Sans SC",sans-serif;
    display:flex;justify-content:center;align-items:center;
    padding:3rem 2rem;
  }}
  .prompter{{
    max-width:900px;width:100%;text-align:center;
  }}
  .prompter p{{
    font-size:clamp(22px,6vw,48px);
    line-height:2.6;
    letter-spacing:0.14em;
    font-weight:500;
    margin:0 0 2em;
    word-break:keep-all;
  }}
  .prompter p:last-child{{margin-bottom:0}}
</style>
</head>
<body>
<div class="prompter">
{body}</div>
<script>
(function(){{
  var speed=1,interval=30;
  var max=document.body.scrollHeight-window.innerHeight,cur=0;
  function step(){{
    cur+=speed;if(cur>=max)cur=0;
    window.scrollTo(0,cur);
    setTimeout(step,interval);
  }}
  step();
}})();
</script>
</body>
</html>"#,
        title = title,
        body = body,
    )
}

#[test]
fn teleprompter_page_matches_its_template() {
    let paras = strings(&["第一段，很长很长很长的一段话。", "a<b"]);
    let page = build_teleprompter_html("x&y", &paras);
    let mut body = String::new();
    for p in &paras {
        let lines: Vec<String> = split_teleprompter_lines(p, 12).iter().map(|l| html_escape(l)).collect();
        body.push_str(&format!("      <p>{}</p>\n", lines.join("<br>")));
    }
    assert_eq!(page, original_page("x&amp;y", &body));
    assert!(page.contains("<title>x&amp;y · 提词稿</title>"));
    assert!(page.contains(&format!("<div class=\"prompter\">\n{}</div>", body)));
    assert!(page.contains("var speed=1,interval=30;"));
    assert_eq!(build_teleprompter_html("s", &[]), original_page("s", ""));
}

#[test]
fn html_escape_can_be_undone() {
    for s in ["a<b>&c", "&amp;&lt;", "plain 文本", "", "<<&>>"] {
        let e = html_escape(s);
        let back = e.replace("&lt;", "<").replace("&gt;", ">").replace("&amp;", "&");
        assert_eq!(back, s);
    }
}

#[test]
fn rtf_text_has_no_line_break_and_keeps_plain_ascii() {
    assert_eq!(rtf_text("a\nb"), "a\\line b");
    assert!(!rtf_text("一\n二\n").contains('\n'));
    let plain = "Plain ASCII text: 1, 2 & 3 (ok)!";
    assert_eq!(rtf_text(plain), plain);
    assert_eq!(rtf_text("{x}\\"), "\\{x\\}\\\\");
}

#[test]
fn teleprompter_lines_have_no_trailing_space() {
    for max in [1usize, 3, 12] {
        for line in split_teleprompter_lines("hello,   world. 这是 一个 测试。 end   ", max) {
            assert!(!line.is_empty());
            assert_eq!(line.trim_end(), line.as_str());
        }
    }
    for line in split_teleprompter_lines("a. b. c.", 0) {
        assert!(!line.is_empty());
        assert_eq!(line.trim_end(), line.as_str());
    }
}

#[test]
fn traditional_text_is_simplified() {
    assert_eq!(simplify("這個國家的語言"), "这个国家的语言");
    assert_eq!(simplify("plain 文本, 123"), "plain 文本, 123");
    assert_eq!(simplify_all(&strings(&["們", "說話"])), strings(&["们", "说话"]));
    let segs = simplify_segments(&[seg(5, 9, "開門")]);
    assert_eq!((segs[0].start_ms, segs[0].end_ms, segs[0].text.as_str()), (5, 9, "开门"));
}

#[test]
fn outputs_are_written_in_simplified_chinese() {
    let segs = vec![seg(0, 1000, "這是第一句。"), seg(5000, 6000, "還有兩句話")];
    let files = render_outputs("s", &segs, &strings(&["txt", "srt"]));
    assert_eq!(files[0].name, "s.srt");
    assert_eq!(
        files[0].content,
        "1\n0:00:00,000 --> 0:00:01,000\n这是第一句。\n\n2\n0:00:05,000 --> 0:00:06,000\n还有两句话\n\n"
    );
    assert_eq!(files[1].name, "s.txt");
    assert_eq!(files[1].content, "这是第一句。\n\n还有两句话");
}

#[test]
fn paragraph_rule_on_pauses_and_sentence_ends() {
    // a pause over 2.5 s opens a paragraph even without a sentence end
    assert_eq!(segment_paragraphs(&[seg(0, 1000, "a"), seg(3501, 4000, "b")]), strings(&["a", "b"]));
    assert_eq!(segment_paragraphs(&[seg(0, 1000, "a"), seg(3500, 4000, "b")]), strings(&["a b"]));
    // after a sentence end, a pause over one second opens one
    assert_eq!(segment_paragraphs(&[seg(0, 1000, "a."), seg(2001, 3000, "b")]), strings(&["a.", "b"]));
    assert_eq!(segment_paragraphs(&[seg(0, 1000, "a."), seg(2000, 3000, "b")]), strings(&["a. b"]));
}
