//! The output pipeline: paragraphs, subtitles, documents and teleprompter
//! scripts built from transcription segments, and the set of files written
//! for one transcribed input.
pub mod documents;
pub mod paragraphs;
pub mod t2s;
pub mod teleprompter;
pub mod timefmt;

use vstd::prelude::*;

use crate::engine::{segments_view, Segment};
use crate::paths::{file_stem, join, opt_view, path_file_stem, path_join};
use crate::postprocess::documents::{
    build_markdown, build_rtf, build_srt, build_teleprompter, build_teleprompter_html, build_vtt,
    markdown_seq, rtf_doc_seq, srt_seq, teleprompter_html_seq, teleprompter_seq, vtt_seq,
};
use crate::postprocess::paragraphs::{paragraphs_of, segment_paragraphs};
use crate::postprocess::t2s::{
    simplified_views, simplify_all, simplify_all_seq, simplify_segments,
};
use crate::text::{join_with, same_text, string_views};

verus! {

/// The directory, below `output_base`, that receives the results.
pub open spec fn output_dir_seq(output_base: Seq<char>) -> Seq<char> {
    path_join(output_base, "voice2text"@)
}

/// The results directory `<output_base>/voice2text`.
pub fn output_dir(output_base: &str) -> (r: String)
    ensures
        r@ == output_dir_seq(output_base@),
{
    join(output_base, "voice2text")
}

/// The stem that names the output files: the input's file stem, or `out`
/// when it has none.
pub open spec fn stem_or_out(stem: Option<Seq<char>>) -> Seq<char> {
    match stem {
        Some(s) => s,
        None => "out"@,
    }
}

/// The stem that names the output files, from the input's file stem.
pub fn output_stem(stem: Option<String>) -> (r: String)
    ensures
        r@ == stem_or_out(opt_view(stem)),
{
    match stem {
        Some(s) => s,
        None => "out".to_string(),
    }
}

/// The stem that names the output files of an input path.
pub fn input_stem(input: &str) -> (r: String)
    ensures
        r@ == stem_or_out(path_file_stem(input@)),
{
    output_stem(file_stem(input))
}

/// One file to write: its name inside the results directory and its text.
pub struct OutputFile {
    pub name: String,
    pub content: String,
}

/// Whether format `f` is requested: named in `formats`, or no format named.
pub open spec fn wants_seq(formats: Seq<Seq<char>>, f: Seq<char>) -> bool {
    formats.len() == 0 || formats.contains(f)
}

/// Whether format `f` is requested.
pub fn wants(formats: &[String], f: &str) -> (r: bool)
    ensures
        r == wants_seq(string_views(formats@), f@),
{
    if formats.len() == 0 {
        return true;
    }
    for i in 0..formats.len()
        invariant
            forall|j: int| 0 <= j < i ==> formats@[j]@ != f@,
    {
        if same_text(formats[i].as_str(), f) {
            assert(string_views(formats@)[i as int] == f@);
            return true;
        }
    }
    assert(!string_views(formats@).contains(f@));
    false
}

/// Strings joined with `sep` between neighbours.
pub fn join_strings(parts: &[String], sep: &str) -> (r: String)
    ensures
        r@ == join_with(string_views(parts@), sep@),
{
    let mut out = String::new();
    for i in 0..parts.len()
        invariant
            out@ == join_with(string_views(parts@).take(i as int), sep@),
    {
        assert(string_views(parts@).take(i + 1).drop_last() =~= string_views(parts@).take(
            i as int,
        ));
        if i > 0 {
            out.append(sep);
        }
        out.append(parts[i].as_str());
    }
    assert(string_views(parts@).take(parts@.len() as int) =~= string_views(parts@));
    out
}

/// The named file when its format is requested, else nothing.
pub open spec fn file_if(
    wanted: bool,
    name: Seq<char>,
    content: Seq<char>,
) -> Seq<(Seq<char>, Seq<char>)> {
    if wanted {
        seq![(name, content)]
    } else {
        Seq::empty()
    }
}

/// The files written for one input, as (name, text) pairs, in this order:
/// `<stem>.md`, `<stem>.srt`, `<stem>.vtt`, `<stem>.txt`,
/// `<stem>-提词稿.html`, `<stem>-提词稿.md`, `<stem>.rtf`, each when its format
/// (`md`, `srt`, `vtt`, `txt`, `prompt`, `rtf`) is requested.
pub open spec fn outputs_seq(
    stem: Seq<char>,
    segs: Seq<(u64, u64, Seq<char>)>,
    ps: Seq<Seq<char>>,
    formats: Seq<Seq<char>>,
) -> Seq<(Seq<char>, Seq<char>)> {
    file_if(wants_seq(formats, "md"@), stem + ".md"@, markdown_seq(stem, segs, ps)) + file_if(
        wants_seq(formats, "srt"@),
        stem + ".srt"@,
        srt_seq(segs),
    ) + file_if(wants_seq(formats, "vtt"@), stem + ".vtt"@, vtt_seq(segs)) + file_if(
        wants_seq(formats, "txt"@),
        stem + ".txt"@,
        join_with(ps, "\n\n"@),
    ) + file_if(
        wants_seq(formats, "prompt"@),
        stem + "-提词稿.html"@,
        teleprompter_html_seq(stem, ps),
    ) + file_if(wants_seq(formats, "prompt"@), stem + "-提词稿.md"@, teleprompter_seq(ps))
        + file_if(wants_seq(formats, "rtf"@), stem + ".rtf"@, rtf_doc_seq(ps))
}

/// With no format chosen, every output is written: the seven files, in
/// their fixed order, built from the segments and their paragraphs, both
/// converted to simplified Chinese.
pub proof fn law_all_outputs_without_choice(stem: Seq<char>, segs: Seq<Segment>)
    ensures
        ({
            let ps = simplify_all_seq(paragraphs_of(segs));
            let sv = simplified_views(segments_view(segs));
            outputs_seq(stem, sv, ps, Seq::empty()) == seq![
                (stem + ".md"@, markdown_seq(stem, sv, ps)),
                (stem + ".srt"@, srt_seq(sv)),
                (stem + ".vtt"@, vtt_seq(sv)),
                (stem + ".txt"@, join_with(ps, "\n\n"@)),
                (stem + "-提词稿.html"@, teleprompter_html_seq(stem, ps)),
                (stem + "-提词稿.md"@, teleprompter_seq(ps)),
                (stem + ".rtf"@, rtf_doc_seq(ps)),
            ]
        }),
{
    let ps = simplify_all_seq(paragraphs_of(segs));
    let sv = simplified_views(segments_view(segs));
    assert(outputs_seq(stem, sv, ps, Seq::empty()) =~= seq![
        (stem + ".md"@, markdown_seq(stem, sv, ps)),
        (stem + ".srt"@, srt_seq(sv)),
        (stem + ".vtt"@, vtt_seq(sv)),
        (stem + ".txt"@, join_with(ps, "\n\n"@)),
        (stem + "-提词稿.html"@, teleprompter_html_seq(stem, ps)),
        (stem + "-提词稿.md"@, teleprompter_seq(ps)),
        (stem + ".rtf"@, rtf_doc_seq(ps)),
    ]);
}

/// The (name, text) pairs of a list of output files.
pub open spec fn files_view(v: Seq<OutputFile>) -> Seq<(Seq<char>, Seq<char>)> {
    Seq::new(v.len(), |i: int| (v[i].name@, v[i].content@))
}

fn named(stem: &str, suffix: &str) -> (r: String)
    ensures
        r@ == stem@ + suffix@,
{
    let mut s = stem.to_string();
    s.append(suffix);
    s
}

fn add_file(files: &mut Vec<OutputFile>, name: String, content: String)
    ensures
        files_view(final(files)@) == files_view(old(files)@) + seq![(name@, content@)],
{
    let ghost before = files_view(files@);
    files.push(OutputFile { name, content });
    assert(files_view(files@) =~= before + seq![(name@, content@)]);
}

/// Renders every requested output of one transcribed input from its segments
/// and their merged paragraphs.
fn render_with_paragraphs(
    stem: &str,
    segments: &[Segment],
    paragraphs: &[String],
    formats: &[String],
) -> (files: Vec<OutputFile>)
    ensures
        files_view(files@) == outputs_seq(
            stem@,
            segments_view(segments@),
            string_views(paragraphs@),
            string_views(formats@),
        ),
{
    let ghost ps = string_views(paragraphs@);
    let ghost fs = string_views(formats@);
    let mut files: Vec<OutputFile> = Vec::new();
    let ghost f0 = files_view(files@);
    assert(f0 =~= Seq::empty());
    if wants(formats, "md") {
        add_file(&mut files, named(stem, ".md"), build_markdown(stem, segments, paragraphs));
    }
    let ghost f1 = files_view(files@);
    assert(f1 =~= file_if(wants_seq(fs, "md"@), stem@ + ".md"@, markdown_seq(stem@, segments_view(segments@), ps)));
    if wants(formats, "srt") {
        add_file(&mut files, named(stem, ".srt"), build_srt(segments));
    }
    let ghost f2 = files_view(files@);
    assert(f2 =~= f1 + file_if(wants_seq(fs, "srt"@), stem@ + ".srt"@, srt_seq(segments_view(segments@))));
    if wants(formats, "vtt") {
        add_file(&mut files, named(stem, ".vtt"), build_vtt(segments));
    }
    let ghost f3 = files_view(files@);
    assert(f3 =~= f2 + file_if(wants_seq(fs, "vtt"@), stem@ + ".vtt"@, vtt_seq(segments_view(segments@))));
    if wants(formats, "txt") {
        add_file(&mut files, named(stem, ".txt"), join_strings(paragraphs, "\n\n"));
    }
    let ghost f4 = files_view(files@);
    assert(f4 =~= f3 + file_if(wants_seq(fs, "txt"@), stem@ + ".txt"@, join_with(ps, "\n\n"@)));
    let prompt = wants(formats, "prompt");
    if prompt {
        add_file(&mut files, named(stem, "-提词稿.html"), build_teleprompter_html(stem, paragraphs));
    }
    let ghost f5 = files_view(files@);
    assert(f5 =~= f4 + file_if(
        wants_seq(fs, "prompt"@),
        stem@ + "-提词稿.html"@,
        teleprompter_html_seq(stem@, ps),
    ));
    if prompt {
        add_file(&mut files, named(stem, "-提词稿.md"), build_teleprompter(stem, paragraphs));
    }
    let ghost f6 = files_view(files@);
    assert(f6 =~= f5 + file_if(wants_seq(fs, "prompt"@), stem@ + "-提词稿.md"@, teleprompter_seq(ps)));
    if wants(formats, "rtf") {
        add_file(&mut files, named(stem, ".rtf"), build_rtf(stem, paragraphs));
    }
    files
}

/// Renders every requested output of one transcribed input: the segments are
/// merged into paragraphs; the paragraphs and the segments' texts are
/// converted to simplified Chinese; and each file is built from those
/// segments or paragraphs.
pub fn render_outputs(stem: &str, segments: &[Segment], formats: &[String]) -> (files: Vec<
    OutputFile,
>)
    ensures
        files_view(files@) == outputs_seq(
            stem@,
            simplified_views(segments_view(segments@)),
            simplify_all_seq(paragraphs_of(segments@)),
            string_views(formats@),
        ),
{
    let paragraphs = simplify_all(&segment_paragraphs(segments));
    let segs = simplify_segments(segments);
    render_with_paragraphs(stem, &segs, &paragraphs, formats)
}

} // verus!
