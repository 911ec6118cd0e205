//! The standard engine: the whisper.cpp command-line binary. Inputs other
//! than WAV are first converted with ffmpeg to 16 kHz mono 16-bit WAV; the
//! binary writes its result as JSON next to a per-input prefix in a temporary
//! directory.
use vstd::prelude::*;

use crate::engine::{
    language_given, language_given_seq, model_file_seq, trimmed_segments, trimmed_seq,
    segments_view, whisper_cpp_model_file, RawSegment, Segment,
};
use crate::paths::{extension, join, path_extension, path_join};
use crate::text::{
    alphanumeric, chars_of, decimal, dec_seq, extend_chars, extend_str, hex, hex_padded, hex_seq,
    is_alphanumeric, lines, lines_seq, pad_zeros, push_item, string_of, string_views,
};

verus! {

/// The whisper-cli binary installed in the application data directory.
pub open spec fn installed_binary_seq(app_data: Seq<char>) -> Seq<char> {
    path_join(path_join(app_data, "bin"@), "whisper-cli"@)
}

/// The standard engine's binary: the bundled whisper-cli when one was found,
/// else `<app_data>/bin/whisper-cli`.
pub fn binary_path(app_data: &str, bundled: Option<String>) -> (r: String)
    ensures
        r@ == match bundled {
            Some(b) => b@,
            None => installed_binary_seq(app_data@),
        },
{
    match bundled {
        Some(b) => b,
        None => join(join(app_data, "bin").as_str(), "whisper-cli"),
    }
}

/// `<app_data>/models/ggml-<model>.bin`.
pub open spec fn model_path_seq(app_data: Seq<char>, model: Seq<char>) -> Seq<char> {
    path_join(path_join(app_data, "models"@), model_file_seq(model))
}

/// The model file of a model key: `<app_data>/models/ggml-<model>.bin`.
pub fn model_path(app_data: &str, model: &str) -> (r: String)
    ensures
        r@ == model_path_seq(app_data@, model@),
{
    join(join(app_data, "models").as_str(), whisper_cpp_model_file(model).as_str())
}

/// A character kept in a temporary file name: letters, digits, `-` and `_`
/// stay, anything else becomes `_`.
pub open spec fn sanitized(c: char, is_alnum: bool) -> char {
    if is_alnum || c == '-' || c == '_' {
        c
    } else {
        '_'
    }
}

/// A file stem made safe for temporary file names.
pub open spec fn sanitize_seq(s: Seq<char>) -> Seq<char> {
    Seq::new(s.len(), |i: int| sanitized(s[i], alphanumeric(s[i])))
}

/// One character of a sanitized name, given whether it is alphanumeric.
pub fn sanitized_char(c: char, is_alnum: bool) -> (r: char)
    ensures
        r == sanitized(c, is_alnum),
{
    if is_alnum || c == '-' || c == '_' {
        c
    } else {
        '_'
    }
}

/// Replaces every character that is not alphanumeric, `-` or `_` with `_`.
pub fn sanitize(name: &str) -> (r: String)
    ensures
        r@ == sanitize_seq(name@),
{
    let v = chars_of(name);
    let mut out: Vec<char> = Vec::new();
    for i in 0..v.len()
        invariant
            v@ == name@,
            out@ == sanitize_seq(name@).take(i as int),
    {
        let c = sanitized_char(v[i], is_alphanumeric(v[i]));
        out.push(c);
        assert(out@ =~= sanitize_seq(name@).take(i + 1));
    }
    assert(sanitize_seq(name@).take(v@.len() as int) =~= sanitize_seq(name@));
    string_of(&out)
}

/// What std's `DefaultHasher`, as made by `DefaultHasher::new()`, gives for a
/// text. std documents that every hasher made that way hashes alike (it takes
/// no per-process seed); its algorithm may change between releases, so it is
/// left unstated here.
pub uninterp spec fn default_hash(s: Seq<char>) -> u64;

/// The hash of a path with std's default hasher (`BuildHasher::hash_one` on
/// `BuildHasherDefault<DefaultHasher>`, which hashes as `DefaultHasher::new()`
/// does). Claimed: the value is `default_hash` of the text, nothing more.
#[verifier::external_body]
pub(crate) fn path_hash(input: &str) -> (h: u64)
    ensures
        h == default_hash(input@),
{
    std::hash::BuildHasher::hash_one(
        &std::hash::BuildHasherDefault::<std::collections::hash_map::DefaultHasher>::default(),
        input,
    )
}

/// `<sanitized stem>_<hash as at least eight lowercase hex digits>`.
pub open spec fn stem_with_hash_seq(stem: Seq<char>, h: u64) -> Seq<char> {
    sanitize_seq(stem) + seq!['_'] + pad_zeros(hex_seq(h as nat), 8)
}

/// The temporary-file prefix for a stem and a path hash.
pub fn stem_with_hash(stem: &str, h: u64) -> (r: String)
    ensures
        r@ == stem_with_hash_seq(stem@, h),
{
    let mut v = chars_of(sanitize(stem).as_str());
    v.push('_');
    extend_chars(&mut v, &hex_padded(h, 8));
    string_of(&v)
}

/// A temporary-file prefix unique to an input path: the sanitized stem, `_`,
/// and the path's hash in hexadecimal (at least eight digits), so that files
/// of the same name from different folders do not collide.
pub fn unique_stem(input: &str, stem: &str) -> (r: String)
    ensures
        r@ == stem_with_hash_seq(stem@, default_hash(input@)),
{
    let h = path_hash(input);
    stem_with_hash(stem, h)
}

/// `c` with an ASCII capital letter made small.
pub open spec fn ascii_lower(c: char) -> char {
    if 65 <= (c as u32) <= 90 {
        ((c as u32) + 32) as char
    } else {
        c
    }
}

/// Whether two texts are equal ignoring ASCII case (as std's
/// `str::eq_ignore_ascii_case`).
pub open spec fn eq_ignore_ascii_case_seq(a: Seq<char>, b: Seq<char>) -> bool {
    a.len() == b.len() && forall|i: int| 0 <= i < a.len() ==> ascii_lower(#[trigger] a[i])
        == ascii_lower(b[i])
}

fn lower_ascii_char(c: char) -> (r: char)
    ensures
        r == ascii_lower(c),
{
    let n = c as u32;
    if 65 <= n && n <= 90 {
        char_from_ascii(n + 32)
    } else {
        c
    }
}

fn char_from_ascii(n: u32) -> (c: char)
    requires
        97 <= n <= 122,
    ensures
        c == n as char,
{
    let letters = chars_of("abcdefghijklmnopqrstuvwxyz");
    proof {
        reveal_strlit("abcdefghijklmnopqrstuvwxyz");
    }
    let r = letters[(n - 97) as usize];
    assert(r == n as char);
    r
}

/// Whether two texts are equal ignoring ASCII case.
pub fn eq_ignore_ascii_case(a: &str, b: &str) -> (r: bool)
    ensures
        r == eq_ignore_ascii_case_seq(a@, b@),
{
    let x = chars_of(a);
    let y = chars_of(b);
    if x.len() != y.len() {
        return false;
    }
    for i in 0..x.len()
        invariant
            x@ == a@,
            y@ == b@,
            x@.len() == y@.len(),
            forall|j: int| 0 <= j < i ==> ascii_lower(#[trigger] x@[j]) == ascii_lower(y@[j]),
    {
        if lower_ascii_char(x[i]) != lower_ascii_char(y[i]) {
            return false;
        }
    }
    true
}

/// Whether an input is WAV by its extension (any ASCII case); whisper.cpp
/// reads only WAV, anything else is converted first.
pub open spec fn is_wav_seq(input: Seq<char>) -> bool {
    match path_extension(input) {
        Some(e) => eq_ignore_ascii_case_seq(e, "wav"@),
        None => false,
    }
}

/// Whether an input is WAV by its extension.
pub fn is_wav(input: &str) -> (r: bool)
    ensures
        r == is_wav_seq(input@),
{
    match extension(input) {
        Some(e) => eq_ignore_ascii_case(e.as_str(), "wav"),
        None => false,
    }
}

/// `<out_dir>/<ustem>_conv.wav`: the converted copy of a non-WAV input.
pub open spec fn converted_path_seq(out_dir: Seq<char>, ustem: Seq<char>) -> Seq<char> {
    path_join(out_dir, ustem + "_conv.wav"@)
}

/// `<out_dir>/<ustem>_`: the output prefix handed to whisper-cli.
pub open spec fn output_prefix_seq(out_dir: Seq<char>, ustem: Seq<char>) -> Seq<char> {
    path_join(out_dir, ustem + "_"@)
}

/// `<out_dir>/<ustem>_.json`: the JSON that whisper-cli writes for the prefix.
/// A prefix made by `unique_stem` has no `.` in its file name, so setting its
/// extension appends `.json`.
pub open spec fn result_json_seq(out_dir: Seq<char>, ustem: Seq<char>) -> Seq<char> {
    path_join(out_dir, ustem + "_.json"@)
}

fn join_suffixed(dir: &str, stem: &str, suffix: &str) -> (r: String)
    ensures
        r@ == path_join(dir@, stem@ + suffix@),
{
    let mut v = chars_of(stem);
    extend_str(&mut v, suffix);
    join(dir, string_of(&v).as_str())
}

/// The converted copy of a non-WAV input.
pub fn converted_path(out_dir: &str, ustem: &str) -> (r: String)
    ensures
        r@ == converted_path_seq(out_dir@, ustem@),
{
    join_suffixed(out_dir, ustem, "_conv.wav")
}

/// The output prefix handed to whisper-cli.
pub fn output_prefix(out_dir: &str, ustem: &str) -> (r: String)
    ensures
        r@ == output_prefix_seq(out_dir@, ustem@),
{
    join_suffixed(out_dir, ustem, "_")
}

/// The JSON result whisper-cli writes for the prefix.
pub fn result_json_path(out_dir: &str, ustem: &str) -> (r: String)
    ensures
        r@ == result_json_seq(out_dir@, ustem@),
{
    join_suffixed(out_dir, ustem, "_.json")
}

/// ffmpeg's arguments for converting `input` to 16 kHz mono 16-bit WAV at
/// `converted`, overwriting it.
pub open spec fn ffmpeg_args_seq(input: Seq<char>, converted: Seq<char>) -> Seq<Seq<char>> {
    seq![
        "-y"@,
        "-i"@,
        input,
        "-ar"@,
        "16000"@,
        "-ac"@,
        "1"@,
        "-sample_fmt"@,
        "s16"@,
        converted,
    ]
}

/// ffmpeg's arguments for the WAV conversion.
pub fn ffmpeg_args(input: &str, converted: &str) -> (r: Vec<String>)
    ensures
        string_views(r@) == ffmpeg_args_seq(input@, converted@),
{
    let mut r: Vec<String> = Vec::new();
    push_item(&mut r, "-y");
    push_item(&mut r, "-i");
    push_item(&mut r, input);
    push_item(&mut r, "-ar");
    push_item(&mut r, "16000");
    push_item(&mut r, "-ac");
    push_item(&mut r, "1");
    push_item(&mut r, "-sample_fmt");
    push_item(&mut r, "s16");
    push_item(&mut r, converted);
    assert(string_views(r@) =~= ffmpeg_args_seq(input@, converted@));
    r
}

/// Worker threads for whisper-cli: the physical cores, at least one.
pub fn thread_count(physical_cores: usize) -> (r: usize)
    ensures
        r == if physical_cores >= 1 {
            physical_cores
        } else {
            1
        },
{
    if physical_cores >= 1 {
        physical_cores
    } else {
        1
    }
}

/// whisper-cli's arguments: model, input, threads, JSON output at the prefix,
/// and the language when one was chosen.
pub open spec fn cli_args_seq(
    model: Seq<char>,
    input: Seq<char>,
    threads: nat,
    prefix: Seq<char>,
    language: Seq<char>,
) -> Seq<Seq<char>> {
    seq!["-m"@, model, "-f"@, input, "-t"@, dec_seq(threads), "-oj"@, "-of"@, prefix] + if language_given_seq(
        language,
    ) {
        seq!["-l"@, language]
    } else {
        Seq::empty()
    }
}

/// whisper-cli's arguments.
pub fn whisper_cli_args(
    model: &str,
    input: &str,
    threads: usize,
    prefix: &str,
    language: &str,
) -> (r: Vec<String>)
    ensures
        string_views(r@) == cli_args_seq(model@, input@, threads as nat, prefix@, language@),
{
    let mut r: Vec<String> = Vec::new();
    push_item(&mut r, "-m");
    push_item(&mut r, model);
    push_item(&mut r, "-f");
    push_item(&mut r, input);
    push_item(&mut r, "-t");
    push_item(&mut r, string_of(&decimal(threads as u64)).as_str());
    push_item(&mut r, "-oj");
    push_item(&mut r, "-of");
    push_item(&mut r, prefix);
    if language_given(language) {
        push_item(&mut r, "-l");
        push_item(&mut r, language);
    }
    assert(string_views(r@) =~= cli_args_seq(model@, input@, threads as nat, prefix@, language@));
    r
}

/// The segments of whisper-cli's JSON result (times already in
/// milliseconds), texts trimmed; none when the result has no transcription.
pub fn segments_from_output(transcription: Option<Vec<RawSegment>>) -> (segs: Vec<Segment>)
    ensures
        segments_view(segs@) == match transcription {
            Some(t) => trimmed_seq(t@),
            None => Seq::empty(),
        },
{
    match transcription {
        Some(t) => trimmed_segments(t.as_slice()),
        None => {
            let segs: Vec<Segment> = Vec::new();
            assert(segments_view(segs@) =~= Seq::empty());
            segs
        },
    }
}

/// The last line of a text, or `default` when it has none.
pub open spec fn last_line_or(text: Seq<char>, default: Seq<char>) -> Seq<char> {
    let ls = lines_seq(text);
    if ls.len() > 0 {
        ls.last()
    } else {
        default
    }
}

/// The error reported when ffmpeg fails: the last line of its error output.
pub open spec fn conversion_error_seq(stderr: Seq<char>) -> Seq<char> {
    "音频格式转换失败: "@ + last_line_or(stderr, "未知错误"@)
}

/// The error reported when ffmpeg fails to convert an input.
pub fn conversion_error(stderr: &str) -> (r: String)
    ensures
        r@ == conversion_error_seq(stderr@),
{
    let ls = lines(stderr);
    let mut v = chars_of("音频格式转换失败: ");
    if ls.len() > 0 {
        extend_str(&mut v, ls[ls.len() - 1].as_str());
    } else {
        extend_str(&mut v, "未知错误");
    }
    string_of(&v)
}

/// The error reported when the chosen model file is missing.
pub open spec fn missing_model_seq(model_path: Seq<char>, model: Seq<char>) -> Seq<char> {
    "模型文件缺失: "@ + model_path + "（当前选择模型: "@ + model + "）"@
}

/// The error reported when the chosen model file is missing.
pub fn missing_model_error(model_path: &str, model: &str) -> (r: String)
    ensures
        r@ == missing_model_seq(model_path@, model@),
{
    let mut v = chars_of("模型文件缺失: ");
    extend_str(&mut v, model_path);
    extend_str(&mut v, "（当前选择模型: ");
    extend_str(&mut v, model);
    extend_str(&mut v, "）");
    string_of(&v)
}

} // verus!
