//! The compatible engine: Python openai-whisper. Detection gathers what the
//! probes of the machine found (the `whisper` command, a Python that imports
//! whisper, pip's record of the package version, ffmpeg, cached models);
//! transcription runs the command with JSON output, on the MPS device first
//! when PyTorch reports it, then on the CPU.
use vstd::prelude::*;

use crate::engine::{
    language_given, language_given_seq, segments_view, trimmed_segments, trimmed_seq, RawSegment,
    Segment,
};
use crate::paths::{join, path_join};
use crate::text::{
    append_new, append_new_seq, chars_of, extend_str, lines, lines_seq, push_item, slice_chars,
    sort_texts, starts_with, starts_with_seq, string_of, string_views, strip_all_prefixes,
    texts_sorted, trim, trim_seq, trim_start_matches,
};

verus! {

/// What detection found of the compatible engine.
pub struct CompatDetection {
    /// The whisper command, if found.
    pub cli_path: Option<String>,
    /// A Python interpreter that imports whisper, if any.
    pub python_path: Option<String>,
    /// The openai-whisper version.
    pub version: Option<String>,
    /// Whether ffmpeg was found.
    pub ffmpeg_available: bool,
    /// Models cached under `~/.cache/whisper/`, sorted.
    pub cached_models: Vec<String>,
}

/// Where the whisper command is looked for after the bundle and `PATH`.
pub open spec fn whisper_cli_fallbacks_seq() -> Seq<Seq<char>> {
    seq!["/opt/homebrew/bin/whisper"@, "/usr/local/bin/whisper"@]
}

/// Where the whisper command is looked for after the bundle and `PATH`.
pub fn whisper_cli_fallbacks() -> (r: Vec<String>)
    ensures
        string_views(r@) == whisper_cli_fallbacks_seq(),
{
    let mut r: Vec<String> = Vec::new();
    push_item(&mut r, "/opt/homebrew/bin/whisper");
    push_item(&mut r, "/usr/local/bin/whisper");
    assert(string_views(r@) =~= whisper_cli_fallbacks_seq());
    r
}

/// The whisper command: what the tool lookup found, else what a second look
/// in the Homebrew directories found.
pub fn detect(resolved: Option<String>, second_look: Option<String>) -> (r: Option<String>)
    ensures
        r == match resolved {
            Some(p) => Some(p),
            None => second_look,
        },
{
    match resolved {
        Some(p) => Some(p),
        None => second_look,
    }
}

/// The version reported: the one pip records when the command was found,
/// else the one the Python module reports.
pub open spec fn chosen_version(
    cli_found: bool,
    cli_version: Option<String>,
    python_version: Option<String>,
) -> Option<String> {
    if cli_found {
        cli_version
    } else {
        python_version
    }
}

/// The version part of a Python probe's finding (interpreter, version).
pub open spec fn probe_version(python: Option<(String, String)>) -> Option<String> {
    match python {
        Some((_, v)) => Some(v),
        None => None,
    }
}

/// Gathers the detection results of the compatible engine. `python` is the
/// first interpreter that imports whisper, with the version it printed;
/// `cli_version` is pip's record of the package version, asked only when the
/// command was found.
pub fn detect_full(
    cli_path: Option<String>,
    python: Option<(String, String)>,
    ffmpeg_available: bool,
    cached_models: Vec<String>,
    cli_version: Option<String>,
) -> (d: CompatDetection)
    ensures
        d.cli_path == cli_path,
        d.python_path == match python {
            Some((p, _)) => Some(p),
            None => None::<String>,
        },
        d.version == chosen_version(cli_path is Some, cli_version, probe_version(python)),
        d.ffmpeg_available == ffmpeg_available,
        d.cached_models == cached_models,
{
    let (python_path, python_version) = match python {
        Some((p, v)) => (Some(p), Some(v)),
        None => (None, None),
    };
    let version = if cli_path.is_some() {
        cli_version
    } else {
        python_version
    };
    CompatDetection { cli_path, python_path, version, ffmpeg_available, cached_models }
}

/// The version a Python prints after `import whisper`: its trimmed output,
/// when the run succeeded and printed something.
pub open spec fn python_version_seq(success: bool, stdout: Seq<char>) -> Option<Seq<char>> {
    if success && trim_seq(stdout).len() > 0 {
        Some(trim_seq(stdout))
    } else {
        None
    }
}

/// The version a Python reports for whisper, from the outcome of its run.
pub fn python_version_from_output(success: bool, stdout: &str) -> (r: Option<String>)
    ensures
        match r {
            Some(v) => python_version_seq(success, stdout@) == Some(v@),
            None => python_version_seq(success, stdout@) is None,
        },
{
    if !success {
        return None;
    }
    let t = trim(stdout);
    if chars_of(t.as_str()).len() > 0 {
        Some(t)
    } else {
        None
    }
}

/// Interpreters tried after those on `PATH`, in order.
pub open spec fn python_fallbacks_seq() -> Seq<Seq<char>> {
    seq![
        "/opt/homebrew/bin/python3"@,
        "/opt/homebrew/bin/python"@,
        "/usr/local/bin/python3"@,
        "/usr/local/bin/python"@,
        "/usr/bin/python3"@,
    ]
}

/// Interpreters tried after those on `PATH`, in order.
pub fn python_fallbacks() -> (r: Vec<String>)
    ensures
        string_views(r@) == python_fallbacks_seq(),
{
    let mut r: Vec<String> = Vec::new();
    push_item(&mut r, "/opt/homebrew/bin/python3");
    push_item(&mut r, "/opt/homebrew/bin/python");
    push_item(&mut r, "/usr/local/bin/python3");
    push_item(&mut r, "/usr/local/bin/python");
    push_item(&mut r, "/usr/bin/python3");
    assert(string_views(r@) =~= python_fallbacks_seq());
    r
}

/// The interpreters to try: those `which` found for `python3` and `python`,
/// then the existing fallbacks, each path once.
pub fn resolve_python_paths(which_hits: &[String], existing_fallbacks: &[String]) -> (r: Vec<
    String,
>)
    ensures
        string_views(r@) == append_new_seq(
            append_new_seq(Seq::empty(), string_views(which_hits@)),
            string_views(existing_fallbacks@),
        ),
{
    let empty: Vec<String> = Vec::new();
    assert(string_views(empty@) =~= Seq::<Seq<char>>::empty());
    let first = append_new(empty, which_hits);
    append_new(first, existing_fallbacks)
}

/// pip executables tried after those on `PATH`, in order.
pub open spec fn pip_fallbacks_seq() -> Seq<Seq<char>> {
    seq![
        "/opt/homebrew/bin/pip3"@,
        "/opt/homebrew/bin/pip"@,
        "/usr/local/bin/pip3"@,
        "/usr/local/bin/pip"@,
    ]
}

/// pip executables tried after those on `PATH`, in order.
pub fn pip_fallbacks() -> (r: Vec<String>)
    ensures
        string_views(r@) == pip_fallbacks_seq(),
{
    let mut r: Vec<String> = Vec::new();
    push_item(&mut r, "/opt/homebrew/bin/pip3");
    push_item(&mut r, "/opt/homebrew/bin/pip");
    push_item(&mut r, "/usr/local/bin/pip3");
    push_item(&mut r, "/usr/local/bin/pip");
    assert(string_views(r@) =~= pip_fallbacks_seq());
    r
}

/// The pip executables to try: all that `which` found for `pip3` and `pip`,
/// then the existing fallbacks not among them yet.
pub fn resolve_pip_candidates(which_hits: Vec<String>, existing_fallbacks: &[String]) -> (r: Vec<
    String,
>)
    ensures
        string_views(r@) == append_new_seq(string_views(which_hits@), string_views(existing_fallbacks@)),
{
    append_new(which_hits, existing_fallbacks)
}

/// The package version in `pip show` output: the first line that starts with
/// `Version:`, without that label and trimmed.
pub open spec fn version_line(ls: Seq<Seq<char>>) -> Option<Seq<char>>
    decreases ls.len(),
{
    if ls.len() == 0 {
        None
    } else if starts_with_seq(ls[0], "Version:"@) {
        Some(trim_seq(strip_all_prefixes(ls[0], "Version:"@)))
    } else {
        version_line(ls.drop_first())
    }
}

/// The openai-whisper version recorded in `pip show` output.
pub fn parse_pip_version(output: &str) -> (r: Option<String>)
    ensures
        match r {
            Some(v) => version_line(lines_seq(output@)) == Some(v@),
            None => version_line(lines_seq(output@)) is None,
        },
{
    let ls = lines(output);
    let ghost all = string_views(ls@);
    assert(all.skip(0) == all);
    for i in 0..ls.len()
        invariant
            all == string_views(ls@),
            all == lines_seq(output@),
            version_line(all) == version_line(all.skip(i as int)),
    {
        assert(all.skip(i as int)[0] == ls@[i as int]@);
        assert(all.skip(i as int).drop_first() == all.skip(i + 1));
        if starts_with(ls[i].as_str(), "Version:") {
            let rest = trim_start_matches(ls[i].as_str(), "Version:");
            return Some(trim(rest.as_str()));
        }
    }
    assert(all.skip(ls@.len() as int).len() == 0);
    None
}

/// The model named by a cached file: `<name>.pt` names the model `<name>`.
pub open spec fn model_name_seq(file_name: Seq<char>) -> Option<Seq<char>> {
    if file_name.len() > 3 && file_name.skip(file_name.len() - 3) == ".pt"@ {
        Some(file_name.take(file_name.len() - 3))
    } else {
        None
    }
}

/// The models named by the cached files, in directory order.
pub open spec fn model_names_seq(names: Seq<Seq<char>>) -> Seq<Seq<char>>
    decreases names.len(),
{
    if names.len() == 0 {
        Seq::empty()
    } else {
        match model_name_seq(names.last()) {
            Some(m) => model_names_seq(names.drop_last()).push(m),
            None => model_names_seq(names.drop_last()),
        }
    }
}

/// The model named by a cached file name, if it is one.
pub fn model_name(file_name: &str) -> (r: Option<String>)
    ensures
        match r {
            Some(m) => model_name_seq(file_name@) == Some(m@),
            None => model_name_seq(file_name@) is None,
        },
{
    let v = chars_of(file_name);
    let n = v.len();
    if n > 3 && v[n - 3] == '.' && v[n - 2] == 'p' && v[n - 1] == 't' {
        proof {
            reveal_strlit(".pt");
        }
        assert(v@.skip(n - 3) =~= ".pt"@);
        Some(string_of(&slice_chars(&v, 0, n - 3)))
    } else {
        proof {
            reveal_strlit(".pt");
        }
        if n > 3 {
            assert(v@.skip(n - 3) != ".pt"@) by {
                if v@.skip(n - 3) == ".pt"@ {
                    assert(v@.skip(n - 3)[0] == v@[n - 3]);
                    assert(v@.skip(n - 3)[1] == v@[n - 2]);
                    assert(v@.skip(n - 3)[2] == v@[n - 1]);
                }
            }
        }
        None
    }
}

/// The cached models named by the files of the cache directory, sorted.
pub fn cached_model_names(file_names: &[String]) -> (r: Vec<String>)
    ensures
        texts_sorted(string_views(r@)),
        string_views(r@).to_multiset() == model_names_seq(string_views(file_names@)).to_multiset(),
{
    let mut models: Vec<String> = Vec::new();
    for i in 0..file_names.len()
        invariant
            string_views(models@) == model_names_seq(string_views(file_names@).take(i as int)),
    {
        assert(string_views(file_names@).take(i + 1).drop_last() =~= string_views(
            file_names@,
        ).take(i as int));
        assert(string_views(file_names@).take(i + 1).last() == file_names@[i as int]@);
        match model_name(file_names[i].as_str()) {
            Some(m) => push_item(&mut models, m.as_str()),
            None => {},
        }
    }
    assert(string_views(file_names@).take(file_names@.len() as int) =~= string_views(file_names@));
    sort_texts(models)
}

/// The whisper command's arguments: input, model, device, JSON output into
/// `out_dir`, and the language when one was chosen.
pub open spec fn whisper_args_seq(
    input: Seq<char>,
    model: Seq<char>,
    device: Seq<char>,
    out_dir: Seq<char>,
    language: Seq<char>,
) -> Seq<Seq<char>> {
    seq![
        input,
        "--model"@,
        model,
        "--device"@,
        device,
        "--output_format"@,
        "json"@,
        "--output_dir"@,
        out_dir,
    ] + if language_given_seq(language) {
        seq!["--language"@, language]
    } else {
        Seq::empty()
    }
}

/// The whisper command's arguments.
pub fn whisper_args(input: &str, model: &str, device: &str, out_dir: &str, language: &str) -> (r:
    Vec<String>)
    ensures
        string_views(r@) == whisper_args_seq(input@, model@, device@, out_dir@, language@),
{
    let mut r: Vec<String> = Vec::new();
    push_item(&mut r, input);
    push_item(&mut r, "--model");
    push_item(&mut r, model);
    push_item(&mut r, "--device");
    push_item(&mut r, device);
    push_item(&mut r, "--output_format");
    push_item(&mut r, "json");
    push_item(&mut r, "--output_dir");
    push_item(&mut r, out_dir);
    if language_given(language) {
        push_item(&mut r, "--language");
        push_item(&mut r, language);
    }
    assert(string_views(r@) =~= whisper_args_seq(input@, model@, device@, out_dir@, language@));
    r
}

/// `<out_dir>/<stem>.json`: where the command writes its result.
pub open spec fn result_json_seq(out_dir: Seq<char>, stem: Seq<char>) -> Seq<char> {
    path_join(out_dir, stem + ".json"@)
}

/// Where the command writes its result.
pub fn result_json_path(out_dir: &str, stem: &str) -> (r: String)
    ensures
        r@ == result_json_seq(out_dir@, stem@),
{
    let mut v = chars_of(stem);
    extend_str(&mut v, ".json");
    join(out_dir, string_of(&v).as_str())
}

/// The devices tried in turn: `mps` then `cpu` when MPS is available, else
/// `cpu` alone.
pub open spec fn devices_seq(mps_available: bool) -> Seq<Seq<char>> {
    if mps_available {
        seq!["mps"@, "cpu"@]
    } else {
        seq!["cpu"@]
    }
}

/// The devices tried in turn; a failure on MPS falls back to the CPU.
pub fn devices(mps_available: bool) -> (r: Vec<String>)
    ensures
        string_views(r@) == devices_seq(mps_available),
{
    let mut r: Vec<String> = Vec::new();
    if mps_available {
        push_item(&mut r, "mps");
    }
    push_item(&mut r, "cpu");
    assert(string_views(r@) =~= devices_seq(mps_available));
    r
}

/// The device to try after the run on the `tried`-th device failed: the
/// next one in turn, or none when that was the last (its error is then the
/// transcription's).
pub fn device_after_failure(mps_available: bool, tried: usize) -> (r: Option<String>)
    ensures
        match r {
            Some(d) => tried + 1 < devices_seq(mps_available).len() && d@ == devices_seq(
                mps_available,
            )[tried + 1],
            None => tried + 1 >= devices_seq(mps_available).len(),
        },
{
    let ds = devices(mps_available);
    assert(ds@.len() == string_views(ds@).len());
    if tried < ds.len() && tried + 1 < ds.len() {
        Some(ds[tried + 1].clone())
    } else {
        None
    }
}

/// The segments of the command's JSON result, texts trimmed; when it lists
/// no segments but a text, that text as one segment at time zero.
pub fn segments_from_output(segments: Option<Vec<RawSegment>>, text: Option<String>) -> (segs: Vec<
    Segment,
>)
    ensures
        segments_view(segs@) == match (segments, text) {
            (Some(s), _) => trimmed_seq(s@),
            (None, Some(t)) => seq![(0u64, 0u64, trim_seq(t@))],
            (None, None) => Seq::empty(),
        },
{
    match segments {
        Some(s) => trimmed_segments(s.as_slice()),
        None => {
            let mut segs: Vec<Segment> = Vec::new();
            match text {
                Some(t) => {
                    segs.push(Segment { start_ms: 0, end_ms: 0, text: trim(t.as_str()) });
                },
                None => {},
            }
            assert(segments_view(segs@) =~= match text {
                Some(t) => seq![(0u64, 0u64, trim_seq(t@))],
                None => Seq::empty(),
            });
            segs
        },
    }
}

/// The error reported when the command fails on a device.
pub open spec fn run_error_seq(device: Seq<char>, stderr: Seq<char>) -> Seq<char> {
    "兼容引擎转写失败(device="@ + device + "): "@ + trim_seq(stderr)
}

/// The error reported when the command fails on a device.
pub fn run_error(device: &str, stderr: &str) -> (r: String)
    ensures
        r@ == run_error_seq(device@, stderr@),
{
    let mut v = chars_of("兼容引擎转写失败(device=");
    extend_str(&mut v, device);
    extend_str(&mut v, "): ");
    extend_str(&mut v, trim(stderr).as_str());
    string_of(&v)
}

/// How the compatible engine is run: a program, and the arguments that come
/// before the transcription's own.
pub struct CompatInvocation {
    pub program: String,
    pub leading_args: Vec<String>,
}

/// The error when neither the whisper command nor a Python that imports
/// whisper was found.
pub open spec fn no_compat_engine_seq() -> Seq<char> {
    "未检测到兼容引擎（本机 Python whisper），请安装或改用标准引擎"@
}

/// How to run the compatible engine: the whisper command when it was found;
/// else `<python> -m whisper` with the interpreter that imports whisper;
/// else the error that no compatible engine is there.
pub fn compat_invocation(cli_path: Option<String>, python_path: Option<String>) -> (r: Result<
    CompatInvocation,
    String,
>)
    ensures
        match r {
            Ok(inv) => match cli_path {
                Some(c) => inv.program@ == c@ && inv.leading_args@.len() == 0,
                None => (python_path matches Some(p) && inv.program@ == p@) && string_views(
                    inv.leading_args@,
                ) == seq!["-m"@, "whisper"@],
            },
            Err(e) => cli_path is None && python_path is None && e@ == no_compat_engine_seq(),
        },
{
    match cli_path {
        Some(c) => Ok(CompatInvocation { program: c, leading_args: Vec::new() }),
        None => match python_path {
            Some(p) => {
                let mut args: Vec<String> = Vec::new();
                push_item(&mut args, "-m");
                push_item(&mut args, "whisper");
                assert(string_views(args@) =~= seq!["-m"@, "whisper"@]);
                Ok(CompatInvocation { program: p, leading_args: args })
            },
            None => Err("未检测到兼容引擎（本机 Python whisper），请安装或改用标准引擎".to_string()),
        },
    }
}

} // verus!
