//! Transcription engines: the shared data model, engine selection, the
//! lookup of bundled tools, and the two engines' command lines and results.
pub mod python_whisper;
pub mod whisper_cpp;

use vstd::prelude::*;

use crate::paths::{join, path_join};
use crate::text::{same_text, string_of, string_views, trim, trim_seq, chars_of, extend_str};

verus! {

/// One transcribed segment. Times are whole milliseconds from the start of the
/// audio.
pub struct Segment {
    pub start_ms: u64,
    pub end_ms: u64,
    pub text: String,
}

/// A segment as an engine reports it, before its text is trimmed.
pub struct RawSegment {
    pub start_ms: u64,
    pub end_ms: u64,
    pub text: String,
}

/// Transcription options chosen in the interface.
pub struct TranscribeOptions {
    /// `standard` (whisper.cpp) or `compat` (Python openai-whisper).
    pub engine: String,
    /// Model key or size, such as `base`, `small`, `medium`.
    pub model: String,
    /// `auto` or a whisper language code such as `zh` or `en`.
    pub language: String,
    /// Requested output formats: `md`, `srt`, `vtt`, `txt`, `prompt`, `rtf`.
    pub output_formats: Vec<String>,
    /// Number of files transcribed at once.
    pub parallel: u32,
}

/// Whether one engine can be used, and what is known of it.
pub struct EngineAvailability {
    pub available: bool,
    pub path: Option<String>,
    pub version: Option<String>,
    pub note: Option<String>,
    /// Whether ffmpeg was found (compatible engine only).
    pub ffmpeg_available: Option<bool>,
    /// Models cached under `~/.cache/whisper/` (compatible engine only).
    pub cached_models: Option<Vec<String>>,
}

/// The state of both engines.
pub struct EngineStatus {
    pub standard: EngineAvailability,
    pub compat: EngineAvailability,
}

/// The two engines.
#[derive(Clone, Copy, Debug, PartialEq, Eq, Structural)]
pub enum EngineKind {
    /// whisper.cpp command-line binary.
    Standard,
    /// Python openai-whisper.
    Compat,
}

/// The engine named by `engine`, or the error text for an unknown name.
pub open spec fn engine_choice(engine: Seq<char>) -> Result<EngineKind, Seq<char>> {
    if engine == "standard"@ {
        Ok(EngineKind::Standard)
    } else if engine == "compat"@ {
        Ok(EngineKind::Compat)
    } else {
        Err("未知引擎: "@ + engine)
    }
}

/// Dispatches on the engine name of the options.
pub fn select_engine(engine: &str) -> (r: Result<EngineKind, String>)
    ensures
        match (r, engine_choice(engine@)) {
            (Ok(k), Ok(j)) => k == j,
            (Err(e), Err(f)) => e@ == f,
            _ => false,
        },
{
    if same_text(engine, "standard") {
        Ok(EngineKind::Standard)
    } else if same_text(engine, "compat") {
        Ok(EngineKind::Compat)
    } else {
        let mut v = chars_of("未知引擎: ");
        extend_str(&mut v, engine);
        Err(string_of(&v))
    }
}

/// whisper.cpp model key to its ggml file name.
pub open spec fn model_file_seq(model: Seq<char>) -> Seq<char> {
    "ggml-"@ + model + ".bin"@
}

/// The ggml file name of a whisper.cpp model key: `ggml-<model>.bin`.
pub fn whisper_cpp_model_file(model: &str) -> (r: String)
    ensures
        r@ == model_file_seq(model@),
{
    let mut v = chars_of("ggml-");
    extend_str(&mut v, model);
    extend_str(&mut v, ".bin");
    string_of(&v)
}

/// The resources sub-directory that holds a bundled tool.
pub open spec fn bundle_dir_seq(tool: Seq<char>) -> Seq<char> {
    if tool == "whisper-cli"@ {
        "whisper-cli-bundle"@
    } else {
        "ffmpeg-bundle"@
    }
}

/// The resources sub-directory that holds a bundled tool: `whisper-cli-bundle`
/// for whisper-cli, `ffmpeg-bundle` for anything else.
pub fn bundle_dir(tool: &str) -> (r: String)
    ensures
        r@ == bundle_dir_seq(tool@),
{
    if same_text(tool, "whisper-cli") {
        "whisper-cli-bundle".to_string()
    } else {
        "ffmpeg-bundle".to_string()
    }
}

/// Where a tool bundled with the application lies, relative to the directory
/// of the running executable: first inside the installed app
/// (`../Resources/resources/<bundle>/<tool>`), then in the development tree
/// (`../../resources/<bundle>/<tool>`).
pub open spec fn bundled_paths_seq(exe_dir: Seq<char>, tool: Seq<char>) -> Seq<Seq<char>> {
    seq![
        path_join(path_join(path_join(exe_dir, "../Resources/resources"@), bundle_dir_seq(tool)), tool),
        path_join(path_join(path_join(exe_dir, "../../resources"@), bundle_dir_seq(tool)), tool),
    ]
}

/// The places where a bundled tool is looked for first, in order.
pub fn bundled_tool_paths(exe_dir: &str, tool: &str) -> (r: Vec<String>)
    ensures
        string_views(r@) == bundled_paths_seq(exe_dir@, tool@),
{
    let dir = bundle_dir(tool);
    let installed = join(join(join(exe_dir, "../Resources/resources").as_str(), dir.as_str()).as_str(), tool);
    let dev = join(join(join(exe_dir, "../../resources").as_str(), dir.as_str()).as_str(), tool);
    let mut r: Vec<String> = Vec::new();
    r.push(installed);
    r.push(dev);
    assert(string_views(r@) =~= bundled_paths_seq(exe_dir@, tool@));
    r
}

/// Whether a language was chosen: anything but empty or `auto`.
pub open spec fn language_given_seq(language: Seq<char>) -> bool {
    language.len() > 0 && language != "auto"@
}

/// Whether a language was chosen (an empty value and `auto` mean detection).
pub fn language_given(language: &str) -> (r: bool)
    ensures
        r == language_given_seq(language@),
{
    let v = chars_of(language);
    v.len() > 0 && !same_text(language, "auto")
}

/// Segments with their texts trimmed.
pub open spec fn trimmed_seq(raw: Seq<RawSegment>) -> Seq<(u64, u64, Seq<char>)> {
    Seq::new(raw.len(), |i: int| (raw[i].start_ms, raw[i].end_ms, trim_seq(raw[i].text@)))
}

/// The (start, end, text) of segments.
pub open spec fn segments_view(segs: Seq<Segment>) -> Seq<(u64, u64, Seq<char>)> {
    Seq::new(segs.len(), |i: int| (segs[i].start_ms, segs[i].end_ms, segs[i].text@))
}

/// The engine's segments with their texts trimmed, in order.
pub fn trimmed_segments(raw: &[RawSegment]) -> (segs: Vec<Segment>)
    ensures
        segments_view(segs@) == trimmed_seq(raw@),
{
    let mut segs: Vec<Segment> = Vec::new();
    for i in 0..raw.len()
        invariant
            segs@.len() == i,
            segments_view(segs@) == trimmed_seq(raw@).take(i as int),
    {
        let r = &raw[i];
        let s = Segment { start_ms: r.start_ms, end_ms: r.end_ms, text: trim(r.text.as_str()) };
        let ghost before = segs@;
        let ghost sv = (s.start_ms, s.end_ms, s.text@);
        assert(trimmed_seq(raw@)[i as int] == sv);
        segs.push(s);
        assert(segments_view(segs@)[i as int] == sv);
        assert forall|k: int| 0 <= k < i implies segments_view(segs@)[k] == segments_view(before)[k] by {
            assert(segs@[k] == before[k]);
        }
        assert(segments_view(segs@) =~= trimmed_seq(raw@).take(i + 1));
    }
    assert(trimmed_seq(raw@).take(raw@.len() as int) =~= trimmed_seq(raw@));
    segs
}

/// The tool found by the three-level lookup: the copy bundled with the
/// application first, then the one on `PATH`, then the first existing
/// fallback path.
pub fn pick_tool(bundled: Option<String>, on_path: Option<String>, fallback: Option<String>) -> (r:
    Option<String>)
    ensures
        r == match bundled {
            Some(b) => Some(b),
            None => match on_path {
                Some(p) => Some(p),
                None => fallback,
            },
        },
{
    match bundled {
        Some(b) => Some(b),
        None => match on_path {
            Some(p) => Some(p),
            None => fallback,
        },
    }
}

} // verus!
