//! The logic behind the interface's commands: which dropped files are audio
//! or video and where their results go, the state of the two engines, and
//! the debug log's line format.
use vstd::prelude::*;

use crate::engine::python_whisper::CompatDetection;
use crate::engine::{EngineAvailability, EngineStatus};
use crate::paths::{extension, opt_view, parent, path_extension, path_parent};
use crate::text::{chars_of, extend_str, lowercase_of, same_text, string_of, to_lowercase};

verus! {

/// An audio or video file to transcribe and the folder that receives its
/// `voice2text` results.
pub struct AudioEntry {
    pub path: String,
    pub output_base: String,
}

/// The extensions (lowercase) of the audio and video files handled.
pub open spec fn audio_ext_seq(e: Seq<char>) -> bool {
    ||| e == "mp3"@
    ||| e == "wav"@
    ||| e == "m4a"@
    ||| e == "flac"@
    ||| e == "ogg"@
    ||| e == "aac"@
    ||| e == "opus"@
    ||| e == "wma"@
    ||| e == "aiff"@
    ||| e == "mp4"@
    ||| e == "mov"@
    ||| e == "mkv"@
    ||| e == "webm"@
    ||| e == "amr"@
}

/// Whether a lowercase extension is one of the handled audio or video types.
pub fn is_audio_extension(e: &str) -> (r: bool)
    ensures
        r == audio_ext_seq(e@),
{
    same_text(e, "mp3") || same_text(e, "wav") || same_text(e, "m4a") || same_text(e, "flac")
        || same_text(e, "ogg") || same_text(e, "aac") || same_text(e, "opus") || same_text(e, "wma")
        || same_text(e, "aiff") || same_text(e, "mp4") || same_text(e, "mov") || same_text(e, "mkv")
        || same_text(e, "webm") || same_text(e, "amr")
}

/// Whether a path names an audio or video file, by its extension in any case.
pub open spec fn is_audio_seq(path: Seq<char>) -> bool {
    match path_extension(path) {
        Some(e) => audio_ext_seq(lowercase_of(e)),
        None => false,
    }
}

/// A path is audio or video exactly when it has an extension that, in lower
/// case, is one of mp3, wav, m4a, flac, ogg, aac, opus, wma, aiff, mp4, mov,
/// mkv, webm or amr.
pub proof fn law_audio_extensions(path: Seq<char>)
    ensures
        is_audio_seq(path) <==> (path_extension(path) matches Some(e) && {
            let l = lowercase_of(e);
            ||| l == "mp3"@
            ||| l == "wav"@
            ||| l == "m4a"@
            ||| l == "flac"@
            ||| l == "ogg"@
            ||| l == "aac"@
            ||| l == "opus"@
            ||| l == "wma"@
            ||| l == "aiff"@
            ||| l == "mp4"@
            ||| l == "mov"@
            ||| l == "mkv"@
            ||| l == "webm"@
            ||| l == "amr"@
        }),
{
}

/// Whether a path names an audio or video file.
pub fn is_audio(path: &str) -> (r: bool)
    ensures
        r == is_audio_seq(path@),
{
    match extension(path) {
        Some(e) => is_audio_extension(to_lowercase(e.as_str()).as_str()),
        None => false,
    }
}

/// The entry for a file: its results go to its parent folder. A file dropped
/// directly (`dropped`) with no parent sends them next to its own path; a
/// file found inside a dropped folder with no parent sends them to the empty
/// path.
pub open spec fn output_base_seq(path: Seq<char>, dropped: bool) -> Seq<char> {
    match path_parent(path) {
        Some(p) => p,
        None => if dropped {
            path
        } else {
            Seq::empty()
        },
    }
}

/// An audio or video file yields an entry for itself whose results go to
/// its parent folder; with no parent, next to itself when it was dropped
/// directly and to the empty path when it was found in a dropped folder. Any
/// other file yields no entry.
pub proof fn law_audio_entry_output_base(path: Seq<char>, dropped: bool, q: Seq<char>)
    ensures
        path_parent(path) == Some(q) ==> output_base_seq(path, dropped) == q,
        path_parent(path) is None && dropped ==> output_base_seq(path, dropped) == path,
        path_parent(path) is None && !dropped ==> output_base_seq(path, dropped).len() == 0,
{
}

/// The entry for a file that is not a folder, when it is audio or video.
pub fn audio_entry(path: &str, dropped: bool) -> (r: Option<AudioEntry>)
    ensures
        match r {
            Some(e) => is_audio_seq(path@) && e.path@ == path@ && e.output_base@ == output_base_seq(
                path@,
                dropped,
            ),
            None => !is_audio_seq(path@),
        },
{
    if !is_audio(path) {
        return None;
    }
    let output_base = match parent(path) {
        Some(p) => p,
        None => if dropped {
            path.to_string()
        } else {
            String::new()
        },
    };
    Some(AudioEntry { path: path.to_string(), output_base })
}

/// Whether a file in the models folder is a model: its extension is `bin`.
pub open spec fn is_model_file_seq(path: Seq<char>) -> bool {
    path_extension(path) == Some("bin"@)
}

/// Whether a file in the models folder is a model.
pub fn is_model_file(path: &str) -> (r: bool)
    ensures
        r == is_model_file_seq(path@),
{
    match extension(path) {
        Some(e) => same_text(e.as_str(), "bin"),
        None => false,
    }
}

/// The note on the standard engine.
pub open spec fn standard_note_seq(
    recommended: Seq<char>,
    has_recommended: bool,
    has_any: bool,
    bin_exists: bool,
) -> Option<Seq<char>> {
    if has_recommended {
        None
    } else if has_any {
        Some(
            "需要 "@ + recommended + " 模型（推荐），当前仅有其他模型。请点击「安装本地引擎」下载匹配模型"@,
        )
    } else if bin_exists {
        Some("引擎已就绪，但缺少模型文件，请点击「安装本地引擎」下载模型"@)
    } else {
        Some("未安装，请在设置中安装本地引擎"@)
    }
}

/// The standard engine's state. It is available only when its binary exists
/// and the model recommended for the machine is downloaded; any other model
/// alone does not make it ready.
pub fn standard_availability(
    binary: &str,
    bin_exists: bool,
    recommended_model_exists: bool,
    any_model_exists: bool,
    recommended: &str,
) -> (a: EngineAvailability)
    ensures
        a.available == (bin_exists && recommended_model_exists),
        opt_view(a.path) == (if bin_exists {
            Some(binary@)
        } else {
            None
        }),
        a.version is None,
        opt_view(a.note) == standard_note_seq(
            recommended@,
            bin_exists && recommended_model_exists,
            bin_exists && any_model_exists,
            bin_exists,
        ),
        a.ffmpeg_available is None,
        a.cached_models is None,
{
    let has_rec = bin_exists && recommended_model_exists;
    let has_any = bin_exists && any_model_exists;
    let note = if has_rec {
        None
    } else if has_any {
        let mut v = chars_of("需要 ");
        extend_str(&mut v, recommended);
        extend_str(&mut v, " 模型（推荐），当前仅有其他模型。请点击「安装本地引擎」下载匹配模型");
        Some(string_of(&v))
    } else if bin_exists {
        Some("引擎已就绪，但缺少模型文件，请点击「安装本地引擎」下载模型".to_string())
    } else {
        Some("未安装，请在设置中安装本地引擎".to_string())
    };
    EngineAvailability {
        available: has_rec,
        path: if bin_exists {
            Some(binary.to_string())
        } else {
            None
        },
        version: None,
        note,
        ffmpeg_available: None,
        cached_models: None,
    }
}

/// The note on the compatible engine.
pub open spec fn compat_note_seq(has_cli: bool, has_python: bool, ffmpeg: bool) -> Option<
    Seq<char>,
> {
    if !has_cli && has_python {
        None
    } else if has_cli && !ffmpeg {
        Some("whisper 已就绪，但缺少 ffmpeg（部分音频格式可能无法处理）"@)
    } else if !has_cli && !has_python {
        Some("未检测到兼容引擎"@)
    } else {
        None
    }
}

/// The compatible engine's state: available when the whisper command or a
/// Python that imports whisper was found (the latter is run as
/// `python -m whisper`).
pub fn compat_availability(d: CompatDetection) -> (a: EngineAvailability)
    ensures
        a.available == (d.cli_path is Some || d.python_path is Some),
        a.path == d.cli_path,
        a.version == d.version,
        opt_view(a.note) == compat_note_seq(
            d.cli_path is Some,
            d.python_path is Some,
            d.ffmpeg_available,
        ),
        a.ffmpeg_available == Some(d.ffmpeg_available),
        a.cached_models == Some(d.cached_models),
{
    let has_cli = d.cli_path.is_some();
    let has_python = d.python_path.is_some();
    let note = if !has_cli && has_python {
        None
    } else if has_cli && !d.ffmpeg_available {
        Some("whisper 已就绪，但缺少 ffmpeg（部分音频格式可能无法处理）".to_string())
    } else if !has_cli && !has_python {
        Some("未检测到兼容引擎".to_string())
    } else {
        None
    };
    EngineAvailability {
        available: has_cli || has_python,
        path: d.cli_path,
        version: d.version,
        note,
        ffmpeg_available: Some(d.ffmpeg_available),
        cached_models: Some(d.cached_models),
    }
}

/// The state of both engines, from what was found on disk: the standard
/// engine's binary and models, and the compatible engine's detection.
pub fn get_engine_status(
    binary: &str,
    bin_exists: bool,
    recommended_model_exists: bool,
    any_model_exists: bool,
    recommended: &str,
    compat: CompatDetection,
) -> (s: EngineStatus)
    ensures
        s.standard.available == (bin_exists && recommended_model_exists),
        opt_view(s.standard.note) == standard_note_seq(
            recommended@,
            bin_exists && recommended_model_exists,
            bin_exists && any_model_exists,
            bin_exists,
        ),
        opt_view(s.standard.path) == (if bin_exists {
            Some(binary@)
        } else {
            None
        }),
        s.standard.version is None,
        s.standard.ffmpeg_available is None,
        s.standard.cached_models is None,
        s.compat.available == (compat.cli_path is Some || compat.python_path is Some),
        s.compat.path == compat.cli_path,
        s.compat.version == compat.version,
        opt_view(s.compat.note) == compat_note_seq(
            compat.cli_path is Some,
            compat.python_path is Some,
            compat.ffmpeg_available,
        ),
        s.compat.ffmpeg_available == Some(compat.ffmpeg_available),
        s.compat.cached_models == Some(compat.cached_models),
{
    let standard = standard_availability(
        binary,
        bin_exists,
        recommended_model_exists,
        any_model_exists,
        recommended,
    );
    let compat = compat_availability(compat);
    EngineStatus { standard, compat }
}

/// A debug log line: `[<time>] <message>` and a line break.
pub open spec fn log_line_seq(timestamp: Seq<char>, message: Seq<char>) -> Seq<char> {
    "["@ + timestamp + "] "@ + message + "\n"@
}

/// A debug log line.
pub fn log_line(timestamp: &str, message: &str) -> (r: String)
    ensures
        r@ == log_line_seq(timestamp@, message@),
{
    let mut v = chars_of("[");
    extend_str(&mut v, timestamp);
    extend_str(&mut v, "] ");
    extend_str(&mut v, message);
    extend_str(&mut v, "\n");
    string_of(&v)
}

} // verus!
