use voice2text::engine::pick_tool;
use voice2text::engine::python_whisper::{compat_invocation, device_after_failure};
use voice2text::engine::python_whisper::{
    cached_model_names, detect, detect_full, devices, parse_pip_version, pip_fallbacks,
    python_fallbacks, python_version_from_output, resolve_pip_candidates, resolve_python_paths,
    run_error, whisper_args, whisper_cli_fallbacks,
};
use voice2text::engine::whisper_cpp::{
    binary_path, conversion_error, converted_path, eq_ignore_ascii_case, ffmpeg_args, is_wav,
    missing_model_error, model_path, output_prefix, result_json_path, sanitize, segments_from_output,
    stem_with_hash, thread_count, unique_stem, whisper_cli_args,
};
use voice2text::engine::{
    bundle_dir, bundled_tool_paths, language_given, select_engine, whisper_cpp_model_file,
    EngineKind, RawSegment,
};

fn strings(v: &[&str]) -> Vec<String> {
    v.iter().map(|s| s.to_string()).collect()
}

fn raw(start_ms: u64, end_ms: u64, text: &str) -> RawSegment {
    RawSegment { start_ms, end_ms, text: text.to_string() }
}

#[test]
fn engine_selection() {
    assert!(matches!(select_engine("standard"), Ok(EngineKind::Standard)));
    assert!(matches!(select_engine("compat"), Ok(EngineKind::Compat)));
    match select_engine("gpu") {
        Err(e) => assert_eq!(e, "未知引擎: gpu"),
        Ok(_) => panic!("unknown engine accepted"),
    }
}

#[test]
fn model_and_binary_paths() {
    assert_eq!(whisper_cpp_model_file("base"), "ggml-base.bin");
    assert_eq!(model_path("/data", "small"), "/data/models/ggml-small.bin");
    assert_eq!(binary_path("/data", None), "/data/bin/whisper-cli");
    assert_eq!(binary_path("/data", Some("/app/whisper-cli".to_string())), "/app/whisper-cli");
    assert_eq!(bundle_dir("whisper-cli"), "whisper-cli-bundle");
    assert_eq!(bundle_dir("ffmpeg"), "ffmpeg-bundle");
    assert_eq!(bundle_dir("whisper"), "ffmpeg-bundle");
    assert_eq!(
        bundled_tool_paths("/App.app/Contents/MacOS", "ffmpeg"),
        strings(&[
            "/App.app/Contents/MacOS/../Resources/resources/ffmpeg-bundle/ffmpeg",
            "/App.app/Contents/MacOS/../../resources/ffmpeg-bundle/ffmpeg",
        ])
    );
}

#[test]
fn temporary_names() {
    assert_eq!(sanitize("a b.c-d_e"), "a_b_c-d_e");
    assert_eq!(sanitize("中文录音1"), "中文录音1");
    assert_eq!(stem_with_hash("x y", 255), "x_y_000000ff");
    assert_eq!(stem_with_hash("x", 0x1234_5678_9abc), "x_123456789abc");
    let a = unique_stem("/one/song.m4a", "song");
    let b = unique_stem("/two/song.m4a", "song");
    assert!(a.starts_with("song_") && a.len() >= 13);
    assert_ne!(a, b);
    assert_eq!(a, unique_stem("/one/song.m4a", "song"));
    assert_eq!(converted_path("/tmp/v", "s_00"), "/tmp/v/s_00_conv.wav");
    assert_eq!(output_prefix("/tmp/v", "s_00"), "/tmp/v/s_00_");
    assert_eq!(result_json_path("/tmp/v", "s_00"), "/tmp/v/s_00_.json");
}

#[test]
fn wav_detection() {
    assert!(is_wav("/a/b.WAV"));
    assert!(is_wav("/a/b.wav"));
    assert!(!is_wav("/a/b.mp3"));
    assert!(!is_wav("/a/wav"));
    assert!(eq_ignore_ascii_case("WaV", "wav"));
    assert!(!eq_ignore_ascii_case("wave", "wav"));
}

#[test]
fn command_lines() {
    assert_eq!(
        ffmpeg_args("in.m4a", "out.wav"),
        strings(&["-y", "-i", "in.m4a", "-ar", "16000", "-ac", "1", "-sample_fmt", "s16", "out.wav"])
    );
    assert_eq!(
        whisper_cli_args("m.bin", "in.wav", 8, "/t/p_", "zh"),
        strings(&["-m", "m.bin", "-f", "in.wav", "-t", "8", "-oj", "-of", "/t/p_", "-l", "zh"])
    );
    assert_eq!(
        whisper_cli_args("m.bin", "in.wav", 1, "/t/p_", "auto"),
        strings(&["-m", "m.bin", "-f", "in.wav", "-t", "1", "-oj", "-of", "/t/p_"])
    );
    assert_eq!(thread_count(0), 1);
    assert_eq!(thread_count(10), 10);
    assert!(!language_given(""));
    assert!(!language_given("auto"));
    assert!(language_given("en"));
    assert_eq!(
        whisper_args("a.mp3", "base", "mps", "/tmp/o", ""),
        strings(&["a.mp3", "--model", "base", "--device", "mps", "--output_format", "json", "--output_dir", "/tmp/o"])
    );
    assert_eq!(
        whisper_args("a.mp3", "base", "cpu", "/tmp/o", "ja"),
        strings(&["a.mp3", "--model", "base", "--device", "cpu", "--output_format", "json", "--output_dir", "/tmp/o", "--language", "ja"])
    );
    assert_eq!(devices(true), strings(&["mps", "cpu"]));
    assert_eq!(devices(false), strings(&["cpu"]));
}

#[test]
fn engine_results() {
    let segs = segments_from_output(Some(vec![raw(0, 1200, "  hi "), raw(1200, 2000, "there\n")]));
    assert_eq!(segs.len(), 2);
    assert_eq!((segs[0].start_ms, segs[0].end_ms, segs[0].text.as_str()), (0, 1200, "hi"));
    assert_eq!(segs[1].text, "there");
    assert!(segments_from_output(None).is_empty());
    let py = voice2text::engine::python_whisper::segments_from_output(None, Some(" whole ".to_string()));
    assert_eq!(py.len(), 1);
    assert_eq!((py[0].start_ms, py[0].end_ms, py[0].text.as_str()), (0, 0, "whole"));
    let py2 = voice2text::engine::python_whisper::segments_from_output(Some(vec![raw(5, 6, " x ")]), Some("ignored".to_string()));
    assert_eq!(py2.len(), 1);
    assert_eq!(py2[0].text, "x");
    assert!(voice2text::engine::python_whisper::segments_from_output(None, None).is_empty());
}

#[test]
fn error_texts() {
    assert_eq!(conversion_error("warn\nInvalid data found\n"), "音频格式转换失败: Invalid data found");
    assert_eq!(conversion_error(""), "音频格式转换失败: 未知错误");
    assert_eq!(missing_model_error("/d/m.bin", "base"), "模型文件缺失: /d/m.bin（当前选择模型: base）");
    assert_eq!(run_error("mps", " boom \n"), "兼容引擎转写失败(device=mps): boom");
}

#[test]
fn compat_detection() {
    assert_eq!(detect(Some("/a".to_string()), Some("/b".to_string())), Some("/a".to_string()));
    assert_eq!(detect(None, Some("/b".to_string())), Some("/b".to_string()));
    let d = detect_full(
        Some("/bin/whisper".to_string()),
        Some(("/usr/bin/python3".to_string(), "py".to_string())),
        true,
        strings(&["base"]),
        Some("cli".to_string()),
    );
    assert_eq!(d.version, Some("cli".to_string()));
    let d2 = detect_full(None, Some(("/usr/bin/python3".to_string(), "py".to_string())), false, vec![], Some("cli".to_string()));
    assert_eq!(d2.version, Some("py".to_string()));
    assert_eq!(d2.python_path, Some("/usr/bin/python3".to_string()));
    let d3 = detect_full(None, None, false, vec![], None);
    assert_eq!((d3.python_path, d3.version), (None, None));
    assert!(!d2.ffmpeg_available);
    assert_eq!(python_version_from_output(true, " 20240930\n"), Some("20240930".to_string()));
    assert_eq!(python_version_from_output(true, "  \n"), None);
    assert_eq!(python_version_from_output(false, "1.0"), None);
}

#[test]
fn candidate_lists() {
    assert_eq!(whisper_cli_fallbacks(), strings(&["/opt/homebrew/bin/whisper", "/usr/local/bin/whisper"]));
    assert_eq!(python_fallbacks().len(), 5);
    assert_eq!(pip_fallbacks(), strings(&["/opt/homebrew/bin/pip3", "/opt/homebrew/bin/pip", "/usr/local/bin/pip3", "/usr/local/bin/pip"]));
    assert_eq!(
        resolve_python_paths(
            &strings(&["/usr/bin/python3", "/usr/bin/python3"]),
            &strings(&["/usr/bin/python3", "/opt/homebrew/bin/python3"])
        ),
        strings(&["/usr/bin/python3", "/opt/homebrew/bin/python3"])
    );
    assert_eq!(
        resolve_pip_candidates(strings(&["/x/pip3", "/x/pip3"]), &strings(&["/x/pip3", "/y/pip"])),
        strings(&["/x/pip3", "/x/pip3", "/y/pip"])
    );
}

#[test]
fn pip_version_and_models() {
    assert_eq!(
        parse_pip_version("Name: openai-whisper\nVersion: 20240930\nSummary: x\nVersion: 2"),
        Some("20240930".to_string())
    );
    assert_eq!(parse_pip_version("Version:Version: 1.2 \r\n"), Some("1.2".to_string()));
    assert_eq!(parse_pip_version("Name: x\n"), None);
    assert_eq!(
        cached_model_names(&strings(&["small.pt", "base.pt", "x.txt", ".pt", "tiny.pt", "large-v3.pt"])),
        strings(&["base", "large-v3", "small", "tiny"])
    );
}

#[test]
fn tool_lookup_priority() {
    let s = |x: &str| Some(x.to_string());
    assert_eq!(pick_tool(s("/b"), s("/w"), s("/f")), s("/b"));
    assert_eq!(pick_tool(None, s("/w"), s("/f")), s("/w"));
    assert_eq!(pick_tool(None, None, s("/f")), s("/f"));
    assert_eq!(pick_tool(None, None, None), None);
}

#[test]
fn compat_engine_runs_cli_or_python_module() {
    let cli = compat_invocation(Some("/usr/local/bin/whisper".to_string()), Some("/usr/bin/python3".to_string())).unwrap();
    assert_eq!(cli.program, "/usr/local/bin/whisper");
    assert!(cli.leading_args.is_empty());
    let py = compat_invocation(None, Some("/usr/bin/python3".to_string())).unwrap();
    assert_eq!(py.program, "/usr/bin/python3");
    assert_eq!(py.leading_args, vec!["-m".to_string(), "whisper".to_string()]);
    assert_eq!(
        compat_invocation(None, None).err(),
        Some("未检测到兼容引擎（本机 Python whisper），请安装或改用标准引擎".to_string())
    );
}

#[test]
fn devices_fall_back_to_cpu_once() {
    assert_eq!(device_after_failure(true, 0), Some("cpu".to_string()));
    assert_eq!(device_after_failure(true, 1), None);
    assert_eq!(device_after_failure(false, 0), None);
}
