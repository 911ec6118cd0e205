use voice2text::commands::{
    audio_entry, compat_availability, get_engine_status, is_audio, is_audio_extension,
    is_model_file, log_line, standard_availability,
};
use voice2text::engine::python_whisper::CompatDetection;

fn detection(cli: bool, python: bool, ffmpeg: bool) -> CompatDetection {
    CompatDetection {
        cli_path: if cli { Some("/bin/whisper".to_string()) } else { None },
        python_path: if python { Some("/usr/bin/python3".to_string()) } else { None },
        version: Some("1".to_string()),
        ffmpeg_available: ffmpeg,
        cached_models: vec!["base".to_string()],
    }
}

#[test]
fn audio_files() {
    assert!(is_audio("/x/Song.MP3"));
    assert!(is_audio("clip.webm"));
    assert!(!is_audio("/x/a.txt"));
    assert!(!is_audio("/x/noext"));
    assert!(is_audio_extension("amr"));
    assert!(!is_audio_extension("MP3"));
    let e = audio_entry("/x/a.wav", true).unwrap();
    assert_eq!((e.path.as_str(), e.output_base.as_str()), ("/x/a.wav", "/x"));
    assert!(audio_entry("/x/a.doc", true).is_none());
    let rel = audio_entry("a.wav", false).unwrap();
    assert_eq!(rel.output_base, "");
    assert!(is_model_file("/m/ggml-base.bin"));
    assert!(!is_model_file("/m/ggml-base.bin.part"));
}

#[test]
fn standard_engine_states() {
    let ready = standard_availability("/b/whisper-cli", true, true, true, "small");
    assert!(ready.available);
    assert_eq!(ready.path, Some("/b/whisper-cli".to_string()));
    assert_eq!(ready.note, None);
    let other = standard_availability("/b/whisper-cli", true, false, true, "small");
    assert!(!other.available);
    assert_eq!(
        other.note,
        Some("需要 small 模型（推荐），当前仅有其他模型。请点击「安装本地引擎」下载匹配模型".to_string())
    );
    let no_model = standard_availability("/b/whisper-cli", true, false, false, "base");
    assert_eq!(no_model.note, Some("引擎已就绪，但缺少模型文件，请点击「安装本地引擎」下载模型".to_string()));
    let none = standard_availability("/b/whisper-cli", false, true, true, "base");
    assert!(!none.available);
    assert_eq!(none.path, None);
    assert_eq!(none.note, Some("未安装，请在设置中安装本地引擎".to_string()));
}

#[test]
fn compat_engine_states() {
    let a = compat_availability(detection(true, false, false));
    assert!(a.available);
    assert_eq!(a.note, Some("whisper 已就绪，但缺少 ffmpeg（部分音频格式可能无法处理）".to_string()));
    assert_eq!(a.ffmpeg_available, Some(false));
    assert_eq!(a.cached_models, Some(vec!["base".to_string()]));
    let b = compat_availability(detection(false, true, false));
    assert!(b.available);
    assert_eq!(b.note, None);
    let c = compat_availability(detection(false, false, true));
    assert!(!c.available);
    assert_eq!(c.note, Some("未检测到兼容引擎".to_string()));
    let s = get_engine_status("/b", false, false, false, "base", detection(true, true, true));
    assert!(!s.standard.available);
    assert!(s.compat.available);
    assert_eq!(s.compat.path, Some("/bin/whisper".to_string()));
    assert_eq!(s.compat.note, None);
    assert_eq!(s.standard.version, None);
    assert_eq!(s.standard.ffmpeg_available, None);
    assert_eq!(s.standard.cached_models, None);
}

#[test]
fn debug_log_line() {
    assert_eq!(log_line("2024-01-02 03:04:05.006", "boom"), "[2024-01-02 03:04:05.006] boom\n");
}
