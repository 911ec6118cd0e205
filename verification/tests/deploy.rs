use voice2text::deploy::{clt_outcome, CltOutcome};
use voice2text::deploy::{
    binary_fetch_after_prebuilt, binary_fetch_first, cmake_install_result, ffmpeg_install_result,
    local_proxy_config_args, BinaryFetchStep, BrewInstall,
};
use voice2text::deploy::{
    build_verdict, clone_first, clone_next, model_fetch_first, model_fetch_next, prebuilt_first,
    prebuilt_next, submodule_next, CloneAction, CloneOutcome, ModelFetchAction, PrebuiltAction,
    PrebuiltOutcome, SubmoduleAction,
};
use voice2text::deploy::{
    binary_candidates, build_clone_url, build_result, clone_attempt_error, clone_failed,
    clone_percent, compat_plan, compile_failed, deploy_log_line, failure_message, ffmpeg_fallbacks,
    homebrew_mirror_envs, labelled, make_args, model_download_urls, model_percent, models_failed,
    module_proxy_config_args, not_found, pip_install_attempts, pip_programs, prebuilt_urls,
    probe_url, rank_mirrors, repo_mirrors, split_once, standard_plan, try_fallback_build,
    BinaryStep, BuildAttempt, CompatPlan,
};

fn strings(v: &[&str]) -> Vec<String> {
    v.iter().map(|s| s.to_string()).collect()
}

#[test]
fn clone_urls() {
    assert_eq!(build_clone_url("direct:github.com"), "https://github.com/ggml-org/whisper.cpp.git");
    assert_eq!(build_clone_url("proxy:gh-proxy.com"), "https://gh-proxy.com/https://github.com/ggml-org/whisper.cpp.git");
    assert_eq!(build_clone_url("rewrite:gitcode.com"), "https://gitcode.com/ggml-org/whisper.cpp.git");
    assert_eq!(build_clone_url("cloud:mirrors.aliyun.com"), "https://mirrors.aliyun.com/github/ggml-org/whisper.cpp.git");
    assert_eq!(build_clone_url("edu:mirrors.ustc.edu.cn"), "https://mirrors.ustc.edu.cn/git/ggml-org/whisper.cpp.git");
    assert_eq!(build_clone_url("other:x"), "https://github.com/ggml-org/whisper.cpp.git");
    assert_eq!(build_clone_url("nocolon"), "https://github.com/ggml-org/whisper.cpp.git");
    assert_eq!(probe_url("direct:github.com"), "https://github.com");
    assert_eq!(probe_url("edu:mirror.lzu.edu.cn"), "https://mirror.lzu.edu.cn");
    assert_eq!(probe_url("plain"), "https://github.com");
    assert_eq!(split_once("a:b:c", ':'), Some(("a".to_string(), "b:c".to_string())));
    assert_eq!(split_once("abc", ':'), None);
    let m = repo_mirrors();
    assert_eq!(m.len(), 22);
    assert_eq!(m[0], ("github.com".to_string(), "direct:github.com".to_string()));
    assert_eq!(m[21], ("南阳理工 NYIST".to_string(), "edu:mirror.nyist.edu.cn".to_string()));
}

#[test]
fn mirror_ranking_is_stable() {
    assert_eq!(rank_mirrors(&[3, 1, 2, 1]), vec![1, 3, 2, 0]);
    assert_eq!(rank_mirrors(&[]), Vec::<usize>::new());
    assert_eq!(rank_mirrors(&[5, 5, 5]), vec![0, 1, 2]);
}

#[test]
fn download_sources() {
    let urls = model_download_urls("base");
    assert_eq!(urls.len(), 5);
    assert_eq!(urls[0], ("huggingface.co".to_string(), "https://huggingface.co/ggerganov/whisper.cpp/resolve/main/ggml-base.bin".to_string()));
    assert_eq!(urls[4].1, "https://ghproxy.com/https://raw.githubusercontent.com/ggerganov/whisper.cpp/master/ggml-base.bin");
    let pre = prebuilt_urls();
    assert_eq!(pre[0], ("GitHub 直连".to_string(), "https://github.com/ggml-org/whisper.cpp/releases/latest/download/whisper-cli".to_string()));
    assert_eq!(pre[3].1, "https://github.akams.cn/https://github.com/ggml-org/whisper.cpp/releases/latest/download/whisper-cli");
    assert_eq!(homebrew_mirror_envs()[4], ("HOMEBREW_NO_AUTO_UPDATE".to_string(), "1".to_string()));
    assert_eq!(ffmpeg_fallbacks().len(), 3);
}

#[test]
fn pip_attempts() {
    assert_eq!(pip_programs(), strings(&["pip3", "pip", "python3"]));
    let a = pip_install_attempts("python3");
    assert_eq!(a.len(), 4);
    assert_eq!(a[0], strings(&["-m", "pip", "install", "-U", "openai-whisper", "-i", "https://pypi.tuna.tsinghua.edu.cn/simple"]));
    assert_eq!(a[3], strings(&["-m", "pip", "install", "-U", "openai-whisper"]));
    let b = pip_install_attempts("pip3");
    assert_eq!(b[1], strings(&["install", "-U", "openai-whisper", "-i", "https://mirrors.aliyun.com/pypi/simple"]));
}

#[test]
fn deployment_plans() {
    assert_eq!(compat_plan(true, true, false), CompatPlan::Ready);
    assert_eq!(compat_plan(true, false, true), CompatPlan::UseBundledFfmpeg);
    assert_eq!(compat_plan(true, false, false), CompatPlan::InstallFfmpeg);
    assert_eq!(compat_plan(false, true, true), CompatPlan::FullInstall { brew_ffmpeg: false });
    assert_eq!(compat_plan(false, false, false), CompatPlan::FullInstall { brew_ffmpeg: true });
    let p = standard_plan(true, true, false);
    assert!(p.ready);
    let q = standard_plan(false, false, true);
    assert!(!q.ready && q.binary == BinaryStep::CopyBundled && q.download_model);
    let r = standard_plan(false, true, false);
    assert!(r.binary == BinaryStep::Fetch && !r.download_model);
    let k = standard_plan(true, false, true);
    assert!(k.binary == BinaryStep::Keep && k.download_model);
}

#[test]
fn build_outcomes() {
    let ok = build_result(BuildAttempt::Finished { success: true, stderr: "w".to_string() }, None);
    assert!(ok.success && ok.stderr == "w");
    let first = BuildAttempt::Finished { success: false, stderr: "e1".to_string() };
    assert!(try_fallback_build(&first));
    let both = build_result(first, Some(BuildAttempt::Finished { success: false, stderr: "e2".to_string() }));
    assert!(!both.success);
    assert_eq!(both.stderr, "CoreML+Metal stderr:\ne1\n---\nMetal-only stderr:\ne2");
    let second_ok = build_result(
        BuildAttempt::Finished { success: false, stderr: "e1".to_string() },
        Some(BuildAttempt::Finished { success: true, stderr: "ok2".to_string() }),
    );
    assert!(second_ok.success && second_ok.stderr == "ok2");
    let no_start2 = build_result(
        BuildAttempt::Finished { success: false, stderr: "e1".to_string() },
        Some(BuildAttempt::NotStarted { error: "x".to_string() }),
    );
    assert_eq!(no_start2.stderr, "CoreML+Metal stderr:\ne1\n---\nMetal-only 启动失败: x");
    let none = BuildAttempt::NotStarted { error: "no make".to_string() };
    assert!(!try_fallback_build(&none));
    let r = build_result(none, None);
    assert!(!r.success);
    assert_eq!(r.stderr, "编译进程启动失败: no make");
    assert_eq!(make_args(true, 8), strings(&["WHISPER_COREML=1", "WHISPER_METAL=1", "-j", "8"]));
    assert_eq!(make_args(false, 4), strings(&["WHISPER_METAL=1", "-j", "4"]));
    assert_eq!(
        binary_candidates("/s"),
        strings(&["/s/whisper-cli", "/s/main", "/s/whisper", "/s/build/bin/whisper-cli", "/s/build/bin/main", "/s/build/bin/whisper"])
    );
}

#[test]
fn command_failures() {
    assert_eq!(failure_message("a\nb\nc\nd\ne\nf\ng\n", Some(1)), "b\nc\nd\ne\nf\ng");
    assert_eq!(failure_message("only\r\n", Some(1)), "only");
    assert_eq!(failure_message("", Some(-2)), "退出码 Some(-2)");
    assert_eq!(failure_message("\n", Some(3)), "退出码 Some(3)");
    assert_eq!(failure_message("", None), "退出码 None");
}

#[test]
fn progress_and_messages() {
    assert_eq!(clone_percent(0, 22), 15);
    assert_eq!(clone_percent(3, 22), 16);
    assert_eq!(clone_percent(21, 22), 22);
    assert_eq!(model_percent(2), 74);
    assert_eq!(models_failed("[x] y"), "所有 5 个模型镜像均失败: [x] y");
    assert_eq!(labelled("hf", "404"), "[hf] 404");
    assert_eq!(not_found("git"), "未找到 git，请先安装");
    assert!(clone_failed("e").ends_with("\n最后克隆错误: e"));
    assert_eq!(compile_failed("x"), "标准引擎编译失败。\n预编译下载不可用，源码编译也失败了。\n编译错误: x");
    assert_eq!(clone_attempt_error("GitCode", "克隆超时", "t"), "[GitCode] 克隆超时: t");
    assert_eq!(deploy_log_line("t", "OK", "done"), "[t] [deploy] OK done\n");
    assert_eq!(
        module_proxy_config_args("/s/.git/modules/ggml/config", "gh-proxy.com"),
        strings(&["config", "--file", "/s/.git/modules/ggml/config", "url.https://gh-proxy.com/https://github.com/.insteadOf", "https://github.com/"])
    );
}

#[test]
fn xcode_tools_outcome() {
    assert_eq!(clt_outcome(true, false, false), Ok(CltOutcome::Present));
    assert_eq!(clt_outcome(false, true, false), Ok(CltOutcome::InstallStarted));
    assert_eq!(clt_outcome(false, false, true), Ok(CltOutcome::CompilerFound));
    assert_eq!(
        clt_outcome(false, false, false),
        Err("未检测到 Xcode Command Line Tools 且自动安装失败。请手动运行: xcode-select --install 后重试。".to_string())
    );
}

#[test]
fn prebuilt_steps_keep_only_large_files() {
    let urls = prebuilt_urls();
    match prebuilt_first() {
        PrebuiltAction::Download { index, label, url, discard_previous } => {
            assert_eq!((index, discard_previous), (0, false));
            assert_eq!((label, url), urls[0].clone());
        }
        _ => panic!("the first step downloads"),
    }
    assert!(matches!(prebuilt_next(0, PrebuiltOutcome::Saved { size: Some(4097) }), PrebuiltAction::Install { index: 0 }));
    match prebuilt_next(0, PrebuiltOutcome::Saved { size: Some(4096) }) {
        PrebuiltAction::Download { index, label, url, discard_previous } => {
            assert_eq!((index, discard_previous), (1, true));
            assert_eq!((label, url), urls[1].clone());
        }
        _ => panic!("a file of 4096 bytes is too small"),
    }
    assert!(matches!(prebuilt_next(2, PrebuiltOutcome::Saved { size: None }), PrebuiltAction::Download { index: 3, .. }));
    match prebuilt_next(3, PrebuiltOutcome::Failed { error: "timeout".to_string() }) {
        PrebuiltAction::GiveUp { error } => assert_eq!(error, "预编译二进制下载失败: [github.akams.cn] timeout"),
        _ => panic!("no source is left"),
    }
    match prebuilt_next(3, PrebuiltOutcome::Saved { size: Some(10) }) {
        PrebuiltAction::GiveUp { error } => {
            assert_eq!(error, "预编译二进制下载失败: [github.akams.cn] 文件校验失败（过小或不存在）")
        }
        _ => panic!("no source is left"),
    }
}

#[test]
fn model_steps_walk_the_sources() {
    let urls = model_download_urls("base");
    match model_fetch_first("base") {
        ModelFetchAction::Download { index, label, url, percent, discard_previous } => {
            assert_eq!((index, percent, discard_previous), (0, 70, false));
            assert_eq!((label, url), urls[0].clone());
        }
        _ => panic!("the first step downloads"),
    }
    assert!(matches!(model_fetch_next("base", 0, Ok(())), ModelFetchAction::Done));
    match model_fetch_next("base", 1, Err("404".to_string())) {
        ModelFetchAction::Download { index, label, url, percent, discard_previous } => {
            assert_eq!((index, percent, discard_previous), (2, 74, true));
            assert_eq!((label, url), urls[2].clone());
        }
        _ => panic!("sources are left"),
    }
    match model_fetch_next("base", 4, Err("reset".to_string())) {
        ModelFetchAction::GiveUp { error } => assert_eq!(error, "所有 5 个模型镜像均失败: [ghproxy.com RAW] reset"),
        _ => panic!("no source is left"),
    }
}

#[test]
fn clone_steps_walk_the_ranked_mirrors() {
    let mirrors = vec![
        ("GitCode".to_string(), "rewrite:gitcode.com".to_string()),
        ("github.com".to_string(), "direct:github.com".to_string()),
    ];
    match clone_first(&mirrors) {
        CloneAction::Clone { index, label, url, percent, discard_previous } => {
            assert_eq!((index, percent, discard_previous), (0, 15, false));
            assert_eq!(label, "GitCode");
            assert_eq!(url, "https://gitcode.com/ggml-org/whisper.cpp.git");
        }
        _ => panic!("the first step clones"),
    }
    match clone_next(&mirrors, 0, CloneOutcome::Failed { stderr: "denied".to_string() }) {
        CloneAction::Clone { index, label, url, percent, discard_previous } => {
            assert_eq!((index, percent, discard_previous), (1, 19, true));
            assert_eq!(label, "github.com");
            assert_eq!(url, "https://github.com/ggml-org/whisper.cpp.git");
        }
        _ => panic!("a mirror is left"),
    }
    assert!(matches!(clone_next(&mirrors, 1, CloneOutcome::Succeeded), CloneAction::Cloned { index: 1 }));
    match clone_next(&mirrors, 1, CloneOutcome::Interrupted { error: "clone timeout".to_string() }) {
        CloneAction::GiveUp { error, discard_previous } => {
            assert!(discard_previous);
            assert_eq!(error, clone_failed("[github.com] 克隆超时: clone timeout"));
        }
        _ => panic!("no mirror is left"),
    }
    match clone_next(&mirrors, 1, CloneOutcome::NotStarted { error: "no git".to_string() }) {
        CloneAction::GiveUp { error, .. } => assert_eq!(error, clone_failed("[github.com] 启动 git clone 失败: no git")),
        _ => panic!("no mirror is left"),
    }
    match clone_first(&[]) {
        CloneAction::GiveUp { error, discard_previous } => {
            assert!(!discard_previous);
            assert_eq!(error, clone_failed(""));
        }
        _ => panic!("there is no mirror"),
    }
}

#[test]
fn submodule_steps_try_each_proxy_then_a_last_time() {
    assert!(matches!(submodule_next(0, true), SubmoduleAction::Stop));
    let hosts: Vec<String> = (0..3)
        .map(|k| match submodule_next(k, false) {
            SubmoduleAction::UseProxy { host } => host,
            _ => panic!("a proxy is left"),
        })
        .collect();
    assert_eq!(hosts, strings(&["ghproxy.com", "gh-proxy.com", "github.akams.cn"]));
    match submodule_next(3, false) {
        SubmoduleAction::LastResort { host } => assert_eq!(host, "ghproxy.com"),
        _ => panic!("the proxies are used up"),
    }
    assert!(matches!(submodule_next(4, false), SubmoduleAction::Stop));
    assert!(matches!(submodule_next(2, true), SubmoduleAction::Stop));
}

#[test]
fn build_verdicts() {
    assert_eq!(build_verdict(true, Some("/src/build/bin/whisper-cli".to_string()), ""), Ok("/src/build/bin/whisper-cli".to_string()));
    assert_eq!(build_verdict(true, None, "x"), Err("编译通过但未找到可执行文件产物，请稍后重试。".to_string()));
    assert_eq!(build_verdict(false, Some("/a".to_string()), "boom"), Err(compile_failed("boom")));
}

#[test]
fn clone_url_starts_with_probed_host() {
    for (_, tag) in repo_mirrors() {
        let probe = probe_url(&tag) + "/";
        assert!(build_clone_url(&tag).starts_with(&probe), "{}", tag);
    }
    assert!(build_clone_url("no-kind").starts_with(&(probe_url("no-kind") + "/")));
}

#[test]
fn local_proxy_config_names_the_host() {
    assert_eq!(
        local_proxy_config_args("gh-proxy.com"),
        strings(&["config", "--local", "url.https://gh-proxy.com/https://github.com/.insteadOf", "https://github.com/"])
    );
    assert_eq!(local_proxy_config_args("ghproxy.com")[2], "url.https://ghproxy.com/https://github.com/.insteadOf");
}

#[test]
fn brew_install_results() {
    assert_eq!(ffmpeg_install_result(BrewInstall::Installed), Ok(()));
    assert_eq!(
        ffmpeg_install_result(BrewInstall::NoBrew),
        Err("ffmpeg 不可用，且未检测到 Homebrew。\n请确保已安装 ffmpeg 或 Homebrew。".to_string())
    );
    assert_eq!(
        ffmpeg_install_result(BrewInstall::Failed { error: "exit 1".to_string() }),
        Err("安装 ffmpeg 失败：exit 1".to_string())
    );
    assert_eq!(cmake_install_result(BrewInstall::Installed, true), Ok(()));
    assert_eq!(cmake_install_result(BrewInstall::Installed, false), Err("cmake 安装完成但未找到，请检查 PATH".to_string()));
    assert_eq!(
        cmake_install_result(BrewInstall::Failed { error: "x".to_string() }, false),
        Err("安装 cmake 失败：x。请手动运行 brew install cmake 后重试".to_string())
    );
    assert_eq!(
        cmake_install_result(BrewInstall::NoBrew, false),
        Err("编译 whisper.cpp 需要 cmake，但您的 Mac 上未安装 cmake 且没有 Homebrew。请手动安装 Homebrew（https://brew.sh）后重试。".to_string())
    );
}

#[test]
fn binary_fetch_steps() {
    assert!(matches!(binary_fetch_first(true), BinaryFetchStep::Reuse));
    assert!(matches!(binary_fetch_first(false), BinaryFetchStep::TryPrebuilt));
    assert!(matches!(binary_fetch_after_prebuilt(Ok(())), BinaryFetchStep::Done));
    match binary_fetch_after_prebuilt(Err("boom".to_string())) {
        BinaryFetchStep::BuildFromSource { note } => assert_eq!(note, "预编译下载失败，回退源码编译... (boom)"),
        _ => panic!("the build follows"),
    }
}
