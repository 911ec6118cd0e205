//! Deploying the engines: the mirrors for the whisper.cpp sources and the
//! models, the order in which they are tried, the commands run, and the
//! decisions of the deployment flows. The network, the processes and the
//! files are handled by the caller.
use vstd::prelude::*;

use crate::engine::{model_file_seq, whisper_cpp_model_file};
use crate::paths::{join, path_join};
use crate::text::{
    chars_of, dec_seq, decimal, extend_chars, extend_str, join_with, lines, lines_seq, push_item,
    same_text, slice_chars, starts_with_seq, string_of, string_views,
};

verus! {

/// The owner of the whisper.cpp repository.
pub const REPO_OWNER: &'static str = "ggml-org";

/// The name of the whisper.cpp repository.
pub const REPO_NAME: &'static str = "whisper.cpp";

/// The (label, text) pairs of a list of string pairs.
pub open spec fn pairs_view(v: Seq<(String, String)>) -> Seq<(Seq<char>, Seq<char>)> {
    Seq::new(v.len(), |i: int| (v[i].0@, v[i].1@))
}

fn push_pair(v: &mut Vec<(String, String)>, a: &str, b: &str)
    ensures
        pairs_view(final(v)@) == pairs_view(old(v)@).push((a@, b@)),
{
    let ghost before = pairs_view(v@);
    v.push((a.to_string(), b.to_string()));
    assert(pairs_view(v@) =~= before.push((a@, b@)));
}

/// The clone mirrors as (label, tag), in their listed order. A tag is
/// `<kind>:<host>`, the kind being `direct` (GitHub), `proxy` (a Git clone
/// proxy put before the GitHub URL), `rewrite` (a host standing in for
/// GitHub), `cloud` (a cloud vendor's mirror) or `edu` (a university mirror).
pub open spec fn repo_mirrors_seq() -> Seq<(Seq<char>, Seq<char>)> {
    seq![
        ("github.com"@, "direct:github.com"@),
        ("GitCode"@, "rewrite:gitcode.com"@),
        ("gh-proxy.com"@, "proxy:gh-proxy.com"@),
        ("ghproxy.com"@, "proxy:ghproxy.com"@),
        ("github.akams.cn"@, "rewrite:github.akams.cn"@),
        ("kgithub.com"@, "rewrite:kgithub.com"@),
        ("阿里云镜像"@, "cloud:mirrors.aliyun.com"@),
        ("华为云镜像"@, "cloud:mirrors.huaweicloud.com"@),
        ("腾讯云镜像"@, "cloud:mirrors.cloud.tencent.com"@),
        ("微软 Azure 中国"@, "cloud:mirror.azure.cn"@),
        ("中科大 USTC"@, "edu:mirrors.ustc.edu.cn"@),
        ("上海交大 SJTUG"@, "edu:mirrors.sjtug.sjtu.edu.cn"@),
        ("北京外国语 BFSU"@, "edu:mirrors.bfsu.edu.cn"@),
        ("浙江大学 ZJU"@, "edu:mirrors.zju.edu.cn"@),
        ("哈工大 HIT"@, "edu:mirrors.hit.edu.cn"@),
        ("南京大学 NJU"@, "edu:mirrors.nju.edu.cn"@),
        ("山东大学 SDU"@, "edu:mirrors.sdu.edu.cn"@),
        ("南方科大 SUSTech"@, "edu:mirrors.sustech.edu.cn"@),
        ("西北农林 NWAFU"@, "edu:mirrors.nwafu.edu.cn"@),
        ("兰州大学 LZU"@, "edu:mirror.lzu.edu.cn"@),
        ("北京交大 BJTU"@, "edu:mirror.bjtu.edu.cn"@),
        ("南阳理工 NYIST"@, "edu:mirror.nyist.edu.cn"@),
    ]
}

/// The clone mirrors as (label, tag), in their listed order.
pub fn repo_mirrors() -> (r: Vec<(String, String)>)
    ensures
        pairs_view(r@) == repo_mirrors_seq(),
{
    let mut r: Vec<(String, String)> = Vec::new();
    push_pair(&mut r, "github.com", "direct:github.com");
    push_pair(&mut r, "GitCode", "rewrite:gitcode.com");
    push_pair(&mut r, "gh-proxy.com", "proxy:gh-proxy.com");
    push_pair(&mut r, "ghproxy.com", "proxy:ghproxy.com");
    push_pair(&mut r, "github.akams.cn", "rewrite:github.akams.cn");
    push_pair(&mut r, "kgithub.com", "rewrite:kgithub.com");
    push_pair(&mut r, "阿里云镜像", "cloud:mirrors.aliyun.com");
    push_pair(&mut r, "华为云镜像", "cloud:mirrors.huaweicloud.com");
    push_pair(&mut r, "腾讯云镜像", "cloud:mirrors.cloud.tencent.com");
    push_pair(&mut r, "微软 Azure 中国", "cloud:mirror.azure.cn");
    push_pair(&mut r, "中科大 USTC", "edu:mirrors.ustc.edu.cn");
    push_pair(&mut r, "上海交大 SJTUG", "edu:mirrors.sjtug.sjtu.edu.cn");
    push_pair(&mut r, "北京外国语 BFSU", "edu:mirrors.bfsu.edu.cn");
    push_pair(&mut r, "浙江大学 ZJU", "edu:mirrors.zju.edu.cn");
    push_pair(&mut r, "哈工大 HIT", "edu:mirrors.hit.edu.cn");
    push_pair(&mut r, "南京大学 NJU", "edu:mirrors.nju.edu.cn");
    push_pair(&mut r, "山东大学 SDU", "edu:mirrors.sdu.edu.cn");
    push_pair(&mut r, "南方科大 SUSTech", "edu:mirrors.sustech.edu.cn");
    push_pair(&mut r, "西北农林 NWAFU", "edu:mirrors.nwafu.edu.cn");
    push_pair(&mut r, "兰州大学 LZU", "edu:mirror.lzu.edu.cn");
    push_pair(&mut r, "北京交大 BJTU", "edu:mirror.bjtu.edu.cn");
    push_pair(&mut r, "南阳理工 NYIST", "edu:mirror.nyist.edu.cn");
    assert(pairs_view(r@) =~= repo_mirrors_seq());
    r
}

/// The index of the first `c` in `s` at or after `from`.
pub open spec fn first_index_from(s: Seq<char>, c: char, from: int) -> Option<int>
    decreases s.len() - from,
{
    if from < 0 || from >= s.len() {
        None
    } else if s[from] == c {
        Some(from)
    } else {
        first_index_from(s, c, from + 1)
    }
}

/// `s` split at its first `c` into the parts before and after it (as std's
/// `str::split_once` with a character).
pub open spec fn split_once_seq(s: Seq<char>, c: char) -> Option<(Seq<char>, Seq<char>)> {
    match first_index_from(s, c, 0) {
        Some(i) => Some((s.take(i), s.skip(i + 1))),
        None => None,
    }
}

proof fn lemma_first_index_range(s: Seq<char>, c: char, from: int)
    ensures
        first_index_from(s, c, from) matches Some(i) ==> from <= i < s.len() && s[i] == c,
    decreases s.len() - from,
{
    if 0 <= from < s.len() && s[from] != c {
        lemma_first_index_range(s, c, from + 1);
    }
}

/// Splits a text at its first `c`.
pub fn split_once(s: &str, c: char) -> (r: Option<(String, String)>)
    ensures
        match r {
            Some((a, b)) => split_once_seq(s@, c) == Some((a@, b@)),
            None => split_once_seq(s@, c) is None,
        },
{
    let v = chars_of(s);
    let mut i: usize = 0;
    while i < v.len()
        invariant
            v@ == s@,
            i <= v@.len(),
            first_index_from(s@, c, 0) == first_index_from(s@, c, i as int),
        decreases v@.len() - i,
    {
        if v[i] == c {
            return Some((string_of(&slice_chars(&v, 0, i)), string_of(&slice_chars(&v, i + 1, v.len()))));
        }
        i = i + 1;
    }
    None
}

/// `https://github.com/ggml-org/whisper.cpp.git`.
pub open spec fn github_clone_url() -> Seq<char> {
    "https://github.com/"@ + REPO_OWNER@ + "/"@ + REPO_NAME@ + ".git"@
}

/// The clone URL of a mirror, by the kind and host of its tag; a tag of
/// unknown kind or without `:` means GitHub itself.
pub open spec fn clone_url_seq(tag: Seq<char>) -> Seq<char> {
    let repo = REPO_OWNER@ + "/"@ + REPO_NAME@ + ".git"@;
    match split_once_seq(tag, ':') {
        Some((kind, host)) => if kind == "proxy"@ {
            "https://"@ + host + "/https://github.com/"@ + repo
        } else if kind == "rewrite"@ {
            "https://"@ + host + "/"@ + repo
        } else if kind == "cloud"@ {
            "https://"@ + host + "/github/"@ + repo
        } else if kind == "edu"@ {
            "https://"@ + host + "/git/"@ + repo
        } else {
            github_clone_url()
        },
        None => github_clone_url(),
    }
}

/// The clone URL of a mirror tag.
pub fn build_clone_url(tag: &str) -> (r: String)
    ensures
        r@ == clone_url_seq(tag@),
{
    let mut repo = chars_of(REPO_OWNER);
    extend_str(&mut repo, "/");
    extend_str(&mut repo, REPO_NAME);
    extend_str(&mut repo, ".git");
    let mut out: Vec<char> = Vec::new();
    match split_once(tag, ':') {
        Some((kind, host)) => {
            if same_text(kind.as_str(), "proxy") {
                extend_str(&mut out, "https://");
                extend_str(&mut out, host.as_str());
                extend_str(&mut out, "/https://github.com/");
                extend_chars(&mut out, &repo);
            } else if same_text(kind.as_str(), "rewrite") {
                extend_str(&mut out, "https://");
                extend_str(&mut out, host.as_str());
                extend_str(&mut out, "/");
                extend_chars(&mut out, &repo);
            } else if same_text(kind.as_str(), "cloud") {
                extend_str(&mut out, "https://");
                extend_str(&mut out, host.as_str());
                extend_str(&mut out, "/github/");
                extend_chars(&mut out, &repo);
            } else if same_text(kind.as_str(), "edu") {
                extend_str(&mut out, "https://");
                extend_str(&mut out, host.as_str());
                extend_str(&mut out, "/git/");
                extend_chars(&mut out, &repo);
            } else {
                extend_str(&mut out, "https://github.com/");
                extend_chars(&mut out, &repo);
            }
        },
        None => {
            extend_str(&mut out, "https://github.com/");
            extend_chars(&mut out, &repo);
        },
    }
    string_of(&out)
}

/// The URL timed to rank a mirror: its host's root (GitHub for `direct` or a
/// tag without `:`).
pub open spec fn probe_url_seq(tag: Seq<char>) -> Seq<char> {
    match split_once_seq(tag, ':') {
        Some((kind, host)) => if kind == "direct"@ {
            "https://github.com"@
        } else {
            "https://"@ + host
        },
        None => "https://github.com"@,
    }
}

/// The URL timed to rank a mirror.
pub fn probe_url(tag: &str) -> (r: String)
    ensures
        r@ == probe_url_seq(tag@),
{
    match split_once(tag, ':') {
        Some((kind, host)) => if same_text(kind.as_str(), "direct") {
            "https://github.com".to_string()
        } else {
            let mut v = chars_of("https://");
            extend_str(&mut v, host.as_str());
            string_of(&v)
        },
        None => "https://github.com".to_string(),
    }
}

/// For a tag of a known kind (or with no kind at all), the host whose
/// latency is timed is the one the clone goes to: the clone URL begins with
/// the probe URL and a `/`.
pub proof fn law_clone_url_extends_probe_url(tag: Seq<char>)
    requires
        split_once_seq(tag, ':') matches Some((kind, _)) ==> (kind == "direct"@ || kind
            == "proxy"@ || kind == "rewrite"@ || kind == "cloud"@ || kind == "edu"@),
    ensures
        starts_with_seq(clone_url_seq(tag), probe_url_seq(tag) + "/"@),
{
    reveal_strlit("https://github.com/");
    reveal_strlit("https://github.com");
    reveal_strlit("/");
    reveal_strlit("/https://github.com/");
    reveal_strlit("/github/");
    reveal_strlit("/git/");
    reveal_strlit("direct");
    reveal_strlit("proxy");
    reveal_strlit("rewrite");
    reveal_strlit("cloud");
    reveal_strlit("edu");
    let repo = REPO_OWNER@ + "/"@ + REPO_NAME@ + ".git"@;
    let p = probe_url_seq(tag) + "/"@;
    let c = clone_url_seq(tag);
    let rest: Seq<char> = match split_once_seq(tag, ':') {
        Some((kind, host)) => if kind == "proxy"@ {
            "https://github.com/"@ + repo
        } else if kind == "rewrite"@ {
            repo
        } else if kind == "cloud"@ {
            "github/"@ + repo
        } else if kind == "edu"@ {
            "git/"@ + repo
        } else {
            REPO_OWNER@ + "/"@ + REPO_NAME@ + ".git"@
        },
        None => REPO_OWNER@ + "/"@ + REPO_NAME@ + ".git"@,
    };
    reveal_strlit("github/");
    reveal_strlit("git/");
    assert("/https://github.com/"@ =~= "/"@ + "https://github.com/"@);
    assert("/github/"@ =~= "/"@ + "github/"@);
    assert("/git/"@ =~= "/"@ + "git/"@);
    assert("direct"@.len() == 6 && "proxy"@.len() == 5 && "rewrite"@.len() == 7);
    assert("cloud"@.len() == 5 && "edu"@.len() == 3);
    assert("https://github.com/"@ =~= "https://github.com"@ + "/"@);
    match split_once_seq(tag, ':') {
        Some((kind, host)) => {
            if kind == "proxy"@ {
                assert(c =~= p + rest);
            } else if kind == "rewrite"@ {
                assert(c =~= p + rest);
            } else if kind == "cloud"@ {
                assert(c =~= p + rest);
            } else if kind == "edu"@ {
                assert(c =~= p + rest);
            } else {
                assert(kind == "direct"@);
                assert(c =~= p + rest);
            }
        },
        None => {
            assert(c =~= p + rest);
        },
    }
    assert(c.take(p.len() as int) =~= p);
}

/// Mirror `a` is tried before mirror `b`: it answered faster, or as fast and
/// is listed earlier.
pub open spec fn ranked_before(lat: Seq<u64>, a: int, b: int) -> bool {
    lat[a] < lat[b] || (lat[a] == lat[b] && a < b)
}

/// Whether `order` lists every mirror once, fastest first (ties in listed
/// order).
pub open spec fn is_ranking(lat: Seq<u64>, order: Seq<usize>) -> bool {
    &&& order.len() == lat.len()
    &&& forall|i: int| 0 <= i < order.len() ==> #[trigger] order[i] < lat.len()
    &&& forall|i: int, j: int|
        0 <= i < j < order.len() ==> ranked_before(lat, #[trigger] order[i] as int, #[trigger] order[j] as int)
}

/// A ranking names every mirror exactly once: its entries are distinct
/// indices below the number of mirrors, as many as there are mirrors.
pub proof fn law_ranking_lists_each_once(lat: Seq<u64>, order: Seq<usize>)
    requires
        is_ranking(lat, order),
    ensures
        order.len() == lat.len(),
        forall|i: int| 0 <= i < order.len() ==> #[trigger] order[i] < lat.len(),
        forall|i: int, j: int| 0 <= i < j < order.len() ==> #[trigger] order[i] != #[trigger] order[j],
{
    assert forall|i: int, j: int| 0 <= i < j < order.len() implies #[trigger] order[i] != #[trigger] order[j] by {
        assert(ranked_before(lat, order[i] as int, order[j] as int));
    }
}

/// The order in which the mirrors are tried, from the time each took to
/// answer (a stable sort by time: the mirrors are listed once each, fastest
/// first, ties in their listed order).
pub fn rank_mirrors(latencies: &[u64]) -> (order: Vec<usize>)
    ensures
        is_ranking(latencies@, order@),
{
    let mut order: Vec<usize> = Vec::new();
    let n = latencies.len();
    for i in 0..n
        invariant
            n == latencies@.len(),
            order@.len() == i,
            forall|k: int| 0 <= k < order@.len() ==> #[trigger] order@[k] < i,
            forall|a: int, b: int|
                0 <= a < b < order@.len() ==> ranked_before(
                    latencies@,
                    #[trigger] order@[a] as int,
                    #[trigger] order@[b] as int,
                ),
    {
        let ghost old_o = order@;
        let mut pos: usize = 0;
        while pos < order.len() && latencies[order[pos]] <= latencies[i]
            invariant
                n == latencies@.len(),
                i < n,
                old_o == order@,
                pos <= order@.len(),
                forall|k: int| 0 <= k < order@.len() ==> #[trigger] order@[k] < i,
                forall|k: int| 0 <= k < pos ==> latencies@[#[trigger] order@[k] as int] <= latencies@[i as int],
            decreases order@.len() - pos,
        {
            pos = pos + 1;
        }
        order.insert(pos, i);
        let ghost o = order@;
        assert(o =~= old_o.insert(pos as int, i));
        assert forall|k: int| 0 <= k < o.len() implies #[trigger] o[k] < i + 1 by {
            if k < pos {
                assert(o[k] == old_o[k]);
            } else if k > pos {
                assert(o[k] == old_o[k - 1]);
            }
        }
        assert forall|a: int, b: int| 0 <= a < b < o.len() implies ranked_before(
            latencies@,
            #[trigger] o[a] as int,
            #[trigger] o[b] as int,
        ) by {
            if b < pos {
                assert(o[a] == old_o[a] && o[b] == old_o[b]);
            } else if b == pos {
                assert(o[a] == old_o[a]);
                assert(latencies@[old_o[a] as int] <= latencies@[i as int]);
            } else if a < pos {
                assert(o[a] == old_o[a] && o[b] == old_o[b - 1]);
                assert(latencies@[old_o[a] as int] <= latencies@[i as int]);
                assert(latencies@[old_o[pos as int] as int] > latencies@[i as int]);
                if b - 1 > pos {
                    assert(ranked_before(latencies@, old_o[pos as int] as int, old_o[b - 1] as int));
                }
            } else if a == pos {
                assert(o[b] == old_o[b - 1]);
                assert(latencies@[old_o[pos as int] as int] > latencies@[i as int]);
                if b - 1 > pos {
                    assert(ranked_before(latencies@, old_o[pos as int] as int, old_o[b - 1] as int));
                }
            } else {
                assert(o[a] == old_o[a - 1] && o[b] == old_o[b - 1]);
            }
        }
    }
    order
}

/// The model mirrors as (label, base URL), in the order they are tried.
pub open spec fn model_bases_seq() -> Seq<(Seq<char>, Seq<char>)> {
    seq![
        ("huggingface.co"@, "https://huggingface.co/ggerganov/whisper.cpp/resolve/main/"@),
        ("hf-mirror.com"@, "https://hf-mirror.com/ggerganov/whisper.cpp/resolve/main/"@),
        ("modelscope.cn"@, "https://www.modelscope.cn/models/BlueSeaAI/whisper.cpp/resolve/master/"@),
        ("github.akams.cn"@, "https://github.akams.cn/https://raw.githubusercontent.com/ggerganov/whisper.cpp/master/"@),
        ("ghproxy.com RAW"@, "https://ghproxy.com/https://raw.githubusercontent.com/ggerganov/whisper.cpp/master/"@),
    ]
}

/// The download sources of a model as (label, URL): each mirror's base URL
/// followed by the model's ggml file name, in the order they are tried.
pub open spec fn model_urls_seq(model: Seq<char>) -> Seq<(Seq<char>, Seq<char>)> {
    Seq::new(
        model_bases_seq().len(),
        |i: int| (model_bases_seq()[i].0, model_bases_seq()[i].1 + model_file_seq(model)),
    )
}

fn push_url(v: &mut Vec<(String, String)>, label: &str, base: &str, file: &str)
    ensures
        pairs_view(final(v)@) == pairs_view(old(v)@).push((label@, base@ + file@)),
{
    let mut u = chars_of(base);
    extend_str(&mut u, file);
    let url = string_of(&u);
    push_pair(v, label, url.as_str());
}

/// The download sources of a model, in the order they are tried.
pub fn model_download_urls(model: &str) -> (r: Vec<(String, String)>)
    ensures
        pairs_view(r@) == model_urls_seq(model@),
{
    let file = whisper_cpp_model_file(model);
    let f = file.as_str();
    let mut r: Vec<(String, String)> = Vec::new();
    push_url(&mut r, "huggingface.co", "https://huggingface.co/ggerganov/whisper.cpp/resolve/main/", f);
    push_url(&mut r, "hf-mirror.com", "https://hf-mirror.com/ggerganov/whisper.cpp/resolve/main/", f);
    push_url(&mut r, "modelscope.cn", "https://www.modelscope.cn/models/BlueSeaAI/whisper.cpp/resolve/master/", f);
    push_url(&mut r, "github.akams.cn", "https://github.akams.cn/https://raw.githubusercontent.com/ggerganov/whisper.cpp/master/", f);
    push_url(&mut r, "ghproxy.com RAW", "https://ghproxy.com/https://raw.githubusercontent.com/ggerganov/whisper.cpp/master/", f);
    assert(pairs_view(r@) =~= model_urls_seq(model@));
    r
}

/// The error when every model mirror failed: their number and the last error.
pub open spec fn models_failed_seq(last_error: Seq<char>) -> Seq<char> {
    "所有 "@ + dec_seq(model_bases_seq().len()) + " 个模型镜像均失败: "@ + last_error
}

/// The error when every model mirror failed.
pub fn models_failed(last_error: &str) -> (r: String)
    ensures
        r@ == models_failed_seq(last_error@),
{
    let mut v = chars_of("所有 ");
    extend_chars(&mut v, &decimal(5));
    extend_str(&mut v, " 个模型镜像均失败: ");
    extend_str(&mut v, last_error);
    string_of(&v)
}

/// `[<label>] <error>`: the error of one mirror.
pub open spec fn labelled_seq(label: Seq<char>, error: Seq<char>) -> Seq<char> {
    "["@ + label + "] "@ + error
}

/// The error of one mirror, labelled with it.
pub fn labelled(label: &str, error: &str) -> (r: String)
    ensures
        r@ == labelled_seq(label@, error@),
{
    let mut v = chars_of("[");
    extend_str(&mut v, label);
    extend_str(&mut v, "] ");
    extend_str(&mut v, error);
    string_of(&v)
}

/// The prebuilt whisper-cli downloads as (label, URL), in the order they are
/// tried: GitHub's latest release directly, then through three proxies.
pub open spec fn prebuilt_urls_seq() -> Seq<(Seq<char>, Seq<char>)> {
    let release = "https://github.com/"@ + REPO_OWNER@ + "/"@ + REPO_NAME@
        + "/releases/latest/download/whisper-cli"@;
    seq![
        ("GitHub 直连"@, release),
        ("ghproxy.com"@, "https://ghproxy.com/"@ + release),
        ("gh-proxy.com"@, "https://gh-proxy.com/"@ + release),
        ("github.akams.cn"@, "https://github.akams.cn/"@ + release),
    ]
}

/// The prebuilt whisper-cli downloads, in the order they are tried.
pub fn prebuilt_urls() -> (r: Vec<(String, String)>)
    ensures
        pairs_view(r@) == prebuilt_urls_seq(),
{
    let mut rel = chars_of("https://github.com/");
    extend_str(&mut rel, REPO_OWNER);
    extend_str(&mut rel, "/");
    extend_str(&mut rel, REPO_NAME);
    extend_str(&mut rel, "/releases/latest/download/whisper-cli");
    let release = string_of(&rel);
    let mut r: Vec<(String, String)> = Vec::new();
    push_url(&mut r, "GitHub 直连", "", release.as_str());
    push_url(&mut r, "ghproxy.com", "https://ghproxy.com/", release.as_str());
    push_url(&mut r, "gh-proxy.com", "https://gh-proxy.com/", release.as_str());
    push_url(&mut r, "github.akams.cn", "https://github.akams.cn/", release.as_str());
    proof {
        reveal_strlit("");
        assert(""@ + release@ =~= release@);
    }
    assert(pairs_view(r@) =~= prebuilt_urls_seq());
    r
}

/// The environment that points Homebrew at the USTC mirrors and turns off
/// its self-update.
pub open spec fn homebrew_mirror_envs_seq() -> Seq<(Seq<char>, Seq<char>)> {
    seq![
        ("HOMEBREW_BREW_GIT_REMOTE"@, "https://mirrors.ustc.edu.cn/brew.git"@),
        ("HOMEBREW_CORE_GIT_REMOTE"@, "https://mirrors.ustc.edu.cn/homebrew-core.git"@),
        ("HOMEBREW_API_DOMAIN"@, "https://mirrors.ustc.edu.cn/homebrew-bottles/api"@),
        ("HOMEBREW_BOTTLE_DOMAIN"@, "https://mirrors.ustc.edu.cn/homebrew-bottles"@),
        ("HOMEBREW_NO_AUTO_UPDATE"@, "1"@),
    ]
}

/// The Homebrew mirror environment, as (variable, value).
pub fn homebrew_mirror_envs() -> (r: Vec<(String, String)>)
    ensures
        pairs_view(r@) == homebrew_mirror_envs_seq(),
{
    let mut r: Vec<(String, String)> = Vec::new();
    push_pair(&mut r, "HOMEBREW_BREW_GIT_REMOTE", "https://mirrors.ustc.edu.cn/brew.git");
    push_pair(&mut r, "HOMEBREW_CORE_GIT_REMOTE", "https://mirrors.ustc.edu.cn/homebrew-core.git");
    push_pair(&mut r, "HOMEBREW_API_DOMAIN", "https://mirrors.ustc.edu.cn/homebrew-bottles/api");
    push_pair(&mut r, "HOMEBREW_BOTTLE_DOMAIN", "https://mirrors.ustc.edu.cn/homebrew-bottles");
    push_pair(&mut r, "HOMEBREW_NO_AUTO_UPDATE", "1");
    assert(pairs_view(r@) =~= homebrew_mirror_envs_seq());
    r
}

/// The package index mirrors tried in turn for `pip install`: Tsinghua,
/// Aliyun and USTC, then the official index.
pub open spec fn pip_indexes_seq() -> Seq<Option<Seq<char>>> {
    seq![
        Some("https://pypi.tuna.tsinghua.edu.cn/simple"@),
        Some("https://mirrors.aliyun.com/pypi/simple"@),
        Some("https://mirrors.ustc.edu.cn/pypi/simple"@),
        None,
    ]
}

/// The programs that can run pip, tried in turn: `pip3`, `pip`, `python3`.
pub open spec fn pip_programs_seq() -> Seq<Seq<char>> {
    seq!["pip3"@, "pip"@, "python3"@]
}

/// The programs that can run pip, tried in turn.
pub fn pip_programs() -> (r: Vec<String>)
    ensures
        string_views(r@) == pip_programs_seq(),
{
    let mut r: Vec<String> = Vec::new();
    push_item(&mut r, "pip3");
    push_item(&mut r, "pip");
    push_item(&mut r, "python3");
    assert(string_views(r@) =~= pip_programs_seq());
    r
}

/// The arguments that install openai-whisper with `program` from `index`
/// (`python3` runs pip as a module).
pub open spec fn pip_install_args_seq(program: Seq<char>, index: Option<Seq<char>>) -> Seq<Seq<char>> {
    (if program == "python3"@ {
        seq!["-m"@, "pip"@]
    } else {
        Seq::empty()
    }) + seq!["install"@, "-U"@, "openai-whisper"@] + match index {
        Some(i) => seq!["-i"@, i],
        None => Seq::empty(),
    }
}

/// The argument lists of the install attempts of a program, one per index
/// mirror, in order.
pub open spec fn pip_attempts_seq(program: Seq<char>) -> Seq<Seq<Seq<char>>> {
    Seq::new(4, |i: int| pip_install_args_seq(program, pip_indexes_seq()[i]))
}

/// The argument lists of several commands.
pub open spec fn arg_lists_view(v: Seq<Vec<String>>) -> Seq<Seq<Seq<char>>> {
    Seq::new(v.len(), |i: int| string_views(v[i]@))
}

fn pip_install_args(program: &str, index: Option<&str>) -> (r: Vec<String>)
    ensures
        string_views(r@) == pip_install_args_seq(
            program@,
            match index {
                Some(i) => Some(i@),
                None => None,
            },
        ),
{
    let mut r: Vec<String> = Vec::new();
    if same_text(program, "python3") {
        push_item(&mut r, "-m");
        push_item(&mut r, "pip");
    }
    push_item(&mut r, "install");
    push_item(&mut r, "-U");
    push_item(&mut r, "openai-whisper");
    match index {
        Some(i) => {
            push_item(&mut r, "-i");
            push_item(&mut r, i);
        },
        None => {},
    }
    assert(string_views(r@) =~= pip_install_args_seq(
        program@,
        match index {
            Some(i) => Some(i@),
            None => None,
        },
    ));
    r
}

/// The install attempts of a program that can run pip, in order.
pub fn pip_install_attempts(program: &str) -> (r: Vec<Vec<String>>)
    ensures
        arg_lists_view(r@) == pip_attempts_seq(program@),
{
    let mut r: Vec<Vec<String>> = Vec::new();
    r.push(pip_install_args(program, Some("https://pypi.tuna.tsinghua.edu.cn/simple")));
    r.push(pip_install_args(program, Some("https://mirrors.aliyun.com/pypi/simple")));
    r.push(pip_install_args(program, Some("https://mirrors.ustc.edu.cn/pypi/simple")));
    r.push(pip_install_args(program, None));
    assert(arg_lists_view(r@) =~= pip_attempts_seq(program@));
    r
}

/// Where ffmpeg is looked for after the bundle and `PATH`.
pub open spec fn ffmpeg_fallbacks_seq() -> Seq<Seq<char>> {
    seq!["/opt/homebrew/bin/ffmpeg"@, "/usr/local/bin/ffmpeg"@, "/opt/local/bin/ffmpeg"@]
}

/// Where ffmpeg is looked for after the bundle and `PATH`.
pub fn ffmpeg_fallbacks() -> (r: Vec<String>)
    ensures
        string_views(r@) == ffmpeg_fallbacks_seq(),
{
    let mut r: Vec<String> = Vec::new();
    push_item(&mut r, "/opt/homebrew/bin/ffmpeg");
    push_item(&mut r, "/usr/local/bin/ffmpeg");
    push_item(&mut r, "/opt/local/bin/ffmpeg");
    assert(string_views(r@) =~= ffmpeg_fallbacks_seq());
    r
}

/// Where the compatible engine's deployment looks for ffmpeg after the bundle
/// and `PATH` (the Homebrew locations only).
pub open spec fn deploy_ffmpeg_fallbacks_seq() -> Seq<Seq<char>> {
    seq!["/opt/homebrew/bin/ffmpeg"@, "/usr/local/bin/ffmpeg"@]
}

/// Where the compatible engine's deployment looks for ffmpeg.
pub fn deploy_ffmpeg_fallbacks() -> (r: Vec<String>)
    ensures
        string_views(r@) == deploy_ffmpeg_fallbacks_seq(),
{
    let mut r: Vec<String> = Vec::new();
    push_item(&mut r, "/opt/homebrew/bin/ffmpeg");
    push_item(&mut r, "/usr/local/bin/ffmpeg");
    assert(string_views(r@) =~= deploy_ffmpeg_fallbacks_seq());
    r
}

/// What deploying the compatible engine does.
#[derive(Clone, Copy, Debug, PartialEq, Eq, Structural)]
pub enum CompatPlan {
    /// whisper and ffmpeg are both present: nothing to do.
    Ready,
    /// whisper is present and ffmpeg ships with the application: nothing to
    /// install.
    UseBundledFfmpeg,
    /// whisper is present, ffmpeg is not: install ffmpeg with Homebrew.
    InstallFfmpeg,
    /// whisper is missing: install ffmpeg with Homebrew unless it ships with
    /// the application, then install openai-whisper with pip and check the
    /// command.
    FullInstall { brew_ffmpeg: bool },
}

/// What deploying the compatible engine does, from what detection found.
pub open spec fn compat_plan_of(has_whisper: bool, ffmpeg_available: bool, bundled_ffmpeg: bool) -> CompatPlan {
    if has_whisper && ffmpeg_available {
        CompatPlan::Ready
    } else if has_whisper {
        if bundled_ffmpeg {
            CompatPlan::UseBundledFfmpeg
        } else {
            CompatPlan::InstallFfmpeg
        }
    } else {
        CompatPlan::FullInstall { brew_ffmpeg: !bundled_ffmpeg }
    }
}

/// What deploying the compatible engine does. `has_whisper` is whether the
/// whisper command or a Python that imports whisper was found.
pub fn compat_plan(has_whisper: bool, ffmpeg_available: bool, bundled_ffmpeg: bool) -> (p: CompatPlan)
    ensures
        p == compat_plan_of(has_whisper, ffmpeg_available, bundled_ffmpeg),
{
    if has_whisper && ffmpeg_available {
        CompatPlan::Ready
    } else if has_whisper {
        if bundled_ffmpeg {
            CompatPlan::UseBundledFfmpeg
        } else {
            CompatPlan::InstallFfmpeg
        }
    } else {
        CompatPlan::FullInstall { brew_ffmpeg: !bundled_ffmpeg }
    }
}

/// How the standard engine's binary is provided.
#[derive(Clone, Copy, Debug, PartialEq, Eq, Structural)]
pub enum BinaryStep {
    /// It is already installed.
    Keep,
    /// Copy the binary (and its libraries) bundled with the application.
    CopyBundled,
    /// Download a prebuilt binary, or else build it from source.
    Fetch,
}

/// What deploying the standard engine does.
pub struct StandardPlan {
    /// Binary and model are both present: nothing to do.
    pub ready: bool,
    pub binary: BinaryStep,
    pub download_model: bool,
}

/// What deploying the standard engine does, from what is on disk.
pub fn standard_plan(bin_exists: bool, model_exists: bool, bundled: bool) -> (p: StandardPlan)
    ensures
        p.ready == (bin_exists && model_exists),
        p.binary == if bin_exists {
            BinaryStep::Keep
        } else if bundled {
            BinaryStep::CopyBundled
        } else {
            BinaryStep::Fetch
        },
        p.download_model == !model_exists,
{
    StandardPlan {
        ready: bin_exists && model_exists,
        binary: if bin_exists {
            BinaryStep::Keep
        } else if bundled {
            BinaryStep::CopyBundled
        } else {
            BinaryStep::Fetch
        },
        download_model: !model_exists,
    }
}

/// Where a build of whisper.cpp may have left its binary, in the order
/// looked at: the source folder, then `build/bin`, each for `whisper-cli`,
/// `main` and `whisper`.
pub open spec fn binary_candidates_seq(dir: Seq<char>) -> Seq<Seq<char>> {
    let b = path_join(path_join(dir, "build"@), "bin"@);
    seq![
        path_join(dir, "whisper-cli"@),
        path_join(dir, "main"@),
        path_join(dir, "whisper"@),
        path_join(b, "whisper-cli"@),
        path_join(b, "main"@),
        path_join(b, "whisper"@),
    ]
}

/// Where a build of whisper.cpp may have left its binary, in order.
pub fn binary_candidates(dir: &str) -> (r: Vec<String>)
    ensures
        string_views(r@) == binary_candidates_seq(dir@),
{
    let b = join(join(dir, "build").as_str(), "bin");
    let mut r: Vec<String> = Vec::new();
    push_item(&mut r, join(dir, "whisper-cli").as_str());
    push_item(&mut r, join(dir, "main").as_str());
    push_item(&mut r, join(dir, "whisper").as_str());
    push_item(&mut r, join(b.as_str(), "whisper-cli").as_str());
    push_item(&mut r, join(b.as_str(), "main").as_str());
    push_item(&mut r, join(b.as_str(), "whisper").as_str());
    assert(string_views(r@) =~= binary_candidates_seq(dir@));
    r
}

/// The decimal text of a signed number.
pub open spec fn signed_dec_seq(n: int) -> Seq<char> {
    if n < 0 {
        seq!['-'] + dec_seq((-n) as nat)
    } else {
        dec_seq(n as nat)
    }
}

fn signed_decimal(n: i32) -> (r: Vec<char>)
    ensures
        r@ == signed_dec_seq(n as int),
{
    if n < 0 {
        let mut v: Vec<char> = Vec::new();
        v.push('-');
        let m: u64 = (-(n as i64)) as u64;
        extend_chars(&mut v, &decimal(m));
        v
    } else {
        decimal(n as u64)
    }
}

/// The last lines of a failed command's error output, at most six, joined by
/// line breaks; when that is empty, its exit code (`退出码 Some(<code>)`, or
/// `退出码 None` when it was killed by a signal).
pub open spec fn failure_message_seq(stderr: Seq<char>, code: Option<i32>) -> Seq<char> {
    let ls = lines_seq(stderr);
    let tail = ls.skip(if ls.len() > 6 { ls.len() - 6 } else { 0 });
    let t = join_with(tail, "\n"@);
    if t.len() > 0 {
        t
    } else {
        "退出码 "@ + match code {
            Some(c) => "Some("@ + signed_dec_seq(c as int) + ")"@,
            None => "None"@,
        }
    }
}

/// The error of a failed command.
pub fn failure_message(stderr: &str, code: Option<i32>) -> (r: String)
    ensures
        r@ == failure_message_seq(stderr@, code),
{
    let ls = lines(stderr);
    let n = ls.len();
    let start: usize = if n > 6 {
        n - 6
    } else {
        0
    };
    let ghost all = string_views(ls@);
    let ghost tail = all.skip(start as int);
    let mut out = String::new();
    let mut i = start;
    while i < n
        invariant
            n == ls@.len(),
            all == string_views(ls@),
            start <= i <= n,
            tail == all.skip(start as int),
            out@ == join_with(tail.take(i - start), "\n"@),
        decreases n - i,
    {
        assert(tail.take(i + 1 - start).drop_last() =~= tail.take(i - start));
        assert(tail.take(i + 1 - start).last() == ls@[i as int]@);
        if i > start {
            out.append("\n");
        }
        out.append(ls[i].as_str());
        i = i + 1;
    }
    assert(tail.take(n - start) =~= tail);
    if chars_of(out.as_str()).len() > 0 {
        out
    } else {
        let mut v = chars_of("退出码 ");
        match code {
            Some(c) => {
                extend_str(&mut v, "Some(");
                extend_chars(&mut v, &signed_decimal(c));
                extend_str(&mut v, ")");
            },
            None => extend_str(&mut v, "None"),
        }
        string_of(&v)
    }
}

/// The progress shown while cloning from the `idx`-th of `total` mirrors:
/// from 15 up to below 23 percent.
pub fn clone_percent(idx: usize, total: usize) -> (p: u8)
    requires
        idx < total,
    ensures
        p as int == 15 + (idx * 8) / (total as int),
{
    let wide: u128 = idx as u128 * 8;
    assert((wide as int) / (total as int) < 8) by (nonlinear_arith)
        requires
            wide == idx * 8,
            idx < total,
    ;
    let q = wide / (total as u128);
    15 + q as u8
}

/// The progress shown while downloading the model from the `idx`-th mirror:
/// 70 plus twice the index.
pub fn model_percent(idx: usize) -> (p: u8)
    requires
        idx < 93,
    ensures
        p as int == 70 + 2 * idx,
{
    70 + (idx * 2) as u8
}

/// The make arguments of the two build strategies: CoreML with Metal first,
/// then Metal alone; both with `-j <cores>`.
pub open spec fn make_args_seq(coreml: bool, cores: nat) -> Seq<Seq<char>> {
    (if coreml {
        seq!["WHISPER_COREML=1"@]
    } else {
        Seq::empty()
    }) + seq!["WHISPER_METAL=1"@, "-j"@, dec_seq(cores)]
}

/// The make arguments of a build strategy.
pub fn make_args(coreml: bool, cores: usize) -> (r: Vec<String>)
    ensures
        string_views(r@) == make_args_seq(coreml, cores as nat),
{
    let mut r: Vec<String> = Vec::new();
    if coreml {
        push_item(&mut r, "WHISPER_COREML=1");
    }
    push_item(&mut r, "WHISPER_METAL=1");
    push_item(&mut r, "-j");
    push_item(&mut r, string_of(&decimal(cores as u64)).as_str());
    assert(string_views(r@) =~= make_args_seq(coreml, cores as nat));
    r
}

/// How a make run ended.
pub enum BuildAttempt {
    /// It ran, succeeding or not, with this error output.
    Finished { success: bool, stderr: String },
    /// It could not be started, for this reason.
    NotStarted { error: String },
}

/// The outcome of building from source.
pub struct BuildResult {
    pub success: bool,
    /// The error output kept for the report.
    pub stderr: String,
}

/// Whether the Metal-only build is tried: the CoreML build ran and failed.
pub open spec fn needs_fallback_build(first: BuildAttempt) -> bool {
    first matches BuildAttempt::Finished { success, .. } && !success
}

/// Whether the Metal-only build is tried after the first one.
pub fn try_fallback_build(first: &BuildAttempt) -> (r: bool)
    ensures
        r == needs_fallback_build(*first),
{
    match first {
        BuildAttempt::Finished { success, .. } => !*success,
        BuildAttempt::NotStarted { .. } => false,
    }
}

/// The outcome of building from source from its one or two attempts.
pub open spec fn build_outcome(first: BuildAttempt, second: Option<BuildAttempt>) -> (bool, Seq<char>) {
    match first {
        BuildAttempt::Finished { success: true, stderr } => (true, stderr@),
        BuildAttempt::Finished { success: false, stderr: err1 } => match second {
            Some(BuildAttempt::Finished { success: true, stderr }) => (true, stderr@),
            Some(BuildAttempt::Finished { success: false, stderr: err2 }) => (
                false,
                "CoreML+Metal stderr:\n"@ + err1@ + "\n---\nMetal-only stderr:\n"@ + err2@,
            ),
            Some(BuildAttempt::NotStarted { error }) => (
                false,
                "CoreML+Metal stderr:\n"@ + err1@ + "\n---\nMetal-only 启动失败: "@ + error@,
            ),
            None => (false, err1@),
        },
        BuildAttempt::NotStarted { error } => (false, "编译进程启动失败: "@ + error@),
    }
}

/// The outcome of building from source: the first attempt that succeeded,
/// or the failure with the error output of what was tried.
pub fn build_result(first: BuildAttempt, second: Option<BuildAttempt>) -> (r: BuildResult)
    ensures
        (r.success, r.stderr@) == build_outcome(first, second),
{
    match first {
        BuildAttempt::Finished { success: true, stderr } => BuildResult { success: true, stderr },
        BuildAttempt::Finished { success: false, stderr: err1 } => match second {
            Some(BuildAttempt::Finished { success: true, stderr }) => BuildResult {
                success: true,
                stderr,
            },
            Some(BuildAttempt::Finished { success: false, stderr: err2 }) => {
                let mut v = chars_of("CoreML+Metal stderr:\n");
                extend_str(&mut v, err1.as_str());
                extend_str(&mut v, "\n---\nMetal-only stderr:\n");
                extend_str(&mut v, err2.as_str());
                BuildResult { success: false, stderr: string_of(&v) }
            },
            Some(BuildAttempt::NotStarted { error }) => {
                let mut v = chars_of("CoreML+Metal stderr:\n");
                extend_str(&mut v, err1.as_str());
                extend_str(&mut v, "\n---\nMetal-only 启动失败: ");
                extend_str(&mut v, error.as_str());
                BuildResult { success: false, stderr: string_of(&v) }
            },
            None => BuildResult { success: false, stderr: err1 },
        },
        BuildAttempt::NotStarted { error } => {
            let mut v = chars_of("编译进程启动失败: ");
            extend_str(&mut v, error.as_str());
            BuildResult { success: false, stderr: string_of(&v) }
        },
    }
}

/// The arguments that update the source's submodules.
pub open spec fn submodule_update_args_seq() -> Seq<Seq<char>> {
    seq!["submodule"@, "update"@, "--init"@, "--recursive"@]
}

/// The arguments that update the source's submodules.
pub fn submodule_update_args() -> (r: Vec<String>)
    ensures
        string_views(r@) == submodule_update_args_seq(),
{
    let mut r: Vec<String> = Vec::new();
    push_item(&mut r, "submodule");
    push_item(&mut r, "update");
    push_item(&mut r, "--init");
    push_item(&mut r, "--recursive");
    assert(string_views(r@) =~= submodule_update_args_seq());
    r
}

/// The proxies tried in turn when updating the submodules from GitHub fails.
pub open spec fn submodule_proxies_seq() -> Seq<Seq<char>> {
    seq!["ghproxy.com"@, "gh-proxy.com"@, "github.akams.cn"@]
}

/// The proxies tried in turn when updating the submodules fails.
pub fn submodule_proxies() -> (r: Vec<String>)
    ensures
        string_views(r@) == submodule_proxies_seq(),
{
    let mut r: Vec<String> = Vec::new();
    push_item(&mut r, "ghproxy.com");
    push_item(&mut r, "gh-proxy.com");
    push_item(&mut r, "github.akams.cn");
    assert(string_views(r@) =~= submodule_proxies_seq());
    r
}

/// The arguments that make the source's own configuration fetch GitHub
/// through `proxy_host`.
pub open spec fn local_proxy_config_args_seq(proxy_host: Seq<char>) -> Seq<Seq<char>> {
    seq![
        "config"@,
        "--local"@,
        "url.https://"@ + proxy_host + "/https://github.com/.insteadOf"@,
        "https://github.com/"@,
    ]
}

/// The arguments that make the source's own configuration fetch GitHub
/// through a proxy.
pub fn local_proxy_config_args(proxy_host: &str) -> (r: Vec<String>)
    ensures
        string_views(r@) == local_proxy_config_args_seq(proxy_host@),
{
    let mut key = chars_of("url.https://");
    extend_str(&mut key, proxy_host);
    extend_str(&mut key, "/https://github.com/.insteadOf");
    let mut r: Vec<String> = Vec::new();
    push_item(&mut r, "config");
    push_item(&mut r, "--local");
    push_item(&mut r, string_of(&key).as_str());
    push_item(&mut r, "https://github.com/");
    assert(string_views(r@) =~= local_proxy_config_args_seq(proxy_host@));
    r
}

/// The arguments that make a submodule's configuration file fetch GitHub
/// through `proxy_host`.
pub open spec fn module_proxy_config_args_seq(config_file: Seq<char>, proxy_host: Seq<char>) -> Seq<
    Seq<char>,
> {
    seq![
        "config"@,
        "--file"@,
        config_file,
        "url.https://"@ + proxy_host + "/https://github.com/.insteadOf"@,
        "https://github.com/"@,
    ]
}

/// The arguments that make a submodule's configuration fetch GitHub through
/// a proxy.
pub fn module_proxy_config_args(config_file: &str, proxy_host: &str) -> (r: Vec<String>)
    ensures
        string_views(r@) == module_proxy_config_args_seq(config_file@, proxy_host@),
{
    let mut key = chars_of("url.https://");
    extend_str(&mut key, proxy_host);
    extend_str(&mut key, "/https://github.com/.insteadOf");
    let mut r: Vec<String> = Vec::new();
    push_item(&mut r, "config");
    push_item(&mut r, "--file");
    push_item(&mut r, config_file);
    push_item(&mut r, string_of(&key).as_str());
    push_item(&mut r, "https://github.com/");
    assert(string_views(r@) =~= module_proxy_config_args_seq(config_file@, proxy_host@));
    r
}

/// A deployment log line: `[<time>] [deploy] <label> <message>` and a line
/// break.
pub open spec fn deploy_log_line_seq(timestamp: Seq<char>, label: Seq<char>, message: Seq<char>) -> Seq<char> {
    "["@ + timestamp + "] [deploy] "@ + label + " "@ + message + "\n"@
}

/// A deployment log line.
pub fn deploy_log_line(timestamp: &str, label: &str, message: &str) -> (r: String)
    ensures
        r@ == deploy_log_line_seq(timestamp@, label@, message@),
{
    let mut v = chars_of("[");
    extend_str(&mut v, timestamp);
    extend_str(&mut v, "] [deploy] ");
    extend_str(&mut v, label);
    extend_str(&mut v, " ");
    extend_str(&mut v, message);
    extend_str(&mut v, "\n");
    string_of(&v)
}

/// The error when a required tool is not found.
pub open spec fn not_found_seq(name: Seq<char>) -> Seq<char> {
    "未找到 "@ + name + "，请先安装"@
}

/// The error when a required tool is not found.
pub fn not_found(name: &str) -> (r: String)
    ensures
        r@ == not_found_seq(name@),
{
    let mut v = chars_of("未找到 ");
    extend_str(&mut v, name);
    extend_str(&mut v, "，请先安装");
    string_of(&v)
}

/// The error when neither a prebuilt binary nor any source mirror could be
/// had.
pub open spec fn clone_failed_seq(last_error: Seq<char>) -> Seq<char> {
    "标准引擎获取失败。预编译下载不可用，源码克隆也全部失败。\n请检查网络连接，或手动安装 git + cmake + Xcode CLT 后重试。\n最后克隆错误: "@
        + last_error
}

/// The error when neither a prebuilt binary nor any source mirror could be
/// had.
pub fn clone_failed(last_error: &str) -> (r: String)
    ensures
        r@ == clone_failed_seq(last_error@),
{
    let mut v = chars_of(
        "标准引擎获取失败。预编译下载不可用，源码克隆也全部失败。\n请检查网络连接，或手动安装 git + cmake + Xcode CLT 后重试。\n最后克隆错误: ",
    );
    extend_str(&mut v, last_error);
    string_of(&v)
}

/// The error when both prebuilt download and source build failed, given the
/// head of the build's error output that is reported.
pub open spec fn compile_failed_seq(stderr_head: Seq<char>) -> Seq<char> {
    "标准引擎编译失败。\n预编译下载不可用，源码编译也失败了。\n编译错误: "@ + stderr_head
}

/// The error when both prebuilt download and source build failed.
pub fn compile_failed(stderr_head: &str) -> (r: String)
    ensures
        r@ == compile_failed_seq(stderr_head@),
{
    let mut v = chars_of("标准引擎编译失败。\n预编译下载不可用，源码编译也失败了。\n编译错误: ");
    extend_str(&mut v, stderr_head);
    string_of(&v)
}

/// The error of one clone attempt: `[<label>] <what failed>: <detail>`.
pub open spec fn clone_attempt_error_seq(label: Seq<char>, what: Seq<char>, detail: Seq<char>) -> Seq<char> {
    "["@ + label + "] "@ + what + ": "@ + detail
}

/// The error of one clone attempt; `what` is `启动 git clone 失败`, `克隆失败`
/// or `克隆超时`.
pub fn clone_attempt_error(label: &str, what: &str, detail: &str) -> (r: String)
    ensures
        r@ == clone_attempt_error_seq(label@, what@, detail@),
{
    let mut v = chars_of("[");
    extend_str(&mut v, label);
    extend_str(&mut v, "] ");
    extend_str(&mut v, what);
    extend_str(&mut v, ": ");
    extend_str(&mut v, detail);
    string_of(&v)
}

/// What the check for the Xcode command-line tools concluded.
#[derive(Clone, Copy, Debug, PartialEq, Eq, Structural)]
pub enum CltOutcome {
    /// `xcode-select -p` succeeded: the tools are installed.
    Present,
    /// The installer was started; the user confirms it in a system dialog.
    InstallStarted,
    /// The installer could not be started, but a C compiler is available.
    CompilerFound,
}

/// The Xcode command-line tools: present when `xcode-select -p` succeeded,
/// else their installer was started when `xcode-select --install` succeeded,
/// else a C compiler on `PATH` will do; otherwise the error asking to
/// install them by hand. The later probes are only consulted when the
/// earlier ones failed.
pub open spec fn clt_outcome_of(present: bool, install_started: bool, cc_found: bool) -> Result<
    CltOutcome,
    Seq<char>,
> {
    if present {
        Ok(CltOutcome::Present)
    } else if install_started {
        Ok(CltOutcome::InstallStarted)
    } else if cc_found {
        Ok(CltOutcome::CompilerFound)
    } else {
        Err("未检测到 Xcode Command Line Tools 且自动安装失败。请手动运行: xcode-select --install 后重试。"@)
    }
}

/// What the check for the Xcode command-line tools concluded.
pub fn clt_outcome(present: bool, install_started: bool, cc_found: bool) -> (r: Result<CltOutcome, String>)
    ensures
        match (r, clt_outcome_of(present, install_started, cc_found)) {
            (Ok(a), Ok(b)) => a == b,
            (Err(e), Err(f)) => e@ == f,
            _ => false,
        },
{
    if present {
        Ok(CltOutcome::Present)
    } else if install_started {
        Ok(CltOutcome::InstallStarted)
    } else if cc_found {
        Ok(CltOutcome::CompilerFound)
    } else {
        Err("未检测到 Xcode Command Line Tools 且自动安装失败。请手动运行: xcode-select --install 后重试。".to_string())
    }
}

// ---------------------------------------------------------------------------
// The decisions of the download, clone and submodule loops
// ---------------------------------------------------------------------------

/// How one prebuilt-binary download ended.
pub enum PrebuiltOutcome {
    /// The download finished; `size` is the size of the saved file, `None`
    /// when there is no file at the destination.
    Saved { size: Option<u64> },
    /// The download failed with this error.
    Failed { error: String },
}

/// What to do next while fetching the prebuilt binary.
pub enum PrebuiltAction {
    /// Download from the `index`-th prebuilt source, first removing the file
    /// a failed attempt left behind when `discard_previous`.
    Download { index: usize, label: String, url: String, discard_previous: bool },
    /// The file from the `index`-th source is good: make it executable.
    Install { index: usize },
    /// Every source failed: remove the file the last attempt left, and fail
    /// with `error`.
    GiveUp { error: String },
}

/// A downloaded binary is kept when it is there and larger than 4096 bytes.
pub open spec fn prebuilt_saved_ok(outcome: PrebuiltOutcome) -> bool {
    outcome matches PrebuiltOutcome::Saved { size: Some(n) } && n > 4096
}

/// The error of a prebuilt attempt that did not give a usable binary.
pub open spec fn prebuilt_error_seq(label: Seq<char>, outcome: PrebuiltOutcome) -> Seq<char> {
    match outcome {
        PrebuiltOutcome::Failed { error } => labelled_seq(label, error@),
        PrebuiltOutcome::Saved { .. } => labelled_seq(label, "文件校验失败（过小或不存在）"@),
    }
}

/// The error once every prebuilt source failed.
pub open spec fn prebuilt_failed_seq(last_error: Seq<char>) -> Seq<char> {
    "预编译二进制下载失败: "@ + last_error
}

/// The first step of fetching the prebuilt binary: its first source.
pub fn prebuilt_first() -> (a: PrebuiltAction)
    ensures
        a matches PrebuiltAction::Download { index, label, url, discard_previous } && index == 0
            && (label@, url@) == prebuilt_urls_seq()[0] && !discard_previous,
{
    let urls = prebuilt_urls();
    assert(pairs_view(urls@).len() == urls@.len() && prebuilt_urls_seq().len() == 4);
    assert(pairs_view(urls@)[0] == (urls@[0].0@, urls@[0].1@));
    PrebuiltAction::Download {
        index: 0,
        label: urls[0].0.clone(),
        url: urls[0].1.clone(),
        discard_previous: false,
    }
}

/// The step after the download from the `index`-th prebuilt source: install
/// a file larger than 4096 bytes; otherwise try the next source, or give up
/// with the last source's error once none is left.
pub fn prebuilt_next(index: usize, outcome: PrebuiltOutcome) -> (a: PrebuiltAction)
    requires
        index < prebuilt_urls_seq().len(),
    ensures
        match a {
            PrebuiltAction::Install { index: i } => prebuilt_saved_ok(outcome) && i == index,
            PrebuiltAction::Download { index: i, label, url, discard_previous } => !prebuilt_saved_ok(
                outcome,
            ) && i == index + 1 && i < prebuilt_urls_seq().len() && (label@, url@)
                == prebuilt_urls_seq()[i as int] && discard_previous,
            PrebuiltAction::GiveUp { error } => !prebuilt_saved_ok(outcome) && index + 1
                == prebuilt_urls_seq().len() && error@ == prebuilt_failed_seq(
                prebuilt_error_seq(prebuilt_urls_seq()[index as int].0, outcome),
            ),
        },
{
    let urls = prebuilt_urls();
    assert(pairs_view(urls@)[index as int] == (urls@[index as int].0@, urls@[index as int].1@));
    let label = urls[index].0.as_str();
    let err = match &outcome {
        PrebuiltOutcome::Saved { size: Some(n) } => {
            if *n > 4096 {
                return PrebuiltAction::Install { index };
            }
            labelled(label, "文件校验失败（过小或不存在）")
        },
        PrebuiltOutcome::Saved { size: None } => labelled(label, "文件校验失败（过小或不存在）"),
        PrebuiltOutcome::Failed { error } => labelled(label, error.as_str()),
    };
    if index + 1 < urls.len() {
        let i = index + 1;
        assert(pairs_view(urls@)[i as int] == (urls@[i as int].0@, urls@[i as int].1@));
        PrebuiltAction::Download {
            index: i,
            label: urls[i].0.clone(),
            url: urls[i].1.clone(),
            discard_previous: true,
        }
    } else {
        let mut v = chars_of("预编译二进制下载失败: ");
        extend_str(&mut v, err.as_str());
        PrebuiltAction::GiveUp { error: string_of(&v) }
    }
}

/// What to do next while downloading a model.
pub enum ModelFetchAction {
    /// Download from the `index`-th model source, showing `percent`, first
    /// removing the file a failed attempt left behind when `discard_previous`.
    Download { index: usize, label: String, url: String, percent: u8, discard_previous: bool },
    /// The model is downloaded.
    Done,
    /// Every source failed: remove the file the last attempt left, and fail
    /// with `error`.
    GiveUp { error: String },
}

/// The first step of downloading a model: its first source.
pub fn model_fetch_first(model: &str) -> (a: ModelFetchAction)
    ensures
        a matches ModelFetchAction::Download { index, label, url, percent, discard_previous }
            && index == 0 && (label@, url@) == model_urls_seq(model@)[0] && percent == 70
            && !discard_previous,
{
    let urls = model_download_urls(model);
    assert(pairs_view(urls@).len() == urls@.len() && model_urls_seq(model@).len() == 5);
    assert(pairs_view(urls@)[0] == (urls@[0].0@, urls@[0].1@));
    ModelFetchAction::Download {
        index: 0,
        label: urls[0].0.clone(),
        url: urls[0].1.clone(),
        percent: model_percent(0),
        discard_previous: false,
    }
}

/// The step after the download from the `index`-th model source: done when
/// it succeeded; otherwise the next source, or, once none is left, the
/// failure with the last source's labelled error.
pub fn model_fetch_next(model: &str, index: usize, result: Result<(), String>) -> (a:
    ModelFetchAction)
    requires
        index < model_urls_seq(model@).len(),
    ensures
        match a {
            ModelFetchAction::Done => result is Ok,
            ModelFetchAction::Download { index: i, label, url, percent, discard_previous } => result
                is Err && i == index + 1 && i < model_urls_seq(model@).len() && (label@, url@)
                == model_urls_seq(model@)[i as int] && percent as int == 70 + 2 * i
                && discard_previous,
            ModelFetchAction::GiveUp { error } => result matches Err(e) && index + 1
                == model_urls_seq(model@).len() && error@ == models_failed_seq(
                labelled_seq(model_urls_seq(model@)[index as int].0, e@),
            ),
        },
{
    let e = match result {
        Ok(()) => {
            return ModelFetchAction::Done;
        },
        Err(e) => e,
    };
    let urls = model_download_urls(model);
    assert(pairs_view(urls@)[index as int] == (urls@[index as int].0@, urls@[index as int].1@));
    let err = labelled(urls[index].0.as_str(), e.as_str());
    if index + 1 < urls.len() {
        let i = index + 1;
        assert(pairs_view(urls@)[i as int] == (urls@[i as int].0@, urls@[i as int].1@));
        ModelFetchAction::Download {
            index: i,
            label: urls[i].0.clone(),
            url: urls[i].1.clone(),
            percent: model_percent(i),
            discard_previous: true,
        }
    } else {
        ModelFetchAction::GiveUp { error: models_failed(err.as_str()) }
    }
}

/// How one `git clone` of the source ended.
pub enum CloneOutcome {
    /// git could not be started, for this reason.
    NotStarted { error: String },
    /// The clone succeeded.
    Succeeded,
    /// git failed with this error output.
    Failed { stderr: String },
    /// The clone timed out or could not be waited for, for this reason.
    Interrupted { error: String },
}

/// What to do next while cloning the source.
pub enum CloneAction {
    /// Clone from the `index`-th mirror, showing `percent`, first removing
    /// what a failed attempt left behind when `discard_previous`.
    Clone { index: usize, label: String, url: String, percent: u8, discard_previous: bool },
    /// The clone from the `index`-th mirror succeeded.
    Cloned { index: usize },
    /// Every mirror failed: remove what the last attempt left when
    /// `discard_previous`, and fail with `error`.
    GiveUp { error: String, discard_previous: bool },
}

/// The error of a failed clone attempt from the mirror labelled `label`.
pub open spec fn clone_error_seq(label: Seq<char>, outcome: CloneOutcome) -> Seq<char> {
    match outcome {
        CloneOutcome::NotStarted { error } => clone_attempt_error_seq(
            label,
            "启动 git clone 失败"@,
            error@,
        ),
        CloneOutcome::Failed { stderr } => clone_attempt_error_seq(label, "克隆失败"@, stderr@),
        CloneOutcome::Interrupted { error } => clone_attempt_error_seq(label, "克隆超时"@, error@),
        CloneOutcome::Succeeded => Seq::empty(),
    }
}

/// The clone attempt from the `i`-th of the ranked mirrors.
fn clone_attempt(mirrors: &[(String, String)], i: usize, discard_previous: bool) -> (a: CloneAction)
    requires
        i < mirrors.len(),
    ensures
        a matches CloneAction::Clone { index, label, url, percent, discard_previous: d }
            && index == i && label@ == mirrors@[i as int].0@ && url@ == clone_url_seq(
            mirrors@[i as int].1@,
        ) && percent as int == 15 + (i * 8) / (mirrors.len() as int) && d == discard_previous,
{
    CloneAction::Clone {
        index: i,
        label: mirrors[i].0.clone(),
        url: build_clone_url(mirrors[i].1.as_str()),
        percent: clone_percent(i, mirrors.len()),
        discard_previous,
    }
}

/// The first step of cloning the source from the ranked mirrors: the fastest
/// one, or, with none at all, the failure with an empty last error.
pub fn clone_first(mirrors: &[(String, String)]) -> (a: CloneAction)
    ensures
        mirrors.len() > 0 ==> (a matches CloneAction::Clone {
            index,
            label,
            url,
            percent,
            discard_previous,
        } && index == 0 && label@ == mirrors@[0].0@ && url@ == clone_url_seq(mirrors@[0].1@)
            && percent == 15 && !discard_previous),
        mirrors.len() == 0 ==> (a matches CloneAction::GiveUp { error, discard_previous } && error@
            == clone_failed_seq(Seq::empty()) && !discard_previous),
{
    if mirrors.len() > 0 {
        clone_attempt(mirrors, 0, false)
    } else {
        let e = clone_failed("");
        proof {
            reveal_strlit("");
        }
        CloneAction::GiveUp { error: e, discard_previous: false }
    }
}

/// The step after the clone from the `index`-th ranked mirror: done when it
/// succeeded; otherwise the next mirror, or, once none is left, the failure
/// with the last mirror's error.
pub fn clone_next(mirrors: &[(String, String)], index: usize, outcome: CloneOutcome) -> (a:
    CloneAction)
    requires
        index < mirrors.len(),
    ensures
        match a {
            CloneAction::Cloned { index: i } => outcome is Succeeded && i == index,
            CloneAction::Clone { index: i, label, url, percent, discard_previous } => !(outcome is Succeeded)
                && i == index + 1 && i < mirrors.len() && label@ == mirrors@[i as int].0@ && url@
                == clone_url_seq(mirrors@[i as int].1@) && percent as int == 15 + (i * 8) / (
            mirrors.len() as int) && discard_previous,
            CloneAction::GiveUp { error, discard_previous } => !(outcome is Succeeded) && index + 1
                == mirrors.len() && error@ == clone_failed_seq(
                clone_error_seq(mirrors@[index as int].0@, outcome),
            ) && discard_previous,
        },
{
    let label = mirrors[index].0.as_str();
    let err = match &outcome {
        CloneOutcome::Succeeded => {
            return CloneAction::Cloned { index };
        },
        CloneOutcome::NotStarted { error } => clone_attempt_error(
            label,
            "启动 git clone 失败",
            error.as_str(),
        ),
        CloneOutcome::Failed { stderr } => clone_attempt_error(label, "克隆失败", stderr.as_str()),
        CloneOutcome::Interrupted { error } => clone_attempt_error(label, "克隆超时", error.as_str()),
    };
    if index + 1 < mirrors.len() {
        clone_attempt(mirrors, index + 1, true)
    } else {
        CloneAction::GiveUp { error: clone_failed(err.as_str()), discard_previous: true }
    }
}

/// What to do next while updating the submodules.
pub enum SubmoduleAction {
    /// Point the source's and the submodules' configurations at `host`, then
    /// update again.
    UseProxy { host: String },
    /// Point the source's configuration at `host` (the first proxy) and
    /// update one last time, whatever comes of it.
    LastResort { host: String },
    /// Stop: the submodules are updated, or every way was tried (a failure
    /// here is not fatal).
    Stop,
}

/// The step after the `attempt`-th submodule update (the plain one is
/// attempt 0): stop once one succeeded; after a failure, the proxies in
/// turn, then a last try through the first proxy.
pub fn submodule_next(attempt: usize, succeeded: bool) -> (a: SubmoduleAction)
    ensures
        match a {
            SubmoduleAction::UseProxy { host } => !succeeded && attempt < submodule_proxies_seq().len()
                && host@ == submodule_proxies_seq()[attempt as int],
            SubmoduleAction::LastResort { host } => !succeeded && attempt
                == submodule_proxies_seq().len() && host@ == submodule_proxies_seq()[0],
            SubmoduleAction::Stop => succeeded || attempt > submodule_proxies_seq().len(),
        },
{
    let proxies = submodule_proxies();
    if succeeded || attempt > proxies.len() {
        SubmoduleAction::Stop
    } else if attempt == proxies.len() {
        SubmoduleAction::LastResort { host: proxies[0].clone() }
    } else {
        SubmoduleAction::UseProxy { host: proxies[attempt].clone() }
    }
}

/// The message when the build succeeded but no binary was found.
pub open spec fn no_binary_seq() -> Seq<char> {
    "编译通过但未找到可执行文件产物，请稍后重试。"@
}

/// The outcome of the source build: the binary found when it succeeded, a
/// missing binary when it succeeded without one, or the compile failure
/// with the head of its error output.
pub fn build_verdict(success: bool, binary: Option<String>, stderr_head: &str) -> (r: Result<
    String,
    String,
>)
    ensures
        match r {
            Ok(p) => success && (binary matches Some(b) && p@ == b@),
            Err(e) => (success && binary is None && e@ == no_binary_seq()) || (!success && e@
                == compile_failed_seq(stderr_head@)),
        },
{
    if success {
        match binary {
            Some(b) => Ok(b),
            None => Err("编译通过但未找到可执行文件产物，请稍后重试。".to_string()),
        }
    } else {
        Err(compile_failed(stderr_head))
    }
}

/// How a `brew install` went.
pub enum BrewInstall {
    /// Homebrew is not there.
    NoBrew,
    /// brew ran and failed with this error.
    Failed { error: String },
    /// The formula was installed.
    Installed,
}

/// The error when ffmpeg is missing and Homebrew is not there to install it.
pub open spec fn no_homebrew_for_ffmpeg_seq() -> Seq<char> {
    "ffmpeg 不可用，且未检测到 Homebrew。\n请确保已安装 ffmpeg 或 Homebrew。"@
}

/// The outcome of installing ffmpeg with Homebrew: done, the error that
/// Homebrew is missing, or brew's error after `安装 ffmpeg 失败：`.
pub fn ffmpeg_install_result(outcome: BrewInstall) -> (r: Result<(), String>)
    ensures
        match outcome {
            BrewInstall::Installed => r is Ok,
            BrewInstall::NoBrew => r matches Err(e) && e@ == no_homebrew_for_ffmpeg_seq(),
            BrewInstall::Failed { error } => r matches Err(e) && e@ == "安装 ffmpeg 失败："@
                + error@,
        },
{
    match outcome {
        BrewInstall::Installed => Ok(()),
        BrewInstall::NoBrew => Err(
            "ffmpeg 不可用，且未检测到 Homebrew。\n请确保已安装 ffmpeg 或 Homebrew。".to_string(),
        ),
        BrewInstall::Failed { error } => {
            let mut v = chars_of("安装 ffmpeg 失败：");
            extend_str(&mut v, error.as_str());
            Err(string_of(&v))
        },
    }
}

/// The error when cmake is missing and Homebrew is not there to install it.
pub open spec fn no_homebrew_for_cmake_seq() -> Seq<char> {
    "编译 whisper.cpp 需要 cmake，但您的 Mac 上未安装 cmake 且没有 Homebrew。请手动安装 Homebrew（https://brew.sh）后重试。"@
}

/// The outcome of installing cmake with Homebrew, given whether cmake is
/// found afterwards: done when it is; else the error that Homebrew is
/// missing, brew's error, or that the installed cmake is not on `PATH`.
pub fn cmake_install_result(outcome: BrewInstall, found_after: bool) -> (r: Result<(), String>)
    ensures
        match outcome {
            BrewInstall::Installed => if found_after {
                r is Ok
            } else {
                r matches Err(e) && e@ == "cmake 安装完成但未找到，请检查 PATH"@
            },
            BrewInstall::NoBrew => r matches Err(e) && e@ == no_homebrew_for_cmake_seq(),
            BrewInstall::Failed { error } => r matches Err(e) && e@ == "安装 cmake 失败："@
                + error@ + "。请手动运行 brew install cmake 后重试"@,
        },
{
    match outcome {
        BrewInstall::Installed => if found_after {
            Ok(())
        } else {
            Err("cmake 安装完成但未找到，请检查 PATH".to_string())
        },
        BrewInstall::NoBrew => Err(
            "编译 whisper.cpp 需要 cmake，但您的 Mac 上未安装 cmake 且没有 Homebrew。请手动安装 Homebrew（https://brew.sh）后重试。".to_string(),
        ),
        BrewInstall::Failed { error } => {
            let mut v = chars_of("安装 cmake 失败：");
            extend_str(&mut v, error.as_str());
            extend_str(&mut v, "。请手动运行 brew install cmake 后重试");
            Err(string_of(&v))
        },
    }
}

/// The course of getting the standard engine's binary.
pub enum BinaryFetchStep {
    /// A binary is already in place: use it.
    Reuse,
    /// Download the prebuilt binary.
    TryPrebuilt,
    /// The prebuilt binary is installed.
    Done,
    /// The download failed: build from source, first showing `note`.
    BuildFromSource { note: String },
}

/// The first step: reuse a binary already in place, else try the prebuilt
/// download.
pub fn binary_fetch_first(binary_exists: bool) -> (s: BinaryFetchStep)
    ensures
        binary_exists ==> s is Reuse,
        !binary_exists ==> s is TryPrebuilt,
{
    if binary_exists {
        BinaryFetchStep::Reuse
    } else {
        BinaryFetchStep::TryPrebuilt
    }
}

/// The step after the prebuilt download: done when it worked, else the
/// build from source with a note that carries the download's error.
pub fn binary_fetch_after_prebuilt(result: Result<(), String>) -> (s: BinaryFetchStep)
    ensures
        match result {
            Ok(()) => s is Done,
            Err(e) => s matches BinaryFetchStep::BuildFromSource { note } && note@
                == "预编译下载失败，回退源码编译... ("@ + e@ + ")"@,
        },
{
    match result {
        Ok(()) => BinaryFetchStep::Done,
        Err(e) => {
            let mut v = chars_of("预编译下载失败，回退源码编译... (");
            extend_str(&mut v, e.as_str());
            extend_str(&mut v, ")");
            BinaryFetchStep::BuildFromSource { note: string_of(&v) }
        },
    }
}

} // verus!
