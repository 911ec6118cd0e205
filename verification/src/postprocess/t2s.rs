//! Traditional to simplified Chinese: each character of a transcript that
//! has a simplified form in the table below is replaced by it; every other
//! character stays.
use vstd::prelude::*;

use crate::engine::{segments_view, Segment};
use crate::text::{chars_of, lemma_string_views_push, string_of, string_views};

verus! {

/// The traditional characters of the table, one per entry.
pub const T2S_TRADITIONAL: &'static str = "\
們這說來個時為會國學發對過後還裡麼與開關現點於長動實種機當經進問聲體頭親樣變見論\
話讓邊無業產廣場書東車門間聽電氣處應從歡數愛錢萬華誰請認識讀寫語詞調談記計訊設許\
該試詳誤課議護譯貝買賣費資質貨購財貴賀賽贏負責貧賴轉輪軟輕較輸辦農連運達遠選適遺\
郵鄉醫釋針鐘鐵銀錯鏡閉閒闆陽陰陳際隊階隨險隱難雙雞雜離雲靈響頁頂項順須預領頻題額\
顏願類顯風飛飯飲館馬驗驚髮魚鳥鳴麥黃齊齒龍龜憂懷戰戲戶掃據擇擊擁擔擴擺攝敗敵斷晝\
曉曆條標極樂樓樹橋橫檔檢權歐歲歷歸殘殺殼決沒溝滅滿漢濟灣灑災烏熱燈燒營爐爭爺牆犧\
狀獨獲獎環畫畢異療盡監盤眾礎確禮禱稱積穩窮竊競筆節範築簡籃糧紀約紅紙級細終組結給\
絕統絲綠維網緊線練縣總績織繼續罰罷習聖聞聯聰職肅脅腦腳膽臉興舉舊艦藝蘇蘭號蟲術衛\
補製複規視覺覽觀觸訂討訓講證讚豐貓賓趙趕跡踐躍軍載辭邏鄰錄鍋鎮闊陸陣隻雖靜韓頓飽\
餘養驅鬥魯麵黨團園圓圖圍壓壞壯壽夢夥奪奮婦媽孫寧寶將專導層屬島峽幣幫幹廠廳張強彈\
彎徑復徵憶態慣憑戀惡悅惱慶擬擠攜掛換揮損搖搶撥撫擾攤敘斃暫曬朧沖況淚淺測準溫濕漲\
潔潛澤濤瀏煙燦爛猶獄瑪甦畝癢盞碼磚礙禍禪穀窩竄筍箏篩簽籤糾紋納純紛紮絡絞綁綜綱緒\
緣編緩緯縮繡繩纏缽罈羅義聳腸膚膠臟臨艱莊葉蓋蒼蓮蔣薦薩藍藥蘋虛蝦螢蠟蠶衝裝襪訪評\
詩誇誌誠誕諸諾謀謂謝謠譜豈豬貞貼賊賠賜賞賦賬贈贊趨蹤軌軒輔輝輩輿轟辯迴遞遷遼鄭醜\
釀鈔鈴鉛銅銳鋼錦鍵鎖鏈鑰鑽閃閱闖雛霧韻頌頒頸顆顧颱飄餅饑騎騙騰驕驢鬆鬧鮮鯨鴨鵝鷹\
鹽麗黴齡億優傳傷價儀償僅儲兒內兩冊凍劃劍劇勁勞勢勝勵區協卻厭參叢吳呂員啟喪單嚴囑\
壇墳奧妝娛嬰審寬尋屆嶺巖師帳帶幾庫廢廟彥彙徹恆揚擋擲攔攬敍斂晉暈曖朮構槍樁樸檯櫃\
欄歎殤毀氫滬漁漿潤澀濃濱瀉瀨灘爾牽猙獅瑣瓊甕疊瘋癡皺盜睜矯硯碩祿禦稅穌窯竇筧籌紗\
紡紳紹絨綢綫緞縫繞繪翹脈脫腫膩臺舖艷芻茲荊莖萊蔔蕭薑蘆虧蛻蜆蝕蟬衊裊褲襖覓訴詐詢\
詭誦諒諧謊譏譴豎貢貫賤賺贓蹟軀輛轄辮遙遜醞釘鈍鉤銷鋪錫鍛鎊鐸鑄閏閣闡陝隴靂鞏韌頑\
頗頰顫颳飢餵饒駁駐駕駛騷驟骯髒鬍鬱魷鱉鴉鴻鶴鼴齋龐";

/// The simplified characters of the table, in the same order: the entry at a
/// position in `T2S_TRADITIONAL` becomes the character at that position here.
pub const T2S_SIMPLIFIED: &'static str = "\
们这说来个时为会国学发对过后还里么与开关现点于长动实种机当经进问声体头亲样变见论\
话让边无业产广场书东车门间听电气处应从欢数爱钱万华谁请认识读写语词调谈记计讯设许\
该试详误课议护译贝买卖费资质货购财贵贺赛赢负责贫赖转轮软轻较输办农连运达远选适遗\
邮乡医释针钟铁银错镜闭闲板阳阴陈际队阶随险隐难双鸡杂离云灵响页顶项顺须预领频题额\
颜愿类显风飞饭饮馆马验惊发鱼鸟鸣麦黄齐齿龙龟忧怀战戏户扫据择击拥担扩摆摄败敌断昼\
晓历条标极乐楼树桥横档检权欧岁历归残杀壳决没沟灭满汉济湾洒灾乌热灯烧营炉争爷墙牺\
状独获奖环画毕异疗尽监盘众础确礼祷称积稳穷窃竞笔节范筑简篮粮纪约红纸级细终组结给\
绝统丝绿维网紧线练县总绩织继续罚罢习圣闻联聪职肃胁脑脚胆脸兴举旧舰艺苏兰号虫术卫\
补制复规视觉览观触订讨训讲证赞丰猫宾赵赶迹践跃军载辞逻邻录锅镇阔陆阵只虽静韩顿饱\
余养驱斗鲁面党团园圆图围压坏壮寿梦伙夺奋妇妈孙宁宝将专导层属岛峡币帮干厂厅张强弹\
弯径复征忆态惯凭恋恶悦恼庆拟挤携挂换挥损摇抢拨抚扰摊叙毙暂晒胧冲况泪浅测准温湿涨\
洁潜泽涛浏烟灿烂犹狱玛苏亩痒盏码砖碍祸禅谷窝窜笋筝筛签签纠纹纳纯纷扎络绞绑综纲绪\
缘编缓纬缩绣绳缠钵坛罗义耸肠肤胶脏临艰庄叶盖苍莲蒋荐萨蓝药苹虚虾萤蜡蚕冲装袜访评\
诗夸志诚诞诸诺谋谓谢谣谱岂猪贞贴贼赔赐赏赋账赠赞趋踪轨轩辅辉辈舆轰辩回递迁辽郑丑\
酿钞铃铅铜锐钢锦键锁链钥钻闪阅闯雏雾韵颂颁颈颗顾台飘饼饥骑骗腾骄驴松闹鲜鲸鸭鹅鹰\
盐丽霉龄亿优传伤价仪偿仅储儿内两册冻划剑剧劲劳势胜励区协却厌参丛吴吕员启丧单严嘱\
坛坟奥妆娱婴审宽寻届岭岩师帐带几库废庙彦汇彻恒扬挡掷拦揽叙敛晋晕暧术构枪桩朴台柜\
栏叹殇毁氢沪渔浆润涩浓滨泻濑滩尔牵狰狮琐琼瓮叠疯痴皱盗睁矫砚硕禄御税稣窑窦笕筹纱\
纺绅绍绒绸线缎缝绕绘翘脉脱肿腻台铺艳刍兹荆茎莱卜萧姜芦亏蜕蚬蚀蝉蔑袅裤袄觅诉诈询\
诡诵谅谐谎讥谴竖贡贯贱赚赃迹躯辆辖辫遥逊酝钉钝钩销铺锡锻镑铎铸闰阁阐陕陇雳巩韧顽\
颇颊颤刮饥喂饶驳驻驾驶骚骤肮脏胡郁鱿鳖鸦鸿鹤鼹斋庞";

/// The first position at or after `from` that holds `c`.
pub open spec fn first_position(s: Seq<char>, c: char, from: int) -> Option<int>
    decreases s.len() - from,
{
    if from < 0 || from >= s.len() {
        None
    } else if s[from] == c {
        Some(from)
    } else {
        first_position(s, c, from + 1)
    }
}

/// The simplified form of one character: its table entry's counterpart, or
/// the character itself when the table has no entry for it.
pub open spec fn simplified_char(c: char) -> char {
    match first_position(T2S_TRADITIONAL@, c, 0) {
        Some(i) => if i < T2S_SIMPLIFIED@.len() {
            T2S_SIMPLIFIED@[i]
        } else {
            c
        },
        None => c,
    }
}

/// A text with every character simplified.
pub open spec fn simplify_seq(s: Seq<char>) -> Seq<char> {
    Seq::new(s.len(), |i: int| simplified_char(s[i]))
}

/// Every text of a list simplified.
pub open spec fn simplify_all_seq(ps: Seq<Seq<char>>) -> Seq<Seq<char>> {
    Seq::new(ps.len(), |i: int| simplify_seq(ps[i]))
}

/// Segments with their texts simplified and their times kept.
pub open spec fn simplified_views(v: Seq<(u64, u64, Seq<char>)>) -> Seq<(u64, u64, Seq<char>)> {
    Seq::new(v.len(), |i: int| (v[i].0, v[i].1, simplify_seq(v[i].2)))
}

fn simplified(c: char, trad: &Vec<char>, simp: &Vec<char>) -> (r: char)
    requires
        trad@ == T2S_TRADITIONAL@,
        simp@ == T2S_SIMPLIFIED@,
    ensures
        r == simplified_char(c),
{
    let mut i: usize = 0;
    while i < trad.len()
        invariant
            i <= trad@.len(),
            trad@ == T2S_TRADITIONAL@,
            simp@ == T2S_SIMPLIFIED@,
            first_position(trad@, c, 0) == first_position(trad@, c, i as int),
        decreases trad@.len() - i,
    {
        if trad[i] == c {
            if i < simp.len() {
                return simp[i];
            } else {
                return c;
            }
        }
        i = i + 1;
    }
    c
}

fn simplify_with(text: &str, trad: &Vec<char>, simp: &Vec<char>) -> (r: String)
    requires
        trad@ == T2S_TRADITIONAL@,
        simp@ == T2S_SIMPLIFIED@,
    ensures
        r@ == simplify_seq(text@),
{
    let v = chars_of(text);
    let mut out: Vec<char> = Vec::new();
    for i in 0..v.len()
        invariant
            v@ == text@,
            trad@ == T2S_TRADITIONAL@,
            simp@ == T2S_SIMPLIFIED@,
            out@.len() == i,
            forall|k: int| 0 <= k < i ==> out@[k] == simplified_char(#[trigger] v@[k]),
    {
        let c = simplified(v[i], trad, simp);
        out.push(c);
    }
    assert(out@ =~= simplify_seq(text@));
    string_of(&out)
}

/// Converts a text from traditional to simplified Chinese, character by
/// character.
pub fn simplify(text: &str) -> (r: String)
    ensures
        r@ == simplify_seq(text@),
{
    let trad = chars_of(T2S_TRADITIONAL);
    let simp = chars_of(T2S_SIMPLIFIED);
    simplify_with(text, &trad, &simp)
}

/// Every text of a list converted to simplified Chinese.
pub fn simplify_all(texts: &[String]) -> (r: Vec<String>)
    ensures
        string_views(r@) == simplify_all_seq(string_views(texts@)),
{
    let trad = chars_of(T2S_TRADITIONAL);
    let simp = chars_of(T2S_SIMPLIFIED);
    let mut r: Vec<String> = Vec::new();
    for i in 0..texts.len()
        invariant
            trad@ == T2S_TRADITIONAL@,
            simp@ == T2S_SIMPLIFIED@,
            string_views(r@) == simplify_all_seq(string_views(texts@)).take(i as int),
    {
        let s = simplify_with(texts[i].as_str(), &trad, &simp);
        proof {
            lemma_string_views_push(r@, s);
        }
        r.push(s);
        assert(string_views(r@) =~= simplify_all_seq(string_views(texts@)).take(i + 1));
    }
    assert(simplify_all_seq(string_views(texts@)).take(texts@.len() as int)
        =~= simplify_all_seq(string_views(texts@)));
    r
}

/// Segments with their texts converted to simplified Chinese and their times
/// kept.
pub fn simplify_segments(segments: &[Segment]) -> (r: Vec<Segment>)
    ensures
        segments_view(r@) == simplified_views(segments_view(segments@)),
{
    let trad = chars_of(T2S_TRADITIONAL);
    let simp = chars_of(T2S_SIMPLIFIED);
    let mut r: Vec<Segment> = Vec::new();
    for i in 0..segments.len()
        invariant
            trad@ == T2S_TRADITIONAL@,
            simp@ == T2S_SIMPLIFIED@,
            r@.len() == i,
            forall|k: int|
                0 <= k < i ==> segments_view(r@)[k] == #[trigger] simplified_views(
                    segments_view(segments@),
                )[k],
    {
        let seg = &segments[i];
        let s = Segment {
            start_ms: seg.start_ms,
            end_ms: seg.end_ms,
            text: simplify_with(seg.text.as_str(), &trad, &simp),
        };
        let ghost before = r@;
        r.push(s);
        assert forall|k: int| 0 <= k < i + 1 implies segments_view(r@)[k]
            == #[trigger] simplified_views(segments_view(segments@))[k] by {
            if k < i {
                assert(r@[k] == before[k]);
            }
        }
    }
    assert(segments_view(r@) =~= simplified_views(segments_view(segments@)));
    r
}

} // verus!
