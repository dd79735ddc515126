//! Interface languages and the catalog of translated interface strings.
use crate::config::{is_whitespace, is_whitespace_char};
use crate::suggestions::{lines, split_lines};
use crate::text::{chars_of, starts_with, str_eq, string_from_chars};
use vstd::prelude::*;

verus! {

#[derive(Clone, Copy, Debug, PartialEq, Eq, Structural)]
pub enum Language {
    English,
    Chinese,
    TraditionalChinese,
    Japanese,
    Korean,
    German,
    French,
    Spanish,
}

/// The column of a language in the catalog.
pub open spec fn language_index(l: Language) -> int {
    match l {
        Language::English => 0,
        Language::Chinese => 1,
        Language::TraditionalChinese => 2,
        Language::Japanese => 3,
        Language::Korean => 4,
        Language::German => 5,
        Language::French => 6,
        Language::Spanish => 7,
    }
}

/// The identifiers of the language setting, in the order the settings cycle through them.
pub open spec fn language_ids() -> Seq<Seq<char>> {
    seq!["system"@, "en"@, "zh-CN"@, "zh-TW"@, "ja"@, "ko"@, "de"@, "fr"@, "es"@]
}

/// The language settings: identifier and display name.
pub open spec fn languages_spec() -> Seq<(&'static str, &'static str)> {
    seq![
        ("system", "System"),
        ("en", "English"),
        ("zh-CN", "简体中文"),
        ("zh-TW", "繁體中文"),
        ("ja", "日本語"),
        ("ko", "한국어"),
        ("de", "Deutsch"),
        ("fr", "Français"),
        ("es", "Español"),
    ]
}

pub fn languages() -> (l: Vec<(&'static str, &'static str)>)
    ensures
        l@ == languages_spec(),
        l.len() == language_ids().len(),
        forall|i: int| 0 <= i < l.len() ==> (#[trigger] l@[i]).0@ == language_ids()[i],
{
    vec![
        ("system", "System"),
        ("en", "English"),
        ("zh-CN", "简体中文"),
        ("zh-TW", "繁體中文"),
        ("ja", "日本語"),
        ("ko", "한국어"),
        ("de", "Deutsch"),
        ("fr", "Français"),
        ("es", "Español"),
    ]
}

/// Locale characters compared case-insensitively, with `_` read as `-`.
pub open spec fn locale_char(c: char) -> char {
    if c == '_' {
        '-'
    } else if 'A' <= c && c <= 'Z' {
        ((c as u32) + 32) as char
    } else {
        c
    }
}

pub open spec fn normalized_locale(l: Seq<char>) -> Seq<char> {
    l.map_values(|c: char| locale_char(c))
}

/// Whether `p` occurs at position `i` of `s`.
pub open spec fn occurs_at(s: Seq<char>, p: Seq<char>, i: int) -> bool {
    0 <= i && i + p.len() <= s.len() && s.subrange(i, i + p.len()) == p
}

/// Whether `p` is one of the `-`-separated parts of `s`.
pub open spec fn has_part(s: Seq<char>, p: Seq<char>) -> bool {
    exists|i: int|
        #![trigger occurs_at(s, p, i)]
        occurs_at(s, p, i) && (i == 0 || s[i - 1] == '-') && (i + p.len() == s.len() || s[i
            + p.len()] == '-')
}

/// The language of a locale such as `de-AT` or `zh_CN.UTF-8`: Chinese in its
/// traditional script for Taiwan, Hong Kong, Macao and `Hant`, English where
/// the language is not one of the interface's.
pub open spec fn language_of_locale(locale: Seq<char>) -> Language {
    let l = normalized_locale(locale);
    if starts_with(l, "zh"@) {
        if has_part(l, "tw"@) || has_part(l, "hk"@) || has_part(l, "mo"@) || has_part(l, "hant"@) {
            Language::TraditionalChinese
        } else {
            Language::Chinese
        }
    } else if starts_with(l, "ja"@) {
        Language::Japanese
    } else if starts_with(l, "ko"@) {
        Language::Korean
    } else if starts_with(l, "de"@) {
        Language::German
    } else if starts_with(l, "fr"@) {
        Language::French
    } else if starts_with(l, "es"@) {
        Language::Spanish
    } else {
        Language::English
    }
}

/// Locales are compared case-insensitively and with `_` read as `-`: a locale
/// and its normalized spelling name the same language.
pub proof fn lemma_locale_spelling(locale: Seq<char>)
    ensures
        language_of_locale(normalized_locale(locale)) == language_of_locale(locale),
{
    let n = normalized_locale(locale);
    assert(normalized_locale(n) =~= n);
}

/// A character in ASCII upper case, as `to_ascii_uppercase` makes it.
pub open spec fn ascii_upper(c: char) -> char {
    if 'a' <= c && c <= 'z' {
        ((c as u32) - 32) as char
    } else {
        c
    }
}

/// The case of a locale does not matter: a locale written in ASCII upper
/// case, or with `_` in place of `-`, names the same language.
pub proof fn lemma_locale_case(locale: Seq<char>)
    ensures
        language_of_locale(locale.map_values(|c: char| ascii_upper(c))) == language_of_locale(locale),
        language_of_locale(locale.map_values(|c: char| if c == '-' { '_' } else { c }))
            == language_of_locale(locale),
{
    let up = locale.map_values(|c: char| ascii_upper(c));
    let under = locale.map_values(|c: char| if c == '-' { '_' } else { c });
    assert(normalized_locale(up) =~= normalized_locale(locale)) by {
        assert forall|i: int| 0 <= i < locale.len() implies #[trigger] normalized_locale(up)[i]
            == normalized_locale(locale)[i] by {
            let c = locale[i];
            if 'a' <= c && c <= 'z' {
                assert((((c as u32) - 32) as char) as u32 == (c as u32) - 32);
                assert(((((c as u32) - 32) as char) as u32 + 32) as char == c);
            }
        }
    }
    assert(normalized_locale(under) =~= normalized_locale(locale));
}

/// Chinese for Taiwan, Hong Kong and Macao, and in the `Hant` script, is
/// Traditional Chinese: every locale that starts with `zh` and has one of
/// `tw`, `hk`, `mo`, `hant` as one of its `-` or `_` separated parts, in any
/// ASCII case, resolves to Traditional Chinese; other `zh` locales to
/// Simplified Chinese.
pub proof fn lemma_traditional_chinese_regions(locale: Seq<char>)
    requires
        starts_with(normalized_locale(locale), "zh"@),
    ensures
        (has_part(normalized_locale(locale), "tw"@) || has_part(normalized_locale(locale), "hk"@)
            || has_part(normalized_locale(locale), "mo"@) || has_part(
            normalized_locale(locale),
            "hant"@,
        )) ==> language_of_locale(locale) == Language::TraditionalChinese,
        !(has_part(normalized_locale(locale), "tw"@) || has_part(normalized_locale(locale), "hk"@)
            || has_part(normalized_locale(locale), "mo"@) || has_part(
            normalized_locale(locale),
            "hant"@,
        )) ==> language_of_locale(locale) == Language::Chinese,
{
}

/// A region or script after `zh` selects Traditional Chinese: `zh-` or `zh_`
/// followed by `tw`, `hk`, `mo` or `hant` in any ASCII case, alone or
/// followed by further `-`/`_` parts.
pub proof fn lemma_zh_region(sep: char, region: Seq<char>, rest: Seq<char>)
    requires
        sep == '-' || sep == '_',
        region == "tw"@ || region == "hk"@ || region == "mo"@ || region == "hant"@ || region
            == "TW"@ || region == "HK"@ || region == "MO"@ || region == "Hant"@,
        rest.len() == 0 || rest[0] == '-' || rest[0] == '_',
    ensures
        language_of_locale("zh"@ + seq![sep] + region + rest) == Language::TraditionalChinese,
{
    reveal_strlit("zh");
    reveal_strlit("tw");
    reveal_strlit("hk");
    reveal_strlit("mo");
    reveal_strlit("hant");
    reveal_strlit("TW");
    reveal_strlit("HK");
    reveal_strlit("MO");
    reveal_strlit("Hant");
    let l = "zh"@ + seq![sep] + region + rest;
    let n = normalized_locale(l);
    let r = normalized_locale(region);
    assert(n.subrange(0, 2) =~= "zh"@);
    assert(starts_with(n, "zh"@));
    assert(n[2] == '-');
    assert(n.subrange(3, 3 + region.len() as int) =~= r);
    assert(rest.len() > 0 ==> n[3 + region.len() as int] == '-');
    if region == "tw"@ || region == "TW"@ {
        assert(r =~= "tw"@);
        assert(occurs_at(n, "tw"@, 3));
    } else if region == "hk"@ || region == "HK"@ {
        assert(r =~= "hk"@);
        assert(occurs_at(n, "hk"@, 3));
    } else if region == "mo"@ || region == "MO"@ {
        assert(r =~= "mo"@);
        assert(occurs_at(n, "mo"@, 3));
    } else {
        assert(r =~= "hant"@);
        assert(occurs_at(n, "hant"@, 3));
    }
}

/// The locale that a preference stands for: the system's for `system` or an empty preference.
pub open spec fn preferred_locale(preference: Seq<char>, system: Seq<char>) -> Seq<char> {
    if preference == "system"@ || preference.len() == 0 {
        system
    } else {
        preference
    }
}

fn normalize(locale: &str) -> (v: Vec<char>)
    ensures
        v@ == normalized_locale(locale@),
{
    let chars = chars_of(locale);
    let mut v: Vec<char> = Vec::new();
    let mut i: usize = 0;
    while i < chars.len()
        invariant
            i <= chars.len(),
            chars@ == locale@,
            v@ == normalized_locale(locale@).take(i as int),
        decreases chars.len() - i,
    {
        let c = chars[i];
        let d = if c == '_' {
            '-'
        } else if 'A' <= c && c <= 'Z' {
            ((c as u8) + 32) as char
        } else {
            c
        };
        v.push(d);
        i = i + 1;
        assert(v@ =~= normalized_locale(locale@).take(i as int));
    }
    assert(normalized_locale(locale@).take(i as int) =~= normalized_locale(locale@));
    v
}

/// Whether `p` occurs in `s` at position `i`.
fn matches_at(s: &Vec<char>, p: &Vec<char>, i: usize) -> (r: bool)
    ensures
        r == occurs_at(s@, p@, i as int),
{
    if i > s.len() || p.len() > s.len() - i {
        return false;
    }
    let mut j: usize = 0;
    while j < p.len()
        invariant
            i + p.len() <= s.len(),
            j <= p.len(),
            forall|k: int| 0 <= k < j ==> s@[i + k] == p@[k],
        decreases p.len() - j,
    {
        if s[i + j] != p[j] {
            assert(s@.subrange(i as int, i + p.len())[j as int] != p@[j as int]);
            return false;
        }
        j = j + 1;
    }
    assert(s@.subrange(i as int, i + p.len()) =~= p@);
    true
}

fn has_part_exec(s: &Vec<char>, part: &str) -> (r: bool)
    requires
        part@.len() > 0,
    ensures
        r == has_part(s@, part@),
{
    let p = chars_of(part);
    let mut i: usize = 0;
    while i < s.len()
        invariant
            p@ == part@,
            p@.len() > 0,
            i <= s.len(),
            forall|k: int|
                #![trigger occurs_at(s@, p@, k)]
                0 <= k < i ==> !(occurs_at(s@, p@, k) && (k == 0 || s@[k - 1] == '-') && (k
                    + p@.len() == s@.len() || s@[k + p@.len()] == '-')),
        decreases s.len() - i,
    {
        if matches_at(s, &p, i) && (i == 0 || s[i - 1] == '-') && (i + p.len() == s.len() || s[i
            + p.len()] == '-') {
            return true;
        }
        i = i + 1;
    }
    assert forall|k: int|
        #![trigger occurs_at(s@, p@, k)]
        occurs_at(s@, p@, k) implies !((k == 0 || s@[k - 1] == '-') && (k + p@.len() == s@.len()
            || s@[k + p@.len()] == '-')) by {
        assert(k < s@.len());
    }
    false
}

fn starts_with_exec(s: &Vec<char>, prefix: &str) -> (r: bool)
    ensures
        r == starts_with(s@, prefix@),
{
    let p = chars_of(prefix);
    matches_at(s, &p, 0)
}

/// The translations of the interface strings: the key (the English source
/// text) and its text in each language, in the order of `language_index`.
pub open spec fn catalog_spec() -> Seq<(&'static str, [&'static str; 8])> {
    seq![
        (
            "Workspace",
            [
                "Workspace",
                "工作区",
                "工作區",
                "ワークスペース",
                "작업 공간",
                "Arbeitsbereich",
                "Espace de travail",
                "Espacio de trabajo",
            ],
        ),
        (
            "Sessions",
            [
                "Sessions",
                "会话",
                "工作階段",
                "セッション",
                "세션",
                "Sitzungen",
                "Sessions",
                "Sesiones",
            ],
        ),
        (
            "Shells",
            [
                "Shells",
                "命令解释器",
                "命令殼層",
                "シェル",
                "셸",
                "Shells",
                "Interpréteurs",
                "Intérpretes",
            ],
        ),
        (
            "Settings",
            [
                "Settings",
                "设置",
                "設定",
                "設定",
                "설정",
                "Einstellungen",
                "Paramètres",
                "Configuración",
            ],
        ),
        (
            "Sidebar",
            [
                "Sidebar",
                "侧边栏",
                "側邊欄",
                "サイドバー",
                "사이드바",
                "Seitenleiste",
                "Barre latérale",
                "Barra lateral",
            ],
        ),
        (
            "New terminal",
            [
                "New terminal",
                "新建终端",
                "新增終端機",
                "新しいターミナル",
                "새 터미널",
                "Neues Terminal",
                "Nouveau terminal",
                "Nueva terminal",
            ],
        ),
        (
            "One workspace. Every shell.",
            [
                "One workspace. Every shell.",
                "一个工作区，容纳所有 Shell。",
                "一個工作區，容納所有 Shell。",
                "すべてのシェルを一か所に。",
                "모든 셸을 한곳에서.",
                "Alle Shells an einem Ort.",
                "Tous vos shells au même endroit.",
                "Todos tus shells en un lugar.",
            ],
        ),
        (
            "Make it yours",
            [
                "Make it yours",
                "个性化设置",
                "個人化設定",
                "自分好みにカスタマイズ",
                "나만의 설정",
                "Dein Terminal",
                "Personnaliser",
                "Personaliza tu terminal",
            ],
        ),
        (
            "Settings help",
            [
                "Appearance updates immediately. Shell and environment changes apply to new tabs.",
                "外观立即生效；Shell 与环境变量变更对新标签生效。",
                "外觀立即生效；Shell 與環境變數變更套用至新分頁。",
                "外観はすぐに反映されます。シェルと環境の変更は新しいタブに適用されます。",
                "모양은 즉시 적용됩니다. 셸과 환경 변경은 새 탭에 적용됩니다.",
                "Darstellung wirkt sofort. Shell- und Umgebungsänderungen gelten für neue Tabs.",
                "L’apparence change immédiatement. Le shell et l’environnement changent pour les nouveaux onglets.",
                "La apariencia cambia al instante. El shell y el entorno se aplican a las nuevas pestañas.",
            ],
        ),
        (
            "Terminal font",
            [
                "Terminal font",
                "终端字号",
                "終端機字級",
                "文字サイズ",
                "터미널 글꼴 크기",
                "Schriftgröße",
                "Taille du texte",
                "Tamaño de texto",
            ],
        ),
        (
            "Command suggestions",
            [
                "Command suggestions",
                "命令自动提示",
                "命令自動提示",
                "コマンド候補",
                "명령 제안",
                "Befehlsvorschläge",
                "Suggestions de commandes",
                "Sugerencias de comandos",
            ],
        ),
        (
            "On",
            [
                "On", "开启", "開啟", "オン", "켜짐", "Ein", "Activé", "Activado",
            ],
        ),
        (
            "Off",
            [
                "Off",
                "关闭",
                "關閉",
                "オフ",
                "꺼짐",
                "Aus",
                "Désactivé",
                "Desactivado",
            ],
        ),
        (
            "Environment",
            [
                "Environment",
                "环境变量",
                "環境變數",
                "環境変数",
                "환경 변수",
                "Umgebung",
                "Environnement",
                "Entorno",
            ],
        ),
        (
            "Inherited",
            [
                "Inherited",
                "继承系统",
                "繼承系統",
                "システムから継承",
                "시스템에서 상속",
                "Geerbt",
                "Hérité",
                "Heredado",
            ],
        ),
        (
            "Global overrides",
            [
                "global overrides",
                "项全局覆盖",
                "項全域覆寫",
                "個の上書き",
                "전역 재정의",
                "globale Vorgaben",
                "remplacements globaux",
                "valores globales",
            ],
        ),
        (
            "Language",
            [
                "Language",
                "界面语言",
                "介面語言",
                "表示言語",
                "표시 언어",
                "Sprache",
                "Langue",
                "Idioma",
            ],
        ),
        (
            "System",
            [
                "System",
                "跟随系统",
                "跟隨系統",
                "システム設定",
                "시스템 설정",
                "System",
                "Système",
                "Sistema",
            ],
        ),
        (
            "Theme",
            [
                "Theme",
                "主题皮肤",
                "主題外觀",
                "テーマ",
                "테마",
                "Design",
                "Thème",
                "Tema",
            ],
        ),
        (
            "Midnight",
            [
                "Midnight",
                "午夜薄荷",
                "午夜薄荷",
                "ミッドナイト",
                "미드나이트",
                "Mitternacht",
                "Minuit",
                "Medianoche",
            ],
        ),
        (
            "Light",
            [
                "Light",
                "明亮",
                "明亮",
                "ライト",
                "밝게",
                "Hell",
                "Clair",
                "Claro",
            ],
        ),
        (
            "Custom",
            [
                "Custom",
                "自定义",
                "自訂",
                "カスタム",
                "사용자 지정",
                "Benutzerdefiniert",
                "Personnalisé",
                "Personalizado",
            ],
        ),
        (
            "Edit config.toml",
            [
                "Edit config.toml",
                "编辑配置文件",
                "編輯設定檔",
                "設定ファイルを編集",
                "설정 파일 편집",
                "Konfiguration bearbeiten",
                "Modifier la configuration",
                "Editar configuración",
            ],
        ),
        (
            "Reload configuration",
            [
                "Reload configuration",
                "重新加载配置",
                "重新載入設定",
                "設定を再読み込み",
                "설정 다시 불러오기",
                "Konfiguration neu laden",
                "Recharger la configuration",
                "Recargar configuración",
            ],
        ),
        (
            "Settings shortcuts",
            [
                "Ctrl + Shift + R reloads · Esc closes settings",
                "Ctrl + Shift + R 重新加载 · Esc 关闭设置",
                "Ctrl + Shift + R 重新載入 · Esc 關閉設定",
                "Ctrl + Shift + R で再読み込み · Esc で閉じる",
                "Ctrl + Shift + R 다시 불러오기 · Esc 닫기",
                "Ctrl + Shift + R neu laden · Esc schließen",
                "Ctrl + Shift + R recharger · Esc fermer",
                "Ctrl + Shift + R recargar · Esc cerrar",
            ],
        ),
        (
            "Ready",
            [
                "Ready",
                "就绪",
                "就緒",
                "準備完了",
                "준비됨",
                "Bereit",
                "Prêt",
                "Listo",
            ],
        ),
        (
            "Running",
            [
                "Running",
                "运行中",
                "執行中",
                "実行中",
                "실행 중",
                "Aktiv",
                "En cours",
                "En ejecución",
            ],
        ),
        (
            "Exited",
            [
                "Exited",
                "已退出",
                "已結束",
                "終了",
                "종료됨",
                "Beendet",
                "Terminé",
                "Finalizado",
            ],
        ),
        (
            "Bundled",
            [
                "bundled",
                "内置",
                "內建",
                "同梱",
                "내장",
                "integriert",
                "intégré",
                "incluido",
            ],
        ),
        (
            "Dismiss",
            [
                "Dismiss",
                "关闭提示",
                "關閉提示",
                "閉じる",
                "닫기",
                "Schließen",
                "Fermer",
                "Cerrar",
            ],
        ),
        (
            "Open a new terminal",
            [
                "Open a new terminal",
                "打开新终端",
                "開啟新終端機",
                "ターミナルを開く",
                "새 터미널 열기",
                "Terminal öffnen",
                "Ouvrir un terminal",
                "Abrir una terminal",
            ],
        ),
        (
            "Launcher shortcuts",
            [
                "↑ ↓ to choose · Enter to open · Esc to close",
                "↑ ↓ 选择 · Enter 打开 · Esc 关闭",
                "↑ ↓ 選擇 · Enter 開啟 · Esc 關閉",
                "↑ ↓ 選択 · Enter 開く · Esc 閉じる",
                "↑ ↓ 선택 · Enter 열기 · Esc 닫기",
                "↑ ↓ auswählen · Enter öffnen · Esc schließen",
                "↑ ↓ choisir · Entrée ouvrir · Esc fermer",
                "↑ ↓ elegir · Intro abrir · Esc cerrar",
            ],
        ),
        (
            "Your next command starts here.",
            [
                "Your next command starts here.",
                "从这里开始下一条命令。",
                "從這裡開始下一個命令。",
                "次のコマンドはここから。",
                "다음 명령을 여기서 시작하세요.",
                "Dein nächster Befehl beginnt hier.",
                "Votre prochaine commande commence ici.",
                "Tu próximo comando empieza aquí.",
            ],
        ),
        (
            "Empty help",
            [
                "Open Bash, PowerShell, or your own shell in a new tab.",
                "在新标签中打开 Bash、PowerShell 或自定义 Shell。",
                "在新分頁開啟 Bash、PowerShell 或自訂 Shell。",
                "新しいタブで Bash、PowerShell、その他のシェルを開きます。",
                "새 탭에서 Bash, PowerShell 또는 사용자 셸을 여세요.",
                "Bash, PowerShell oder eine eigene Shell im neuen Tab öffnen.",
                "Ouvrez Bash, PowerShell ou votre shell dans un nouvel onglet.",
                "Abre Bash, PowerShell u otro shell en una nueva pestaña.",
            ],
        ),
        (
            "Find",
            [
                "Find",
                "查找",
                "尋找",
                "検索",
                "찾기",
                "Suchen",
                "Rechercher",
                "Buscar",
            ],
        ),
        (
            "matches",
            [
                "matches",
                "处匹配",
                "處符合",
                "件一致",
                "개 일치",
                "Treffer",
                "résultats",
                "coincidencias",
            ],
        ),
        (
            "Find shortcuts",
            [
                "Enter next · Esc close",
                "Enter 下一处 · Esc 关闭",
                "Enter 下一處 · Esc 關閉",
                "Enter 次へ · Esc 閉じる",
                "Enter 다음 · Esc 닫기",
                "Enter weiter · Esc schließen",
                "Entrée suivant · Esc fermer",
                "Intro siguiente · Esc cerrar",
            ],
        ),
        (
            "Suggestions",
            [
                "Suggestions",
                "命令提示",
                "命令提示",
                "コマンド候補",
                "명령 제안",
                "Vorschläge",
                "Suggestions",
                "Sugerencias",
            ],
        ),
        (
            "Suggestion shortcuts",
            [
                "Alt + → accepts · Tab completes in the shell",
                "Alt + → 采纳提示 · Tab 使用 Shell 补全",
                "Alt + → 採用提示 · Tab 使用 Shell 補全",
                "Alt + → 採用 · Tab シェル補完",
                "Alt + → 적용 · Tab 셸 자동 완성",
                "Alt + → übernehmen · Tab Shell-Vervollständigung",
                "Alt + → accepter · Tab compléter",
                "Alt + → aceptar · Tab completar",
            ],
        ),
        (
            "Session ended",
            [
                "Session exited. Ctrl + Shift + T opens a new terminal.",
                "会话已退出。按 Ctrl + Shift + T 新建终端。",
                "工作階段已結束。按 Ctrl + Shift + T 新增終端機。",
                "セッション終了。Ctrl + Shift + T で新しいターミナルを開きます。",
                "세션이 종료되었습니다. Ctrl + Shift + T로 새 터미널을 여세요.",
                "Sitzung beendet. Ctrl + Shift + T öffnet ein neues Terminal.",
                "Session terminée. Ctrl + Shift + T ouvre un terminal.",
                "Sesión finalizada. Ctrl + Shift + T abre una terminal.",
            ],
        ),
        (
            "Bash history",
            [
                "Bash history",
                "Bash 历史命令",
                "Bash 歷史命令",
                "Bash 履歴",
                "Bash 기록",
                "Bash-Verlauf",
                "Historique Bash",
                "Historial Bash",
            ],
        ),
    ]
}

/// The catalog of translations.
pub fn catalog() -> (c: Vec<(&'static str, [&'static str; 8])>)
    ensures
        c@ == catalog_spec(),
{
    vec![
        (
            "Workspace",
            [
                "Workspace",
                "工作区",
                "工作區",
                "ワークスペース",
                "작업 공간",
                "Arbeitsbereich",
                "Espace de travail",
                "Espacio de trabajo",
            ],
        ),
        (
            "Sessions",
            [
                "Sessions",
                "会话",
                "工作階段",
                "セッション",
                "세션",
                "Sitzungen",
                "Sessions",
                "Sesiones",
            ],
        ),
        (
            "Shells",
            [
                "Shells",
                "命令解释器",
                "命令殼層",
                "シェル",
                "셸",
                "Shells",
                "Interpréteurs",
                "Intérpretes",
            ],
        ),
        (
            "Settings",
            [
                "Settings",
                "设置",
                "設定",
                "設定",
                "설정",
                "Einstellungen",
                "Paramètres",
                "Configuración",
            ],
        ),
        (
            "Sidebar",
            [
                "Sidebar",
                "侧边栏",
                "側邊欄",
                "サイドバー",
                "사이드바",
                "Seitenleiste",
                "Barre latérale",
                "Barra lateral",
            ],
        ),
        (
            "New terminal",
            [
                "New terminal",
                "新建终端",
                "新增終端機",
                "新しいターミナル",
                "새 터미널",
                "Neues Terminal",
                "Nouveau terminal",
                "Nueva terminal",
            ],
        ),
        (
            "One workspace. Every shell.",
            [
                "One workspace. Every shell.",
                "一个工作区，容纳所有 Shell。",
                "一個工作區，容納所有 Shell。",
                "すべてのシェルを一か所に。",
                "모든 셸을 한곳에서.",
                "Alle Shells an einem Ort.",
                "Tous vos shells au même endroit.",
                "Todos tus shells en un lugar.",
            ],
        ),
        (
            "Make it yours",
            [
                "Make it yours",
                "个性化设置",
                "個人化設定",
                "自分好みにカスタマイズ",
                "나만의 설정",
                "Dein Terminal",
                "Personnaliser",
                "Personaliza tu terminal",
            ],
        ),
        (
            "Settings help",
            [
                "Appearance updates immediately. Shell and environment changes apply to new tabs.",
                "外观立即生效；Shell 与环境变量变更对新标签生效。",
                "外觀立即生效；Shell 與環境變數變更套用至新分頁。",
                "外観はすぐに反映されます。シェルと環境の変更は新しいタブに適用されます。",
                "모양은 즉시 적용됩니다. 셸과 환경 변경은 새 탭에 적용됩니다.",
                "Darstellung wirkt sofort. Shell- und Umgebungsänderungen gelten für neue Tabs.",
                "L’apparence change immédiatement. Le shell et l’environnement changent pour les nouveaux onglets.",
                "La apariencia cambia al instante. El shell y el entorno se aplican a las nuevas pestañas.",
            ],
        ),
        (
            "Terminal font",
            [
                "Terminal font",
                "终端字号",
                "終端機字級",
                "文字サイズ",
                "터미널 글꼴 크기",
                "Schriftgröße",
                "Taille du texte",
                "Tamaño de texto",
            ],
        ),
        (
            "Command suggestions",
            [
                "Command suggestions",
                "命令自动提示",
                "命令自動提示",
                "コマンド候補",
                "명령 제안",
                "Befehlsvorschläge",
                "Suggestions de commandes",
                "Sugerencias de comandos",
            ],
        ),
        (
            "On",
            [
                "On", "开启", "開啟", "オン", "켜짐", "Ein", "Activé", "Activado",
            ],
        ),
        (
            "Off",
            [
                "Off",
                "关闭",
                "關閉",
                "オフ",
                "꺼짐",
                "Aus",
                "Désactivé",
                "Desactivado",
            ],
        ),
        (
            "Environment",
            [
                "Environment",
                "环境变量",
                "環境變數",
                "環境変数",
                "환경 변수",
                "Umgebung",
                "Environnement",
                "Entorno",
            ],
        ),
        (
            "Inherited",
            [
                "Inherited",
                "继承系统",
                "繼承系統",
                "システムから継承",
                "시스템에서 상속",
                "Geerbt",
                "Hérité",
                "Heredado",
            ],
        ),
        (
            "Global overrides",
            [
                "global overrides",
                "项全局覆盖",
                "項全域覆寫",
                "個の上書き",
                "전역 재정의",
                "globale Vorgaben",
                "remplacements globaux",
                "valores globales",
            ],
        ),
        (
            "Language",
            [
                "Language",
                "界面语言",
                "介面語言",
                "表示言語",
                "표시 언어",
                "Sprache",
                "Langue",
                "Idioma",
            ],
        ),
        (
            "System",
            [
                "System",
                "跟随系统",
                "跟隨系統",
                "システム設定",
                "시스템 설정",
                "System",
                "Système",
                "Sistema",
            ],
        ),
        (
            "Theme",
            [
                "Theme",
                "主题皮肤",
                "主題外觀",
                "テーマ",
                "테마",
                "Design",
                "Thème",
                "Tema",
            ],
        ),
        (
            "Midnight",
            [
                "Midnight",
                "午夜薄荷",
                "午夜薄荷",
                "ミッドナイト",
                "미드나이트",
                "Mitternacht",
                "Minuit",
                "Medianoche",
            ],
        ),
        (
            "Light",
            [
                "Light",
                "明亮",
                "明亮",
                "ライト",
                "밝게",
                "Hell",
                "Clair",
                "Claro",
            ],
        ),
        (
            "Custom",
            [
                "Custom",
                "自定义",
                "自訂",
                "カスタム",
                "사용자 지정",
                "Benutzerdefiniert",
                "Personnalisé",
                "Personalizado",
            ],
        ),
        (
            "Edit config.toml",
            [
                "Edit config.toml",
                "编辑配置文件",
                "編輯設定檔",
                "設定ファイルを編集",
                "설정 파일 편집",
                "Konfiguration bearbeiten",
                "Modifier la configuration",
                "Editar configuración",
            ],
        ),
        (
            "Reload configuration",
            [
                "Reload configuration",
                "重新加载配置",
                "重新載入設定",
                "設定を再読み込み",
                "설정 다시 불러오기",
                "Konfiguration neu laden",
                "Recharger la configuration",
                "Recargar configuración",
            ],
        ),
        (
            "Settings shortcuts",
            [
                "Ctrl + Shift + R reloads · Esc closes settings",
                "Ctrl + Shift + R 重新加载 · Esc 关闭设置",
                "Ctrl + Shift + R 重新載入 · Esc 關閉設定",
                "Ctrl + Shift + R で再読み込み · Esc で閉じる",
                "Ctrl + Shift + R 다시 불러오기 · Esc 닫기",
                "Ctrl + Shift + R neu laden · Esc schließen",
                "Ctrl + Shift + R recharger · Esc fermer",
                "Ctrl + Shift + R recargar · Esc cerrar",
            ],
        ),
        (
            "Ready",
            [
                "Ready",
                "就绪",
                "就緒",
                "準備完了",
                "준비됨",
                "Bereit",
                "Prêt",
                "Listo",
            ],
        ),
        (
            "Running",
            [
                "Running",
                "运行中",
                "執行中",
                "実行中",
                "실행 중",
                "Aktiv",
                "En cours",
                "En ejecución",
            ],
        ),
        (
            "Exited",
            [
                "Exited",
                "已退出",
                "已結束",
                "終了",
                "종료됨",
                "Beendet",
                "Terminé",
                "Finalizado",
            ],
        ),
        (
            "Bundled",
            [
                "bundled",
                "内置",
                "內建",
                "同梱",
                "내장",
                "integriert",
                "intégré",
                "incluido",
            ],
        ),
        (
            "Dismiss",
            [
                "Dismiss",
                "关闭提示",
                "關閉提示",
                "閉じる",
                "닫기",
                "Schließen",
                "Fermer",
                "Cerrar",
            ],
        ),
        (
            "Open a new terminal",
            [
                "Open a new terminal",
                "打开新终端",
                "開啟新終端機",
                "ターミナルを開く",
                "새 터미널 열기",
                "Terminal öffnen",
                "Ouvrir un terminal",
                "Abrir una terminal",
            ],
        ),
        (
            "Launcher shortcuts",
            [
                "↑ ↓ to choose · Enter to open · Esc to close",
                "↑ ↓ 选择 · Enter 打开 · Esc 关闭",
                "↑ ↓ 選擇 · Enter 開啟 · Esc 關閉",
                "↑ ↓ 選択 · Enter 開く · Esc 閉じる",
                "↑ ↓ 선택 · Enter 열기 · Esc 닫기",
                "↑ ↓ auswählen · Enter öffnen · Esc schließen",
                "↑ ↓ choisir · Entrée ouvrir · Esc fermer",
                "↑ ↓ elegir · Intro abrir · Esc cerrar",
            ],
        ),
        (
            "Your next command starts here.",
            [
                "Your next command starts here.",
                "从这里开始下一条命令。",
                "從這裡開始下一個命令。",
                "次のコマンドはここから。",
                "다음 명령을 여기서 시작하세요.",
                "Dein nächster Befehl beginnt hier.",
                "Votre prochaine commande commence ici.",
                "Tu próximo comando empieza aquí.",
            ],
        ),
        (
            "Empty help",
            [
                "Open Bash, PowerShell, or your own shell in a new tab.",
                "在新标签中打开 Bash、PowerShell 或自定义 Shell。",
                "在新分頁開啟 Bash、PowerShell 或自訂 Shell。",
                "新しいタブで Bash、PowerShell、その他のシェルを開きます。",
                "새 탭에서 Bash, PowerShell 또는 사용자 셸을 여세요.",
                "Bash, PowerShell oder eine eigene Shell im neuen Tab öffnen.",
                "Ouvrez Bash, PowerShell ou votre shell dans un nouvel onglet.",
                "Abre Bash, PowerShell u otro shell en una nueva pestaña.",
            ],
        ),
        (
            "Find",
            [
                "Find",
                "查找",
                "尋找",
                "検索",
                "찾기",
                "Suchen",
                "Rechercher",
                "Buscar",
            ],
        ),
        (
            "matches",
            [
                "matches",
                "处匹配",
                "處符合",
                "件一致",
                "개 일치",
                "Treffer",
                "résultats",
                "coincidencias",
            ],
        ),
        (
            "Find shortcuts",
            [
                "Enter next · Esc close",
                "Enter 下一处 · Esc 关闭",
                "Enter 下一處 · Esc 關閉",
                "Enter 次へ · Esc 閉じる",
                "Enter 다음 · Esc 닫기",
                "Enter weiter · Esc schließen",
                "Entrée suivant · Esc fermer",
                "Intro siguiente · Esc cerrar",
            ],
        ),
        (
            "Suggestions",
            [
                "Suggestions",
                "命令提示",
                "命令提示",
                "コマンド候補",
                "명령 제안",
                "Vorschläge",
                "Suggestions",
                "Sugerencias",
            ],
        ),
        (
            "Suggestion shortcuts",
            [
                "Alt + → accepts · Tab completes in the shell",
                "Alt + → 采纳提示 · Tab 使用 Shell 补全",
                "Alt + → 採用提示 · Tab 使用 Shell 補全",
                "Alt + → 採用 · Tab シェル補完",
                "Alt + → 적용 · Tab 셸 자동 완성",
                "Alt + → übernehmen · Tab Shell-Vervollständigung",
                "Alt + → accepter · Tab compléter",
                "Alt + → aceptar · Tab completar",
            ],
        ),
        (
            "Session ended",
            [
                "Session exited. Ctrl + Shift + T opens a new terminal.",
                "会话已退出。按 Ctrl + Shift + T 新建终端。",
                "工作階段已結束。按 Ctrl + Shift + T 新增終端機。",
                "セッション終了。Ctrl + Shift + T で新しいターミナルを開きます。",
                "세션이 종료되었습니다. Ctrl + Shift + T로 새 터미널을 여세요.",
                "Sitzung beendet. Ctrl + Shift + T öffnet ein neues Terminal.",
                "Session terminée. Ctrl + Shift + T ouvre un terminal.",
                "Sesión finalizada. Ctrl + Shift + T abre una terminal.",
            ],
        ),
        (
            "Bash history",
            [
                "Bash history",
                "Bash 历史命令",
                "Bash 歷史命令",
                "Bash 履歴",
                "Bash 기록",
                "Bash-Verlauf",
                "Historique Bash",
                "Historial Bash",
            ],
        ),
    ]
}

/// The interface text of `key` in language `l`: its catalog translation, or
/// `key` itself where the catalog has no entry for it.
pub open spec fn translation(l: Language, key: Seq<char>) -> Seq<char> {
    if exists|i: int| 0 <= i < catalog_spec().len() && (#[trigger] catalog_spec()[i]).0@ == key {
        let i = choose|i: int|
            0 <= i < catalog_spec().len() && (#[trigger] catalog_spec()[i]).0@ == key && (forall|
                j: int,
            | 0 <= j < i ==> (#[trigger] catalog_spec()[j]).0@ != key);
        catalog_spec()[i].1@[language_index(l)]@
    } else {
        key
    }
}

impl Language {
    pub fn index(self) -> (i: usize)
        ensures
            i as int == language_index(self),
    {
        match self {
            Language::English => 0,
            Language::Chinese => 1,
            Language::TraditionalChinese => 2,
            Language::Japanese => 3,
            Language::Korean => 4,
            Language::German => 5,
            Language::French => 6,
            Language::Spanish => 7,
        }
    }

    /// The language of a preference from the configuration; `system` and an
    /// empty preference stand for `system_locale`, the locale of the machine.
    pub fn resolve(preference: &str, system_locale: &str) -> (l: Language)
        ensures
            l == language_of_locale(preferred_locale(preference@, system_locale@)),
    {
        if str_eq(preference, "system") || preference.is_empty() {
            Self::from_locale(system_locale)
        } else {
            Self::from_locale(preference)
        }
    }

    pub fn from_locale(locale: &str) -> (l: Language)
        ensures
            l == language_of_locale(locale@),
    {
        let l = normalize(locale);
        if starts_with_exec(&l, "zh") {
            proof {
                reveal_strlit("tw");
                reveal_strlit("hk");
                reveal_strlit("mo");
                reveal_strlit("hant");
            }
            if has_part_exec(&l, "tw") || has_part_exec(&l, "hk") || has_part_exec(&l, "mo")
                || has_part_exec(&l, "hant") {
                Language::TraditionalChinese
            } else {
                Language::Chinese
            }
        } else if starts_with_exec(&l, "ja") {
            Language::Japanese
        } else if starts_with_exec(&l, "ko") {
            Language::Korean
        } else if starts_with_exec(&l, "de") {
            Language::German
        } else if starts_with_exec(&l, "fr") {
            Language::French
        } else if starts_with_exec(&l, "es") {
            Language::Spanish
        } else {
            Language::English
        }
    }

    /// The interface text of `key` in this language; `key` itself where the
    /// catalog has no translation of it.
    pub fn t<'a>(self, key: &'a str) -> (s: &'a str)
        ensures
            s@ == translation(self, key@),
    {
        let rows = catalog();
        let mut i: usize = 0;
        while i < rows.len()
            invariant
                rows@ == catalog_spec(),
                i <= rows.len(),
                forall|j: int| 0 <= j < i ==> (#[trigger] catalog_spec()[j]).0@ != key@,
            decreases rows.len() - i,
        {
            if str_eq(rows[i].0, key) {
                let ghost w = i as int;
                assert(0 <= w < catalog_spec().len() && catalog_spec()[w].0@ == key@ && (forall|
                    j: int,
                | 0 <= j < w ==> (#[trigger] catalog_spec()[j]).0@ != key@));
                proof {
                    let c = choose|k: int|
                        0 <= k < catalog_spec().len() && (#[trigger] catalog_spec()[k]).0@ == key@
                            && (forall|j: int|
                            0 <= j < k ==> (#[trigger] catalog_spec()[j]).0@ != key@);
                    if c < w {
                        assert(catalog_spec()[c].0@ != key@);
                    } else if c > w {
                        assert(catalog_spec()[w].0@ != key@);
                    }
                }
                let row = rows[i].1;
                return row[self.index()];
            }
            i = i + 1;
        }
        key
    }
}


/// A character that trimming removes from the ends of a text: whitespace
/// (`str::trim`), or for a quoted list entry a quote, comma or space.
pub open spec fn trimmed_char(c: char, quotes: bool) -> bool {
    if quotes {
        c == '"' || c == ',' || c == ' '
    } else {
        is_whitespace(c)
    }
}

pub open spec fn trim_front(s: Seq<char>, quotes: bool) -> Seq<char>
    decreases s.len(),
{
    if s.len() > 0 && trimmed_char(s[0], quotes) {
        trim_front(s.drop_first(), quotes)
    } else {
        s
    }
}

pub open spec fn trim_back(s: Seq<char>, quotes: bool) -> Seq<char>
    decreases s.len(),
{
    if s.len() > 0 && trimmed_char(s.last(), quotes) {
        trim_back(s.drop_last(), quotes)
    } else {
        s
    }
}

/// `s` without the trimmed characters at either end.
pub open spec fn trimmed(s: Seq<char>, quotes: bool) -> Seq<char> {
    trim_back(trim_front(s, quotes), quotes)
}

/// The first entry of a list printed one per line between parentheses:
/// the first line that is not blank and is not a parenthesis, trimmed.
pub open spec fn first_entry(ls: Seq<Seq<char>>) -> Option<Seq<char>>
    decreases ls.len(),
{
    if ls.len() == 0 {
        None
    } else {
        let l = trimmed(ls[0], false);
        if l.len() > 0 && l != "("@ && l != ")"@ {
            Some(l)
        } else {
            first_entry(ls.drop_first())
        }
    }
}

/// The first language of the list that macOS prints for `defaults read -g
/// AppleLanguages`, without its quotes and comma.
pub open spec fn listed_language(output: Seq<char>) -> Option<Seq<char>> {
    match first_entry(lines(output)) {
        Some(l) => Some(trimmed(l, true)),
        None => None,
    }
}

fn is_trimmed_char(c: char, quotes: bool) -> (r: bool)
    ensures
        r == trimmed_char(c, quotes),
{
    if quotes {
        c == '"' || c == ',' || c == ' '
    } else {
        is_whitespace_char(c)
    }
}

fn trim_chars(s: &Vec<char>, quotes: bool) -> (r: Vec<char>)
    ensures
        r@ == trimmed(s@, quotes),
{
    let mut i: usize = 0;
    assert(s@.skip(0) =~= s@);
    while i < s.len() && is_trimmed_char(s[i], quotes)
        invariant
            i <= s.len(),
            trim_front(s@, quotes) == trim_front(s@.skip(i as int), quotes),
        decreases s.len() - i,
    {
        assert(s@.skip(i as int)[0] == s@[i as int]);
        assert(s@.skip(i as int).drop_first() =~= s@.skip(i + 1));
        i = i + 1;
    }
    let mut front: Vec<char> = Vec::new();
    let mut k: usize = i;
    while k < s.len()
        invariant
            i <= k <= s.len(),
            front@ == s@.subrange(i as int, k as int),
        decreases s.len() - k,
    {
        front.push(s[k]);
        k = k + 1;
        assert(front@ =~= s@.subrange(i as int, k as int));
    }
    assert(front@ =~= s@.skip(i as int));
    assert(trim_front(s@, quotes) == front@) by {
        if i < s.len() {
            assert(front@[0] == s@[i as int]);
        }
    }
    let mut j: usize = front.len();
    assert(front@.take(j as int) =~= front@);
    while j > 0 && is_trimmed_char(front[j - 1], quotes)
        invariant
            j <= front.len(),
            trim_back(front@, quotes) == trim_back(front@.take(j as int), quotes),
        decreases j,
    {
        assert(front@.take(j as int).last() == front@[j - 1]);
        assert(front@.take(j as int).drop_last() =~= front@.take(j - 1));
        j = j - 1;
    }
    let mut r: Vec<char> = Vec::new();
    let mut m: usize = 0;
    while m < j
        invariant
            m <= j <= front.len(),
            r@ == front@.take(m as int),
        decreases j - m,
    {
        r.push(front[m]);
        m = m + 1;
        assert(r@ =~= front@.take(m as int));
    }
    assert(trim_back(front@, quotes) == r@) by {
        if j > 0 {
            assert(r@.last() == front@[j - 1]);
        }
    }
    r
}

/// The first language of the list that macOS prints for `defaults read -g
/// AppleLanguages`, without its quotes and comma; `None` for an empty list.
pub fn first_listed_language(output: &str) -> (r: Option<String>)
    ensures
        match r {
            Some(l) => listed_language(output@) == Some(l@),
            None => listed_language(output@) is None,
        },
{
    let all = split_lines(output);
    let ghost ls = all@.map_values(|l: Vec<char>| l@);
    let open = chars_of("(");
    let close = chars_of(")");
    let mut i: usize = 0;
    assert(ls.skip(0) =~= ls);
    while i < all.len()
        invariant
            i <= all.len(),
            ls == all@.map_values(|l: Vec<char>| l@),
            ls == lines(output@),
            open@ == "("@,
            close@ == ")"@,
            first_entry(ls) == first_entry(ls.skip(i as int)),
        decreases all.len() - i,
    {
        assert(ls.skip(i as int)[0] == all@[i as int]@);
        assert(ls.skip(i as int).drop_first() =~= ls.skip(i + 1));
        let line = trim_chars(&all[i], false);
        if line.len() > 0 && !crate::text::chars_eq(&line, &open) && !crate::text::chars_eq(
            &line,
            &close,
        ) {
            let entry = trim_chars(&line, true);
            return Some(string_from_chars(&entry));
        }
        i = i + 1;
    }
    assert(ls.skip(i as int) =~= Seq::<Seq<char>>::empty());
    None
}

} // verus!
