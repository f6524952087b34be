//! What the terminal screens show: the text of each panel, worked out from
//! the interface's state. Colours, layout and animation curves are left to
//! the drawing code; every word, count and piece of padding is decided here.
use vstd::prelude::*;
use crate::text::{concat, chars_of, decimal, decimal_text, has_prefix, string_of_range, text_starts_with};
use crate::skill::model::{SkillEntry, EntryView};
use crate::skill::lookup::entry_views;
use crate::skill::markdown::{split_lines, text_lines};
use crate::storage::RemoteConfig;
use crate::webdav::WebDavPreset;

verus! {

/// `a - b`, or 0 when `b` is larger.
pub open spec fn sat_sub(a: int, b: int) -> int {
    if a >= b { a - b } else { 0 }
}

/// `s` written `n` times.
pub open spec fn repeated(s: Seq<char>, n: nat) -> Seq<char>
    decreases n,
{
    if n == 0 { Seq::empty() } else { repeated(s, (n - 1) as nat) + s }
}

/// `n` spaces.
pub open spec fn spaces(n: nat) -> Seq<char> {
    repeated(seq![' '], n)
}

/// `s` written `n` times.
pub fn repeat_text(s: &str, n: usize) -> (r: String)
    ensures
        r@ == repeated(s@, n as nat),
{
    let mut r = String::new();
    let mut i: usize = 0;
    while i < n
        invariant
            i <= n,
            r@ == repeated(s@, i as nat),
        decreases n - i,
    {
        r.append(s);
        i = i + 1;
    }
    r
}

// ── The skill table ──────────────────────────────────────────────

/// How a skill's source is shown: `⎇ owner/repo` for a GitHub source, the
/// source itself otherwise, with a space on each side.
pub open spec fn source_badge(source: Seq<char>) -> Seq<char> {
    if has_prefix(source, "github:"@) {
        " ⎇ "@ + source.skip(7) + " "@
    } else {
        " "@ + source + " "@
    }
}

/// The state word of the table: `启用` or `停用`.
pub open spec fn status_word(enabled: bool) -> Seq<char> {
    if enabled { "启用"@ } else { "停用"@ }
}

/// The text of one row of the skill table.
#[derive(Debug)]
pub struct SkillRowText {
    /// The row's number, counted from 1.
    pub number: String,
    pub name: String,
    pub enabled: bool,
    pub status: String,
    pub source: String,
    /// The source is a GitHub repository (drawn as a badge).
    pub from_github: bool,
}

pub struct RowView {
    pub number: Seq<char>,
    pub name: Seq<char>,
    pub enabled: bool,
    pub status: Seq<char>,
    pub source: Seq<char>,
    pub from_github: bool,
}

impl View for SkillRowText {
    type V = RowView;

    open spec fn view(&self) -> RowView {
        RowView {
            number: self.number@,
            name: self.name@,
            enabled: self.enabled,
            status: self.status@,
            source: self.source@,
            from_github: self.from_github,
        }
    }
}

/// The row of entry `i`.
pub open spec fn row_of(i: int, e: EntryView) -> RowView {
    RowView {
        number: decimal((i + 1) as nat),
        name: e.skill.name,
        enabled: e.installed.enabled,
        status: status_word(e.installed.enabled),
        source: source_badge(e.installed.source),
        from_github: has_prefix(e.installed.source, "github:"@),
    }
}

/// The badge of a source.
pub fn format_source_badge(source: &str) -> (r: String)
    ensures
        r@ == source_badge(source@),
{
    if text_starts_with(source, "github:") {
        proof { reveal_strlit("github:"); }
        let v = chars_of(source);
        let repo = string_of_range(&v, 7, v.len());
        assert(repo@ =~= source@.skip(7));
        let a = concat(" ⎇ ", repo.as_str());
        concat(a.as_str(), " ")
    } else {
        let a = concat(" ", source);
        concat(a.as_str(), " ")
    }
}

/// The rows of the skill table, one per entry, in order.
pub fn skill_rows(entries: &Vec<SkillEntry>) -> (r: Vec<SkillRowText>)
    ensures
        r@.len() == entries@.len(),
        forall|i: int| 0 <= i < r@.len() ==> (#[trigger] r@[i])@ == row_of(i, entries@[i]@),
{
    let mut r: Vec<SkillRowText> = Vec::new();
    let mut i: usize = 0;
    while i < entries.len()
        invariant
            i <= entries@.len(),
            r@.len() == i,
            forall|k: int| 0 <= k < i ==> (#[trigger] r@[k])@ == row_of(k, entries@[k]@),
        decreases entries@.len() - i,
    {
        let e = &entries[i];
        let enabled = e.installed.enabled;
        let status = if enabled { String::from_str("启用") } else { String::from_str("停用") };
        let row = SkillRowText {
            number: decimal_text((i + 1) as u64),
            name: e.skill.name.clone(),
            enabled,
            status,
            source: format_source_badge(e.installed.source.as_str()),
            from_github: text_starts_with(e.installed.source.as_str(), "github:"),
        };
        r.push(row);
        i = i + 1;
    }
    r
}

/// The title of the skill table.
pub fn skills_title(count: usize) -> (s: String)
    ensures
        s@ == " ⚡ Skills ("@ + decimal(count as nat) + ") "@,
{
    let a = concat(" ⚡ Skills (", decimal_text(count as u64).as_str());
    concat(a.as_str(), ") ")
}

// ── The home page ────────────────────────────────────────────────

/// How many entries are enabled.
pub open spec fn enabled_count(es: Seq<EntryView>) -> nat
    decreases es.len(),
{
    if es.len() == 0 {
        0
    } else {
        enabled_count(es.drop_last()) + if es.last().installed.enabled { 1nat } else { 0nat }
    }
}

/// How many entries come from GitHub.
pub open spec fn github_count(es: Seq<EntryView>) -> nat
    decreases es.len(),
{
    if es.len() == 0 {
        0
    } else {
        github_count(es.drop_last()) + if has_prefix(es.last().installed.source, "github:"@) { 1nat } else { 0nat }
    }
}

/// The figures of the home page's gauges.
#[derive(Debug)]
pub struct HomeCounts {
    pub enabled: usize,
    pub github: usize,
    /// The number of entries, at least 1 (the gauges divide by it).
    pub total: usize,
}

/// The home page's figures: enabled entries, GitHub entries, and the total.
pub fn home_counts(entries: &Vec<SkillEntry>) -> (r: HomeCounts)
    ensures
        r.enabled == enabled_count(entry_views(entries@)),
        r.github == github_count(entry_views(entries@)),
        r.total == if entries@.len() == 0 { 1 } else { entries@.len() },
{
    let ghost ev = entry_views(entries@);
    let mut enabled: usize = 0;
    let mut github: usize = 0;
    let mut i: usize = 0;
    while i < entries.len()
        invariant
            i <= entries@.len(),
            ev == entry_views(entries@),
            enabled == enabled_count(ev.take(i as int)),
            github == github_count(ev.take(i as int)),
            enabled <= i,
            github <= i,
        decreases entries@.len() - i,
    {
        assert(ev.take(i + 1).drop_last() =~= ev.take(i as int));
        assert(ev.take(i + 1).last() == entries@[i as int]@);
        if entries[i].installed.enabled {
            enabled = enabled + 1;
        }
        if text_starts_with(entries[i].installed.source.as_str(), "github:") {
            github = github + 1;
        }
        i = i + 1;
    }
    assert(ev.take(entries@.len() as int) =~= ev);
    let total = if entries.len() == 0 { 1 } else { entries.len() };
    HomeCounts { enabled, github, total }
}

// ── The detail panel ─────────────────────────────────────────────

/// What the detail panel shows of an entry.
#[derive(Debug)]
pub struct DetailText {
    pub name: String,
    /// `● ACTIVE` or `○ INACTIVE`.
    pub state_label: String,
    pub skill_id: String,
    /// The labelled fields, in order.
    pub fields: Vec<(String, String)>,
    /// The description line, when the description is not empty.
    pub description: Option<String>,
    /// The domain and module badges.
    pub domains: Vec<String>,
    pub modules: Vec<String>,
}

pub struct DetailView {
    pub name: Seq<char>,
    pub state_label: Seq<char>,
    pub skill_id: Seq<char>,
    pub fields: Seq<(Seq<char>, Seq<char>)>,
    pub description: Option<Seq<char>>,
    pub domains: Seq<Seq<char>>,
    pub modules: Seq<Seq<char>>,
}

pub open spec fn pair_views(v: Seq<(String, String)>) -> Seq<(Seq<char>, Seq<char>)> {
    v.map_values(|p: (String, String)| (p.0@, p.1@))
}

pub open spec fn text_views(v: Seq<String>) -> Seq<Seq<char>> {
    v.map_values(|s: String| s@)
}

impl View for DetailText {
    type V = DetailView;

    open spec fn view(&self) -> DetailView {
        DetailView {
            name: self.name@,
            state_label: self.state_label@,
            skill_id: self.skill_id@,
            fields: pair_views(self.fields@),
            description: match self.description {
                Some(d) => Some(d@),
                None => None,
            },
            domains: text_views(self.domains@),
            modules: text_views(self.modules@),
        }
    }
}

/// A badge: the text with a space on each side.
pub open spec fn badge(t: Seq<char>) -> Seq<char> {
    " "@ + t + " "@
}

/// The detail panel of an entry.
pub open spec fn detail_of(e: EntryView) -> DetailView {
    DetailView {
        name: e.skill.name,
        state_label: if e.installed.enabled { "● ACTIVE"@ } else { "○ INACTIVE"@ },
        skill_id: e.skill.id,
        fields: seq![
            ("ID"@, e.installed.instance_id),
            ("目录"@, e.installed.dir_name),
            ("路径"@, e.installed.install_path),
            ("来源"@, source_badge(e.installed.source)),
            ("状态"@, if e.installed.enabled { "已启用"@ } else { "已停用"@ }),
            ("创建"@, e.installed.created_at),
            ("更新"@, e.installed.updated_at),
        ],
        description: if e.skill.description.len() == 0 { None } else { Some("    "@ + e.skill.description) },
        domains: e.skill.domains.map_values(|d: Seq<char>| badge(d)),
        modules: e.skill.modules.map_values(|m: Seq<char>| badge(m)),
    }
}

fn badges(v: &Vec<String>) -> (r: Vec<String>)
    ensures
        text_views(r@) == text_views(v@).map_values(|d: Seq<char>| badge(d)),
{
    let mut r: Vec<String> = Vec::new();
    let mut i: usize = 0;
    while i < v.len()
        invariant
            i <= v@.len(),
            r@.len() == i,
            forall|k: int| 0 <= k < i ==> (#[trigger] r@[k])@ == badge(v@[k]@),
        decreases v@.len() - i,
    {
        let a = concat(" ", v[i].as_str());
        let b = concat(a.as_str(), " ");
        r.push(b);
        i = i + 1;
    }
    assert(text_views(r@) =~= text_views(v@).map_values(|d: Seq<char>| badge(d)));
    r
}

fn field(label: &str, value: &String) -> (r: (String, String))
    ensures
        r.0@ == label@,
        r.1@ == value@,
{
    (String::from_str(label), value.clone())
}

/// What the detail panel shows of an entry.
pub fn detail_text(entry: &SkillEntry) -> (r: DetailText)
    ensures
        r@ == detail_of(entry@),
{
    let inst = &entry.installed;
    let mut fields: Vec<(String, String)> = Vec::new();
    fields.push(field("ID", &inst.instance_id));
    fields.push(field("目录", &inst.dir_name));
    fields.push(field("路径", &inst.install_path));
    fields.push((String::from_str("来源"), format_source_badge(inst.source.as_str())));
    let state = if inst.enabled { String::from_str("已启用") } else { String::from_str("已停用") };
    fields.push((String::from_str("状态"), state));
    fields.push(field("创建", &inst.created_at));
    fields.push(field("更新", &inst.updated_at));
    let desc = &entry.skill.description;
    let description = if desc.as_str().unicode_len() == 0 { None } else { Some(concat("    ", desc.as_str())) };
    let r = DetailText {
        name: entry.skill.name.clone(),
        state_label: if inst.enabled { String::from_str("● ACTIVE") } else { String::from_str("○ INACTIVE") },
        skill_id: entry.skill.id.clone(),
        fields,
        description,
        domains: badges(&entry.skill.domains),
        modules: badges(&entry.skill.modules),
    };
    assert(pair_views(r.fields@) =~= detail_of(entry@).fields);
    r
}

// ── The sync panel ───────────────────────────────────────────────

/// The labelled fields of the sync panel for a remote.
pub open spec fn sync_fields_of(remote: RemoteConfig) -> Seq<(Seq<char>, Seq<char>)> {
    match remote {
        RemoteConfig::GitHub(c) => seq![
            ("类型"@, "GitHub"@),
            ("仓库"@, c.repo@),
            ("分支"@, c.branch@),
            ("基础路径"@, c.base_path@),
            ("认证"@, c.auth@),
        ],
        RemoteConfig::WebDav(c) => seq![
            ("类型"@, "WebDAV"@),
            ("端点"@, c.endpoint_url@),
            ("预设"@, match c.preset { WebDavPreset::Jianguoyun => "坚果云"@, WebDavPreset::Custom => "自定义"@ }),
            ("基础路径"@, c.base_path@),
            ("用户名"@, match c.username { Some(u) => u@, None => Seq::empty() }),
        ],
    }
}

/// The labelled fields of the sync panel for a remote.
pub fn sync_fields(remote: &RemoteConfig) -> (r: Vec<(String, String)>)
    ensures
        pair_views(r@) == sync_fields_of(*remote),
{
    let mut r: Vec<(String, String)> = Vec::new();
    match remote {
        RemoteConfig::GitHub(c) => {
            r.push((String::from_str("类型"), String::from_str("GitHub")));
            r.push(field("仓库", &c.repo));
            r.push(field("分支", &c.branch));
            r.push(field("基础路径", &c.base_path));
            r.push(field("认证", &c.auth));
        },
        RemoteConfig::WebDav(c) => {
            r.push((String::from_str("类型"), String::from_str("WebDAV")));
            r.push(field("端点", &c.endpoint_url));
            let preset = match c.preset {
                WebDavPreset::Jianguoyun => String::from_str("坚果云"),
                WebDavPreset::Custom => String::from_str("自定义"),
            };
            r.push((String::from_str("预设"), preset));
            r.push(field("基础路径", &c.base_path));
            let user = match &c.username {
                Some(u) => u.clone(),
                None => String::new(),
            };
            r.push((String::from_str("用户名"), user));
        },
    }
    assert(pair_views(r@) =~= sync_fields_of(*remote));
    r
}

/// `已连接` followed by one to three dots as time goes on.
pub fn connected_text(tick: u64) -> (s: String)
    ensures
        s@ == "已连接"@ + repeated("."@, ((tick / 3) % 4) as nat),
{
    let dots = repeat_text(".", ((tick / 3) % 4) as usize);
    concat("已连接", dots.as_str())
}

// ── Popups ───────────────────────────────────────────────────────

/// The lines of a popup's body.
pub fn popup_lines(body: &str) -> (r: Vec<String>)
    ensures
        text_views(r@) == text_lines(body@),
{
    let lines = split_lines(body);
    let ghost lv = lines@.map_values(|l: Vec<char>| l@);
    let mut r: Vec<String> = Vec::new();
    let mut i: usize = 0;
    while i < lines.len()
        invariant
            i <= lines@.len(),
            lv == lines@.map_values(|l: Vec<char>| l@),
            lv == text_lines(body@),
            r@.len() == i,
            forall|k: int| 0 <= k < i ==> (#[trigger] r@[k])@ == lv[k],
        decreases lines@.len() - i,
    {
        let t = crate::text::string_of(&lines[i]);
        assert(t@ == lv[i as int]);
        r.push(t);
        i = i + 1;
    }
    assert(text_views(r@) =~= lv);
    r
}

// ── Animated marks ───────────────────────────────────────────────

/// The sparkle shown at a moment.
pub open spec fn sparkle_text(k: nat) -> Seq<char> {
    let i = k % 8;
    if i == 0 { "✦"@ } else if i == 1 { "✧"@ } else if i == 2 { "⋆"@ } else if i == 3 { "★"@ }
    else if i == 4 { "✶"@ } else if i == 5 { "✴"@ } else if i == 6 { "✳"@ } else { "✺"@ }
}

/// The sparkle shown at `tick`.
pub fn sparkle(tick: u64) -> (s: &'static str)
    ensures
        s@ == sparkle_text(tick as nat),
{
    let i = tick % 8;
    if i == 0 { "✦" } else if i == 1 { "✧" } else if i == 2 { "⋆" } else if i == 3 { "★" }
    else if i == 4 { "✶" } else if i == 5 { "✴" } else if i == 6 { "✳" } else { "✺" }
}

/// The spinner frame shown at a moment.
pub open spec fn spinner_text(k: nat) -> Seq<char> {
    let i = k % 10;
    if i == 0 { "⠋"@ } else if i == 1 { "⠙"@ } else if i == 2 { "⠹"@ } else if i == 3 { "⠸"@ }
    else if i == 4 { "⠼"@ } else if i == 5 { "⠴"@ } else if i == 6 { "⠦"@ } else if i == 7 { "⠧"@ }
    else if i == 8 { "⠇"@ } else { "⠏"@ }
}

/// The spinner frame shown at `tick`.
pub fn spinner(tick: u64) -> (s: &'static str)
    ensures
        s@ == spinner_text(tick as nat),
{
    let i = tick % 10;
    if i == 0 { "⠋" } else if i == 1 { "⠙" } else if i == 2 { "⠹" } else if i == 3 { "⠸" }
    else if i == 4 { "⠼" } else if i == 5 { "⠴" } else if i == 6 { "⠦" } else if i == 7 { "⠧" }
    else if i == 8 { "⠇" } else { "⠏" }
}

/// The dashes on each side of a divider `width` cells wide.
pub fn divider_dashes(width: u16) -> (s: String)
    ensures
        s@ == repeated("─"@, (sat_sub(width as int, 4) / 2) as nat),
{
    let n: usize = if width >= 4 { ((width - 4) / 2) as usize } else { 0 };
    repeat_text("─", n)
}

// ── The empty skill list ─────────────────────────────────────────

/// Which part of the empty-list card a line is.
#[derive(Clone, Copy, Debug, PartialEq, Eq, Structural)]
pub enum CardPart {
    Top,
    Shimmer,
    Message,
    Hint,
    Bottom,
    Faint,
    Blank,
}

/// One line of the card shown when there is no skill: the part, the
/// padding before it, and its text.
#[derive(Debug)]
pub struct CardLine {
    pub part: CardPart,
    pub pad: String,
    pub text: String,
}

pub struct CardLineView {
    pub part: CardPart,
    pub pad: Seq<char>,
    pub text: Seq<char>,
}

impl View for CardLine {
    type V = CardLineView;

    open spec fn view(&self) -> CardLineView {
        CardLineView { part: self.part, pad: self.pad@, text: self.text@ }
    }
}

/// The card's message and hint.
pub open spec fn card_message() -> Seq<char> {
    "  还没有任何 Skill"@
}

pub open spec fn card_hint() -> Seq<char> {
    " 按 a 添加 / g 从 GitHub "@
}

/// The widths of the message and the hint in UTF-8 bytes (the measure the
/// centring uses).
pub open spec fn card_message_bytes() -> int {
    23
}

pub open spec fn card_hint_bytes() -> int {
    29
}

/// The shimmer character of an animation frame.
pub open spec fn skeleton_text(frame: nat) -> Seq<char> {
    let i = frame % 4;
    if i == 0 { "░"@ } else if i == 1 { "▒"@ } else if i == 2 { "▓"@ } else { "▒"@ }
}

/// The width of the card inside a panel `width` cells wide: at most 40,
/// leaving two cells on each side.
pub open spec fn card_width(width: nat) -> nat {
    let w = sat_sub(width as int, 4);
    if w < 40 { w as nat } else { 40 }
}

/// Line `row` of the card in a panel `height` lines high and `width` cells wide.
pub open spec fn card_line(row: nat, height: nat, width: nat, frame: nat) -> CardLineView {
    let mid = (height / 2) as int;
    let bw = card_width(width);
    let pad = spaces((sat_sub(width as int, bw as int) / 2) as nat);
    let bar = repeated("─"@, bw);
    let short = repeated(skeleton_text(frame), sat_sub(bw as int, 4) as nat);
    if row == sat_sub(mid, 4) {
        CardLineView { part: CardPart::Top, pad, text: "╭"@ + bar + "╮"@ }
    } else if row == sat_sub(mid, 3) {
        CardLineView { part: CardPart::Shimmer, pad, text: "│ "@ + short + " │"@ }
    } else if row == sat_sub(mid, 2) {
        CardLineView {
            part: CardPart::Message,
            pad,
            text: spaces((sat_sub(bw as int, card_message_bytes()) / 2) as nat) + card_message(),
        }
    } else if row == sat_sub(mid, 1) {
        CardLineView {
            part: CardPart::Hint,
            pad,
            text: spaces((sat_sub(bw as int, card_hint_bytes()) / 2) as nat) + card_hint(),
        }
    } else if row == mid {
        CardLineView { part: CardPart::Bottom, pad, text: "╰"@ + bar + "╯"@ }
    } else if -8 <= row - mid <= 8 {
        CardLineView { part: CardPart::Faint, pad, text: "│"@ + short + "│"@ }
    } else {
        CardLineView { part: CardPart::Blank, pad: Seq::empty(), text: Seq::empty() }
    }
}

fn skeleton(frame: u64) -> (s: &'static str)
    ensures
        s@ == skeleton_text(frame as nat),
{
    let i = frame % 4;
    if i == 0 { "░" } else if i == 1 { "▒" } else if i == 2 { "▓" } else { "▒" }
}

fn sat_sub_usize(a: usize, b: usize) -> (r: usize)
    ensures
        r == sat_sub(a as int, b as int),
{
    if a >= b { a - b } else { 0 }
}

/// The card shown when there is no skill, line by line, in a panel
/// `height` lines high and `width` cells wide, at animation time `tick`.
pub fn empty_card(height: u16, width: u16, tick: u64) -> (r: Vec<CardLine>)
    ensures
        r@.len() == height,
        forall|i: int| 0 <= i < r@.len() ==> (#[trigger] r@[i])@ == card_line(i as nat, height as nat, width as nat, ((tick / 4) % 4) as nat),
{
    proof { reveal_strlit(" "); }
    assert(" "@ == seq![' ']);
    let frame = (tick / 4) % 4;
    let mid: usize = (height / 2) as usize;
    let w = width as usize;
    let w4 = sat_sub_usize(w, 4);
    let bw: usize = if w4 < 40 { w4 } else { 40 };
    let pad = repeat_text(" ", sat_sub_usize(w, bw) / 2);
    let bar = repeat_text("─", bw);
    let short = repeat_text(skeleton(frame), sat_sub_usize(bw, 4));
    let mut r: Vec<CardLine> = Vec::new();
    let mut row: usize = 0;
    while row < height as usize
        invariant
            row <= height,
            r@.len() == row,
            mid == height / 2,
            bw == card_width(width as nat),
            pad@ == spaces((sat_sub(width as int, bw as int) / 2) as nat),
            bar@ == repeated("─"@, bw as nat),
            short@ == repeated(skeleton_text(frame as nat), sat_sub(bw as int, 4) as nat),
            frame == (tick / 4) % 4,
            " "@ == seq![' '],
            forall|i: int| 0 <= i < row ==> (#[trigger] r@[i])@ == card_line(i as nat, height as nat, width as nat, frame as nat),
        decreases height - row,
    {
        let line = if row == sat_sub_usize(mid, 4) {
            let a = concat("╭", bar.as_str());
            CardLine { part: CardPart::Top, pad: pad.clone(), text: concat(a.as_str(), "╮") }
        } else if row == sat_sub_usize(mid, 3) {
            let a = concat("│ ", short.as_str());
            CardLine { part: CardPart::Shimmer, pad: pad.clone(), text: concat(a.as_str(), " │") }
        } else if row == sat_sub_usize(mid, 2) {
            let inner = repeat_text(" ", sat_sub_usize(bw, 23) / 2);
            CardLine { part: CardPart::Message, pad: pad.clone(), text: concat(inner.as_str(), "  还没有任何 Skill") }
        } else if row == sat_sub_usize(mid, 1) {
            let inner = repeat_text(" ", sat_sub_usize(bw, 29) / 2);
            CardLine { part: CardPart::Hint, pad: pad.clone(), text: concat(inner.as_str(), " 按 a 添加 / g 从 GitHub ") }
        } else if row == mid {
            let a = concat("╰", bar.as_str());
            CardLine { part: CardPart::Bottom, pad: pad.clone(), text: concat(a.as_str(), "╯") }
        } else if (row <= mid && mid - row <= 8) || (row > mid && row - mid <= 8) {
            let a = concat("│", short.as_str());
            CardLine { part: CardPart::Faint, pad: pad.clone(), text: concat(a.as_str(), "│") }
        } else {
            CardLine { part: CardPart::Blank, pad: String::new(), text: String::new() }
        };
        assert(line@ == card_line(row as nat, height as nat, width as nat, frame as nat));
        r.push(line);
        row = row + 1;
    }
    r
}

} // verus!
