//! The terminal interface's state and how it answers keys: which tab is
//! shown, what is selected, which popup is open, and which work to do next.
use vstd::prelude::*;
use crate::text::{concat, chars_of, string_of, trim, trim_text};
use crate::skill::model::{SkillEntry, EntryView, SkillDoctorIssue, IssueView};
use crate::skill::scan::issue_views;
use crate::skill::lookup::entry_views;
use crate::skill::manager::{
    SkillCommand, SkillAddCommand, SkillInstanceCommand, SkillViewCommand, SkillFormatCommand,
};

verus! {

/// The tabs of the interface.
#[derive(Clone, Copy, Debug, PartialEq, Eq, Structural)]
pub enum Tab {
    Home,
    Skills,
    Sync,
}

/// The tab after `t`, wrapping around.
pub open spec fn tab_after(t: Tab) -> Tab {
    match t {
        Tab::Home => Tab::Skills,
        Tab::Skills => Tab::Sync,
        Tab::Sync => Tab::Home,
    }
}

/// The tab before `t`, wrapping around.
pub open spec fn tab_before(t: Tab) -> Tab {
    match t {
        Tab::Home => Tab::Sync,
        Tab::Skills => Tab::Home,
        Tab::Sync => Tab::Skills,
    }
}

impl Tab {
    /// The next tab.
    pub fn next(self) -> (t: Tab)
        ensures
            t == tab_after(self),
    {
        match self {
            Tab::Home => Tab::Skills,
            Tab::Skills => Tab::Sync,
            Tab::Sync => Tab::Home,
        }
    }

    /// The previous tab.
    pub fn prev(self) -> (t: Tab)
        ensures
            t == tab_before(self),
    {
        match self {
            Tab::Home => Tab::Sync,
            Tab::Skills => Tab::Home,
            Tab::Sync => Tab::Skills,
        }
    }
}

/// What a text prompt is for.
#[derive(Clone, Copy, Debug, PartialEq, Eq, Structural)]
pub enum InputAction {
    AddSkillPath,
    AddSkillGithub,
}

/// What a confirmation is for.
#[derive(Clone, Debug)]
pub enum ConfirmAction {
    RemoveSkill(String),
}

/// A popup over the interface.
#[derive(Clone, Debug)]
pub enum Popup {
    Message { title: String, body: String },
    Input { title: String, value: String, action: InputAction },
    Confirm { title: String, body: String, action: ConfirmAction },
}

/// A key, as the interface tells keys apart.
#[derive(Clone, Copy, Debug, PartialEq, Eq, Structural)]
pub enum Key {
    Char(char),
    Tab,
    BackTab,
    Up,
    Down,
    Left,
    Right,
    Enter,
    Esc,
    Backspace,
    Other,
}

/// Why a skill command was run, which decides what its answer does.
#[derive(Clone, Debug)]
pub enum CommandPurpose {
    Add,
    Enable,
    Disable,
    Remove,
    Rescan,
    Doctor,
    View { name: String },
}

/// Work the interface asks for.
#[derive(Debug)]
pub enum TuiAction {
    Nothing,
    Quit,
    /// Run a skill command and report its answer with `command_done`.
    RunSkill { command: SkillCommand, purpose: CommandPurpose },
    /// Rescan the skills and report them with `skills_refreshed`.
    RefreshSkills,
    /// Test, pull from, push to the sync remote, and report with `sync_done`.
    SyncTest,
    SyncPull,
    SyncPush,
    /// Read the sync configuration again and report with `sync_reloaded`.
    RefreshSync,
}

/// The state of the interface.
#[derive(Debug)]
pub struct TuiState {
    pub current_tab: Tab,
    pub status_message: String,
    pub hello_message: String,
    pub skill_entries: Vec<SkillEntry>,
    pub skill_scan_issues: Vec<SkillDoctorIssue>,
    pub skill_selected: usize,
    pub skill_scroll: usize,
    pub show_skill_detail: bool,
    pub sync_configured: bool,
    pub popup: Option<Popup>,
    pub input_cursor: usize,
    /// The status to show once a refresh asked for by `r` has finished.
    pub after_refresh: Option<String>,
}

pub enum PopupView {
    Message(Seq<char>, Seq<char>),
    Input(Seq<char>, Seq<char>, InputAction),
    Confirm(Seq<char>, Seq<char>, Seq<char>),
}

pub open spec fn popup_view(p: Option<Popup>) -> Option<PopupView> {
    match p {
        None => None,
        Some(Popup::Message { title, body }) => Some(PopupView::Message(title@, body@)),
        Some(Popup::Input { title, value, action }) => Some(PopupView::Input(title@, value@, action)),
        Some(Popup::Confirm { title, body, action: ConfirmAction::RemoveSkill(id) }) => Some(
            PopupView::Confirm(title@, body@, id@),
        ),
    }
}

/// The state, as the key rules see it.
pub struct TuiView {
    pub tab: Tab,
    pub status: Seq<char>,
    pub entries: Seq<EntryView>,
    pub selected: nat,
    pub scroll: nat,
    pub detail: bool,
    pub sync_configured: bool,
    pub popup: Option<PopupView>,
    pub cursor: nat,
    pub after_refresh: Option<Seq<char>>,
    pub greeting: Seq<char>,
    pub issues: Seq<IssueView>,
}

impl View for TuiState {
    type V = TuiView;

    open spec fn view(&self) -> TuiView {
        TuiView {
            tab: self.current_tab,
            status: self.status_message@,
            entries: entry_views(self.skill_entries@),
            selected: self.skill_selected as nat,
            scroll: self.skill_scroll as nat,
            detail: self.show_skill_detail,
            sync_configured: self.sync_configured,
            popup: popup_view(self.popup),
            cursor: self.input_cursor as nat,
            after_refresh: match self.after_refresh {
                Some(s) => Some(s@),
                None => None,
            },
            greeting: self.hello_message@,
            issues: issue_views(self.skill_scan_issues@),
        }
    }
}

/// The work asked for, as the key rules see it.
pub enum ActionView {
    Nothing,
    Quit,
    Add(Seq<char>, bool),
    Enable(Seq<char>),
    Disable(Seq<char>),
    Remove(Seq<char>),
    Rescan,
    Doctor,
    View(Seq<char>, Seq<char>),
    RefreshSkills,
    SyncTest,
    SyncPull,
    SyncPush,
    RefreshSync,
}

pub open spec fn action_view(a: TuiAction) -> ActionView {
    match a {
        TuiAction::Nothing => ActionView::Nothing,
        TuiAction::Quit => ActionView::Quit,
        TuiAction::RunSkill { command, purpose } => match (command, purpose) {
            (SkillCommand::Add(c), CommandPurpose::Add) => match (c.path, c.github) {
                (Some(p), None) => ActionView::Add(p@, false),
                (None, Some(g)) => ActionView::Add(g@, true),
                _ => ActionView::Nothing,
            },
            (SkillCommand::Enable(c), CommandPurpose::Enable) => ActionView::Enable(c.instance_id@),
            (SkillCommand::Disable(c), CommandPurpose::Disable) => ActionView::Disable(c.instance_id@),
            (SkillCommand::Remove(c), CommandPurpose::Remove) => ActionView::Remove(c.instance_id@),
            (SkillCommand::Rescan(f), CommandPurpose::Rescan) => ActionView::Rescan,
            (SkillCommand::Doctor(f), CommandPurpose::Doctor) => ActionView::Doctor,
            (SkillCommand::View(v), CommandPurpose::View { name }) => ActionView::View(v.reference@, name@),
            _ => ActionView::Nothing,
        },
        TuiAction::RefreshSkills => ActionView::RefreshSkills,
        TuiAction::SyncTest => ActionView::SyncTest,
        TuiAction::SyncPull => ActionView::SyncPull,
        TuiAction::SyncPush => ActionView::SyncPush,
        TuiAction::RefreshSync => ActionView::RefreshSync,
    }
}


/// The cursor of an open text prompt stays within its text.
pub open spec fn tui_wf(s: TuiView) -> bool {
    match s.popup {
        Some(PopupView::Input(_, v, _)) => s.cursor <= v.len(),
        _ => true,
    }
}

pub open spec fn with_status(s: TuiView, status: Seq<char>) -> TuiView {
    TuiView { status: status, ..s }
}

pub open spec fn confirm_body(name: Seq<char>, id: Seq<char>) -> Seq<char> {
    "确定要删除 skill '"@ + name + "' (instance: "@ + id + ") 吗？\n按 Y/Enter 确认，其他键取消"@
}

/// Enter in a text prompt: a blank text is refused, otherwise the skill is added.
pub open spec fn input_submit(s: TuiView, action: InputAction, value: Seq<char>) -> (TuiView, ActionView) {
    if trim(value).len() == 0 {
        (with_status(s, if action == InputAction::AddSkillPath { "路径不能为空"@ } else { "GitHub repo 不能为空"@ }), ActionView::Nothing)
    } else {
        (s, ActionView::Add(trim(value), action == InputAction::AddSkillGithub))
    }
}

/// A key while a popup is open; `s` already has the popup closed.
pub open spec fn popup_step(s: TuiView, p: PopupView, key: Key) -> (TuiView, ActionView) {
    match p {
        PopupView::Message(_, _) => (s, ActionView::Nothing),
        PopupView::Input(title, value, action) => match key {
            Key::Esc => (s, ActionView::Nothing),
            Key::Enter => input_submit(s, action, value),
            Key::Char(c) => (
                TuiView { popup: Some(PopupView::Input(title, value.insert(s.cursor as int, c), action)), cursor: s.cursor + 1, ..s },
                ActionView::Nothing,
            ),
            Key::Backspace => if s.cursor > 0 {
                (
                    TuiView {
                        popup: Some(PopupView::Input(title, value.remove(s.cursor - 1), action)),
                        cursor: (s.cursor - 1) as nat,
                        ..s
                    },
                    ActionView::Nothing,
                )
            } else {
                (TuiView { popup: Some(PopupView::Input(title, value, action)), ..s }, ActionView::Nothing)
            },
            Key::Left => (
                TuiView {
                    popup: Some(PopupView::Input(title, value, action)),
                    cursor: if s.cursor > 0 { (s.cursor - 1) as nat } else { s.cursor },
                    ..s
                },
                ActionView::Nothing,
            ),
            Key::Right => (
                TuiView {
                    popup: Some(PopupView::Input(title, value, action)),
                    cursor: if s.cursor < value.len() { s.cursor + 1 } else { s.cursor },
                    ..s
                },
                ActionView::Nothing,
            ),
            _ => (TuiView { popup: Some(PopupView::Input(title, value, action)), ..s }, ActionView::Nothing),
        },
        PopupView::Confirm(_, _, id) => match key {
            Key::Char('y') | Key::Char('Y') | Key::Enter => (s, ActionView::Remove(id)),
            _ => (with_status(s, "操作已取消"@), ActionView::Nothing),
        },
    }
}

/// A key on the skills tab.
pub open spec fn skills_step(s: TuiView, key: Key) -> (TuiView, ActionView) {
    let present = s.selected < s.entries.len();
    let id = s.entries[s.selected as int].installed.instance_id;
    let name = s.entries[s.selected as int].skill.name;
    match key {
        Key::Up | Key::Char('k') => {
            let sel = if s.selected > 0 { (s.selected - 1) as nat } else { s.selected };
            (TuiView { selected: sel, scroll: if sel < s.scroll { sel } else { s.scroll }, ..s }, ActionView::Nothing)
        },
        Key::Down | Key::Char('j') => (
            TuiView {
                selected: if s.entries.len() > 0 && s.selected < s.entries.len() - 1 { s.selected + 1 } else { s.selected },
                ..s
            },
            ActionView::Nothing,
        ),
        Key::Char(' ') | Key::Enter => (TuiView { detail: !s.detail, ..s }, ActionView::Nothing),
        Key::Char('a') => (
            TuiView { popup: Some(PopupView::Input("添加本地 Skill"@, Seq::empty(), InputAction::AddSkillPath)), cursor: 0, ..s },
            ActionView::Nothing,
        ),
        Key::Char('g') => (
            TuiView {
                popup: Some(PopupView::Input("从 GitHub 添加 Skill (owner/repo)"@, Seq::empty(), InputAction::AddSkillGithub)),
                cursor: 0,
                ..s
            },
            ActionView::Nothing,
        ),
        Key::Char('e') => (s, if present { ActionView::Enable(id) } else { ActionView::Nothing }),
        Key::Char('d') => (s, if present { ActionView::Disable(id) } else { ActionView::Nothing }),
        Key::Char('r') => (TuiView { after_refresh: Some("Skill 列表已刷新"@), ..s }, ActionView::RefreshSkills),
        Key::Char('R') => (s, ActionView::Rescan),
        Key::Char('D') => (s, ActionView::Doctor),
        Key::Char('x') => if present {
            (TuiView { popup: Some(PopupView::Confirm("确认删除"@, confirm_body(name, id), id)), ..s }, ActionView::Nothing)
        } else {
            (s, ActionView::Nothing)
        },
        Key::Char('v') => (s, if present { ActionView::View(id, name) } else { ActionView::Nothing }),
        _ => (s, ActionView::Nothing),
    }
}

/// A key on the sync tab.
pub open spec fn sync_step(s: TuiView, key: Key) -> (TuiView, ActionView) {
    match key {
        Key::Char('t') => if s.sync_configured { (s, ActionView::SyncTest) } else { (with_status(s, "未配置同步远端"@), ActionView::Nothing) },
        Key::Char('p') => if s.sync_configured { (s, ActionView::SyncPull) } else { (with_status(s, "未配置同步远端"@), ActionView::Nothing) },
        Key::Char('P') => if s.sync_configured { (s, ActionView::SyncPush) } else { (with_status(s, "未配置同步远端"@), ActionView::Nothing) },
        Key::Char('r') => (s, ActionView::RefreshSync),
        _ => (s, ActionView::Nothing),
    }
}

/// What a key does: Ctrl-C quits; an open popup takes the key; `q` quits,
/// `1`-`3` and Tab / Shift-Tab switch tabs; other keys go to the tab shown.
pub open spec fn key_step(s: TuiView, key: Key, ctrl: bool) -> (TuiView, ActionView) {
    if ctrl && key == Key::Char('c') {
        (s, ActionView::Quit)
    } else {
        match s.popup {
            Some(p) => popup_step(TuiView { popup: None, ..s }, p, key),
            None => match key {
                Key::Char('q') | Key::Char('Q') => (s, ActionView::Quit),
                Key::Char('1') => (TuiView { tab: Tab::Home, ..s }, ActionView::Nothing),
                Key::Char('2') => (TuiView { tab: Tab::Skills, ..s }, ActionView::Nothing),
                Key::Char('3') => (TuiView { tab: Tab::Sync, ..s }, ActionView::Nothing),
                Key::Tab => (TuiView { tab: tab_after(s.tab), ..s }, ActionView::Nothing),
                Key::BackTab => (TuiView { tab: tab_before(s.tab), ..s }, ActionView::Nothing),
                _ => match s.tab {
                    Tab::Home => (s, ActionView::Nothing),
                    Tab::Skills => skills_step(s, key),
                    Tab::Sync => sync_step(s, key),
                },
            },
        }
    }
}

fn insert_char(value: &String, at: usize, c: char) -> (r: String)
    requires
        at <= value@.len(),
    ensures
        r@ == value@.insert(at as int, c),
        r@.len() <= usize::MAX,
{
    let v = chars_of(value.as_str());
    let mut out: Vec<char> = Vec::new();
    let mut i: usize = 0;
    while i < at
        invariant
            i <= at <= v@.len(),
            out@ == v@.take(i as int),
        decreases at - i,
    {
        out.push(v[i]);
        i = i + 1;
        assert(out@ =~= v@.take(i as int));
    }
    out.push(c);
    let mut j: usize = at;
    while j < v.len()
        invariant
            at <= j <= v@.len(),
            out@ == v@.take(at as int).push(c) + v@.subrange(at as int, j as int),
        decreases v@.len() - j,
    {
        out.push(v[j]);
        j = j + 1;
        assert(out@ =~= v@.take(at as int).push(c) + v@.subrange(at as int, j as int));
    }
    assert(out@ =~= v@.insert(at as int, c));
    let n = out.len();
    assert(out@.len() == n);
    string_of(&out)
}

fn remove_char(value: &String, at: usize) -> (r: String)
    requires
        at < value@.len(),
    ensures
        r@ == value@.remove(at as int),
{
    let v = chars_of(value.as_str());
    let mut out: Vec<char> = Vec::new();
    let mut i: usize = 0;
    while i < v.len()
        invariant
            at < v@.len(),
            i <= v@.len(),
            out@ == (if i <= at { v@.take(i as int) } else { v@.take(at as int) + v@.subrange(at + 1, i as int) }),
        decreases v@.len() - i,
    {
        if i != at {
            out.push(v[i]);
        }
        i = i + 1;
        assert(out@ =~= (if i <= at { v@.take(i as int) } else { v@.take(at as int) + v@.subrange(at + 1, i as int) }));
    }
    assert(out@ =~= v@.remove(at as int));
    string_of(&out)
}


fn run_skill(command: SkillCommand, purpose: CommandPurpose) -> (a: TuiAction)
    ensures
        a == (TuiAction::RunSkill { command, purpose }),
{
    TuiAction::RunSkill { command, purpose }
}

impl TuiState {
    fn set_status(&mut self, msg: String)
        ensures
            final(self)@ == with_status(old(self)@, msg@),
            final(self).skill_entries == old(self).skill_entries,
    {
        self.status_message = msg;
    }

    fn popup_key(&mut self, key: Key, popup: Popup) -> (a: TuiAction)
        requires
            old(self).popup is None,
            match popup_view(Some(popup)) {
                Some(PopupView::Input(_, v, _)) => old(self).input_cursor <= v.len(),
                _ => true,
            },
        ensures
            (final(self)@, action_view(a)) == popup_step(old(self)@, popup_view(Some(popup))->0, key),
            tui_wf(final(self)@),
    {
        match popup {
            Popup::Message { .. } => TuiAction::Nothing,
            Popup::Input { title, value, action } => match key {
                Key::Esc => TuiAction::Nothing,
                Key::Enter => {
                    let t = trim_text(value.as_str());
                    if chars_of(t.as_str()).len() == 0 {
                        let msg = match action {
                            InputAction::AddSkillPath => String::from_str("路径不能为空"),
                            InputAction::AddSkillGithub => String::from_str("GitHub repo 不能为空"),
                        };
                        self.set_status(msg);
                        TuiAction::Nothing
                    } else {
                        let cmd = match action {
                            InputAction::AddSkillPath => SkillAddCommand { path: Some(t), github: None, git_ref: None, subdir: None },
                            InputAction::AddSkillGithub => SkillAddCommand { path: None, github: Some(t), git_ref: None, subdir: None },
                        };
                        run_skill(SkillCommand::Add(cmd), CommandPurpose::Add)
                    }
                },
                Key::Char(c) => {
                    let v2 = insert_char(&value, self.input_cursor, c);
                    self.input_cursor = self.input_cursor + 1;
                    self.popup = Some(Popup::Input { title, value: v2, action });
                    TuiAction::Nothing
                },
                Key::Backspace => {
                    if self.input_cursor > 0 {
                        self.input_cursor = self.input_cursor - 1;
                        let v2 = remove_char(&value, self.input_cursor);
                        self.popup = Some(Popup::Input { title, value: v2, action });
                    } else {
                        self.popup = Some(Popup::Input { title, value, action });
                    }
                    TuiAction::Nothing
                },
                Key::Left => {
                    if self.input_cursor > 0 {
                        self.input_cursor = self.input_cursor - 1;
                    }
                    self.popup = Some(Popup::Input { title, value, action });
                    TuiAction::Nothing
                },
                Key::Right => {
                    let n = chars_of(value.as_str()).len();
                    if self.input_cursor < n {
                        self.input_cursor = self.input_cursor + 1;
                    }
                    self.popup = Some(Popup::Input { title, value, action });
                    TuiAction::Nothing
                },
                _ => {
                    self.popup = Some(Popup::Input { title, value, action });
                    TuiAction::Nothing
                },
            },
            Popup::Confirm { title: _, body: _, action: ConfirmAction::RemoveSkill(id) } => match key {
                Key::Char('y') | Key::Char('Y') | Key::Enter => run_skill(
                    SkillCommand::Remove(SkillInstanceCommand { instance_id: id }),
                    CommandPurpose::Remove,
                ),
                _ => {
                    self.set_status(String::from_str("操作已取消"));
                    TuiAction::Nothing
                },
            },
        }
    }

    fn skills_key(&mut self, key: Key) -> (a: TuiAction)
        requires
            tui_wf(old(self)@),
            old(self).popup is None,
        ensures
            (final(self)@, action_view(a)) == skills_step(old(self)@, key),
            tui_wf(final(self)@),
    {
        let ghost ev = entry_views(self.skill_entries@);
        let selected_ok = self.skill_selected < self.skill_entries.len();
        match key {
            Key::Up | Key::Char('k') => {
                if self.skill_selected > 0 {
                    self.skill_selected = self.skill_selected - 1;
                }
                if self.skill_selected < self.skill_scroll {
                    self.skill_scroll = self.skill_selected;
                }
                TuiAction::Nothing
            },
            Key::Down | Key::Char('j') => {
                if self.skill_entries.len() > 0 && self.skill_selected < self.skill_entries.len() - 1 {
                    self.skill_selected = self.skill_selected + 1;
                }
                TuiAction::Nothing
            },
            Key::Char(' ') | Key::Enter => {
                self.show_skill_detail = !self.show_skill_detail;
                TuiAction::Nothing
            },
            Key::Char('a') => {
                self.popup = Some(Popup::Input { title: String::from_str("添加本地 Skill"), value: String::new(), action: InputAction::AddSkillPath });
                self.input_cursor = 0;
                TuiAction::Nothing
            },
            Key::Char('g') => {
                self.popup = Some(Popup::Input {
                    title: String::from_str("从 GitHub 添加 Skill (owner/repo)"),
                    value: String::new(),
                    action: InputAction::AddSkillGithub,
                });
                self.input_cursor = 0;
                TuiAction::Nothing
            },
            Key::Char('e') | Key::Char('d') | Key::Char('x') | Key::Char('v') => {
                if !selected_ok {
                    return TuiAction::Nothing;
                }
                let entry = &self.skill_entries[self.skill_selected];
                assert(ev[self.skill_selected as int] == entry@);
                let id = entry.installed.instance_id.clone();
                let name = entry.skill.name.clone();
                if key == Key::Char('e') {
                    run_skill(SkillCommand::Enable(SkillInstanceCommand { instance_id: id }), CommandPurpose::Enable)
                } else if key == Key::Char('d') {
                    run_skill(SkillCommand::Disable(SkillInstanceCommand { instance_id: id }), CommandPurpose::Disable)
                } else if key == Key::Char('x') {
                    let mut body = concat("确定要删除 skill '", name.as_str());
                    body.append("' (instance: ");
                    body.append(id.as_str());
                    body.append(") 吗？\n按 Y/Enter 确认，其他键取消");
                    self.popup = Some(Popup::Confirm { title: String::from_str("确认删除"), body, action: ConfirmAction::RemoveSkill(id) });
                    TuiAction::Nothing
                } else {
                    run_skill(
                        SkillCommand::View(SkillViewCommand { reference: id, format: SkillFormatCommand { json: false, long: false } }),
                        CommandPurpose::View { name },
                    )
                }
            },
            Key::Char('r') => {
                self.after_refresh = Some(String::from_str("Skill 列表已刷新"));
                TuiAction::RefreshSkills
            },
            Key::Char('R') => run_skill(SkillCommand::Rescan(SkillFormatCommand { json: false, long: false }), CommandPurpose::Rescan),
            Key::Char('D') => run_skill(SkillCommand::Doctor(SkillFormatCommand { json: false, long: false }), CommandPurpose::Doctor),
            _ => TuiAction::Nothing,
        }
    }

    fn sync_key(&mut self, key: Key) -> (a: TuiAction)
        requires
            tui_wf(old(self)@),
        ensures
            (final(self)@, action_view(a)) == sync_step(old(self)@, key),
            tui_wf(final(self)@),
    {
        match key {
            Key::Char('t') | Key::Char('p') | Key::Char('P') => {
                if !self.sync_configured {
                    self.set_status(String::from_str("未配置同步远端"));
                    TuiAction::Nothing
                } else if key == Key::Char('t') {
                    TuiAction::SyncTest
                } else if key == Key::Char('p') {
                    TuiAction::SyncPull
                } else {
                    TuiAction::SyncPush
                }
            },
            Key::Char('r') => TuiAction::RefreshSync,
            _ => TuiAction::Nothing,
        }
    }

    /// Answers a key; `ctrl` tells whether Control was held.
    pub fn handle_key(&mut self, key: Key, ctrl: bool) -> (a: TuiAction)
        requires
            tui_wf(old(self)@),
        ensures
            (final(self)@, action_view(a)) == key_step(old(self)@, key, ctrl),
            tui_wf(final(self)@),
    {
        if ctrl && key == Key::Char('c') {
            return TuiAction::Quit;
        }
        let taken = self.popup.take();
        match taken {
            Some(p) => self.popup_key(key, p),
            None => match key {
                Key::Char('q') | Key::Char('Q') => TuiAction::Quit,
                Key::Char('1') => {
                    self.current_tab = Tab::Home;
                    TuiAction::Nothing
                },
                Key::Char('2') => {
                    self.current_tab = Tab::Skills;
                    TuiAction::Nothing
                },
                Key::Char('3') => {
                    self.current_tab = Tab::Sync;
                    TuiAction::Nothing
                },
                Key::Tab => {
                    self.current_tab = self.current_tab.next();
                    TuiAction::Nothing
                },
                Key::BackTab => {
                    self.current_tab = self.current_tab.prev();
                    TuiAction::Nothing
                },
                _ => match self.current_tab {
                    Tab::Home => TuiAction::Nothing,
                    Tab::Skills => self.skills_key(key),
                    Tab::Sync => self.sync_key(key),
                },
            },
        }
    }
}


/// What the answer to a skill command does to the interface: the answer
/// becomes the status (or a popup, for doctor and view) and the skill list is
/// refreshed; an error becomes the status.
pub open spec fn command_step(s: TuiView, purpose: CommandPurpose, result: Result<Seq<char>, Seq<char>>) -> (TuiView, ActionView) {
    match purpose {
        CommandPurpose::Doctor => match result {
            Ok(m) => (TuiView { popup: Some(PopupView::Message("Skill Doctor"@, m)), ..s }, ActionView::RefreshSkills),
            Err(e) => (with_status(s, "Doctor 失败: "@ + e), ActionView::Nothing),
        },
        CommandPurpose::View { name } => match result {
            Ok(m) => (TuiView { popup: Some(PopupView::Message("Skill: "@ + name@, m)), ..s }, ActionView::Nothing),
            Err(e) => (with_status(s, "查看失败: "@ + e), ActionView::Nothing),
        },
        _ => match result {
            Ok(m) => (with_status(s, m), ActionView::RefreshSkills),
            Err(e) => (with_status(s, failure_prefix(purpose) + e), ActionView::Nothing),
        },
    }
}

pub open spec fn failure_prefix(purpose: CommandPurpose) -> Seq<char> {
    match purpose {
        CommandPurpose::Add => "添加失败: "@,
        CommandPurpose::Enable => "启用失败: "@,
        CommandPurpose::Disable => "停用失败: "@,
        CommandPurpose::Remove => "删除失败: "@,
        CommandPurpose::Rescan => "重扫描失败: "@,
        CommandPurpose::Doctor => "Doctor 失败: "@,
        CommandPurpose::View { .. } => "查看失败: "@,
    }
}

/// The interface after a refresh of the skill list: the new list and its
/// scan issues, with the selection kept inside the list, or the error as the
/// status; then the status a refresh by `r` asked for.
pub open spec fn refresh_step(s: TuiView, result: Result<(Seq<EntryView>, Seq<IssueView>), Seq<char>>) -> TuiView {
    let s1 = match result {
        Ok((entries, issues)) => TuiView {
            entries: entries,
            issues: issues,
            selected: if s.selected >= entries.len() && entries.len() > 0 { (entries.len() - 1) as nat } else { s.selected },
            ..s
        },
        Err(e) => with_status(s, "刷新 skill 失败: "@ + e),
    };
    match s.after_refresh {
        Some(t) => TuiView { status: t, after_refresh: None, ..s1 },
        None => s1,
    }
}

/// Sync work the interface starts.
#[derive(Clone, Copy, Debug, PartialEq, Eq, Structural)]
pub enum SyncWork {
    Test,
    Pull,
    Push,
}

/// The interface after sync work: its outcome as the status; a pull is
/// followed by a refresh of the skill list.
pub open spec fn sync_done_step(s: TuiView, work: SyncWork, result: Result<(), Seq<char>>) -> (TuiView, ActionView) {
    match (work, result) {
        (SyncWork::Test, Ok(_)) => (with_status(s, "Sync remote test passed."@), ActionView::Nothing),
        (SyncWork::Test, Err(e)) => (with_status(s, "Sync test 失败: "@ + e), ActionView::Nothing),
        (SyncWork::Pull, Ok(_)) => (with_status(s, "Pulled remote data."@), ActionView::RefreshSkills),
        (SyncWork::Pull, Err(e)) => (with_status(s, "Pull 失败: "@ + e), ActionView::Nothing),
        (SyncWork::Push, Ok(_)) => (with_status(s, "Pushed local data."@), ActionView::Nothing),
        (SyncWork::Push, Err(e)) => (with_status(s, "Push 失败: "@ + e), ActionView::Nothing),
    }
}

impl TuiState {
    /// The interface as it opens: the home tab, the greeting, the skill list
    /// with its scan issues, and whether a sync remote is configured.
    pub fn new(hello_message: String, entries: Vec<SkillEntry>, issues: Vec<SkillDoctorIssue>, sync_configured: bool) -> (s: Self)
        ensures
            s@.tab == Tab::Home,
            s@.status.len() == 0,
            s@.entries == entry_views(entries@),
            s@.selected == 0 && s@.scroll == 0,
            s@.detail,
            s@.sync_configured == sync_configured,
            s@.popup is None,
            s@.after_refresh is None,
            s@.greeting == hello_message@,
            s@.issues == issue_views(issues@),
            tui_wf(s@),
    {
        TuiState {
            current_tab: Tab::Home,
            status_message: String::new(),
            hello_message,
            skill_entries: entries,
            skill_scan_issues: issues,
            skill_selected: 0,
            skill_scroll: 0,
            show_skill_detail: true,
            sync_configured,
            popup: None,
            input_cursor: 0,
            after_refresh: None,
        }
    }

    /// Takes in the answer to a skill command.
    pub fn command_done(&mut self, purpose: CommandPurpose, result: Result<String, String>) -> (a: TuiAction)
        requires
            tui_wf(old(self)@),
        ensures
            (final(self)@, action_view(a)) == command_step(old(self)@, purpose, match result {
                Ok(m) => Ok(m@),
                Err(e) => Err(e@),
            }),
            tui_wf(final(self)@),
    {
        match purpose {
            CommandPurpose::Doctor => match result {
                Ok(m) => {
                    self.popup = Some(Popup::Message { title: String::from_str("Skill Doctor"), body: m });
                    TuiAction::RefreshSkills
                },
                Err(e) => {
                    self.set_status(concat("Doctor 失败: ", e.as_str()));
                    TuiAction::Nothing
                },
            },
            CommandPurpose::View { name } => match result {
                Ok(m) => {
                    self.popup = Some(Popup::Message { title: concat("Skill: ", name.as_str()), body: m });
                    TuiAction::Nothing
                },
                Err(e) => {
                    self.set_status(concat("查看失败: ", e.as_str()));
                    TuiAction::Nothing
                },
            },
            _ => match result {
                Ok(m) => {
                    self.set_status(m);
                    TuiAction::RefreshSkills
                },
                Err(e) => {
                    let prefix = match purpose {
                        CommandPurpose::Add => "添加失败: ",
                        CommandPurpose::Enable => "启用失败: ",
                        CommandPurpose::Disable => "停用失败: ",
                        CommandPurpose::Remove => "删除失败: ",
                        CommandPurpose::Rescan => "重扫描失败: ",
                        CommandPurpose::Doctor => "Doctor 失败: ",
                        CommandPurpose::View { .. } => "查看失败: ",
                    };
                    self.set_status(concat(prefix, e.as_str()));
                    TuiAction::Nothing
                },
            },
        }
    }

    /// Takes in a refreshed skill list and its issues, or the error.
    pub fn skills_refreshed(&mut self, result: Result<(Vec<SkillEntry>, Vec<SkillDoctorIssue>), String>)
        requires
            tui_wf(old(self)@),
        ensures
            final(self)@ == refresh_step(old(self)@, match result {
                Ok(r) => Ok((entry_views(r.0@), issue_views(r.1@))),
                Err(e) => Err(e@),
            }),
            tui_wf(final(self)@),
    {
        match result {
            Ok((entries, issues)) => {
                self.skill_entries = entries;
                self.skill_scan_issues = issues;
                if self.skill_selected >= self.skill_entries.len() && self.skill_entries.len() > 0 {
                    self.skill_selected = self.skill_entries.len() - 1;
                }
                assert(entry_views(self.skill_entries@).len() == self.skill_entries@.len());
            },
            Err(e) => {
                self.set_status(concat("刷新 skill 失败: ", e.as_str()));
            },
        }
        let after = self.after_refresh.take();
        match after {
            Some(t) => {
                self.status_message = t;
            },
            None => {},
        }
    }

    /// Takes in the outcome of sync work.
    pub fn sync_done(&mut self, work: SyncWork, result: Result<(), String>) -> (a: TuiAction)
        requires
            tui_wf(old(self)@),
        ensures
            (final(self)@, action_view(a)) == sync_done_step(old(self)@, work, match result {
                Ok(_) => Ok(()),
                Err(e) => Err(e@),
            }),
            tui_wf(final(self)@),
    {
        match (work, result) {
            (SyncWork::Test, Ok(_)) => {
                self.set_status(String::from_str("Sync remote test passed."));
                TuiAction::Nothing
            },
            (SyncWork::Test, Err(e)) => {
                self.set_status(concat("Sync test 失败: ", e.as_str()));
                TuiAction::Nothing
            },
            (SyncWork::Pull, Ok(_)) => {
                self.set_status(String::from_str("Pulled remote data."));
                TuiAction::RefreshSkills
            },
            (SyncWork::Pull, Err(e)) => {
                self.set_status(concat("Pull 失败: ", e.as_str()));
                TuiAction::Nothing
            },
            (SyncWork::Push, Ok(_)) => {
                self.set_status(String::from_str("Pushed local data."));
                TuiAction::Nothing
            },
            (SyncWork::Push, Err(e)) => {
                self.set_status(concat("Push 失败: ", e.as_str()));
                TuiAction::Nothing
            },
        }
    }

    /// Takes in whether a sync remote is configured, once `r` reread it.
    pub fn sync_reloaded(&mut self, configured: bool)
        requires
            tui_wf(old(self)@),
        ensures
            final(self)@ == (TuiView { sync_configured: configured, status: "同步配置已刷新"@, ..old(self)@ }),
            tui_wf(final(self)@),
    {
        self.sync_configured = configured;
        self.status_message = String::from_str("同步配置已刷新");
    }
}

} // verus!
