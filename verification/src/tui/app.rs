//! The client's state and how actions move it: the message list and
//! its selection, the pager, the reading pane, the prompt and the
//! `:`-commands. Drawing, the store and the daemon are the caller's.
use vstd::prelude::*;
use vstd::view::View as _;

use crate::text::{append_str, chars_of, contains_chars, contains_seq, split_lines, wrapped_spec,
    split_lines_of, string_of};
use crate::tui::commands::{
    argument_of, argument_of_spec, frame_summary, FrameStats, PatchCommand, Prompt, PromptKind,
};
use crate::tui::complete::{lowercased, to_lowercase};
use crate::tui::bulk::{bulk_command, parsed_as, Bulk};
use crate::tui::compose::{choices_for, chooses, selection_after_removal, ComposeState, IdentityChoice};
use crate::tui::drafts::DraftFields;
use crate::config::{account_names, account_names_of, AccountsBar, Loaded};
use crate::tui::folder_picker::{
    move_targets, move_targets_of, no_targets_message, pair_views, picker_step_of, FolderPicker, PickerStep,
};
use crate::tui::mailops::{account_of, account_of_path, folder_of, folder_of_path};
use crate::tui::keys::KeyCode;
use crate::tui::account_form::AccountFormState;
use crate::tui::folder_alias::AliasEdit;
use crate::tui::folders::{sidebar_folders, sidebar_rows_of, AccountEntry};
use crate::tui::identity::ComposeIdentity;
use crate::tui::complete::Contact;
use crate::tui::crypto::PgpPlan;

verus! {

broadcast use vstd::string::group_string_axioms;

/// The list and pager move this many rows on a half-page step.
pub const HALF_PAGE_ROWS: usize = 10;

/// Which screen has the keys.
#[derive(Clone, Copy, Debug, PartialEq, Eq, Structural)]
pub enum View {
    List,
    Pager,
    Image,
    Compose,
    Editor,
    Review,
    Settings,
}

/// Where the next key event goes; resolved before the keymap so an
/// open editor swallows everything raw.
#[derive(Clone, Copy, Debug, PartialEq, Eq, Structural)]
pub enum KeyRoute {
    Prompt,
    Compose,
    Editor,
    Review,
    Settings,
    Keymap,
}

/// Where the reading pane sits.
#[derive(Clone, Copy, Debug, PartialEq, Eq, Structural)]
pub enum ReadingPane {
    Below,
    Right,
    Off,
}

/// The keymap's actions that the list and the pager act on; every
/// other action is `Other`.
#[derive(Clone, Copy, Debug, PartialEq, Eq, Structural)]
pub enum Action {
    MoveDown,
    MoveUp,
    PaneScrollDown,
    PaneScrollUp,
    HalfPageDown,
    HalfPageUp,
    Top,
    Bottom,
    ToggleSidebar,
    ToggleHeaders,
    OpenLink,
    Attachments,
    CycleReadingPane,
    Search,
    Command,
    Back,
    Quit,
    ThreadView,
    MoveTo,
    Compose,
    Help,
    ToggleHtml,
    Open,
    FoldToggle,
    FoldOpen,
    FoldClose,
    RemoveAttachment,
    ToggleSign,
    ToggleEncrypt,
    Other,
}

/// Which accounts the list shows: all of them, or one.
#[derive(Clone, Debug, PartialEq, Eq)]
pub enum ViewScope {
    Unified,
    Account(String),
}

/// A compose the review screen can act on: its chosen identity exists
/// and its attachments can be counted in an `i32`.
pub open spec fn review_ready(s: ComposeState) -> bool {
    &&& s.chosen < s.choices@.len()
    &&& s.attachments@.len() <= i32::MAX
    &&& s.selected_attachment <= i32::MAX
}

/// The attachment selection after a step of `step` on the review
/// screen.
pub open spec fn stepped_selection(s: ComposeState, step: int) -> int {
    if s.attachments@.len() == 0 {
        s.selected_attachment as int
    } else {
        wrapped_spec(s.selected_attachment as int, s.attachments@.len() as int, step)
    }
}

/// `t` is the compose `s` after `action` on the review screen.
pub open spec fn review_step(t: ComposeState, s: ComposeState, action: Action) -> bool {
    match action {
        Action::MoveDown => t == ComposeState { selected_attachment: stepped_selection(s, 1) as usize, ..s },
        Action::MoveUp => t == ComposeState { selected_attachment: stepped_selection(s, -1) as usize, ..s },
        Action::RemoveAttachment => if s.selected_attachment >= s.attachments@.len() {
            t == s
        } else {
            t == ComposeState { attachments: t.attachments, selected_attachment: t.selected_attachment, ..s }
                && t.attachments@ == s.attachments@.remove(s.selected_attachment as int)
                && t.selected_attachment == selection_after_removal(s.selected_attachment as int, s.attachments@.len() as int)
        },
        Action::ToggleSign => t == ComposeState { sign_override: Some(!s.plan_spec().sign), ..s },
        Action::ToggleEncrypt => t == ComposeState { encrypt_override: Some(!s.plan_spec().encrypt), ..s },
        _ => t == s,
    }
}

/// One message of the loaded window.
#[derive(Clone, Debug, PartialEq, Eq)]
pub struct MessageSummary {
    pub id: String,
    pub thread_id: String,
    pub subject: String,
    pub from: String,
    pub to: String,
    pub date_unix: i64,
    pub tags: Vec<String>,
    pub unread: bool,
    pub path: String,
    pub in_reply_to: Option<String>,
    pub references: Vec<String>,
}

/// A change queued for the daemon to replay against the server.
#[derive(Clone, Debug, PartialEq, Eq)]
pub enum OpIntent {
    Move { account: String, message_id: String, to_folder: String, from_folder: String },
    Delete { account: String, message_id: String },
    Flag { account: String, message_id: String, add: Vec<String>, remove: Vec<String> },
}

/// The client's state.
#[derive(Debug)]
pub struct App {
    pub accounts: Vec<String>,
    pub scope: ViewScope,
    pub messages: Vec<MessageSummary>,
    pub total_messages: u32,
    pub current_query: String,
    /// The name the status line gives the running search, if any.
    pub active_search: Option<String>,
    /// The query and search name a thread view returns to.
    pub thread_return: Option<(String, Option<String>)>,
    pub selected: usize,
    pub view: View,
    pub reading_pane: ReadingPane,
    pub has_preview: bool,
    pub sidebar: bool,
    pub headers_all: bool,
    pub preview_scroll: u16,
    pub drawer_open: bool,
    pub drawer_selected: usize,
    pub link_picker_open: bool,
    pub pager_body: String,
    pub pager_scroll: u16,
    pub prompt: Option<Prompt>,
    pub notice: Option<String>,
    pub pending_ops: Vec<OpIntent>,
    pub pending_template: Option<String>,
    pub pending_patches: Option<PatchCommand>,
    pub pending_sign: Option<bool>,
    pub pending_encrypt: Option<bool>,
    pub frame_stats: FrameStats,
    pub own_addresses: Vec<String>,
    pub contacts: Vec<Contact>,
    pub compose: Option<ComposeState>,
    pub bulk: Option<Bulk>,
    pub requery: bool,
    /// Every account's folders as the sidebar knows them.
    pub account_entries: Vec<AccountEntry>,
    /// The configured folder aliases: `(account, folder, alias)`.
    pub folder_aliases: Vec<(String, String, String)>,
    /// The `c` folder picker, while open.
    pub folder_picker: Option<FolderPicker>,
    /// The account form, while open.
    pub account_form: Option<AccountFormState>,
    /// The folder-alias editor, while open.
    pub folder_alias_edit: Option<AliasEdit>,
    pub quit: bool,
}

pub open spec fn open_message_first() -> Seq<char> {
    "open a message first"@
}

/// The sidebar entry that lists everything, which a fresh client
/// starts on.
pub open spec fn all_label() -> Seq<char> {
    "all"@
}

pub open spec fn open_thread_first() -> Seq<char> {
    "open a thread first"@
}

pub open spec fn not_built() -> Seq<char> {
    "not built yet"@
}

/// The last valid selection: the last message, or 0 for none.
pub open spec fn last_index_of(len: int) -> int {
    if len == 0 {
        0
    } else {
        len - 1
    }
}

/// How many of `messages` are unread.
pub open spec fn unread_in(messages: Seq<MessageSummary>) -> nat
    decreases messages.len(),
{
    if messages.len() == 0 {
        0
    } else {
        unread_in(messages.drop_last()) + if messages.last().unread { 1nat } else { 0nat }
    }
}

/// The selection after a list movement.
pub open spec fn list_selection(selected: int, len: int, action: Action) -> int {
    let last = last_index_of(len);
    match action {
        Action::MoveDown => if selected + 1 < last { selected + 1 } else { last },
        Action::MoveUp => if selected >= 1 { selected - 1 } else { 0 },
        Action::HalfPageDown => if selected + 10 < last { selected + 10 } else { last },
        Action::HalfPageUp => if selected >= 10 { selected - 10 } else { 0 },
        Action::Top => 0,
        Action::Bottom => last,
        _ => selected,
    }
}

/// The reading pane after one cycle: below, right, off, below.
pub open spec fn next_pane(pane: ReadingPane) -> ReadingPane {
    match pane {
        ReadingPane::Below => ReadingPane::Right,
        ReadingPane::Right => ReadingPane::Off,
        ReadingPane::Off => ReadingPane::Below,
    }
}

/// The pager's scroll after a movement, clamped to `lines`.
pub open spec fn pager_position(scroll: int, lines: int, action: Action) -> int {
    let max = if lines > 65535 { 65535 } else { lines };
    match action {
        Action::MoveDown => if scroll + 1 < max { scroll + 1 } else { max },
        Action::MoveUp => if scroll >= 1 { scroll - 1 } else { 0 },
        Action::HalfPageDown => if scroll + 10 < max { scroll + 10 } else { max },
        Action::HalfPageUp => if scroll >= 10 { scroll - 10 } else { 0 },
        Action::Top => 0,
        Action::Bottom => max,
        _ => scroll,
    }
}

impl App {
    /// A fresh client over a loaded window of messages: the accounts
    /// named as configured and in order, the list scoped to the first
    /// account when accounts show as tabs (else to all of them), the
    /// reading pane where the configuration puts it, the status line on
    /// the entry that lists everything, `total_messages`
    /// the size of the whole result the window is taken from, and
    /// `own_addresses` the addresses the reader sends as.
    pub fn new(
        loaded: &Loaded,
        folders: Vec<AccountEntry>,
        messages: Vec<MessageSummary>,
        total_messages: u32,
        own_addresses: Vec<String>,
    ) -> (r: App)
        ensures
            r.account_entries == folders,
            r.folder_aliases@ == loaded.folder_aliases@,
            r.folder_picker is None && r.account_form is None && r.folder_alias_edit is None,
            crate::text::texts_of(r.accounts@) == account_names_of(loaded.accounts@),
            loaded.accounts_bar == AccountsBar::Tabs && loaded.accounts@.len() > 0 ==> (r.scope matches ViewScope::Account(
                a,
            ) && a@ == loaded.accounts@[0].name@),
            !(loaded.accounts_bar == AccountsBar::Tabs && loaded.accounts@.len() > 0) ==> r.scope == ViewScope::Unified,
            r.messages == messages,
            r.total_messages == total_messages,
            r.current_query@ == "*"@,
            r.active_search matches Some(a) && a@ == all_label(),
            r.thread_return is None,
            r.own_addresses == own_addresses,
            r.contacts@.len() == 0,
            r.compose is None,
            r.bulk is None,
            r.selected == 0,
            r.view == View::List,
            r.reading_pane == loaded.reading_pane,
            !r.has_preview && r.sidebar && !r.headers_all && r.preview_scroll == 0,
            !r.drawer_open && r.drawer_selected == 0 && !r.link_picker_open,
            r.pager_body@.len() == 0 && r.pager_scroll == 0,
            r.prompt is None && r.notice is None,
            r.pending_ops@.len() == 0,
            r.pending_template is None && r.pending_patches is None,
            r.pending_sign is None && r.pending_encrypt is None,
            r.frame_stats.frames == 0 && r.frame_stats.total() == 0,
            !r.requery && !r.quit,
    {
        let accounts = account_names(loaded);
        let tabs = loaded.accounts_bar == AccountsBar::Tabs;
        let scope = if tabs && loaded.accounts.len() > 0 {
            assert(crate::text::texts_of(accounts@).len() == accounts@.len());
            assert(crate::text::texts_of(accounts@)[0] == accounts@[0]@);
            assert(account_names_of(loaded.accounts@)[0] == loaded.accounts@[0].name@);
            ViewScope::Account(accounts[0].clone())
        } else {
            ViewScope::Unified
        };
        App {
            accounts,
            scope,
            messages,
            total_messages,
            current_query: "*".to_owned(),
            active_search: Some("all".to_owned()),
            thread_return: None,
            selected: 0,
            view: View::List,
            reading_pane: loaded.reading_pane,
            has_preview: false,
            sidebar: true,
            headers_all: false,
            preview_scroll: 0,
            drawer_open: false,
            drawer_selected: 0,
            link_picker_open: false,
            pager_body: String::new(),
            pager_scroll: 0,
            prompt: None,
            notice: None,
            pending_ops: Vec::new(),
            pending_template: None,
            pending_patches: None,
            pending_sign: None,
            pending_encrypt: None,
            frame_stats: FrameStats::default(),
            own_addresses,
            contacts: Vec::new(),
            compose: None,
            bulk: None,
            requery: false,
            quit: false,
            account_entries: folders,
            folder_aliases: copy_aliases(&loaded.folder_aliases),
            folder_picker: None,
            account_form: None,
            folder_alias_edit: None,
        }
    }

    /// Where the next key goes: an open prompt first, then the view.
    pub fn key_route(&self) -> (r: KeyRoute)
        ensures
            r == (if self.prompt is Some {
                KeyRoute::Prompt
            } else {
                match self.view {
                    View::Compose => KeyRoute::Compose,
                    View::Editor => KeyRoute::Editor,
                    View::Review => KeyRoute::Review,
                    View::Settings => KeyRoute::Settings,
                    _ => KeyRoute::Keymap,
                }
            }),
    {
        if self.prompt.is_some() {
            return KeyRoute::Prompt;
        }
        match self.view {
            View::Compose => KeyRoute::Compose,
            View::Editor => KeyRoute::Editor,
            View::Review => KeyRoute::Review,
            View::Settings => KeyRoute::Settings,
            _ => KeyRoute::Keymap,
        }
    }

    /// Whether a refresh was asked for since the last call; asking
    /// clears it.
    pub fn take_requery(&mut self) -> (r: bool)
        ensures
            r == old(self).requery,
            *final(self) == (App { requery: false, ..*old(self) }),
    {
        let r = self.requery;
        self.requery = false;
        r
    }

    /// The index of the last message, or 0 for an empty list.
    pub fn last_index(&self) -> (r: usize)
        ensures
            r == last_index_of(self.messages@.len() as int),
    {
        if self.messages.len() == 0 {
            0
        } else {
            self.messages.len() - 1
        }
    }

    /// The selected message, if the selection is in range.
    pub fn selected_message(&self) -> (r: Option<&MessageSummary>)
        ensures
            self.selected < self.messages@.len() ==> r == Some(&self.messages@[self.selected as int]),
            self.selected >= self.messages@.len() ==> r is None,
    {
        if self.selected < self.messages.len() {
            Some(&self.messages[self.selected])
        } else {
            None
        }
    }

    /// How many loaded messages are unread.
    pub fn unread_count(&self) -> (r: usize)
        ensures
            r == unread_in(self.messages@),
    {
        let mut count: usize = 0;
        let mut i: usize = 0;
        while i < self.messages.len()
            invariant
                i <= self.messages.len(),
                count == unread_in(self.messages@.take(i as int)),
                count <= i,
            decreases self.messages.len() - i,
        {
            proof {
                let t = self.messages@.take(i + 1);
                assert(t.drop_last() =~= self.messages@.take(i as int));
                assert(t.last() == self.messages@[i as int]);
            }
            if self.messages[i].unread {
                count = count + 1;
            }
            i = i + 1;
        }
        assert(self.messages@.take(self.messages.len() as int) =~= self.messages@);
        count
    }

    /// Applies one keymap action in the current view: the list, the
    /// pager and the review screen act on it; the compose, editor and
    /// settings views swallow it unchanged.
    pub fn apply(&mut self, action: Action)
        requires
            old(self).view == View::Review ==> match old(self).compose {
                Some(s) => review_ready(s),
                None => true,
            },
        ensures
            old(self).view == View::List ==> final(self).listed(*old(self), action),
            old(self).view == View::Pager ==> final(self).paged(*old(self), action),
            old(self).view == View::Review ==> final(self).reviewed(*old(self), action),
            !(old(self).view == View::List || old(self).view == View::Pager || old(self).view == View::Review)
                ==> *final(self) == (App { notice: None, ..*old(self) }),
    {
        self.notice = None;
        match self.view {
            View::List => self.apply_in_list(action),
            View::Pager => self.apply_in_pager(action),
            View::Review => self.apply_in_review(action),
            _ => {},
        }
    }

    /// `self` is `before` after `action` on the review screen: the
    /// compose's attachment selection and removal and its seal toggles.
    pub open spec fn reviewed(self, before: App, action: Action) -> bool {
        match before.compose {
            None => self == App { notice: None, ..before },
            Some(s) => self.compose matches Some(t) && self == (App { compose: self.compose, notice: None, ..before })
                && review_step(t, s, action),
        }
    }

    /// The review screen's in-place keys, which mutate the compose
    /// without needing the terminal or the store.
    fn apply_in_review(&mut self, action: Action)
        requires
            old(self).view == View::Review,
            old(self).notice is None,
            match old(self).compose {
                Some(s) => review_ready(s),
                None => true,
            },
        ensures
            final(self).reviewed(*old(self), action),
    {
        let taken = self.compose.take();
        match taken {
            None => {},
            Some(mut state) => {
                let ghost before = state;
                match action {
                    Action::MoveDown => state.select_attachment(1),
                    Action::MoveUp => state.select_attachment(-1),
                    Action::RemoveAttachment => state.remove_selected_attachment(),
                    Action::ToggleSign => {
                        let plan = state.plan();
                        state.sign_override = Some(!plan.sign);
                    },
                    Action::ToggleEncrypt => {
                        let plan = state.plan();
                        state.encrypt_override = Some(!plan.encrypt);
                    },
                    _ => {},
                }
                assert(review_step(state, before, action));
                self.compose = Some(state);
            },
        }
    }

    /// `self` is `before` after `action` in the list view.
    pub open spec fn listed(self, before: App, action: Action) -> bool {
        let moved = list_selection(before.selected as int, before.messages@.len() as int, action);
        let pane_active = before.reading_pane != ReadingPane::Off && before.has_preview;
        match action {
            Action::MoveDown | Action::MoveUp | Action::HalfPageDown | Action::HalfPageUp
            | Action::Top | Action::Bottom => self == App { selected: moved as usize, notice: None, ..before },
            Action::PaneScrollDown => self == App {
                preview_scroll: if before.preview_scroll < 65535 { (before.preview_scroll + 1) as u16 } else { 65535 },
                notice: None,
                ..before
            },
            Action::PaneScrollUp => self == App {
                preview_scroll: if before.preview_scroll > 0 { (before.preview_scroll - 1) as u16 } else { 0 },
                notice: None,
                ..before
            },
            Action::ToggleSidebar => self == App { sidebar: !before.sidebar, notice: None, ..before },
            Action::ToggleHeaders => self == App { headers_all: !before.headers_all, notice: None, ..before },
            Action::OpenLink => if pane_active {
                self == App { link_picker_open: true, notice: None, ..before }
            } else {
                self.notice matches Some(n) && n@ == open_message_first() && self == App { notice: self.notice, ..before }
            },
            Action::Attachments => if !pane_active {
                self.notice matches Some(n) && n@ == open_message_first() && self == App { notice: self.notice, ..before }
            } else if before.drawer_open {
                self == App { drawer_open: false, notice: None, ..before }
            } else {
                self == App { drawer_open: true, drawer_selected: 0, notice: None, ..before }
            },
            Action::CycleReadingPane => self == App { reading_pane: next_pane(before.reading_pane), notice: None, ..before },
            Action::Search => self.prompt matches Some(p) && p.kind == PromptKind::Search && p.buffer@.len() == 0
                && self == App { prompt: self.prompt, notice: None, ..before },
            Action::Command => self.prompt matches Some(p) && p.kind == PromptKind::Command && p.buffer@.len() == 0
                && self == App { prompt: self.prompt, notice: None, ..before },
            Action::Quit => self == App { quit: true, notice: None, ..before },
            Action::ThreadView => self.threaded(before),
            Action::Back => match before.thread_return {
                None => self == App { notice: None, ..before },
                Some((query, search)) => self == App {
                    thread_return: None,
                    current_query: query,
                    active_search: search,
                    requery: true,
                    notice: None,
                    ..before
                },
            },
            Action::MoveTo => self.picked(before),
            Action::FoldToggle | Action::FoldOpen | Action::FoldClose => if before.thread_return is None {
                self.notice matches Some(n) && n@ == open_thread_first() && self == App { notice: self.notice, ..before }
            } else {
                self.notice matches Some(n) && n@ == not_built() && self == App { notice: self.notice, ..before }
            },
            _ => self.notice matches Some(n) && n@ == not_built() && self == App { notice: self.notice, ..before },
        }
    }

    /// `self` is `before` after `c`: with a message selected, the
    /// picker opens on its move targets, or the notice says its account
    /// has no other folder; with none, nothing changes.
    pub open spec fn picked(self, before: App) -> bool {
        if before.selected < before.messages@.len() {
            let t = move_targets_of(
                before.messages@[before.selected as int].path@,
                sidebar_rows_of(before.account_entries@),
                before.folder_aliases@,
            );
            if t.len() == 0 {
                self.notice matches Some(n) && n@ == no_targets_message() && self == App { notice: self.notice, ..before }
            } else {
                self.folder_picker matches Some(p) && pair_views(p.folders@) == t && p.selected == 0 && self == App {
                    folder_picker: self.folder_picker,
                    notice: None,
                    ..before
                }
            }
        } else {
            self == App { notice: None, ..before }
        }
    }

    /// `self` is `before` pivoted onto the selected message's thread:
    /// the query becomes `thread:ID` under the search name `thread`,
    /// and the listing it came from is kept to return to (the first
    /// one, when pivoting again). Nothing selected leaves the list
    /// alone; a message without a thread says so.
    pub open spec fn threaded(self, before: App) -> bool {
        if before.selected >= before.messages@.len() {
            self == App { notice: None, ..before }
        } else if before.messages@[before.selected as int].thread_id@.len() == 0 {
            self.notice matches Some(n) && n@ == "no thread for this message"@ && self == App {
                notice: self.notice,
                ..before
            }
        } else {
            &&& self.current_query@ == "thread:"@ + before.messages@[before.selected as int].thread_id@
            &&& self.active_search matches Some(a) && a@ == "thread"@
            &&& self == App {
                thread_return: if before.thread_return is None {
                    Some((before.current_query, before.active_search))
                } else {
                    before.thread_return
                },
                current_query: self.current_query,
                active_search: self.active_search,
                requery: true,
                notice: None,
                ..before
            }
        }
    }

    /// `self` is `before` after `action` in the pager.
    pub open spec fn paged(self, before: App, action: Action) -> bool {
        let lines = split_lines(before.pager_body@).len() as int;
        match action {
            Action::MoveDown | Action::MoveUp | Action::HalfPageDown | Action::HalfPageUp
            | Action::Top | Action::Bottom => self == App {
                pager_scroll: pager_position(before.pager_scroll as int, lines, action) as u16,
                notice: None,
                ..before
            },
            Action::Quit | Action::Back => self == App { view: View::List, notice: None, ..before },
            _ => self.notice matches Some(n) && n@ == not_built() && self == App { notice: self.notice, ..before },
        }
    }

    fn not_built_notice(&mut self)
        ensures
            final(self).notice matches Some(n) && n@ == not_built(),
            *final(self) == (App { notice: final(self).notice, ..*old(self) }),
    {
        self.notice = Some("not built yet".to_owned());
    }

    fn open_message_first_notice(&mut self)
        ensures
            final(self).notice matches Some(n) && n@ == open_message_first(),
            *final(self) == (App { notice: final(self).notice, ..*old(self) }),
    {
        self.notice = Some("open a message first".to_owned());
    }

    #[verifier::rlimit(40)]
    fn apply_in_list(&mut self, action: Action)
        requires
            old(self).notice is None,
        ensures
            final(self).listed(*old(self), action),
    {
        let last = self.last_index();
        let pane_active = self.reading_pane != ReadingPane::Off && self.has_preview;
        match action {
            Action::MoveDown => {
                self.selected = if self.selected < last && last - self.selected > 1 { self.selected + 1 } else { last };
            },
            Action::MoveUp => {
                self.selected = if self.selected >= 1 { self.selected - 1 } else { 0 };
            },
            Action::HalfPageDown => {
                self.selected = if self.selected < last && last - self.selected > HALF_PAGE_ROWS {
                    self.selected + HALF_PAGE_ROWS
                } else {
                    last
                };
            },
            Action::HalfPageUp => {
                self.selected = if self.selected >= HALF_PAGE_ROWS { self.selected - HALF_PAGE_ROWS } else { 0 };
            },
            Action::Top => self.selected = 0,
            Action::Bottom => self.selected = last,
            Action::PaneScrollDown => {
                if self.preview_scroll < 65535 {
                    self.preview_scroll = self.preview_scroll + 1;
                }
            },
            Action::PaneScrollUp => {
                if self.preview_scroll > 0 {
                    self.preview_scroll = self.preview_scroll - 1;
                }
            },
            Action::ToggleSidebar => self.sidebar = !self.sidebar,
            Action::ToggleHeaders => self.headers_all = !self.headers_all,
            Action::OpenLink => {
                if !pane_active {
                    self.open_message_first_notice();
                } else {
                    self.link_picker_open = true;
                }
            },
            Action::Attachments => {
                if !pane_active {
                    self.open_message_first_notice();
                } else if self.drawer_open {
                    self.drawer_open = false;
                } else {
                    self.drawer_selected = 0;
                    self.drawer_open = true;
                }
            },
            Action::CycleReadingPane => {
                self.reading_pane = match self.reading_pane {
                    ReadingPane::Below => ReadingPane::Right,
                    ReadingPane::Right => ReadingPane::Off,
                    ReadingPane::Off => ReadingPane::Below,
                };
            },
            Action::Search => self.open_prompt(PromptKind::Search),
            Action::Command => self.open_prompt(PromptKind::Command),
            Action::Quit => self.quit = true,
            Action::ThreadView => self.open_thread(),
            Action::Back => self.close_thread(),
            Action::MoveTo => self.open_folder_picker(),
            Action::FoldToggle | Action::FoldOpen | Action::FoldClose => {
                if self.thread_return.is_none() {
                    proof {
                        reveal_strlit("open a thread first");
                    }
                    self.notice = Some("open a thread first".to_owned());
                } else {
                    self.not_built_notice();
                }
            },
            _ => self.not_built_notice(),
        }
    }

    fn open_thread(&mut self)
        requires
            old(self).notice is None,
        ensures
            final(self).threaded(*old(self)),
    {
        if self.selected >= self.messages.len() {
            return;
        }
        let thread = self.messages[self.selected].thread_id.clone();
        if thread.as_str().unicode_len() == 0 {
            self.notice = Some("no thread for this message".to_owned());
            return;
        }
        if self.thread_return.is_none() {
            let search = match &self.active_search {
                Some(a) => Some(a.clone()),
                None => None,
            };
            self.thread_return = Some((self.current_query.clone(), search));
        }
        let mut query = chars_of("thread:");
        append_str(&mut query, thread.as_str());
        self.current_query = string_of(&query);
        self.active_search = Some("thread".to_owned());
        self.requery = true;
    }

    fn close_thread(&mut self)
        requires
            old(self).notice is None,
        ensures
            final(self).listed(*old(self), Action::Back),
    {
        let taken = self.thread_return.take();
        match taken {
            None => {},
            Some((query, search)) => {
                self.current_query = query;
                self.active_search = search;
                self.requery = true;
            },
        }
    }

    fn apply_in_pager(&mut self, action: Action)
        requires
            old(self).notice is None,
        ensures
            final(self).paged(*old(self), action),
    {
        let lines = split_lines_of(&chars_of(self.pager_body.as_str())).len();
        let max: u16 = if lines > 65535 { 65535 } else { lines as u16 };
        let scroll = self.pager_scroll;
        match action {
            Action::MoveDown => self.pager_scroll = if scroll < max && max - scroll > 1 { scroll + 1 } else { max },
            Action::MoveUp => self.pager_scroll = if scroll >= 1 { scroll - 1 } else { 0 },
            Action::HalfPageDown => self.pager_scroll = if scroll < max && max - scroll > 10 { scroll + 10 } else { max },
            Action::HalfPageUp => self.pager_scroll = if scroll >= 10 { scroll - 10 } else { 0 },
            Action::Top => self.pager_scroll = 0,
            Action::Bottom => self.pager_scroll = max,
            Action::Quit | Action::Back => self.view = View::List,
            _ => self.not_built_notice(),
        }
    }

    /// Opens an empty prompt of `kind`.
    pub fn open_prompt(&mut self, kind: PromptKind)
        ensures
            final(self).prompt matches Some(p) && p.kind == kind && p.buffer@.len() == 0,
            *final(self) == (App { prompt: final(self).prompt, ..*old(self) }),
    {
        self.prompt = Some(Prompt { kind, buffer: String::new() });
    }

    /// Types one character into the open prompt.
    pub fn prompt_push(&mut self, ch: char)
        ensures
            match old(self).prompt {
                Some(p) => final(self).prompt matches Some(q) && q.kind == p.kind && q.buffer@ == p.buffer@.push(ch),
                None => final(self).prompt is None,
            },
            *final(self) == (App { prompt: final(self).prompt, ..*old(self) }),
    {
        if let Some(prompt) = self.prompt.take() {
            let mut buffer = prompt.buffer;
            crate::text::push_char(&mut buffer, ch);
            self.prompt = Some(Prompt { kind: prompt.kind, buffer });
        }
    }

    /// Deletes the prompt's last character.
    pub fn prompt_backspace(&mut self)
        ensures
            match old(self).prompt {
                Some(p) => final(self).prompt matches Some(q) && q.kind == p.kind && q.buffer@ == (if p.buffer@.len() == 0 {
                    p.buffer@
                } else {
                    p.buffer@.drop_last()
                }),
                None => final(self).prompt is None,
            },
            *final(self) == (App { prompt: final(self).prompt, ..*old(self) }),
    {
        if let Some(prompt) = self.prompt.take() {
            let mut chars = chars_of(prompt.buffer.as_str());
            if chars.len() > 0 {
                chars.pop();
            }
            self.prompt = Some(Prompt { kind: prompt.kind, buffer: string_of(&chars) });
        }
    }

    /// Closes the prompt without acting on it.
    pub fn prompt_cancel(&mut self)
        ensures
            *final(self) == (App { prompt: None, ..*old(self) }),
    {
        self.prompt = None;
    }

    /// Closes the prompt and hands over what was typed.
    pub fn prompt_submit(&mut self) -> (r: Option<Prompt>)
        ensures
            r == old(self).prompt,
            *final(self) == (App { prompt: None, ..*old(self) }),
    {
        self.prompt.take()
    }

    /// The pgp plan for a compose starting now: the identity default
    /// with any armed per-message overrides consumed.
    pub fn take_pgp_plan(&mut self, default_sign: bool) -> (r: PgpPlan)
        ensures
            r.sign == (match old(self).pending_sign { Some(s) => s, None => default_sign }),
            r.encrypt == (match old(self).pending_encrypt { Some(e) => e, None => false }),
            *final(self) == (App { pending_sign: None, pending_encrypt: None, ..*old(self) }),
    {
        let sign = match self.pending_sign.take() {
            Some(s) => s,
            None => default_sign,
        };
        let encrypt = match self.pending_encrypt.take() {
            Some(e) => e,
            None => false,
        };
        PgpPlan { sign, encrypt }
    }

    /// The account a fresh compose starts from: the account in view
    /// when the scope is pinned to one, else the first configured.
    pub fn compose_account(&self) -> (r: String)
        ensures
            r@ == match self.scope {
                ViewScope::Account(a) => a@,
                ViewScope::Unified => if self.accounts@.len() > 0 {
                    self.accounts@[0]@
                } else {
                    Seq::empty()
                },
            },
    {
        match &self.scope {
            ViewScope::Account(a) => a.clone(),
            ViewScope::Unified => if self.accounts.len() > 0 {
                self.accounts[0].clone()
            } else {
                String::new()
            },
        }
    }

    /// Opens the compose on its fields stage, with the address book
    /// for completion.
    pub fn start_compose(&mut self, state: ComposeState)
        ensures
            final(self).compose matches Some(t) && t == (ComposeState { contacts: t.contacts, ..state })
                && t.contacts@ == old(self).contacts@,
            *final(self) == (App { compose: final(self).compose, view: View::Compose, ..*old(self) }),
    {
        let mut state = state;
        state.contacts = copy_contacts(&self.contacts);
        self.compose = Some(state);
        self.view = View::Compose;
    }

    /// Drops the compose and returns to the list with `notice`.
    pub fn abort_compose(&mut self, notice: &str)
        ensures
            final(self).notice matches Some(n) && n@ == notice@,
            *final(self) == (App { compose: None, view: View::List, notice: final(self).notice, ..*old(self) }),
    {
        self.compose = None;
        self.view = View::List;
        self.notice = Some(notice.to_owned());
    }

    /// A fresh query's results replace the window, with the selection
    /// back at the top.
    pub fn set_results(&mut self, messages: Vec<MessageSummary>, total: u32, query: String)
        ensures
            *final(self) == (App {
                messages,
                total_messages: total,
                selected: 0,
                current_query: query,
                ..*old(self)
            }),
    {
        self.messages = messages;
        self.total_messages = total;
        self.selected = 0;
        self.current_query = query;
    }

    /// Own mail shows who it went to, not who sent it: whether the
    /// lowercased sender field holds one of the reader's addresses.
    pub fn is_own(&self, from: &str) -> (r: bool)
        ensures
            r == exists|i: int|
                0 <= i < self.own_addresses@.len() && contains_seq(
                    lowercased(from@),
                    #[trigger] self.own_addresses@[i]@,
                ),
    {
        let lowered = to_lowercase(from);
        let hay = chars_of(lowered.as_str());
        let mut i: usize = 0;
        while i < self.own_addresses.len()
            invariant
                i <= self.own_addresses@.len(),
                hay@ == lowercased(from@),
                forall|j: int| 0 <= j < i ==> !contains_seq(lowercased(from@), #[trigger] self.own_addresses@[j]@),
            decreases self.own_addresses.len() - i,
        {
            if contains_chars(&hay, &chars_of(self.own_addresses[i].as_str())) {
                return true;
            }
            i = i + 1;
        }
        false
    }
}

/// The op that marks message `m` read on the server.
pub open spec fn mark_read_op(m: MessageSummary) -> (Seq<char>, Seq<char>, Seq<Seq<char>>, Seq<Seq<char>>) {
    (crate::tui::mailops::account_of_path(m.path@), m.id@, Seq::empty(), seq!["unread"@])
}

pub open spec fn flag_view(op: OpIntent) -> Option<(Seq<char>, Seq<char>, Seq<Seq<char>>, Seq<Seq<char>>)> {
    match op {
        OpIntent::Flag { account, message_id, add, remove } => Some(
            (account@, message_id@, crate::text::texts_of(add@), crate::text::texts_of(remove@)),
        ),
        _ => None,
    }
}

impl App {
    /// Opens the pager on a message's text, scrolled to the top. An
    /// unread selected message is marked read, here and, by a queued
    /// flag op, on the server.
    pub fn open_pager(&mut self, body: String)
        ensures
            final(self).view == View::Pager,
            final(self).pager_body == body,
            final(self).pager_scroll == 0,
            final(self).selected == old(self).selected,
            ({
                let sel = old(self).selected as int;
                if sel < old(self).messages@.len() && old(self).messages@[sel].unread {
                    &&& final(self).messages@ == old(self).messages@.update(
                        sel,
                        MessageSummary { unread: false, ..old(self).messages@[sel] },
                    )
                    &&& final(self).pending_ops@.len() == old(self).pending_ops@.len() + 1
                    &&& final(self).pending_ops@.take(old(self).pending_ops@.len() as int) == old(self).pending_ops@
                    &&& flag_view(final(self).pending_ops@.last()) == Some(mark_read_op(old(self).messages@[sel]))
                } else {
                    &&& final(self).messages == old(self).messages
                    &&& final(self).pending_ops == old(self).pending_ops
                }
            }),
            *final(self) == (App {
                view: View::Pager,
                pager_body: final(self).pager_body,
                pager_scroll: 0,
                messages: final(self).messages,
                pending_ops: final(self).pending_ops,
                ..*old(self)
            }),
    {
        self.view = View::Pager;
        self.pager_body = body;
        self.pager_scroll = 0;
        let sel = self.selected;
        if sel < self.messages.len() && self.messages[sel].unread {
            let mut message = self.messages.remove(sel);
            let account = crate::tui::mailops::account_of(message.path.as_str());
            let id = message.id.clone();
            message.unread = false;
            self.messages.insert(sel, message);
            let mut remove: Vec<String> = Vec::new();
            remove.push("unread".to_owned());
            let add: Vec<String> = Vec::new();
            assert(crate::text::texts_of(remove@) =~= seq!["unread"@]);
            assert(crate::text::texts_of(add@) =~= Seq::<Seq<char>>::empty());
            self.pending_ops.push(OpIntent::Flag { account, message_id: id, add, remove });
            assert(self.messages@ =~= old(self).messages@.update(sel as int, MessageSummary { unread: false, ..old(self).messages@[sel as int] }));
            assert(self.pending_ops@.take(old(self).pending_ops@.len() as int) =~= old(self).pending_ops@);
        }
    }
}

/// The status line for the frame statistics.
pub open spec fn stats_text(stats: FrameStats) -> Seq<char> {
    frame_summary(
        stats.frames as nat,
        stats.last_micros as nat,
        (if stats.frames == 0 {
            0
        } else {
            stats.total() / (stats.frames as int)
        }) as nat,
        stats.max_micros as nat,
    )
}

/// The pgp toggles: whether a command targets signing (else
/// encryption) and the value it arms for the next compose.
pub open spec fn pgp_toggle_of(command: Seq<char>) -> Option<(bool, bool)> {
    if command == "sign"@ {
        Some((true, true))
    } else if command == "nosign"@ {
        Some((true, false))
    } else if command == "encrypt"@ {
        Some((false, true))
    } else if command == "noencrypt"@ {
        Some((false, false))
    } else {
        None
    }
}

pub open spec fn toggle_notice(is_sign: bool, value: bool) -> Seq<char> {
    "next compose: "@ + (if is_sign {
        "signing"@
    } else {
        "encryption"@
    }) + (if value {
        " on"@
    } else {
        " off"@
    })
}

impl App {
    /// `self` is `before` after the `:`-command `command`.
    pub open spec fn commanded(self, before: App, command: Seq<char>) -> bool {
        let c = crate::text::trim(command);
        match pgp_toggle_of(c) {
            Some((is_sign, value)) => self.notice matches Some(n) && n@ == toggle_notice(is_sign, value) && if is_sign {
                self == App { pending_sign: Some(value), notice: self.notice, ..before }
            } else {
                self == App { pending_encrypt: Some(value), notice: self.notice, ..before }
            },
            None => if argument_of_spec(c, "template"@) is Some {
                let a = argument_of_spec(c, "template"@)->0;
                if a.len() == 0 {
                    self.notice matches Some(n) && n@ == "usage: template <name>"@ && self == App { notice: self.notice, ..before }
                } else {
                    self.pending_template matches Some(t) && t@ == a && self == App { pending_template: self.pending_template, ..before }
                }
            } else if argument_of_spec(c, "save-patches"@) is Some {
                let a = argument_of_spec(c, "save-patches"@)->0;
                if a.len() == 0 {
                    self.notice matches Some(n) && n@ == "usage: save-patches <path>"@ && self == App { notice: self.notice, ..before }
                } else {
                    self.pending_patches matches Some(PatchCommand::Save(p)) && p@ == a && self == App { pending_patches: self.pending_patches, ..before }
                }
            } else if argument_of_spec(c, "apply"@) is Some {
                let a = argument_of_spec(c, "apply"@)->0;
                if a.len() == 0 {
                    self.notice matches Some(n) && n@ == "usage: apply <repo-dir>"@ && self == App { notice: self.notice, ..before }
                } else {
                    self.pending_patches matches Some(PatchCommand::Apply(p)) && p@ == a && self == App { pending_patches: self.pending_patches, ..before }
                }
            } else if bulk_command(c) is Some {
                (self.bulk matches Some(Bulk::Armed(a)) && parsed_as(c, Some(Ok(a))) && self == App {
                    bulk: self.bulk,
                    ..before
                }) || (self.notice matches Some(u) && parsed_as(c, Some(Err(u))) && self == App {
                    notice: self.notice,
                    ..before
                })
            } else if c == "q"@ || c == "quit"@ {
                self == App { quit: true, ..before }
            } else if c == "frames"@ {
                self.notice matches Some(n) && n@ == stats_text(before.frame_stats) && self == App { notice: self.notice, ..before }
            } else if c.len() == 0 {
                self == before
            } else {
                self.notice matches Some(n) && n@ == "unknown command: "@ + c && self == App { notice: self.notice, ..before }
            },
        }
    }

    /// Runs a `:`-command: the pgp toggles arm the next compose, the
    /// argument commands arm what the event loop consumes (or name
    /// their usage when the argument is missing), the bulk commands arm
    /// their action, `q` quits, `frames`
    /// shows the draw statistics, and anything else is named as
    /// unknown.
    pub fn run_command(&mut self, command: &str)
        ensures
            final(self).commanded(*old(self), command@),
    {
        proof {
            reveal_strlit("sign");
            reveal_strlit("nosign");
            reveal_strlit("encrypt");
            reveal_strlit("noencrypt");
        }
        let c = crate::text::trimmed(&chars_of(command));
        let c = string_of(&c);
        let cs = c.as_str();
        let t = crate::text::str_eq(cs, "sign") || crate::text::str_eq(cs, "nosign");
        if t || crate::text::str_eq(cs, "encrypt") || crate::text::str_eq(cs, "noencrypt") {
            let value = crate::text::str_eq(cs, "sign") || crate::text::str_eq(cs, "encrypt");
            let mut out = chars_of("next compose: ");
            if t {
                self.pending_sign = Some(value);
                append_str(&mut out, "signing");
            } else {
                self.pending_encrypt = Some(value);
                append_str(&mut out, "encryption");
            }
            if value {
                append_str(&mut out, " on");
            } else {
                append_str(&mut out, " off");
            }
            self.notice = Some(string_of(&out));
            return;
        }
        match argument_of(cs, "template") {
            Some(a) => {
                if a.as_str().unicode_len() == 0 {
                    self.notice = Some("usage: template <name>".to_owned());
                } else {
                    self.pending_template = Some(a);
                }
                return;
            },
            None => {},
        }
        match argument_of(cs, "save-patches") {
            Some(a) => {
                if a.as_str().unicode_len() == 0 {
                    self.notice = Some("usage: save-patches <path>".to_owned());
                } else {
                    self.pending_patches = Some(PatchCommand::Save(a));
                }
                return;
            },
            None => {},
        }
        match argument_of(cs, "apply") {
            Some(a) => {
                if a.as_str().unicode_len() == 0 {
                    self.notice = Some("usage: apply <repo-dir>".to_owned());
                } else {
                    self.pending_patches = Some(PatchCommand::Apply(a));
                }
                return;
            },
            None => {},
        }
        if self.arm(cs) {
            return;
        }
        if crate::text::str_eq(cs, "q") || crate::text::str_eq(cs, "quit") {
            self.quit = true;
        } else if crate::text::str_eq(cs, "frames") {
            self.notice = Some(self.frame_stats.summary());
        } else if cs.unicode_len() == 0 {
        } else {
            let mut out = chars_of("unknown command: ");
            append_str(&mut out, cs);
            self.notice = Some(string_of(&out));
        }
    }
}

fn copy_contacts(v: &Vec<Contact>) -> (r: Vec<Contact>)
    ensures
        r@ == v@,
{
    let mut r: Vec<Contact> = Vec::new();
    let mut i: usize = 0;
    while i < v.len()
        invariant
            i <= v@.len(),
            r@ == v@.take(i as int),
        decreases v.len() - i,
    {
        let c = &v[i];
        r.push(Contact { address: c.address.clone(), name: c.name.clone(), score: c.score });
        assert(v@.take(i + 1) =~= v@.take(i as int).push(v@[i as int]));
        i = i + 1;
    }
    assert(v@.take(v.len() as int) =~= v@);
    r
}

impl App {
    /// A compose ready for the fields stage: every configured identity
    /// to cycle through, the one for `account` and `identity` selected
    /// (added first as a one-off when it is no longer configured), and
    /// the armed `:sign`/`:encrypt` overrides consumed.
    pub fn state_for(
        &mut self,
        configured: Vec<IdentityChoice>,
        account: &str,
        identity: &ComposeIdentity,
        fields: DraftFields,
    ) -> (r: ComposeState)
        ensures
            chooses(configured@, account@, *identity, r.choices@, r.chosen as int),
            r.chosen < r.choices@.len(),
            r.fields.texts() == seq![fields.to@, fields.cc@, fields.bcc@, fields.subject@],
            r.body == fields.body,
            r.in_reply_to == fields.in_reply_to,
            r.references == fields.references,
            r.sign_override == old(self).pending_sign,
            r.encrypt_override == old(self).pending_encrypt,
            r.attachments@.len() == 0,
            *final(self) == (App { pending_sign: None, pending_encrypt: None, ..*old(self) }),
    {
        let (choices, chosen) = choices_for(configured, account, identity);
        let sign = self.pending_sign.take();
        let encrypt = self.pending_encrypt.take();
        ComposeState::new(choices, chosen, fields, (sign, encrypt))
    }
}

/// Whether an action moves the list selection.
pub open spec fn is_movement(action: Action) -> bool {
    action == Action::MoveDown || action == Action::MoveUp || action == Action::HalfPageDown || action
        == Action::HalfPageUp || action == Action::Top || action == Action::Bottom
}

/// Moving through the list clamps at both ends: down by one or half a
/// page stops at the last message, up stops at the first, Top and
/// Bottom jump there; the messages stay as they were, and a selection
/// in range stays in range, an empty list included.
pub proof fn law_list_movement_clamps(before: App, after: App, action: Action)
    requires
        is_movement(action),
        after.listed(before, action),
        before.selected <= last_index_of(before.messages@.len() as int),
        before.messages@.len() <= usize::MAX,
    ensures
        after.messages == before.messages,
        after.selected <= last_index_of(before.messages@.len() as int),
        action == Action::MoveDown ==> after.selected == (if before.selected + 1 < last_index_of(
            before.messages@.len() as int,
        ) {
            before.selected + 1
        } else {
            last_index_of(before.messages@.len() as int)
        }),
        action == Action::MoveUp ==> after.selected == (if before.selected >= 1 {
            before.selected - 1
        } else {
            0
        }),
        action == Action::HalfPageDown ==> after.selected == (if before.selected + 10 < last_index_of(
            before.messages@.len() as int,
        ) {
            before.selected + 10
        } else {
            last_index_of(before.messages@.len() as int)
        }),
        action == Action::HalfPageUp ==> after.selected == (if before.selected >= 10 {
            before.selected - 10
        } else {
            0
        }),
        action == Action::Top ==> after.selected == 0,
        action == Action::Bottom ==> after.selected == last_index_of(before.messages@.len() as int),
{
}

/// Scrolling the pager moves by steps and clamps at both ends: with
/// `max` the body's line count (at most 65535), down by one line or by
/// half a page (ten lines) goes no further than `max`, up stops at the
/// top, Top and Bottom jump there; the body, the messages and the view
/// stay as they were, and a scroll within `max` stays within it.
pub proof fn law_pager_movement_clamps(before: App, after: App, action: Action)
    requires
        is_movement(action),
        after.paged(before, action),
    ensures
        ({
            let lines = split_lines(before.pager_body@).len() as int;
            let max = if lines < 65535 { lines } else { 65535 };
            let s = before.pager_scroll as int;
            &&& after.pager_body == before.pager_body
            &&& after.messages == before.messages
            &&& after.view == before.view
            &&& s <= max ==> after.pager_scroll <= max
            &&& action == Action::MoveDown ==> after.pager_scroll == (if s + 1 <= max { s + 1 } else { max })
            &&& action == Action::MoveUp ==> after.pager_scroll == (if s >= 1 { s - 1 } else { 0 })
            &&& action == Action::HalfPageDown ==> after.pager_scroll == (if s + 10 <= max { s + 10 } else { max })
            &&& action == Action::HalfPageUp ==> after.pager_scroll == (if s >= 10 { s - 10 } else { 0 })
            &&& action == Action::Top ==> after.pager_scroll == 0
            &&& action == Action::Bottom ==> after.pager_scroll == max
        }),
{
}

fn copy_aliases(v: &Vec<(String, String, String)>) -> (r: Vec<(String, String, String)>)
    ensures
        r@ == v@,
{
    let mut out: Vec<(String, String, String)> = Vec::new();
    let mut i: usize = 0;
    while i < v.len()
        invariant
            i <= v@.len(),
            out@ == v@.take(i as int),
        decreases v@.len() - i,
    {
        let (a, b, c) = (v[i].0.clone(), v[i].1.clone(), v[i].2.clone());
        out.push((a, b, c));
        assert(out@ =~= v@.take(i + 1));
        i = i + 1;
    }
    assert(v@.take(v@.len() as int) =~= v@);
    out
}

impl App {
    /// `c`: opens the folder picker on the selected message's move
    /// targets, or says its account has no other folder.
    fn open_folder_picker(&mut self)
        requires
            old(self).notice is None,
        ensures
            final(self).picked(*old(self)),
    {
        if self.selected >= self.messages.len() {
            return;
        }
        let rows = sidebar_folders(&self.account_entries);
        match move_targets(self.messages[self.selected].path.as_str(), &rows, &self.folder_aliases) {
            Ok(folders) => {
                self.folder_picker = Some(FolderPicker { folders, selected: 0 });
            },
            Err(message) => {
                self.notice = Some(message);
            },
        }
    }
}

impl App {
    /// `self` is `before` with the selected message moved to `folder`:
    /// the move is queued for the daemon (from the message's own
    /// folder, in its account) and the row leaves the list, the
    /// selection held to what is left. With nothing selected nothing
    /// changes.
    pub open spec fn moved_to(self, before: App, folder: Seq<char>) -> bool {
        if before.selected < before.messages@.len() {
            let m = before.messages@[before.selected as int];
            let rest = before.messages@.remove(before.selected as int);
            &&& self.pending_ops@.len() == before.pending_ops@.len() + 1
            &&& self.pending_ops@.drop_last() == before.pending_ops@
            &&& self.pending_ops@.last() matches OpIntent::Move { account, message_id, to_folder, from_folder }
            &&& account@ == account_of_path(m.path@) && message_id@ == m.id@ && to_folder@ == folder
                && from_folder@ == folder_of_path(m.path@)
            &&& self.messages@ == rest
            &&& self.selected as int == crate::tui::bulk::clamped_selection(before.selected as int, rest.len() as int)
            &&& self == App { pending_ops: self.pending_ops, messages: self.messages, selected: self.selected, ..before }
        } else {
            self == before
        }
    }

    /// Moves the selected message to `folder`.
    pub fn move_selected_to(&mut self, folder: &str)
        ensures
            final(self).moved_to(*old(self), folder@),
    {
        if self.selected >= self.messages.len() {
            return;
        }
        let ghost before = self.messages@;
        let message = self.messages.remove(self.selected);
        let intent = OpIntent::Move {
            account: account_of(message.path.as_str()),
            message_id: message.id.clone(),
            to_folder: folder.to_string(),
            from_folder: folder_of(message.path.as_str()),
        };
        let ghost ops = self.pending_ops@;
        self.pending_ops.push(intent);
        assert(self.pending_ops@.drop_last() =~= ops);
        assert(self.messages@ == before.remove(old(self).selected as int));
        assert(message == before[old(self).selected as int]);
        let len = self.messages.len();
        if len == 0 {
            self.selected = 0;
        } else if self.selected >= len - 1 {
            self.selected = len - 1;
        }
    }

    /// A key while the `c` picker is open: Esc closes it, j/k and the
    /// arrows move its selection, Enter moves the selected message to
    /// the chosen folder, closes the picker and, from the pager, drops
    /// back to the list; any other key changes nothing.
    pub fn feed_picker(&mut self, code: KeyCode)
        requires
            old(self).folder_picker matches Some(p) && p.wf(),
        ensures
            match old(self).folder_picker {
                Some(p) => match picker_step_of(p, code) {
                    PickerStep::Close => *final(self) == (App { folder_picker: None, ..*old(self) }),
                    PickerStep::Select(i) => *final(self) == (App {
                        folder_picker: Some(FolderPicker { selected: i, ..p }),
                        ..*old(self)
                    }),
                    PickerStep::Move(f) => {
                        let closed = App {
                            folder_picker: None,
                            view: if old(self).view == View::Pager { View::List } else { old(self).view },
                            ..*old(self)
                        };
                        final(self).moved_to(closed, f@)
                    },
                    PickerStep::Stay => *final(self) == *old(self),
                },
                None => false,
            },
    {
        let picker = self.folder_picker.take().unwrap();
        match picker.step(code) {
            PickerStep::Close => {},
            PickerStep::Select(i) => {
                self.folder_picker = Some(FolderPicker { selected: i, ..picker });
            },
            PickerStep::Move(folder) => {
                if matches!(self.view, View::Pager) {
                    self.view = View::List;
                }
                self.move_selected_to(folder.as_str());
            },
            PickerStep::Stay => {
                self.folder_picker = Some(picker);
            },
        }
    }
}

/// Where the event loop routes a keymap action before the views see it.
#[derive(Clone, Copy, Debug, PartialEq, Eq, Structural)]
pub enum DispatchStep {
    /// Start a fresh compose from the list.
    FreshCompose,
    /// A reply-family request (the replies module knows which actions
    /// those are).
    Reply,
    /// Open the key cheatsheet.
    Help,
    /// Flip the pager between the plain and the html part.
    TogglePagerHtml,
    /// Flip the list's preview between the plain and the html part.
    TogglePreviewHtml,
    /// Read the selected message into the pager.
    OpenSelected,
    /// Nothing to do.
    Nothing,
    /// Hand the action to `App::apply`.
    Apply,
}

pub open spec fn dispatch_step_of(view: View, action: Action, is_reply: bool, has_selection: bool) -> DispatchStep {
    if action == Action::Compose && view == View::List {
        DispatchStep::FreshCompose
    } else if is_reply {
        DispatchStep::Reply
    } else if action == Action::Help {
        DispatchStep::Help
    } else if action == Action::ToggleHtml {
        if view == View::Pager {
            DispatchStep::TogglePagerHtml
        } else if view == View::List {
            DispatchStep::TogglePreviewHtml
        } else {
            DispatchStep::Nothing
        }
    } else if action == Action::Open && view == View::List {
        if has_selection { DispatchStep::OpenSelected } else { DispatchStep::Nothing }
    } else {
        DispatchStep::Apply
    }
}

/// Routes `action` in `view`: a compose from the list, a reply-family
/// request (`is_reply`), the cheatsheet, the html toggle of the pager
/// or the preview, and opening the selected message (`has_selection`)
/// are the event loop's; everything else goes to `App::apply`.
pub fn dispatch_step(view: View, action: Action, is_reply: bool, has_selection: bool) -> (r: DispatchStep)
    ensures
        r == dispatch_step_of(view, action, is_reply, has_selection),
{
    let list = matches!(view, View::List);
    if matches!(action, Action::Compose) && list {
        DispatchStep::FreshCompose
    } else if is_reply {
        DispatchStep::Reply
    } else if matches!(action, Action::Help) {
        DispatchStep::Help
    } else if matches!(action, Action::ToggleHtml) {
        if matches!(view, View::Pager) {
            DispatchStep::TogglePagerHtml
        } else if list {
            DispatchStep::TogglePreviewHtml
        } else {
            DispatchStep::Nothing
        }
    } else if matches!(action, Action::Open) && list {
        if has_selection {
            DispatchStep::OpenSelected
        } else {
            DispatchStep::Nothing
        }
    } else {
        DispatchStep::Apply
    }
}

} // verus!
