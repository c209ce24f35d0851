//! The state of the reader's screen and the decisions taken on each event.
//!
//! The event loop, the terminal and every request to the database, the feed
//! servers and the model server run outside this library: each event is handed
//! to a method here, which updates the state and says what outside work is due.

use vstd::prelude::*;
use crate::text::{trim, trim_str, chars_of, starts_with, starts_with_spec, copy_range, string_from, lines_of, split_lines, eq_str, strip_cr, find_char_spec};
use crate::types::{Moment, moment_nanos, AppMode, Feed, Entry, AISession, Highlight, SessionType, SessionFile, AIMessage, session_type_name};
use crate::config::Config;
use crate::ai::client::{join, join_strings, strs, ChatMessage, MessageV, message_views, DONE_TOKEN, opt_view};

verus! {

/// A key as the screen tells keys apart.
#[derive(Clone, Copy, Debug, PartialEq, Eq, Structural)]
pub enum Key {
    Char(char),
    Enter,
    Esc,
    Up,
    Down,
    Right,
    Other,
}

/// Whether a key went down, repeats while held, or came up.
#[derive(Clone, Copy, Debug, PartialEq, Eq, Structural)]
pub enum KeyKind {
    Press,
    Repeat,
    Release,
}

/// A key event: the key, its kind, and whether Control alone was held.
#[derive(Clone, Copy, Debug, PartialEq, Eq, Structural)]
pub struct KeyInput {
    pub code: Key,
    pub kind: KeyKind,
    pub control_only: bool,
}

/// The text box a key event is typed into first.
#[derive(Clone, Copy, Debug, PartialEq, Eq, Structural)]
pub enum InputTarget {
    SearchBox,
    AskBar,
    NoInput,
}

/// The outside work a key event calls for.
#[derive(Debug)]
pub enum KeyEffect {
    Nothing,
    /// Run a semantic search for this query.
    RunSearch(String),
    /// Handle this submitted line (a question or a slash command).
    Submit(String),
    /// Load the entries of the feed with this id, then call `show_feed_entries`.
    OpenFeed(i64),
    /// Mark the entry with this id read if the feed with this id lists it unread
    /// at the selected position, then call `article_opened`.
    OpenArticle(i64, i64),
    /// The configuration changed: write it out.
    SaveConfig,
}

/// What a key event calls for: whether the text box it was typed into is to be
/// emptied, and the outside work.
#[derive(Debug)]
pub struct KeyStep {
    pub clear_input: bool,
    pub effect: KeyEffect,
}

/// Everything the screen shows and remembers between events.
#[derive(Debug)]
pub struct AppState {
    pub config: Config,
    pub mode: AppMode,
    pub prev_mode: AppMode,
    pub feeds: Vec<Feed>,
    pub entries: Vec<Entry>,
    pub all_entries: Vec<Entry>,
    pub selected_feed: usize,
    pub selected_entry: usize,
    pub scroll_offset: u16,
    /// The entries found by the last search, best first.
    pub search_hits: Vec<Entry>,
    pub search_selected: usize,
    pub session_id: i64,
    pub session_name: String,
    pub session_type: SessionType,
    pub session_described: bool,
    pub session_list: Vec<AISession>,
    pub session_list_selected: usize,
    pub workspace_dir: String,
    /// The conversation, latest first: each block is a question line and its answer.
    pub blocks: Vec<String>,
    pub block_idx: usize,
    pub app_ready: bool,
    pub is_streaming: bool,
    pub save_answer_needed: bool,
    pub tool_activity: Option<String>,
    pub loading_message: Option<String>,
    pub summary_text: Option<String>,
    pub digest_text: Option<String>,
    pub highlights: Vec<Highlight>,
    pub current_tags: Vec<String>,
    pub status_message: Option<String>,
    /// Set whenever a status message is set; the event loop clears it when it
    /// restarts the status timer.
    pub status_set: bool,
    pub available_models: Vec<String>,
    pub model_list_selected: usize,
    pub should_quit: bool,
}

/// The text typed into a box: its lines joined by spaces, trimmed.
pub open spec fn typed_text(lines: Seq<Seq<char>>) -> Seq<char> {
    trim(join(lines, " "@))
}

/// The text typed into a box.
pub fn typed(lines: &Vec<String>) -> (r: String)
    ensures
        r@ == typed_text(strs(lines@)),
{
    let j = join_strings(lines, " ");
    trim_str(j.as_str())
}

/// Whether a key quits: Control-C, in every view.
pub open spec fn quits(key: KeyInput) -> bool {
    key.code == Key::Char('c') && key.control_only
}

/// Whether a key moves through the feed or article list rather than being
/// typed: `j` or `k` pressed without Control in those views.
pub open spec fn list_key(mode: AppMode, key: KeyInput) -> bool {
    &&& mode == AppMode::Feeds || mode == AppMode::Articles
    &&& key.code == Key::Char('j') || key.code == Key::Char('k')
    &&& key.kind == KeyKind::Press
    &&& !key.control_only
}

/// Which box takes a key event first in a mode; released keys, Control-C and
/// the list keys go to none.
pub open spec fn input_target_spec(mode: AppMode, key: KeyInput) -> InputTarget {
    if key.kind == KeyKind::Release || quits(key) || list_key(mode, key) {
        InputTarget::NoInput
    } else {
        match mode {
            AppMode::Search => InputTarget::SearchBox,
            AppMode::Digest | AppMode::Help | AppMode::Highlight | AppMode::Tag
            | AppMode::ModelSelect | AppMode::SessionSelect => InputTarget::NoInput,
            _ => InputTarget::AskBar,
        }
    }
}

/// Whether a key moves a selection down: `j` or Down, pressed.
pub open spec fn moves_down(key: KeyInput) -> bool {
    (key.code == Key::Char('j') || key.code == Key::Down) && key.kind == KeyKind::Press
}

/// Whether a key moves a selection up: `k` or Up, pressed.
pub open spec fn moves_up(key: KeyInput) -> bool {
    (key.code == Key::Char('k') || key.code == Key::Up) && key.kind == KeyKind::Press
}

/// Whether a key closes a picker: Esc or `q`.
pub open spec fn closes(key: KeyInput) -> bool {
    key.code == Key::Esc || key.code == Key::Char('q')
}

/// One step down a list of `len` items, staying on the last.
pub open spec fn step_down(i: usize, len: nat) -> usize {
    if i + 1 < len { (i + 1) as usize } else { i }
}

/// One step up a list, staying on the first.
pub open spec fn step_up(i: usize) -> usize {
    if i > 0 { (i - 1) as usize } else { i }
}

/// Whether a key event typed into the ask bar ends the event there: it changed
/// the text and was not Enter, or it was Enter on a non-empty line.
pub open spec fn ask_bar_takes(key: KeyInput, consumed: bool, text: Seq<char>) -> bool {
    consumed && (key.code != Key::Enter || text.len() > 0)
}

/// What a key does in the ask view once the ask bar has let it through.
pub open spec fn ask_view_after(s: AppState, key: KeyInput) -> AppState {
    if key.code == Key::Down && key.kind == KeyKind::Press {
        AppState { block_idx: step_down(s.block_idx, s.blocks@.len()), ..s }
    } else if key.code == Key::Up && key.kind == KeyKind::Press {
        AppState { block_idx: step_up(s.block_idx), ..s }
    } else {
        s
    }
}

/// What a key does in the feed, article and reading views once the ask bar has
/// let it through, apart from the outside work it calls for.
pub open spec fn browse_after(s: AppState, key: KeyInput) -> AppState {
    if moves_down(key) {
        if s.mode == AppMode::Feeds && s.selected_feed + 1 < s.feeds@.len() {
            AppState { selected_feed: (s.selected_feed + 1) as usize, ..s }
        } else {
            AppState { selected_entry: step_down(s.selected_entry, s.entries@.len()), ..s }
        }
    } else if moves_up(key) {
        if s.mode == AppMode::Feeds && s.selected_feed > 0 {
            AppState { selected_feed: (s.selected_feed - 1) as usize, ..s }
        } else {
            AppState { selected_entry: step_up(s.selected_entry), ..s }
        }
    } else if key.code == Key::Down && key.kind == KeyKind::Repeat {
        AppState { scroll_offset: (s.scroll_offset + 1) as u16, ..s }
    } else if key.code == Key::Up && key.kind == KeyKind::Repeat {
        AppState { scroll_offset: if s.scroll_offset > 0 { (s.scroll_offset - 1) as u16 } else { 0 }, ..s }
    } else {
        s
    }
}

/// Whether a key in the feed, article and reading views asks to open the
/// selected feed.
pub open spec fn opens_feed(s: AppState, key: KeyInput) -> bool {
    &&& !moves_down(key) && !moves_up(key)
    &&& s.mode == AppMode::Feeds
    &&& (key.code == Key::Enter || key.code == Key::Right)
}

/// Whether a key in the feed, article and reading views asks to open the
/// selected article.
pub open spec fn opens_article(s: AppState, key: KeyInput) -> bool {
    &&& !moves_down(key) && !moves_up(key)
    &&& s.mode == AppMode::Articles
    &&& key.code == Key::Enter
}

/// The outside work of a key in the feed, article and reading views once the
/// ask bar has let it through.
pub open spec fn browse_effect(s: AppState, key: KeyInput, e: KeyEffect) -> bool {
    if opens_feed(s, key) && s.feeds@.len() > 0 {
        e == KeyEffect::OpenFeed(s.feeds@[s.selected_feed as int].id)
    } else if opens_article(s, key) && s.entries@.len() > 0 && s.selected_entry < s.entries@.len() {
        e == KeyEffect::OpenArticle(s.entries@[s.selected_entry as int].id, s.feeds@[s.selected_feed as int].id)
    } else {
        e is Nothing
    }
}

/// Whether a key event can be handled without running past a limit: the
/// scroll position, or the position of the selected feed.
pub open spec fn key_safe_spec(s: AppState, key: KeyInput, consumed: bool, text: Seq<char>) -> bool {
    let browsing = (s.mode == AppMode::Feeds || s.mode == AppMode::Articles || s.mode == AppMode::Reading)
        && key.kind != KeyKind::Release && !quits(key)
        && (list_key(s.mode, key) || !ask_bar_takes(key, consumed, text));
    browsing ==> {
        &&& (!moves_down(key) && !moves_up(key)
            && key.code == Key::Down && key.kind == KeyKind::Repeat ==> s.scroll_offset < u16::MAX)
        &&& (opens_feed(s, key) && s.feeds@.len() > 0 ==> s.selected_feed < s.feeds@.len())
        &&& (opens_article(s, key) && s.entries@.len() > 0 && s.selected_entry < s.entries@.len()
            ==> s.selected_feed < s.feeds@.len())
    }
}

/// The state after choosing the selected model in the model picker, apart
/// from the status message.
pub open spec fn model_chosen(s: AppState, m: String) -> AppState {
    AppState {
        config: Config { ollama: crate::config::Ollama { model: m, ..s.config.ollama }, ..s.config },
        mode: s.prev_mode,
        ..s
    }
}

/// What a key does in the model picker, apart from the status message.
pub open spec fn model_pick_after(s: AppState, key: KeyInput) -> AppState {
    if moves_down(key) {
        AppState { model_list_selected: step_down(s.model_list_selected, s.available_models@.len()), ..s }
    } else if moves_up(key) {
        AppState { model_list_selected: step_up(s.model_list_selected), ..s }
    } else if key.code == Key::Enter {
        if s.model_list_selected < s.available_models@.len() {
            model_chosen(s, s.available_models@[s.model_list_selected as int])
        } else {
            AppState { mode: s.prev_mode, ..s }
        }
    } else if closes(key) {
        AppState { mode: s.prev_mode, ..s }
    } else {
        s
    }
}

/// Whether `s` carries a freshly set status message `m`.
pub open spec fn status_is(s: AppState, m: Seq<char>) -> bool {
    s.status_set && s.status_message is Some && s.status_message->0@ == m
}

/// The status message after switching to session `t`.
pub open spec fn session_status(t: AISession) -> Seq<char> {
    "Session: "@ + t.name@ + " ["@ + session_type_name(t.session_type) + "]"@
}

/// What a key does in the session picker.
pub open spec fn session_pick_post(s: AppState, key: KeyInput, s2: AppState) -> bool {
    if moves_down(key) {
        s2 == AppState { session_list_selected: step_down(s.session_list_selected, s.session_list@.len()), ..s }
    } else if moves_up(key) {
        s2 == AppState { session_list_selected: step_up(s.session_list_selected), ..s }
    } else if key.code == Key::Enter {
        if s.session_list_selected < s.session_list@.len() {
            let t = s.session_list@[s.session_list_selected as int];
            &&& s2 == AppState {
                blocks: s2.blocks,
                status_message: s2.status_message,
                status_set: true,
                session_id: t.id,
                session_name: t.name,
                session_type: t.session_type,
                session_described: true,
                block_idx: 0,
                mode: s.prev_mode,
                ..s
            }
            &&& s2.blocks@.len() == 0
            &&& status_is(s2, session_status(t))
        } else {
            s2 == AppState { mode: s.prev_mode, ..s }
        }
    } else if closes(key) {
        s2 == AppState { mode: s.prev_mode, ..s }
    } else {
        s2 == s
    }
}

/// What a key does in the model picker.
pub open spec fn model_pick_post(s: AppState, key: KeyInput, s2: AppState, e: KeyEffect) -> bool {
    if key.code == Key::Enter && !moves_down(key) && !moves_up(key) && s.model_list_selected < s.available_models@.len() {
        let m = s.available_models@[s.model_list_selected as int];
        &&& s2 == AppState { status_message: s2.status_message, status_set: true, ..model_chosen(s, m) }
        &&& status_is(s2, "Model: "@ + m@)
        &&& e is SaveConfig
    } else {
        s2 == model_pick_after(s, key) && e is Nothing
    }
}

/// What a key event does, given whether the text box it went to changed and
/// the text typed there: the state after it and what it calls for.
pub open spec fn key_post(s: AppState, key: KeyInput, consumed: bool, text: Seq<char>, s2: AppState, r: KeyStep) -> bool {
    if key.kind == KeyKind::Release {
        s2 == s && !r.clear_input && r.effect is Nothing
    } else if quits(key) {
        s2 == (AppState { should_quit: true, ..s }) && !r.clear_input && r.effect is Nothing
    } else {
        match s.mode {
            AppMode::Search => {
                &&& s2 == s
                &&& r.clear_input == (consumed && key.code == Key::Enter)
                &&& if consumed && key.code == Key::Enter && text.len() > 0 {
                    r.effect matches KeyEffect::RunSearch(q) && q@ == text
                } else {
                    r.effect is Nothing
                }
            },
            AppMode::Digest | AppMode::Help | AppMode::Highlight | AppMode::Tag => {
                s2 == s && !r.clear_input && r.effect is Nothing
            },
            AppMode::ModelSelect => !r.clear_input && model_pick_post(s, key, s2, r.effect),
            AppMode::SessionSelect => !r.clear_input && session_pick_post(s, key, s2) && r.effect is Nothing,
            _ => {
                &&& r.clear_input == (consumed && key.code == Key::Enter)
                &&& if !list_key(s.mode, key) && ask_bar_takes(key, consumed, text) {
                    &&& s2 == s
                    &&& if key.code == Key::Enter {
                        r.effect matches KeyEffect::Submit(q) && q@ == text
                    } else {
                        r.effect is Nothing
                    }
                } else if s.mode == AppMode::Ask {
                    s2 == ask_view_after(s, key) && r.effect is Nothing
                } else {
                    s2 == browse_after(s, key) && browse_effect(s, key, r.effect)
                }
            },
        }
    }
}

/// Whether a list of `len` items has an item after position `i`.
fn has_next(i: usize, len: usize) -> (b: bool)
    ensures
        b == (i + 1 < len),
{
    len > 0 && i < len - 1
}

impl AppState {
    /// The state at start-up: the feed view, no feeds or entries yet, the
    /// default chat session, and the code workspace under `data_dir`.
    pub fn new(config: Config, data_dir: &str) -> (s: Self)
        ensures
            s.config == config,
            s.mode == AppMode::Feeds,
            s.prev_mode == AppMode::Feeds,
            s.feeds@.len() == 0 && s.entries@.len() == 0 && s.all_entries@.len() == 0,
            s.selected_feed == 0 && s.selected_entry == 0 && s.scroll_offset == 0,
            s.search_hits@.len() == 0 && s.search_selected == 0,
            s.session_id == 0 && s.session_name@.len() == 0,
            s.session_type == SessionType::Chat && !s.session_described,
            s.session_list@.len() == 0 && s.session_list_selected == 0,
            s.workspace_dir@ == crate::config::join_path_spec(data_dir@, "code"@),
            s.blocks@.len() == 0 && s.block_idx == 0,
            !s.app_ready && !s.is_streaming && !s.save_answer_needed,
            s.tool_activity is None && s.loading_message is None,
            s.summary_text is None && s.digest_text is None,
            s.highlights@.len() == 0 && s.current_tags@.len() == 0,
            s.status_message is None && !s.status_set,
            s.available_models@.len() == 0 && s.model_list_selected == 0,
            !s.should_quit,
    {
        AppState {
            config,
            mode: AppMode::Feeds,
            prev_mode: AppMode::Feeds,
            feeds: Vec::new(),
            entries: Vec::new(),
            all_entries: Vec::new(),
            selected_feed: 0,
            selected_entry: 0,
            scroll_offset: 0,
            search_hits: Vec::new(),
            search_selected: 0,
            session_id: 0,
            session_name: String::new(),
            session_type: SessionType::Chat,
            session_described: false,
            session_list: Vec::new(),
            session_list_selected: 0,
            workspace_dir: crate::config::join_path(data_dir, "code"),
            blocks: Vec::new(),
            block_idx: 0,
            app_ready: false,
            is_streaming: false,
            save_answer_needed: false,
            tool_activity: None,
            loading_message: None,
            summary_text: None,
            digest_text: None,
            highlights: Vec::new(),
            current_tags: Vec::new(),
            status_message: None,
            status_set: false,
            available_models: Vec::new(),
            model_list_selected: 0,
            should_quit: false,
        }
    }

    /// Show a status message.
    pub fn set_status(&mut self, msg: String)
        ensures
            *final(self) == (AppState { status_message: Some(msg), status_set: true, ..*old(self) }),
    {
        self.status_message = Some(msg);
        self.status_set = true;
    }

    /// Whether a key moves through the feed or article list rather than being typed.
    fn is_list_key(&self, key: &KeyInput) -> (b: bool)
        ensures
            b == list_key(self.mode, *key),
    {
        (self.mode == AppMode::Feeds || self.mode == AppMode::Articles)
            && (key.code == Key::Char('j') || key.code == Key::Char('k'))
            && key.kind == KeyKind::Press && !key.control_only
    }

    /// Which box a key event is typed into first.
    pub fn input_target(&self, key: &KeyInput) -> (t: InputTarget)
        ensures
            t == input_target_spec(self.mode, *key),
    {
        let quit = key.code == Key::Char('c') && key.control_only;
        if key.kind == KeyKind::Release || quit || self.is_list_key(key) {
            return InputTarget::NoInput;
        }
        match self.mode {
            AppMode::Search => InputTarget::SearchBox,
            AppMode::Digest | AppMode::Help | AppMode::Highlight | AppMode::Tag
            | AppMode::ModelSelect | AppMode::SessionSelect => InputTarget::NoInput,
            _ => InputTarget::AskBar,
        }
    }

    /// Whether a key event can be handled without running past a limit.
    pub fn key_safe(&self, key: &KeyInput, consumed: bool, lines: &Vec<String>) -> (b: bool)
        ensures
            b == key_safe_spec(*self, *key, consumed, typed_text(strs(lines@))),
    {
        let t = typed(lines);
        let quit = key.code == Key::Char('c') && key.control_only;
        let browsing = (self.mode == AppMode::Feeds || self.mode == AppMode::Articles || self.mode == AppMode::Reading)
            && key.kind != KeyKind::Release && !quit
            && (self.is_list_key(key) || !(consumed && (key.code != Key::Enter || t.as_str().unicode_len() > 0)));
        if !browsing {
            return true;
        }
        let down = (key.code == Key::Char('j') || key.code == Key::Down) && key.kind == KeyKind::Press;
        let up = (key.code == Key::Char('k') || key.code == Key::Up) && key.kind == KeyKind::Press;
        if !down && !up && key.code == Key::Down && key.kind == KeyKind::Repeat && self.scroll_offset == u16::MAX {
            return false;
        }
        let opens_feed = !down && !up && self.mode == AppMode::Feeds
            && (key.code == Key::Enter || key.code == Key::Right);
        if opens_feed && self.feeds.len() > 0 && self.selected_feed >= self.feeds.len() {
            return false;
        }
        let opens_article = !down && !up && self.mode == AppMode::Articles && key.code == Key::Enter;
        if opens_article && self.entries.len() > 0 && self.selected_entry < self.entries.len()
            && self.selected_feed >= self.feeds.len() {
            return false;
        }
        true
    }

    fn key_in_model_picker(&mut self, key: &KeyInput) -> (e: KeyEffect)
        requires
            old(self).mode == AppMode::ModelSelect,
            key.kind != KeyKind::Release,
        ensures
            model_pick_post(*old(self), *key, *final(self), e),
    {
        let down = (key.code == Key::Char('j') || key.code == Key::Down) && key.kind == KeyKind::Press;
        let up = (key.code == Key::Char('k') || key.code == Key::Up) && key.kind == KeyKind::Press;
        if down {
            if has_next(self.model_list_selected, self.available_models.len()) {
                self.model_list_selected = self.model_list_selected + 1;
            }
            KeyEffect::Nothing
        } else if up {
            if self.model_list_selected > 0 {
                self.model_list_selected = self.model_list_selected - 1;
            }
            KeyEffect::Nothing
        } else if key.code == Key::Enter {
            let mut e = KeyEffect::Nothing;
            if self.model_list_selected < self.available_models.len() {
                let m = self.available_models[self.model_list_selected].clone();
                let mut msg = String::from_str("Model: ");
                msg.append(m.as_str());
                self.config.ollama.model = m;
                self.set_status(msg);
                e = KeyEffect::SaveConfig;
            }
            self.mode = self.prev_mode;
            e
        } else if key.code == Key::Esc || key.code == Key::Char('q') {
            self.mode = self.prev_mode;
            KeyEffect::Nothing
        } else {
            KeyEffect::Nothing
        }
    }

    fn key_in_session_picker(&mut self, key: &KeyInput)
        requires
            old(self).mode == AppMode::SessionSelect,
            key.kind != KeyKind::Release,
        ensures
            session_pick_post(*old(self), *key, *final(self)),
    {
        let down = (key.code == Key::Char('j') || key.code == Key::Down) && key.kind == KeyKind::Press;
        let up = (key.code == Key::Char('k') || key.code == Key::Up) && key.kind == KeyKind::Press;
        if down {
            if has_next(self.session_list_selected, self.session_list.len()) {
                self.session_list_selected = self.session_list_selected + 1;
            }
        } else if up {
            if self.session_list_selected > 0 {
                self.session_list_selected = self.session_list_selected - 1;
            }
        } else if key.code == Key::Enter {
            if self.session_list_selected < self.session_list.len() {
                let id = self.session_list[self.session_list_selected].id;
                let name = self.session_list[self.session_list_selected].name.clone();
                let stype = self.session_list[self.session_list_selected].session_type;
                let mut msg = String::from_str("Session: ");
                msg.append(name.as_str());
                msg.append(" [");
                msg.append(stype.as_str());
                msg.append("]");
                self.session_id = id;
                self.session_name = name;
                self.session_type = stype;
                self.session_described = true;
                self.blocks.clear();
                self.block_idx = 0;
                self.set_status(msg);
            }
            self.mode = self.prev_mode;
        } else if key.code == Key::Esc || key.code == Key::Char('q') {
            self.mode = self.prev_mode;
        }
    }

    fn key_in_browse(&mut self, key: &KeyInput) -> (e: KeyEffect)
        requires
            old(self).mode == AppMode::Feeds || old(self).mode == AppMode::Articles || old(self).mode == AppMode::Reading,
            key.kind != KeyKind::Release,
            !quits(*key),
            !(!moves_down(*key) && !moves_up(*key)
                && key.code == Key::Down && key.kind == KeyKind::Repeat) || old(self).scroll_offset < u16::MAX,
            opens_feed(*old(self), *key) && old(self).feeds@.len() > 0 ==> old(self).selected_feed < old(self).feeds@.len(),
            opens_article(*old(self), *key) && old(self).entries@.len() > 0 && old(self).selected_entry < old(self).entries@.len()
                ==> old(self).selected_feed < old(self).feeds@.len(),
        ensures
            *final(self) == browse_after(*old(self), *key),
            browse_effect(*old(self), *key, e),
    {
        let down = (key.code == Key::Char('j') || key.code == Key::Down) && key.kind == KeyKind::Press;
        let up = (key.code == Key::Char('k') || key.code == Key::Up) && key.kind == KeyKind::Press;
        if down {
            if self.mode == AppMode::Feeds && has_next(self.selected_feed, self.feeds.len()) {
                self.selected_feed = self.selected_feed + 1;
            } else if has_next(self.selected_entry, self.entries.len()) {
                self.selected_entry = self.selected_entry + 1;
            }
            KeyEffect::Nothing
        } else if up {
            if self.mode == AppMode::Feeds && self.selected_feed > 0 {
                self.selected_feed = self.selected_feed - 1;
            } else if self.selected_entry > 0 {
                self.selected_entry = self.selected_entry - 1;
            }
            KeyEffect::Nothing
        } else if key.code == Key::Down && key.kind == KeyKind::Repeat {
            self.scroll_offset = self.scroll_offset + 1;
            KeyEffect::Nothing
        } else if key.code == Key::Up && key.kind == KeyKind::Repeat {
            if self.scroll_offset > 0 {
                self.scroll_offset = self.scroll_offset - 1;
            }
            KeyEffect::Nothing
        } else if self.mode == AppMode::Feeds && (key.code == Key::Enter || key.code == Key::Right) {
            if self.feeds.len() > 0 {
                KeyEffect::OpenFeed(self.feeds[self.selected_feed].id)
            } else {
                KeyEffect::Nothing
            }
        } else if self.mode == AppMode::Articles && key.code == Key::Enter {
            if self.entries.len() > 0 && self.selected_entry < self.entries.len() {
                KeyEffect::OpenArticle(self.entries[self.selected_entry].id, self.feeds[self.selected_feed].id)
            } else {
                KeyEffect::Nothing
            }
        } else {
            KeyEffect::Nothing
        }
    }

    /// Handle a key event. `consumed` says whether the box the key went to
    /// (see `input_target`) changed its text; `lines` are that box's lines.
    pub fn on_key(&mut self, key: &KeyInput, consumed: bool, lines: &Vec<String>) -> (r: KeyStep)
        requires
            key_safe_spec(*old(self), *key, consumed, typed_text(strs(lines@))),
        ensures
            key_post(*old(self), *key, consumed, typed_text(strs(lines@)), *final(self), r),
    {
        let t = typed(lines);
        let nonempty = t.as_str().unicode_len() > 0;
        if key.kind == KeyKind::Release {
            return KeyStep { clear_input: false, effect: KeyEffect::Nothing };
        }
        if key.code == Key::Char('c') && key.control_only {
            self.should_quit = true;
            return KeyStep { clear_input: false, effect: KeyEffect::Nothing };
        }
        match self.mode {
            AppMode::Search => {
                let enter = consumed && key.code == Key::Enter;
                let effect = if enter && nonempty { KeyEffect::RunSearch(t) } else { KeyEffect::Nothing };
                KeyStep { clear_input: enter, effect }
            },
            AppMode::Digest | AppMode::Help | AppMode::Highlight | AppMode::Tag => {
                KeyStep { clear_input: false, effect: KeyEffect::Nothing }
            },
            AppMode::ModelSelect => {
                let effect = self.key_in_model_picker(key);
                KeyStep { clear_input: false, effect }
            },
            AppMode::SessionSelect => {
                self.key_in_session_picker(key);
                KeyStep { clear_input: false, effect: KeyEffect::Nothing }
            },
            _ => {
                let enter = consumed && key.code == Key::Enter;
                if !self.is_list_key(key) && consumed && (key.code != Key::Enter || nonempty) {
                    let effect = if key.code == Key::Enter { KeyEffect::Submit(t) } else { KeyEffect::Nothing };
                    return KeyStep { clear_input: enter, effect };
                }
                if self.mode == AppMode::Ask {
                    if key.code == Key::Down && key.kind == KeyKind::Press {
                        if has_next(self.block_idx, self.blocks.len()) {
                            self.block_idx = self.block_idx + 1;
                        }
                    } else if key.code == Key::Up && key.kind == KeyKind::Press {
                        if self.block_idx > 0 {
                            self.block_idx = self.block_idx - 1;
                        }
                    }
                    KeyStep { clear_input: enter, effect: KeyEffect::Nothing }
                } else {
                    let effect = self.key_in_browse(key);
                    KeyStep { clear_input: enter, effect }
                }
            },
        }
    }
}

/// The lines of an answer block kept when it is saved: all but the question
/// lines, which start with `⟩ `.
pub open spec fn answer_lines(ls: Seq<Seq<char>>) -> Seq<Seq<char>>
    decreases ls.len(),
{
    if ls.len() == 0 {
        seq![]
    } else if starts_with_spec(ls.last(), "⟩ "@) {
        answer_lines(ls.drop_last())
    } else {
        answer_lines(ls.drop_last()).push(ls.last())
    }
}

/// The text saved for an answer block.
pub open spec fn answer_text_spec(block: Seq<char>) -> Seq<char> {
    join(answer_lines(lines_of(block)), "\n"@)
}

/// The text saved for an answer block.
pub fn answer_text(block: &str) -> (r: String)
    ensures
        r@ == answer_text_spec(block@),
{
    let cs = chars_of(block);
    let ls = split_lines(&cs);
    let ghost lv = crate::text::views(ls@);
    let mut kept: Vec<String> = Vec::new();
    let mut i: usize = 0;
    proof {
        reveal_strlit("⟩ ");
    }
    while i < ls.len()
        invariant
            0 <= i <= ls@.len(),
            lv == crate::text::views(ls@),
            strs(kept@) == answer_lines(lv.take(i as int)),
        decreases ls@.len() - i,
    {
        let l = &ls[i];
        let question = l.len() >= 2 && l[0] == '\u{27e9}' && l[1] == ' ';
        proof {
            reveal_strlit("⟩ ");
            assert(lv.take(i + 1).drop_last() =~= lv.take(i as int));
            assert(lv.take(i + 1).last() == l@);
            if starts_with_spec(l@, "⟩ "@) {
                assert(l@.take(2)[0] == '\u{27e9}' && l@.take(2)[1] == ' ');
            }
            if question {
                assert(l@.take(2) =~= "⟩ "@);
            }
        }
        if !question {
            let ghost before = kept@;
            kept.push(string_from(l.as_slice()));
            assert(strs(kept@) =~= strs(before).push(l@));
        }
        i = i + 1;
    }
    assert(lv.take(ls@.len() as int) =~= lv);
    join_strings(&kept, "\n")
}

/// The view of a session's stored messages as chat messages.
pub open spec fn history_views(ms: Seq<AIMessage>) -> Seq<MessageV> {
    ms.map_values(|m: AIMessage| (m.role@, m.content@))
}

/// The stored messages of a session as plain chat messages.
pub fn chat_history(msgs: &Vec<AIMessage>) -> (r: Vec<ChatMessage>)
    ensures
        message_views(r@) == history_views(msgs@),
        forall|i: int| 0 <= i < r@.len() ==> r@[i].tool_calls is None,
{
    let mut r: Vec<ChatMessage> = Vec::new();
    let mut i: usize = 0;
    while i < msgs.len()
        invariant
            0 <= i <= msgs@.len(),
            message_views(r@) == history_views(msgs@.take(i as int)),
            forall|k: int| 0 <= k < r@.len() ==> r@[k].tool_calls is None,
        decreases msgs@.len() - i,
    {
        let m = ChatMessage::new(msgs[i].role.as_str(), msgs[i].content.as_str());
        let ghost before = r@;
        r.push(m);
        assert(message_views(r@) =~= message_views(before).push(m@));
        assert(history_views(msgs@.take(i + 1)) =~= history_views(msgs@.take(i as int)).push((msgs@[i as int].role@, msgs@[i as int].content@)));
        i = i + 1;
    }
    assert(msgs@.take(msgs@.len() as int) =~= msgs@);
    r
}

/// The lines listing a session's reference files.
pub open spec fn session_file_lines(fs: Seq<SessionFile>) -> Seq<char>
    decreases fs.len(),
{
    if fs.len() == 0 {
        seq![]
    } else {
        let f = fs.last();
        session_file_lines(fs.drop_last()) + "- "@ + f.filename@ + " ("@ + f.file_type@ + ") at "@ + f.filepath@ + "\n"@
    }
}

/// The part of the system prompt that lists a session's reference files.
pub fn session_files_prompt(files: &Vec<SessionFile>) -> (r: String)
    ensures
        r@ == session_file_lines(files@),
{
    let mut s = String::new();
    let mut i: usize = 0;
    while i < files.len()
        invariant
            0 <= i <= files@.len(),
            s@ == session_file_lines(files@.take(i as int)),
        decreases files@.len() - i,
    {
        s.append("- ");
        s.append(files[i].filename.as_str());
        s.append(" (");
        s.append(files[i].file_type.as_str());
        s.append(") at ");
        s.append(files[i].filepath.as_str());
        s.append("\n");
        assert(files@.take(i + 1).drop_last() =~= files@.take(i as int));
        i = i + 1;
    }
    assert(files@.take(files@.len() as int) =~= files@);
    s
}

/// The opening of every system prompt.
pub const PROMPT_HEAD: &'static str = "You are Nuzzle, a capable AI assistant in a terminal application.\nYou are helpful, direct, and professional. You speak concisely and clearly.\nYou support markdown formatting in your responses.\n\n";

/// The instructions for research sessions.
pub const SEARCH_INSTRUCTIONS: &'static str = "- Use web_search to find information online.\n- Use fetch_page to read full articles.\n- After research, write results to research.md using write_file.\n- Provide thorough, well-structured markdown output.\n";

/// The instructions for code sessions.
pub const CODE_INSTRUCTIONS: &'static str = "- Use exec to run commands (build, test, lint, etc).\n- Use read_file to understand existing code.\n- Use write_file to create or modify files.\n- Use list_files to explore the project structure.\n- Read reference files for project context.\n- Focus on practical, working code solutions.\n";

/// The instructions for chat sessions.
pub const CHAT_INSTRUCTIONS: &'static str = "- Default: 2-4 sentences, direct and informative.\n- For analysis or after deep_research: thorough, multi-paragraph.\n- Use **bold** for key points, # headings for structure.\n";

/// The instructions for a session type.
pub open spec fn instructions(t: SessionType) -> Seq<char> {
    match t {
        SessionType::Search => SEARCH_INSTRUCTIONS@,
        SessionType::Code => CODE_INSTRUCTIONS@,
        SessionType::Chat => CHAT_INSTRUCTIONS@,
    }
}

/// The system prompt for a session of type `t`, given the tools part and the
/// reference-files part (each left out when empty).
pub open spec fn system_prompt_spec(t: SessionType, tools: Seq<char>, files: Seq<char>) -> Seq<char> {
    PROMPT_HEAD@ + "SESSION TYPE: "@ + session_type_name(t) + "\n\n"@
        + (if files.len() > 0 { "AVAILABLE REFERENCE FILES:\n"@ + files + "\n"@ } else { seq![] })
        + tools
        + "\nINSTRUCTIONS:\n"@ + instructions(t)
}

/// Whether an entry was published less than 48 hours before `now`.
pub open spec fn is_recent(e: Entry, now: Moment) -> bool {
    e.published_at is Some && moment_nanos(now) - moment_nanos(e.published_at->0) < 172_800_000_000_000
}

/// The entries published less than 48 hours before `now`, in order.
pub open spec fn recent(es: Seq<Entry>, now: Moment) -> Seq<Entry>
    decreases es.len(),
{
    if es.len() == 0 {
        seq![]
    } else if is_recent(es.last(), now) {
        recent(es.drop_last(), now).push(es.last())
    } else {
        recent(es.drop_last(), now)
    }
}

/// The first twenty entries published less than 48 hours before `now`.
pub fn recent_entries(entries: &Vec<Entry>, now: Moment) -> (r: Vec<Entry>)
    ensures
        r@ == recent(entries@, now).take(if recent(entries@, now).len() < 20 { recent(entries@, now).len() as int } else { 20 }),
{
    let mut r: Vec<Entry> = Vec::new();
    let mut i: usize = 0;
    while i < entries.len()
        invariant
            0 <= i <= entries@.len(),
            r@ == recent(entries@.take(i as int), now).take(
                if recent(entries@.take(i as int), now).len() < 20 { recent(entries@.take(i as int), now).len() as int } else { 20 }),
        decreases entries@.len() - i,
    {
        let ghost before = recent(entries@.take(i as int), now);
        assert(entries@.take(i + 1).drop_last() =~= entries@.take(i as int));
        let e = &entries[i];
        let fresh = match e.published_at {
            Some(d) => ((now.secs as i128) - (d.secs as i128)) * 1_000_000_000 + ((now.nanos as i128) - (d.nanos as i128))
                < 172_800_000_000_000,
            None => false,
        };
        if fresh {
            assert(recent(entries@.take(i + 1), now) == before.push(*e));
            if r.len() < 20 {
                r.push(e.duplicate());
                assert(r@ =~= before.push(*e).take(if before.len() + 1 < 20 { (before.len() + 1) as int } else { 20int }));
            } else {
                assert(r@ =~= before.push(*e).take(20));
            }
        }
        i = i + 1;
    }
    assert(entries@.take(entries@.len() as int) =~= entries@);
    r
}

/// What one streamed piece does: the end marker stops the stream and asks for
/// the answer to be saved; any other piece is appended to the latest block.
pub open spec fn token_post(s: AppState, tok: Seq<char>, s2: AppState, ended: bool) -> bool {
    &&& ended == (tok == DONE_TOKEN@)
    &&& ended ==> s2 == (AppState { is_streaming: false, save_answer_needed: true, ..s })
    &&& !ended && s.blocks@.len() == 0 ==> s2 == s
    &&& !ended && s.blocks@.len() > 0 ==> {
        &&& s2 == (AppState { blocks: s2.blocks, ..s })
        &&& s2.blocks@.len() == s.blocks@.len()
        &&& s2.blocks@[0]@ == s.blocks@[0]@ + tok
        &&& s2.blocks@.skip(1) == s.blocks@.skip(1)
    }
}

/// What taking the finished answer does: once an answer has finished, the
/// flag is cleared and the latest block's saved text is given; otherwise
/// nothing happens.
pub open spec fn take_post(s: AppState, s2: AppState, r: Option<Seq<char>>) -> bool {
    &&& !s.save_answer_needed ==> r is None && s2 == s
    &&& s.save_answer_needed ==> s2 == (AppState { save_answer_needed: false, ..s })
    &&& s.save_answer_needed && s.blocks@.len() == 0 ==> r is None
    &&& s.save_answer_needed && s.blocks@.len() > 0 ==> r == Some(answer_text_spec(s.blocks@[0]@))
}

impl AppState {
    /// Show the entries of the opened feed.
    pub fn show_feed_entries(&mut self, entries: Vec<Entry>)
        ensures
            *final(self) == (AppState { entries: entries, selected_entry: 0, mode: AppMode::Articles, ..*old(self) }),
    {
        self.entries = entries;
        self.selected_entry = 0;
        self.mode = AppMode::Articles;
    }

    /// The id of the selected feed, if there are feeds.
    pub fn selected_feed_id(&self) -> (r: Option<i64>)
        requires
            self.feeds@.len() == 0 || self.selected_feed < self.feeds@.len(),
        ensures
            self.feeds@.len() == 0 ==> r is None,
            self.feeds@.len() > 0 ==> r == Some(self.feeds@[self.selected_feed as int].id),
    {
        if self.feeds.len() == 0 {
            None
        } else {
            Some(self.feeds[self.selected_feed].id)
        }
    }

    /// Show the selected article, now read, from its top.
    pub fn article_opened(&mut self)
        ensures
            old(self).selected_entry < old(self).entries@.len() ==> final(self).entries@
                == old(self).entries@.update(old(self).selected_entry as int,
                    Entry { is_read: true, ..old(self).entries@[old(self).selected_entry as int] }),
            old(self).selected_entry >= old(self).entries@.len() ==> final(self).entries == old(self).entries,
            *final(self) == (AppState { entries: final(self).entries, scroll_offset: 0, mode: AppMode::Reading, ..*old(self) }),
    {
        if self.selected_entry < self.entries.len() {
            let mut e = self.entries[self.selected_entry].duplicate();
            e.is_read = true;
            self.entries.set(self.selected_entry, e);
        }
        self.scroll_offset = 0;
        self.mode = AppMode::Reading;
    }

    /// Go back one level: from an article, tag or highlight view to the
    /// feeds; from search, the ask view or the digest to reading; from a
    /// picker or the help to the view it was opened from.
    pub fn go_back(&mut self)
        ensures
            (old(self).mode == AppMode::Articles || old(self).mode == AppMode::Reading
                || old(self).mode == AppMode::Tag || old(self).mode == AppMode::Highlight)
                ==> *final(self) == (AppState { summary_text: None, mode: AppMode::Feeds, ..*old(self) }),
            (old(self).mode == AppMode::Search || old(self).mode == AppMode::Ask || old(self).mode == AppMode::Digest)
                ==> *final(self) == (AppState { mode: AppMode::Reading, ..*old(self) }),
            (old(self).mode == AppMode::Help || old(self).mode == AppMode::ModelSelect || old(self).mode == AppMode::SessionSelect)
                ==> *final(self) == (AppState { mode: old(self).prev_mode, ..*old(self) }),
            old(self).mode == AppMode::Feeds ==> *final(self) == *old(self),
    {
        match self.mode {
            AppMode::Articles | AppMode::Reading | AppMode::Tag | AppMode::Highlight => {
                self.summary_text = None;
                self.mode = AppMode::Feeds;
            },
            AppMode::Search | AppMode::Ask | AppMode::Digest => {
                self.mode = AppMode::Reading;
            },
            AppMode::Help | AppMode::ModelSelect | AppMode::SessionSelect => {
                self.mode = self.prev_mode;
            },
            _ => {},
        }
    }

    /// Enter the search view with no results.
    pub fn enter_search_mode(&mut self)
        ensures
            *final(self) == (AppState { search_hits: final(self).search_hits, search_selected: 0, mode: AppMode::Search, ..*old(self) }),
            final(self).search_hits@.len() == 0,
    {
        self.search_hits.clear();
        self.search_selected = 0;
        self.mode = AppMode::Search;
    }

    /// Start answering a question: the ask view shows a new block with the
    /// question, the answer streams into it and tool activity is cleared.
    /// Whether the session is described is left to `note_history`.
    pub fn begin_ask(&mut self, question: &str)
        ensures
            ask_begun(*old(self), question@, *final(self)),
    {
        let mut b = String::from_str("⟩ ");
        b.append(question);
        b.append("\n\n");
        self.mode = AppMode::Ask;
        self.blocks.insert(0, b);
        assert(self.blocks@.skip(1) =~= old(self).blocks@);
        self.block_idx = 0;
        self.is_streaming = true;
        self.tool_activity = None;
    }

    /// Take one streamed piece of the answer: the end marker stops the stream
    /// and asks for the answer to be saved; any other piece is appended to
    /// the latest block. Returns whether the stream ended.
    pub fn on_stream_token(&mut self, tok: &str) -> (ended: bool)
        ensures
            token_post(*old(self), tok@, *final(self), ended),
    {
        if eq_str(tok, DONE_TOKEN) {
            self.is_streaming = false;
            self.save_answer_needed = true;
            return true;
        }
        if self.blocks.len() > 0 {
            let mut b = self.blocks.remove(0);
            b.append(tok);
            self.blocks.insert(0, b);
            assert(self.blocks@.skip(1) =~= old(self).blocks@.skip(1));
        }
        false
    }

    /// Take one message from a running tool: `done` closes the channel;
    /// `done:` and a text closes it and shows the trimmed text; anything else
    /// is shown. Returns whether the activity shown was set, and whether the
    /// channel closes.
    pub fn on_tool_status(&mut self, msg: &str) -> (r: (bool, bool))
        ensures
            msg@ == "done"@ ==> r == (false, true) && *final(self) == *old(self),
            msg@ != "done"@ && starts_with_spec(msg@, "done:"@) ==> r == (true, true)
                && *final(self) == (AppState { tool_activity: final(self).tool_activity, ..*old(self) })
                && final(self).tool_activity is Some && final(self).tool_activity->0@ == trim(msg@.skip(5)),
            !starts_with_spec(msg@, "done:"@) && msg@ != "done"@ ==> r == (true, false)
                && *final(self) == (AppState { tool_activity: final(self).tool_activity, ..*old(self) })
                && final(self).tool_activity is Some && final(self).tool_activity->0@ == msg@,
    {
        if eq_str(msg, "done") {
            return (false, true);
        }
        let cs = chars_of(msg);
        let prefix = ['d', 'o', 'n', 'e', ':'];
        proof {
            reveal_strlit("done:");
        }
        if starts_with(&cs, prefix.as_slice()) {
            assert(prefix@ =~= "done:"@);
            let rest = copy_range(&cs, 5, cs.len());
            assert(rest@ == msg@.skip(5));
            let rs = string_from(&rest);
            self.tool_activity = Some(trim_str(rs.as_str()));
            return (true, true);
        }
        assert(prefix@ =~= "done:"@);
        self.tool_activity = Some(string_from(&cs));
        (true, false)
    }

    /// Clear the tool activity once no message came for more than 8 seconds.
    pub fn expire_tool_activity(&mut self, idle_nanos: u128)
        ensures
            idle_nanos > 8_000_000_000 ==> *final(self) == (AppState { tool_activity: None, ..*old(self) }),
            idle_nanos <= 8_000_000_000 ==> *final(self) == *old(self),
    {
        if self.tool_activity.is_some() && idle_nanos > 8_000_000_000 {
            self.tool_activity = None;
        }
    }

    /// Clear the status message once it has been shown for more than 5 seconds.
    pub fn expire_status(&mut self, shown_nanos: u128)
        ensures
            shown_nanos > 5_000_000_000 ==> *final(self) == (AppState { status_message: None, ..*old(self) }),
            shown_nanos <= 5_000_000_000 ==> *final(self) == *old(self),
    {
        if self.status_message.is_some() && shown_nanos > 5_000_000_000 {
            self.status_message = None;
        }
    }

    /// When an answer has just finished streaming, clear that flag and give
    /// the text to save for it (if there is a block).
    pub fn take_answer(&mut self) -> (r: Option<String>)
        ensures
            take_post(*old(self), *final(self), opt_view(r)),
    {
        if !self.save_answer_needed {
            return None;
        }
        self.save_answer_needed = false;
        if self.blocks.len() > 0 {
            Some(answer_text(self.blocks[0].as_str()))
        } else {
            None
        }
    }

    /// After an answer is saved, with `stored` messages in the session:
    /// whether to describe the session now (it is not yet described and holds
    /// an exchange); if so it counts as described from now on.
    pub fn note_history(&mut self, stored: usize) -> (describe: bool)
        ensures
            history_noted(*old(self), stored as int, *final(self), describe),
    {
        if !self.session_described && stored >= 2 {
            self.session_described = true;
            true
        } else {
            false
        }
    }

    /// The system prompt for the current session, given the tools part and
    /// the reference-files part.
    pub fn system_prompt(&self, tools_prompt: &str, files_prompt: &str) -> (r: String)
        ensures
            r@ == system_prompt_spec(self.session_type, tools_prompt@, files_prompt@),
    {
        let mut s = String::from_str(PROMPT_HEAD);
        s.append("SESSION TYPE: ");
        s.append(self.session_type.as_str());
        s.append("\n\n");
        if files_prompt.unicode_len() > 0 {
            s.append("AVAILABLE REFERENCE FILES:\n");
            s.append(files_prompt);
            s.append("\n");
        }
        if tools_prompt.unicode_len() > 0 {
            s.append(tools_prompt);
        }
        s.append("\nINSTRUCTIONS:\n");
        match self.session_type {
            SessionType::Search => s.append(SEARCH_INSTRUCTIONS),
            SessionType::Code => s.append(CODE_INSTRUCTIONS),
            SessionType::Chat => s.append(CHAT_INSTRUCTIONS),
        }
        s
    }
}

/// The state after a question is asked: the ask view shows a new block with
/// the question on top, the answer streams into it, tool activity is cleared.
pub open spec fn ask_begun(s: AppState, question: Seq<char>, s2: AppState) -> bool {
    &&& s2 == (AppState {
        mode: AppMode::Ask,
        blocks: s2.blocks,
        block_idx: 0,
        is_streaming: true,
        tool_activity: None,
        ..s
    })
    &&& s2.blocks@.len() == s.blocks@.len() + 1
    &&& s2.blocks@[0]@ == "⟩ "@ + question + "\n\n"@
    &&& s2.blocks@.skip(1) == s.blocks@
}

/// After an answer is saved with `stored` messages in the session: a
/// description is due when the session has none yet and holds an exchange,
/// and from then on it counts as described.
pub open spec fn history_noted(s: AppState, stored: int, s2: AppState, describe: bool) -> bool {
    &&& describe == (!s.session_described && stored >= 2)
    &&& describe ==> s2 == (AppState { session_described: true, ..s })
    &&& !describe ==> s2 == s
}

/// A session without a description gets one after its first exchange: asking,
/// streaming the answer and saving it leave the description due, once.
pub proof fn law_new_session_described(s: AppState, q: Seq<char>, s1: AppState, tok: Seq<char>, s2: AppState,
    ended: bool, s3: AppState, r: Option<Seq<char>>, stored: int, s4: AppState, d1: bool, s5: AppState, d2: bool)
    requires
        !s.session_described,
        ask_begun(s, q, s1),
        token_post(s1, tok, s2, ended),
        take_post(s2, s3, r),
        stored >= 2,
        history_noted(s3, stored, s4, d1),
        history_noted(s4, stored, s5, d2),
    ensures
        d1,
        s4.session_described,
        !d2,
{
}

/// Whether every selection points into its list, or its list is empty.
pub open spec fn selections_in_range(s: AppState) -> bool {
    &&& (s.feeds@.len() == 0 || s.selected_feed < s.feeds@.len())
    &&& (s.entries@.len() == 0 || s.selected_entry < s.entries@.len())
    &&& (s.available_models@.len() == 0 || s.model_list_selected < s.available_models@.len())
    &&& (s.session_list@.len() == 0 || s.session_list_selected < s.session_list@.len())
    &&& (s.blocks@.len() == 0 || s.block_idx < s.blocks@.len())
}

/// No key moves a selection (feed, article, model, session or conversation
/// block) off its list.
pub proof fn law_keys_keep_selections(s: AppState, key: KeyInput, consumed: bool, text: Seq<char>, s2: AppState, r: KeyStep)
    requires
        key_post(s, key, consumed, text, s2, r),
        selections_in_range(s),
    ensures
        selections_in_range(s2),
{
}

/// In a picker, Esc (or `q`) closes it and returns to the view it was opened
/// from, changing nothing else.
pub proof fn law_escape_closes_picker(s: AppState, key: KeyInput, consumed: bool, text: Seq<char>, s2: AppState, r: KeyStep)
    requires
        key_post(s, key, consumed, text, s2, r),
        s.mode == AppMode::ModelSelect || s.mode == AppMode::SessionSelect,
        key.code == Key::Esc || key.code == Key::Char('q'),
        key.kind != KeyKind::Release,
    ensures
        s2 == (AppState { mode: s.prev_mode, ..s }),
        r.effect is Nothing,
        !r.clear_input,
{
}

/// In every view, Control-C quits and changes nothing else, whatever the text
/// boxes hold.
pub proof fn law_ctrl_c_quits(s: AppState, key: KeyInput, consumed: bool, text: Seq<char>, s2: AppState, r: KeyStep)
    requires
        key_post(s, key, consumed, text, s2, r),
        key.code == Key::Char('c'),
        key.control_only,
        key.kind != KeyKind::Release,
    ensures
        s2 == (AppState { should_quit: true, ..s }),
        r.effect is Nothing,
        !r.clear_input,
        input_target_spec(s.mode, key) == InputTarget::NoInput,
{
}

/// In the feed and article lists, `j` and `k` move the selection as Down and
/// Up do, whatever is typed in the ask bar, and the ask bar keeps its text.
pub proof fn law_list_keys_navigate(s: AppState, key: KeyInput, arrow: KeyInput, consumed: bool, text: Seq<char>,
    t2: Seq<char>, s1: AppState, r1: KeyStep, s2: AppState, r2: KeyStep)
    requires
        s.mode == AppMode::Feeds || s.mode == AppMode::Articles,
        key.kind == KeyKind::Press && !key.control_only,
        key.code == Key::Char('j') && arrow.code == Key::Down || key.code == Key::Char('k') && arrow.code == Key::Up,
        arrow.kind == KeyKind::Press,
        key_post(s, key, consumed, text, s1, r1),
        key_post(s, arrow, false, t2, s2, r2),
    ensures
        s1 == s2,
        s1 == browse_after(s, arrow),
        !r1.clear_input,
        input_target_spec(s.mode, key) == InputTarget::NoInput,
        r1.effect is Nothing,
{
}

/// In the ask view, Down then Up (not typed into the ask bar) come back to
/// the block shown before, when there was an older block to go to.
pub proof fn law_browse_down_up(s: AppState, down: KeyInput, up: KeyInput, t1: Seq<char>, t2: Seq<char>,
    s1: AppState, r1: KeyStep, s2: AppState, r2: KeyStep)
    requires
        s.mode == AppMode::Ask,
        s.block_idx + 1 < s.blocks@.len(),
        s.blocks@.len() <= usize::MAX,
        down == (KeyInput { code: Key::Down, kind: KeyKind::Press, control_only: down.control_only }),
        up == (KeyInput { code: Key::Up, kind: KeyKind::Press, control_only: up.control_only }),
        key_post(s, down, false, t1, s1, r1),
        key_post(s1, up, false, t2, s2, r2),
    ensures
        s2 == s,
{
    assert(s1 == ask_view_after(s, down));
    assert(s1.mode == AppMode::Ask && s1.blocks == s.blocks);
    assert(s1.block_idx == s.block_idx + 1);
    assert(s2 == ask_view_after(s1, up));
    assert(s2.block_idx == s.block_idx);
    assert(s2 == AppState { block_idx: s.block_idx, ..s });
}

/// Opening the session picker and closing it with Esc leaves the screen as
/// it was, but for the session list it loaded.
pub proof fn law_session_picker_round_trip(s: AppState, list: Seq<AISession>, s1: AppState, esc: KeyInput,
    t: Seq<char>, s2: AppState, r: KeyStep)
    requires
        s1 == (AppState { session_list: s1.session_list, session_list_selected: s1.session_list_selected,
            prev_mode: s.mode, mode: AppMode::SessionSelect, ..s }),
        esc.code == Key::Esc && esc.kind != KeyKind::Release,
        key_post(s1, esc, false, t, s2, r),
    ensures
        s2 == (AppState { session_list: s1.session_list, session_list_selected: s1.session_list_selected,
            prev_mode: s.mode, ..s }),
{
}

/// Streaming is insensitive to how the answer is cut into pieces: two pieces
/// in a row change the screen as their concatenation does in one piece.
pub proof fn law_stream_pieces(s: AppState, a: Seq<char>, b: Seq<char>, s1: AppState, s2: AppState)
    requires
        token_post(s, a, s1, false),
        token_post(s1, b, s2, false),
        a + b != DONE_TOKEN@,
    ensures
        token_post(s, a + b, s2, false),
{
    if s.blocks@.len() > 0 {
        assert(s2.blocks@[0]@ =~= s.blocks@[0]@ + (a + b));
        assert(s2 == (AppState { blocks: s2.blocks, ..s }));
    }
}

/// A finished answer is handed out once: taking it again gives nothing.
pub proof fn law_answer_taken_once(s: AppState, s1: AppState, r1: Option<Seq<char>>, s2: AppState, r2: Option<Seq<char>>)
    requires
        take_post(s, s1, r1),
        take_post(s1, s2, r2),
    ensures
        r2 is None,
        s2 == s1,
{
}

proof fn lemma_answer_lines_append(x: Seq<Seq<char>>, y: Seq<Seq<char>>)
    ensures
        answer_lines(x + y) == answer_lines(x) + answer_lines(y),
    decreases y.len(),
{
    if y.len() == 0 {
        assert(x + y =~= x);
        assert(answer_lines(y) =~= seq![]);
        assert(answer_lines(x) + answer_lines(y) =~= answer_lines(x));
    } else {
        let xy = x + y;
        assert(xy.drop_last() =~= x + y.drop_last());
        assert(xy.last() == y.last());
        lemma_answer_lines_append(x, y.drop_last());
        if starts_with_spec(y.last(), "⟩ "@) {
        } else {
            assert(answer_lines(x) + answer_lines(y.drop_last()).push(y.last())
                =~= (answer_lines(x) + answer_lines(y.drop_last())).push(y.last()));
        }
    }
}

proof fn lemma_block_lines(q: Seq<char>, a: Seq<char>)
    requires
        forall|k: int| 0 <= k < q.len() ==> q[k] != '\n',
    ensures
        lines_of("⟩ "@ + q + "\n\n"@ + a) == seq![strip_cr("⟩ "@ + q), seq![]] + lines_of(a),
{
    reveal_strlit("⟩ ");
    reveal_strlit("\n\n");
    let head = "⟩ "@ + q;
    let b = head + "\n\n"@ + a;
    let i = head.len() as int;
    assert(b[i] == '\n');
    assert forall|j: int| 0 <= j < i implies b[j] != '\n' by {
        assert(b[j] == head[j]);
        if j >= 2 {
            assert(head[j] == q[j - 2]);
        }
    }
    let k = choose|k: int| 0 <= k < b.len() && b[k] == '\n' && forall|j: int| 0 <= j < k ==> b[j] != '\n';
    assert(k == i) by {
        if k < i {
            assert(b[k] != '\n');
        } else if k > i {
            assert(b[i] != '\n');
        }
    }
    assert(find_char_spec(b, 0, '\n') == Some(i));
    assert(b.take(i) =~= head);
    let rest = b.skip(i + 1);
    assert(rest =~= seq!['\n'] + a);
    assert(rest[0] == '\n');
    assert(find_char_spec(rest, 0, '\n') == Some(0int));
    assert(rest.take(0) =~= seq![]);
    assert(strip_cr(seq![]) == Seq::<char>::empty());
    assert(rest.skip(1) =~= a);
    assert(lines_of(rest) == seq![Seq::<char>::empty()] + lines_of(a));
    assert(lines_of(b) == seq![strip_cr(head)] + lines_of(rest));
    assert(seq![strip_cr(head)] + (seq![Seq::<char>::empty()] + lines_of(a)) =~= seq![strip_cr(head), seq![]] + lines_of(a));
}

/// Saving an answer keeps what was streamed after the question: the saved
/// text of a block made by asking `q` (a single line) and streaming `a` is a
/// blank line and then the lines of `a`, without any question lines.
pub proof fn law_saved_answer(q: Seq<char>, a: Seq<char>)
    requires
        forall|k: int| 0 <= k < q.len() ==> q[k] != '\n',
    ensures
        answer_text_spec("⟩ "@ + q + "\n\n"@ + a) == join(seq![seq![]] + answer_lines(lines_of(a)), "\n"@),
{
    reveal_strlit("⟩ ");
    lemma_block_lines(q, a);
    let head = "⟩ "@ + q;
    let first = seq![strip_cr(head), Seq::<char>::empty()];
    lemma_answer_lines_append(first, lines_of(a));
    assert(strip_cr(head).take(2) =~= "⟩ "@) by {
        assert(head.len() >= 2);
        if head.len() > 2 && head.last() == '\r' {
            assert(strip_cr(head) =~= head.drop_last());
        }
    }
    assert(starts_with_spec(strip_cr(head), "⟩ "@));
    assert(first.drop_last() =~= seq![strip_cr(head)]);
    assert(seq![strip_cr(head)].drop_last() =~= Seq::<Seq<char>>::empty());
    assert(seq![strip_cr(head)].last() == strip_cr(head));
    assert(answer_lines(Seq::<Seq<char>>::empty()) =~= seq![]);
    assert(answer_lines(seq![strip_cr(head)]) =~= seq![]);
    assert(!starts_with_spec(Seq::<char>::empty(), "⟩ "@));
    assert(answer_lines(first) =~= seq![seq![]]);
    assert("⟩ "@ + q + "\n\n"@ + a =~= head + "\n\n"@ + a);
}

} // verus!
