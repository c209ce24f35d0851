//! The lines typed into the ask bar: questions and slash commands, what each
//! command changes on screen, and the outside work it leaves to the caller.

use vstd::prelude::*;
use crate::text::{
    trim, trim_str, chars_of, starts_with_spec, find_char, find_char_spec, copy_range, string_from,
    eq_str,
};
use crate::types::{AppMode, AISession, SessionType, session_type_name};
use crate::config::{join_path, join_path_spec};
use crate::ai::client::{opt_view, join, join_strings, strs};
use crate::state::AppState;
use crate::clock::{now_text, time_of_day_stamp};

verus! {

/// A slash command, with its argument where it takes one.
#[derive(Debug)]
pub enum Command {
    Exit,
    Feed,
    New,
    Search(String),
    Code(String),
    Session(Option<String>),
    Models,
    Model(Option<String>),
    Unknown,
}

/// A line submitted from the ask bar.
#[derive(Debug)]
pub enum Submission {
    Command(Command),
    Question(String),
}

/// The outside work a command leaves to the caller once the screen is updated.
#[derive(Debug)]
pub enum CommandWork {
    Done,
    /// Write out the configuration; once it is written, call `model_saved`.
    SaveConfig,
    /// Reload the feeds and all entries, then the entries of the selected feed.
    ReloadFeeds,
    /// Create a chat session named by `session_name_now("session-")`.
    NewSession,
    /// Start a research session on this query (possibly empty).
    SearchSession(String),
    /// Start a code session with this name (possibly empty).
    CodeSession(String),
    /// Switch to the session with this name, creating it if there is none.
    FindSession(String),
    /// List the sessions, then call `open_session_picker`.
    ListSessions,
    /// List the server's models, then call `open_model_picker`.
    ListModels,
}

/// The help line listing the commands.
pub const COMMANDS_HELP: &'static str = "/exit /feed /new /session /search /code /models /model <name>";

/// The first word of a command line: everything before the first space.
pub open spec fn split_head(s: Seq<char>) -> Seq<char> {
    match find_char_spec(s, 0, ' ') {
        Some(i) => s.take(i),
        None => s,
    }
}

/// Everything after the first space of a command line, if it has one.
pub open spec fn split_rest(s: Seq<char>) -> Option<Seq<char>> {
    match find_char_spec(s, 0, ' ') {
        Some(i) => Some(s.skip(i + 1)),
        None => None,
    }
}

/// The trimmed argument of a command, if the line has one.
pub open spec fn argument(s: Seq<char>) -> Option<Seq<char>> {
    match split_rest(s) {
        Some(r) => Some(trim(r)),
        None => None,
    }
}

/// The trimmed argument of a command, empty if the line has none.
pub open spec fn argument_or_empty(s: Seq<char>) -> Seq<char> {
    match argument(s) {
        Some(a) => a,
        None => seq![],
    }
}

/// Whether `c` is the command the line `s` spells.
pub open spec fn command_of(s: Seq<char>, c: Command) -> bool {
    let h = split_head(s);
    if h == "/exit"@ {
        c is Exit
    } else if h == "/feed"@ {
        c is Feed
    } else if h == "/new"@ {
        c is New
    } else if h == "/search"@ {
        c matches Command::Search(q) && q@ == argument_or_empty(s)
    } else if h == "/code"@ {
        c matches Command::Code(q) && q@ == argument_or_empty(s)
    } else if h == "/session"@ {
        c matches Command::Session(o) && opt_view(o) == argument(s)
    } else if h == "/models"@ {
        c is Models
    } else if h == "/model"@ {
        c matches Command::Model(o) && opt_view(o) == argument(s)
    } else {
        c is Unknown
    }
}

/// The command a line spells.
pub fn parse_command(cmd: &str) -> (c: Command)
    ensures
        command_of(cmd@, c),
{
    let cs = chars_of(cmd);
    let n = cs.len();
    let (head, rest) = match find_char(&cs, 0, ' ') {
        Some(i) => {
            let h = copy_range(&cs, 0, i);
            let r = copy_range(&cs, i + 1, n);
            assert(h@ == cs@.take(i as int));
            assert(r@ == cs@.skip(i + 1));
            let rs = string_from(&r);
            (string_from(&h), Some(trim_str(rs.as_str())))
        },
        None => (string_from(&cs), None),
    };
    assert(head@ == split_head(cmd@));
    assert(opt_view(rest) == argument(cmd@));
    let h = head.as_str();
    if eq_str(h, "/exit") {
        Command::Exit
    } else if eq_str(h, "/feed") {
        Command::Feed
    } else if eq_str(h, "/new") {
        Command::New
    } else if eq_str(h, "/search") {
        Command::Search(match rest { Some(r) => r, None => String::new() })
    } else if eq_str(h, "/code") {
        Command::Code(match rest { Some(r) => r, None => String::new() })
    } else if eq_str(h, "/session") {
        Command::Session(rest)
    } else if eq_str(h, "/models") {
        Command::Models
    } else if eq_str(h, "/model") {
        Command::Model(rest)
    } else {
        Command::Unknown
    }
}

/// What a submitted line is: a command when, trimmed, it starts with `/`;
/// else a question, asked as given.
pub fn submission(text: &str) -> (r: Submission)
    ensures
        starts_with_spec(trim(text@), "/"@) ==> (r matches Submission::Command(c) && command_of(trim(text@), c)),
        !starts_with_spec(trim(text@), "/"@) ==> (r matches Submission::Question(q) && q@ == text@),
{
    let t = trim_str(text);
    let cs = chars_of(t.as_str());
    proof {
        reveal_strlit("/");
    }
    if cs.len() > 0 && cs[0] == '/' {
        assert(cs@.take(1) =~= "/"@);
        Submission::Command(parse_command(t.as_str()))
    } else {
        proof {
            if starts_with_spec(trim(text@), "/"@) {
                assert(trim(text@).take(1)[0] == '/');
            }
        }
        Submission::Question(string_from(&chars_of(text)))
    }
}

/// Whether `new` is `old` with an item whose text is `m` in front.
pub open spec fn pushed_front(old: Seq<String>, new: Seq<String>, m: Seq<char>) -> bool {
    new.len() == old.len() + 1 && new[0]@ == m && new.skip(1) == old
}

/// The position of the first session with id `id`, or the first position.
pub open spec fn session_position(l: Seq<AISession>, id: i64) -> int {
    if exists|i: int| 0 <= i < l.len() && l[i].id == id && forall|j: int| 0 <= j < i ==> l[j].id != id {
        choose|i: int| 0 <= i < l.len() && l[i].id == id && forall|j: int| 0 <= j < i ==> l[j].id != id
    } else {
        0
    }
}

/// The position of the first model named `m`, or the first position.
pub open spec fn model_position(l: Seq<String>, m: Seq<char>) -> int {
    if exists|i: int| 0 <= i < l.len() && l[i]@ == m && forall|j: int| 0 <= j < i ==> l[j]@ != m {
        choose|i: int| 0 <= i < l.len() && l[i]@ == m && forall|j: int| 0 <= j < i ==> l[j]@ != m
    } else {
        0
    }
}

/// The position of the first session named `name`, if there is one.
pub open spec fn named_session(l: Seq<AISession>, name: Seq<char>) -> Option<int> {
    if exists|i: int| 0 <= i < l.len() && l[i].name@ == name && forall|j: int| 0 <= j < i ==> l[j].name@ != name {
        Some(choose|i: int| 0 <= i < l.len() && l[i].name@ == name && forall|j: int| 0 <= j < i ==> l[j].name@ != name)
    } else {
        None
    }
}

/// The first session named `name`, if there is one.
pub fn find_session(list: &Vec<AISession>, name: &str) -> (r: Option<usize>)
    ensures
        r matches Some(i) ==> named_session(list@, name@) == Some(i as int) && i < list@.len(),
        r is None ==> named_session(list@, name@) is None,
{
    let mut i: usize = 0;
    while i < list.len()
        invariant
            0 <= i <= list@.len(),
            forall|j: int| 0 <= j < i ==> list@[j].name@ != name@,
        decreases list@.len() - i,
    {
        if eq_str(list[i].name.as_str(), name) {
            let ghost w = i as int;
            let ghost k = choose|k: int| 0 <= k < list@.len() && list@[k].name@ == name@ && forall|j: int| 0 <= j < k ==> list@[j].name@ != name@;
            assert(k == w) by {
                if k < w {
                    assert(list@[k].name@ != name@);
                } else if k > w {
                    assert(list@[w].name@ != name@);
                }
            }
            return Some(i);
        }
        i = i + 1;
    }
    None
}

/// The note shown when switching to the session `name` of type `t`.
pub open spec fn switched_note_spec(name: Seq<char>, t: SessionType) -> Seq<char> {
    "Switched to session \""@ + name + "\" ["@ + session_type_name(t) + "]."@
}

/// The note shown when switching to a session.
pub fn switched_note(name: &str, t: SessionType) -> (r: String)
    ensures
        r@ == switched_note_spec(name@, t),
{
    let mut s = String::from_str("Switched to session \"");
    s.append(name);
    s.append("\" [");
    s.append(t.as_str());
    s.append("].");
    s
}

/// The note shown when a chat session is created.
pub const NEW_SESSION_NOTE: &'static str = "New chat session.";

/// The note shown when a research session is created without a query.
pub const SEARCH_SESSION_NOTE: &'static str = "Search session created. Type your research query.";

/// The note shown when a research session is created with a query.
pub fn researching_note(query: &str) -> (r: String)
    ensures
        r@ == "Researching: "@ + query@ + "\n"@,
{
    let mut s = String::from_str("Researching: ");
    s.append(query);
    s.append("\n");
    s
}

/// The question asked on the user's behalf to start a research session.
pub fn research_prompt(query: &str) -> (r: String)
    ensures
        r@ == "Deep research on: "@ + query@
            + ". Search the web for authoritative information, read relevant pages, and compile a comprehensive research document. Write your findings to research.md using write_file."@,
{
    let mut s = String::from_str("Deep research on: ");
    s.append(query);
    s.append(". Search the web for authoritative information, read relevant pages, and compile a comprehensive research document. Write your findings to research.md using write_file.");
    s
}

/// A session name: a prefix and a time stamp.
pub fn stamped_name(prefix: &str, stamp: &str) -> (r: String)
    ensures
        r@ == prefix@ + stamp@,
{
    let mut s = String::from_str(prefix);
    s.append(stamp);
    s
}

/// The workspace of the research session `name` under the data directory.
pub fn research_dir(data_dir: &str, name: &str) -> (r: String)
    ensures
        r@ == join_path_spec(join_path_spec(data_dir@, "research"@), name@),
{
    let base = join_path(data_dir, "research");
    join_path(base.as_str(), name)
}

/// The workspace of the code session `name` under the data directory.
pub fn code_dir(data_dir: &str, name: &str) -> (r: String)
    ensures
        r@ == join_path_spec(join_path_spec(data_dir@, "code"@), name@),
{
    let base = join_path(data_dir, "code");
    join_path(base.as_str(), name)
}

/// A session name made of `prefix` and the current time of day (`HHMMSS`).
pub fn session_name_now(prefix: &str) -> (r: String)
    ensures
        exists|stamp: Seq<char>| time_of_day_stamp(stamp) && r@ == prefix@ + stamp,
{
    let stamp = now_text("%H%M%S");
    stamped_name(prefix, stamp.as_str())
}

/// The name of a code session: the one given, or `code-` and the current
/// time of day.
pub fn code_session_name(given: &str) -> (r: String)
    ensures
        given@.len() > 0 ==> r@ == given@,
        given@.len() == 0 ==> exists|stamp: Seq<char>| time_of_day_stamp(stamp) && r@ == "code-"@ + stamp,
{
    if given.unicode_len() == 0 {
        session_name_now("code-")
    } else {
        string_from(&chars_of(given))
    }
}

/// The lines listing research documents found for a code session.
pub open spec fn file_lines(files: Seq<String>) -> Seq<char>
    decreases files.len(),
{
    if files.len() == 0 {
        seq![]
    } else {
        file_lines(files.drop_last()) + "- "@ + files.last()@ + "\n"@
    }
}

/// The note shown when a code session is created.
pub open spec fn code_session_note_spec(name: Seq<char>, dir: Seq<char>, files: Seq<String>) -> Seq<char> {
    let head = "Code session \""@ + name + "\" created.\nWorkspace: "@ + dir + "\n"@;
    if files.len() == 0 {
        head
    } else {
        head + "\nRelevant research documents found:\n"@ + file_lines(files)
            + "\nUse read_file to load these as reference documentation."@
    }
}

/// The note shown when a code session is created, listing the research
/// documents linked to it.
pub fn code_session_note(name: &str, dir: &str, files: &Vec<String>) -> (r: String)
    ensures
        r@ == code_session_note_spec(name@, dir@, files@),
{
    let mut s = String::from_str("Code session \"");
    s.append(name);
    s.append("\" created.\nWorkspace: ");
    s.append(dir);
    s.append("\n");
    if files.len() > 0 {
        s.append("\nRelevant research documents found:\n");
        let ghost head = s@;
        let mut i: usize = 0;
        while i < files.len()
            invariant
                0 <= i <= files@.len(),
                s@ == head + file_lines(files@.take(i as int)),
            decreases files@.len() - i,
        {
            s.append("- ");
            s.append(files[i].as_str());
            s.append("\n");
            proof {
                assert(files@.take(i + 1).drop_last() =~= files@.take(i as int));
            }
            i = i + 1;
        }
        assert(files@.take(files@.len() as int) =~= files@);
        s.append("\nUse read_file to load these as reference documentation.");
    }
    s
}

fn session_pos(list: &Vec<AISession>, id: i64) -> (pos: usize)
    ensures
        pos == session_position(list@, id),
{
    let mut i: usize = 0;
    while i < list.len()
        invariant
            0 <= i <= list@.len(),
            forall|j: int| 0 <= j < i ==> list@[j].id != id,
        decreases list@.len() - i,
    {
        if list[i].id == id {
            let ghost w = i as int;
            let ghost k = choose|k: int| 0 <= k < list@.len() && list@[k].id == id && forall|j: int| 0 <= j < k ==> list@[j].id != id;
            assert(k == w) by {
                if k < w {
                    assert(list@[k].id != id);
                } else if k > w {
                    assert(list@[w].id != id);
                }
            }
            return i;
        }
        i = i + 1;
    }
    0
}

fn model_pos(models: &Vec<String>, m: &str) -> (pos: usize)
    ensures
        pos == model_position(models@, m@),
{
    let mut i: usize = 0;
    while i < models.len()
        invariant
            0 <= i <= models@.len(),
            forall|j: int| 0 <= j < i ==> models@[j]@ != m@,
        decreases models@.len() - i,
    {
        if eq_str(models[i].as_str(), m) {
            let ghost w = i as int;
            let ghost k = choose|k: int| 0 <= k < models@.len() && models@[k]@ == m@ && forall|j: int| 0 <= j < k ==> models@[j]@ != m@;
            assert(k == w) by {
                if k < w {
                    assert(models@[k]@ != m@);
                } else if k > w {
                    assert(models@[w]@ != m@);
                }
            }
            return i;
        }
        i = i + 1;
    }
    0
}

impl AppState {
    /// Apply what a command changes on screen by itself and say what outside
    /// work remains.
    pub fn begin_command(&mut self, cmd: Command) -> (w: CommandWork)
        ensures
            cmd is Exit ==> *final(self) == (AppState { should_quit: true, ..*old(self) }) && w is Done,
            cmd is Feed ==> *final(self) == (AppState { mode: AppMode::Feeds, block_idx: 0, blocks: final(self).blocks, ..*old(self) })
                && final(self).blocks@.len() == 0 && w is ReloadFeeds,
            cmd is New ==> *final(self) == *old(self) && w is NewSession,
            cmd matches Command::Search(q) ==> *final(self) == *old(self) && w == CommandWork::SearchSession(q),
            cmd matches Command::Code(q) ==> *final(self) == *old(self) && w == CommandWork::CodeSession(q),
            cmd matches Command::Session(Some(n)) ==> *final(self) == *old(self) && w == CommandWork::FindSession(n),
            cmd matches Command::Session(None) ==> *final(self) == *old(self) && w is ListSessions,
            cmd is Models ==> *final(self) == *old(self) && w is ListModels,
            cmd matches Command::Model(Some(n)) ==> {
                &&& *final(self) == (AppState {
                    config: crate::config::Config {
                        ollama: crate::config::Ollama { model: n, ..old(self).config.ollama },
                        ..old(self).config
                    },
                    ..*old(self)
                })
                &&& w is SaveConfig
            },
            cmd matches Command::Model(None) ==> {
                &&& *final(self) == (AppState { blocks: final(self).blocks, mode: AppMode::Ask, ..*old(self) })
                &&& pushed_front(old(self).blocks@, final(self).blocks@, "Current: "@ + old(self).config.ollama.model@)
                &&& w is Done
            },
            cmd is Unknown ==> {
                &&& *final(self) == (AppState { blocks: final(self).blocks, mode: AppMode::Ask, ..*old(self) })
                &&& pushed_front(old(self).blocks@, final(self).blocks@, COMMANDS_HELP@)
                &&& w is Done
            },
    {
        match cmd {
            Command::Exit => {
                self.should_quit = true;
                CommandWork::Done
            },
            Command::Feed => {
                self.mode = AppMode::Feeds;
                self.blocks.clear();
                self.block_idx = 0;
                CommandWork::ReloadFeeds
            },
            Command::New => CommandWork::NewSession,
            Command::Search(q) => CommandWork::SearchSession(q),
            Command::Code(q) => CommandWork::CodeSession(q),
            Command::Session(Some(n)) => CommandWork::FindSession(n),
            Command::Session(None) => CommandWork::ListSessions,
            Command::Models => CommandWork::ListModels,
            Command::Model(Some(n)) => {
                self.config.ollama.model = n;
                CommandWork::SaveConfig
            },
            Command::Model(None) => {
                let mut m = String::from_str("Current: ");
                m.append(self.config.ollama.model.as_str());
                self.blocks.insert(0, m);
                assert(self.blocks@.skip(1) =~= old(self).blocks@);
                self.mode = AppMode::Ask;
                CommandWork::Done
            },
            Command::Unknown => {
                self.blocks.insert(0, String::from_str(COMMANDS_HELP));
                assert(self.blocks@.skip(1) =~= old(self).blocks@);
                self.mode = AppMode::Ask;
                CommandWork::Done
            },
        }
    }

    /// Once the configuration with a new model has been written out: note the
    /// model in front of the conversation and show it.
    pub fn model_saved(&mut self)
        ensures
            *final(self) == (AppState { blocks: final(self).blocks, mode: AppMode::Ask, ..*old(self) }),
            pushed_front(old(self).blocks@, final(self).blocks@, "Model: "@ + old(self).config.ollama.model@),
    {
        let mut m = String::from_str("Model: ");
        m.append(self.config.ollama.model.as_str());
        self.blocks.insert(0, m);
        assert(self.blocks@.skip(1) =~= old(self).blocks@);
        self.mode = AppMode::Ask;
    }

    /// Switch to a session: its id, name and type, whether it is already
    /// described, and a note put in front of the conversation.
    pub fn enter_session(&mut self, id: i64, name: String, stype: SessionType, described: bool, note: String)
        ensures
            *final(self) == (AppState {
                session_id: id,
                session_name: name,
                session_type: stype,
                session_described: described,
                blocks: final(self).blocks,
                block_idx: 0,
                mode: AppMode::Ask,
                ..*old(self)
            }),
            final(self).blocks@ == old(self).blocks@.insert(0, note),
    {
        self.session_id = id;
        self.session_name = name;
        self.session_type = stype;
        self.session_described = described;
        self.blocks.insert(0, note);
        self.block_idx = 0;
        self.mode = AppMode::Ask;
    }

    /// Open the session picker on `list`, at the current session.
    pub fn open_session_picker(&mut self, list: Vec<AISession>)
        ensures
            *final(self) == (AppState {
                session_list: list,
                session_list_selected: final(self).session_list_selected,
                prev_mode: old(self).mode,
                mode: AppMode::SessionSelect,
                ..*old(self)
            }),
            final(self).session_list_selected == session_position(list@, old(self).session_id),
    {
        let pos = session_pos(&list, self.session_id);
        self.session_list = list;
        self.session_list_selected = pos;
        self.prev_mode = self.mode;
        self.mode = AppMode::SessionSelect;
    }

    /// Open the model picker on the server's models, at the configured model;
    /// with no models, say so in the conversation instead.
    pub fn open_model_picker(&mut self, models: Vec<String>)
        ensures
            models@.len() == 0 ==> *final(self) == (AppState { blocks: final(self).blocks, mode: AppMode::Ask, ..*old(self) })
                && pushed_front(old(self).blocks@, final(self).blocks@, "No models."@),
            models@.len() > 0 ==> *final(self) == (AppState {
                available_models: models,
                model_list_selected: final(self).model_list_selected,
                prev_mode: old(self).mode,
                mode: AppMode::ModelSelect,
                ..*old(self)
            }) && final(self).model_list_selected == model_position(models@, old(self).config.ollama.model@),
    {
        if models.len() == 0 {
            self.blocks.insert(0, String::from_str("No models."));
            assert(self.blocks@.skip(1) =~= old(self).blocks@);
            self.mode = AppMode::Ask;
            return;
        }
        let pos = model_pos(&models, self.config.ollama.model.as_str());
        self.available_models = models;
        self.model_list_selected = pos;
        self.prev_mode = self.mode;
        self.mode = AppMode::ModelSelect;
    }
}

} // verus!
