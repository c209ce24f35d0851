use nuzzle::commands::{
    code_session_name, code_session_note, find_session, parse_command, research_dir, research_prompt, session_name_now,
    submission, switched_note, Command, CommandWork, Submission, COMMANDS_HELP,
};
use nuzzle::config::Config;
use nuzzle::state::{
    answer_text, chat_history, recent_entries, session_files_prompt, AppState, InputTarget, Key, KeyEffect, KeyInput,
    KeyKind,
};
use nuzzle::types::{AIMessage, AISession, AppMode, Entry, Feed, Highlight, Moment, SessionFile, SessionType};

fn state() -> AppState {
    AppState::new(Config::default_for("/home/u/.local/share/nuzzle"), "/home/u/.local/share/nuzzle")
}

fn feed(id: i64, title: &str) -> Feed {
    Feed {
        id,
        title: title.to_string(),
        url: format!("https://f{}.example/rss", id),
        feed_type: "rss".to_string(),
        category: None,
        icon_url: None,
        last_fetched_at: None,
        error_count: 0,
    }
}

fn entry(id: i64, title: &str, published: Option<Moment>) -> Entry {
    Entry {
        id,
        feed_id: 1,
        guid: format!("g{}", id),
        title: Some(title.to_string()),
        link: None,
        summary: Some(format!("summary {}", id)),
        content: None,
        author: None,
        published_at: published,
        fetched_at: None,
        is_read: false,
        is_starred: false,
    }
}

fn session(id: i64, name: &str, t: SessionType) -> AISession {
    AISession {
        id,
        name: name.to_string(),
        model: "m".to_string(),
        description: String::new(),
        session_type: t,
        created_at: None,
    }
}

fn key(code: Key) -> KeyInput {
    KeyInput { code, kind: KeyKind::Press, control_only: false }
}

fn no_lines() -> Vec<String> {
    Vec::new()
}

#[test]
fn starts_on_the_feed_view() {
    let s = state();
    assert_eq!(s.mode, AppMode::Feeds);
    assert_eq!(s.workspace_dir, "/home/u/.local/share/nuzzle/code");
    assert_eq!(s.config.ollama.model, "llama3.2");
    assert!(s.blocks.is_empty() && !s.should_quit);
}

#[test]
fn keys_go_to_the_right_box() {
    let mut s = state();
    assert_eq!(s.input_target(&key(Key::Down)), InputTarget::AskBar);
    s.mode = AppMode::Search;
    assert_eq!(s.input_target(&key(Key::Down)), InputTarget::SearchBox);
    s.mode = AppMode::ModelSelect;
    assert_eq!(s.input_target(&key(Key::Down)), InputTarget::NoInput);
    s.mode = AppMode::Feeds;
    let up = KeyInput { code: Key::Down, kind: KeyKind::Release, control_only: false };
    assert_eq!(s.input_target(&up), InputTarget::NoInput);
}

#[test]
fn navigates_feeds_and_opens_one() {
    let mut s = state();
    s.feeds = vec![feed(10, "A"), feed(20, "B")];
    let r = s.on_key(&key(Key::Char('j')), false, &no_lines());
    assert!(matches!(r.effect, KeyEffect::Nothing));
    assert_eq!(s.selected_feed, 1);
    s.on_key(&key(Key::Down), false, &no_lines());
    assert_eq!(s.selected_feed, 1);
    let r = s.on_key(&key(Key::Enter), true, &no_lines());
    assert!(r.clear_input);
    assert!(matches!(r.effect, KeyEffect::OpenFeed(20)));
    s.show_feed_entries(vec![entry(5, "e5", None), entry(6, "e6", None)]);
    assert_eq!(s.mode, AppMode::Articles);
    s.on_key(&key(Key::Char('j')), false, &no_lines());
    assert_eq!(s.selected_entry, 1);
    let r = s.on_key(&key(Key::Enter), false, &no_lines());
    assert!(matches!(r.effect, KeyEffect::OpenArticle(6, 20)));
    s.article_opened();
    assert_eq!(s.mode, AppMode::Reading);
    assert!(s.entries[1].is_read && !s.entries[0].is_read);
}

#[test]
fn typed_line_is_submitted() {
    let mut s = state();
    let lines = vec!["  what is ".to_string(), "new?  ".to_string()];
    let r = s.on_key(&key(Key::Enter), true, &lines);
    assert!(r.clear_input);
    match r.effect {
        KeyEffect::Submit(t) => assert_eq!(t, "what is  new?"),
        _ => panic!("expected a submission"),
    }
    let r = s.on_key(&key(Key::Char('x')), true, &vec!["x".to_string()]);
    assert!(!r.clear_input && matches!(r.effect, KeyEffect::Nothing));
}

#[test]
fn control_c_quits_and_scroll_repeats() {
    let mut s = state();
    s.mode = AppMode::Reading;
    let rep = KeyInput { code: Key::Down, kind: KeyKind::Repeat, control_only: false };
    s.on_key(&rep, false, &no_lines());
    s.on_key(&rep, false, &no_lines());
    assert_eq!(s.scroll_offset, 2);
    let back = KeyInput { code: Key::Up, kind: KeyKind::Repeat, control_only: false };
    s.on_key(&back, false, &no_lines());
    assert_eq!(s.scroll_offset, 1);
    let ctrl_c = KeyInput { code: Key::Char('c'), kind: KeyKind::Press, control_only: true };
    assert!(s.key_safe(&ctrl_c, false, &no_lines()));
    s.on_key(&ctrl_c, false, &no_lines());
    assert!(s.should_quit);
}

#[test]
fn unsafe_keys_are_flagged() {
    let mut s = state();
    s.mode = AppMode::Reading;
    s.scroll_offset = u16::MAX;
    let rep = KeyInput { code: Key::Down, kind: KeyKind::Repeat, control_only: false };
    assert!(!s.key_safe(&rep, false, &no_lines()));
    s.mode = AppMode::Feeds;
    s.scroll_offset = 0;
    s.feeds = vec![feed(1, "A")];
    s.selected_feed = 3;
    assert!(!s.key_safe(&key(Key::Enter), false, &no_lines()));
}

#[test]
fn search_box_runs_a_search() {
    let mut s = state();
    s.mode = AppMode::Search;
    let r = s.on_key(&key(Key::Enter), true, &vec![" rust ".to_string()]);
    assert!(r.clear_input);
    match r.effect {
        KeyEffect::RunSearch(q) => assert_eq!(q, "rust"),
        _ => panic!("expected a search"),
    }
    let r = s.on_key(&key(Key::Enter), true, &vec!["   ".to_string()]);
    assert!(r.clear_input && matches!(r.effect, KeyEffect::Nothing));
}

#[test]
fn model_picker_chooses_and_escapes() {
    let mut s = state();
    s.mode = AppMode::Ask;
    s.open_model_picker(vec!["a".to_string(), "llama3.2".to_string(), "c".to_string()]);
    assert_eq!(s.mode, AppMode::ModelSelect);
    assert_eq!(s.model_list_selected, 1);
    s.on_key(&key(Key::Char('j')), false, &no_lines());
    let r = s.on_key(&key(Key::Enter), false, &no_lines());
    assert!(matches!(r.effect, KeyEffect::SaveConfig));
    assert_eq!(s.config.ollama.model, "c");
    assert_eq!(s.status_message.as_deref(), Some("Model: c"));
    assert!(s.status_set);
    assert_eq!(s.mode, AppMode::Ask);
    s.open_model_picker(vec!["x".to_string()]);
    assert_eq!(s.model_list_selected, 0);
    s.on_key(&key(Key::Esc), false, &no_lines());
    assert_eq!(s.mode, AppMode::Ask);
    assert_eq!(s.config.ollama.model, "c");
}

#[test]
fn no_models_is_said_in_the_conversation() {
    let mut s = state();
    s.open_model_picker(Vec::new());
    assert_eq!(s.blocks, vec!["No models.".to_string()]);
    assert_eq!(s.mode, AppMode::Ask);
}

#[test]
fn session_picker_switches_session() {
    let mut s = state();
    s.session_id = 7;
    s.blocks = vec!["old".to_string()];
    s.open_session_picker(vec![session(3, "a", SessionType::Chat), session(7, "b", SessionType::Code)]);
    assert_eq!(s.session_list_selected, 1);
    assert_eq!(s.prev_mode, AppMode::Feeds);
    s.on_key(&key(Key::Char('k')), false, &no_lines());
    s.on_key(&key(Key::Enter), false, &no_lines());
    assert_eq!(s.session_id, 3);
    assert_eq!(s.session_name, "a");
    assert!(s.blocks.is_empty() && s.session_described);
    assert_eq!(s.status_message.as_deref(), Some("Session: a [chat]"));
    assert_eq!(s.mode, AppMode::Feeds);
}

#[test]
fn ask_view_browses_blocks() {
    let mut s = state();
    s.mode = AppMode::Ask;
    s.blocks = vec!["new".to_string(), "old".to_string()];
    s.on_key(&key(Key::Down), false, &no_lines());
    assert_eq!(s.block_idx, 1);
    s.on_key(&key(Key::Down), false, &no_lines());
    assert_eq!(s.block_idx, 1);
    s.on_key(&key(Key::Up), false, &no_lines());
    assert_eq!(s.block_idx, 0);
}

#[test]
fn parses_slash_commands() {
    assert!(matches!(parse_command("/exit"), Command::Exit));
    assert!(matches!(parse_command("/feed"), Command::Feed));
    assert!(matches!(parse_command("/new"), Command::New));
    assert!(matches!(parse_command("/models"), Command::Models));
    assert!(matches!(parse_command("/search"), Command::Search(q) if q.is_empty()));
    assert!(matches!(parse_command("/search async  rust "), Command::Search(q) if q == "async  rust"));
    assert!(matches!(parse_command("/code my-app"), Command::Code(q) if q == "my-app"));
    assert!(matches!(parse_command("/session"), Command::Session(None)));
    assert!(matches!(parse_command("/session  work "), Command::Session(Some(n)) if n == "work"));
    assert!(matches!(parse_command("/model qwen"), Command::Model(Some(n)) if n == "qwen"));
    assert!(matches!(parse_command("/model"), Command::Model(None)));
    assert!(matches!(parse_command("/help"), Command::Unknown));
    assert!(matches!(parse_command("/exit now"), Command::Exit));
}

#[test]
fn submissions_are_commands_or_questions() {
    assert!(matches!(submission("  /new "), Submission::Command(Command::New)));
    assert!(matches!(submission("why?"), Submission::Question(q) if q == "why?"));
}

#[test]
fn commands_update_the_screen() {
    let mut s = state();
    assert!(matches!(s.begin_command(Command::Model(Some("qwen".to_string()))), CommandWork::SaveConfig));
    assert_eq!(s.config.ollama.model, "qwen");
    assert!(s.blocks.is_empty());
    assert_eq!(s.mode, AppMode::Feeds);
    s.model_saved();
    assert_eq!(s.blocks[0], "Model: qwen");
    assert_eq!(s.mode, AppMode::Ask);
    assert!(matches!(s.begin_command(Command::Model(None)), CommandWork::Done));
    assert_eq!(s.blocks[0], "Current: qwen");
    assert!(matches!(s.begin_command(Command::Unknown), CommandWork::Done));
    assert_eq!(s.blocks[0], COMMANDS_HELP);
    assert_eq!(s.mode, AppMode::Ask);
    assert!(matches!(s.begin_command(Command::Feed), CommandWork::ReloadFeeds));
    assert!(s.blocks.is_empty() && s.mode == AppMode::Feeds);
    assert!(matches!(s.begin_command(Command::Session(Some("w".to_string()))), CommandWork::FindSession(n) if n == "w"));
    assert!(matches!(s.begin_command(Command::Exit), CommandWork::Done));
    assert!(s.should_quit);
}

#[test]
fn entering_a_session_adds_its_note() {
    let mut s = state();
    s.enter_session(4, "w".to_string(), SessionType::Search, true, switched_note("w", SessionType::Search));
    assert_eq!(s.blocks[0], "Switched to session \"w\" [search].");
    assert_eq!((s.session_id, s.session_type, s.mode), (4, SessionType::Search, AppMode::Ask));
}

#[test]
fn session_helpers() {
    let list = vec![session(1, "a", SessionType::Chat), session(2, "b", SessionType::Chat), session(3, "b", SessionType::Code)];
    assert_eq!(find_session(&list, "b"), Some(1));
    assert_eq!(find_session(&list, "z"), None);
    assert!(session_name_now("session-").starts_with("session-"));
    assert_eq!(session_name_now("session-").len(), "session-".len() + 6);
    assert_eq!(code_session_name("app"), "app");
    assert!(code_session_name("").starts_with("code-"));
    let stamp = session_name_now("session-")["session-".len()..].to_string();
    assert!(stamp.chars().all(|c| c.is_ascii_digit()));
    let code = code_session_name("");
    assert_eq!(code.len(), "code-".len() + 6);
    assert!(code["code-".len()..].chars().all(|c| c.is_ascii_digit()));
    assert_eq!(research_dir("/d", "s1"), "/d/research/s1");
    assert!(research_prompt("q").starts_with("Deep research on: q. Search the web"));
    assert_eq!(
        code_session_note("app", "/d/code/app", &vec!["/r/x/research.md".to_string()]),
        "Code session \"app\" created.\nWorkspace: /d/code/app\n\nRelevant research documents found:\n- /r/x/research.md\n\nUse read_file to load these as reference documentation."
    );
    assert_eq!(code_session_note("a", "/w", &Vec::new()), "Code session \"a\" created.\nWorkspace: /w\n");
}

#[test]
fn asking_streams_into_a_new_block() {
    let mut s = state();
    s.begin_ask("why?");
    assert_eq!(s.blocks[0], "\u{27e9} why?\n\n");
    assert!(s.is_streaming && !s.session_described);
    assert!(!s.on_stream_token("Because"));
    assert!(!s.on_stream_token(" it is."));
    assert_eq!(s.blocks[0], "\u{27e9} why?\n\nBecause it is.");
    assert!(s.on_stream_token("__DONE__"));
    assert!(!s.is_streaming && s.save_answer_needed);
    assert_eq!(s.take_answer(), Some("\nBecause it is.".to_string()));
    assert_eq!(s.take_answer(), None);
    assert!(s.note_history(2));
    assert!(s.session_described);
    assert!(!s.note_history(4));
}

#[test]
fn control_c_quits_in_every_mode() {
    let ctrl_c = KeyInput { code: Key::Char('c'), kind: KeyKind::Press, control_only: true };
    for mode in [AppMode::Ask, AppMode::Search, AppMode::ModelSelect, AppMode::SessionSelect,
        AppMode::Digest, AppMode::Help, AppMode::Tag, AppMode::Highlight, AppMode::Feeds] {
        let mut s = state();
        s.mode = mode;
        assert_eq!(s.input_target(&ctrl_c), InputTarget::NoInput);
        let r = s.on_key(&ctrl_c, true, &vec!["typed".to_string()]);
        assert!(s.should_quit);
        assert!(!r.clear_input && matches!(r.effect, KeyEffect::Nothing));
        assert_eq!(s.mode, mode);
    }
}

#[test]
fn list_keys_move_even_with_text_typed() {
    let mut s = state();
    s.feeds = vec![feed(10, "A"), feed(20, "B"), feed(30, "C")];
    assert_eq!(s.input_target(&key(Key::Char('j'))), InputTarget::NoInput);
    assert_eq!(s.input_target(&key(Key::Char('x'))), InputTarget::AskBar);
    let typed = vec!["hello".to_string()];
    let r = s.on_key(&key(Key::Char('j')), true, &typed);
    assert!(!r.clear_input && matches!(r.effect, KeyEffect::Nothing));
    assert_eq!(s.selected_feed, 1);
    s.on_key(&key(Key::Char('j')), true, &typed);
    assert_eq!(s.selected_feed, 2);
    s.on_key(&key(Key::Char('k')), true, &typed);
    assert_eq!(s.selected_feed, 1);
    s.mode = AppMode::Reading;
    assert_eq!(s.input_target(&key(Key::Char('j'))), InputTarget::AskBar);
}

#[test]
fn tool_status_messages() {
    let mut s = state();
    assert_eq!(s.on_tool_status("thinking..."), (true, false));
    assert_eq!(s.tool_activity.as_deref(), Some("thinking..."));
    assert_eq!(s.on_tool_status("done:  web_search (3 lines) "), (true, true));
    assert_eq!(s.tool_activity.as_deref(), Some("web_search (3 lines)"));
    assert_eq!(s.on_tool_status("done"), (false, true));
    s.expire_tool_activity(8_000_000_000);
    assert!(s.tool_activity.is_some());
    s.expire_tool_activity(8_000_000_001);
    assert!(s.tool_activity.is_none());
    s.set_status("x".to_string());
    s.expire_status(5_000_000_001);
    assert!(s.status_message.is_none());
}

#[test]
fn description_after_first_exchange() {
    let mut s = state();
    assert!(!s.note_history(1));
    assert!(s.note_history(2));
    assert!(!s.note_history(4));
}

#[test]
fn saved_answers_drop_question_lines() {
    assert_eq!(answer_text("\u{27e9} q\n\nline1\r\nline2"), "\nline1\nline2");
    assert_eq!(answer_text(""), "");
}

#[test]
fn history_and_files_prompts() {
    let msgs = vec![AIMessage { id: 1, session_id: 1, role: "user".to_string(), content: "hi".to_string(), created_at: None }];
    let h = chat_history(&msgs);
    assert_eq!((h[0].role.as_str(), h[0].content.as_str()), ("user", "hi"));
    let files = vec![SessionFile {
        id: 1,
        session_id: 1,
        filename: "r.md".to_string(),
        file_type: "research_md".to_string(),
        filepath: "/p/r.md".to_string(),
        created_at: None,
    }];
    assert_eq!(session_files_prompt(&files), "- r.md (research_md) at /p/r.md\n");
}

#[test]
fn system_prompt_by_session_type() {
    let mut s = state();
    let p = s.system_prompt("TOOLS\n", "");
    assert!(p.starts_with("You are Nuzzle, a capable AI assistant in a terminal application.\nYou are helpful"));
    assert!(p.contains("SESSION TYPE: chat\n\nTOOLS\n\nINSTRUCTIONS:\n- Default: 2-4 sentences"));
    s.session_type = SessionType::Code;
    let p = s.system_prompt("", "- f\n");
    assert!(p.contains("SESSION TYPE: code\n\nAVAILABLE REFERENCE FILES:\n- f\n\n\nINSTRUCTIONS:\n- Use exec to run commands"));
}

#[test]
fn recent_entries_are_the_last_two_days() {
    let now = Moment { secs: 1_000_000, nanos: 400 };
    let at = |secs: i64, nanos: u32| Some(Moment { secs, nanos });
    let mut es = vec![
        entry(1, "old", at(1_000_000 - 172_800, 400)),
        entry(2, "new", at(1_000_000 - 172_800, 401)),
        entry(3, "undated", None),
    ];
    let r = recent_entries(&es, now);
    assert_eq!(r.iter().map(|e| e.id).collect::<Vec<_>>(), vec![2]);
    for i in 10..40 {
        es.push(entry(i, "n", Some(now)));
    }
    assert_eq!(recent_entries(&es, now).len(), 20);
}

#[test]
fn going_back() {
    let mut s = state();
    s.mode = AppMode::Reading;
    s.summary_text = Some("x".to_string());
    s.go_back();
    assert_eq!(s.mode, AppMode::Feeds);
    assert!(s.summary_text.is_none());
    s.mode = AppMode::Digest;
    s.go_back();
    assert_eq!(s.mode, AppMode::Reading);
}

#[test]
fn header_and_navigation_texts() {
    let mut s = state();
    s.feeds = vec![feed(1, "Hacker News")];
    s.entries = vec![entry(1, "a", None), entry(2, "b", None)];
    assert_eq!(s.header_texts(), (" Hacker News".to_string(), "2 articles".to_string()));
    assert_eq!(s.nav_text(), "");
    s.mode = AppMode::Search;
    assert_eq!(s.header_texts(), (" Search  \u{b7}  Enter to run".to_string(), String::new()));
    s.blocks = vec!["q\nanswer".to_string(), "older".to_string()];
    s.tool_activity = Some("exec ls".to_string());
    assert_eq!(s.header_texts(), (" Q&A  \u{b7}  1/2".to_string(), "exec ls".to_string()));
    assert_eq!(s.nav_text(), "  1/2  \u{2191}\u{2193} browse");
}

#[test]
fn conversation_view_styles_the_question() {
    let mut s = state();
    s.blocks = vec!["\u{27e9} q\n**a**".to_string()];
    let v = s.conversation_view();
    assert_eq!(v.lines.len(), 2);
    assert_eq!(v.lines[0].spans[0].content, "\u{27e9} q");
    assert!(v.lines[1].spans.iter().any(|sp| sp.content == "a" && sp.style.bold));
}

#[test]
fn list_view_texts() {
    let mut s = state();
    assert_eq!(s.search_text(), "  Type query, Enter to search");
    s.search_hits = vec![entry(1, "one", None), entry(2, "two", None)];
    s.search_selected = 1;
    assert_eq!(s.search_text(), "    one\n  \u{25b8} two");
    assert_eq!(s.tags_text(), "No tags");
    s.current_tags = vec!["a".to_string(), "b".to_string()];
    assert_eq!(s.tags_text(), "Tags: a, b");
    assert_eq!(s.highlights_text(), "No highlights");
    s.highlights = vec![Highlight { id: 1, entry_id: 1, text: "x".to_string(), note: None, created_at: None }];
    assert_eq!(s.highlights_text(), "- x");
    s.entries = vec![Entry { content: Some("body".to_string()), ..entry(1, "t", None) }];
    assert_eq!(s.reading_view(), (Some("t".to_string()), Some("body".to_string())));
    s.entries = vec![entry(1, "t", None)];
    assert_eq!(s.reading_view(), (Some("t".to_string()), Some("summary 1".to_string())));
}

#[test]
fn session_picker_opened_and_closed_leaves_the_view() {
    let mut s = state();
    s.mode = AppMode::Articles;
    s.open_session_picker(vec![session(1, "a", SessionType::Chat)]);
    assert_eq!(s.mode, AppMode::SessionSelect);
    s.on_key(&key(Key::Esc), false, &no_lines());
    assert_eq!(s.mode, AppMode::Articles);
    assert_eq!(s.session_id, 0);
}

#[test]
fn streamed_pieces_add_up() {
    let mut a = state();
    a.begin_ask("q");
    let mut b = state();
    b.begin_ask("q");
    a.on_stream_token("Hel");
    a.on_stream_token("lo");
    b.on_stream_token("Hello");
    assert_eq!(a.blocks, b.blocks);
}

#[test]
fn session_type_names_round_trip() {
    for t in [SessionType::Chat, SessionType::Code, SessionType::Search] {
        assert_eq!(SessionType::from_str(t.as_str()), t);
    }
    assert_eq!(SessionType::from_str("other"), SessionType::Chat);
}

#[test]
fn saved_answer_is_what_was_streamed() {
    let mut s = state();
    s.begin_ask("one line");
    s.on_stream_token("first\n\u{27e9} not saved\nsecond");
    s.on_stream_token("__DONE__");
    assert_eq!(s.take_answer(), Some("\nfirst\nsecond".to_string()));
}
