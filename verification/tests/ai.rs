use nuzzle::ai::client::{
    base_url_of, check_error_body, check_reply, clean_description, description_prompt, digest_prompt,
    summary_prompt, ChatMessage, ReplyStep, StreamDecoder, ToolChat, DIGEST_PROMPT, SUMMARY_PROMPT,
};
use nuzzle::ai::tools::{execute_search_news, format_search_results, NO_RESULTS};
use nuzzle::tools::protocol::ToolCall;
use nuzzle::types::{Entry, Moment};

fn entry(id: i64, title: &str, summary: Option<&str>) -> Entry {
    Entry {
        id,
        feed_id: 1,
        guid: format!("g{}", id),
        title: Some(title.to_string()),
        link: None,
        summary: summary.map(|s| s.to_string()),
        content: None,
        author: None,
        published_at: Some(Moment { secs: 1_700_000_000, nanos: 0 }),
        fetched_at: None,
        is_read: false,
        is_starred: false,
    }
}

#[test]
fn search_ranks_by_matching_words() {
    let es = vec![
        entry(1, "Cooking pasta", None),
        entry(2, "Rust async runtime", Some("tokio and RUST")),
        entry(3, "Async Python", None),
        entry(4, "Gardening", None),
    ];
    let r = execute_search_news(&es, "rust ASYNC", 10);
    let ids: Vec<i64> = r.iter().map(|e| e.id).collect();
    assert_eq!(ids, vec![2, 3]);
    let r1 = execute_search_news(&es, "async", 1);
    assert_eq!(r1.iter().map(|e| e.id).collect::<Vec<_>>(), vec![2]);
    assert!(execute_search_news(&es, "nothing", 5).is_empty());
}

#[test]
fn search_results_text() {
    assert_eq!(format_search_results(&[]), NO_RESULTS);
    let es = vec![entry(1, "A", Some("first")), Entry { title: None, ..entry(2, "", None) }];
    assert_eq!(
        format_search_results(&es),
        "RESULTS: Found matching articles:\n\n1. A \u{2014} first\n\n2. Untitled \u{2014} "
    );
}

#[test]
fn base_url_drops_trailing_slashes() {
    assert_eq!(base_url_of("http://localhost:11434//"), "http://localhost:11434");
    assert_eq!(base_url_of("http://h"), "http://h");
}

#[test]
fn reply_checks() {
    assert_eq!(check_reply(200, "{}", None), Ok(()));
    assert_eq!(check_reply(200, "{}", Some("")), Ok(()));
    assert_eq!(check_reply(500, "boom", Some("model not found")), Err("Ollama: model not found".to_string()));
    assert_eq!(check_reply(404, "not here", None), Err("Ollama HTTP 404: not here".to_string()));
    let long = "x".repeat(300);
    assert_eq!(check_reply(500, &long, None), Err(format!("Ollama HTTP 500: {}", "x".repeat(200))));
    assert_eq!(check_error_body(Some("bad")), Err("Ollama: bad".to_string()));
    assert_eq!(check_error_body(None), Ok(()));
}

#[test]
fn stream_decoder_reads_lines_across_chunks() {
    let mut d = StreamDecoder::new();
    let (m1, stop1) = d.feed(b"{\"response\":\"Hel");
    assert!(m1.is_empty() && !stop1);
    let (m2, stop2) = d.feed(b"lo\"}\n{\"response\":\" world\"}\n\n{\"response\":\"\"}\n");
    assert_eq!(m2, vec!["Hello".to_string(), " world".to_string()]);
    assert!(!stop2);
    let (m3, stop3) = d.feed(b"{\"done\":true}\nnot json\n");
    assert_eq!(m3, vec!["__DONE__".to_string()]);
    assert!(!stop3);
    let (m4, stop4) = d.feed(b"{\"error\":\"oops\"}\n{\"response\":\"late\"}\n");
    assert_eq!(m4, vec!["Error: oops\n".to_string(), "__DONE__".to_string()]);
    assert!(stop4);
}

#[test]
fn stream_finish_reports_bad_status() {
    assert_eq!(StreamDecoder::finish(200), vec!["__DONE__".to_string()]);
    assert_eq!(
        StreamDecoder::finish(503),
        vec!["Error: Ollama HTTP 503\n".to_string(), "__DONE__".to_string()]
    );
}

#[test]
fn description_prompt_lists_messages() {
    let ms = vec![ChatMessage::new("user", "hi"), ChatMessage::new("assistant", "hello")];
    assert_eq!(
        description_prompt(&ms),
        "Summarize this conversation topic in ONE short sentence (max 100 characters).\n\n[user]: hi\n[assistant]: hello\n\nDescription: "
    );
}

#[test]
fn descriptions_are_cleaned_and_cut() {
    assert_eq!(clean_description("  \"Rust news\"  "), "Rust news");
    let long = "a".repeat(130);
    assert_eq!(clean_description(&long), format!("{}...", "a".repeat(117)));
    let exact = "b".repeat(120);
    assert_eq!(clean_description(&exact), exact);
}

#[test]
fn digest_prompt_uses_entries_with_summaries() {
    let es = vec![entry(1, "A", Some("sa")), entry(2, "B", None), entry(3, "C", Some(""))];
    assert_eq!(digest_prompt(&es), Some(format!("{}- A: sa", DIGEST_PROMPT)));
    assert_eq!(digest_prompt(&[entry(2, "B", None)]), None);
}

#[test]
fn summary_prompt_prefixes_article() {
    assert_eq!(summary_prompt("body"), format!("{}body", SUMMARY_PROMPT));
}

#[test]
fn tool_chat_runs_a_round() {
    let hist = vec![ChatMessage::new("assistant", "earlier")];
    let mut chat = ToolChat::new("sys", "question", &hist);
    let roles: Vec<&str> = chat.messages().iter().map(|m| m.role.as_str()).collect();
    assert_eq!(roles, vec!["system", "assistant", "user"]);
    let step = chat.on_reply("Let me check.\n<tool>\nsearch_news --q rust\n</tool>");
    let calls = match step {
        ReplyStep::Tools(c) => c,
        ReplyStep::Final(_) => panic!("expected tool calls"),
    };
    assert_eq!(calls.len(), 1);
    assert_eq!(chat.messages().last().unwrap().content, "Let me check.");
    let call = ToolCall { name: calls[0].name.clone(), args: calls[0].args.clone() };
    assert_eq!(chat.begin_call(&call), "search_news --q rust");
    assert_eq!(chat.end_call(&call, &Ok("a\nb".to_string())), "search_news: 2 lines, 3 bytes");
    let bad = ToolCall { name: "x".to_string(), args: String::new() };
    chat.begin_call(&bad);
    assert_eq!(chat.end_call(&bad, &Err("nope".to_string())), "x: ERROR");
    chat.end_round();
    assert_eq!(
        chat.messages().last().unwrap().content,
        "Tool execution results:\nTool: search_news --q rust\na\nb\n---\nTool: x \nERROR: nope\n\n---\n"
    );
    match chat.on_reply("Final answer") {
        ReplyStep::Final(status) => assert_eq!(status, "done: search_news (2 lines), x failed"),
        ReplyStep::Tools(_) => panic!("expected the answer"),
    }
}

#[test]
fn tool_output_is_truncated_at_8000_bytes() {
    let mut chat = ToolChat::new("s", "q", &[]);
    let call = ToolCall { name: "big".to_string(), args: String::new() };
    let out = "z".repeat(9000);
    assert_eq!(chat.end_call(&call, &Ok(out)), "big: 1 lines, 9000 bytes");
    chat.end_round();
    let last = &chat.messages().last().unwrap().content;
    assert_eq!(last, &format!("Tool execution results:\n{}...\n[truncated]\n---\n", "z".repeat(8000)));
}

#[test]
fn tool_chat_allows_eight_rounds() {
    let mut chat = ToolChat::new("s", "q", &[]);
    let mut rounds = 0;
    while chat.rounds_left() {
        match chat.on_reply("<tool>\nls\n</tool>") {
            ReplyStep::Tools(calls) => assert_eq!(calls.len(), 1),
            ReplyStep::Final(_) => panic!("expected tool calls"),
        }
        chat.end_round();
        rounds += 1;
    }
    assert_eq!(rounds, 8);
    assert!(!chat.rounds_left());
    assert_eq!(chat.final_status(), "done");
}

#[test]
fn plain_reply_without_tools_is_final() {
    let mut chat = ToolChat::new("s", "q", &[]);
    match chat.on_reply("just text <tool> without close") {
        ReplyStep::Final(status) => assert_eq!(status, "done"),
        ReplyStep::Tools(_) => panic!("no complete tool block"),
    }
}

#[test]
fn stream_decoding_does_not_depend_on_chunking() {
    let text = "{\"response\":\"a\u{e9}\"}\n{\"response\":\"b\"}\n{\"done\":true}\n";
    let bytes: &[u8] = text.as_bytes();
    let mut whole = StreamDecoder::new();
    let (all, _) = whole.feed(bytes);
    let mut bytewise = StreamDecoder::new();
    let mut pieces = Vec::new();
    for i in 0..bytes.len() {
        let (m, _) = bytewise.feed(&bytes[i..i + 1]);
        pieces.extend(m);
    }
    assert_eq!(all, pieces);
    assert_eq!(all, vec!["a\u{e9}".to_string(), "b".to_string(), "__DONE__".to_string()]);
}
