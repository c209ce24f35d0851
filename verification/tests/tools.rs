use nuzzle::tools::executor::{run_output, script_args, tool_script};
use nuzzle::tools::protocol::{has_tool_calls, parse_tool_calls, strip_tool_blocks, ToolCall};
use nuzzle::tools::registry::{parse_script, ToolDef, ToolRegistry};

fn tool(name: &str, sessions: &[&str]) -> ToolDef {
    ToolDef {
        name: name.to_string(),
        desc: format!("{} tool", name),
        script_path: format!("/t/{}.sh", name),
        session_types: sessions.iter().map(|s| s.to_string()).collect(),
    }
}

#[test]
fn parses_one_call_with_arguments() {
    let text = "Let me look.\n<tool>\nsearch_news --query \"rust async\"\n</tool>\n";
    let calls = parse_tool_calls(text);
    assert_eq!(calls.len(), 1);
    assert_eq!(calls[0].name, "search_news");
    assert_eq!(calls[0].args, "--query \"rust async\"");
}

#[test]
fn joins_argument_lines_with_spaces() {
    let calls = parse_tool_calls("<tool>\nexec\n  --cmd ls  \n -la\n</tool>");
    assert_eq!(calls.len(), 1);
    assert_eq!(calls[0].name, "exec");
    assert_eq!(calls[0].args, "--cmd ls -la");
}

#[test]
fn skips_empty_blocks_and_reads_several() {
    let calls = parse_tool_calls("<tool> </tool> text <tool>a x</tool><tool>b</tool>");
    assert_eq!(calls.len(), 2);
    assert_eq!((calls[0].name.as_str(), calls[0].args.as_str()), ("a", "x"));
    assert_eq!((calls[1].name.as_str(), calls[1].args.as_str()), ("b", ""));
}

#[test]
fn detects_tool_tags() {
    assert!(has_tool_calls("x <tool>a</tool>"));
    assert!(!has_tool_calls("x <tool>a"));
    assert!(!has_tool_calls("plain answer"));
    // a parsed call is always detected
    let t = "<tool>\nweb_search q\n</tool>";
    assert!(!parse_tool_calls(t).is_empty() && has_tool_calls(t));
}

#[test]
fn strips_blocks_and_trailing_space() {
    assert_eq!(strip_tool_blocks("Hello <tool>a b</tool>   world "), "Hello world");
    assert_eq!(strip_tool_blocks("  <tool>x</tool>\n\nDone."), "Done.");
    assert_eq!(strip_tool_blocks("no tools here "), "no tools here");
}

#[test]
fn registry_get_after_insert() {
    let mut r = ToolRegistry::new();
    assert!(r.get("a").is_none());
    r.insert(tool("a", &["all"]));
    r.insert(tool("b", &["code"]));
    assert_eq!(r.get("a").unwrap().script_path, "/t/a.sh");
    let mut a2 = tool("a", &["chat"]);
    a2.desc = "second".to_string();
    r.insert(a2);
    assert_eq!(r.get("a").unwrap().desc, "second");
    assert_eq!(r.get("b").unwrap().desc, "b tool");
}

#[test]
fn lists_tools_for_a_session_by_name() {
    let mut r = ToolRegistry::new();
    r.insert(tool("zeta", &["all"]));
    r.insert(tool("exec", &["code"]));
    r.insert(tool("alpha", &["chat", "search"]));
    let chat: Vec<&str> = r.list_for_session("chat").iter().map(|t| t.name.as_str()).collect();
    assert_eq!(chat, vec!["alpha", "zeta"]);
    let code: Vec<&str> = r.list_for_session("code").iter().map(|t| t.name.as_str()).collect();
    assert_eq!(code, vec!["exec", "zeta"]);
}

#[test]
fn system_prompt_lists_tools() {
    let mut r = ToolRegistry::new();
    assert_eq!(r.build_system_prompt("chat"), "");
    r.insert(tool("alpha", &["chat"]));
    let p = r.build_system_prompt("chat");
    assert!(p.starts_with("AVAILABLE TOOLS (CLI scripts):\n\nTo use a tool, output a tool invocation block exactly like this:\n<tool>\n"));
    assert!(p.ends_with("## alpha\nalpha tool\nPath: /t/alpha.sh\n\n"));
    assert_eq!(r.build_system_prompt("code"), "");
}

#[test]
fn parses_script_headers() {
    let t = parse_script(
        "/x/web.sh",
        "#!/usr/bin/env bash\n# @name web_search\n# @desc Search the web\n# @session search, chat\necho hi\n# @name late",
    )
    .unwrap();
    assert_eq!(t.name, "web_search");
    assert_eq!(t.desc, "Search the web");
    assert_eq!(t.session_types, vec!["search".to_string(), "chat".to_string()]);
    let d = parse_script("/x/plain.sh", "echo hi").unwrap();
    assert_eq!(d.name, "plain");
    assert_eq!(d.desc, "Execute the plain script");
    assert_eq!(d.session_types, vec!["all".to_string()]);
}

#[test]
fn add_script_registers_sh_files_only() {
    let mut r = ToolRegistry::new();
    r.add_script("/x/notes.txt", Some("# @name notes"));
    assert!(r.get("notes").is_none());
    r.add_script("/x/read.sh", None);
    assert!(r.get("read").is_none());
    r.add_script("/x/read.sh", Some("# @name read_file"));
    assert!(r.get("read_file").is_some());
}

#[test]
fn tool_script_names_unknown_tools() {
    let mut r = ToolRegistry::new();
    r.insert(tool("a", &["all"]));
    let ok = tool_script(&r, &ToolCall { name: "a".to_string(), args: String::new() });
    assert_eq!(ok, Ok("/t/a.sh".to_string()));
    let err = tool_script(&r, &ToolCall { name: "nope".to_string(), args: String::new() });
    assert_eq!(err, Err("Unknown tool: nope".to_string()));
}

#[test]
fn script_args_split_like_a_shell() {
    assert_eq!(script_args("--query \"rust async\" -n 3"), vec!["--query", "rust async", "-n", "3"]);
    assert_eq!(script_args("--q \"open"), vec!["--q \"open"]);
}

#[test]
fn run_output_combines_streams() {
    assert_eq!(run_output(b"out\n", b"", "/t/a.sh", Some(0)), "out\n");
    assert_eq!(run_output(b"out", b"warn", "/t/a.sh", Some(1)), "out\n--- STDERR ---\nwarn");
    assert_eq!(run_output(b"  ", b"err", "/t/a.sh", Some(2)), "err");
    assert_eq!(run_output(b"", b" \n", "/t/web.sh", Some(-1)), "Tool 'web' completed with no output (exit: -1)");
    assert_eq!(run_output(b"", b"", "/t/web.sh", None), "Tool 'web' completed with no output (exit: unknown)");
}

#[test]
fn loading_a_directory_listing() {
    let mut r = ToolRegistry::new();
    let listing = vec![
        ("/t/b.sh".to_string(), Some("# @name beta\n# @session code".to_string())),
        ("/t/readme.md".to_string(), Some("# @name nope".to_string())),
        ("/t/c.sh".to_string(), None),
        ("/t/a.sh".to_string(), Some("echo".to_string())),
    ];
    r.load(&listing);
    assert!(r.get("beta").is_some() && r.get("a").is_some());
    assert!(r.get("nope").is_none() && r.get("c").is_none());
    let code: Vec<&str> = r.list_for_session("code").iter().map(|t| t.name.as_str()).collect();
    assert_eq!(code, vec!["a", "beta"]);
}
