use nuzzle::clock::{stored_text, stored_time};
use nuzzle::config::{config_path, data_dir, is_default_db_path, join_path, tools_dir, Config};
use nuzzle::feed::parsed::FeedItem;
use nuzzle::feed::{
    added_note, already_added_note, config_feed_error_note, entries_from_items, find_feed, parse_feed_title,
    parse_feed_xml, refresh_error_line, refresh_status, title_or_url,
};
use nuzzle::highlight::{export_file_name, export_highlights, export_markdown};
use nuzzle::tui::animations::{BraillePulse, BrailleSpinner};
use nuzzle::tui::layout::{app_layout, centered_rect, feed_columns, Area};
use nuzzle::tui::widgets::{
    ArticleList, ArticleView, FeedList, Header, HelpOverlay, LoadingScreen, Look, ModelList, NavBar, SearchResults,
    HELP_TEXT,
};
use nuzzle::types::{Entry, Feed, Highlight, Moment};

fn at(secs: i64) -> Moment {
    Moment { secs, nanos: 0 }
}

fn feed(id: i64, title: &str, url: &str) -> Feed {
    Feed {
        id,
        title: title.to_string(),
        url: url.to_string(),
        feed_type: "rss".to_string(),
        category: None,
        icon_url: None,
        last_fetched_at: None,
        error_count: 0,
    }
}

fn item(id: &str, published: Option<(i64, u32)>, updated: Option<(i64, u32)>) -> FeedItem {
    FeedItem {
        id: id.to_string(),
        title: Some(format!("title {}", id)),
        links: vec!["https://a/1".to_string(), "https://a/2".to_string()],
        summary: None,
        content: Some("body".to_string()),
        authors: Vec::new(),
        published,
        updated,
    }
}

#[test]
fn tool_scripts_live_beside_the_configuration() {
    assert_eq!(tools_dir("/home/u"), "/home/u/.config/nuzzle/tools");
    assert_eq!(config_path("/home/u"), "/home/u/.config/nuzzle/config.toml");
}

#[test]
fn paths_join_like_unix_paths() {
    assert_eq!(join_path("/home/u", "feeds.db"), "/home/u/feeds.db");
    assert_eq!(join_path("/home/u/", "feeds.db"), "/home/u/feeds.db");
    assert_eq!(join_path("", "feeds.db"), "feeds.db");
    assert_eq!(join_path("/home/u", "/abs"), "/abs");
    assert_eq!(data_dir("/home/u"), "/home/u/.local/share/nuzzle");
    assert_eq!(config_path("/tmp"), "/tmp/.config/nuzzle/config.toml");
}

#[test]
fn default_configuration() {
    let c = Config::default_for("/d");
    assert_eq!(c.general.poll_interval_secs, 600);
    assert_eq!(c.general.db_path, "/d/feeds.db");
    assert_eq!(c.ollama.endpoint, "http://localhost:11434");
    assert_eq!(c.ollama.embed_model, "nomic-embed-text");
    assert_eq!(c.feeds.urls, vec!["https://hnrss.org/frontpage".to_string()]);
}

#[test]
fn default_database_path_is_resolved() {
    assert!(is_default_db_path("default"));
    assert!(is_default_db_path("default/"));
    assert!(is_default_db_path("default/./"));
    assert!(!is_default_db_path("./default"));
    assert!(!is_default_db_path("defaults"));
    let mut c = Config::default_for("/d");
    c.general.db_path = "default".to_string();
    c.resolve_db_path("/data");
    assert_eq!(c.general.db_path, "/data/feeds.db");
    c.resolve_db_path("/other");
    assert_eq!(c.general.db_path, "/data/feeds.db");
    c.general.db_path = "/mine.db".to_string();
    c.resolve_db_path("/data");
    assert_eq!(c.general.db_path, "/mine.db");
}

#[test]
fn configuration_text() {
    let c = Config::default_for("/d");
    assert_eq!(
        c.to_toml(),
        "[general]\npoll_interval_secs = 600\ndb_path = \"/d/feeds.db\"\n\n[ollama]\nendpoint = \"http://localhost:11434\"\nmodel = \"llama3.2\"\nembed_model = \"nomic-embed-text\"\n\n[feeds]\nurls = [\n  \"https://hnrss.org/frontpage\",\n]\n"
    );
}

#[test]
fn items_become_entries() {
    let items = vec![item("a", Some((100, 5)), Some((200, 0))), item("b", None, Some((300, 0))), item("c", None, None)];
    let es = entries_from_items(7, &items, at(999));
    assert_eq!(es.len(), 2);
    assert_eq!(es[0].guid, "a");
    assert_eq!(es[0].published_at, Some(Moment { secs: 100, nanos: 5 }));
    assert_eq!(es[1].published_at, Some(at(300)));
    assert_eq!(es[0].link.as_deref(), Some("https://a/1"));
    assert_eq!(es[0].author, None);
    assert_eq!((es[1].feed_id, es[1].id, es[1].fetched_at), (7, 0, Some(at(999))));
    assert!(!es[0].is_read && !es[0].is_starred);
}

#[test]
fn parses_an_rss_document() {
    let xml = "<?xml version=\"1.0\"?><rss version=\"2.0\"><channel><title>Demo</title><link>https://d</link><description>x</description>\
<item><title>First</title><link>https://d/1</link><guid>g1</guid><pubDate>Tue, 14 Nov 2023 22:13:20 GMT</pubDate><description>sum</description></item>\
<item><title>Undated</title><link>https://d/2</link><guid>g2</guid></item></channel></rss>";
    let es = parse_feed_xml(3, xml).unwrap();
    assert_eq!(es.len(), 1);
    assert_eq!(es[0].guid, "g1");
    assert_eq!(es[0].title.as_deref(), Some("First"));
    assert_eq!(es[0].link.as_deref(), Some("https://d/1"));
    assert_eq!(es[0].summary.as_deref(), Some("sum"));
    assert_eq!(es[0].published_at, Some(at(1_700_000_000)));
    assert_eq!(es[0].feed_id, 3);
    assert_eq!(parse_feed_title(xml, "https://d/rss").unwrap(), "Demo");
    assert!(parse_feed_xml(3, "not a feed").is_err());
}

#[test]
fn atom_entries_keep_document_order_and_fall_back_to_updated() {
    let xml = "<feed xmlns=\"http://www.w3.org/2005/Atom\"><title>A</title><id>f</id><updated>2023-11-14T22:13:20Z</updated>\
<entry><id>e1</id><title>One</title><updated>2023-11-14T22:13:20.25Z</updated></entry>\
<entry><id>e2</id><title>Two</title><published>2023-11-14T22:13:21Z</published><updated>2023-11-14T22:13:25Z</updated></entry>\
<entry><id>e3</id><title>Three</title></entry>\
<entry><id>e4</id><title>Four</title><updated>2023-11-14T22:13:22Z</updated><author><name>Ann</name></author></entry></feed>";
    let es = parse_feed_xml(5, xml).unwrap();
    let guids: Vec<&str> = es.iter().map(|e| e.guid.as_str()).collect();
    assert_eq!(guids, vec!["e1", "e2", "e4"]);
    assert_eq!(es[0].published_at, Some(Moment { secs: 1_700_000_000, nanos: 250_000_000 }));
    assert_eq!(es[1].published_at, Some(at(1_700_000_001)));
    assert_eq!(es[2].author.as_deref(), Some("Ann"));
    assert!(es.iter().all(|e| e.feed_id == 5 && e.fetched_at == es[0].fetched_at));
}

#[test]
fn feed_notes() {
    assert_eq!(title_or_url(None, "https://u"), "https://u");
    assert_eq!(title_or_url(Some("T".to_string()), "https://u"), "T");
    let fs = vec![feed(1, "A", "https://a"), feed(2, "B", "https://b")];
    assert_eq!(find_feed(&fs, "https://b"), Some(1));
    assert_eq!(find_feed(&fs, "https://c"), None);
    assert_eq!(already_added_note("A"), "A (already added)");
    assert_eq!(added_note("A", &Ok(3)), "A (+3 articles)");
    assert_eq!(added_note("A", &Err("timeout".to_string())), "A (fetch err: timeout)");
    assert_eq!(refresh_error_line("A", "boom"), "A: boom");
    assert_eq!(config_feed_error_note("https://u", false, "e"), "https://u (error: e)");
    assert_eq!(config_feed_error_note("https://u", true, "e"), "https://u (parse: e)");
    assert_eq!(refresh_status(5, 0), "5 articles fetched");
    assert_eq!(refresh_status(5, 2), "5 new, 2 errors");
}

#[test]
fn stored_times_round_trip() {
    assert_eq!(stored_time(&Some("2023-11-14T22:13:20+00:00".to_string())), Some(at(1_700_000_000)));
    assert_eq!(
        stored_time(&Some("2023-11-14T23:13:20.5+01:00".to_string())),
        Some(Moment { secs: 1_700_000_000, nanos: 500_000_000 })
    );
    assert_eq!(stored_time(&Some("yesterday".to_string())), None);
    assert_eq!(stored_time(&None), None);
    assert_eq!(stored_text(Some(at(1_700_000_000))), Some("2023-11-14T22:13:20+00:00".to_string()));
    let fine = Moment { secs: 1_700_000_000, nanos: 500_000_000 };
    assert_eq!(stored_time(&stored_text(Some(fine))), Some(fine));
    assert_eq!(stored_text(None), None);
}

#[test]
fn highlight_export_document() {
    let hs = vec![
        Highlight { id: 1, entry_id: 1, text: "Good point".to_string(), note: Some("remember".to_string()), created_at: Some(at(1_700_000_000)) },
        Highlight { id: 2, entry_id: 1, text: "Another".to_string(), note: None, created_at: None },
    ];
    let doc = export_markdown(&hs, "2024-01-01 00:00:00 UTC", &vec![Some("2023-11-14".to_string()), None]);
    assert_eq!(
        doc,
        "# Nuzzle Highlights\n\n_Exported on 2024-01-01 00:00:00 UTC_\n\n## 1. Good point\n\n> Note: remember\n\n_Saved on 2023-11-14_\n\n---\n\n## 2. Another\n\n---\n\n"
    );
    assert_eq!(export_markdown(&Vec::new(), "t", &Vec::new()), "# Nuzzle Highlights\n\n_Exported on t_\n\nNo highlights yet.\n");
    let live = export_highlights(&hs);
    assert!(live.starts_with("# Nuzzle Highlights\n\n_Exported on "));
    assert!(live.contains("_Saved on 2023-11-14_"));
    let on = live["# Nuzzle Highlights\n\n_Exported on ".len()..].split('_').next().unwrap().to_string();
    assert_eq!(on.len(), 23);
    assert!(on.ends_with(" UTC") && &on[4..5] == "-" && &on[10..11] == " " && &on[13..14] == ":");
    let name = export_file_name();
    assert!(name.starts_with("nuzzle-export-") && name.ends_with(".md"));
    assert_eq!(name.len(), "nuzzle-export-".len() + 15 + 3);
    let stamp: Vec<char> = name["nuzzle-export-".len()..name.len() - 3].chars().collect();
    assert_eq!(stamp[8], '-');
    assert!(stamp.iter().enumerate().all(|(i, c)| i == 8 || c.is_ascii_digit()));
}

fn puts(v: &[nuzzle::tui::widgets::Put]) -> Vec<(u16, u16, String, Look)> {
    v.iter().map(|p| (p.x, p.y, p.text.clone(), p.look)).collect()
}

#[test]
fn header_layout() {
    let h = Header { left: " News", right: "12 articles" };
    assert!(h.fits(20));
    assert_eq!(
        puts(&h.layout(20, 2)),
        vec![
            (0, 0, " News".to_string(), Look::Dim),
            (9, 0, "12 articles".to_string(), Look::Dim),
            (0, 1, "\u{2500}".repeat(20), Look::Dim),
        ]
    );
    assert_eq!(puts(&h.layout(8, 1)), vec![(0, 0, " News".to_string(), Look::Dim), (6, 0, "es".to_string(), Look::Dim)]);
    let wide = Header { left: " Q&A  \u{b7}  1/1", right: "" };
    assert!(!wide.fits(7));
    assert!(wide.fits(8));
}

#[test]
fn list_layouts() {
    let fs = vec![feed(1, "Alpha", "u1"), feed(2, "Beta", "u2"), feed(3, "Gamma", "u3")];
    let fl = FeedList { feeds: &fs, selected: 1 };
    assert_eq!(
        puts(&fl.layout(6, 2)),
        vec![(1, 0, "  Al".to_string(), Look::Dim), (1, 1, "\u{25b8} Be".to_string(), Look::AccentBold)]
    );
    let mut read = Entry {
        id: 1, feed_id: 1, guid: "g".to_string(), title: None, link: None, summary: None, content: None,
        author: None, published_at: None, fetched_at: None, is_read: true, is_starred: false,
    };
    let unread = Entry { title: Some("News".to_string()), is_read: false, ..read.clone() };
    read.title = None;
    let es = vec![read, unread];
    let al = ArticleList { entries: &es, selected: 5 };
    assert_eq!(
        puts(&al.layout(40, 10)),
        vec![(1, 0, "  1 \u{2502} (untitled)".to_string(), Look::Dim), (1, 1, "  2 \u{2502} News".to_string(), Look::Plain)]
    );
    let rs = vec![("T1".to_string(), "x".to_string())];
    let sr = SearchResults { results: &rs, selected: 0 };
    assert_eq!(puts(&sr.layout(3, 5)), vec![(0, 0, "\u{25b8} T".to_string(), Look::AccentBold)]);
    let ms = vec!["a".to_string(), "b".to_string(), "c".to_string()];
    let ml = ModelList { models: &ms, selected: 0, current: "b" };
    assert_eq!(
        puts(&ml.layout(20, 4)),
        vec![(1, 2, "\u{25b8} a".to_string(), Look::AccentBold), (1, 3, "  b \u{2190}".to_string(), Look::Plain)]
    );
    let none: Vec<String> = Vec::new();
    assert_eq!(puts(&ModelList { models: &none, selected: 0, current: "" }.layout(20, 4)), vec![(1, 1, "No models.".to_string(), Look::Dim)]);
}

#[test]
fn text_widgets() {
    let v = ArticleView { title: Some("T"), content: None, scroll: 0 };
    assert_eq!(v.text(), "\n  T\n\n");
    assert_eq!(puts(&NavBar { text: "x" }.layout()), vec![(1, 0, "x".to_string(), Look::Dim)]);
    assert_eq!(puts(&HelpOverlay.layout()), vec![(1, 0, HELP_TEXT.to_string(), Look::Dim)]);
    let l = LoadingScreen { spinner: "*", message: "Fetching..." }.layout(40, 20);
    assert_eq!(l.len(), 8);
    assert_eq!((l[3].x, l[3].y, l[3].text.as_str(), l[3].look), (10, 9, "      *  N U Z Z L E", Look::AccentBold));
    assert_eq!((l[5].x, l[5].y, l[5].text.as_str()), (10, 11, "         Fetching..."));
    assert_eq!((l[0].x, l[0].y), (20, 6));
}

#[test]
fn animations_cycle() {
    let mut s = BrailleSpinner::default();
    let first = s.current();
    for _ in 0..10 {
        assert!(s.tick(80));
    }
    assert_eq!(s.current(), first);
    assert!(!s.tick(79));
    let mut p = BraillePulse::default();
    let a = p.current();
    p.tick(1000);
    assert_ne!(p.current(), a);
}

#[test]
fn screen_layout() {
    let (h, c, a, n) = app_layout(Area { x: 0, y: 0, width: 80, height: 24 });
    assert_eq!(h, Area { x: 0, y: 0, width: 80, height: 2 });
    assert_eq!(c, Area { x: 0, y: 2, width: 80, height: 20 });
    assert_eq!(a, Area { x: 0, y: 22, width: 80, height: 1 });
    assert_eq!(n, Area { x: 0, y: 23, width: 80, height: 1 });
    let p = centered_rect(Area { x: 0, y: 0, width: 100, height: 50 }, 60, 70);
    assert_eq!((p.width, p.height), (60, 35));
    let (l, r) = feed_columns(Area { x: 0, y: 0, width: 80, height: 10 });
    assert_eq!((l.width, r.x, r.width), (20, 20, 60));
}
