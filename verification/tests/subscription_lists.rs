use papr::cli::AxiError;
use papr::error::AppError;
use papr::opml::{build, flatten, parse, Entry, ImportedFeed};
use papr::subscribe::{cmd_opml_export, cmd_opml_import, exported, ImportEvent, OpmlAction, OpmlImport};

#[test]
fn parses_flat_feed_list() {
    let xml = r#"<opml version="2.0"><head/><body>
            <outline text="Blog A" xmlUrl="https://a.example/feed.xml"/>
            <outline text="Blog B" xmlUrl="https://b.example/feed.xml"/>
        </body></opml>"#;
    let feeds = parse(xml).expect("parse");
    assert_eq!(feeds.len(), 2);
    assert_eq!(feeds[0].title, "Blog A");
    assert_eq!(feeds[0].feed_url, "https://a.example/feed.xml");
    assert!(feeds[0].folder.is_none());
}

#[test]
fn parses_feeds_nested_in_a_folder() {
    let xml = r#"<opml version="2.0"><head/><body>
            <outline text="Tech">
                <outline text="Feed 1" xmlUrl="https://1.example/f"/>
                <outline text="Feed 2" xmlUrl="https://2.example/f"/>
            </outline>
        </body></opml>"#;
    let feeds = parse(xml).expect("parse");
    assert_eq!(feeds.len(), 2);
    assert!(feeds.iter().all(|f| f.folder.as_deref() == Some("Tech")));
}

#[test]
fn folder_label_falls_back_to_title_attribute() {
    let xml = r#"<opml version="2.0"><head/><body>
            <outline title="News">
                <outline text="Feed" xmlUrl="https://n.example/f"/>
            </outline>
        </body></opml>"#;
    let feeds = parse(xml).expect("parse");
    assert_eq!(feeds.len(), 1);
    assert_eq!(feeds[0].folder.as_deref(), Some("News"));
}

#[test]
fn feed_title_falls_back_to_title_then_url() {
    let xml = r#"<opml version="2.0"><head/><body>
            <outline title="Titled Feed" xmlUrl="https://t.example/f"/>
            <outline xmlUrl="https://u.example/f"/>
        </body></opml>"#;
    let feeds = parse(xml).expect("parse");
    assert_eq!(feeds[0].title, "Titled Feed");
    assert_eq!(feeds[1].title, "https://u.example/f");
}

#[test]
fn build_round_trips_through_parse() {
    let input = vec![
        ("Folderless".to_string(), "https://x.example/f".to_string(), None),
        (
            "In Folder".to_string(),
            "https://y.example/f".to_string(),
            Some("Tech".to_string()),
        ),
    ];
    let xml = build(&input).expect("build");
    let feeds = parse(&xml).expect("re-parse");
    assert_eq!(feeds.len(), 2);
    let folderless = feeds
        .iter()
        .find(|f| f.feed_url == "https://x.example/f")
        .expect("folderless feed");
    assert!(folderless.folder.is_none());
    let foldered = feeds
        .iter()
        .find(|f| f.feed_url == "https://y.example/f")
        .expect("foldered feed");
    assert_eq!(foldered.title, "In Folder");
    assert_eq!(foldered.folder.as_deref(), Some("Tech"));
}

#[test]
fn parse_rejects_malformed_document() {
    assert!(parse("not opml at all").is_err());
    assert!(matches!(parse("not opml at all"), Err(AppError::Opml(_))));
}

fn row(title: &str, url: &str, folder: Option<&str>) -> (String, String, Option<String>) {
    (title.to_string(), url.to_string(), folder.map(|f| f.to_string()))
}

#[test]
fn folders_come_in_order_and_feeds_keep_theirs() {
    let input = vec![
        row("b1", "https://b1", Some("B")),
        row("loose", "https://l", None),
        row("a1", "https://a1", Some("A")),
        row("b2", "https://b2", Some("B")),
    ];
    let feeds = parse(&build(&input).unwrap()).unwrap();
    let got: Vec<(&str, Option<&str>)> =
        feeds.iter().map(|f| (f.title.as_str(), f.folder.as_deref())).collect();
    assert_eq!(
        got,
        vec![("loose", None), ("a1", Some("A")), ("b1", Some("B")), ("b2", Some("B"))]
    );
}

#[test]
fn odd_characters_survive_the_round_trip() {
    for odd in ["a & b", "<x>", "\"q\" 'p'", "ü 科技 🎉", "a/b?c=d&e=f", "]]>", "  two  spaces", "tab\tline\nend\r", "&amp; &lt; &#38; &quot;"] {
        let input = vec![row(odd, &format!("https://x/{odd}"), Some(odd)), row(odd, "u", None)];
        let feeds = parse(&build(&input).unwrap()).unwrap();
        assert_eq!(feeds.len(), 2, "{odd:?}");
        assert_eq!(feeds[0].title, odd);
        assert_eq!(feeds[0].feed_url, "u");
        assert_eq!(feeds[1].title, odd);
        assert_eq!(feeds[1].feed_url, format!("https://x/{odd}"));
        assert_eq!(feeds[1].folder.as_deref(), Some(odd));
    }
}

#[test]
fn every_character_of_xml_survives_the_round_trip() {
    let allowed: Vec<char> = (0..=0x10FFFFu32)
        .filter_map(char::from_u32)
        .filter(|c| {
            let n = *c as u32;
            (n >= 0x20 || n == 9 || n == 10 || n == 13) && n != 0xFFFE && n != 0xFFFF
        })
        .collect();
    let mut input: Vec<(String, String, Option<String>)> = Vec::new();
    for chunk in allowed.chunks(256) {
        let text: String = chunk.iter().collect();
        input.push((text.clone(), text, None));
    }
    for c in allowed.iter().take(0x800) {
        input.push((c.to_string(), c.to_string(), Some(c.to_string())));
    }
    let feeds = parse(&build(&input).unwrap()).unwrap();
    assert_eq!(feeds.len(), input.len());
    for f in &feeds {
        let row = (f.title.clone(), f.feed_url.clone(), f.folder.clone());
        assert!(input.contains(&row), "{f:?}");
    }
}

#[test]
fn nothing_to_export_is_no_list() {
    let xml = build(&vec![]).unwrap();
    assert!(parse(&xml).is_err());
}

fn entry(text: &str, title: Option<&str>, url: Option<&str>, entries: Vec<Entry>) -> Entry {
    Entry {
        text: text.to_string(),
        title: title.map(|s| s.to_string()),
        xml_url: url.map(|s| s.to_string()),
        entries,
    }
}

#[test]
fn folders_nest_to_their_nearest_name() {
    let tree = vec![entry(
        "Outer",
        None,
        None,
        vec![
            entry("Inner", None, None, vec![entry("f", None, Some("https://f"), vec![])]),
            entry("", None, None, vec![entry("", Some("g"), Some("https://g"), vec![])]),
        ],
    )];
    let feeds = flatten(&tree);
    assert_eq!(feeds.len(), 2);
    assert_eq!(feeds[0].folder.as_deref(), Some("Inner"));
    assert_eq!(feeds[1].folder.as_deref(), Some("Outer"));
    assert_eq!(feeds[1].title, "g");
}

fn imported(url: &str, folder: Option<&str>) -> ImportedFeed {
    ImportedFeed {
        feed_url: url.to_string(),
        title: "t".to_string(),
        folder: folder.map(|f| f.to_string()),
    }
}

#[test]
fn an_import_asks_and_counts() {
    let mut run = OpmlImport::new(vec![imported("a", Some("F")), imported("b", None)]);
    assert_eq!(run.action(), OpmlAction::Find("a".to_string()));
    run.answer(ImportEvent::Found(false));
    assert_eq!(run.action(), OpmlAction::FolderId("F".to_string()));
    run.answer(ImportEvent::FolderId(7));
    assert_eq!(
        run.action(),
        OpmlAction::Insert { url: "a".to_string(), title: "t".to_string(), folder: Some(7) }
    );
    run.answer(ImportEvent::Inserted);
    assert_eq!(run.action(), OpmlAction::Find("b".to_string()));
    run.answer(ImportEvent::Found(true));
    assert_eq!((run.added, run.skipped), (1, 1));
    match run.action() {
        OpmlAction::Done(text) => println!("{text}"),
        other => panic!("{other:?}"),
    }
}

fn import_into(store: &mut Vec<(String, Option<i64>)>, mut run: OpmlImport) -> (usize, usize) {
    loop {
        let event = match run.action() {
            OpmlAction::Find(url) => ImportEvent::Found(store.iter().any(|f| f.0 == url)),
            OpmlAction::FolderId(name) => ImportEvent::FolderId(name.len() as i64),
            OpmlAction::Insert { url, title, folder } => {
                assert_eq!(title, "t");
                store.push((url, folder));
                ImportEvent::Inserted
            }
            OpmlAction::Done(_) => return (run.added, run.skipped),
        };
        run.answer(event);
    }
}

#[test]
fn a_second_import_adds_nothing() {
    let list = || {
        vec![
            imported("a", None),
            imported("b", Some("News")),
            imported("c", None),
            imported("b", Some("Other")),
            imported("d", Some("Other")),
        ]
    };
    let mut store = vec![("c".to_string(), Some(1))];
    assert_eq!(import_into(&mut store, OpmlImport::new(list())), (3, 2));
    let held = vec![
        ("c".to_string(), Some(1)),
        ("a".to_string(), None),
        ("b".to_string(), Some(4)),
        ("d".to_string(), Some(5)),
    ];
    assert_eq!(store, held);
    assert_eq!(import_into(&mut store, OpmlImport::new(list())), (0, 5));
    assert_eq!(store, held);
    assert_eq!(import_into(&mut store, OpmlImport::new(vec![])), (0, 0));
}

#[test]
fn files_that_cannot_be_read_or_written() {
    let e: AxiError = cmd_opml_import("x.opml", Err("gone".to_string())).unwrap_err();
    assert!(e.message.contains("x.opml") && e.message.contains("gone"), "{}", e.message);
    assert!(cmd_opml_import("x.opml", Ok("junk".to_string())).is_err());
    let xml = cmd_opml_export(&vec![row("t", "https://t", None)]).unwrap();
    let run = cmd_opml_import("x.opml", Ok(xml)).unwrap();
    assert_eq!(run.feeds.len(), 1);
    assert_eq!(run.feeds[0].feed_url, "https://t");
    assert!(exported(1, "x.opml", None).unwrap().contains("x.opml"));
    assert!(exported(1, "x.opml", Some("full")).is_err());
}
