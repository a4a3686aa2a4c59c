use collaboration::language::adapter::{CachedLspAdapter, LanguageServerName};
use collaboration::language::config::{deserialize_regex, BracketPair, LanguageConfig};
use collaboration::language::grammar::{Grammar, GrammarIds};
use collaboration::language::highlight::{highlight_runs, HighlightChunk, HighlightId};
use collaboration::language::label::CodeLabel;
use collaboration::language::language::Language;
use collaboration::language::lsp::{
    point_from_lsp, point_to_lsp, range_from_lsp, range_to_lsp, LspRange, PointUtf16, Position,
    ToLspPosition,
};
use collaboration::language::paths::{find_extension, find_file_name};
use collaboration::language::query::{
    compile_query, find_injected_language, get_capture_indices, FaultKind,
};
use collaboration::language::registry::{LanguageRegistry, ServerStart};
use collaboration::language::server_binary::{
    BinaryEvent, BinarySearch, LanguageServerBinaryStatus,
};

fn rust_language() -> Language {
    let config = LanguageConfig {
        name: "Rust".to_string(),
        path_suffixes: vec!["rs".to_string()],
        ..LanguageConfig::default()
    };
    Language::new(
        config,
        Some(tree_sitter_rust::language()),
        &mut GrammarIds::new(),
    )
}

fn named(name: &str, suffixes: &[&str]) -> Language {
    let config = LanguageConfig {
        name: name.to_string(),
        path_suffixes: suffixes.iter().map(|suffix| suffix.to_string()).collect(),
        ..LanguageConfig::default()
    };
    Language::new(config, None, &mut GrammarIds::new())
}

fn adapter(name: &str) -> CachedLspAdapter {
    CachedLspAdapter::new(
        LanguageServerName(name.to_string()),
        vec!["--stdio".to_string()],
        Some(serde_json::Value::Null),
        vec!["rustc".to_string()],
        Some("rustAnalyzer/cargo check".to_string()),
        std::collections::HashMap::new(),
    )
}

#[test]
fn labels_search_the_first_place_of_the_filter_text() {
    let label = CodeLabel::plain("fn new() -> new".to_string(), Some("new"));
    assert_eq!(label.filter_range, 3..6);
    assert_eq!(label.text, "fn new() -> new");
    assert!(label.runs.is_empty());
    let label = CodeLabel::plain("abc".to_string(), Some("x"));
    assert_eq!(label.filter_range, 0..3);
    let label = CodeLabel::plain("äbc".to_string(), None);
    assert_eq!(label.filter_range, 0..4);
    let label = CodeLabel::plain("äbc".to_string(), Some("b"));
    assert_eq!(label.filter_range, 2..3);
    let label = CodeLabel::plain("abc".to_string(), Some(""));
    assert_eq!(label.filter_range, 0..0);
    let label = CodeLabel {
        runs: vec![(0..2, HighlightId(4))],
        ..CodeLabel::plain("\u{65e5}\u{672c}\u{65e5}".to_string(), Some("\u{672c}"))
    };
    assert_eq!(label.filter_range, 3..6);
    assert!(label.text.is_char_boundary(3) && label.text.is_char_boundary(6));
    assert_eq!(label.clone(), label);
}

#[test]
fn default_settings_say_nothing() {
    let config = LanguageConfig::default();
    assert_eq!(config.name, "");
    assert!(config.auto_indent_using_last_non_empty_line);
    assert!(config.increase_indent_pattern.is_none());
    let language = Language::plain_text();
    assert_eq!(language.name(), "Plain Text");
    assert!(language.grammar().is_none());
    let pair = BracketPair::default();
    assert_eq!((pair.start.as_str(), pair.close), ("", false));
    assert_eq!(pair.clone(), pair);
}

#[test]
fn patterns_are_compiled_or_refused() {
    assert!(deserialize_regex(None).unwrap().is_none());
    let regex = deserialize_regex(Some("^a+$")).unwrap().unwrap();
    assert_eq!(regex.as_str(), "^a+$");
    assert!(regex.is_match("aaa"));
    let error = deserialize_regex(Some("(")).unwrap_err();
    assert!(error.message.contains("unclosed group"));
}

#[test]
fn grammars_are_numbered() {
    let mut ids = GrammarIds::new();
    let first = Language::new(
        LanguageConfig::default(),
        Some(tree_sitter_rust::language()),
        &mut ids,
    );
    let plain = Language::new(LanguageConfig::default(), None, &mut ids);
    let second = Language::new(
        LanguageConfig::default(),
        Some(tree_sitter_rust::language()),
        &mut ids,
    );
    assert_eq!(first.grammar().unwrap().id(), 0);
    assert!(plain.grammar().is_none());
    assert_eq!(second.grammar().unwrap().id(), 1);
}

#[test]
fn brackets_need_both_captures() {
    let language = rust_language()
        .with_brackets_query(r#"("(" @open ")" @close)"#)
        .ok()
        .unwrap();
    let config = language.grammar().unwrap().brackets_config.as_ref().unwrap();
    assert_eq!((config.open_capture_ix, config.close_capture_ix), (0, 1));
    let language = rust_language()
        .with_brackets_query(r#"("(" @open)"#)
        .ok()
        .unwrap();
    assert!(language.grammar().unwrap().brackets_config.is_none());
}

#[test]
fn indents_need_what_is_indented() {
    let language = rust_language()
        .with_indents_query(r#"(_ "(" @start ")" @end) @indent"#)
        .ok()
        .unwrap();
    let config = language.grammar().unwrap().indents_config.as_ref().unwrap();
    assert_eq!(config.indent_capture_ix, 2);
    assert_eq!(config.start_capture_ix, Some(0));
    assert_eq!(config.end_capture_ix, Some(1));
    let language = rust_language()
        .with_indents_query("(block) @other")
        .ok()
        .unwrap();
    assert!(language.grammar().unwrap().indents_config.is_none());
}

#[test]
fn outlines_need_items_and_names() {
    let language = rust_language()
        .with_outline_query(
            r#"(function_item "fn" @context name: (identifier) @name) @item"#,
        )
        .ok()
        .unwrap();
    let config = language.grammar().unwrap().outline_config.as_ref().unwrap();
    assert_eq!(config.context_capture_ix, Some(0));
    assert_eq!(config.name_capture_ix, 1);
    assert_eq!(config.item_capture_ix, 2);
}

#[test]
fn injections_know_the_language_of_each_pattern() {
    let language = rust_language()
        .with_injection_query(
            r#"((macro_invocation (token_tree) @content) (#set! "language" "rust"))
               ((line_comment) @content)
               ((block_comment) @content (#set! other) (#set! language) (#set! language "c"))"#,
        )
        .ok()
        .unwrap();
    let config = language.grammar().unwrap().injection_config.as_ref().unwrap();
    assert_eq!(config.content_capture_ix, 0);
    assert_eq!(config.language_capture_ix, None);
    assert_eq!(
        config.languages_by_pattern_ix,
        vec![Some("rust".to_string()), None, Some("c".to_string())]
    );
}

#[test]
fn faulty_queries_are_refused() {
    let error = rust_language().with_highlights_query("(nope)").err().unwrap();
    assert_eq!((error.row, error.column, error.offset), (0, 1, 1));
    assert_eq!(error.kind, FaultKind::NodeType);
    assert_eq!(error.message, "nope");
    let error = rust_language().with_highlights_query("(nope").err().unwrap();
    assert_eq!(error.offset, 1);
    assert_eq!(error.message, "nope");
    assert!(rust_language().with_brackets_query("(").is_err());
    assert!(rust_language().with_indents_query("(").is_err());
    assert!(rust_language().with_outline_query("(").is_err());
    assert!(rust_language().with_injection_query("(").is_err());
}

#[test]
fn queries_mean_what_the_parser_says() {
    for source in [
        "",
        "(identifier) @name",
        "(identifier)\n(type_identifier) @a-b_c",
        "(identifier",
        "(identifier) @a\n(identifier",
        "identifier",
        "(identifier @",
        "(identifier) @x (nope)",
        "(function_item nope: (_)) @x",
        "((identifier) @x (#eq? @y \"z\"))",
        "(identifier) ; comment",
        "\"nope\"",
        "(identifier (identifier)) @x",
        "((identifier) @x (#eq? @x))",
    ] {
        let expected = tree_sitter::Query::new(tree_sitter_rust::language(), source);
        match (compile_query(tree_sitter_rust::language(), source), expected) {
            (Ok(query), Ok(expected)) => {
                assert_eq!(query.capture_names(), expected.capture_names());
                assert_eq!(query.pattern_count(), expected.pattern_count());
            }
            (Err(error), Err(expected)) => {
                assert_eq!(
                    (error.row, error.column, error.offset),
                    (expected.row, expected.column, expected.offset),
                    "{}",
                    source
                );
                assert_eq!(error.message, expected.message, "{}", source);
                assert_eq!(format!("{:?}", error.kind), format!("{:?}", expected.kind));
            }
            _ => panic!("not the same: {}", source),
        }
    }
}

#[test]
fn themes_highlight_captures_by_name() {
    let mut language = rust_language()
        .with_highlights_query("(identifier) @variable (type_identifier) @type")
        .ok()
        .unwrap();
    let grammar = language.grammar().unwrap();
    assert_eq!(
        grammar.highlight_id_for_name("type"),
        Some(HighlightId(u32::MAX))
    );
    language.set_theme(&|name: &String| HighlightId(name.len() as u32));
    let grammar = language.grammar().unwrap();
    assert_eq!(grammar.highlight_id_for_name("variable"), Some(HighlightId(8)));
    assert_eq!(grammar.highlight_id_for_name("type"), Some(HighlightId(4)));
    assert_eq!(grammar.highlight_id_for_name("string"), None);
    assert_eq!(grammar.highlight_map().get(1), HighlightId(4));
    assert!(grammar.highlight_map().get(2).is_default());
}

#[test]
fn texts_are_parsed_by_the_grammar() {
    let language = rust_language();
    let grammar = language.grammar().unwrap();
    let tree = grammar.parse_text(b"fn main() {}", None);
    assert_eq!(tree.root_node().kind(), "source_file");
    assert_eq!(tree.root_node().child(0).unwrap().kind(), "function_item");
    let again = grammar.try_parse_text(b"fn main() {}", Some(&tree)).unwrap();
    assert_eq!(again.root_node().to_sexp(), tree.root_node().to_sexp());
    assert_eq!(again.language(), tree_sitter_rust::language());
    let beyond_ascii = grammar.parse_text("fn main() { \"\u{e9}\" }".as_bytes(), None);
    assert_eq!(beyond_ascii.root_node().kind(), "source_file");
}

#[test]
fn sources_beyond_ascii_are_compiled() {
    let language = tree_sitter_rust::language();
    assert!(compile_query(language, "((identifier) @x (#eq? @x \"\u{e9}\"))").is_ok());
    assert!(compile_query(language, "(identifier) ; \u{e9}").is_ok());
    assert!(compile_query(language, "(\u{e9}").is_err());
    assert!(compile_query(language, "; \u{e9}\n(identifier").is_err());
}

#[test]
fn highlighted_chunks_become_runs() {
    let chunk = |len, highlight_id| HighlightChunk { len, highlight_id };
    let chunks = [
        chunk(2, Some(HighlightId(7))),
        chunk(3, None),
        chunk(1, Some(HighlightId(u32::MAX))),
        chunk(4, Some(HighlightId(1))),
    ];
    assert_eq!(
        highlight_runs(&chunks),
        vec![(0..2, HighlightId(7)), (6..10, HighlightId(1))]
    );
}

#[test]
fn texts_are_parsed_and_highlighted() {
    let language = rust_language()
        .with_highlights_query("(identifier) @variable")
        .ok()
        .unwrap();
    let chunks_in = |tree: &tree_sitter::Tree,
                     grammar: &Grammar,
                     text: &[u8],
                     range: std::ops::Range<usize>| {
        assert!(grammar.highlights_query.is_some());
        let name = tree.root_node().child(0).unwrap().child_by_field_name("name").unwrap();
        assert_eq!(&text[name.byte_range()], b"main");
        let chunk = |len, highlight_id| HighlightChunk { len, highlight_id };
        vec![
            chunk(name.start_byte() - range.start, None),
            chunk(name.byte_range().len(), Some(HighlightId(2))),
            chunk(range.end - name.end_byte(), None),
        ]
    };
    let text = b"fn main() {}";
    assert_eq!(
        language.highlight_text(text, 1..12, &chunks_in),
        vec![(2..6, HighlightId(2))]
    );
    assert_eq!(
        language.try_highlight_text(text, 0..12, &chunks_in),
        Ok(vec![(3..7, HighlightId(2))])
    );
    assert_eq!(Language::plain_text().highlight_text(text, 0..12, &chunks_in), vec![]);
}

#[test]
fn captures_are_found_by_name() {
    let names: Vec<String> = ["a", "b", "a"].iter().map(|name| name.to_string()).collect();
    assert_eq!(
        get_capture_indices(&names, &["b", "a", "c", "a"]),
        vec![Some(1), Some(2), None, None]
    );
}

#[test]
fn the_first_language_property_with_a_value_counts() {
    let setting = |key: &str, value: Option<&str>| {
        (key.to_string(), value.map(|value| value.to_string()))
    };
    let settings = [
        setting("other", Some("x")),
        setting("language", None),
        setting("language", Some("html")),
        setting("language", Some("css")),
    ];
    assert_eq!(find_injected_language(&settings), Some("html".to_string()));
    assert_eq!(find_injected_language(&settings[..2]), None);
}

#[test]
fn brackets_close_before_white_space_and_listed_characters() {
    let mut language = named("Some", &[]);
    language.config.autoclose_before = ";)é".to_string();
    assert!(language.should_autoclose_before(' '));
    assert!(language.should_autoclose_before('\u{3000}'));
    assert!(language.should_autoclose_before('\u{85}'));
    assert!(language.should_autoclose_before(';'));
    assert!(language.should_autoclose_before('é'));
    assert!(!language.should_autoclose_before('a'));
    assert!(!language.should_autoclose_before('\u{200b}'));
}

#[test]
fn settings_and_adapters_are_read_back() {
    let mut language = named("Some", &["some"]).with_lsp_adapter(adapter("server"));
    language.config.line_comment = Some("//".to_string());
    language.config.block_comment = Some(("/*".to_string(), "*/".to_string()));
    assert_eq!(language.lsp_adapter().unwrap().name.0, "server");
    assert_eq!(language.line_comment_prefix().unwrap(), "//");
    assert_eq!(language.block_comment_delimiters().unwrap().1, "*/");
    assert_eq!(language.disk_based_diagnostic_sources(), &["rustc".to_string()][..]);
    assert_eq!(
        language.disk_based_diagnostics_progress_token().unwrap(),
        "rustAnalyzer/cargo check"
    );
    assert_eq!(language.path_suffixes(), &["some".to_string()][..]);
    assert!(language.brackets().is_empty());
    let plain = Language::plain_text();
    assert!(plain.lsp_adapter().is_none());
    assert!(plain.disk_based_diagnostic_sources().is_empty());
    assert!(plain.disk_based_diagnostics_progress_token().is_none());
}

#[test]
fn names_and_extensions_of_paths() {
    let name = |path: &str| find_file_name(path.as_bytes()).map(|n| String::from_utf8(n).unwrap());
    for path in [
        "/usr/bin/", "tmp/foo.txt", "foo.txt/.", "foo.txt/.//", "foo.txt/..", "/", "", ".", "a/./b",
        "..", "./x", "a//", ".bashrc",
    ] {
        let expected = std::path::Path::new(path)
            .file_name()
            .map(|name| name.to_str().unwrap().to_string());
        assert_eq!(name(path), expected, "{}", path);
    }
    for path in ["foo.rs", "foo.tar.gz", ".bashrc", "foo", "foo.", "..x", "a.b."] {
        let expected = std::path::Path::new(path)
            .extension()
            .map(|name| name.to_str().unwrap().as_bytes().to_vec());
        assert_eq!(find_extension(path.as_bytes()), expected, "{}", path);
    }
}

#[test]
fn languages_are_selected_by_path_and_name() {
    let mut registry: LanguageRegistry<fn(&String) -> HighlightId> = LanguageRegistry::new();
    let version = registry.subscribe();
    registry.add(named("Rust", &["rs"]));
    registry.add(named("Make", &["Makefile", "mk", "rs"]));
    assert!(registry.subscribe() != version);
    let select = |path: &str| registry.select_language(path.as_bytes()).map(|language| language.name());
    assert_eq!(select("src/lib.rs"), Some("Rust"));
    assert_eq!(select("src/Makefile"), Some("Make"));
    assert_eq!(select("src/a.mk"), Some("Make"));
    assert_eq!(select("src/Makefile.txt"), None);
    assert_eq!(select("/"), None);
    let get = |name: &str| registry.get_language(name).map(|language| language.name());
    assert_eq!(get("RUST"), Some("Rust"));
    assert_eq!(get("mAkE"), Some("Make"));
    assert_eq!(get("ruby"), None);
    assert_eq!(registry.language_names(), vec!["Rust", "Make"]);
    assert_eq!(registry.to_vec().len(), 2);
}

#[test]
fn new_languages_get_the_theme() {
    fn theme(name: &String) -> HighlightId {
        HighlightId(name.len() as u32)
    }
    let with_query = || {
        rust_language()
            .with_highlights_query("(identifier) @variable")
            .ok()
            .unwrap()
    };
    let mut registry: LanguageRegistry<fn(&String) -> HighlightId> = LanguageRegistry::new();
    registry.add(with_query());
    registry.set_theme(theme);
    registry.add(with_query());
    for language in registry.to_vec() {
        assert_eq!(
            language.grammar().unwrap().highlight_id_for_name("variable"),
            Some(HighlightId(8))
        );
    }
}

#[test]
fn the_program_of_a_server_is_looked_for_once() {
    let mut registry: LanguageRegistry<fn(&String) -> HighlightId> = LanguageRegistry::new();
    let language = named("Some", &[]).with_lsp_adapter(adapter("server"));
    assert_eq!(registry.start_language_server(&language, true), ServerStart::Fake);
    assert_eq!(
        registry.start_language_server(&language, false),
        ServerStart::NoDownloadDirectory
    );
    registry.set_language_server_download_dir(b"/downloads".to_vec());
    assert_eq!(
        registry.start_language_server(&named("None", &[]), false),
        ServerStart::NoServer
    );
    let name = LanguageServerName("server".to_string());
    assert_eq!(
        registry.start_language_server(&language, false),
        ServerStart::FindAndStart {
            name: name.clone(),
            server_args: vec!["--stdio".to_string()],
            download_dir: b"/downloads".to_vec()
        }
    );
    assert_eq!(
        registry.start_language_server(&language, false),
        ServerStart::AwaitAndStart {
            name,
            server_args: vec!["--stdio".to_string()]
        }
    );
}

#[test]
fn a_program_is_downloaded() {
    let mut state = BinarySearch::begin(false);
    let mut told = Vec::new();
    for event in [
        BinaryEvent::Done,
        BinaryEvent::Done,
        BinaryEvent::Done,
        BinaryEvent::Done,
        BinaryEvent::Path {
            path: b"/bin/server".to_vec(),
        },
        BinaryEvent::Done,
    ] {
        told.extend(state.status());
        state = state.advance(event);
    }
    assert_eq!(
        state,
        BinarySearch::Found {
            path: b"/bin/server".to_vec()
        }
    );
    assert_eq!(
        told,
        vec![
            LanguageServerBinaryStatus::CheckingForUpdate,
            LanguageServerBinaryStatus::Downloading,
            LanguageServerBinaryStatus::Downloaded,
        ]
    );
}

#[test]
fn a_failed_download_falls_back_to_the_cache() {
    let error = || "offline".to_string();
    let failed = BinarySearch::begin(true)
        .advance(BinaryEvent::Done)
        .advance(BinaryEvent::Error { error: error() });
    let cached = failed.advance(BinaryEvent::Path {
        path: b"/old".to_vec(),
    });
    assert_eq!(cached.status(), Some(LanguageServerBinaryStatus::Cached));
    assert_eq!(
        cached.advance(BinaryEvent::Done),
        BinarySearch::Found {
            path: b"/old".to_vec()
        }
    );
    let missing = BinarySearch::LookInCache { error: error() }.advance(BinaryEvent::NotCached);
    assert_eq!(
        missing.status(),
        Some(LanguageServerBinaryStatus::Failed { error: error() })
    );
    assert_eq!(
        missing.advance(BinaryEvent::Done),
        BinarySearch::Failed { error: error() }
    );
    assert_eq!(
        BinarySearch::begin(false).advance(BinaryEvent::Error { error: error() }),
        BinarySearch::Failed { error: error() }
    );
}

#[test]
fn places_are_told_to_language_servers_and_back() {
    let point = |row, column| PointUtf16 { row, column };
    assert_eq!(
        point_to_lsp(point(1, 2)),
        Position {
            line: 1,
            character: 2
        }
    );
    assert_eq!(point(1, 2).to_lsp_position(), point_to_lsp(point(1, 2)));
    assert_eq!(point_from_lsp(point_to_lsp(point(3, 4))), point(3, 4));
    let range = point(1, 9)..point(2, 3);
    assert_eq!(range_from_lsp(range_to_lsp(range.clone())), range);
    let swapped = LspRange {
        start: point_to_lsp(point(2, 3)),
        end: point_to_lsp(point(1, 9)),
    };
    assert_eq!(range_from_lsp(swapped), range);
    let same_row = LspRange {
        start: point_to_lsp(point(2, 3)),
        end: point_to_lsp(point(2, 1)),
    };
    assert_eq!(range_from_lsp(same_row), point(2, 1)..point(2, 3));
}
