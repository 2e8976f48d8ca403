use citeproc_preprocessor::bibliography::bibliography_config;
use citeproc_preprocessor::flags::compile_flags;
use citeproc_preprocessor::pandoc::{apply_outputs, decode_output, decode_outputs};
use citeproc_preprocessor::{
    BibliographyConfig, Book, BookItem, Chapter, ConfigTable, ConfigValue, Feature, Pandoc,
    PandocConfig, PandocError, PandocSetting,
};

fn table(pairs: &[(&str, Option<&str>)]) -> ConfigTable {
    let mut t = ConfigTable::new();
    for (k, v) in pairs {
        let value = match v {
            Some(s) => ConfigValue::Str(s.to_string()),
            None => ConfigValue::Other,
        };
        t.insert(k.to_string(), value);
    }
    t
}

fn chapter(name: &str, content: &str, sub_items: Vec<BookItem>) -> BookItem {
    BookItem::Chapter(Chapter {
        name: name.to_string(),
        content: content.to_string(),
        number: Some(vec![1]),
        sub_items,
        path: Some(format!("{}.md", name)),
        source_path: Some(format!("{}.md", name)),
        parent_names: vec![],
    })
}

fn plan_args(t: &ConfigTable) -> Vec<String> {
    Pandoc::new().prepare(Some(t)).unwrap().command_args()
}

#[test]
fn end_to_end_transpiled_citations() {
    let t = table(&[
        ("citations", Some("transpile")),
        ("bibliography", Some("refs.bib")),
        ("bibliography-style", Some("apa.csl")),
    ]);
    let plan = Pandoc::new().prepare(Some(&t)).unwrap();
    assert_eq!(plan.flags.from, "--from=markdown_strict+citations");
    assert_eq!(plan.flags.to, "--to=markdown_strict-citations");
    assert_eq!(
        plan.command_args(),
        vec![
            "--from=markdown_strict+citations",
            "--to=markdown_strict-citations",
            "--csl=apa.csl",
            "--bibliography=refs.bib",
            "--metadata=link-citations",
            "--metadata=link-bibliography",
            "--citeproc",
        ]
    );
    let mut book = Book::new();
    book.push_item(chapter("intro", "See @smith2020.", vec![]));
    assert_eq!(book.chapter_contents(), vec!["See @smith2020.".to_string()]);
    apply_outputs(&mut book, &vec![b"See (Smith 2020).\n".to_vec()]);
    assert_eq!(book.chapter_contents(), vec!["See (Smith 2020).\n".to_string()]);
}

#[test]
fn end_to_end_empty_config() {
    let t = ConfigTable::new();
    let plan = Pandoc::new().prepare(Some(&t)).unwrap();
    assert_eq!(plan.flags.from, "--from=markdown_strict");
    assert_eq!(plan.flags.to, "--to=markdown_strict");
    assert!(plan.bibliography.is_none());
    assert_eq!(
        plan.command_args(),
        vec!["--from=markdown_strict", "--to=markdown_strict"]
    );
}

#[test]
fn missing_table_is_an_error() {
    assert_eq!(
        Pandoc::new().prepare(None).err(),
        Some(PandocError::ConfigMissing)
    );
}

#[test]
fn unrelated_keys_add_no_fragment() {
    let t = table(&[("unknown", Some("transpile")), ("bibliography", Some("refs.bib"))]);
    assert_eq!(
        plan_args(&t),
        vec!["--from=markdown_strict", "--to=markdown_strict"]
    );
}

#[test]
fn fragments_follow_the_feature_order_and_modes() {
    let t = table(&[
        ("mark", None),
        ("footnotes", Some("transpile")),
        ("emoji", Some("preserve")),
    ]);
    let plan = Pandoc::new().prepare(Some(&t)).unwrap();
    assert_eq!(plan.flags.from, "--from=markdown_strict+emoji+footnotes+mark");
    assert_eq!(plan.flags.to, "--to=markdown_strict+emoji-footnotes+mark");
}

#[test]
fn every_feature_transpiled() {
    let mut t = ConfigTable::new();
    for f in Feature::all() {
        t.insert(f.name().to_string(), ConfigValue::Str("transpile".to_string()));
    }
    t.insert("bibliography".to_string(), ConfigValue::Str("b.bib".to_string()));
    t.insert("bibliography-style".to_string(), ConfigValue::Str("s.csl".to_string()));
    let plan = Pandoc::new().prepare(Some(&t)).unwrap();
    assert_eq!(
        plan.flags.from,
        "--from=markdown_strict+backtick_code_blocks+bracketed_spans+citations\
         +definition_lists+emoji+fenced_code_attributes+fenced_code_blocks+fenced_divs\
         +footnotes+hard_line_breaks+inline_notes+mark+markdown_in_html_blocks+link_attributes"
    );
    assert_eq!(
        plan.flags.to,
        "--to=markdown_strict-backtick_code_blocks-bracketed_spans-citations\
         -definition_lists-emoji-fenced_code_attributes-fenced_code_blocks-fenced_divs\
         -footnotes-hard_line_breaks-inline_notes-mark-markdown_in_html_blocks-link_attributes"
    );
}

#[test]
fn settings_table_holds_mentioned_features_only() {
    let t = table(&[("fenced_divs", Some("transpile")), ("emoji", None)]);
    let config = PandocConfig::from_table(&t).unwrap();
    assert_eq!(
        config.settings,
        vec![
            (Feature::Emoji, PandocSetting::Preserve),
            (Feature::FencedDivs, PandocSetting::Transpile),
        ]
    );
    assert_eq!(config.get(Feature::FencedDivs), Some(PandocSetting::Transpile));
    assert_eq!(config.get(Feature::Footnotes), None);
    let flags = compile_flags(&config);
    assert_eq!(flags.from, "--from=markdown_strict+emoji+fenced_divs");
    assert_eq!(flags.to, "--to=markdown_strict+emoji-fenced_divs");
}

#[test]
fn rejected_value_names_the_feature() {
    let t = table(&[("fenced_divs", Some("yes"))]);
    assert_eq!(
        Pandoc::new().prepare(Some(&t)).err(),
        Some(PandocError::InvalidFeatureValue(Feature::FencedDivs))
    );
    let empty = table(&[("emoji", Some(""))]);
    assert_eq!(
        PandocConfig::from_table(&empty).err(),
        Some(PandocError::InvalidFeatureValue(Feature::Emoji))
    );
}

#[test]
fn first_rejected_value_in_feature_order_is_named() {
    let t = table(&[("mark", Some("on")), ("citations", Some("Transpile"))]);
    assert_eq!(
        Pandoc::new().prepare(Some(&t)).err(),
        Some(PandocError::InvalidFeatureValue(Feature::Citations))
    );
}

#[test]
fn transpiled_citations_need_both_keys() {
    let only_bib = table(&[("citations", Some("transpile")), ("bibliography", Some("refs.bib"))]);
    assert_eq!(
        Pandoc::new().prepare(Some(&only_bib)).err(),
        Some(PandocError::IncompleteBibliography)
    );
    let only_style = table(&[
        ("citations", Some("transpile")),
        ("bibliography-style", Some("apa.csl")),
    ]);
    assert_eq!(
        Pandoc::new().prepare(Some(&only_style)).err(),
        Some(PandocError::IncompleteBibliography)
    );
    let non_string = table(&[
        ("citations", Some("transpile")),
        ("bibliography", None),
        ("bibliography-style", Some("apa.csl")),
    ]);
    assert_eq!(
        Pandoc::new().prepare(Some(&non_string)).err(),
        Some(PandocError::IncompleteBibliography)
    );
}

#[test]
fn transpiled_citations_keep_the_strings() {
    let t = table(&[
        ("citations", Some("transpile")),
        ("bibliography", Some("dir/my refs.bib")),
        ("bibliography-style", Some("chicago.csl")),
    ]);
    let config = PandocConfig::from_table(&t).unwrap();
    let bib = bibliography_config(&config, &t).unwrap().unwrap();
    assert_eq!(bib.bibliography, "dir/my refs.bib");
    assert_eq!(bib.bibliography_style, "chicago.csl");
    let made = BibliographyConfig::new("a".to_string(), "b".to_string());
    assert_eq!(made.bibliography, "a");
    assert_eq!(made.bibliography_style, "b");
}

#[test]
fn preserved_citations_ignore_bibliography() {
    for citations in [Some(Some("preserve")), Some(None), None] {
        let mut pairs = vec![
            ("bibliography", Some("refs.bib")),
            ("bibliography-style", Some("apa.csl")),
        ];
        if let Some(v) = citations {
            pairs.push(("citations", v));
        }
        let t = table(&pairs);
        let plan = Pandoc::new().prepare(Some(&t)).unwrap();
        assert!(plan.bibliography.is_none());
        let args = plan.command_args();
        assert_eq!(args.len(), 2);
        assert!(args.iter().all(|a| !a.starts_with("--csl") && a != "--citeproc"));
    }
}

#[test]
fn chapters_are_rewritten_and_other_nodes_kept() {
    let mut book = Book::new();
    book.push_item(BookItem::PartTitle("Part one".to_string()));
    book.push_item(chapter(
        "a",
        "A",
        vec![chapter("a1", "A1", vec![]), BookItem::Separator, chapter("a2", "A2", vec![])],
    ));
    book.push_item(BookItem::Separator);
    book.push_item(chapter("b", "B", vec![]));
    let contents = book.chapter_contents();
    assert_eq!(contents, vec!["A", "A1", "A2", "B"]);
    let outputs: Vec<String> = contents.iter().map(|c| c.to_lowercase()).collect();
    book.set_chapter_contents(&outputs);
    assert_eq!(book.chapter_contents(), vec!["a", "a1", "a2", "b"]);
    assert_eq!(book.sections.len(), 4);
    assert!(matches!(&book.sections[0], BookItem::PartTitle(t) if t == "Part one"));
    assert!(matches!(book.sections[2], BookItem::Separator));
    match &book.sections[1] {
        BookItem::Chapter(ch) => {
            assert_eq!(ch.name, "a");
            assert_eq!(ch.path.as_deref(), Some("a.md"));
            assert_eq!(ch.number, Some(vec![1]));
            assert_eq!(ch.sub_items.len(), 3);
            assert!(matches!(ch.sub_items[1], BookItem::Separator));
        }
        _ => panic!("expected a chapter"),
    }
}

#[test]
fn book_without_chapters_needs_no_conversion() {
    let mut book = Book::new();
    book.push_item(BookItem::Separator);
    book.push_item(BookItem::PartTitle("x".to_string()));
    assert!(book.chapter_contents().is_empty());
    apply_outputs(&mut book, &vec![]);
    assert_eq!(book.sections.len(), 2);
}

#[test]
fn invalid_bytes_are_replaced() {
    assert_eq!(decode_output(&b"ok \xff\xfe done".to_vec()), "ok \u{FFFD}\u{FFFD} done");
    assert_eq!(decode_output(&"caf\u{e9}".as_bytes().to_vec()), "caf\u{e9}");
    let decoded = decode_outputs(&vec![vec![0x61, 0x80], vec![]]);
    assert_eq!(decoded, vec!["a\u{FFFD}".to_string(), String::new()]);
    let mut book = Book::new();
    book.push_item(chapter("c", "old", vec![]));
    apply_outputs(&mut book, &vec![vec![b'n', 0xC3, b'w']]);
    assert_eq!(book.chapter_contents(), vec!["n\u{FFFD}w"]);
}

#[test]
fn renderer_support() {
    let p = Pandoc::new();
    assert!(p.supports_renderer("html"));
    assert!(p.supports_renderer("not-supported2"));
    assert!(!p.supports_renderer("not-supported"));
    assert_eq!(p.name(), "citeproc");
}

#[test]
fn default_setting_is_preserve() {
    assert_eq!(PandocSetting::default(), PandocSetting::Preserve);
}

#[test]
fn config_table_lookup() {
    let mut t = table(&[("a", Some("1")), ("b", None)]);
    assert!(t.contains_key("a"));
    assert!(!t.contains_key("c"));
    assert_eq!(t.get_str("a"), Some("1".to_string()));
    assert_eq!(t.get_str("b"), None);
    t.insert("a".to_string(), ConfigValue::Str("2".to_string()));
    assert_eq!(t.get_str("a"), Some("2".to_string()));
}

#[test]
fn error_messages() {
    assert_eq!(
        PandocError::InvalidFeatureValue(Feature::FencedDivs).message(),
        "fenced_divs must be either \"transpile\" or \"preserve\""
    );
    assert_eq!(
        PandocError::ConfigMissing.message(),
        "No config table for citeproc preprocessor"
    );
    assert_eq!(
        PandocError::IncompleteBibliography.message(),
        "citations set to transpile so bibliography-style and bibliography option must be provided!"
    );
    assert_eq!(PandocError::MalformedVersion.message(), "invalid mdbook version");
}
