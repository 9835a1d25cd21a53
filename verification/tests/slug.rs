use syndicate_json_canvas::jj_sink::{JjRepositorySink, Link};
use syndicate_json_canvas::select::SyndicationFormat;
use syndicate_json_canvas::sink::Batch;
use syndicate_json_canvas::text::{decimal_text, join_words, split_words};

fn texts(values: &[&str]) -> Vec<String> {
    values.iter().map(|v| v.to_string()).collect()
}

fn item(id: &str, text: &str, inn: &[&str], out: &[&str]) -> SyndicationFormat {
    SyndicationFormat {
        id: id.to_string(),
        text: text.to_string(),
        in_neighbor_ids: texts(inn),
        out_neighbor_ids: texts(out),
    }
}

#[test]
fn slug_lowercases_strips_and_joins() {
    assert_eq!(JjRepositorySink::generate_slug("Hello, World!"), "hello-world");
    assert_eq!(JjRepositorySink::generate_slug("  Rust   is\tfun\n"), "rust-is-fun");
    assert_eq!(JjRepositorySink::generate_slug("What's up?"), "whats-up");
}

#[test]
fn slug_takes_the_first_eight_words() {
    assert_eq!(
        JjRepositorySink::generate_slug("one two three four five six seven eight nine ten"),
        "one-two-three-four-five-six-seven-eight"
    );
    assert_eq!(
        JjRepositorySink::generate_slug("one two three four five six seven eight"),
        "one-two-three-four-five-six-seven-eight"
    );
}

#[test]
fn slug_drops_words_that_come_out_empty() {
    assert_eq!(JjRepositorySink::generate_slug("!!! a ??? b"), "a-b");
    assert_eq!(JjRepositorySink::generate_slug("?!"), "");
    assert_eq!(JjRepositorySink::generate_slug(""), "");
    assert_eq!(JjRepositorySink::generate_slug("   "), "");
}

#[test]
fn slug_counts_the_words_before_it_drops_any() {
    assert_eq!(JjRepositorySink::generate_slug("1 2 3 4 ! ? 7 8 9"), "1-2-3-4-7-8");
}

#[test]
fn slug_keeps_hyphens_and_digits() {
    assert_eq!(JjRepositorySink::generate_slug("State-of-the-art 2024"), "state-of-the-art-2024");
    assert_eq!(JjRepositorySink::generate_slug("a - b"), "a---b");
}

#[test]
fn slug_keeps_letters_of_other_scripts() {
    assert_eq!(JjRepositorySink::generate_slug("Élan Vital"), "élan-vital");
    assert_eq!(JjRepositorySink::generate_slug("ΑΒΓ δέλτα"), "αβγ-δέλτα");
    assert_eq!(JjRepositorySink::generate_slug("a\u{00a0}b\u{3000}c"), "a-b-c");
}

#[test]
fn slug_holds_letters_digits_and_hyphens_only() {
    for text in ["Hello, World!", "İstanbul calling", "tab\tand\nnewline", "emoji 🎉 party", "under_score"] {
        let slug = JjRepositorySink::generate_slug(text);
        assert!(slug.chars().all(|c| c.is_alphanumeric() || c == '-'), "{:?}", slug);
    }
    assert_eq!(JjRepositorySink::generate_slug("İstanbul"), "istanbul");
    assert_eq!(JjRepositorySink::generate_slug("under_score"), "underscore");
}

#[test]
fn slug_is_the_same_for_the_same_text() {
    let text = "The quick brown Fox; jumps over";
    assert_eq!(JjRepositorySink::generate_slug(text), JjRepositorySink::generate_slug(text));
    assert_eq!(JjRepositorySink::generate_slug(text), "the-quick-brown-fox-jumps-over");
}

#[test]
fn title_is_the_first_eight_words_with_single_spaces() {
    assert_eq!(JjRepositorySink::generate_title("  Hello,   World!  "), "Hello, World!");
    assert_eq!(
        JjRepositorySink::generate_title("1 2 3 4 5 6 7 8 9 10"),
        "1 2 3 4 5 6 7 8"
    );
    assert_eq!(JjRepositorySink::generate_title(""), "");
}

#[test]
fn filename_is_slug_hyphen_identifier() {
    assert_eq!(JjRepositorySink::generate_filename("hello-world", "abc123"), "hello-world-abc123.md");
    assert_eq!(JjRepositorySink::generate_filename("", "abc123"), "-abc123.md");
}

#[test]
fn yaml_escape_guards_backslash_and_quote() {
    assert_eq!(JjRepositorySink::escape_yaml_string("plain"), "plain");
    assert_eq!(JjRepositorySink::escape_yaml_string("say \"hi\""), "say \\\"hi\\\"");
    assert_eq!(JjRepositorySink::escape_yaml_string("a\\b"), "a\\\\b");
    assert_eq!(JjRepositorySink::escape_yaml_string("\\\""), "\\\\\\\"");
    assert_eq!(JjRepositorySink::escape_yaml_string(""), "");
}

#[test]
fn words_are_split_at_any_whitespace() {
    assert_eq!(split_words(" a  b\tc\nd "), texts(&["a", "b", "c", "d"]));
    assert_eq!(split_words("single"), texts(&["single"]));
    assert_eq!(split_words(""), Vec::<String>::new());
    assert_eq!(split_words(" \t\n"), Vec::<String>::new());
    assert_eq!(split_words("a\u{2003}b"), texts(&["a", "b"]));
}

#[test]
fn words_match_the_standard_split() {
    for text in ["", "a", " a b ", "x\u{0085}y", "tabs\t\tand  spaces", "näive café\u{00a0}au lait"] {
        let expected: Vec<String> = text.split_whitespace().map(|w| w.to_string()).collect();
        assert_eq!(split_words(text), expected);
    }
}

#[test]
fn whitespace_is_the_listed_set() {
    let listed = |code: u32| {
        (0x0009..=0x000D).contains(&code)
            || (0x2000..=0x200A).contains(&code)
            || [0x0020, 0x0085, 0x00A0, 0x1680, 0x2028, 0x2029, 0x202F, 0x205F, 0x3000]
                .contains(&code)
    };
    let mut text = String::new();
    for code in 0..=0x10FFFF_u32 {
        if let Some(c) = char::from_u32(code) {
            text.clear();
            text.push('a');
            text.push(c);
            text.push('b');
            assert_eq!(split_words(&text).len() == 2, listed(code), "U+{:04X}", code);
        }
    }
}

#[test]
fn join_puts_the_separator_between_neighbours() {
    assert_eq!(join_words(&texts(&["a", "b", "c"]), "-"), "a-b-c");
    assert_eq!(join_words(&texts(&["a"]), "-"), "a");
    assert_eq!(join_words(&texts(&[]), "-"), "");
    assert_eq!(join_words(&texts(&["", ""]), ", "), ", ");
}

#[test]
fn decimal_numerals() {
    assert_eq!(decimal_text(0), "0");
    assert_eq!(decimal_text(7), "7");
    assert_eq!(decimal_text(10), "10");
    assert_eq!(decimal_text(1234567890), "1234567890");
    assert_eq!(decimal_text(usize::MAX), usize::MAX.to_string());
}

#[test]
fn file_without_neighbours_has_no_link_lists() {
    let mut batch = Batch::new();
    assert!(batch.insert(item("n1", "Just a \"quoted\" note", &[], &[])));
    let slugs = JjRepositorySink::generate_slugs(&batch);
    let contents = JjRepositorySink::render_file_contents(batch.item(0), "2025-01-31", &slugs, &batch);
    assert_eq!(
        contents,
        "---\ntitle: \"Just a \\\"quoted\\\" note\"\ndate: 2025-01-31\n---\n\nJust a \"quoted\" note"
    );
}

#[test]
fn neighbours_outside_the_batch_give_no_link() {
    let mut batch = Batch::new();
    batch.insert(item("a", "Alpha", &["gone", "b"], &["missing"]));
    batch.insert(item("b", "Beta", &[], &["a"]));
    let slugs = JjRepositorySink::generate_slugs(&batch);
    let contents = JjRepositorySink::render_file_contents(batch.item(0), "2025-01-31", &slugs, &batch);
    assert_eq!(
        contents,
        "---\ntitle: \"Alpha\"\ndate: 2025-01-31\ncontext_for_this:\n  - link_text: \"Beta\"\n    href: \"/t/beta-b.md\"\n---\n\nAlpha"
    );
}

#[test]
fn links_keep_the_order_and_the_repetitions_of_the_neighbours() {
    let mut batch = Batch::new();
    batch.insert(item("a", "Alpha", &[], &["c", "b", "c"]));
    batch.insert(item("b", "Beta b", &[], &[]));
    batch.insert(item("c", "Gamma \\ c", &[], &[]));
    let slugs = JjRepositorySink::generate_slugs(&batch);
    let links = JjRepositorySink::collect_links(&batch.item(0).out_neighbor_ids, &slugs, &batch);
    assert_eq!(
        links,
        vec![
            Link { link_text: "Gamma \\ c".to_string(), href: "/t/gamma-c-c.md".to_string() },
            Link { link_text: "Beta b".to_string(), href: "/t/beta-b-b.md".to_string() },
            Link { link_text: "Gamma \\ c".to_string(), href: "/t/gamma-c-c.md".to_string() },
        ]
    );
    let mut out = String::from("x");
    JjRepositorySink::append_link_block(&mut out, "further_thinking:\n", &links[..1].to_vec());
    assert_eq!(
        out,
        "xfurther_thinking:\n  - link_text: \"Gamma \\\\ c\"\n    href: \"/t/gamma-c-c.md\"\n"
    );
    let mut untouched = String::from("x");
    JjRepositorySink::append_link_block(&mut untouched, "further_thinking:\n", &Vec::new());
    assert_eq!(untouched, "x");
}

#[test]
fn link_without_a_slug_is_passed_over() {
    let mut batch = Batch::new();
    batch.insert(item("a", "Alpha", &[], &["b"]));
    batch.insert(item("b", "Beta", &[], &[]));
    let short = texts(&["alpha"]);
    let links = JjRepositorySink::collect_links(&batch.item(0).out_neighbor_ids, &short, &batch);
    assert!(links.is_empty());
}

#[test]
fn href_escapes_what_an_identifier_brings() {
    let mut batch = Batch::new();
    batch.insert(item("a", "Alpha", &[], &["b\"x"]));
    batch.insert(item("b\"x", "Beta", &[], &[]));
    let slugs = JjRepositorySink::generate_slugs(&batch);
    let contents = JjRepositorySink::render_file_contents(batch.item(0), "2025-01-31", &slugs, &batch);
    assert_eq!(
        contents,
        "---\ntitle: \"Alpha\"\ndate: 2025-01-31\nfurther_thinking:\n  - link_text: \"Beta\"\n    href: \"/t/beta-b\\\"x.md\"\n---\n\nAlpha"
    );
}

#[test]
fn generated_file_bears_a_date_of_today() {
    let mut batch = Batch::new();
    batch.insert(item("a", "Alpha", &[], &[]));
    let slugs = JjRepositorySink::generate_slugs(&batch);
    let contents = JjRepositorySink::generate_file_contents(batch.item(0), &slugs, &batch);
    let prefix = "---\ntitle: \"Alpha\"\ndate: ";
    assert!(contents.starts_with(prefix));
    assert!(contents.ends_with("\n---\n\nAlpha"));
    let date = &contents[prefix.len()..contents.len() - "\n---\n\nAlpha".len()];
    let parts: Vec<&str> = date.split('-').collect();
    assert_eq!(parts.len(), 3);
    assert!(parts[0].len() >= 4);
    assert_eq!(parts[1].len(), 2);
    assert_eq!(parts[2].len(), 2);
    assert!(parts.iter().all(|p| p.chars().all(|c| c.is_ascii_digit())));
    let month: u32 = parts[1].parse().unwrap();
    let day: u32 = parts[2].parse().unwrap();
    assert!((1..=12).contains(&month));
    assert!((1..=31).contains(&day));
}
