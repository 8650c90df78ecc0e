use rsfetch::config::{
    after_candidate, config_from_text, default_config, import_art_into, imported_config_text,
    parse_config, CandidateRead, Config, SearchStep,
};

fn defaults() -> Config {
    default_config()
}

#[test]
fn default_config_values() {
    let c = defaults();
    assert!(c.display.show_username && c.display.show_host && c.display.show_os);
    assert!(c.display.show_kernel && c.display.show_uptime && c.display.show_cpu);
    assert!(c.display.show_memory && c.display.show_gpu && c.display.show_shell);
    assert!(c.display.show_rust);
    assert_eq!(c.ascii.art_style, "crab");
    assert_eq!(c.ascii.color, "red");
    assert_eq!(c.ascii.art_width, 16);
    assert_eq!(c.ascii.custom_art, None);
    assert_eq!(c.ascii.custom_art_path, None);
    assert_eq!(c.format.info_prefix, "");
    assert_eq!(c.format.info_color, "white");
    assert_eq!(c.format.label_color, "yellow");
    assert_eq!(c.format.title_color, "red");
    assert_eq!(c.format.max_width, 60);
}

#[test]
fn settings_override_defaults() {
    let text = r#"
[display]
show_username = false
show_cpu = "no"

[ascii]
art_style = "cat"
color = "Blue"
art_width = 20
custom_art = "X\nY"

[format]
info_prefix = "> "
max_width = 40
"#;
    let c = config_from_text(text, &defaults()).expect("a TOML document");
    assert!(!c.display.show_username);
    // a value of the wrong type keeps the default
    assert!(c.display.show_cpu);
    assert!(c.display.show_rust);
    assert_eq!(c.ascii.art_style, "cat");
    assert_eq!(c.ascii.color, "Blue");
    assert_eq!(c.ascii.art_width, 20);
    assert_eq!(c.ascii.custom_art.as_deref(), Some("X\nY"));
    assert_eq!(c.ascii.custom_art_path, None);
    assert_eq!(c.format.info_prefix, "> ");
    assert_eq!(c.format.info_color, "white");
    assert_eq!(c.format.max_width, 40);
}

#[test]
fn negative_width_wraps_as_a_cast() {
    let c = config_from_text("[ascii]\nart_width = -1\n", &defaults()).unwrap();
    assert_eq!(c.ascii.art_width, (-1i64) as usize);
}

#[test]
fn missing_sections_keep_defaults() {
    let c = config_from_text("title = 3\ndisplay = 5\n", &defaults()).unwrap();
    assert!(c.display.show_username);
    assert_eq!(c.ascii.art_style, "crab");
    assert_eq!(c.format.max_width, 60);
    let e = config_from_text("", &defaults()).unwrap();
    assert_eq!(e.ascii.art_width, 16);
}

#[test]
fn custom_art_takes_no_default() {
    let mut d = defaults();
    d.ascii.custom_art = Some("kept?".to_string());
    let c = config_from_text("[ascii]\ncolor = \"green\"\n", &d).unwrap();
    assert_eq!(c.ascii.custom_art, None);
    let c2 = config_from_text("[format]\n", &d).unwrap();
    assert_eq!(c2.ascii.custom_art.as_deref(), Some("kept?"));
}

#[test]
fn invalid_toml_gives_none() {
    assert!(config_from_text("[display\nshow_os = ", &defaults()).is_none());
}

#[test]
fn parse_config_on_a_table() {
    let t: toml::Table = "[display]\nshow_gpu = false\n".parse().unwrap();
    let c = parse_config(&t, &defaults());
    assert!(!c.display.show_gpu);
    assert!(c.display.show_shell);
}

#[test]
fn search_steps() {
    let d = defaults();
    assert!(matches!(after_candidate(CandidateRead::Missing, &d), SearchStep::Continue));
    assert!(matches!(after_candidate(CandidateRead::Unreadable, &d), SearchStep::ReportAndContinue));
    assert!(matches!(
        after_candidate(CandidateRead::Text("not = [toml".to_string()), &d),
        SearchStep::Continue
    ));
    match after_candidate(CandidateRead::Text("[format]\nmax_width = 7\n".to_string()), &d) {
        SearchStep::Use(c) => assert_eq!(c.format.max_width, 7),
        _ => panic!("expected a configuration"),
    }
}

#[test]
fn imported_art_is_read_back() {
    let art = "  /\\\n (oo)\n".to_string();
    let text = imported_config_text(None, art.clone()).unwrap();
    let c = config_from_text(&text, &defaults()).unwrap();
    assert_eq!(c.ascii.custom_art, Some(art.clone()));
    assert_eq!(c.ascii.art_style, "custom");

    let existing = "[display]\nshow_os = false\n[ascii]\ncolor = \"cyan\"\nart_style = \"tux\"\n";
    let text2 = imported_config_text(Some(existing), art.clone()).unwrap();
    let c2 = config_from_text(&text2, &defaults()).unwrap();
    assert_eq!(c2.ascii.custom_art, Some(art));
    assert_eq!(c2.ascii.art_style, "custom");
    assert_eq!(c2.ascii.color, "cyan");
    assert!(!c2.display.show_os);
}

#[test]
fn import_into_unparsable_file_starts_afresh() {
    let text = imported_config_text(Some("this is [not toml"), "A".to_string()).unwrap();
    let t: toml::Table = text.parse().unwrap();
    assert_eq!(t.len(), 1);
    assert_eq!(t["ascii"]["custom_art"].as_str(), Some("A"));
}

#[test]
fn import_replaces_a_non_table_ascii_entry() {
    let mut t: toml::Table = "ascii = 5\n".parse().unwrap();
    import_art_into(&mut t, "A".to_string());
    assert_eq!(t["ascii"]["art_style"].as_str(), Some("custom"));
    assert_eq!(t["ascii"]["custom_art"].as_str(), Some("A"));
    assert_eq!(t["ascii"].as_table().unwrap().len(), 2);
    let text = imported_config_text(Some("ascii = \"x\"\n"), "B".to_string()).unwrap();
    let c = config_from_text(&text, &defaults()).unwrap();
    assert_eq!(c.ascii.custom_art.as_deref(), Some("B"));
    let mut u = toml::Table::new();
    import_art_into(&mut u, "B".to_string());
    assert_eq!(u["ascii"]["art_style"].as_str(), Some("custom"));
    assert_eq!(u["ascii"]["custom_art"].as_str(), Some("B"));
}

#[test]
fn import_keeps_other_entries() {
    let existing = "pi = 3.14\nwhen = 1979-05-27\n[ascii]\nfoo = [1, 2]\ncolor = \"cyan\"\n";
    let before: toml::Table = existing.parse().unwrap();
    let text = imported_config_text(Some(existing), "A".to_string()).unwrap();
    let after: toml::Table = text.parse().unwrap();
    assert_eq!(after["pi"], before["pi"]);
    assert_eq!(after["when"], before["when"]);
    assert_eq!(after["ascii"]["foo"], before["ascii"]["foo"]);
    assert_eq!(after["ascii"]["color"], before["ascii"]["color"]);
    assert_eq!(after.len(), 3);
    assert_eq!(after["ascii"].as_table().unwrap().len(), 4);
}

#[test]
fn import_twice_is_import_once() {
    let once = imported_config_text(Some("[display]\nshow_os = true\n"), "Z".to_string()).unwrap();
    let twice = imported_config_text(Some(&once), "Z".to_string()).unwrap();
    assert_eq!(once, twice);
}

#[test]
fn unread_entries_change_nothing() {
    let plain = config_from_text("[format]\nmax_width = 9\n", &defaults()).unwrap();
    let extra = config_from_text(
        "other = 1\n[format]\nmax_width = 9\nunknown = \"x\"\n[more]\nshow_os = false\n",
        &defaults(),
    )
    .unwrap();
    assert_eq!(plain.format.max_width, extra.format.max_width);
    assert_eq!(plain.display, extra.display);
    assert_eq!(plain.ascii.art_style, extra.ascii.art_style);
}
