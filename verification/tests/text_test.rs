use kairo_core::entry::DesktopEntry;
use kairo_core::exec::FieldCode;
use kairo_core::label::{truncate_clusters, truncate_with_ellipsis};
use kairo_core::text::{blank, find_char, split, trim};
use kairo_core::Error;

fn localized_entry() -> DesktopEntry {
    DesktopEntry::from_str(
        "/usr/share/applications/sample.desktop",
        "[Desktop Entry]
Name=Default
Name[de]=Deutsch
Name[sr]=Srpski
Name[sr@latin]=Srpski latinica
Name[sr_RS]=Srbija
Name[pt_BR]=Brasil
Comment=Plain
Icon=/usr/share/icons/sample.png
Exec=sample
MimeType=a/b;;c/d

[Desktop Action new]
Name=Other group
Exec=sample --new
",
    )
    .unwrap()
}

fn name_for(prefs: &[&str]) -> String {
    let prefs: Vec<String> = prefs.iter().map(|p| p.to_string()).collect();
    localized_entry().name(&prefs).unwrap().to_string()
}

#[test]
fn locale_falls_back_from_country_to_language() {
    let de = DesktopEntry::from_str(
        "/usr/share/applications/l.desktop",
        "[Desktop Entry]\nName=Default\nName[de]=Deutsch\n",
    )
    .unwrap();
    let prefs = vec!["de_AT".to_string(), "de".to_string(), "en".to_string()];
    assert_eq!(de.name(&prefs), Some("Deutsch"));
    let prefs = vec!["fr".to_string()];
    assert_eq!(de.name(&prefs), Some("Default"));
    assert_eq!(de.name(&[]), Some("Default"));
    assert_eq!(de.comment(&prefs), None);
}

#[test]
fn locale_candidates_are_tried_from_most_to_least_specific() {
    assert_eq!(name_for(&["sr_RS@latin"]), "Srbija");
    assert_eq!(name_for(&["sr_ME@latin"]), "Srpski latinica");
    assert_eq!(name_for(&["sr_ME"]), "Srpski");
    assert_eq!(name_for(&["sr@latin"]), "Srpski latinica");
    assert_eq!(name_for(&["sr@cyrillic"]), "Srpski");
    assert_eq!(name_for(&["pt_BR"]), "Brasil");
    assert_eq!(name_for(&["pt_PT"]), "Default");
    assert_eq!(name_for(&["pt"]), "Default");
}

#[test]
fn earlier_preference_wins_over_a_more_specific_later_one() {
    assert_eq!(name_for(&["de_CH", "pt_BR"]), "Deutsch");
    assert_eq!(name_for(&["fr", "pt_BR", "de"]), "Brasil");
    assert_eq!(name_for(&["fr", "en_US.UTF-8"]), "Default");
}

#[test]
fn fields_are_read_from_the_main_group_only() {
    let de = localized_entry();
    assert_eq!(de.appid, "sample");
    assert_eq!(de.path, "/usr/share/applications/sample.desktop");
    assert_eq!(de.exec(), Some("sample"));
    assert_eq!(de.icon(), Some("/usr/share/icons/sample.png"));
    assert_eq!(de.desktop_entry("Comment"), Some("Plain"));
    assert_eq!(de.desktop_entry("comment"), None);
    assert_eq!(de.desktop_entry("Name[de]"), None);
    assert_eq!(
        de.mime_type(),
        Some(vec!["a/b".to_string(), "".to_string(), "c/d".to_string()])
    );
    let names: Vec<&str> = de.groups.iter().map(|g| g.name.as_str()).collect();
    assert_eq!(names, vec!["Desktop Action new", "Desktop Entry"]);
    let action = de.group("Desktop Action new").unwrap();
    assert_eq!(action.field("Exec").unwrap().value, "sample --new");
    assert!(action.field("Icon").is_none());
    assert!(de.group("desktop entry").is_none());
    let field = de.field("Name").unwrap();
    assert_eq!(field.value, "Default");
    assert_eq!(field.variant("sr"), field.localized.iter().position(|v| v.locale == "sr"));
    assert_eq!(field.variant("xx"), None);
    assert_eq!(field.variant_for("de_DE@euro"), Some("Deutsch"));
    assert_eq!(field.variant_for("en"), None);
    assert_eq!(field.resolve(&["en".to_string(), "sr_RS".to_string()]), "Srbija");
}

#[test]
fn decoding_resolves_escapes_and_rejects_malformed_text() {
    let de = DesktopEntry::from_str(
        "/usr/share/applications/sub/dir.desktop",
        "# comment\n[Desktop Entry]\nName= two\\swords\\n\nExec=a\\\\b\n",
    )
    .unwrap();
    assert_eq!(de.appid, "sub-dir");
    assert_eq!(de.name(&[]), Some("two words\n"));
    assert_eq!(de.exec(), Some("a\\b"));
    assert_eq!(
        DesktopEntry::from_str("/usr/share/applications/x.desktop", "Name=x\n"),
        Err(Error::DesktopEntryDecode)
    );
    assert_eq!(
        DesktopEntry::from_str("/usr/share/applications/x.txt", "[Desktop Entry]\nName=x\n"),
        Err(Error::DesktopEntryDecode)
    );
    assert_eq!(
        DesktopEntry::from_str("/usr/share/applications/x.desktop", "[Desktop Entry]\nName=x\\\n"),
        Err(Error::DesktopEntryDecode)
    );
}

#[test]
fn split_keeps_empty_pieces() {
    assert_eq!(split("a;b;c", ';'), vec!["a", "b", "c"]);
    assert_eq!(split("a;b;", ';'), vec!["a", "b", ""]);
    assert_eq!(split(";;", ';'), vec!["", "", ""]);
    assert_eq!(split("", ';'), vec![""]);
    assert_eq!(split("no separator", ';'), vec!["no separator"]);
    assert_eq!(split("é;ü", ';'), vec!["é", "ü"]);
}

#[test]
fn find_char_counts_characters_not_bytes() {
    assert_eq!(find_char("a@b@c", '@', 0), 1);
    assert_eq!(find_char("a@b@c", '@', 1), 1);
    assert_eq!(find_char("a@b@c", '@', 2), 3);
    assert_eq!(find_char("a@b@c", '@', 4), 5);
    assert_eq!(find_char("a@b@c", '@', 5), 5);
    assert_eq!(find_char("éé@", '@', 0), 2);
    assert_eq!(find_char("", '@', 0), 0);
    assert_eq!(find_char("a@b", '@', 10), 3);
}

#[test]
fn trim_removes_white_space_at_both_ends_only() {
    assert_eq!(trim("  a b \t\n"), "a b");
    assert_eq!(trim("\u{a0}\u{2003}x\u{3000}"), "x");
    assert_eq!(trim(" \t "), "");
    assert_eq!(trim(""), "");
    assert_eq!(trim("x"), "x");
    assert_eq!(trim("\u{200b}x"), "\u{200b}x");
    for c in ['\t', '\n', '\u{b}', '\u{c}', '\r', ' ', '\u{85}', '\u{1680}', '\u{2028}', '\u{205f}'] {
        assert!(blank(c));
    }
    for c in ['a', '\u{8}', '\u{e}', '\u{200b}', '\u{feff}', '_'] {
        assert!(!blank(c));
    }
    for u in 0..0x3100u32 {
        if let Some(c) = char::from_u32(u) {
            assert_eq!(blank(c), c.is_whitespace());
        }
    }
}

#[test]
fn field_codes_are_exact_two_character_words() {
    assert_eq!(FieldCode::of_word("%f"), FieldCode::SingleFileName);
    assert_eq!(FieldCode::of_word("%F"), FieldCode::FileList);
    assert_eq!(FieldCode::of_word("%u"), FieldCode::SingleUrl);
    assert_eq!(FieldCode::of_word("%U"), FieldCode::UrlList);
    assert_eq!(FieldCode::of_word("%i"), FieldCode::IconKey);
    assert_eq!(FieldCode::of_word("%c"), FieldCode::TranslatedName);
    assert_eq!(FieldCode::of_word("%k"), FieldCode::DesktopFileLocation);
    for word in ["%d", "%D", "%n", "%N", "%v", "%m"] {
        assert_eq!(FieldCode::of_word(word), FieldCode::Deprecated);
    }
    for word in ["%", "%%", "%x", "%K", "%uu", "%u ", "%é"] {
        assert_eq!(FieldCode::of_word(word), FieldCode::Unknown);
    }
    for word in ["", "u", " %u", "a%u", "-%f", "é"] {
        assert_eq!(FieldCode::of_word(word), FieldCode::Arg);
    }
}

#[test]
fn short_text_is_kept_and_long_text_gets_an_ellipsis() {
    assert_eq!(truncate_with_ellipsis("Firefox", 12), "Firefox");
    assert_eq!(truncate_with_ellipsis("exactly12chr", 12), "exactly12chr");
    assert_eq!(truncate_with_ellipsis("Black Hole Browser", 12), "Black Hole B...");
    assert_eq!(truncate_with_ellipsis("abc", 0), "...");
    assert_eq!(truncate_with_ellipsis("", 0), "");
}

#[test]
fn truncation_counts_grapheme_clusters() {
    let s = "e\u{301}e\u{301}e\u{301}";
    assert_eq!(truncate_with_ellipsis(s, 3), s);
    assert_eq!(truncate_with_ellipsis(s, 2), "e\u{301}e\u{301}...");
    assert_eq!(truncate_with_ellipsis("🇷🇺🇸🇹x", 1), "🇷🇺...");
}

#[test]
fn truncate_clusters_joins_the_first_clusters() {
    assert_eq!(truncate_clusters("abcd", &["ab", "cd"], 2), "abcd");
    assert_eq!(truncate_clusters("abcd", &["ab", "cd"], 1), "ab...");
    assert_eq!(truncate_clusters("abcd", &["ab", "cd"], 0), "...");
    assert_eq!(truncate_clusters("whole", &[], 0), "whole");
}
