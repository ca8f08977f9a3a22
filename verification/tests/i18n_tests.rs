use songbook::add_ending_slash;
use songbook::catalog::display_name;
use songbook::catalog::sort_catalog;
use songbook::catalog::CatalogEntry;
use songbook::config::Config;
use songbook::i18n::get_commands;
use songbook::i18n::I18n;
use songbook::langs::Strings;

#[test]
fn commands_list_one_line_per_folder() {
    let names = vec![String::from("hymns"), String::from("carols")];
    assert_eq!(get_commands(&names), "/hymns\n/carols\n");
    assert_eq!(get_commands(&Vec::new()), "");
}

#[test]
fn english_start_message_embeds_the_commands() {
    let i18n = I18n::new(String::from("en"), vec![String::from("hymns")]);
    assert_eq!(
        i18n.start_msg,
        "Hello. This is a digital song book. :)\nCommands:\n/list - Lists all songs\n/hymns\nOtherwise simply type the title or parts of the title of the song and you will receive the song."
    );
    assert_eq!(i18n.song_not_found, "Didn't find any song with this title.");
    assert_eq!(i18n.report.cancel_msg, "Reporting canceled.");
}

#[test]
fn german_messages_are_german() {
    let i18n = I18n::new(String::from("de"), Vec::new());
    assert_eq!(i18n.song_not_found, "Kein Lied mit diesem Titel gefunden.");
    assert_eq!(
        i18n.report.error_msg,
        "Das hat nicht funktioniert. Versuche es nochmal oder /cancel."
    );
    assert!(i18n.start_msg.starts_with("Hallo."));
}

#[test]
fn unknown_language_falls_back_to_english() {
    let i18n = I18n::new(String::from("fr"), Vec::new());
    assert_eq!(i18n.song_not_found, "Didn't find any song with this title.");
}

#[test]
fn german_format_folds_umlauts_and_separators() {
    let i18n = I18n::new(String::from("de"), Vec::new());
    assert_eq!(i18n.format(&String::from("Grüß dich")), "Gruess_dich");
    assert_eq!(i18n.format(&String::from("Öl-Ära")), "Oel_Aera");
}

#[test]
fn romanian_format_folds_diacritics() {
    let i18n = I18n::new(String::from("md"), Vec::new());
    assert_eq!(i18n.format(&String::from("cântări")), "cantari");
    assert_eq!(i18n.format(&String::from("șoaptă în"), ), "soapta_in");
}

#[test]
fn english_format_only_canonicalizes_separators() {
    let i18n = I18n::new(String::from("en"), Vec::new());
    assert_eq!(i18n.format(&String::from("a-b c")), "a_b_c");
    assert_eq!(i18n.format(&String::from("ärger")), "ärger");
}

#[test]
fn strings_table_matches_i18n() {
    let strings = Strings::new(String::from("de"), vec![String::from("x")]);
    let i18n = I18n::new(String::from("de"), vec![String::from("x")]);
    assert_eq!(strings.start_msg, i18n.start_msg);
    assert_eq!(strings.song_not_found, i18n.song_not_found);
    assert_eq!(strings.format(&String::from("Grüß dich")), "Gruess_dich");
}

#[test]
fn display_name_strips_the_final_extension() {
    assert_eq!(display_name(&String::from("Amazing Grace.pdf")), "Amazing Grace");
    assert_eq!(display_name(&String::from("a.b.pdf")), "a.b");
    assert_eq!(display_name(&String::from("noext")), "noext");
    assert_eq!(display_name(&String::from("")), "");
}

#[test]
fn ending_slash_is_added_once() {
    assert_eq!(add_ending_slash(String::from("/lib")), "/lib/");
    assert_eq!(add_ending_slash(String::from("/lib/")), "/lib/");
    assert_eq!(add_ending_slash(String::from("")), "/");
}

#[test]
fn catalog_sorts_case_insensitively() {
    let entries = vec![
        CatalogEntry::new(String::from("zebra.pdf"), String::from("/z")),
        CatalogEntry::new(String::from("Amazing Grace.pdf"), String::from("/a")),
        CatalogEntry::new(String::from("apple.pdf"), String::from("/p")),
        CatalogEntry::new(String::from("Banana.pdf"), String::from("/b")),
    ];
    let sorted = sort_catalog(&entries);
    let names: Vec<&str> = sorted.iter().map(|e| e.display_name.as_str()).collect();
    assert_eq!(names, vec!["Amazing Grace", "apple", "Banana", "zebra"]);
}

#[test]
fn config_merge_prefers_the_command_line() {
    let mut file = Config::new();
    file.token = Some(String::from("file-token"));
    file.lang = Some(String::from("de"));
    let mut args = Config::new();
    args.token = Some(String::from("arg-token"));
    args.songs_path = Some(String::from("/songs"));
    let merged = Config::merge(file, args);
    assert_eq!(merged.token, Some(String::from("arg-token")));
    assert_eq!(merged.songs_path, Some(String::from("/songs")));
    assert_eq!(merged.lang, Some(String::from("de")));
    assert_eq!(merged.search_file, None);
    assert!(merged.is_complete());
    assert!(!Config::new().is_complete());
}
