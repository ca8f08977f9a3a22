use songbook::catalog::CatalogEntry;
use songbook::i18n::I18n;
use songbook::search::full_text_search;
use songbook::search::prepare_for_fulltext_search;
use songbook::search::title_search;

fn entry(file_name: &str, path: &str) -> CatalogEntry {
    CatalogEntry::new(String::from(file_name), String::from(path))
}

fn english() -> I18n {
    I18n::new(String::from("en"), Vec::new())
}

#[test]
fn title_search_single_prefix_match() {
    let catalog = vec![
        entry("Amazing Grace.pdf", "/lib/Amazing Grace.pdf"),
        entry("How Great.pdf", "/lib/How Great.pdf"),
    ];
    let found = title_search(&String::from("Amazing"), &catalog, &english()).unwrap();
    assert_eq!(found.len(), 1);
    assert_eq!(found[0].display_name, "Amazing Grace");
    assert_eq!(found[0].path, "/lib/Amazing Grace.pdf");
}

#[test]
fn title_search_prefix_match_takes_front_slot() {
    let catalog = vec![
        entry("Amazing Grace.pdf", "/lib/a.pdf"),
        entry("Grace Alone.pdf", "/lib/g.pdf"),
    ];
    let found = title_search(&String::from("grace"), &catalog, &english()).unwrap();
    assert_eq!(found.len(), 2);
    assert_eq!(found[0].display_name, "Grace Alone");
    assert_eq!(found[1].display_name, "Amazing Grace");
}

#[test]
fn title_search_substring_matches_keep_catalog_order() {
    let catalog = vec![
        entry("Amazing Grace.pdf", "/lib/a.pdf"),
        entry("Grace Alone.pdf", "/lib/g.pdf"),
    ];
    let found = title_search(&String::from("race"), &catalog, &english()).unwrap();
    assert_eq!(found.len(), 2);
    assert_eq!(found[0].display_name, "Amazing Grace");
    assert_eq!(found[1].display_name, "Grace Alone");
}

#[test]
fn title_search_last_scanned_prefix_match_wins_front() {
    let catalog = vec![
        entry("Graceful.pdf", "/lib/1.pdf"),
        entry("Songs of grace.pdf", "/lib/2.pdf"),
        entry("Grace Alone.pdf", "/lib/3.pdf"),
    ];
    let found = title_search(&String::from("grace"), &catalog, &english()).unwrap();
    assert_eq!(found.len(), 3);
    assert_eq!(found[0].display_name, "Grace Alone");
    assert_eq!(found[1].display_name, "Graceful");
    assert_eq!(found[2].display_name, "Songs of grace");
}

#[test]
fn title_search_is_case_insensitive() {
    let catalog = vec![entry("amazing grace.pdf", "/lib/a.pdf")];
    let found = title_search(&String::from("AMAZING"), &catalog, &english()).unwrap();
    assert_eq!(found.len(), 1);
    assert_eq!(found[0].display_name, "amazing grace");
}

#[test]
fn title_search_folds_query_through_language_table() {
    let catalog = vec![entry("Gruess_dich.pdf", "/lib/g.pdf")];
    let german = I18n::new(String::from("de"), Vec::new());
    let found = title_search(&String::from("Grüß dich"), &catalog, &german).unwrap();
    assert_eq!(found.len(), 1);
    assert_eq!(found[0].display_name, "Gruess_dich");
}

#[test]
fn title_search_reports_not_found() {
    let catalog = vec![entry("Amazing Grace.pdf", "/lib/a.pdf")];
    let err = title_search(&String::from("zzz"), &catalog, &english()).unwrap_err();
    assert_eq!(err.message, "Didn't find any song.");
}

#[test]
fn fulltext_search_separates_title_and_lyric_hits() {
    let index = String::from(
        "one:amazinggrace:somewords\ntwo:howgreat:graceinlyrics\nthree:other:nothing",
    );
    let result = full_text_search(&String::from("grace"), &index).unwrap();
    assert_eq!(result.ss_in_title, vec![String::from("one")]);
    assert_eq!(result.ss_in_lyrics, vec![String::from("two")]);
}

#[test]
fn fulltext_search_prefix_hit_takes_front_slot() {
    let index = String::from("one:othergrace:x\ntwo:gracealone:y\nthree:gracenotes:z");
    let result = full_text_search(&String::from("grace"), &index).unwrap();
    assert_eq!(
        result.ss_in_title,
        vec![String::from("three"), String::from("two"), String::from("one")]
    );
    assert!(result.ss_in_lyrics.is_empty());
}

#[test]
fn fulltext_search_skips_malformed_line() {
    let index = String::from("only two fields here\none:goodtitle:lyrics");
    let result = full_text_search(&String::from("goodtitle"), &index).unwrap();
    assert_eq!(result.ss_in_title, vec![String::from("one")]);
    assert!(result.ss_in_lyrics.is_empty());
}

#[test]
fn fulltext_search_reports_not_found() {
    let index = String::from("one:title:lyrics");
    let err = full_text_search(&String::from("zzz"), &index).unwrap_err();
    assert_eq!(err.message, "Didn't find any song.");
}

#[test]
fn prepare_strips_everything_but_letters_and_lowercases() {
    let prepared = prepare_for_fulltext_search(&String::from("Hello, World! 123"));
    assert_eq!(prepared, "helloworld");
}

#[test]
fn prepare_keeps_nothing_of_digits_and_spaces() {
    let prepared = prepare_for_fulltext_search(&String::from("1 2\t3\n"));
    assert_eq!(prepared, "");
}
