use songbook::catalog::CatalogEntry;
use songbook::i18n::I18n;
use songbook::reducer::form_msg;
use songbook::reducer::handle_text_message;
use songbook::reducer::Action;
use songbook::reducer::Folder;
use songbook::reducer::OutgoingTextMsg;
use songbook::reducer::QueryContext;

fn entry(file_name: &str, path: &str) -> CatalogEntry {
    CatalogEntry::new(String::from(file_name), String::from(path))
}

fn english() -> I18n {
    I18n::new(String::from("en"), vec![String::from("hymns")])
}

fn library() -> QueryContext {
    QueryContext {
        catalog: vec![
            entry("Amazing Grace.pdf", "/lib/hymns/Amazing Grace.pdf"),
            entry("How Great.pdf", "/lib/hymns/How Great.pdf"),
        ],
        folders: vec![Folder {
            name: String::from("hymns"),
            entries: vec![
                entry("Amazing Grace.pdf", "/lib/hymns/Amazing Grace.pdf"),
                entry("How Great.pdf", "/lib/hymns/How Great.pdf"),
            ],
        }],
        index_content: None,
    }
}

#[test]
fn form_msg_renders_names_as_commands() {
    let msg = form_msg(OutgoingTextMsg::Names(vec![String::from("a"), String::from("b")]));
    assert_eq!(msg, "/a\n/b\n");
}

#[test]
fn form_msg_renders_entries_by_display_name() {
    let msg = form_msg(OutgoingTextMsg::Entries(vec![
        entry("Amazing Grace.pdf", "/lib/a.pdf"),
        entry("How Great.pdf", "/lib/h.pdf"),
    ]));
    assert_eq!(msg, "/Amazing Grace\n/How Great\n");
}

#[test]
fn start_command_sends_the_start_message() {
    let i18n = english();
    let action = handle_text_message(&String::from("/start"), &i18n, &library());
    assert_eq!(action, Action::SendText(i18n.start_msg.clone()));
}

#[test]
fn list_command_lists_the_whole_catalog() {
    let action = handle_text_message(&String::from("/list"), &english(), &library());
    assert_eq!(
        action,
        Action::SendText(String::from("/Amazing Grace\n/How Great\n"))
    );
}

#[test]
fn report_command_asks_for_the_report() {
    let i18n = english();
    let action = handle_text_message(&String::from("/report"), &i18n, &library());
    assert_eq!(action, Action::AwaitReport(i18n.report.msg.clone()));
}

#[test]
fn folder_command_lists_that_folder() {
    let action = handle_text_message(&String::from("/hymns"), &english(), &library());
    assert_eq!(
        action,
        Action::SendText(String::from("/Amazing Grace\n/How Great\n"))
    );
}

#[test]
fn slash_song_command_sends_the_document() {
    let action = handle_text_message(&String::from("/amazing"), &english(), &library());
    assert_eq!(
        action,
        Action::SendDocument(String::from("/lib/hymns/Amazing Grace.pdf"))
    );
}

#[test]
fn slash_command_without_match_reports_not_found() {
    let i18n = english();
    let action = handle_text_message(&String::from("/zzz"), &i18n, &library());
    assert_eq!(action, Action::SendText(i18n.song_not_found.clone()));
}

#[test]
fn single_title_match_sends_the_document_directly() {
    let action = handle_text_message(&String::from("Amazing"), &english(), &library());
    assert_eq!(
        action,
        Action::SendDocument(String::from("/lib/hymns/Amazing Grace.pdf"))
    );
}

#[test]
fn single_substring_match_also_sends_the_document() {
    let action = handle_text_message(&String::from("grea"), &english(), &library());
    assert_eq!(
        action,
        Action::SendDocument(String::from("/lib/hymns/How Great.pdf"))
    );
}

#[test]
fn several_title_matches_send_a_disambiguation_list() {
    let action = handle_text_message(&String::from("a"), &english(), &library());
    assert_eq!(
        action,
        Action::SendText(String::from("/Amazing Grace\n/How Great\n"))
    );
}

#[test]
fn free_text_without_match_reports_not_found() {
    let i18n = english();
    let action = handle_text_message(&String::from("zzz"), &i18n, &library());
    assert_eq!(action, Action::SendText(i18n.song_not_found.clone()));
}

#[test]
fn fulltext_single_hit_auto_resolves_to_the_document() {
    let mut ctx = library();
    ctx.catalog.push(entry("songone.pdf", "/lib/songone.pdf"));
    ctx.index_content = Some(String::from(
        "songone:amazingword:lyricshere\nother:unrelated:none",
    ));
    let by_fulltext = handle_text_message(&String::from("amazingword"), &english(), &ctx);
    assert_eq!(
        by_fulltext,
        Action::SendDocument(String::from("/lib/songone.pdf"))
    );
    let mut title_ctx = library();
    title_ctx.catalog.push(entry("songone.pdf", "/lib/songone.pdf"));
    let directly = handle_text_message(&String::from("songone"), &english(), &title_ctx);
    assert_eq!(by_fulltext, directly);
}

#[test]
fn fulltext_several_hits_send_both_sections() {
    let mut ctx = library();
    ctx.index_content = Some(String::from(
        "one:gracetitle:x\ntwo:other:gracelyrics\nthree:nothing:here",
    ));
    let action = handle_text_message(&String::from("grace"), &english(), &ctx);
    assert_eq!(action, Action::SendText(String::from("/one\n/two\n")));
}

#[test]
fn fulltext_no_hits_reports_not_found() {
    let i18n = english();
    let mut ctx = library();
    ctx.index_content = Some(String::from("one:title:lyrics"));
    let action = handle_text_message(&String::from("zzz"), &i18n, &ctx);
    assert_eq!(action, Action::SendText(i18n.song_not_found.clone()));
}
