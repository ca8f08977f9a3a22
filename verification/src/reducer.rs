use vstd::prelude::*;

use crate::catalog::dup_entries;
use crate::catalog::CatalogEntry;
use crate::catalog::CatalogEntryV;
use crate::i18n::command_list_spec;
use crate::i18n::get_commands;
use crate::i18n::I18n;
use crate::i18n::I18nV;
use crate::search::ft_lyric_results;
use crate::search::ft_title_results;
use crate::search::full_text_search;
use crate::search::fulltext_query_spec;
use crate::search::title_query_spec;
use crate::search::title_search;
use crate::search::title_search_results;
use crate::text::split_at_char;
use crate::text::str_chars;
use crate::text::str_eq;
use crate::text::subvec;
use crate::text::chars_to_string;

verus! {

// One category folder of the library: its name (which doubles as a slash
// command) and the documents found under it.
#[verifier::ext_equal]
pub struct FolderV {
    pub name: Seq<char>,
    pub entries: Seq<CatalogEntryV>,
}

pub struct Folder {
    pub name: String,
    pub entries: Vec<CatalogEntry>,
}

impl View for Folder {
    type V = FolderV;

    open spec fn view(&self) -> FolderV {
        FolderV { name: self.name@, entries: self.entries.deep_view() }
    }
}

impl DeepView for Folder {
    type V = FolderV;

    open spec fn deep_view(&self) -> FolderV {
        self@
    }
}

// An outgoing message listing candidate songs, one slash command per line.
pub enum OutgoingTextMsg {
    Entries(Vec<CatalogEntry>),
    Names(Vec<String>),
}

pub open spec fn entry_names(entries: Seq<CatalogEntryV>) -> Seq<Seq<char>> {
    entries.map_values(|e: CatalogEntryV| e.display_name)
}

pub fn form_msg(songs: OutgoingTextMsg) -> (r: String)
    ensures
        (songs matches OutgoingTextMsg::Entries(v) ==> r@ == command_list_spec(
            entry_names(v.deep_view()),
        )),
        (songs matches OutgoingTextMsg::Names(v) ==> r@ == command_list_spec(v.deep_view())),
{
    match songs {
        OutgoingTextMsg::Entries(v) => {
            let mut names: Vec<String> = Vec::new();
            let mut i: usize = 0;
            while i < v.len()
                invariant
                    i <= v@.len(),
                    names.deep_view() == entry_names(v.deep_view()).take(i as int),
                decreases v@.len() - i,
            {
                let ghost prevdv = names.deep_view();
                names.push(v[i].display_name.clone());
                i = i + 1;
                proof {
                    assert(names.deep_view() =~~= prevdv.push(
                        entry_names(v.deep_view())[i as int - 1],
                    ));
                    assert(prevdv.push(entry_names(v.deep_view())[i as int - 1])
                        =~= entry_names(v.deep_view()).take(i as int));
                }
            }
            proof {
                assert(entry_names(v.deep_view()).take(v@.len() as int) =~= entry_names(
                    v.deep_view(),
                ));
            }
            get_commands(&names)
        },
        OutgoingTextMsg::Names(v) => get_commands(&v),
    }
}

// What the engine decides to send back for one inbound text.
#[verifier::ext_equal]
pub enum ActionV {
    SendText(Seq<char>),
    SendDocument(Seq<char>),
    AwaitReport(Seq<char>),
}

#[derive(Debug, PartialEq, Eq)]
pub enum Action {
    SendText(String),
    SendDocument(String),
    AwaitReport(String),
}

impl View for Action {
    type V = ActionV;

    open spec fn view(&self) -> ActionV {
        match self {
            Action::SendText(s) => ActionV::SendText(s@),
            Action::SendDocument(s) => ActionV::SendDocument(s@),
            Action::AwaitReport(s) => ActionV::AwaitReport(s@),
        }
    }
}

// The first folder whose slash command equals the inbound text, or the
// number of folders when none does.
pub open spec fn find_folder(cmd: Seq<char>, folders: Seq<FolderV>) -> int
    decreases folders.len(),
{
    if folders.len() == 0 {
        0
    } else if seq!['/'] + folders[0].name == cmd {
        0
    } else {
        1 + find_folder(cmd, folders.drop_first())
    }
}

pub proof fn lemma_find_folder(cmd: Seq<char>, folders: Seq<FolderV>)
    ensures
        0 <= find_folder(cmd, folders) <= folders.len(),
        find_folder(cmd, folders) < folders.len() ==> seq!['/'] + folders[find_folder(
            cmd,
            folders,
        )].name == cmd,
        forall|j: int|
            0 <= j < find_folder(cmd, folders) ==> seq!['/'] + (#[trigger] folders[j]).name != cmd,
    decreases folders.len(),
{
    if folders.len() == 0 || seq!['/'] + folders[0].name == cmd {
    } else {
        lemma_find_folder(cmd, folders.drop_first());
        assert forall|j: int|
            0 <= j < find_folder(cmd, folders) implies seq!['/'] + (#[trigger] folders[j]).name
            != cmd by {
            if j > 0 {
                assert(folders.drop_first()[j - 1] == folders[j]);
            }
        }
    }
}

// The whole response policy, one decision tree from the inbound text to the
// outgoing action.
pub open spec fn free_text_title_response(
    q: Seq<char>,
    catalog: Seq<CatalogEntryV>,
    i: I18nV,
) -> ActionV {
    let res = title_search_results(q, catalog);
    if res.len() == 0 {
        ActionV::SendText(i.song_not_found)
    } else if res.len() == 1 {
        ActionV::SendDocument(res[0].path)
    } else {
        ActionV::SendText(command_list_spec(entry_names(res)))
    }
}

pub open spec fn slash_title_response(
    q: Seq<char>,
    catalog: Seq<CatalogEntryV>,
    i: I18nV,
) -> ActionV {
    let res = title_search_results(q, catalog);
    if res.len() == 0 {
        ActionV::SendText(i.song_not_found)
    } else {
        ActionV::SendDocument(res[0].path)
    }
}

pub open spec fn fulltext_response(
    text: Seq<char>,
    catalog: Seq<CatalogEntryV>,
    lines: Seq<Seq<char>>,
    i: I18nV,
) -> ActionV {
    let q = fulltext_query_spec(text);
    let titles = ft_title_results(q, lines);
    let lyrics = ft_lyric_results(q, lines);
    if titles.len() + lyrics.len() == 0 {
        ActionV::SendText(i.song_not_found)
    } else if titles.len() == 1 && lyrics.len() == 0 {
        slash_title_response(title_query_spec(i.lang, titles[0]), catalog, i)
    } else if titles.len() == 0 && lyrics.len() == 1 {
        slash_title_response(title_query_spec(i.lang, lyrics[0]), catalog, i)
    } else {
        ActionV::SendText(command_list_spec(titles) + command_list_spec(lyrics))
    }
}

pub open spec fn index_view(o: Option<String>) -> Option<Seq<char>> {
    match o {
        Some(s) => Some(s@),
        None => None,
    }
}

pub open spec fn response_spec(
    text: Seq<char>,
    i: I18nV,
    catalog: Seq<CatalogEntryV>,
    folders: Seq<FolderV>,
    index: Option<Seq<char>>,
) -> ActionV {
    if text == "/start"@ {
        ActionV::SendText(i.start_msg)
    } else if text == "/list"@ {
        ActionV::SendText(command_list_spec(entry_names(catalog)))
    } else if text == "/report"@ {
        ActionV::AwaitReport(i.report.msg)
    } else if text.len() > 0 && text[0] == '/' {
        let k = find_folder(text, folders);
        if k < folders.len() {
            ActionV::SendText(command_list_spec(entry_names(folders[k].entries)))
        } else {
            slash_title_response(title_query_spec(i.lang, text.skip(1)), catalog, i)
        }
    } else {
        match index {
            Some(content) => fulltext_response(text, catalog, split_at_char(content, '\n'), i),
            None => free_text_title_response(title_query_spec(i.lang, text), catalog, i),
        }
    }
}

// Everything the engine may consult while resolving one query: the flat
// catalog, the category folders with their contents, and the content of the
// full-text index file when one is configured and readable.
pub struct QueryContext {
    pub catalog: Vec<CatalogEntry>,
    pub folders: Vec<Folder>,
    pub index_content: Option<String>,
}

#[verifier::loop_isolation(false)]
pub fn handle_text_message(text: &String, i18n: &I18n, ctx: &QueryContext) -> (r: Action)
    ensures
        r@ == response_spec(
            text@,
            i18n@,
            ctx.catalog.deep_view(),
            ctx.folders.deep_view(),
            index_view(ctx.index_content),
        ),
{
    if str_eq(text.as_str(), "/start") {
        return Action::SendText(i18n.start_msg.clone());
    }
    if str_eq(text.as_str(), "/list") {
        return Action::SendText(form_msg(OutgoingTextMsg::Entries(dup_entries(&ctx.catalog))));
    }
    if str_eq(text.as_str(), "/report") {
        return Action::AwaitReport(i18n.report.msg.clone());
    }
    let tc = str_chars(text.as_str());
    if tc.len() > 0 && tc[0] == '/' {
        let ghost fdv = ctx.folders.deep_view();
        proof {
            lemma_find_folder(text@, fdv);
        }
        let mut k: usize = 0;
        while k < ctx.folders.len()
            invariant
                k <= ctx.folders@.len(),
                fdv == ctx.folders.deep_view(),
                fdv.len() == ctx.folders@.len(),
                tc@ == text@,
                forall|j: int| 0 <= j < k ==> seq!['/'] + (#[trigger] fdv[j]).name != text@,
                0 <= find_folder(text@, fdv) <= fdv.len(),
                find_folder(text@, fdv) < fdv.len() ==> seq!['/'] + fdv[find_folder(
                    text@,
                    fdv,
                )].name == text@,
                forall|j: int|
                    0 <= j < find_folder(text@, fdv) ==> seq!['/'] + (#[trigger] fdv[j]).name
                        != text@,
            decreases ctx.folders@.len() - k,
        {
            let mut cmd = String::from_str("/");
            cmd.append(ctx.folders[k].name.as_str());
            proof {
                reveal_strlit("/");
                assert(cmd@ =~= seq!['/'] + fdv[k as int].name);
            }
            if str_eq(text.as_str(), cmd.as_str()) {
                proof {
                    assert(find_folder(text@, fdv) == k);
                }
                let listing = form_msg(
                    OutgoingTextMsg::Entries(dup_entries(&ctx.folders[k].entries)),
                );
                proof {
                    assert(listing@ == command_list_spec(entry_names(fdv[k as int].entries)));
                }
                return Action::SendText(listing);
            }
            k = k + 1;
        }
        proof {
            assert(find_folder(text@, fdv) == fdv.len());
        }
        let qvec = subvec(&tc, 1, tc.len());
        let query = chars_to_string(&qvec);
        proof {
            assert(query@ =~= text@.skip(1));
        }
        match title_search(&query, &ctx.catalog, i18n) {
            Ok(files) => {
                return Action::SendDocument(files[0].path.clone());
            },
            Err(_err) => {
                return Action::SendText(i18n.song_not_found.clone());
            },
        }
    }
    match &ctx.index_content {
        Some(content) => {
            match full_text_search(text, content) {
                Err(_err) => Action::SendText(i18n.song_not_found.clone()),
                Ok(sr) => {
                    if sr.ss_in_title.len() == 1 && sr.ss_in_lyrics.len() == 0 {
                        resolve_single_hit(&sr.ss_in_title[0], i18n, ctx)
                    } else if sr.ss_in_title.len() == 0 && sr.ss_in_lyrics.len() == 1 {
                        resolve_single_hit(&sr.ss_in_lyrics[0], i18n, ctx)
                    } else {
                        let mut m = form_msg(OutgoingTextMsg::Names(sr.ss_in_title));
                        let m2 = form_msg(OutgoingTextMsg::Names(sr.ss_in_lyrics));
                        m.append(m2.as_str());
                        Action::SendText(m)
                    }
                },
            }
        },
        None => {
            match title_search(text, &ctx.catalog, i18n) {
                Err(_err) => Action::SendText(i18n.song_not_found.clone()),
                Ok(files) => {
                    if files.len() == 1 {
                        Action::SendDocument(files[0].path.clone())
                    } else {
                        Action::SendText(form_msg(OutgoingTextMsg::Entries(files)))
                    }
                },
            }
        },
    }
}

/// A full-text search that narrows to exactly one identifier — one title hit
/// and no lyric hits — is answered exactly as a direct title query for that
/// identifier would be, provided the identifier is plain query text (neither
/// a command nor a slash invocation) and resolves to at most one entry.
pub proof fn lemma_fulltext_auto_resolution(
    text: Seq<char>,
    id: Seq<char>,
    i: I18nV,
    catalog: Seq<CatalogEntryV>,
    folders: Seq<FolderV>,
    index: Seq<char>,
)
    requires
        text != "/start"@ && text != "/list"@ && text != "/report"@,
        text.len() == 0 || text[0] != '/',
        ft_title_results(fulltext_query_spec(text), split_at_char(index, '\n')) == seq![id],
        ft_lyric_results(fulltext_query_spec(text), split_at_char(index, '\n')).len() == 0,
        id != "/start"@ && id != "/list"@ && id != "/report"@,
        id.len() == 0 || id[0] != '/',
        title_search_results(title_query_spec(i.lang, id), catalog).len() <= 1,
    ensures
        response_spec(text, i, catalog, folders, Some(index)) == response_spec(
            id,
            i,
            catalog,
            folders,
            None,
        ),
{
    let lines = split_at_char(index, '\n');
    let titles = ft_title_results(fulltext_query_spec(text), lines);
    assert(titles[0] == id);
}

// The auto-resolution of a full-text search that narrowed to one identifier:
// that identifier becomes a title query, whose front hit is sent directly.
fn resolve_single_hit(id: &String, i18n: &I18n, ctx: &QueryContext) -> (r: Action)
    ensures
        r@ == slash_title_response(
            title_query_spec(i18n@.lang, id@),
            ctx.catalog.deep_view(),
            i18n@,
        ),
{
    match title_search(id, &ctx.catalog, i18n) {
        Ok(files) => Action::SendDocument(files[0].path.clone()),
        Err(_err) => Action::SendText(i18n.song_not_found.clone()),
    }
}

} // verus!
