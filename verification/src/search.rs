use vstd::prelude::*;

use crate::catalog::CatalogEntry;
use crate::catalog::CatalogEntryV;
use crate::i18n::format_spec;
use crate::i18n::I18n;
use crate::text::alphabetic;
use crate::text::chars_to_string;
use crate::text::clone_chars;
use crate::text::contains_chars;
use crate::text::contains_seq;
use crate::text::is_prefix_of;
use crate::text::lemma_filter_push;
use crate::text::lower_of;
use crate::text::is_alphabetic_char;
use crate::text::split_at_char;
use crate::text::split_chars;
use crate::text::starts_with_chars;
use crate::text::str_chars;
use crate::text::to_lowercase;

verus! {

/// The error reported when no catalog or index entry matched a query.
#[derive(Debug)]
pub struct SongNotFound {
    pub message: String,
}

// A title query is folded by the language table and then lower-cased before
// it is compared against the (equally lower-cased) display names.
pub open spec fn title_query_spec(lang: Seq<char>, query: Seq<char>) -> Seq<char> {
    lower_of(format_spec(lang, query))
}

pub open spec fn title_prefix_match(q: Seq<char>, e: CatalogEntryV) -> bool {
    is_prefix_of(q, lower_of(e.display_name))
}

pub open spec fn title_substring_match(q: Seq<char>, e: CatalogEntryV) -> bool {
    !title_prefix_match(q, e) && contains_seq(lower_of(e.display_name), q)
}

pub open spec fn prefix_hits(q: Seq<char>, catalog: Seq<CatalogEntryV>) -> Seq<CatalogEntryV> {
    catalog.filter(|e: CatalogEntryV| title_prefix_match(q, e))
}

pub open spec fn substring_hits(q: Seq<char>, catalog: Seq<CatalogEntryV>) -> Seq<CatalogEntryV> {
    catalog.filter(|e: CatalogEntryV| title_substring_match(q, e))
}

/// Every prefix match, most recently scanned first, followed by every
/// substring-only match in catalog order.
pub open spec fn title_search_results(q: Seq<char>, catalog: Seq<CatalogEntryV>) -> Seq<
    CatalogEntryV,
> {
    prefix_hits(q, catalog).reverse() + substring_hits(q, catalog)
}

pub fn title_search(query: &String, catalog: &Vec<CatalogEntry>, i18n: &I18n) -> (r: Result<
    Vec<CatalogEntry>,
    SongNotFound,
>)
    ensures
        ({
            let res = title_search_results(
                title_query_spec(i18n.lang@, query@),
                catalog.deep_view(),
            );
            match r {
                Ok(v) => res.len() > 0 && v.deep_view() == res,
                Err(e) => res.len() == 0 && e.message@ == "Didn't find any song."@,
            }
        }),
{
    let formatted = i18n.format(query);
    let lowered = to_lowercase(formatted.as_str());
    let q = str_chars(lowered.as_str());
    let ghost qs = title_query_spec(i18n.lang@, query@);
    let ghost cdv = catalog.deep_view();
    let mut result: Vec<CatalogEntry> = Vec::new();
    let mut i: usize = 0;
    while i < catalog.len()
        invariant
            i <= catalog@.len(),
            q@ == qs,
            cdv == catalog.deep_view(),
            cdv.len() == catalog@.len(),
            result.deep_view() == title_search_results(qs, cdv.take(i as int)),
        decreases catalog@.len() - i,
    {
        let name_lower = to_lowercase(catalog[i].display_name.as_str());
        let name = str_chars(name_lower.as_str());
        let ghost prevdv = result.deep_view();
        proof {
            lemma_filter_push(
                cdv.take(i as int),
                cdv[i as int],
                |e: CatalogEntryV| title_prefix_match(qs, e),
            );
            lemma_filter_push(
                cdv.take(i as int),
                cdv[i as int],
                |e: CatalogEntryV| title_substring_match(qs, e),
            );
            assert(cdv.take(i as int).push(cdv[i as int]) =~= cdv.take(i as int + 1));
        }
        if starts_with_chars(&name, &q) {
            result.insert(0, catalog[i].duplicate());
            proof {
                assert(title_prefix_match(qs, cdv[i as int]));
                assert(prefix_hits(qs, cdv.take(i as int + 1)) == prefix_hits(
                    qs,
                    cdv.take(i as int),
                ).push(cdv[i as int]));
                assert(prefix_hits(qs, cdv.take(i as int + 1)).reverse() =~= seq![
                    cdv[i as int],
                ] + prefix_hits(qs, cdv.take(i as int)).reverse());
                assert(result.deep_view() =~~= seq![cdv[i as int]] + prevdv);
                assert(seq![cdv[i as int]] + prevdv =~= title_search_results(
                    qs,
                    cdv.take(i as int + 1),
                ));
                assert(result.deep_view() =~~= title_search_results(qs, cdv.take(i as int + 1)));
            }
        } else if contains_chars(&name, &q) {
            result.push(catalog[i].duplicate());
            proof {
                assert(title_substring_match(qs, cdv[i as int]));
                assert(substring_hits(qs, cdv.take(i as int + 1)) == substring_hits(
                    qs,
                    cdv.take(i as int),
                ).push(cdv[i as int]));
                assert(prefix_hits(qs, cdv.take(i as int + 1)) == prefix_hits(
                    qs,
                    cdv.take(i as int),
                ));
                assert(result.deep_view() =~~= prevdv.push(cdv[i as int]));
                assert(prevdv.push(cdv[i as int]) =~= title_search_results(
                    qs,
                    cdv.take(i as int + 1),
                ));
                assert(result.deep_view() =~~= title_search_results(qs, cdv.take(i as int + 1)));
            }
        } else {
            proof {
                assert(!title_substring_match(qs, cdv[i as int]));
                assert(!title_prefix_match(qs, cdv[i as int]));
                assert(result.deep_view() =~~= title_search_results(qs, cdv.take(i as int + 1)));
            }
        }
        i = i + 1;
    }
    proof {
        assert(cdv.take(catalog@.len() as int) =~= cdv);
    }
    if result.len() > 0 {
        Ok(result)
    } else {
        Err(SongNotFound { message: String::from_str("Didn't find any song.") })
    }
}

/// Whenever any catalog entry prefix-matches the query, the front slot of
/// the title search results belongs to a prefix match — the one scanned
/// last — and every substring-only match comes after it.
pub proof fn lemma_prefix_match_first(q: Seq<char>, catalog: Seq<CatalogEntryV>)
    requires
        prefix_hits(q, catalog).len() > 0,
    ensures
        title_search_results(q, catalog).len() > 0,
        title_search_results(q, catalog)[0] == prefix_hits(q, catalog).last(),
        title_prefix_match(q, title_search_results(q, catalog)[0]),
{
    let ph = prefix_hits(q, catalog);
    assert(ph.reverse()[0] == ph[ph.len() - 1]);
    catalog.lemma_filter_pred(|e: CatalogEntryV| title_prefix_match(q, e), ph.len() - 1);
    assert(title_search_results(q, catalog)[0] == ph.reverse()[0]);
}

// The full-text index assumes its title and lyrics fields were normalized
// when the index was built, so the query alone is stripped of everything
// that is not alphabetic and then lower-cased.
pub open spec fn fulltext_query_spec(query: Seq<char>) -> Seq<char> {
    lower_of(query.filter(|c: char| alphabetic(c)))
}

pub fn prepare_for_fulltext_search(query: &String) -> (r: String)
    ensures
        r@ == fulltext_query_spec(query@),
{
    let cs = str_chars(query.as_str());
    let mut kept: Vec<char> = Vec::new();
    let mut i: usize = 0;
    proof {
        reveal(Seq::filter);
        assert(cs@.take(0).filter(|c: char| alphabetic(c)) =~= Seq::<char>::empty());
    }
    while i < cs.len()
        invariant
            i <= cs@.len(),
            cs@ == query@,
            kept@ == cs@.take(i as int).filter(|c: char| alphabetic(c)),
        decreases cs@.len() - i,
    {
        proof {
            lemma_filter_push(cs@.take(i as int), cs@[i as int], |c: char| alphabetic(c));
            assert(cs@.take(i as int).push(cs@[i as int]) =~= cs@.take(i as int + 1));
        }
        let c = cs[i];
        if is_alphabetic_char(c) {
            kept.push(c);
        }
        i = i + 1;
    }
    proof {
        assert(cs@.take(cs@.len() as int) =~= cs@);
    }
    let joined = chars_to_string(&kept);
    to_lowercase(joined.as_str())
}

// One line of the search index: identifier, title and lyrics, separated by
// colons.  A line with fewer than three fields is malformed and is skipped.
#[verifier::ext_equal]
pub struct IndexLineV {
    pub id: Seq<char>,
    pub title: Seq<char>,
    pub lyrics: Seq<char>,
}

pub open spec fn parse_index_line(line: Seq<char>) -> Option<IndexLineV> {
    let fields = split_at_char(line, ':');
    if fields.len() < 3 {
        None
    } else {
        Some(IndexLineV { id: fields[0], title: fields[1], lyrics: fields[2] })
    }
}

#[verifier::ext_equal]
pub struct FtHitsV {
    pub title_prefix: Seq<Seq<char>>,
    pub title_sub: Seq<Seq<char>>,
    pub lyric: Seq<Seq<char>>,
}

/// One pass over the index lines, in file order: a title prefix match is
/// collected apart from the other title matches, a title match shadows the
/// lyrics, and a malformed line has no effect.
pub open spec fn ft_scan(q: Seq<char>, lines: Seq<Seq<char>>) -> FtHitsV
    decreases lines.len(),
{
    if lines.len() == 0 {
        FtHitsV { title_prefix: Seq::empty(), title_sub: Seq::empty(), lyric: Seq::empty() }
    } else {
        let acc = ft_scan(q, lines.drop_last());
        match parse_index_line(lines.last()) {
            Option::None => acc,
            Option::Some(l) => {
                if is_prefix_of(q, l.title) {
                    FtHitsV {
                        title_prefix: acc.title_prefix.push(l.id),
                        title_sub: acc.title_sub,
                        lyric: acc.lyric,
                    }
                } else if contains_seq(l.title, q) {
                    FtHitsV {
                        title_prefix: acc.title_prefix,
                        title_sub: acc.title_sub.push(l.id),
                        lyric: acc.lyric,
                    }
                } else if contains_seq(l.lyrics, q) {
                    FtHitsV {
                        title_prefix: acc.title_prefix,
                        title_sub: acc.title_sub,
                        lyric: acc.lyric.push(l.id),
                    }
                } else {
                    acc
                }
            },
        }
    }
}

/// The identifiers whose title matched, most recent prefix match first.
pub open spec fn ft_title_results(q: Seq<char>, lines: Seq<Seq<char>>) -> Seq<Seq<char>> {
    ft_scan(q, lines).title_prefix.reverse() + ft_scan(q, lines).title_sub
}

/// The identifiers whose lyrics (and not title) matched, in file order.
pub open spec fn ft_lyric_results(q: Seq<char>, lines: Seq<Seq<char>>) -> Seq<Seq<char>> {
    ft_scan(q, lines).lyric
}

/// The same front-slot policy holds of the full-text engine: whenever some
/// index line prefix-matched the query by title, the first title hit is the
/// identifier of the prefix-matching line scanned last.
pub proof fn lemma_ft_prefix_match_first(q: Seq<char>, lines: Seq<Seq<char>>)
    requires
        ft_scan(q, lines).title_prefix.len() > 0,
    ensures
        ft_title_results(q, lines).len() > 0,
        ft_title_results(q, lines)[0] == ft_scan(q, lines).title_prefix.last(),
{
    let ph = ft_scan(q, lines).title_prefix;
    assert(ph.reverse()[0] == ph[ph.len() - 1]);
    assert(ft_title_results(q, lines)[0] == ph.reverse()[0]);
}

#[derive(Debug)]
pub struct SearchResult {
    pub ss_in_title: Vec<String>,
    pub ss_in_lyrics: Vec<String>,
}

pub fn full_text_search(query: &String, index_content: &String) -> (r: Result<
    SearchResult,
    SongNotFound,
>)
    ensures
        ({
            let q = fulltext_query_spec(query@);
            let lines = split_at_char(index_content@, '\n');
            match r {
                Ok(sr) => ft_title_results(q, lines).len() + ft_lyric_results(q, lines).len() > 0
                    && sr.ss_in_title.deep_view() == ft_title_results(q, lines)
                    && sr.ss_in_lyrics.deep_view() == ft_lyric_results(q, lines),
                Err(e) => ft_title_results(q, lines).len() + ft_lyric_results(q, lines).len() == 0
                    && e.message@ == "Didn't find any song."@,
            }
        }),
{
    let prepared = prepare_for_fulltext_search(query);
    let qc = str_chars(prepared.as_str());
    let content = str_chars(index_content.as_str());
    let lines = split_chars(content, '\n');
    let ghost ldv = lines.deep_view();
    let ghost qs = fulltext_query_spec(query@);
    let mut ss_in_title: Vec<String> = Vec::new();
    let mut ss_in_lyrics: Vec<String> = Vec::new();
    let mut i: usize = 0;
    while i < lines.len()
        invariant
            i <= lines@.len(),
            qc@ == qs,
            ldv == lines.deep_view(),
            ldv == split_at_char(index_content@, '\n'),
            ldv.len() == lines@.len(),
            ss_in_title.deep_view() == ft_scan(qs, ldv.take(i as int)).title_prefix.reverse()
                + ft_scan(qs, ldv.take(i as int)).title_sub,
            ss_in_lyrics.deep_view() == ft_scan(qs, ldv.take(i as int)).lyric,
        decreases lines@.len() - i,
    {
        let line = clone_chars(&lines[i]);
        let fields = split_chars(line, ':');
        let ghost acc0 = ft_scan(qs, ldv.take(i as int));
        let ghost acc1 = ft_scan(qs, ldv.take(i as int + 1));
        let ghost prevt = ss_in_title.deep_view();
        let ghost prevl = ss_in_lyrics.deep_view();
        proof {
            assert(ldv.take(i as int + 1).drop_last() =~= ldv.take(i as int));
            assert(lines@[i as int].deep_view() =~= lines@[i as int]@);
            assert(ldv[i as int] == lines@[i as int].deep_view());
            assert(fields.deep_view() == split_at_char(ldv[i as int], ':'));
        }
        if fields.len() >= 3 {
            let ghost lid = split_at_char(ldv[i as int], ':')[0];
            proof {
                assert(ldv.take(i as int + 1).last() == ldv[i as int]);
                assert(fields@[0].deep_view() =~= fields@[0]@);
                assert(fields@[1].deep_view() =~= fields@[1]@);
                assert(fields@[2].deep_view() =~= fields@[2]@);
                assert(fields@[0]@ == lid);
                assert(fields@[1]@ == split_at_char(ldv[i as int], ':')[1]);
                assert(fields@[2]@ == split_at_char(ldv[i as int], ':')[2]);
                assert(parse_index_line(ldv[i as int]) == Some(
                    IndexLineV { id: fields@[0]@, title: fields@[1]@, lyrics: fields@[2]@ },
                ));
            }
            if starts_with_chars(&fields[1], &qc) {
                ss_in_title.insert(0, chars_to_string(&fields[0]));
                proof {
                    assert(acc1.title_prefix == acc0.title_prefix.push(lid));
                    assert(acc1.title_prefix.reverse() =~= seq![lid]
                        + acc0.title_prefix.reverse());
                    assert(ss_in_title.deep_view() =~~= seq![lid] + prevt);
                    assert(seq![lid] + prevt =~= acc1.title_prefix.reverse() + acc1.title_sub);
                }
            } else if contains_chars(&fields[1], &qc) {
                ss_in_title.push(chars_to_string(&fields[0]));
                proof {
                    assert(acc1.title_sub == acc0.title_sub.push(lid));
                    assert(ss_in_title.deep_view() =~~= prevt.push(lid));
                    assert(prevt.push(lid) =~= acc1.title_prefix.reverse() + acc1.title_sub);
                }
            } else if contains_chars(&fields[2], &qc) {
                ss_in_lyrics.push(chars_to_string(&fields[0]));
                proof {
                    assert(acc1.lyric == acc0.lyric.push(lid));
                    assert(ss_in_lyrics.deep_view() =~~= prevl.push(lid));
                }
            } else {
                proof {
                    assert(acc1 == acc0);
                }
            }
        } else {
            proof {
                assert(parse_index_line(ldv[i as int]) is None);
                assert(acc1 == acc0);
            }
        }
        i = i + 1;
    }
    proof {
        assert(ldv.take(ldv.len() as int) =~= ldv);
    }
    if ss_in_title.len() == 0 && ss_in_lyrics.len() == 0 {
        Err(SongNotFound { message: String::from_str("Didn't find any song.") })
    } else {
        Ok(SearchResult { ss_in_title, ss_in_lyrics })
    }
}

} // verus!
