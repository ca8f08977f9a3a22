use vstd::prelude::*;

use crate::text::chars_to_string;
use crate::text::lower_of;
use crate::text::str_chars;
use crate::text::subvec;
use crate::text::to_lowercase;

verus! {

broadcast use vstd::seq_lib::group_to_multiset_ensures;

// One searchable document of the library: the name shown to (and typed by)
// users, and the path of the file behind it.
#[verifier::ext_equal]
pub struct CatalogEntryV {
    pub display_name: Seq<char>,
    pub path: Seq<char>,
}

#[derive(Debug)]
pub struct CatalogEntry {
    pub display_name: String,
    pub path: String,
}

impl View for CatalogEntry {
    type V = CatalogEntryV;

    open spec fn view(&self) -> CatalogEntryV {
        CatalogEntryV { display_name: self.display_name@, path: self.path@ }
    }
}

impl DeepView for CatalogEntry {
    type V = CatalogEntryV;

    open spec fn deep_view(&self) -> CatalogEntryV {
        self@
    }
}

// The last position of a character at or before a given position, or -1 when
// there is none.
pub open spec fn last_index_upto(s: Seq<char>, c: char, i: int) -> int
    decreases i + 1,
{
    if i < 0 {
        -1
    } else if s[i] == c {
        i
    } else {
        last_index_upto(s, c, i - 1)
    }
}

pub proof fn lemma_last_index_upto(s: Seq<char>, c: char, i: int)
    requires
        -1 <= i < s.len(),
    ensures
        -1 <= last_index_upto(s, c, i) <= i,
        last_index_upto(s, c, i) >= 0 ==> s[last_index_upto(s, c, i)] == c,
        forall|j: int| last_index_upto(s, c, i) < j <= i ==> s[j] != c,
    decreases i + 1,
{
    if i < 0 || s[i] == c {
    } else {
        lemma_last_index_upto(s, c, i - 1);
    }
}

/// The largest index no greater than `from` holding `c`, or nothing.
pub fn rfind_char_upto(s: &Vec<char>, c: char, from: usize) -> (r: Option<usize>)
    requires
        from < s@.len(),
    ensures
        r matches Some(j) ==> j as int == last_index_upto(s@, c, from as int),
        r is None ==> last_index_upto(s@, c, from as int) == -1,
{
    proof {
        lemma_last_index_upto(s@, c, from as int);
    }
    let mut i: usize = from;
    loop
        invariant
            i <= from < s@.len(),
            forall|j: int| i < j <= from ==> s@[j] != c,
            -1 <= last_index_upto(s@, c, from as int) <= from as int,
            last_index_upto(s@, c, from as int) >= 0 ==> s@[last_index_upto(
                s@,
                c,
                from as int,
            )] == c,
            forall|j: int| last_index_upto(s@, c, from as int) < j <= from as int ==> s@[j] != c,
        decreases i,
    {
        if s[i] == c {
            return Some(i);
        }
        if i == 0 {
            return None;
        }
        i = i - 1;
    }
}

// The display name of a file: the file name with its final extension segment
// stripped; a name without a dot is kept whole.
pub open spec fn display_name_spec(file_name: Seq<char>) -> Seq<char> {
    let d = last_index_upto(file_name, '.', file_name.len() - 1);
    if d < 0 {
        file_name
    } else {
        file_name.take(d)
    }
}

pub fn display_name(file_name: &String) -> (r: String)
    ensures
        r@ == display_name_spec(file_name@),
{
    let cs = str_chars(file_name.as_str());
    if cs.len() == 0 {
        let r = String::new();
        proof {
            assert(r@ =~= display_name_spec(file_name@));
        }
        return r;
    }
    proof {
        lemma_last_index_upto(cs@, '.', cs@.len() - 1);
    }
    match rfind_char_upto(&cs, '.', cs.len() - 1) {
        Some(d) => {
            let head = subvec(&cs, 0, d);
            proof {
                assert(head@ =~= file_name@.take(d as int));
            }
            chars_to_string(&head)
        },
        None => {
            let r = file_name.clone();
            r
        },
    }
}

impl CatalogEntry {
    pub fn new(file_name: String, path: String) -> (r: Self)
        ensures
            r@.display_name == display_name_spec(file_name@),
            r@.path == path@,
    {
        CatalogEntry { display_name: display_name(&file_name), path }
    }

    /// A fresh entry equal to this one.
    pub fn duplicate(&self) -> (r: Self)
        ensures
            r@ == self@,
    {
        CatalogEntry { display_name: self.display_name.clone(), path: self.path.clone() }
    }
}

// The catalog order: code-point order of the lower-cased display names.
pub open spec fn lex_le(a: Seq<char>, b: Seq<char>) -> bool
    decreases a.len(),
{
    if a.len() == 0 {
        true
    } else if b.len() == 0 {
        false
    } else if (a[0] as u32) < (b[0] as u32) {
        true
    } else if (a[0] as u32) > (b[0] as u32) {
        false
    } else {
        lex_le(a.drop_first(), b.drop_first())
    }
}

pub proof fn lemma_lex_le_total(a: Seq<char>, b: Seq<char>)
    ensures
        lex_le(a, b) || lex_le(b, a),
    decreases a.len(),
{
    if a.len() == 0 || b.len() == 0 {
    } else if a[0] as u32 == b[0] as u32 {
        lemma_lex_le_total(a.drop_first(), b.drop_first());
    }
}

pub proof fn lemma_lex_le_trans(a: Seq<char>, b: Seq<char>, c: Seq<char>)
    requires
        lex_le(a, b),
        lex_le(b, c),
    ensures
        lex_le(a, c),
    decreases a.len(),
{
    if a.len() == 0 {
    } else {
        if (a[0] as u32) < (c[0] as u32) {
        } else {
            lemma_lex_le_trans(a.drop_first(), b.drop_first(), c.drop_first());
        }
    }
}

pub open spec fn catalog_le(a: CatalogEntryV, b: CatalogEntryV) -> bool {
    lex_le(lower_of(a.display_name), lower_of(b.display_name))
}

pub open spec fn sorted_catalog(s: Seq<CatalogEntryV>) -> bool {
    forall|i: int, j: int| 0 <= i < j < s.len() ==> catalog_le(#[trigger] s[i], #[trigger] s[j])
}

#[verifier::loop_isolation(false)]
pub fn lex_le_chars(a: &Vec<char>, b: &Vec<char>) -> (r: bool)
    ensures
        r == lex_le(a@, b@),
{
    proof {
        assert(a@.skip(0) =~= a@);
        assert(b@.skip(0) =~= b@);
    }
    let mut i: usize = 0;
    while i < a.len() && i < b.len()
        invariant
            i <= a@.len(),
            i <= b@.len(),
            lex_le(a@, b@) == lex_le(a@.skip(i as int), b@.skip(i as int)),
        decreases a@.len() - i,
    {
        proof {
            assert(a@.skip(i as int)[0] == a@[i as int]);
            assert(b@.skip(i as int)[0] == b@[i as int]);
        }
        if (a[i] as u32) < (b[i] as u32) {
            return true;
        }
        if (a[i] as u32) > (b[i] as u32) {
            return false;
        }
        i = i + 1;
        proof {
            assert(a@.skip(i as int - 1).drop_first() =~= a@.skip(i as int));
            assert(b@.skip(i as int - 1).drop_first() =~= b@.skip(i as int));
        }
    }
    i == a.len()
}

fn catalog_le_exec(a: &CatalogEntry, b: &CatalogEntry) -> (r: bool)
    ensures
        r == catalog_le(a@, b@),
{
    let la = to_lowercase(a.display_name.as_str());
    let lb = to_lowercase(b.display_name.as_str());
    let ca = str_chars(la.as_str());
    let cb = str_chars(lb.as_str());
    lex_le_chars(&ca, &cb)
}

fn find_insert_pos(result: &Vec<CatalogEntry>, x: &CatalogEntry) -> (pos: usize)
    ensures
        pos <= result@.len(),
        forall|j: int| 0 <= j < pos ==> catalog_le(result.deep_view()[j], x@),
        pos < result@.len() ==> !catalog_le(result.deep_view()[pos as int], x@),
{
    let mut pos: usize = 0;
    while pos < result.len()
        invariant
            pos <= result@.len(),
            forall|j: int| 0 <= j < pos ==> catalog_le(result.deep_view()[j], x@),
        decreases result@.len() - pos,
    {
        if !catalog_le_exec(&result[pos], x) {
            return pos;
        }
        pos = pos + 1;
    }
    pos
}

/// The catalog as the scanner hands it out: the same entries, ascending by
/// case-insensitive display name.
#[verifier::loop_isolation(false)]
pub fn sort_catalog(entries: &Vec<CatalogEntry>) -> (r: Vec<CatalogEntry>)
    ensures
        r.deep_view().to_multiset() == entries.deep_view().to_multiset(),
        sorted_catalog(r.deep_view()),
{
    let ghost edv = entries.deep_view();
    let mut result: Vec<CatalogEntry> = Vec::new();
    proof {
        assert(result.deep_view().to_multiset() =~= edv.take(0).to_multiset());
    }
    let mut i: usize = 0;
    while i < entries.len()
        invariant
            i <= entries@.len(),
            result.deep_view().to_multiset() == edv.take(i as int).to_multiset(),
            sorted_catalog(result.deep_view()),
        decreases entries@.len() - i,
    {
        let x = entries[i].duplicate();
        let ghost xv = x@;
        let pos = find_insert_pos(&result, &x);
        let ghost prev = result.deep_view();
        proof {
            if pos < prev.len() {
                lemma_lex_le_total(lower_of(prev[pos as int].display_name), lower_of(xv.display_name));
            }
        }
        result.insert(pos, x);
        i = i + 1;
        proof {
            assert(result.deep_view() =~~= prev.insert(pos as int, xv));
            assert(edv.take(i as int).drop_last() =~= edv.take(i as int - 1));
            assert(edv.take(i as int) =~= edv.take(i as int - 1).push(edv[i as int - 1]));
            assert(prev.insert(pos as int, xv).to_multiset() == prev.to_multiset().insert(xv));
            assert(result.deep_view().to_multiset() =~= edv.take(i as int).to_multiset());
            let newdv = result.deep_view();
            assert forall|a: int, b: int|
                0 <= a < b < newdv.len() implies catalog_le(#[trigger] newdv[a], #[trigger] newdv[b]) by {
                if b < pos {
                } else if a < pos && b == pos {
                } else if a < pos && b > pos {
                    assert(newdv[b] == prev[b - 1]);
                } else if a == pos {
                    assert(catalog_le(xv, prev[pos as int]));
                    assert(newdv[b] == prev[b - 1]);
                    if b - 1 > pos {
                        assert(catalog_le(prev[pos as int], prev[b - 1]));
                        lemma_lex_le_trans(
                            lower_of(xv.display_name),
                            lower_of(prev[pos as int].display_name),
                            lower_of(prev[b - 1].display_name),
                        );
                    }
                } else {
                    assert(newdv[a] == prev[a - 1]);
                    assert(newdv[b] == prev[b - 1]);
                }
            }
        }
    }
    proof {
        assert(edv.take(entries@.len() as int) =~= edv);
    }
    result
}

pub fn dup_entries(v: &Vec<CatalogEntry>) -> (r: Vec<CatalogEntry>)
    ensures
        r.deep_view() == v.deep_view(),
{
    let mut r: Vec<CatalogEntry> = Vec::new();
    let mut i: usize = 0;
    while i < v.len()
        invariant
            i <= v@.len(),
            r.deep_view() == v.deep_view().take(i as int),
        decreases v@.len() - i,
    {
        let ghost prevdv = r.deep_view();
        r.push(v[i].duplicate());
        i = i + 1;
        proof {
            assert(r.deep_view() =~~= prevdv.push(v.deep_view()[i as int - 1]));
            assert(prevdv.push(v.deep_view()[i as int - 1]) =~= v.deep_view().take(i as int));
        }
    }
    proof {
        assert(v.deep_view().take(v@.len() as int) =~= v.deep_view());
    }
    r
}

} // verus!
