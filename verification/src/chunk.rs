use vstd::prelude::*;

use crate::catalog::last_index_upto;
use crate::catalog::lemma_last_index_upto;
use crate::catalog::rfind_char_upto;
use crate::text::chars_to_string;
use crate::text::str_chars;
use crate::text::subvec;

verus! {

/// The failure of the chunker: a stretch of text longer than the limit with
/// no newline to split at.
#[derive(Debug, PartialEq, Eq, Structural)]
pub struct ChunkingError;

// How a long outgoing text is cut into transport-sized segments: while the
// remainder is over the limit, it is split just before the last newline at
// or before the limit; the newline itself is dropped, being the separator
// the segments are rejoined with.
pub open spec fn chunk_spec(s: Seq<char>, max: int) -> Option<Seq<Seq<char>>>
    decreases s.len(),
    via chunk_spec_decreases
{
    if s.len() <= max {
        Some(seq![s])
    } else if max < 0 {
        None
    } else {
        let b = last_index_upto(s, '\n', max);
        if b < 0 {
            None
        } else {
            match chunk_spec(s.skip(b + 1), max) {
                Some(rest) => Some(seq![s.take(b)] + rest),
                None => None,
            }
        }
    }
}

#[via_fn]
proof fn chunk_spec_decreases(s: Seq<char>, max: int) {
    if s.len() > max && max >= 0 {
        lemma_last_index_upto(s, '\n', max);
    }
}

/// The segments put back together, separated by the character they were
/// split at.
pub open spec fn join_with(segs: Seq<Seq<char>>, sep: char) -> Seq<char>
    decreases segs.len(),
{
    if segs.len() == 0 {
        Seq::empty()
    } else if segs.len() == 1 {
        segs[0]
    } else {
        segs[0] + seq![sep] + join_with(segs.drop_first(), sep)
    }
}

/// Rejoining the chunks with the newlines they were split at gives back the
/// original text, whenever chunking succeeds.
pub proof fn lemma_chunk_join(s: Seq<char>, max: int)
    requires
        chunk_spec(s, max) is Some,
    ensures
        join_with(chunk_spec(s, max)->Some_0, '\n') == s,
    decreases s.len(),
{
    if s.len() <= max {
    } else {
        let b = last_index_upto(s, '\n', max);
        lemma_last_index_upto(s, '\n', max);
        let tail = s.skip(b + 1);
        lemma_chunk_join(tail, max);
        let rest = chunk_spec(tail, max)->Some_0;
        let whole = chunk_spec(s, max)->Some_0;
        assert(whole == seq![s.take(b)] + rest);
        assert(whole.len() >= 2) by {
            assert(rest.len() >= 1) by {
                if tail.len() <= max {
                } else {
                    assert(chunk_spec(tail, max)->Some_0 == seq![tail.take(
                        last_index_upto(tail, '\n', max),
                    )] + chunk_spec(tail.skip(last_index_upto(tail, '\n', max) + 1), max)->Some_0);
                }
            }
        }
        assert(whole.drop_first() =~= rest);
        assert(whole[0] == s.take(b));
        assert(s[b] == '\n');
        assert(join_with(whole, '\n') == s.take(b) + seq!['\n'] + tail);
        assert(s.take(b) + seq!['\n'] + tail =~= s);
    }
}

/// No segment of a successful chunking is longer than the limit.
pub proof fn lemma_chunk_segment_lengths(s: Seq<char>, max: int)
    requires
        chunk_spec(s, max) is Some,
    ensures
        forall|k: int|
            0 <= k < chunk_spec(s, max)->Some_0.len() ==> #[trigger] chunk_spec(
                s,
                max,
            )->Some_0[k].len() <= max,
    decreases s.len(),
{
    if s.len() <= max {
    } else {
        let b = last_index_upto(s, '\n', max);
        lemma_last_index_upto(s, '\n', max);
        lemma_chunk_segment_lengths(s.skip(b + 1), max);
        let whole = chunk_spec(s, max)->Some_0;
        let rest = chunk_spec(s.skip(b + 1), max)->Some_0;
        assert forall|k: int| 0 <= k < whole.len() implies #[trigger] whole[k].len() <= max by {
            if k == 0 {
                assert(whole[0] == s.take(b));
            } else {
                assert(whole[k] == rest[k - 1]);
            }
        }
    }
}

pub open spec fn window_has_newline(s: Seq<char>, i: int, max: int) -> bool {
    exists|j: int| i <= j < i + max && s[j] == '\n'
}

pub open spec fn newline_in_every_window(s: Seq<char>, max: int) -> bool {
    forall|i: int| 0 <= i && i + max <= s.len() ==> #[trigger] window_has_newline(s, i, max)
}

/// Chunking succeeds on any text that holds a newline inside every window of
/// `max` characters.
pub proof fn lemma_chunk_total(s: Seq<char>, max: int)
    requires
        max >= 1,
        newline_in_every_window(s, max),
    ensures
        chunk_spec(s, max) is Some,
    decreases s.len(),
{
    if s.len() <= max {
    } else {
        assert(window_has_newline(s, 0, max));
        let j = choose|j: int| 0 <= j < 0 + max && s[j] == '\n';
        lemma_last_index_upto(s, '\n', max);
        let b = last_index_upto(s, '\n', max);
        assert(b >= 0) by {
            if b < j {
                assert(s[j] != '\n');
            }
        }
        let tail = s.skip(b + 1);
        assert(newline_in_every_window(tail, max)) by {
            assert forall|i: int|
                0 <= i && i + max <= tail.len() implies #[trigger] window_has_newline(
                tail,
                i,
                max,
            ) by {
                assert(window_has_newline(s, i + b + 1, max));
                let j2 = choose|j2: int| i + b + 1 <= j2 < i + b + 1 + max && s[j2] == '\n';
                assert(tail[j2 - b - 1] == '\n');
            }
        }
        lemma_chunk_total(tail, max);
    }
}

/// The position of the last newline at or before the length limit, where the
/// remaining text must be cut.
pub fn find_last_line_break(text: &Vec<char>, max_len: usize) -> (r: Option<usize>)
    requires
        max_len < text@.len(),
    ensures
        r matches Some(j) ==> j as int == last_index_upto(text@, '\n', max_len as int),
        r is None ==> last_index_upto(text@, '\n', max_len as int) == -1,
{
    rfind_char_upto(text, '\n', max_len)
}

// Whether a prefix of the segments together with a chunking of the remaining
// text forms a chunking of the whole.
pub open spec fn chunk_extends(
    whole: Seq<char>,
    done: Seq<Seq<char>>,
    rem: Seq<char>,
    max: int,
) -> bool {
    chunk_spec(whole, max) == (match chunk_spec(rem, max) {
        Some(rest) => Some(done + rest),
        None => None,
    })
}

pub fn chunk(text: &String, max_len: usize) -> (r: Result<Vec<String>, ChunkingError>)
    ensures
        ({
            match r {
                Ok(v) => chunk_spec(text@, max_len as int) == Some(v.deep_view()),
                Err(e) => chunk_spec(text@, max_len as int) is None,
            }
        }),
{
    let mut rem = str_chars(text.as_str());
    let mut segs: Vec<String> = Vec::new();
    proof {
        assert(Seq::<Seq<char>>::empty() + chunk_spec(rem@, max_len as int)->Some_0
            =~= chunk_spec(rem@, max_len as int)->Some_0);
    }
    loop
        invariant
            chunk_extends(text@, segs.deep_view(), rem@, max_len as int),
        decreases rem@.len(),
    {
        let ghost done = segs.deep_view();
        if rem.len() <= max_len {
            let s = chars_to_string(&rem);
            segs.push(s);
            proof {
                assert(segs.deep_view() =~~= done.push(rem@));
                assert(done + seq![rem@] =~= done.push(rem@));
            }
            return Ok(segs);
        }
        match find_last_line_break(&rem, max_len) {
            None => {
                return Err(ChunkingError);
            },
            Some(b) => {
                proof {
                    lemma_last_index_upto(rem@, '\n', max_len as int);
                }
                let head = subvec(&rem, 0, b);
                let tail = subvec(&rem, b + 1, rem.len());
                segs.push(chars_to_string(&head));
                proof {
                    assert(head@ =~= rem@.take(b as int));
                    assert(tail@ =~= rem@.skip(b as int + 1));
                    assert(segs.deep_view() =~~= done.push(rem@.take(b as int)));
                    if chunk_spec(tail@, max_len as int) is Some {
                        let rest = chunk_spec(tail@, max_len as int)->Some_0;
                        assert(chunk_spec(rem@, max_len as int) == Some(
                            seq![rem@.take(b as int)] + rest,
                        ));
                        assert(done + (seq![rem@.take(b as int)] + rest) =~= done.push(
                            rem@.take(b as int),
                        ) + rest);
                    } else {
                        assert(chunk_spec(rem@, max_len as int) is None);
                    }
                }
                rem = tail;
            },
        }
    }
}

} // verus!
