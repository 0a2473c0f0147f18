//! Splitting text into lines with universal newlines: a line ends at `\n`,
//! at `\r\n` or at a lone `\r`; no terminator is kept, and the final one is
//! optional.
use vstd::prelude::*;
use vstd::std_specs::iter::IteratorSpec;

verus! {

/// Whether `s` ends with the `\n` of a `\r\n` pair.
pub open spec fn ends_with_crlf(s: Seq<char>) -> bool {
    s.len() >= 2 && s.last() == '\n' && s[s.len() - 2] == '\r'
}

/// The pieces of `s` between line terminators, terminators left out.
/// There is always at least one piece; the last one is what follows the
/// final terminator (empty if `s` ends with one).
pub open spec fn pieces(s: Seq<char>) -> Seq<Seq<char>>
    decreases s.len(),
{
    if s.len() == 0 {
        seq![Seq::empty()]
    } else {
        let p = pieces(s.drop_last());
        if ends_with_crlf(s) {
            p
        } else if s.last() == '\n' || s.last() == '\r' {
            p.push(Seq::empty())
        } else {
            p.update(p.len() - 1, p.last().push(s.last()))
        }
    }
}

/// The lines of `s`: its pieces, without the empty one that follows a
/// final terminator.
pub open spec fn lines_of(s: Seq<char>) -> Seq<Seq<char>> {
    let p = pieces(s);
    if p.last().len() == 0 {
        p.drop_last()
    } else {
        p
    }
}

/// The character views of a vector of strings.
pub open spec fn views(v: Seq<String>) -> Seq<Seq<char>> {
    v.map_values(|s: String| s@)
}

pub proof fn lemma_pieces_nonempty(s: Seq<char>)
    ensures
        pieces(s).len() >= 1,
    decreases s.len(),
{
    if s.len() > 0 {
        lemma_pieces_nonempty(s.drop_last());
    }
}

/// Relies on String::push: the character is appended at the end.
#[verifier::external_body]
fn push_char(s: &mut String, c: char)
    ensures
        final(s)@ == old(s)@.push(c),
{
    s.push(c)
}

/// The lines of `contents`, in order, each as an owned string.
pub fn split_lines(contents: &str) -> (r: Vec<String>)
    ensures
        views(r@) == lines_of(contents@),
{
    let mut out: Vec<String> = Vec::new();
    let mut cur = String::new();
    let mut after_cr = false;
    let mut chars = contents.chars();
    let ghost mut seen: Seq<char> = Seq::empty();
    proof {
        assert(chars.remaining() == contents@);
    }
    loop
        invariant
            seen + chars.remaining() == contents@,
            chars.decrease() is Some,
            pieces(seen).drop_last() == views(out@),
            pieces(seen).last() == cur@,
            after_cr == (seen.len() > 0 && seen.last() == '\r'),
        ensures
            seen == contents@,
        decreases chars.decrease()->0,
    {
        let ghost before = chars.remaining();
        let next_char = chars.next();
        let c = match next_char {
            Some(c) => c,
            None => {
                proof {
                    assert(seen =~= contents@);
                }
                break;
            },
        };
        let ghost next = seen.push(c);
        let ghost p = pieces(seen);
        proof {
            assert(before.len() > 0);
            assert(next + chars.remaining() =~= contents@);
            lemma_pieces_nonempty(seen);
            assert(next.drop_last() =~= seen);
            assert(p =~= p.drop_last().push(p.last()));
            if seen.len() > 0 {
                assert(next[next.len() - 2] == seen.last());
            }
        }
        if c == '\n' && after_cr {
            proof {
                assert(pieces(next) == p);
            }
        } else if c == '\n' || c == '\r' {
            proof {
                assert(pieces(next) == p.push(Seq::<char>::empty()));
                assert(pieces(next).drop_last() =~= p);
                assert(views(out@.push(cur)) =~= views(out@).push(cur@));
            }
            out.push(cur);
            cur = String::new();
        } else {
            proof {
                assert(pieces(next) == p.update(p.len() - 1, p.last().push(c)));
                assert(pieces(next).drop_last() =~= p.drop_last());
            }
            push_char(&mut cur, c);
        }
        after_cr = c == '\r';
        proof {
            seen = next;
        }
    }
    if cur.as_str().is_empty() {
        out
    } else {
        proof {
            lemma_pieces_nonempty(seen);
            assert(pieces(seen) =~= pieces(seen).drop_last().push(cur@));
        }
        out.push(cur);
        proof {
            assert(views(out@) =~= lines_of(contents@));
        }
        out
    }
}

} // verus!
