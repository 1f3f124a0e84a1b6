//! Splitting an input line into tokens.
//!
//! A line is split on runs of separators (see [`is_space`]); the tokens are
//! the maximal separator-free runs, in order. An all-separator line has no
//! tokens. [`split_scan`] gives the split a left-to-right functional
//! definition — the finished tokens plus the still-open run after reading a
//! prefix — and [`tokens_of`] closes the last run.

use vstd::prelude::*;
use crate::strings::is_space;
use vstd::string::StrSliceExecFns;

verus! {

/// State of a left-to-right scan of `s`: the tokens already ended by a
/// separator, and the not-yet-ended run of token characters.
pub open spec fn split_scan(s: Seq<char>) -> (Seq<Seq<char>>, Seq<char>)
    decreases s.len(),
{
    if s.len() == 0 {
        (Seq::empty(), Seq::empty())
    } else {
        let (done, cur) = split_scan(s.drop_last());
        let c = s.last();
        if is_space(c) {
            if cur.len() == 0 {
                (done, Seq::empty())
            } else {
                (done.push(cur), Seq::empty())
            }
        } else {
            (done, cur.push(c))
        }
    }
}

/// The tokens of a line: the scan's finished tokens, plus the final run if
/// the line did not end on a separator.
pub open spec fn tokens_of(s: Seq<char>) -> Seq<Seq<char>> {
    let (done, cur) = split_scan(s);
    if cur.len() == 0 {
        done
    } else {
        done.push(cur)
    }
}

/// Splits a raw input line into tokens.
pub fn parse_cmd(cmd: &str) -> (r: Vec<&str>)
    ensures
        r.deep_view() == tokens_of(cmd@),
{
    let len = cmd.unicode_len();
    let mut toks: Vec<&str> = Vec::new();
    // Start of the open run, if one is open.
    let mut start: usize = 0;
    let mut open: bool = false;
    let mut i: usize = 0;
    while i < len
        invariant
            i <= len,
            len == cmd@.len(),
            open ==> start < i,
            ({
                let (done, cur) = split_scan(cmd@.take(i as int));
                &&& toks.deep_view() == done
                &&& (if open {
                    cur == cmd@.subrange(start as int, i as int)
                } else {
                    cur.len() == 0
                })
            }),
        decreases len - i,
    {
        let c = cmd.get_char(i);
        proof {
            assert(cmd@.take(i as int + 1).drop_last() =~= cmd@.take(i as int));
            assert(cmd@.take(i as int + 1).last() == cmd@[i as int]);
        }
        if crate::strings::space_char(c) {
            if open {
                let t = cmd.substring_char(start, i);
                toks.push(t);
                proof {
                    let (done, cur) = split_scan(cmd@.take(i as int));
                    assert(toks.deep_view() =~= done.push(cur));
                }
                open = false;
            }
        } else {
            if !open {
                start = i;
                open = true;
            }
            proof {
                let (done, cur) = split_scan(cmd@.take(i as int));
                assert(cur.push(cmd@[i as int]) =~= cmd@.subrange(start as int, i as int + 1));
            }
        }
        i = i + 1;
    }
    proof {
        assert(cmd@.take(len as int) =~= cmd@);
    }
    if open {
        let t = cmd.substring_char(start, len);
        toks.push(t);
        proof {
            let (done, cur) = split_scan(cmd@);
            assert(toks.deep_view() =~= done.push(cur));
        }
    }
    toks
}

} // verus!
