use vstd::prelude::*;

use crate::common::nodeid::NodeId;

verus! {

/// Which of a channel's two directions is meant: `Alph` runs from the
/// lexicographically smaller node identifier to the larger one.
#[derive(Debug, PartialEq, Eq, Hash, Clone, Copy, Structural)]
pub enum Direction {
    Alph,
    NonAlph,
}

/// Strict lexicographic order on character sequences, by code point.
pub open spec fn lex_lt(a: Seq<char>, b: Seq<char>) -> bool
    decreases a.len(),
{
    if b.len() == 0 {
        false
    } else if a.len() == 0 {
        true
    } else if a[0] != b[0] {
        (a[0] as u32) < (b[0] as u32)
    } else {
        lex_lt(a.drop_first(), b.drop_first())
    }
}

/// An equal prefix does not decide the lexicographic order: the suffixes
/// behind it do.
proof fn lemma_lex_lt_skip(a: Seq<char>, b: Seq<char>, n: int)
    requires
        0 <= n <= a.len(),
        n <= b.len(),
        forall|j: int| 0 <= j < n ==> a[j] == b[j],
    ensures
        lex_lt(a, b) == lex_lt(a.skip(n), b.skip(n)),
    decreases n,
{
    if n > 0 {
        assert(a[0] == b[0]);
        assert(forall|j: int| 0 <= j < n - 1 ==> a.drop_first()[j] == b.drop_first()[j]);
        lemma_lex_lt_skip(a.drop_first(), b.drop_first(), n - 1);
        assert(a.drop_first().skip(n - 1) =~= a.skip(n));
        assert(b.drop_first().skip(n - 1) =~= b.skip(n));
    } else {
        assert(a.skip(0) =~= a);
        assert(b.skip(0) =~= b);
    }
}

impl Direction {
    /// Picks the canonical direction between two distinct node
    /// identifiers: `Alph` exactly when `a` comes before `b`.
    pub fn new(a: &NodeId, b: &NodeId) -> (r: Direction)
        requires
            a@ != b@,
        ensures
            r == (if lex_lt(a@, b@) {
                Direction::Alph
            } else {
                Direction::NonAlph
            }),
    {
        let a_str = a.0.as_str();
        let b_str = b.0.as_str();
        let a_len = a_str.unicode_len();
        let b_len = b_str.unicode_len();
        let n = if a_len < b_len {
            a_len
        } else {
            b_len
        };
        let mut i: usize = 0;
        while i < n
            invariant
                0 <= i <= n,
                n <= a@.len(),
                n <= b@.len(),
                a_len == a@.len(),
                b_len == b@.len(),
                n == a_len || n == b_len,
                a_str@ == a@,
                b_str@ == b@,
                forall|j: int| 0 <= j < i ==> a@[j] == b@[j],
            decreases n - i,
        {
            let ca = a_str.get_char(i);
            let cb = b_str.get_char(i);
            if (ca as u32) < (cb as u32) {
                proof {
                    lemma_lex_lt_skip(a@, b@, i as int);
                }
                return Direction::Alph;
            } else if (ca as u32) > (cb as u32) {
                proof {
                    lemma_lex_lt_skip(a@, b@, i as int);
                }
                return Direction::NonAlph;
            }
            i += 1;
        }
        if a_len < b_len {
            proof {
                lemma_lex_lt_skip(a@, b@, a_len as int);
            }
            Direction::Alph
        } else if b_len < a_len {
            proof {
                lemma_lex_lt_skip(a@, b@, b_len as int);
            }
            Direction::NonAlph
        } else {
            // equal lengths with an equal prefix would make the two
            // identifiers equal, which the precondition rules out
            proof {
                assert(a@ =~= b@);
            }
            Direction::Alph
        }
    }
}

} // verus!
