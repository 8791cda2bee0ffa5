//! The loop structure of an instruction sequence, stated over nesting depth.

use vstd::prelude::*;
use crate::command::Command;

verus! {

/// What one instruction adds to the nesting depth.
pub open spec fn depth_change(c: Command) -> int {
    match c {
        Command::LoopStart => 1,
        Command::LoopEnd => -1,
        _ => 0,
    }
}

/// The nesting depth in front of instruction `k`: the number of `[` minus the
/// number of `]` among the first `k` instructions.
pub open spec fn depth(s: Seq<Command>, k: int) -> int
    decreases k,
{
    if k <= 0 {
        0
    } else {
        depth(s, k - 1) + depth_change(s[k - 1])
    }
}

/// No prefix of the first `k` instructions closes more loops than it opens.
pub open spec fn never_negative(s: Seq<Command>, k: int) -> bool {
    forall|i: int| 0 <= i <= k ==> #[trigger] depth(s, i) >= 0
}

/// Every bracket has its partner: no prefix closes a loop that is not open,
/// and at the end no loop is left open.
pub open spec fn balanced(s: Seq<Command>) -> bool {
    &&& never_negative(s, s.len() as int)
    &&& depth(s, s.len() as int) == 0
}

/// The `[` at `open` is still open in front of instruction `upto`: the depth
/// has stayed above the depth in front of it ever since.
pub open spec fn pending(s: Seq<Command>, open: int, upto: int) -> bool {
    &&& 0 <= open < upto <= s.len()
    &&& s[open] == Command::LoopStart
    &&& forall|k: int| open < k <= upto ==> #[trigger] depth(s, k) > depth(s, open)
}

/// The `[` at `open` and the `]` at `close` belong together: `close` is the
/// first instruction after `open` that brings the depth back to what it was
/// in front of `open`.
pub open spec fn paired(s: Seq<Command>, open: int, close: int) -> bool {
    &&& 0 <= open < close < s.len()
    &&& s[open] == Command::LoopStart
    &&& s[close] == Command::LoopEnd
    &&& depth(s, close + 1) == depth(s, open)
    &&& forall|k: int| open < k <= close ==> #[trigger] depth(s, k) > depth(s, open)
}

/// `jumps` is the jump table of `s`: at a bracket it holds the index of the
/// bracket's partner, anywhere else the index itself.
pub open spec fn is_resolved(s: Seq<Command>, jumps: Seq<usize>) -> bool {
    &&& jumps.len() == s.len()
    &&& forall|k: int|
        0 <= k < s.len() ==> match #[trigger] s[k] {
            Command::LoopStart => paired(s, k, jumps[k] as int),
            Command::LoopEnd => paired(s, jumps[k] as int, k),
            _ => jumps[k] == k,
        }
}

/// `close` is the first `]` that has no open `[` before it.
pub open spec fn first_unmatched_close(s: Seq<Command>, close: int) -> bool {
    &&& 0 <= close < s.len()
    &&& s[close] == Command::LoopEnd
    &&& depth(s, close) == 0
    &&& never_negative(s, close)
}

/// No `]` lacks its `[`, and `open` is the earliest `[` that is never closed.
pub open spec fn earliest_unmatched_open(s: Seq<Command>, open: int) -> bool {
    &&& never_negative(s, s.len() as int)
    &&& depth(s, open) == 0
    &&& pending(s, open, s.len() as int)
}

/// A `[` has at most one matching `]`.
pub proof fn lemma_pair_close_unique(s: Seq<Command>, open: int, c1: int, c2: int)
    requires
        paired(s, open, c1),
        paired(s, open, c2),
    ensures
        c1 == c2,
{
    if c1 < c2 {
        assert(depth(s, c1 + 1) > depth(s, open));
    }
    if c2 < c1 {
        assert(depth(s, c2 + 1) > depth(s, open));
    }
}

/// A `]` has at most one matching `[`.
pub proof fn lemma_pair_open_unique(s: Seq<Command>, o1: int, o2: int, close: int)
    requires
        paired(s, o1, close),
        paired(s, o2, close),
    ensures
        o1 == o2,
{
    if o1 < o2 {
        assert(depth(s, o2) > depth(s, o1));
    }
    if o2 < o1 {
        assert(depth(s, o1) > depth(s, o2));
    }
}

/// Loops nest and never cross: a loop that starts inside another one also
/// ends inside it.
pub proof fn lemma_pairs_nest(s: Seq<Command>, o1: int, c1: int, o2: int, c2: int)
    requires
        paired(s, o1, c1),
        paired(s, o2, c2),
        o1 < o2 < c1,
    ensures
        c2 < c1,
{
    assert(depth(s, o2) > depth(s, o1));
    if c1 < c2 {
        assert(depth(s, c1 + 1) > depth(s, o2));
    }
    if c1 == c2 {
        lemma_pair_open_unique(s, o1, o2, c1);
    }
}

/// In a balanced sequence no `[` stays open to the end.
pub proof fn lemma_balanced_none_pending(s: Seq<Command>, open: int)
    requires
        balanced(s),
    ensures
        !pending(s, open, s.len() as int),
{
    if pending(s, open, s.len() as int) {
        assert(depth(s, open) >= 0);
        assert(depth(s, s.len() as int) > depth(s, open));
    }
}

/// Behind a `]` that has no `[` the depth is negative.
pub proof fn lemma_close_goes_negative(s: Seq<Command>, close: int)
    requires
        first_unmatched_close(s, close),
    ensures
        !never_negative(s, s.len() as int),
{
    assert(depth(s, close + 1) == -1);
}

/// The three verdicts on a sequence exclude each other, and each error
/// position is the only one of its kind.
pub proof fn lemma_verdict_unique(s: Seq<Command>, p: int, q: int)
    ensures
        !(balanced(s) && first_unmatched_close(s, p)),
        !(balanced(s) && earliest_unmatched_open(s, p)),
        !(first_unmatched_close(s, p) && earliest_unmatched_open(s, q)),
        first_unmatched_close(s, p) && first_unmatched_close(s, q) ==> p == q,
        earliest_unmatched_open(s, p) && earliest_unmatched_open(s, q) ==> p == q,
{
    if first_unmatched_close(s, p) {
        assert(depth(s, p + 1) == -1);
        if never_negative(s, s.len() as int) {
            assert(depth(s, p + 1) >= 0);
        }
        if first_unmatched_close(s, q) {
            assert(depth(s, q + 1) == -1);
            if p < q {
                assert(depth(s, p + 1) >= 0);
            }
            if q < p {
                assert(depth(s, q + 1) >= 0);
            }
        }
    }
    if earliest_unmatched_open(s, p) {
        assert(depth(s, s.len() as int) > depth(s, p));
        if earliest_unmatched_open(s, q) {
            if p < q {
                assert(depth(s, q) > depth(s, p));
            }
            if q < p {
                assert(depth(s, p) > depth(s, q));
            }
        }
    }
}

} // verus!
