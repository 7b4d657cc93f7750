//! Ordered sets of distinct grid-level prices, kept as ascending vectors.
//!
//! Grid levels and the filled-level set are ordered sets of decimals: held
//! here as sorted, duplicate-free vectors with verified membership and
//! insertion.

use vstd::prelude::*;
use crate::dec::Dec;

verus! {

/// Strictly ascending (hence duplicate-free) level sequence.
pub open spec fn sorted_distinct(s: Seq<Dec>) -> bool {
    forall|i: int, j: int| 0 <= i < j < s.len() ==> (#[trigger] s[i]).units < (#[trigger] s[j]).units
}

/// The sequence after inserting `x` in order, unchanged when `x` is already
/// present.
pub open spec fn insert_level_spec(s: Seq<Dec>, x: Dec) -> Seq<Dec>
    decreases s.len(),
{
    if s.len() == 0 {
        seq![x]
    } else if x.units < s[0].units {
        seq![x] + s
    } else if x.units == s[0].units {
        s
    } else {
        seq![s[0]] + insert_level_spec(s.drop_first(), x)
    }
}

/// Membership after insertion is membership before, or equality with the
/// inserted level; order and distinctness are preserved.
pub proof fn lemma_insert_level_spec(s: Seq<Dec>, x: Dec)
    requires
        sorted_distinct(s),
    ensures
        sorted_distinct(insert_level_spec(s, x)),
        forall|y: Dec| #[trigger]
            insert_level_spec(s, x).contains(y) <==> s.contains(y) || y == x,
        s.contains(x) ==> insert_level_spec(s, x) == s,
        !s.contains(x) ==> insert_level_spec(s, x).len() == s.len() + 1,
    decreases s.len(),
{
    let r = insert_level_spec(s, x);
    if s.len() == 0 {
        assert forall|y: Dec| #[trigger] r.contains(y) implies s.contains(y) || y == x by {
            assert(r[0] == x);
        }
        assert(r.contains(x)) by {
            assert(r[0] == x);
        }
    } else if x.units < s[0].units {
        assert forall|y: Dec| #[trigger] r.contains(y) implies s.contains(y) || y == x by {
            let k = choose|k: int| 0 <= k < r.len() && r[k] == y;
            if k > 0 {
                assert(s[k - 1] == y);
            }
        }
        assert forall|y: Dec| s.contains(y) || y == x implies #[trigger] r.contains(y) by {
            if y == x {
                assert(r[0] == y);
            } else {
                let k = choose|k: int| 0 <= k < s.len() && s[k] == y;
                assert(r[k + 1] == y);
            }
        }
        if s.contains(x) {
            let k = choose|k: int| 0 <= k < s.len() && s[k] == x;
            assert(s[0].units <= s[k].units);
        }
    } else if x.units == s[0].units {
        assert(s[0] == x) by {
            assert(s[0].units as int == x.units as int);
        }
        assert(s.contains(x)) by {
            assert(s[0] == x);
        }
    } else {
        let tail = s.drop_first();
        assert(sorted_distinct(tail)) by {
            assert(forall|i: int, j: int|
                0 <= i < j < tail.len() ==> (#[trigger] tail[i]).units < (#[trigger] tail[j]).units)
                by {
                assert(forall|i: int|
                    0 <= i < tail.len() ==> (#[trigger] tail[i]) == s[i + 1]);
            }
        }
        lemma_insert_level_spec(tail, x);
        let rt = insert_level_spec(tail, x);
        assert(r == seq![s[0]] + rt);
        assert forall|i: int, j: int| 0 <= i < j < r.len() implies (#[trigger] r[i]).units < (
        #[trigger] r[j]).units by {
            if i == 0 {
                assert(r[0] == s[0]);
                assert(rt.contains(r[j])) by {
                    assert(r[j] == rt[j - 1]);
                }
                let y = r[j];
                if s.contains(y) || y == x {
                    if y == x {
                    } else {
                        let k = choose|k: int| 0 <= k < s.len() && s[k] == y;
                        if k == 0 {
                            assert(!rt.contains(y)) by {
                                if rt.contains(y) {
                                    assert(tail.contains(y) || y == x);
                                    if tail.contains(y) {
                                        let m = choose|m: int|
                                            0 <= m < tail.len() && tail[m] == y;
                                        assert(tail[m] == s[m + 1]);
                                    }
                                }
                            }
                        }
                    }
                }
            } else {
                assert(r[i] == rt[i - 1] && r[j] == rt[j - 1]);
            }
        }
        assert forall|y: Dec| #[trigger] r.contains(y) implies s.contains(y) || y == x by {
            let k = choose|k: int| 0 <= k < r.len() && r[k] == y;
            if k == 0 {
                assert(s[0] == y);
            } else {
                assert(rt[k - 1] == y);
                assert(rt.contains(y));
                if tail.contains(y) {
                    let m = choose|m: int| 0 <= m < tail.len() && tail[m] == y;
                    assert(s[m + 1] == y);
                }
            }
        }
        assert forall|y: Dec| s.contains(y) || y == x implies #[trigger] r.contains(y) by {
            if y == x {
                assert(rt.contains(x));
                let m = choose|m: int| 0 <= m < rt.len() && rt[m] == x;
                assert(r[m + 1] == x);
            } else {
                let k = choose|k: int| 0 <= k < s.len() && s[k] == y;
                if k == 0 {
                    assert(r[0] == y);
                } else {
                    assert(tail[k - 1] == y);
                    assert(tail.contains(y));
                    assert(rt.contains(y));
                    let m = choose|m: int| 0 <= m < rt.len() && rt[m] == y;
                    assert(r[m + 1] == y);
                }
            }
        }
        if s.contains(x) {
            assert(tail.contains(x)) by {
                let k = choose|k: int| 0 <= k < s.len() && s[k] == x;
                assert(k != 0);
                assert(tail[k - 1] == x);
            }
            assert(r =~= s);
        } else {
            if tail.contains(x) {
                let m = choose|m: int| 0 <= m < tail.len() && tail[m] == x;
                assert(s[m + 1] == x);
            }
        }
    }
}

/// Whether the set contains `x` (linear scan).
pub fn level_contains(levels: &Vec<Dec>, x: Dec) -> (r: bool)
    ensures
        r == levels@.contains(x),
{
    let mut i: usize = 0;
    while i < levels.len()
        invariant
            0 <= i <= levels@.len(),
            forall|k: int| 0 <= k < i ==> (#[trigger] levels@[k]) != x,
        decreases levels@.len() - i,
    {
        if levels[i] == x {
            assert(levels@.contains(x)) by {
                assert(levels@[i as int] == x);
            }
            return true;
        }
        i = i + 1;
    }
    false
}

/// Inserts `x` in order; a level already present is left alone.
pub fn level_insert(levels: &mut Vec<Dec>, x: Dec)
    requires
        sorted_distinct(old(levels)@),
    ensures
        final(levels)@ == insert_level_spec(old(levels)@, x),
        sorted_distinct(final(levels)@),
{
    proof {
        lemma_insert_level_spec(old(levels)@, x);
    }
    let mut pos: usize = 0;
    while pos < levels.len() && levels[pos].units < x.units
        invariant
            0 <= pos <= levels@.len(),
            forall|k: int| 0 <= k < pos ==> (#[trigger] levels@[k]).units < x.units,
        decreases levels@.len() - pos,
    {
        pos = pos + 1;
    }
    if pos < levels.len() && levels[pos].units == x.units {
        proof {
            assert(levels@[pos as int] == x) by {
                assert(levels@[pos as int].units as int == x.units as int);
            }
            lemma_insert_prefix_form(levels@, x, pos as int);
        }
        return ;
    }
    levels.insert(pos, x);
    proof {
        lemma_insert_prefix_form(old(levels)@, x, pos as int);
    }
}

/// In a sorted sequence whose first `pos` elements are below `x`, inserting
/// `x` either finds it at `pos` or splices it in at `pos`.
proof fn lemma_insert_prefix_form(s: Seq<Dec>, x: Dec, pos: int)
    requires
        sorted_distinct(s),
        0 <= pos <= s.len(),
        forall|k: int| 0 <= k < pos ==> (#[trigger] s[k]).units < x.units,
        pos < s.len() ==> s[pos].units >= x.units,
    ensures
        pos < s.len() && s[pos].units == x.units ==> insert_level_spec(s, x) == s,
        (pos == s.len() || s[pos].units > x.units) ==> insert_level_spec(s, x) =~= s.take(pos)
            .push(x) + s.skip(pos),
    decreases pos,
{
    if pos == 0 {
        if s.len() == 0 {
            assert(insert_level_spec(s, x) =~= s.take(0).push(x) + s.skip(0));
        } else if s[0].units > x.units {
            assert(insert_level_spec(s, x) == seq![x] + s);
            assert(insert_level_spec(s, x) =~= s.take(0).push(x) + s.skip(0));
        }
    } else {
        let tail = s.drop_first();
        assert(sorted_distinct(tail)) by {
            assert(forall|i: int| 0 <= i < tail.len() ==> (#[trigger] tail[i]) == s[i + 1]);
        }
        assert(s[0].units < x.units);
        assert(insert_level_spec(s, x) == seq![s[0]] + insert_level_spec(tail, x));
        assert(forall|k: int| 0 <= k < pos - 1 ==> (#[trigger] tail[k]).units < x.units);
        lemma_insert_prefix_form(tail, x, pos - 1);
        if pos < s.len() && s[pos].units == x.units {
            assert(tail[pos - 1].units == x.units);
            assert(seq![s[0]] + tail =~= s);
        } else {
            assert(insert_level_spec(s, x) =~= s.take(pos).push(x) + s.skip(pos));
        }
    }
}

} // verus!
