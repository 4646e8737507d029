//! Counting the placements of `n` non-attacking queens on an `n` by `n`
//! board by backtracking, one row at a time.

use vstd::prelude::*;
use crate::utils::cap;

verus! {

/// A partial placement: `p[r]` is the column of the queen in row `r`, for
/// the first `p.len()` rows.
/// A queen in the next row, at column `c`, is attacked by none of them.
pub open spec fn safe(p: Seq<int>, c: int) -> bool {
    forall|r: int|
        0 <= r < p.len() ==> {
            &&& #[trigger] p[r] != c
            &&& p[r] + r != c + p.len()
            &&& p[r] - r != c - p.len()
        }
}

/// The number of ways to complete `p` to a full placement of `n` queens,
/// one per row, none attacking another.
pub open spec fn completions(n: int, p: Seq<int>) -> nat
    decreases n - p.len(), n + 1,
{
    if p.len() >= n {
        1
    } else {
        completions_below(n, p, n)
    }
}

/// The completions of `p` whose next queen stands in a column below `c`.
pub open spec fn completions_below(n: int, p: Seq<int>, c: int) -> nat
    decreases n - p.len(), c,
{
    if c <= 0 || p.len() >= n {
        0
    } else {
        completions_below(n, p, c - 1) + if safe(p, c - 1) {
            completions(n, p.push(c - 1))
        } else {
            0
        }
    }
}

/// The occupancy tables agree with the placement `p`: a column, a `\`
/// diagonal (`row + col`) or a `/` diagonal (`n - 1 + col - row`) is marked
/// exactly when a queen of `p` stands on it.
pub open spec fn tables_match(
    n: int,
    p: Seq<int>,
    cols: Seq<bool>,
    diag1: Seq<bool>,
    diag2: Seq<bool>,
) -> bool {
    &&& cols.len() == n
    &&& diag1.len() == 2 * n - 1
    &&& diag2.len() == 2 * n - 1
    &&& forall|r: int| 0 <= r < p.len() ==> 0 <= #[trigger] p[r] < n
    &&& forall|c: int| 0 <= c < n ==> #[trigger] cols[c] == exists|r: int| 0 <= r < p.len() && p[r] == c
    &&& forall|d: int|
        0 <= d < 2 * n - 1 ==> #[trigger] diag1[d] == exists|r: int| 0 <= r < p.len() && p[r] + r == d
    &&& forall|d: int|
        0 <= d < 2 * n - 1 ==> #[trigger] diag2[d] == exists|r: int|
            0 <= r < p.len() && n - 1 + p[r] - r == d
}

/// Placing a queen at (`p.len()`, `c`) keeps the tables in step.
proof fn lemma_place(
    n: int,
    p: Seq<int>,
    c: int,
    cols: Seq<bool>,
    diag1: Seq<bool>,
    diag2: Seq<bool>,
)
    requires
        p.len() < n,
        0 <= c < n,
        tables_match(n, p, cols, diag1, diag2),
    ensures
        tables_match(
            n,
            p.push(c),
            cols.update(c, true),
            diag1.update(p.len() + c, true),
            diag2.update(n - 1 + c - p.len(), true),
        ),
{
    let q = p.push(c);
    let row = p.len() as int;
    assert forall|x: int| 0 <= x < n implies #[trigger] cols.update(c, true)[x] == exists|r: int|
        0 <= r < q.len() && q[r] == x by {
        if x == c {
            assert(q[row] == x);
        } else if cols[x] {
            let r = choose|r: int| 0 <= r < p.len() && p[r] == x;
            assert(q[r] == x);
        } else {
            assert forall|r: int| 0 <= r < q.len() implies q[r] != x by {
                if r < row {
                    assert(q[r] == p[r]);
                }
            }
        }
    }
    assert forall|d: int| 0 <= d < 2 * n - 1 implies #[trigger] diag1.update(row + c, true)[d]
        == exists|r: int| 0 <= r < q.len() && q[r] + r == d by {
        if d == row + c {
            assert(q[row] + row == d);
        } else if diag1[d] {
            let r = choose|r: int| 0 <= r < p.len() && p[r] + r == d;
            assert(q[r] + r == d);
        } else {
            assert forall|r: int| 0 <= r < q.len() implies q[r] + r != d by {
                if r < row {
                    assert(q[r] == p[r]);
                }
            }
        }
    }
    assert forall|d: int| 0 <= d < 2 * n - 1 implies #[trigger] diag2.update(n - 1 + c - row, true)[d]
        == exists|r: int| 0 <= r < q.len() && n - 1 + q[r] - r == d by {
        if d == n - 1 + c - row {
            assert(n - 1 + q[row] - row == d);
        } else if diag2[d] {
            let r = choose|r: int| 0 <= r < p.len() && n - 1 + p[r] - r == d;
            assert(n - 1 + q[r] - r == d);
        } else {
            assert forall|r: int| 0 <= r < q.len() implies n - 1 + q[r] - r != d by {
                if r < row {
                    assert(q[r] == p[r]);
                }
            }
        }
    }
    assert forall|r: int| 0 <= r < q.len() implies 0 <= #[trigger] q[r] < n by {
        if r < row {
            assert(q[r] == p[r]);
        }
    }
}

/// With the tables in step, the three table lookups decide whether a queen
/// at (`p.len()`, `c`) is safe.
proof fn lemma_lookup_is_safe(
    n: int,
    p: Seq<int>,
    c: int,
    cols: Seq<bool>,
    diag1: Seq<bool>,
    diag2: Seq<bool>,
)
    requires
        p.len() < n,
        0 <= c < n,
        tables_match(n, p, cols, diag1, diag2),
    ensures
        safe(p, c) == (!cols[c] && !diag1[p.len() + c] && !diag2[n - 1 + c - p.len()]),
{
    let row = p.len() as int;
    assert(0 <= row + c < 2 * n - 1);
    assert(0 <= n - 1 + c - row < 2 * n - 1);
    if safe(p, c) {
        assert(!cols[c]) by {
            assert(forall|r: int| 0 <= r < p.len() ==> #[trigger] p[r] != c);
        }
        assert(!diag1[row + c]) by {
            assert forall|r: int| 0 <= r < p.len() implies #[trigger] p[r] + r != row + c by {
                assert(p[r] != c);
            }
        }
        assert(!diag2[n - 1 + c - row]) by {
            assert forall|r: int| 0 <= r < p.len() implies n - 1 + #[trigger] p[r] - r != n - 1 + c
                - row by {
                assert(p[r] != c);
            }
        }
    } else {
        let r = choose|r: int|
            0 <= r < p.len() && !({
                &&& #[trigger] p[r] != c
                &&& p[r] + r != c + p.len()
                &&& p[r] - r != c - p.len()
            });
        if p[r] == c {
            assert(cols[c]);
        } else if p[r] + r == c + row {
            assert(diag1[row + c]);
        } else {
            assert(n - 1 + p[r] - r == n - 1 + c - row);
            assert(diag2[n - 1 + c - row]);
        }
    }
}

/// Counts the completions of the placement `p` (of `row` queens) that the
/// tables describe, leaving the tables as they were.
fn count_from_row(
    row: usize,
    n: usize,
    cols: &mut Vec<bool>,
    diag1: &mut Vec<bool>,
    diag2: &mut Vec<bool>,
    Ghost(p): Ghost<Seq<int>>,
) -> (r: u64)
    requires
        1 <= n < 0x4000_0000,
        row == p.len(),
        row <= n,
        tables_match(n as int, p, old(cols)@, old(diag1)@, old(diag2)@),
    ensures
        final(cols)@ == old(cols)@,
        final(diag1)@ == old(diag1)@,
        final(diag2)@ == old(diag2)@,
        r == cap(completions(n as int, p)),
    decreases n - row, 0nat,
{
    if row == n {
        return 1;
    }
    let mut total: u64 = 0;
    let mut col: usize = 0;
    while col < n
        invariant
            1 <= n < 0x4000_0000,
            row == p.len(),
            row < n,
            col <= n,
            tables_match(n as int, p, cols@, diag1@, diag2@),
            cols@ == old(cols)@,
            diag1@ == old(diag1)@,
            diag2@ == old(diag2)@,
            total == cap(completions_below(n as int, p, col as int)),
        decreases n - col,
    {
        let d1 = row + col;
        let d2 = n - 1 + col - row;
        proof {
            lemma_lookup_is_safe(n as int, p, col as int, cols@, diag1@, diag2@);
        }
        if !cols[col] && !diag1[d1] && !diag2[d2] {
            proof {
                lemma_place(n as int, p, col as int, cols@, diag1@, diag2@);
            }
            let ghost before_cols = cols@;
            let ghost before_d1 = diag1@;
            let ghost before_d2 = diag2@;
            cols.set(col, true);
            diag1.set(d1, true);
            diag2.set(d2, true);
            let sub = count_from_row(
                row + 1,
                n,
                cols,
                diag1,
                diag2,
                Ghost(p.push(col as int)),
            );
            cols.set(col, false);
            diag1.set(d1, false);
            diag2.set(d2, false);
            assert(cols@ =~= before_cols);
            assert(diag1@ =~= before_d1);
            assert(diag2@ =~= before_d2);
            total = total.saturating_add(sub);
        }
        col += 1;
    }
    total
}

/// The number of ways to place `n` queens on an `n` by `n` board so that
/// none attacks another (capped at `u64::MAX`).
pub fn count_nqueens_solutions(n: usize) -> (r: u64)
    requires
        1 <= n < 0x4000_0000,
    ensures
        r == cap(completions(n as int, Seq::empty())),
{
    let mut cols: Vec<bool> = vec![false; n];
    let size = 2 * n - 1;
    let mut diag1: Vec<bool> = vec![false; size];
    let mut diag2: Vec<bool> = vec![false; size];
    count_from_row(0, n, &mut cols, &mut diag1, &mut diag2, Ghost(Seq::empty()))
}

/// The number of solutions whose queen in the first row stands in column
/// `first_col` (capped at `u64::MAX`).
pub fn count_nqueens_with_first(n: usize, first_col: usize) -> (r: u64)
    requires
        1 <= n < 0x4000_0000,
        first_col < n,
    ensures
        r == cap(completions(n as int, seq![first_col as int])),
{
    let mut cols: Vec<bool> = vec![false; n];
    let size = 2 * n - 1;
    let mut diag1: Vec<bool> = vec![false; size];
    let mut diag2: Vec<bool> = vec![false; size];
    proof {
        lemma_place(n as int, Seq::empty(), first_col as int, cols@, diag1@, diag2@);
        assert(Seq::<int>::empty().push(first_col as int) =~= seq![first_col as int]);
    }
    cols.set(first_col, true);
    diag1.set(first_col, true);
    diag2.set(n - 1 + first_col, true);
    let ghost first = seq![first_col as int];
    count_from_row(1, n, &mut cols, &mut diag1, &mut diag2, Ghost(first))
}

/// Every solution has its first queen in some column: the solutions split
/// by the column of the first row's queen.
pub proof fn lemma_split_by_first_column(n: int, c: int)
    requires
        1 <= n,
        0 <= c <= n,
    ensures
        completions_below(n, Seq::empty(), c) == completions_below(n, Seq::empty(), c - 1)
            + if c > 0 {
            completions(n, seq![c - 1])
        } else {
            0
        },
{
    if c > 0 {
        assert(Seq::<int>::empty().push(c - 1) =~= seq![c - 1]);
        assert(safe(Seq::empty(), c - 1));
    }
}

} // verus!
