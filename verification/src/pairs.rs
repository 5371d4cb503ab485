use vstd::prelude::*;

verus! {

/// The pairs `(i, j)` with `i < j < n`, by rising `j`.
pub open spec fn row(i: int, n: int) -> Seq<(int, int)> {
    Seq::new(
        if n - i - 1 > 0 {
            (n - i - 1) as nat
        } else {
            0
        },
        |k: int| (i, i + 1 + k),
    )
}

/// The rows of the first `m` indices, one after the other.
pub open spec fn rows(m: int, n: int) -> Seq<(int, int)>
    decreases m,
{
    if m <= 0 {
        Seq::empty()
    } else {
        rows(m - 1, n) + row(m - 1, n)
    }
}

/// Every unordered pair of distinct indices below `n`, smaller index first, in
/// the order in which the broad phase visits them.
pub open spec fn all_pairs(n: nat) -> Seq<(int, int)> {
    rows(n as int, n as int)
}

/// Where the pair `(a, b)` stands in [`all_pairs`]`(n)`.
pub open spec fn pair_index(a: int, b: int, n: nat) -> int {
    rows(a, n as int).len() + b - a - 1
}

/// Twice the number of pairs in the first `m` rows.
proof fn lemma_rows_len(m: int, n: int)
    requires
        0 <= m <= n,
    ensures
        2 * rows(m, n).len() == m * (2 * n - m - 1),
    decreases m,
{
    if m > 0 {
        lemma_rows_len(m - 1, n);
        assert((m - 1) * (2 * n - (m - 1) - 1) + 2 * (n - m) == m * (2 * n - m - 1))
            by (nonlinear_arith);
    } else {
        assert(0 * (2 * n - 0 - 1) == 0);
    }
}

/// Rows from index `n - 1` on are empty.
proof fn lemma_rows_saturate(m: int, n: int)
    requires
        0 <= n,
        n - 1 <= m,
    ensures
        rows(m, n) == rows(n, n),
    decreases m,
{
    if m > n {
        lemma_rows_saturate(m - 1, n);
        assert(rows(m, n) =~= rows(m - 1, n));
    } else if m == n - 1 {
        assert(rows(n, n) =~= rows(n - 1, n));
    }
}

/// The first `m` rows are the start of any longer run of rows, and hold each of
/// their pairs at its index.
proof fn lemma_rows_hold(m: int, n: int, a: int, b: int)
    requires
        0 <= a < b < n,
        a < m,
    ensures
        0 <= pair_index(a, b, n as nat) < rows(m, n).len(),
        rows(m, n)[pair_index(a, b, n as nat)] == (a, b),
    decreases m,
{
    if a == m - 1 {
        assert(row(a, n)[b - a - 1] == (a, b));
    } else {
        lemma_rows_hold(m - 1, n, a, b);
    }
}

/// Every entry of the first `m` rows is a pair in order, standing at its index.
proof fn lemma_rows_entries(m: int, n: int, idx: int)
    requires
        0 <= n,
        0 <= idx < rows(m, n).len(),
    ensures
        0 <= rows(m, n)[idx].0 < rows(m, n)[idx].1 < n,
        rows(m, n)[idx].0 < m,
        pair_index(rows(m, n)[idx].0, rows(m, n)[idx].1, n as nat) == idx,
    decreases m,
{
    if m > 0 {
        if idx < rows(m - 1, n).len() {
            lemma_rows_entries(m - 1, n, idx);
        } else {
            let k = idx - rows(m - 1, n).len();
            assert(rows(m, n)[idx] == row(m - 1, n)[k]);
        }
    }
}

/// The broad phase is complete and exact: over `n` entities it visits
/// `n * (n - 1) / 2` pairs, every pair of distinct indices is among them with
/// its smaller index first, and none is visited twice.
pub proof fn all_pairs_enumerates_each_pair_once(n: nat)
    ensures
        all_pairs(n).len() == n * (n - 1) / 2,
        forall|i: int|
            0 <= i < all_pairs(n).len() ==> 0 <= (#[trigger] all_pairs(n)[i]).0 < all_pairs(
                n,
            )[i].1 < n,
        forall|a: int, b: int|
            0 <= a < b < n ==> 0 <= #[trigger] pair_index(a, b, n) < all_pairs(n).len()
                && all_pairs(n)[pair_index(a, b, n)] == (a, b),
        forall|i: int, j: int|
            0 <= i < all_pairs(n).len() && 0 <= j < all_pairs(n).len() && i != j
                ==> all_pairs(n)[i] != all_pairs(n)[j],
{
    lemma_rows_len(n as int, n as int);
    assert forall|i: int| 0 <= i < all_pairs(n).len() implies 0 <= (#[trigger] all_pairs(
        n,
    )[i]).0 < all_pairs(n)[i].1 < n by {
        lemma_rows_entries(n as int, n as int, i);
    }
    assert forall|a: int, b: int| 0 <= a < b < n implies 0 <= #[trigger] pair_index(a, b, n)
        < all_pairs(n).len() && all_pairs(n)[pair_index(a, b, n)] == (a, b) by {
        lemma_rows_hold(n as int, n as int, a, b);
    }
    assert forall|i: int, j: int|
        0 <= i < all_pairs(n).len() && 0 <= j < all_pairs(n).len() && i != j implies all_pairs(
        n,
    )[i] != all_pairs(n)[j] by {
        lemma_rows_entries(n as int, n as int, i);
        lemma_rows_entries(n as int, n as int, j);
    }
}

/// A cursor over the unordered pairs of `count` indices: the broad phase, one
/// pair at a time.
#[derive(Clone, Debug)]
pub struct Pairs {
    first: usize,
    second: usize,
    count: usize,
}

impl Pairs {
    /// The number of indices that the pairs are drawn from.
    pub closed spec fn count(self) -> nat {
        self.count as nat
    }

    /// How many pairs have been handed out.
    pub closed spec fn position(self) -> nat {
        (rows(self.first as int, self.count as int).len() + self.second - self.first - 1) as nat
    }

    /// The cursor stands on a pair of [`all_pairs`], or behind the last one.
    pub closed spec fn well_formed(self) -> bool {
        &&& self.first < self.second
        &&& self.second < self.count || (self.second == self.first + 1 && self.first + 1
            >= self.count)
    }

    /// A well-formed cursor has handed out no more pairs than there are.
    pub proof fn position_in_bounds(self)
        requires
            self.well_formed(),
        ensures
            self.position() <= all_pairs(self.count()).len(),
    {
        let n = self.count as int;
        if self.second < self.count {
            lemma_rows_hold(n, n, self.first as int, self.second as int);
        } else {
            lemma_rows_saturate(self.first as int, n);
        }
    }

    /// A cursor before the first pair of `count` indices.
    pub fn new(count: usize) -> (pairs: Self)
        ensures
            pairs.well_formed(),
            pairs.count() == count,
            pairs.position() == 0,
    {
        Pairs { first: 0, second: 1, count }
    }

    /// Hands out the next pair, smaller index first, or `None` when every pair
    /// has been handed out.
    pub fn next(&mut self) -> (pair: Option<(usize, usize)>)
        requires
            old(self).well_formed(),
        ensures
            final(self).well_formed(),
            final(self).count() == old(self).count(),
            pair.is_some() <==> old(self).position() < all_pairs(old(self).count()).len(),
            pair.is_none() ==> *final(self) == *old(self),
            pair matches Some(p) ==> {
                &&& final(self).position() == old(self).position() + 1
                &&& (p.0 as int, p.1 as int) == all_pairs(old(self).count())[old(
                    self,
                ).position() as int]
                &&& p.0 < p.1 < old(self).count()
            },
    {
        let ghost n = self.count as int;
        if self.second >= self.count {
            proof {
                lemma_rows_saturate(self.first as int, n);
            }
            return None;
        }
        let pair = (self.first, self.second);
        proof {
            lemma_rows_hold(n, n, self.first as int, self.second as int);
        }
        if self.second + 1 < self.count {
            self.second = self.second + 1;
        } else {
            proof {
                assert(rows(self.first + 1, n) =~= rows(self.first as int, n) + row(
                    self.first as int,
                    n,
                ));
            }
            self.first = self.first + 1;
            self.second = self.first + 1;
        }
        Some(pair)
    }
}

} // verus!
