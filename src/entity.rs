//! Addressing of grid positions: the whole grid, a row, a column or one cell,
//! and the precedence by which settings keyed by these resolve on a cell.

use vstd::prelude::*;

verus! {

/// A selection of grid positions.
#[derive(Clone, Copy, Debug, PartialEq, Eq, Structural)]
pub enum Entity {
    Global,
    Row(usize),
    Column(usize),
    Cell(usize, usize),
}

impl Entity {
    /// Whether the entity selects the position `(row, col)`.
    pub open spec fn covers(self, row: int, col: int) -> bool {
        match self {
            Entity::Global => true,
            Entity::Row(r) => r == row,
            Entity::Column(c) => c == col,
            Entity::Cell(r, c) => r == row && c == col,
        }
    }

    /// How specific the entity is at `(row, col)`: a cell 3, a row or column 2,
    /// the whole grid 1, and 0 where it does not select the position.
    pub open spec fn rank(self, row: int, col: int) -> int {
        match self {
            Entity::Global => 1,
            Entity::Row(r) => if r == row { 2 } else { 0 },
            Entity::Column(c) => if c == col { 2 } else { 0 },
            Entity::Cell(r, c) => if r == row && c == col { 3 } else { 0 },
        }
    }

    /// The positions selected within a grid of `rows` by `cols`, in row-major order.
    pub fn positions(&self, rows: usize, cols: usize) -> (r: Vec<(usize, usize)>)
        ensures
            forall|k: int|
                0 <= k < r@.len() ==> r@[k].0 < rows && r@[k].1 < cols && self.covers(
                    r@[k].0 as int,
                    r@[k].1 as int,
                ),
            forall|i: usize, j: usize|
                i < rows && j < cols && self.covers(i as int, j as int) ==> r@.contains((i, j)),
            forall|a: int, b: int|
                0 <= a < b < r@.len() ==> #[trigger] row_major_before(r@[a], r@[b]),
    {
        let mut out: Vec<(usize, usize)> = Vec::new();
        let mut i: usize = 0;
        while i < rows
            invariant
                i <= rows,
                forall|k: int|
                    0 <= k < out@.len() ==> out@[k].0 < i && out@[k].1 < cols && self.covers(
                        out@[k].0 as int,
                        out@[k].1 as int,
                    ),
                forall|a: usize, b: usize|
                    a < i && b < cols && self.covers(a as int, b as int) ==> out@.contains((a, b)),
                forall|a: int, b: int|
                    0 <= a < b < out@.len() ==> #[trigger] row_major_before(out@[a], out@[b]),
            decreases rows - i,
        {
            let mut j: usize = 0;
            while j < cols
                invariant
                    i < rows,
                    j <= cols,
                    forall|k: int|
                        0 <= k < out@.len() ==> (out@[k].0 < i || (out@[k].0 == i && out@[k].1
                            < j)) && out@[k].1 < cols && self.covers(
                            out@[k].0 as int,
                            out@[k].1 as int,
                        ),
                    forall|a: usize, b: usize|
                        ((a < i && b < cols) || (a == i && b < j)) && self.covers(a as int, b as int)
                            ==> out@.contains((a, b)),
                    forall|a: int, b: int|
                        0 <= a < b < out@.len() ==> #[trigger] row_major_before(out@[a], out@[b]),
                decreases cols - j,
            {
                let selected = match self {
                    Entity::Global => true,
                    Entity::Row(r) => *r == i,
                    Entity::Column(c) => *c == j,
                    Entity::Cell(r, c) => *r == i && *c == j,
                };
                if selected {
                    let ghost prev = out@;
                    out.push((i, j));
                    proof {
                        assert forall|a: usize, b: usize|
                            ((a < i && b < cols) || (a == i && b < j + 1)) && self.covers(
                                a as int,
                                b as int,
                            ) implies out@.contains((a, b)) by {
                            if a == i && b == j {
                                assert(out@[prev.len() as int] == (a, b));
                            } else {
                                assert(prev.contains((a, b)));
                                let w = choose|w: int| 0 <= w < prev.len() && prev[w] == (a, b);
                                assert(out@[w] == (a, b));
                            }
                        }
                    }
                }
                j = j + 1;
            }
            i = i + 1;
        }
        out
    }
}

/// Whether position `p` comes strictly before position `q` in row-major order.
pub open spec fn row_major_before(p: (usize, usize), q: (usize, usize)) -> bool {
    p.0 < q.0 || (p.0 == q.0 && p.1 < q.1)
}

/// The most specific setting for `(row, col)` among `entries`, with its rank;
/// among settings of equal rank the one applied last.
pub open spec fn pick<T>(entries: Seq<(Entity, T)>, row: int, col: int) -> Option<(int, T)>
    decreases entries.len(),
{
    if entries.len() == 0 {
        None
    } else {
        let prev = pick(entries.drop_last(), row, col);
        let k = entries.last().0.rank(row, col);
        let outranks = match prev {
            None => true,
            Some(p) => k >= p.0,
        };
        if k > 0 && outranks {
            Some((k, entries.last().1))
        } else {
            prev
        }
    }
}

/// The value in force at `(row, col)`: a cell setting over a row or column
/// setting over a grid-wide one, the last applied among equals, else `default`.
pub open spec fn resolve<T>(entries: Seq<(Entity, T)>, row: int, col: int, default: T) -> T {
    match pick(entries, row, col) {
        Some(p) => p.1,
        None => default,
    }
}

/// Looks up the value in force at `(row, col)`.
pub fn lookup<T: Copy>(entries: &Vec<(Entity, T)>, row: usize, col: usize, default: T) -> (r: T)
    ensures
        r == resolve(entries@, row as int, col as int, default),
{
    let mut best_rank: u8 = 0;
    let mut best = default;
    let mut i: usize = 0;
    while i < entries.len()
        invariant
            i <= entries@.len(),
            match pick(entries@.subrange(0, i as int), row as int, col as int) {
                Some(p) => p.0 == best_rank as int && p.1 == best && best_rank > 0,
                None => best_rank == 0 && best == default,
            },
        decreases entries@.len() - i,
    {
        let e = entries[i].0;
        let k: u8 = match e {
            Entity::Global => 1,
            Entity::Row(r) => if r == row { 2 } else { 0 },
            Entity::Column(c) => if c == col { 2 } else { 0 },
            Entity::Cell(r, c) => if r == row && c == col { 3 } else { 0 },
        };
        proof {
            let s = entries@.subrange(0, i + 1);
            assert(s.drop_last() =~= entries@.subrange(0, i as int));
            assert(s.last() == entries@[i as int]);
        }
        if k > 0 && k >= best_rank {
            best_rank = k;
            best = entries[i].1;
        }
        i = i + 1;
    }
    assert(entries@.subrange(0, i as int) =~= entries@);
    best
}

/// A cell's own setting is in force at that cell, whatever grid-wide, row or
/// column settings come after it.
pub proof fn lemma_cell_setting_wins<T>(
    before: Seq<(Entity, T)>,
    after: Seq<(Entity, T)>,
    row: usize,
    col: usize,
    value: T,
    default: T,
)
    requires
        forall|k: int| 0 <= k < after.len() ==> after[k].0 != Entity::Cell(row, col),
    ensures
        resolve(before.push((Entity::Cell(row, col), value)) + after, row as int, col as int, default)
            == value,
        pick(before.push((Entity::Cell(row, col), value)) + after, row as int, col as int) == Some(
            (3int, value),
        ),
    decreases after.len(),
{
    let s = before.push((Entity::Cell(row, col), value));
    if after.len() == 0 {
        assert(s + after =~= s);
        assert(s.drop_last() =~= before);
        lemma_pick_rank_bound(before, row as int, col as int);
    } else {
        let shorter = after.drop_last();
        lemma_cell_setting_wins(before, shorter, row, col, value, default);
        assert((s + after).drop_last() =~= s + shorter);
        assert((s + after).last() == after.last());
        assert(after.last().0 != Entity::Cell(row, col));
    }
}

proof fn lemma_pick_rank_bound<T>(entries: Seq<(Entity, T)>, row: int, col: int)
    ensures
        pick(entries, row, col) matches Some(p) ==> 1 <= p.0 <= 3,
    decreases entries.len(),
{
    if entries.len() > 0 {
        lemma_pick_rank_bound(entries.drop_last(), row, col);
    }
}

/// A resolved value is the default or one of the values set.
pub proof fn lemma_resolve_in<T>(entries: Seq<(Entity, T)>, row: int, col: int, v: T, default: T)
    requires
        v == resolve(entries, row, col, default),
    ensures
        v == default || exists|k: int| 0 <= k < entries.len() && entries[k].1 == v,
    decreases entries.len(),
{
    if entries.len() > 0 {
        let prev = entries.drop_last();
        if v != entries.last().1 {
            if pick(entries, row, col) is Some {
                assert(pick(entries, row, col) == pick(prev, row, col));
            }
            lemma_resolve_in(prev, row, col, v, default);
            if v != default {
                let k = choose|k: int| 0 <= k < prev.len() && prev[k].1 == v;
                assert(entries[k].1 == v);
            }
        } else {
            assert(entries[entries.len() - 1].1 == v);
        }
    }
}

} // verus!
