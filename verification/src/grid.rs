//! The spatial grid that proposes collision pairs.
//!
//! Every object sits in a square cell of the world; two objects can only
//! touch when their cells are equal or adjacent. The grid buckets the object
//! indices by cell, and for an object `i` lists the objects `j > i` in the
//! nine cells around a given cell, so that each nearby pair is looked at once.

use std::collections::HashMap;
use vstd::prelude::*;

verus! {

broadcast use vstd::std_specs::hash::group_hash_axioms;

/// The key under which a cell's bucket is stored.
pub open spec fn cell_key_spec(c: (i32, i32)) -> i64 {
    (c.0 as int * 0x1_0000_0000 + (c.1 as int + 0x8000_0000)) as i64
}

fn cell_key(c: (i32, i32)) -> (k: i64)
    ensures
        k == cell_key_spec(c),
{
    (c.0 as i64) * 0x1_0000_0000i64 + ((c.1 as i64) + 0x8000_0000i64)
}

proof fn lemma_cell_key_injective(a: (i32, i32), b: (i32, i32))
    ensures
        cell_key_spec(a) == cell_key_spec(b) ==> a == b,
{
    let ka = a.0 as int * 0x1_0000_0000 + (a.1 as int + 0x8000_0000);
    let kb = b.0 as int * 0x1_0000_0000 + (b.1 as int + 0x8000_0000);
    assert(i64::MIN <= ka <= i64::MAX);
    assert(i64::MIN <= kb <= i64::MAX);
    if ka == kb {
        assert(a.0 == b.0) by (nonlinear_arith)
            requires
                a.0 as int * 0x1_0000_0000 + (a.1 as int + 0x8000_0000) == b.0 as int * 0x1_0000_0000
                    + (b.1 as int + 0x8000_0000),
                0 <= a.1 as int + 0x8000_0000 < 0x1_0000_0000,
                0 <= b.1 as int + 0x8000_0000 < 0x1_0000_0000,
        ;
    }
}

/// The indices below `n` whose cell is `c`, in increasing order.
pub open spec fn bucket(cells: Seq<(i32, i32)>, n: int, c: (i32, i32)) -> Seq<usize>
    decreases n,
{
    if n <= 0 {
        Seq::empty()
    } else {
        bucket(cells, n - 1, c) + if cells[n - 1] == c {
            seq![(n - 1) as usize]
        } else {
            Seq::empty()
        }
    }
}

/// The elements of `s` that are greater than `i`, in their order in `s`.
pub open spec fn greater_than(s: Seq<usize>, i: int) -> Seq<usize>
    decreases s.len(),
{
    if s.len() == 0 {
        Seq::empty()
    } else {
        greater_than(s.drop_last(), i) + if s.last() > i {
            seq![s.last()]
        } else {
            Seq::empty()
        }
    }
}

/// The `k`-th of the nine cells around `c`, row by row from the lower-left
/// corner: `k % 3` picks the column offset, `k / 3` the row offset.
pub open spec fn neighbor(c: (i32, i32), k: int) -> (i32, i32) {
    ((c.0 + k % 3 - 1) as i32, (c.1 + k / 3 - 1) as i32)
}

/// Whether cell `d` is `c` or one of its eight neighbours.
pub open spec fn near(d: (i32, i32), c: (i32, i32)) -> bool {
    &&& -1 <= d.0 - c.0 <= 1
    &&& -1 <= d.1 - c.1 <= 1
}

/// The position of cell `d` among the nine cells around `c`.
pub open spec fn slot(c: (i32, i32), d: (i32, i32)) -> int {
    (d.1 - c.1 + 1) * 3 + (d.0 - c.0 + 1)
}

/// Whether neither coordinate of `c` is at the end of the `i32` range, so
/// that its neighbours are cells too.
pub open spec fn inner_cell(c: (i32, i32)) -> bool {
    &&& i32::MIN < c.0 < i32::MAX
    &&& i32::MIN < c.1 < i32::MAX
}

/// The candidates of object `i` from the first `k` of the nine cells around
/// `c`.
pub open spec fn candidates_upto(cells: Seq<(i32, i32)>, i: int, c: (i32, i32), k: int) -> Seq<usize>
    decreases k,
{
    if k <= 0 {
        Seq::empty()
    } else {
        candidates_upto(cells, i, c, k - 1) + greater_than(
            bucket(cells, cells.len() as int, neighbor(c, k - 1)),
            i,
        )
    }
}

/// The objects `j > i` whose cell is one of the nine cells around `c`: cell
/// by cell, row by row, and in increasing order within a cell.
pub open spec fn candidates_spec(cells: Seq<(i32, i32)>, i: int, c: (i32, i32)) -> Seq<usize> {
    candidates_upto(cells, i, c, 9)
}

/// What the bucket map holds for cell `c`, an absent bucket read as empty.
pub open spec fn lookup(m: Map<i64, Vec<usize>>, c: (i32, i32)) -> Seq<usize> {
    if m.contains_key(cell_key_spec(c)) {
        m[cell_key_spec(c)]@
    } else {
        Seq::empty()
    }
}

/// The object indices bucketed by cell.
pub struct CellGrid {
    buckets: HashMap<i64, Vec<usize>>,
    cells: Ghost<Seq<(i32, i32)>>,
}

impl View for CellGrid {
    type V = Seq<(i32, i32)>;

    /// The cells of the objects, by object index, that the grid was built from.
    closed spec fn view(&self) -> Seq<(i32, i32)> {
        self.cells@
    }
}

proof fn lemma_bucket(cells: Seq<(i32, i32)>, n: int, c: (i32, i32))
    requires
        0 <= n <= cells.len(),
        n <= usize::MAX + 1,
    ensures
        forall|t: int|
            0 <= t < bucket(cells, n, c).len() ==> {
                &&& (#[trigger] bucket(cells, n, c)[t]) < n
                &&& cells[bucket(cells, n, c)[t] as int] == c
            },
        forall|a: int, b: int|
            0 <= a < b < bucket(cells, n, c).len() ==> #[trigger] bucket(cells, n, c)[a]
                < #[trigger] bucket(cells, n, c)[b],
        forall|j: int|
            0 <= j < n && #[trigger] cells[j] == c ==> bucket(cells, n, c).contains(j as usize),
    decreases n,
{
    if n > 0 {
        lemma_bucket(cells, n - 1, c);
        let prev = bucket(cells, n - 1, c);
        let cur = bucket(cells, n, c);
        if cells[n - 1] == c {
            assert(cur == prev.push((n - 1) as usize));
            assert(cur[prev.len() as int] == (n - 1) as usize);
        } else {
            assert(cur == prev);
        }
        assert forall|j: int| 0 <= j < n && #[trigger] cells[j] == c implies cur.contains(
            j as usize,
        ) by {
            if j < n - 1 {
                assert(prev.contains(j as usize));
                let t = choose|t: int| 0 <= t < prev.len() && prev[t] == j as usize;
                assert(cur[t] == prev[t]);
            } else {
                assert(cur[prev.len() as int] == j as usize);
            }
        }
    }
}

proof fn lemma_greater_than(s: Seq<usize>, i: int)
    ensures
        forall|t: int|
            0 <= t < greater_than(s, i).len() ==> (#[trigger] greater_than(s, i)[t]) > i
                && s.contains(greater_than(s, i)[t]),
        forall|x: usize| #[trigger] s.contains(x) && x > i ==> greater_than(s, i).contains(x),
        (forall|a: int, b: int| 0 <= a < b < s.len() ==> #[trigger] s[a] < #[trigger] s[b]) ==> (
        forall|a: int, b: int|
            0 <= a < b < greater_than(s, i).len() ==> #[trigger] greater_than(s, i)[a]
                < #[trigger] greater_than(s, i)[b]),
    decreases s.len(),
{
    if s.len() > 0 {
        let p = s.drop_last();
        lemma_greater_than(p, i);
        let gp = greater_than(p, i);
        let g = greater_than(s, i);
        if s.last() > i {
            assert(g == gp.push(s.last()));
        } else {
            assert(g == gp);
        }
        assert forall|t: int| 0 <= t < g.len() implies (#[trigger] g[t]) > i && s.contains(g[t]) by {
            if t < gp.len() {
                assert(g[t] == gp[t]);
                assert(p.contains(gp[t]));
                let u = choose|u: int| 0 <= u < p.len() && p[u] == gp[t];
                assert(s[u] == p[u]);
            } else {
                assert(g[t] == s.last());
                assert(s[s.len() - 1] == s.last());
            }
        }
        assert forall|x: usize| #[trigger] s.contains(x) && x > i implies g.contains(x) by {
            let u = choose|u: int| 0 <= u < s.len() && s[u] == x;
            if u < s.len() - 1 {
                assert(p[u] == x);
                assert(p.contains(x));
                assert(gp.contains(x));
                let t = choose|t: int| 0 <= t < gp.len() && gp[t] == x;
                assert(g[t] == gp[t]);
            } else {
                assert(g[gp.len() as int] == x);
            }
        }
        if forall|a: int, b: int| 0 <= a < b < s.len() ==> #[trigger] s[a] < #[trigger] s[b] {
            assert forall|a: int, b: int| 0 <= a < b < p.len() implies #[trigger] p[a]
                < #[trigger] p[b] by {
                assert(p[a] == s[a] && p[b] == s[b]);
            }
            assert forall|a: int, b: int| 0 <= a < b < g.len() implies #[trigger] g[a]
                < #[trigger] g[b] by {
                if b < gp.len() {
                    assert(g[a] == gp[a] && g[b] == gp[b]);
                } else {
                    assert(g[b] == s.last());
                    assert(g[a] == gp[a]);
                    assert(p.contains(gp[a]));
                    let u = choose|u: int| 0 <= u < p.len() && p[u] == gp[a];
                    assert(s[u] == p[u]);
                    assert(s[u] < s[s.len() - 1]);
                }
            }
        }
    }
}

proof fn lemma_slot(c: (i32, i32))
    requires
        inner_cell(c),
    ensures
        forall|q: int|
            0 <= q < 9 ==> near(#[trigger] neighbor(c, q), c) && slot(c, neighbor(c, q)) == q,
        forall|d: (i32, i32)|
            #[trigger] near(d, c) ==> 0 <= slot(c, d) < 9 && neighbor(c, slot(c, d)) == d,
{
    assert forall|q: int| 0 <= q < 9 implies near(#[trigger] neighbor(c, q), c) && slot(
        c,
        neighbor(c, q),
    ) == q by {
        assert(q == 0 || q == 1 || q == 2 || q == 3 || q == 4 || q == 5 || q == 6 || q == 7 || q
            == 8);
    }
    assert forall|d: (i32, i32)| #[trigger] near(d, c) implies 0 <= slot(c, d) < 9 && neighbor(
        c,
        slot(c, d),
    ) == d by {
        let dx = d.0 - c.0;
        let dy = d.1 - c.1;
        assert(dx == -1 || dx == 0 || dx == 1);
        assert(dy == -1 || dy == 0 || dy == 1);
        let s = slot(c, d);
        assert(s == (dy + 1) * 3 + (dx + 1));
        assert(s % 3 == dx + 1 && s / 3 == dy + 1) by {
            assert(s == 0 || s == 1 || s == 2 || s == 3 || s == 4 || s == 5 || s == 6 || s == 7
                || s == 8);
        }
    }
}

proof fn lemma_candidates_upto(cells: Seq<(i32, i32)>, i: int, c: (i32, i32), k: int)
    requires
        0 <= k <= 9,
        cells.len() <= usize::MAX,
        inner_cell(c),
    ensures
        forall|t: int|
            0 <= t < candidates_upto(cells, i, c, k).len() ==> {
                let j = #[trigger] candidates_upto(cells, i, c, k)[t];
                &&& i < j < cells.len()
                &&& near(cells[j as int], c)
                &&& slot(c, cells[j as int]) < k
            },
        forall|j: int|
            0 <= j && i < j < cells.len() && near(#[trigger] cells[j], c) && slot(c, cells[j]) < k
                ==> candidates_upto(cells, i, c, k).contains(j as usize),
        candidates_upto(cells, i, c, k).no_duplicates(),
    decreases k,
{
    lemma_slot(c);
    if k > 0 {
        lemma_candidates_upto(cells, i, c, k - 1);
        let n = cells.len() as int;
        let q = k - 1;
        let b = bucket(cells, n, neighbor(c, q));
        lemma_bucket(cells, n, neighbor(c, q));
        lemma_greater_than(b, i);
        let prev = candidates_upto(cells, i, c, q);
        let g = greater_than(b, i);
        let cur = candidates_upto(cells, i, c, k);
        assert(cur == prev + g);
        assert(near(neighbor(c, q), c) && slot(c, neighbor(c, q)) == q);
        // What the new segment holds.
        assert forall|t: int| 0 <= t < g.len() implies {
            let j = #[trigger] g[t];
            &&& i < j < n
            &&& cells[j as int] == neighbor(c, q)
        } by {
            assert(b.contains(g[t]));
            let u = choose|u: int| 0 <= u < b.len() && b[u] == g[t];
            assert(b[u] < n && cells[b[u] as int] == neighbor(c, q));
        }
        assert forall|t: int| 0 <= t < cur.len() implies {
            let j = #[trigger] cur[t];
            &&& i < j < cells.len()
            &&& near(cells[j as int], c)
            &&& slot(c, cells[j as int]) < k
        } by {
            if t < prev.len() {
                assert(cur[t] == prev[t]);
            } else {
                assert(cur[t] == g[t - prev.len()]);
            }
        }
        assert forall|j: int|
            0 <= j && i < j < cells.len() && near(#[trigger] cells[j], c) && slot(c, cells[j])
                < k implies cur.contains(j as usize) by {
            if slot(c, cells[j]) < q {
                assert(prev.contains(j as usize));
                let t = choose|t: int| 0 <= t < prev.len() && prev[t] == j as usize;
                assert(cur[t] == prev[t]);
            } else {
                assert(cells[j] == neighbor(c, q));
                assert(b.contains(j as usize));
                assert(g.contains(j as usize));
                let t = choose|t: int| 0 <= t < g.len() && g[t] == j as usize;
                assert(cur[prev.len() + t] == g[t]);
            }
        }
        assert forall|a: int, bb: int| 0 <= a < cur.len() && 0 <= bb < cur.len() && a
            != bb implies cur[a] != cur[bb] by {
            if a < prev.len() && bb < prev.len() {
                assert(cur[a] == prev[a] && cur[bb] == prev[bb]);
            } else if a >= prev.len() && bb >= prev.len() {
                let x = a - prev.len();
                let y = bb - prev.len();
                assert(cur[a] == g[x] && cur[bb] == g[y]);
                if x < y {
                    assert(g[x] < g[y]);
                } else {
                    assert(g[y] < g[x]);
                }
            } else if a < prev.len() {
                assert(cur[a] == prev[a]);
                assert(cur[bb] == g[bb - prev.len()]);
                assert(slot(c, cells[prev[a] as int]) < q);
                assert(cells[g[bb - prev.len()] as int] == neighbor(c, q));
            } else {
                assert(cur[bb] == prev[bb]);
                assert(cur[a] == g[a - prev.len()]);
                assert(slot(c, cells[prev[bb] as int]) < q);
                assert(cells[g[a - prev.len()] as int] == neighbor(c, q));
            }
        }
    }
}

/// Object `j` is a collision candidate of object `i` in cell `c` exactly
/// when it comes after `i` and its cell is `c` or a neighbour of `c`; no
/// candidate is listed twice.
pub proof fn lemma_candidates_are_near_later_objects(cells: Seq<(i32, i32)>, i: int, c: (i32, i32))
    requires
        cells.len() <= usize::MAX,
        inner_cell(c),
    ensures
        forall|j: usize|
            #[trigger] candidates_spec(cells, i, c).contains(j) <==> (i < j < cells.len() && near(
                cells[j as int],
                c,
            )),
        candidates_spec(cells, i, c).no_duplicates(),
{
    lemma_candidates_upto(cells, i, c, 9);
    lemma_slot(c);
    let s = candidates_spec(cells, i, c);
    assert forall|j: usize| #[trigger] s.contains(j) <==> (i < j < cells.len() && near(
        cells[j as int],
        c,
    )) by {
        if s.contains(j) {
            let t = choose|t: int| 0 <= t < s.len() && s[t] == j;
            assert(s[t] == j);
        }
        if i < j < cells.len() && near(cells[j as int], c) {
            assert(slot(c, cells[j as int]) < 9);
        }
    }
}

impl CellGrid {
    #[verifier::type_invariant]
    spec fn buckets_match(self) -> bool {
        &&& self.cells@.len() <= usize::MAX
        &&& forall|c: (i32, i32)|
            #[trigger] lookup(self.buckets@, c) == bucket(self.cells@, self.cells@.len() as int, c)
    }

    /// Buckets the objects `0..cells.len()` by their cells.
    pub fn build(cells: &[(i32, i32)]) -> (grid: CellGrid)
        ensures
            grid@ == cells@,
    {
        let mut buckets: HashMap<i64, Vec<usize>> = HashMap::new();
        let n = cells.len();
        let mut i: usize = 0;
        while i < n
            invariant
                n == cells@.len(),
                i <= n,
                forall|c: (i32, i32)|
                    #[trigger] lookup(buckets@, c) == bucket(cells@, i as int, c),
            decreases n - i,
        {
            let c = cells[i];
            let k = cell_key(c);
            let ghost before = buckets@;
            let mut list: Vec<usize> = match buckets.remove(&k) {
                Some(v) => v,
                None => Vec::new(),
            };
            assert(list@ == lookup(before, c));
            list.push(i);
            buckets.insert(k, list);
            proof {
                assert forall|d: (i32, i32)| #[trigger]
                    lookup(buckets@, d) == bucket(cells@, i + 1, d) by {
                    lemma_cell_key_injective(c, d);
                    assert(lookup(before, d) == bucket(cells@, i as int, d));
                    assert(cells@[i as int] == c);
                    if d == c {
                        assert(lookup(buckets@, d) == bucket(cells@, i as int, d).push(i));
                    } else {
                        assert(lookup(buckets@, d) == lookup(before, d));
                    }
                }
            }
            i += 1;
        }
        CellGrid { buckets, cells: Ghost(cells@) }
    }

    /// The collision candidates of object `i` when it sits in cell `c`: the
    /// objects `j > i` in the nine cells around `c`, cell by cell and row by
    /// row, in increasing order within a cell.
    pub fn candidates(&self, i: usize, c: (i32, i32)) -> (out: Vec<usize>)
        requires
            inner_cell(c),
        ensures
            out@ == candidates_spec(self@, i as int, c),
            forall|j: usize|
                #[trigger] out@.contains(j) <==> (i < j < self@.len() && near(self@[j as int], c)),
            out@.no_duplicates(),
    {
        proof {
            use_type_invariant(self);
            lemma_candidates_are_near_later_objects(self.cells@, i as int, c);
        }
        let mut out: Vec<usize> = Vec::new();
        let mut k: usize = 0;
        while k < 9
            invariant
                k <= 9,
                inner_cell(c),
                out@ == candidates_upto(self.cells@, i as int, c, k as int),
                forall|d: (i32, i32)|
                    #[trigger] lookup(self.buckets@, d) == bucket(
                        self.cells@,
                        self.cells@.len() as int,
                        d,
                    ),
            decreases 9 - k,
        {
            let ox: i32 = (k % 3) as i32 - 1;
            let oy: i32 = (k / 3) as i32 - 1;
            let cell = (c.0 + ox, c.1 + oy);
            assert(cell == neighbor(c, k as int));
            let key = cell_key(cell);
            let ghost b = bucket(self.cells@, self.cells@.len() as int, cell);
            assert(lookup(self.buckets@, cell) == b);
            let ghost before = out@;
            match self.buckets.get(&key) {
                Some(list) => {
                    assert(list@ == b);
                    let mut t: usize = 0;
                    while t < list.len()
                        invariant
                            t <= list@.len(),
                            out@ == before + greater_than(list@.take(t as int), i as int),
                        decreases list@.len() - t,
                    {
                        assert(list@.take(t + 1).drop_last() == list@.take(t as int));
                        let j = list[t];
                        if j > i {
                            out.push(j);
                        }
                        t += 1;
                    }
                    assert(list@.take(list@.len() as int) == list@);
                },
                None => {
                    assert(b == Seq::<usize>::empty());
                    assert(greater_than(b, i as int) == Seq::<usize>::empty());
                    assert(out@ == before + greater_than(b, i as int));
                },
            }
            k += 1;
        }
        out
    }
}

} // verus!
