//! This module provides a [`Grid`] structure and methods for
//! creating and modifying maps.
//!
//! Map generation can be seen as running a series of transformations
//! over a starting point to incrementally add more detail. Every
//! transformation leaves the old grid behind and builds a brand-new one,
//! so steps can be rearranged, added, removed or modified to allow for
//! easier experimentation. The per-cell work is farmed out to a worker
//! pool; the only guarantee is that the output cell at (x, y) is the
//! transform applied to the input cell at (x, y), never anything about
//! the order in which cells are visited.
use rayon::iter::{IntoParallelIterator, ParallelIterator};
use vstd::prelude::*;

verus! {

/// Contains all information about a world map: its dimensions and one
/// value per cell, kept in row-major order.
pub struct Grid<T> {
    width: usize,
    height: usize,
    inner: Vec<T>,
}

/// Applies `f` to every element of `v`, in parallel, producing the vector
/// of results in the original element order.
///
/// Relies on rayon's `IntoParallelIterator` for `Vec`, `ParallelIterator::map`
/// and `collect` into a `Vec`: `map` applies the operation to each item and
/// `collect` places each result at the index of the item it came from.
#[verifier::external_body]
fn par_map<T: Send, U: Send, F: Fn(T) -> U + Send + Sync>(v: Vec<T>, f: F) -> (r: Vec<U>)
    requires
        forall|i: int| 0 <= i < v@.len() ==> call_requires(f, (#[trigger] v@[i],)),
    ensures
        r@.len() == v@.len(),
        forall|i: int| 0 <= i < v@.len() ==> call_ensures(f, (v@[i],), #[trigger] r@[i]),
{
    v.into_par_iter().map(f).collect()
}

/// Applies `f` to every element of `v`, a cell paired with its coordinates,
/// in parallel, producing the vector of results in the original element
/// order.
///
/// Relies on rayon's `IntoParallelIterator` for `Vec`, `ParallelIterator::map`
/// and `collect` into a `Vec`, exactly as [`par_map`] does; the closure handed
/// to rayon only unpacks the tuple's fields for `f`.
#[verifier::external_body]
fn par_map_coords<T: Send, U: Send, F: Fn(T, usize, usize) -> U + Send + Sync>(
    v: Vec<(T, usize, usize)>,
    f: F,
) -> (r: Vec<U>)
    requires
        forall|i: int|
            0 <= i < v@.len() ==> call_requires(f, ((#[trigger] v@[i]).0, v@[i].1, v@[i].2)),
    ensures
        r@.len() == v@.len(),
        forall|i: int|
            0 <= i < v@.len() ==> call_ensures(f, (v@[i].0, v@[i].1, v@[i].2), #[trigger] r@[i]),
{
    v.into_par_iter().map(|txy| f(txy.0, txy.1, txy.2)).collect()
}

/// Law: a cell's row-major index lies inside the grid's cell sequence, so
/// speaking of the cell at (x, y) is speaking of one of width * height cells.
pub proof fn lemma_row_major_bounds(x: int, y: int, width: int, height: int)
    requires
        0 <= x < width,
        0 <= y < height,
    ensures
        0 <= y * width + x < width * height,
{
    assert(0 <= y * width + x < width * height) by (nonlinear_arith)
        requires
            0 <= x < width,
            0 <= y < height,
    ;
}

impl<T> Grid<T> {
    /// The cells of the grid in row-major order: the cell at coordinates
    /// (x, y) stands at index y * width + x.
    pub closed spec fn cells(&self) -> Seq<T> {
        self.inner@
    }

    /// The width of the map, in spec code.
    pub closed spec fn spec_width(&self) -> usize {
        self.width
    }

    /// The height of the map, in spec code.
    pub closed spec fn spec_height(&self) -> usize {
        self.height
    }

    /// A grid is never partially populated: it always holds exactly
    /// width * height cells, and both dimensions are positive.
    pub open spec fn wf(&self) -> bool {
        &&& 0 < self.spec_width()
        &&& 0 < self.spec_height()
        &&& self.cells().len() == (self.spec_width() as int) * (self.spec_height() as int)
    }

    /// The cell at coordinates (x, y).
    pub open spec fn cell_at(&self, x: int, y: int) -> T {
        self.cells()[y * (self.spec_width() as int) + x]
    }

    /// Gets the width of the map.
    #[verifier::when_used_as_spec(spec_width)]
    pub fn width(&self) -> (w: usize)
        ensures
            w == self.spec_width(),
    {
        self.width
    }

    /// Gets the height of the map.
    #[verifier::when_used_as_spec(spec_height)]
    pub fn height(&self) -> (h: usize)
        ensures
            h == self.spec_height(),
    {
        self.height
    }

    /// Returns an iterator that iterates over the cells in a map,
    /// in row-major order.
    pub fn iter(&self) -> (it: GridIter<T>)
        ensures
            it.elements() == self.cells(),
            it.position() == 0,
    {
        GridIter { inner: &self.inner, index: 0 }
    }
}

impl<T: Copy> Grid<T> {
    /// Creates a [`Grid`] with every cell set to the same `value`.
    pub fn return_single(value: T, width: usize, height: usize) -> (r: Grid<T>)
        requires
            0 < width,
            0 < height,
            width * height <= usize::MAX,
        ensures
            r.wf(),
            r.spec_width() == width,
            r.spec_height() == height,
            forall|i: int| 0 <= i < r.cells().len() ==> r.cells()[i] == value,
    {
        let n = width * height;
        let mut inner: Vec<T> = Vec::new();
        let mut i: usize = 0;
        while i < n
            invariant
                i <= n,
                inner@.len() == i,
                forall|j: int| 0 <= j < i ==> inner@[j] == value,
            decreases n - i,
        {
            inner.push(value);
            i += 1;
        }
        Grid { width, height, inner }
    }
}

impl<T: Send> Grid<T> {
    /// Creates a new [`Grid`] where every cell is transformed by the
    /// function `f`. This is done concurrently to speed up computation;
    /// the output cell at (x, y) is `f` applied to the input cell at
    /// (x, y), whatever order the cells were visited in.
    pub fn and_then<F, U>(self, f: F) -> (r: Grid<U>) where
        F: Fn(T) -> U + Send + Sync,
        U: Send,

        requires
            self.wf(),
            forall|i: int|
                0 <= i < self.cells().len() ==> call_requires(f, (#[trigger] self.cells()[i],)),
        ensures
            r.wf(),
            r.spec_width() == self.spec_width(),
            r.spec_height() == self.spec_height(),
            forall|i: int|
                0 <= i < self.cells().len() ==> call_ensures(
                    f,
                    (self.cells()[i],),
                    #[trigger] r.cells()[i],
                ),
    {
        let Grid { width, height, inner } = self;
        let new_inner: Vec<U> = par_map(inner, f);
        Grid { width, height, inner: new_inner }
    }
}

/// Law: splitting a row-major index back into coordinates lands inside the
/// grid, and rebuilding the index from them gives the index back.
pub proof fn lemma_coords_of_index(i: int, width: int, height: int)
    requires
        0 < width,
        0 < height,
        0 <= i < width * height,
    ensures
        0 <= i % width < width,
        0 <= i / width < height,
        (i / width) * width + (i % width) == i,
{
    vstd::arithmetic::div_mod::lemma_fundamental_div_mod(i, width);
    vstd::arithmetic::div_mod::lemma_mod_bound(i, width);
    vstd::arithmetic::div_mod::lemma_div_pos_is_pos(i, width);
    vstd::arithmetic::mul::lemma_mul_is_commutative(width, i / width);
    if i / width >= height {
        vstd::arithmetic::mul::lemma_mul_inequality(height, i / width, width);
        vstd::arithmetic::mul::lemma_mul_is_commutative(height, width);
        assert(false);
    }
}

/// What it means for `res` to be the left fold of `combine` over the cell
/// sequence `s` starting from `seed`: there is a chain of intermediate
/// values, each a possible result of `combine` on the previous one and the
/// next cell.
pub open spec fn folds<F: Fn(R, T) -> R, T, R>(f: F, seed: R, s: Seq<T>, res: R) -> bool
    decreases s.len(),
{
    if s.len() == 0 {
        res == seed
    } else {
        exists|mid: R|
            folds(f, seed, s.drop_last(), mid) && #[trigger] call_ensures(f, (mid, s.last()), res)
    }
}

impl<T: Copy + Send> Grid<T> {
    /// Creates a new [`Grid`] where every cell is transformed by the
    /// function `f`. `f` is given the x and y coordinates for the cell
    /// that is being transformed. This is done concurrently to speed up
    /// computation; the output cell at (x, y) is `f` applied to the input
    /// cell at (x, y) and to those coordinates.
    pub fn and_then_with_coordinates<F, U>(self, f: F) -> (r: Grid<U>) where
        F: Fn(T, usize, usize) -> U + Send + Sync,
        U: Send,

        requires
            self.wf(),
            forall|x: int, y: int|
                0 <= x < self.spec_width() && 0 <= y < self.spec_height() ==> call_requires(
                    f,
                    (self.cell_at(x, y), x as usize, y as usize),
                ),
        ensures
            r.wf(),
            r.spec_width() == self.spec_width(),
            r.spec_height() == self.spec_height(),
            forall|x: int, y: int|
                0 <= x < self.spec_width() && 0 <= y < self.spec_height() ==> call_ensures(
                    f,
                    (self.cell_at(x, y), x as usize, y as usize),
                    r.cell_at(x, y),
                ),
    {
        let width = self.width;
        let height = self.height;
        let ghost g_self = self;
        let Grid { width: _, height: _, inner } = self;
        let total = inner.len();
        proof {
            assert(total == (width as int) * (height as int));
        }
        let mut items: Vec<(T, usize, usize)> = Vec::new();
        let mut y: usize = 0;
        while y < height
            invariant
                g_self.wf(),
                width == g_self.spec_width(),
                height == g_self.spec_height(),
                inner@ == g_self.cells(),
                total == (width as int) * (height as int),
                y <= height,
                items@.len() == y * width,
                forall|j: int|
                    0 <= j < items@.len() ==> #[trigger] items@[j] == (
                        g_self.cells()[j],
                        (j % (width as int)) as usize,
                        (j / (width as int)) as usize,
                    ),
            decreases height - y,
        {
            let mut x: usize = 0;
            while x < width
                invariant
                    g_self.wf(),
                    width == g_self.spec_width(),
                    height == g_self.spec_height(),
                    inner@ == g_self.cells(),
                    total == (width as int) * (height as int),
                    y < height,
                    x <= width,
                    items@.len() == y * width + x,
                    forall|j: int|
                        0 <= j < items@.len() ==> #[trigger] items@[j] == (
                            g_self.cells()[j],
                            (j % (width as int)) as usize,
                            (j / (width as int)) as usize,
                        ),
                decreases width - x,
            {
                proof {
                    lemma_row_major_bounds(x as int, y as int, width as int, height as int);
                    vstd::arithmetic::div_mod::lemma_fundamental_div_mod_converse_div(
                        y * width + x,
                        width as int,
                        y as int,
                        x as int,
                    );
                    vstd::arithmetic::div_mod::lemma_fundamental_div_mod_converse_mod(
                        y * width + x,
                        width as int,
                        y as int,
                        x as int,
                    );
                }
                let idx = y * width + x;
                items.push((inner[idx], x, y));
                x += 1;
            }
            proof {
                assert((y + 1) * (width as int) == y * (width as int) + width) by (nonlinear_arith);
            }
            y += 1;
        }
        proof {
            assert forall|j: int| 0 <= j < items@.len() implies call_requires(
                f,
                ((#[trigger] items@[j]).0, items@[j].1, items@[j].2),
            ) by {
                vstd::arithmetic::mul::lemma_mul_is_commutative(height as int, width as int);
                lemma_coords_of_index(j, width as int, height as int);
                let xj = j % (width as int);
                let yj = j / (width as int);
                assert(call_requires(f, (g_self.cell_at(xj, yj), xj as usize, yj as usize)));
                assert(g_self.cell_at(xj, yj) == g_self.cells()[j]);
            }
        }
        let new_inner: Vec<U> = par_map_coords(items, f);
        let r = Grid { width, height, inner: new_inner };
        proof {
            vstd::arithmetic::mul::lemma_mul_is_commutative(height as int, width as int);
            assert forall|x2: int, y2: int|
                0 <= x2 < g_self.spec_width() && 0 <= y2 < g_self.spec_height() implies call_ensures(
                f,
                (g_self.cell_at(x2, y2), x2 as usize, y2 as usize),
                r.cell_at(x2, y2),
            ) by {
                lemma_row_major_bounds(x2, y2, width as int, height as int);
                let j = y2 * width + x2;
                vstd::arithmetic::div_mod::lemma_fundamental_div_mod_converse_div(
                    j,
                    width as int,
                    y2,
                    x2,
                );
                vstd::arithmetic::div_mod::lemma_fundamental_div_mod_converse_mod(
                    j,
                    width as int,
                    y2,
                    x2,
                );
                assert(0 <= j < items@.len());
                assert(j % (width as int) == x2);
                assert(j / (width as int) == y2);
                assert(items@[j] == (g_self.cells()[j], x2 as usize, y2 as usize));
                assert(call_ensures(f, (items@[j].0, items@[j].1, items@[j].2), new_inner@[j]));
                assert(r.cell_at(x2, y2) == new_inner@[j]);
                assert(g_self.cell_at(x2, y2) == g_self.cells()[j]);
            }
        }
        r
    }
}

impl<T> Grid<T> {
    /// Transforms the current [`Grid`] into a `U` using the function `f`,
    /// which is handed the flat cell sequence in row-major order together
    /// with the grid's width and height. This is the terminal operation of
    /// a transform chain: the grid is consumed.
    pub fn extract<F, U>(self, f: F) -> (r: U) where F: Fn(Vec<T>, usize, usize) -> U + Send + Sync
        requires
            self.wf(),
            forall|v: Vec<T>|
                v@ == self.cells() ==> call_requires(
                    f,
                    (v, self.spec_width(), self.spec_height()),
                ),
        ensures
            exists|v: Vec<T>|
                v@ == self.cells() && call_ensures(
                    f,
                    (v, self.spec_width(), self.spec_height()),
                    r,
                ),
    {
        let Grid { width, height, inner } = self;
        f(inner, width, height)
    }

    /// Folds over all cells, in row-major order, to compute an aggregate
    /// such as the running minimum and maximum needed for normalization
    /// between pipeline stages.
    pub fn reduce_all<F, R>(&self, seed: R, combine: F) -> (r: R) where F: Fn(R, T) -> R, T: Copy
        requires
            forall|acc: R, t: T| call_requires(combine, (acc, t)),
        ensures
            folds(combine, seed, self.cells(), r),
    {
        let mut acc = seed;
        let ghost g_seed = acc;
        let mut i: usize = 0;
        while i < self.inner.len()
            invariant
                forall|a: R, t: T| call_requires(combine, (a, t)),
                i <= self.inner.len(),
                folds(combine, g_seed, self.cells().take(i as int), acc),
            decreases self.inner.len() - i,
        {
            acc = combine(acc, self.inner[i]);
            proof {
                assert(self.cells().take(i + 1).drop_last() =~= self.cells().take(i as int));
                assert(self.cells().take(i + 1).last() == self.cells()[i as int]);
            }
            i += 1;
        }
        proof {
            assert(self.cells().take(self.cells().len() as int) =~= self.cells());
        }
        acc
    }
}

/// An iterator that iterates over all cells of a [`Grid`] in
/// row-major order.
pub struct GridIter<'a, T> {
    inner: &'a Vec<T>,
    index: usize,
}

impl<'a, T> GridIter<'a, T> {
    /// The whole cell sequence being walked.
    pub closed spec fn elements(&self) -> Seq<T> {
        self.inner@
    }

    /// How many cells were already handed out.
    pub closed spec fn position(&self) -> int {
        self.index as int
    }

    /// Hands out the next cell, or `None` once every cell was seen.
    pub fn next(&mut self) -> (r: Option<&'a T>)
        ensures
            final(self).elements() == old(self).elements(),
            old(self).position() < old(self).elements().len() ==> {
                &&& final(self).position() == old(self).position() + 1
                &&& r matches Some(c) && *c == old(self).elements()[old(self).position()]
            },
            old(self).position() >= old(self).elements().len() ==> {
                &&& final(self).position() == old(self).position()
                &&& r is None
            },
    {
        if self.index < self.inner.len() {
            let result = &self.inner[self.index];
            self.index += 1;
            Some(result)
        } else {
            None
        }
    }
}

} // verus!
