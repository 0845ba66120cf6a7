//! Functions sampled on a grid.
use crate::grid::{copy_of, Grid};
use vstd::prelude::*;

verus! {

/// A function of one variable, sampled on a grid of points.
/// The value of the function at each point of `grid` is the element of
/// `function_values` at the same position.
#[derive(Debug, PartialEq)]
pub struct GridFunction<T> {
    pub grid: Grid<T>,
    pub function_values: Vec<T>,
}

/// What a [`GridFunction`] stands for: the coordinates of its grid and the
/// values sampled there.
pub struct Samples<T> {
    pub points: Seq<T>,
    pub values: Seq<T>,
}

impl<T> Samples<T> {
    /// Every point of the grid has a value.
    pub open spec fn covers_grid(self) -> bool {
        self.values.len() >= self.points.len()
    }

    /// There are as many values as points.
    pub open spec fn consistent(self) -> bool {
        self.values.len() == self.points.len()
    }
}

impl<T> View for GridFunction<T> {
    type V = Samples<T>;

    open spec fn view(&self) -> Samples<T> {
        Samples { points: self.grid@, values: self.function_values@ }
    }
}

impl<T: Copy> Clone for GridFunction<T> {
    fn clone(&self) -> (copy: Self)
        ensures
            copy@ == self@,
    {
        GridFunction { grid: self.grid.clone(), function_values: copy_of(&self.function_values) }
    }
}

impl<T: Copy> GridFunction<T> {
    /// Samples `func` at each point of `grid`.
    pub fn new_grid_function<F>(grid: &Grid<T>, func: F) -> (sampled: Self) where F: Fn(T) -> T
        requires
            forall|i: int| 0 <= i < grid@.len() ==> call_requires(func, (#[trigger] grid@[i],)),
        ensures
            sampled@.points == grid@,
            sampled@.values.len() == grid@.len(),
            forall|i: int|
                0 <= i < grid@.len() ==> call_ensures(
                    func,
                    (grid@[i],),
                    #[trigger] sampled@.values[i],
                ),
    {
        let mut function_values: Vec<T> = Vec::new();
        let mut i: usize = 0;
        while i < grid.grid_points.len()
            invariant
                i <= grid@.len(),
                function_values@.len() == i,
                forall|k: int| 0 <= k < grid@.len() ==> call_requires(func, (#[trigger] grid@[k],)),
                forall|k: int|
                    0 <= k < i ==> call_ensures(func, (grid@[k],), #[trigger] function_values@[k]),
            decreases grid@.len() - i,
        {
            let value: T = func(grid.grid_points[i]);
            function_values.push(value);
            i += 1;
        }
        GridFunction { grid: grid.clone(), function_values }
    }

    /// The constant function of height `scalar` on `grid`.
    pub fn new_constant_grid_function(grid: &Grid<T>, scalar: T) -> (constant: Self)
        ensures
            constant@.points == grid@,
            constant@.values == Seq::new(grid@.len(), |i: int| scalar),
    {
        let mut function_values: Vec<T> = Vec::new();
        let mut i: usize = 0;
        while i < grid.grid_points.len()
            invariant
                i <= grid@.len(),
                function_values@ == Seq::new(i as nat, |k: int| scalar),
            decreases grid@.len() - i,
        {
            function_values.push(scalar);
            proof {
                assert(function_values@ =~= Seq::new((i + 1) as nat, |k: int| scalar));
            }
            i += 1;
        }
        GridFunction { grid: grid.clone(), function_values }
    }
}

} // verus!
