//! Grids of points on the real line.
use crate::scalar::{
    can_add, can_divide, can_index, can_multiply, can_subtract, exact_order,
    exact_order_has_one_outcome, is_difference, is_index, is_not_below, is_product, is_quotient,
    is_sum, scalar_from_index, total_arithmetic, total_arithmetic_allows_index, Scalar,
};
use vstd::prelude::*;
use vstd::std_specs::cmp::PartialOrdIs;

verus! {

/// A grid of points in one dimension. The coordinate of each point is an
/// element of `grid_points`, in order.
#[derive(Debug, PartialEq)]
pub struct Grid<T> {
    pub grid_points: Vec<T>,
}

impl<T> View for Grid<T> {
    type V = Seq<T>;

    /// A grid is the sequence of its coordinates.
    open spec fn view(&self) -> Seq<T> {
        self.grid_points@
    }
}

/// Copies a vector of scalars.
pub fn copy_of<T: Copy>(values: &Vec<T>) -> (copy: Vec<T>)
    ensures
        copy@ == values@,
{
    let mut copy: Vec<T> = Vec::new();
    let mut i: usize = 0;
    while i < values.len()
        invariant
            i <= values@.len(),
            copy@ == values@.take(i as int),
        decreases values@.len() - i,
    {
        copy.push(values[i]);
        proof {
            assert(values@.take(i + 1) =~= values@.take(i as int).push(values@[i as int]));
        }
        i += 1;
    }
    proof {
        assert(values@.take(values@.len() as int) =~= values@);
    }
    copy
}

impl<T: Copy> Clone for Grid<T> {
    fn clone(&self) -> (copy: Self)
        ensures
            copy@ == self@,
    {
        Grid { grid_points: copy_of(&self.grid_points) }
    }
}

/// `step` is the distance between neighbours in the uniform grid of `count`
/// points from `start` to `end`: `(end - start) / (count - 1)`.
pub open spec fn is_uniform_step<T: Scalar>(start: T, end: T, count: nat, step: T) -> bool
    recommends
        count >= 2,
{
    exists|span: T, cells: T|
        {
            &&& is_difference(end, start, span)
            &&& is_index::<T>((count - 1) as nat, cells)
            &&& is_quotient(span, cells, step)
        }
}

/// Each operation behind [`is_uniform_step`] accepts its operands.
pub open spec fn can_uniform_step<T: Scalar>(start: T, end: T, count: nat) -> bool
    recommends
        count >= 2,
{
    &&& can_subtract(end, start)
    &&& can_index::<T>((count - 1) as nat)
    &&& forall|span: T, cells: T|
        is_difference(end, start, span) && is_index::<T>((count - 1) as nat, cells) ==> can_divide(
            span,
            cells,
        )
}

/// `point` is point `i` of the uniform grid that begins at `start` and
/// advances by `step`: `start + i * step`.
pub open spec fn is_uniform_point<T: Scalar>(start: T, step: T, i: nat, point: T) -> bool {
    exists|position: T, offset: T|
        {
            &&& is_index::<T>(i, position)
            &&& is_product(position, step, offset)
            &&& is_sum(start, offset, point)
        }
}

/// Each operation behind [`is_uniform_point`] accepts its operands.
pub open spec fn can_uniform_point<T: Scalar>(start: T, step: T, i: nat) -> bool {
    &&& can_index::<T>(i)
    &&& forall|position: T| is_index::<T>(i, position) ==> can_multiply(position, step)
    &&& forall|position: T, offset: T|
        is_index::<T>(i, position) && is_product(position, step, offset) ==> can_add(
            start,
            offset,
        )
}

/// `points` are the coordinates of the uniform grid of `count` points from
/// `start` to `end`, both included.
///
/// Where `start >= end`, or no point is asked for, there are none. A single
/// point lies at `start`. Otherwise point `i` is `start + i * step`, with
/// the one `step` of [`is_uniform_step`].
pub open spec fn is_uniform_grid<T: Scalar>(start: T, end: T, count: nat, points: Seq<T>) -> bool {
    exists|turned: bool|
        {
            &&& is_not_below(start, end, turned)
            &&& if turned || count == 0 {
                points.len() == 0
            } else if count == 1 {
                points == seq![start]
            } else {
                exists|step: T|
                    {
                        &&& #[trigger] is_uniform_step(start, end, count, step)
                        &&& points.len() == count
                        &&& forall|i: int|
                            0 <= i < count ==> is_uniform_point(
                                start,
                                step,
                                i as nat,
                                #[trigger] points[i],
                            )
                    }
            }
        }
}

/// Each operation behind [`is_uniform_grid`] accepts its operands.
pub open spec fn can_uniform_grid<T: Scalar>(start: T, end: T, count: nat) -> bool {
    count < 2 || forall|turned: bool|
        is_not_below(start, end, turned) && !turned ==> {
            &&& can_uniform_step(start, end, count)
            &&& forall|step: T, i: nat|
                #[trigger] is_uniform_step(start, end, count, step) && i < count
                    ==> #[trigger] can_uniform_point(start, step, i)
        }
}

/// Between a start and an end that is not above it there is no uniform
/// grid, however many points are asked for.
pub proof fn turned_interval_has_empty_grid<T: Scalar>(
    start: T,
    end: T,
    count: nat,
    points: Seq<T>,
)
    requires
        exact_order::<T>(),
        start.is_ge(&end),
        is_uniform_grid(start, end, count, points),
    ensures
        points.len() == 0,
{
    exact_order_has_one_outcome::<T>();
}

/// The uniform grid of one point, from a start that is not at or above the
/// end, is the start alone.
pub proof fn single_point_grid_is_start<T: Scalar>(start: T, end: T, points: Seq<T>)
    requires
        exact_order::<T>(),
        !start.is_ge(&end),
        is_uniform_grid(start, end, 1, points),
    ensures
        points == seq![start],
{
    exact_order_has_one_outcome::<T>();
}

/// A uniform grid is empty or has the number of points that was asked for.
pub proof fn uniform_grid_length<T: Scalar>(start: T, end: T, count: nat, points: Seq<T>)
    requires
        is_uniform_grid(start, end, count, points),
    ensures
        points.len() == 0 || points.len() == count,
{
}

/// Where arithmetic is total, a uniform grid can be asked for between any
/// two ends and with any number of points.
pub proof fn total_arithmetic_allows_uniform_grid<T: Scalar>(start: T, end: T, count: nat)
    requires
        total_arithmetic::<T>(),
    ensures
        can_uniform_grid(start, end, count),
{
    if count >= 2 {
        total_arithmetic_allows_index::<T>((count - 1) as nat);
        assert forall|step: T, i: nat| i < count implies #[trigger] can_uniform_point(
            start,
            step,
            i,
        ) by {
            total_arithmetic_allows_index::<T>(i);
        }
    }
}

impl<T: Scalar> Grid<T> {
    /// Creates the uniform grid of `num_points` points between `start_point`
    /// and `end_point`, both included.
    ///
    /// Where `start_point` is not below `end_point`, or no point is asked
    /// for, the grid is empty. A single point lies at `start_point`.
    pub fn new_uniform_grid(start_point: T, end_point: T, num_points: usize) -> (grid: Self)
        requires
            can_uniform_grid(start_point, end_point, num_points as nat),
        ensures
            is_uniform_grid(start_point, end_point, num_points as nat, grid@),
    {
        let turned: bool = start_point >= end_point;
        if turned || num_points == 0 {
            return Grid { grid_points: Vec::new() };
        }
        if num_points == 1 {
            let mut single: Vec<T> = Vec::new();
            single.push(start_point);
            assert(single@ == seq![start_point]);
            return Grid { grid_points: single };
        }
        let span: T = end_point - start_point;
        let cells: T = scalar_from_index::<T>(num_points - 1);
        let step_size: T = span / cells;
        assert(is_uniform_step(start_point, end_point, num_points as nat, step_size));
        let mut grid_points: Vec<T> = Vec::new();
        let mut i: usize = 0;
        while i < num_points
            invariant
                i <= num_points,
                grid_points@.len() == i,
                forall|k: nat| k < num_points ==> #[trigger] can_uniform_point(start_point, step_size, k),
                forall|k: int|
                    0 <= k < i ==> is_uniform_point(
                        start_point,
                        step_size,
                        k as nat,
                        #[trigger] grid_points@[k],
                    ),
            decreases num_points - i,
        {
            assert(can_uniform_point(start_point, step_size, i as nat));
            let position: T = scalar_from_index::<T>(i);
            let offset: T = position * step_size;
            let point: T = start_point + offset;
            assert(is_uniform_point(start_point, step_size, i as nat, point));
            grid_points.push(point);
            i += 1;
        }
        Grid { grid_points }
    }
}

} // verus!
