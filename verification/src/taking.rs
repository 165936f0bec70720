//! The taking rule: which of the cells offered to a collection it takes.
//!
//! A collection goes through cells in the order in which they are offered
//! and takes a cell while the capacity in hand is below the query's
//! threshold, the query matches the cell, and the cell's out-point is not
//! excluded. [`take_cells`] states the rule, the lemmas say what follows
//! from it, and [`split_offchain`] and [`take_from_page`] carry it out.

use vstd::prelude::*;
use crate::error::{
    capacity_overflow,
    capacity_overflow_text,
    CellCollectorError,
    CellCollectorErrorView,
};
use crate::query::{CellQueryOptions, CellQueryView};
use crate::types::{cells_view, LiveCell, LiveCellView, OutPoint};

verus! {

/// The sum of the capacities of the cells.
pub open spec fn total_capacity(cells: Seq<LiveCellView>) -> int
    decreases cells.len(),
{
    if cells.len() == 0 {
        0
    } else {
        total_capacity(cells.drop_last()) + cells.last().output.capacity
    }
}

/// A cell can be taken if the query matches it and its out-point is not
/// excluded.
pub open spec fn accepts(
    query: CellQueryView,
    max_mature_number: u64,
    excluded: Set<OutPoint>,
    cell: LiveCellView,
) -> bool {
    query.matches(cell, Some(max_mature_number)) && !excluded.contains(cell.out_point)
}

/// The cells held after going through `offered` in order with `taken`
/// already in hand: a cell is added while the capacity in hand is below the
/// query's threshold and the cell can be taken.
pub open spec fn take_cells(
    taken: Seq<LiveCellView>,
    offered: Seq<LiveCellView>,
    query: CellQueryView,
    max_mature_number: u64,
    excluded: Set<OutPoint>,
) -> Seq<LiveCellView>
    decreases offered.len(),
{
    if offered.len() == 0 {
        taken
    } else {
        let before = take_cells(taken, offered.drop_last(), query, max_mature_number, excluded);
        if total_capacity(before) < query.min_total_capacity && accepts(
            query,
            max_mature_number,
            excluded,
            offered.last(),
        ) {
            before.push(offered.last())
        } else {
            before
        }
    }
}

/// The cells of `offered` that `take_cells` passes over when it starts with
/// nothing in hand and excludes nothing, in their order.
pub open spec fn left_cells(
    offered: Seq<LiveCellView>,
    query: CellQueryView,
    max_mature_number: u64,
) -> Seq<LiveCellView>
    decreases offered.len(),
{
    if offered.len() == 0 {
        Seq::empty()
    } else {
        let before = take_cells(
            Seq::empty(),
            offered.drop_last(),
            query,
            max_mature_number,
            Set::empty(),
        );
        let rest = left_cells(offered.drop_last(), query, max_mature_number);
        if total_capacity(before) < query.min_total_capacity && accepts(
            query,
            max_mature_number,
            Set::empty(),
            offered.last(),
        ) {
            rest
        } else {
            rest.push(offered.last())
        }
    }
}

/// What one collection returns: the unconfirmed cells are gone through
/// first, whether locked or not; the cells that the index service found
/// follow, and of those the locked ones are passed over.
pub open spec fn collected(
    offchain: Seq<LiveCellView>,
    locked: Set<OutPoint>,
    query: CellQueryView,
    max_mature_number: u64,
    found: Seq<LiveCellView>,
) -> Seq<LiveCellView> {
    take_cells(
        take_cells(Seq::empty(), offchain, query, max_mature_number, Set::empty()),
        found,
        query,
        max_mature_number,
        locked,
    )
}

/// The out-points of the cells.
pub open spec fn out_points(cells: Seq<LiveCellView>) -> Set<OutPoint> {
    Set::new(|p: OutPoint| exists|i: int| 0 <= i < cells.len() && cells[i].out_point == p)
}

/// Whether going through `offered` with nothing in hand and nothing excluded
/// takes the cell at `at`.
pub open spec fn takes_at(
    offered: Seq<LiveCellView>,
    query: CellQueryView,
    max_mature_number: u64,
    at: int,
) -> bool {
    &&& 0 <= at < offered.len()
    &&& total_capacity(
        take_cells(Seq::empty(), offered.take(at), query, max_mature_number, Set::empty()),
    ) < query.min_total_capacity
    &&& accepts(query, max_mature_number, Set::empty(), offered[at])
}

pub proof fn lemma_total_capacity_push(cells: Seq<LiveCellView>, cell: LiveCellView)
    ensures
        total_capacity(cells.push(cell)) == total_capacity(cells) + cell.output.capacity,
{
    assert(cells.push(cell).drop_last() =~= cells);
}

/// Once the threshold is met nothing more is taken.
pub proof fn lemma_take_saturated(
    taken: Seq<LiveCellView>,
    offered: Seq<LiveCellView>,
    query: CellQueryView,
    max_mature_number: u64,
    excluded: Set<OutPoint>,
)
    requires
        total_capacity(taken) >= query.min_total_capacity,
    ensures
        take_cells(taken, offered, query, max_mature_number, excluded) == taken,
    decreases offered.len(),
{
    if offered.len() > 0 {
        lemma_take_saturated(taken, offered.drop_last(), query, max_mature_number, excluded);
    }
}

/// Going through two runs of cells one after the other is going through
/// their concatenation.
pub proof fn lemma_take_split(
    taken: Seq<LiveCellView>,
    first: Seq<LiveCellView>,
    second: Seq<LiveCellView>,
    query: CellQueryView,
    max_mature_number: u64,
    excluded: Set<OutPoint>,
)
    ensures
        take_cells(taken, first + second, query, max_mature_number, excluded) == take_cells(
            take_cells(taken, first, query, max_mature_number, excluded),
            second,
            query,
            max_mature_number,
            excluded,
        ),
    decreases second.len(),
{
    if second.len() == 0 {
        assert(first + second =~= first);
    } else {
        assert((first + second).drop_last() =~= first + second.drop_last());
        assert((first + second).last() == second.last());
        lemma_take_split(taken, first, second.drop_last(), query, max_mature_number, excluded);
    }
}

/// If the threshold is met after the first `upto` cells, the cells after
/// them change nothing.
pub proof fn lemma_take_prefix_saturated(
    taken: Seq<LiveCellView>,
    offered: Seq<LiveCellView>,
    upto: int,
    query: CellQueryView,
    max_mature_number: u64,
    excluded: Set<OutPoint>,
)
    requires
        0 <= upto <= offered.len(),
        total_capacity(take_cells(taken, offered.take(upto), query, max_mature_number, excluded))
            >= query.min_total_capacity,
    ensures
        take_cells(taken, offered, query, max_mature_number, excluded) == take_cells(
            taken,
            offered.take(upto),
            query,
            max_mature_number,
            excluded,
        ),
{
    assert(offered.take(upto) + offered.skip(upto) =~= offered);
    lemma_take_split(
        taken,
        offered.take(upto),
        offered.skip(upto),
        query,
        max_mature_number,
        excluded,
    );
    lemma_take_saturated(
        take_cells(taken, offered.take(upto), query, max_mature_number, excluded),
        offered.skip(upto),
        query,
        max_mature_number,
        excluded,
    );
}

/// Every cell held at the end was in hand at the start or is one of the
/// cells offered that can be taken; the cells in hand stay, in their places.
pub proof fn lemma_take_origin(
    taken: Seq<LiveCellView>,
    offered: Seq<LiveCellView>,
    query: CellQueryView,
    max_mature_number: u64,
    excluded: Set<OutPoint>,
)
    ensures
        taken.len() <= take_cells(taken, offered, query, max_mature_number, excluded).len(),
        forall|i: int|
            0 <= i < taken.len() ==> take_cells(
                taken,
                offered,
                query,
                max_mature_number,
                excluded,
            )[i] == taken[i],
        forall|i: int|
            taken.len() <= i < take_cells(taken, offered, query, max_mature_number, excluded).len()
                ==> offered.contains(
                #[trigger] take_cells(taken, offered, query, max_mature_number, excluded)[i],
            ) && accepts(
                query,
                max_mature_number,
                excluded,
                take_cells(taken, offered, query, max_mature_number, excluded)[i],
            ),
    decreases offered.len(),
{
    if offered.len() > 0 {
        let shorter = offered.drop_last();
        lemma_take_origin(taken, shorter, query, max_mature_number, excluded);
        let before = take_cells(taken, shorter, query, max_mature_number, excluded);
        let after = take_cells(taken, offered, query, max_mature_number, excluded);
        assert forall|i: int| taken.len() <= i < after.len() implies offered.contains(
            #[trigger] after[i],
        ) && accepts(query, max_mature_number, excluded, after[i]) by {
            if i < before.len() {
                assert(shorter.contains(before[i]));
                let j = choose|j: int| 0 <= j < shorter.len() && shorter[j] == before[i];
                assert(offered[j] == before[i]);
            } else {
                assert(after[i] == offered.last());
                assert(offered[offered.len() - 1] == after[i]);
            }
        }
    }
}

/// Going through the unconfirmed cells parts them in two: each cell is
/// either taken or left, the cells taken are those at the places that
/// `takes_at` names, and the cells left are those at the other places.
pub proof fn lemma_split_parts(
    offered: Seq<LiveCellView>,
    query: CellQueryView,
    max_mature_number: u64,
)
    ensures
        take_cells(Seq::empty(), offered, query, max_mature_number, Set::empty()).len()
            + left_cells(offered, query, max_mature_number).len() == offered.len(),
        forall|k: int|
            0 <= k < take_cells(
                Seq::empty(),
                offered,
                query,
                max_mature_number,
                Set::empty(),
            ).len() ==> exists|at: int|
                takes_at(offered, query, max_mature_number, at) && offered[at] == #[trigger] take_cells(
                    Seq::empty(),
                    offered,
                    query,
                    max_mature_number,
                    Set::empty(),
                )[k],
        forall|k: int|
            0 <= k < left_cells(offered, query, max_mature_number).len() ==> exists|at: int|
                0 <= at < offered.len() && !takes_at(offered, query, max_mature_number, at)
                    && offered[at] == #[trigger] left_cells(offered, query, max_mature_number)[k],
    decreases offered.len(),
{
    if offered.len() > 0 {
        let shorter = offered.drop_last();
        let last = offered.len() - 1;
        lemma_split_parts(shorter, query, max_mature_number);
        let none = Set::<OutPoint>::empty();
        let taken = take_cells(Seq::empty(), offered, query, max_mature_number, none);
        let left = left_cells(offered, query, max_mature_number);
        let taken_before = take_cells(Seq::empty(), shorter, query, max_mature_number, none);
        let left_before = left_cells(shorter, query, max_mature_number);
        assert(offered.take(last) =~= shorter);
        assert forall|at: int| 0 <= at < shorter.len() implies takes_at(
            shorter,
            query,
            max_mature_number,
            at,
        ) == takes_at(offered, query, max_mature_number, at) by {
            assert(shorter.take(at) =~= offered.take(at));
        }
        assert forall|k: int| 0 <= k < taken.len() implies exists|at: int|
            takes_at(offered, query, max_mature_number, at) && offered[at] == #[trigger] taken[k] by {
            if k < taken_before.len() {
                let at = choose|at: int|
                    takes_at(shorter, query, max_mature_number, at) && shorter[at]
                        == taken_before[k];
                assert(takes_at(offered, query, max_mature_number, at) && offered[at] == taken[k]);
            } else {
                assert(takes_at(offered, query, max_mature_number, last) && offered[last]
                    == taken[k]);
            }
        }
        assert forall|k: int| 0 <= k < left.len() implies exists|at: int|
            0 <= at < offered.len() && !takes_at(offered, query, max_mature_number, at)
                && offered[at] == #[trigger] left[k] by {
            if k < left_before.len() {
                let at = choose|at: int|
                    0 <= at < shorter.len() && !takes_at(shorter, query, max_mature_number, at)
                        && shorter[at] == left_before[k];
                assert(!takes_at(offered, query, max_mature_number, at) && offered[at] == left[k]);
            } else {
                assert(!takes_at(offered, query, max_mature_number, last) && offered[last]
                    == left[k]);
            }
        }
    }
}

/// Where no two unconfirmed cells share an out-point, the cells that a
/// collection takes from them and the cells that it leaves share none
/// either: what stays with the collector after an applied collection cannot
/// bring back an out-point that the collection took from the unconfirmed
/// cells.
pub proof fn lemma_left_apart_from_taken(
    offered: Seq<LiveCellView>,
    query: CellQueryView,
    max_mature_number: u64,
)
    requires
        forall|i: int, j: int|
            0 <= i < j < offered.len() ==> offered[i].out_point != offered[j].out_point,
    ensures
        out_points(
            take_cells(Seq::empty(), offered, query, max_mature_number, Set::empty()),
        ).disjoint(out_points(left_cells(offered, query, max_mature_number))),
{
    lemma_split_parts(offered, query, max_mature_number);
    let taken = take_cells(Seq::empty(), offered, query, max_mature_number, Set::empty());
    let left = left_cells(offered, query, max_mature_number);
    assert forall|p: OutPoint| !(out_points(taken).contains(p) && out_points(left).contains(p)) by {
        if out_points(taken).contains(p) && out_points(left).contains(p) {
            let k = choose|k: int| 0 <= k < taken.len() && taken[k].out_point == p;
            let l = choose|l: int| 0 <= l < left.len() && left[l].out_point == p;
            let i = choose|at: int|
                takes_at(offered, query, max_mature_number, at) && offered[at] == taken[k];
            let j = choose|at: int|
                0 <= at < offered.len() && !takes_at(offered, query, max_mature_number, at)
                    && offered[at] == left[l];
            assert(i != j);
            assert(offered[i].out_point == offered[j].out_point);
        }
    }
}

pub proof fn lemma_push_to_set(list: Seq<OutPoint>, out_point: OutPoint)
    ensures
        list.push(out_point).to_set() == list.to_set().insert(out_point),
{
    let longer = list.push(out_point);
    assert forall|p: OutPoint| longer.to_set().contains(p) <==> list.to_set().insert(
        out_point,
    ).contains(p) by {
        if longer.contains(p) {
            let i = choose|i: int| 0 <= i < longer.len() && longer[i] == p;
            if i < list.len() {
                assert(list[i] == p);
            }
        }
        if list.contains(p) {
            let i = choose|i: int| 0 <= i < list.len() && list[i] == p;
            assert(longer[i] == p);
        }
        if p == out_point {
            assert(longer[list.len() as int] == p);
        }
    }
    assert(longer.to_set() =~= list.to_set().insert(out_point));
}

pub proof fn lemma_out_points_push(cells: Seq<LiveCellView>, cell: LiveCellView)
    ensures
        out_points(cells.push(cell)) == out_points(cells).insert(cell.out_point),
{
    let longer = cells.push(cell);
    assert forall|p: OutPoint| out_points(longer).contains(p) <==> out_points(cells).insert(
        cell.out_point,
    ).contains(p) by {
        if out_points(longer).contains(p) {
            let i = choose|i: int| 0 <= i < longer.len() && longer[i].out_point == p;
            if i < cells.len() {
                assert(cells[i].out_point == p);
            }
        }
        if out_points(cells).contains(p) {
            let i = choose|i: int| 0 <= i < cells.len() && cells[i].out_point == p;
            assert(longer[i].out_point == p);
        }
        if p == cell.out_point {
            assert(longer[cells.len() as int].out_point == p);
        }
    }
    assert(out_points(longer) =~= out_points(cells).insert(cell.out_point));
}

/// Whether the out-point is among those listed.
pub fn contains_out_point(list: &Vec<OutPoint>, out_point: &OutPoint) -> (r: bool)
    ensures
        r == list@.to_set().contains(*out_point),
{
    let n: usize = list.len();
    let mut i: usize = 0;
    while i < n
        invariant
            i <= n,
            n == list@.len(),
            forall|j: int| 0 <= j < i ==> list@[j] != *out_point,
        decreases n - i,
    {
        if list[i].same(out_point) {
            assert(list@.contains(*out_point));
            return true;
        }
        i += 1;
    }
    assert(!list@.contains(*out_point));
    false
}

/// Copies a list of out-points.
pub fn copy_out_points(list: &Vec<OutPoint>) -> (r: Vec<OutPoint>)
    ensures
        r@ == list@,
{
    let mut r: Vec<OutPoint> = Vec::new();
    let n: usize = list.len();
    let mut i: usize = 0;
    while i < n
        invariant
            i <= n,
            n == list@.len(),
            r@ == list@.take(i as int),
        decreases n - i,
    {
        r.push(list[i]);
        assert(list@.take(i as int).push(list@[i as int]) =~= list@.take(i + 1));
        i += 1;
    }
    assert(list@.take(n as int) =~= list@);
    r
}

/// Copies a list of cells.
pub fn copy_cells(cells: &Vec<LiveCell>) -> (r: Vec<LiveCell>)
    ensures
        cells_view(r@) == cells_view(cells@),
{
    let mut r: Vec<LiveCell> = Vec::new();
    let n: usize = cells.len();
    let mut i: usize = 0;
    while i < n
        invariant
            i <= n,
            n == cells@.len(),
            r@.len() == i,
            forall|j: int| 0 <= j < i ==> r@[j]@ == cells@[j]@,
        decreases n - i,
    {
        r.push(cells[i].clone());
        i += 1;
    }
    assert(cells_view(r@) =~= cells_view(cells@));
    r
}

/// Goes through the unconfirmed cells with nothing in hand and nothing
/// excluded. Gives the cells taken, the cells passed over and the capacity
/// of the cells taken; fails if that capacity does not fit in a `u64`.
pub fn split_offchain(
    offchain: &Vec<LiveCell>,
    query: &CellQueryOptions,
    max_mature_number: u64,
) -> (r: Result<(Vec<LiveCell>, Vec<LiveCell>, u64), CellCollectorError>)
    ensures
        match r {
            Ok((taken, rest, total)) => {
                &&& cells_view(taken@) == take_cells(
                    Seq::empty(),
                    cells_view(offchain@),
                    query@,
                    max_mature_number,
                    Set::empty(),
                )
                &&& cells_view(rest@) == left_cells(
                    cells_view(offchain@),
                    query@,
                    max_mature_number,
                )
                &&& total == total_capacity(cells_view(taken@))
            },
            Err(e) => {
                &&& e@ == CellCollectorErrorView::Other(capacity_overflow_text())
                &&& total_capacity(
                    take_cells(
                        Seq::empty(),
                        cells_view(offchain@),
                        query@,
                        max_mature_number,
                        Set::empty(),
                    ),
                ) > u64::MAX
            },
        },
{
    let ghost offered = cells_view(offchain@);
    let ghost none = Set::<OutPoint>::empty();
    let n: usize = offchain.len();
    let mut taken: Vec<LiveCell> = Vec::new();
    let mut rest: Vec<LiveCell> = Vec::new();
    let mut total: u64 = 0;
    let mut i: usize = 0;
    assert(cells_view(taken@) =~= Seq::<LiveCellView>::empty());
    assert(cells_view(rest@) =~= Seq::<LiveCellView>::empty());
    assert(offered.take(0) =~= Seq::<LiveCellView>::empty());
    while i < n
        invariant
            i <= n,
            n == offchain@.len(),
            offered == cells_view(offchain@),
            none == Set::<OutPoint>::empty(),
            cells_view(taken@) == take_cells(
                Seq::empty(),
                offered.take(i as int),
                query@,
                max_mature_number,
                none,
            ),
            cells_view(rest@) == left_cells(offered.take(i as int), query@, max_mature_number),
            total == total_capacity(cells_view(taken@)),
        decreases n - i,
    {
        let cell = &offchain[i];
        proof {
            assert(offered.take(i + 1).drop_last() =~= offered.take(i as int));
            assert(offered.take(i + 1).last() == cell@);
        }
        if total < query.min_total_capacity && query.match_cell(cell, Some(max_mature_number)) {
            proof {
                lemma_total_capacity_push(cells_view(taken@), cell@);
            }
            match total.checked_add(cell.output.capacity) {
                Some(sum) => {
                    let ghost before = cells_view(taken@);
                    taken.push(cell.clone());
                    assert(cells_view(taken@) =~= before.push(cell@));
                    total = sum;
                },
                None => {
                    proof {
                        lemma_take_prefix_saturated(
                            Seq::empty(),
                            offered,
                            i + 1,
                            query@,
                            max_mature_number,
                            none,
                        );
                    }
                    return Err(capacity_overflow());
                },
            }
        } else {
            let ghost before = cells_view(rest@);
            rest.push(cell.clone());
            assert(cells_view(rest@) =~= before.push(cell@));
        }
        i += 1;
    }
    assert(offered.take(n as int) =~= offered);
    Ok((taken, rest, total))
}

/// Goes through one page of cells from the index service with `taken` in
/// hand, and stops where the threshold is met. Gives the cells then in hand
/// and their capacity; fails if that capacity does not fit in a `u64`.
pub fn take_from_page(
    taken: Vec<LiveCell>,
    total: u64,
    page: &Vec<LiveCell>,
    query: &CellQueryOptions,
    max_mature_number: u64,
    excluded: &Vec<OutPoint>,
) -> (r: Result<(Vec<LiveCell>, u64), CellCollectorError>)
    requires
        total == total_capacity(cells_view(taken@)),
    ensures
        match r {
            Ok((cells, sum)) => {
                &&& cells_view(cells@) == take_cells(
                    cells_view(taken@),
                    cells_view(page@),
                    query@,
                    max_mature_number,
                    excluded@.to_set(),
                )
                &&& sum == total_capacity(cells_view(cells@))
            },
            Err(e) => {
                &&& e@ == CellCollectorErrorView::Other(capacity_overflow_text())
                &&& total_capacity(
                    take_cells(
                        cells_view(taken@),
                        cells_view(page@),
                        query@,
                        max_mature_number,
                        excluded@.to_set(),
                    ),
                ) > u64::MAX
            },
        },
{
    let ghost start = cells_view(taken@);
    let ghost offered = cells_view(page@);
    let n: usize = page.len();
    let mut cells = taken;
    let mut sum: u64 = total;
    let mut i: usize = 0;
    assert(offered.take(0) =~= Seq::<LiveCellView>::empty());
    while i < n && sum < query.min_total_capacity
        invariant
            i <= n,
            n == page@.len(),
            offered == cells_view(page@),
            start == cells_view(taken@),
            cells_view(cells@) == take_cells(
                start,
                offered.take(i as int),
                query@,
                max_mature_number,
                excluded@.to_set(),
            ),
            sum == total_capacity(cells_view(cells@)),
        decreases n - i,
    {
        let cell = &page[i];
        proof {
            assert(offered.take(i + 1).drop_last() =~= offered.take(i as int));
            assert(offered.take(i + 1).last() == cell@);
        }
        if query.match_cell(cell, Some(max_mature_number)) && !contains_out_point(
            excluded,
            &cell.out_point,
        ) {
            proof {
                lemma_total_capacity_push(cells_view(cells@), cell@);
            }
            match sum.checked_add(cell.output.capacity) {
                Some(more) => {
                    let ghost before = cells_view(cells@);
                    cells.push(cell.clone());
                    assert(cells_view(cells@) =~= before.push(cell@));
                    sum = more;
                },
                None => {
                    proof {
                        lemma_take_prefix_saturated(
                            start,
                            offered,
                            i + 1,
                            query@,
                            max_mature_number,
                            excluded@.to_set(),
                        );
                    }
                    return Err(capacity_overflow());
                },
            }
        }
        i += 1;
    }
    proof {
        if i < n {
            lemma_take_prefix_saturated(
                start,
                offered,
                i as int,
                query@,
                max_mature_number,
                excluded@.to_set(),
            );
        } else {
            assert(offered.take(n as int) =~= offered);
        }
    }
    Ok((cells, sum))
}

} // verus!
