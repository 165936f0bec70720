//! The live cell collector: which cells a query takes, from the cells of
//! unconfirmed transactions first and from the pages of the index service
//! after them, and the bookkeeping that keeps a cell from being handed out
//! twice.
//!
//! The collector itself talks to no service. [`DefaultCellCollector::begin_collect`]
//! starts a [`CellCollection`], whose [`CellCollection::next_action`] says
//! what the caller has to do next; the caller reports back with
//! [`CellCollection::sync_checked`] and [`CellCollection::absorb_page`] and
//! ends with [`DefaultCellCollector::finish_collect`].

use vstd::prelude::*;
use vstd::seq_lib::seq_to_set_is_finite;
use vstd::set_lib::lemma_set_disjoint_lens;
use crate::error::{capacity_overflow_text, CellCollectorError, CellCollectorErrorView};
use crate::query::{CellQueryOptions, CellQueryView, Order, SearchKey};
use crate::taking::{
    accepts,
    collected,
    contains_out_point,
    copy_cells,
    copy_out_points,
    left_cells,
    lemma_out_points_push,
    lemma_push_to_set,
    lemma_take_origin,
    lemma_take_split,
    out_points,
    split_offchain,
    take_cells,
    take_from_page,
    total_capacity,
};
use crate::types::{
    bytes_clone,
    bytes_opt_view,
    cells_view,
    CellPage,
    LiveCell,
    LiveCellView,
    OutPoint,
    Transaction,
};

verus! {

/// The first page of a search asks for this many cells.
pub const FIRST_PAGE_LIMIT: u32 = 128;

/// No page asks for more cells than this.
pub const MAX_PAGE_LIMIT: u32 = 4096;

/// The page size of the search's round number `pages`, counted from zero:
/// it doubles from round to round until it has reached the maximum.
pub open spec fn page_limit(pages: nat) -> int
    decreases pages,
{
    if pages == 0 {
        FIRST_PAGE_LIMIT as int
    } else {
        let before = page_limit((pages - 1) as nat);
        if before < MAX_PAGE_LIMIT {
            2 * before
        } else {
            before
        }
    }
}

/// The page size starts at the first limit, never exceeds the maximum, and
/// has reached it from the sixth round on.
pub proof fn lemma_page_limit_bounds(pages: nat)
    ensures
        FIRST_PAGE_LIMIT <= page_limit(pages) <= MAX_PAGE_LIMIT,
        pages >= 5 ==> page_limit(pages) == MAX_PAGE_LIMIT,
        pages < 5 ==> page_limit(pages) < MAX_PAGE_LIMIT,
        pages > 0 && pages <= 5 ==> page_limit(pages) == 2 * page_limit((pages - 1) as nat),
    decreases pages,
{
    reveal_with_fuel(page_limit, 6);
    if pages > 5 {
        lemma_page_limit_bounds((pages - 1) as nat);
    }
}

/// The cell that a transaction's output number `index` becomes before a
/// block confirms it.
pub open spec fn unconfirmed_cell(tx: Transaction, index: int) -> LiveCellView {
    LiveCellView {
        output: tx.outputs[index].output@,
        output_data: tx.outputs[index].data@,
        out_point: OutPoint { tx_hash: tx.hash, index: index as u32 },
        block_number: 0,
        tx_index: 0,
    }
}

/// The cells that a transaction creates, in the order of its outputs.
pub open spec fn unconfirmed_cells(tx: Transaction) -> Seq<LiveCellView> {
    Seq::new(tx.outputs.len() as nat, |i: int| unconfirmed_cell(tx, i))
}

/// What keeps a process from spending a cell twice: the out-points it has
/// locked, and the cells of its own transactions that no block has
/// confirmed yet.
pub struct DefaultCellCollector {
    locked_cells: Vec<OutPoint>,
    offchain_live_cells: Vec<LiveCell>,
}

/// What the caller of a collection has to do next.
#[derive(Debug, PartialEq, Eq)]
pub enum CollectAction {
    /// Check that the index service is in step with the node, and report
    /// with `sync_checked`.
    CheckSync,
    /// Ask the index service for the next page of this search, in this
    /// order, with this page size and after this cursor, and report with
    /// `absorb_page`.
    FetchPage { search_key: SearchKey, order: Order, limit: u32, after: Option<Vec<u8>> },
    /// Nothing more to ask: call `finish_collect`.
    Finish,
}

/// One collection under way: the cells taken so far and where the search
/// at the index service stands.
pub struct CellCollection {
    query: CellQueryOptions,
    max_mature_number: u64,
    apply_changes: bool,
    excluded: Vec<OutPoint>,
    cells: Vec<LiveCell>,
    total_capacity: u64,
    limit: u32,
    last_cursor: Option<Vec<u8>>,
    synced: bool,
    exhausted: bool,
    offered: Ghost<Seq<LiveCellView>>,
    found: Ghost<Seq<LiveCellView>>,
    pages: Ghost<nat>,
}

impl CellCollection {
    /// The query of the collection.
    pub closed spec fn query(&self) -> CellQueryView {
        self.query@
    }

    pub closed spec fn max_mature_number(&self) -> u64 {
        self.max_mature_number
    }

    /// Whether the collector is to remember what this collection hands out.
    pub closed spec fn apply_changes(&self) -> bool {
        self.apply_changes
    }

    /// The out-points that were locked when the collection began.
    pub closed spec fn excluded(&self) -> Set<OutPoint> {
        self.excluded@.to_set()
    }

    /// The unconfirmed cells that the collection began with.
    pub closed spec fn offered(&self) -> Seq<LiveCellView> {
        self.offered@
    }

    /// The cells of all pages absorbed so far, in the order they came.
    pub closed spec fn found(&self) -> Seq<LiveCellView> {
        self.found@
    }

    /// The number of pages absorbed that held a cell.
    pub closed spec fn pages(&self) -> nat {
        self.pages@
    }

    /// The cursor that the last such page came with.
    pub closed spec fn cursor(&self) -> Option<Seq<u8>> {
        bytes_opt_view(self.last_cursor)
    }

    /// Whether the sync check has been reported as passed.
    pub closed spec fn synced(&self) -> bool {
        self.synced
    }

    /// Whether the index service has answered with an empty page.
    pub closed spec fn exhausted(&self) -> bool {
        self.exhausted
    }

    /// The cells taken so far.
    pub closed spec fn cells(&self) -> Seq<LiveCellView> {
        cells_view(self.cells@)
    }

    /// What the collection holds is what the taking rule gives for the
    /// cells it has seen.
    pub closed spec fn wf(&self) -> bool {
        &&& self.cells() == collected(
            self.offered(),
            self.excluded(),
            self.query(),
            self.max_mature_number(),
            self.found(),
        )
        &&& self.total_capacity == total_capacity(self.cells())
        &&& self.limit == page_limit(self.pages())
    }

    /// The collection ends when the threshold is met or the index service
    /// has no more cells.
    pub open spec fn done(&self) -> bool {
        total_capacity(self.cells()) >= self.query().min_total_capacity || self.exhausted()
    }

    /// The capacity of the cells taken so far.
    pub fn total_capacity(&self) -> (r: u64)
        requires
            self.wf(),
        ensures
            r == total_capacity(self.cells()),
    {
        self.total_capacity
    }

    /// The number of cells taken so far.
    pub fn len(&self) -> (r: usize)
        ensures
            r == self.cells().len(),
    {
        self.cells.len()
    }

    /// What to do next. The sync check comes before the first page, and no
    /// service is asked once the threshold is met. Every page is asked for
    /// with the search of the collection's query, in ascending order.
    pub fn next_action(&self) -> (r: CollectAction)
        requires
            self.wf(),
        ensures
            r is Finish <==> self.done(),
            r is CheckSync <==> !self.done() && !self.synced(),
            r matches CollectAction::FetchPage { search_key, order, limit, after } ==> {
                &&& search_key@ == self.query().search_key()
                &&& order == Order::Asc
                &&& limit == page_limit(self.pages())
                &&& FIRST_PAGE_LIMIT <= limit <= MAX_PAGE_LIMIT
                &&& bytes_opt_view(after) == self.cursor()
            },
    {
        proof {
            lemma_page_limit_bounds(self.pages());
        }
        if self.total_capacity >= self.query.min_total_capacity || self.exhausted {
            CollectAction::Finish
        } else if !self.synced {
            CollectAction::CheckSync
        } else {
            let after = match &self.last_cursor {
                Some(cursor) => Some(bytes_clone(cursor)),
                None => None,
            };
            CollectAction::FetchPage {
                search_key: self.query.search_key(),
                order: Order::Asc,
                limit: self.limit,
                after,
            }
        }
    }

    /// Reports the outcome of the sync check. A failed check ends the
    /// collection with the check's error.
    pub fn sync_checked(self, outcome: Result<(), CellCollectorError>) -> (r: Result<
        CellCollection,
        CellCollectorError,
    >)
        requires
            self.wf(),
        ensures
            match outcome {
                Ok(_) => r matches Ok(next) && next.wf() && next.synced() && next.same_but_sync(
                    self,
                ),
                Err(e) => r == Err::<CellCollection, CellCollectorError>(e),
            },
    {
        match outcome {
            Ok(_) => {
                let mut next = self;
                next.synced = true;
                Ok(next)
            },
            Err(e) => Err(e),
        }
    }

    /// Everything but the sync flag is as in `other`.
    pub open spec fn same_but_sync(&self, other: CellCollection) -> bool {
        &&& self.same_search(other)
        &&& self.cells() == other.cells()
        &&& self.found() == other.found()
        &&& self.pages() == other.pages()
        &&& self.cursor() == other.cursor()
        &&& self.exhausted() == other.exhausted()
    }

    /// Both collections answer the same query against the same cells.
    pub open spec fn same_search(&self, other: CellCollection) -> bool {
        &&& self.query() == other.query()
        &&& self.max_mature_number() == other.max_mature_number()
        &&& self.apply_changes() == other.apply_changes()
        &&& self.excluded() == other.excluded()
        &&& self.offered() == other.offered()
    }

    /// The cells taken once the cells of `page` have been gone through too.
    pub open spec fn cells_with(&self, page: Seq<LiveCellView>) -> Seq<LiveCellView> {
        take_cells(self.cells(), page, self.query(), self.max_mature_number(), self.excluded())
    }

    /// Reports the answer of the index service to the last `FetchPage`.
    ///
    /// A failure of the service ends the collection with an internal error
    /// that holds the failure's text. An empty page marks the search as
    /// exhausted. Of any other page the cells are gone through in order:
    /// a cell is taken if the query matches it and it was not locked when
    /// the collection began, until the threshold is met; the next page is
    /// then asked for after this page's cursor, with twice the page size up
    /// to the maximum.
    pub fn absorb_page(self, page: Result<CellPage, String>) -> (r: Result<
        CellCollection,
        CellCollectorError,
    >)
        requires
            self.wf(),
        ensures
            match page {
                Err(text) => r matches Err(e) && e@ == CellCollectorErrorView::Internal(text@),
                Ok(p) => if total_capacity(self.cells_with(cells_view(p.objects@))) > u64::MAX {
                    r matches Err(e) && e@ == CellCollectorErrorView::Other(
                        capacity_overflow_text(),
                    )
                } else {
                    &&& r matches Ok(next)
                    &&& next.wf()
                    &&& next.same_search(self)
                    &&& next.synced() == self.synced()
                    &&& next.found() == self.found() + cells_view(p.objects@)
                    &&& next.cells() == self.cells_with(cells_view(p.objects@))
                    &&& if p.objects@.len() == 0 {
                        &&& next.exhausted()
                        &&& next.pages() == self.pages()
                        &&& next.cursor() == self.cursor()
                    } else {
                        &&& next.exhausted() == self.exhausted()
                        &&& next.pages() == self.pages() + 1
                        &&& next.cursor() == Some(p.last_cursor@)
                    }
                },
            },
    {
        let page = match page {
            Ok(page) => page,
            Err(text) => {
                return Err(CellCollectorError::Internal(text));
            },
        };
        let ghost seen = cells_view(page.objects@);
        proof {
            lemma_take_split(
                take_cells(
                    Seq::empty(),
                    self.offered(),
                    self.query(),
                    self.max_mature_number(),
                    Set::empty(),
                ),
                self.found(),
                seen,
                self.query(),
                self.max_mature_number(),
                self.excluded(),
            );
        }
        let CellCollection {
            query,
            max_mature_number,
            apply_changes,
            excluded,
            cells,
            total_capacity,
            limit,
            last_cursor,
            synced,
            exhausted,
            offered,
            found,
            pages,
        } = self;
        if page.objects.len() == 0 {
            assert(found@ + seen =~= found@);
            return Ok(
                CellCollection {
                    query,
                    max_mature_number,
                    apply_changes,
                    excluded,
                    cells,
                    total_capacity,
                    limit,
                    last_cursor,
                    synced,
                    exhausted: true,
                    offered,
                    found,
                    pages,
                },
            );
        }
        match take_from_page(
            cells,
            total_capacity,
            &page.objects,
            &query,
            max_mature_number,
            &excluded,
        ) {
            Ok((cells, total_capacity)) => {
                let limit: u32 = if limit < MAX_PAGE_LIMIT {
                    limit * 2
                } else {
                    limit
                };
                Ok(
                    CellCollection {
                        query,
                        max_mature_number,
                        apply_changes,
                        excluded,
                        cells,
                        total_capacity,
                        limit,
                        last_cursor: Some(page.last_cursor),
                        synced,
                        exhausted,
                        offered,
                        found: Ghost(found@ + seen),
                        pages: Ghost(pages@ + 1),
                    },
                )
            },
            Err(e) => Err(e),
        }
    }
}

impl DefaultCellCollector {
    /// The out-points that are locked.
    pub closed spec fn locked(&self) -> Set<OutPoint> {
        self.locked_cells@.to_set()
    }

    /// The cells of transactions built here that no block has confirmed
    /// yet, in the order in which they were added.
    pub closed spec fn offchain(&self) -> Seq<LiveCellView> {
        cells_view(self.offchain_live_cells@)
    }

    /// A collector that has locked nothing and knows of no unconfirmed cell.
    pub fn new() -> (r: DefaultCellCollector)
        ensures
            r.wf(),
            r.locked() == Set::<OutPoint>::empty(),
            r.offchain() == Seq::<LiveCellView>::empty(),
    {
        let r = DefaultCellCollector { locked_cells: Vec::new(), offchain_live_cells: Vec::new() };
        assert(r.locked_cells@.to_set() =~= Set::<OutPoint>::empty());
        assert(cells_view(r.offchain_live_cells@) =~= Seq::<LiveCellView>::empty());
        r
    }

    /// Whether the out-point is locked.
    pub fn is_locked(&self, out_point: &OutPoint) -> (r: bool)
        ensures
            r == self.locked().contains(*out_point),
    {
        contains_out_point(&self.locked_cells, out_point)
    }

    /// The number of out-points that are locked.
    pub fn locked_len(&self) -> (r: usize)
        requires
            self.wf(),
        ensures
            r == self.locked().len(),
    {
        proof {
            self.locked_cells@.unique_seq_to_set();
        }
        self.locked_cells.len()
    }

    /// A copy of the unconfirmed cells.
    pub fn offchain_live_cells(&self) -> (r: Vec<LiveCell>)
        ensures
            cells_view(r@) == self.offchain(),
    {
        copy_cells(&self.offchain_live_cells)
    }

    /// No out-point is kept twice.
    pub closed spec fn wf(&self) -> bool {
        self.locked_cells@.no_duplicates()
    }

    /// Locks the out-point: no collection takes its cell from the index
    /// service until `reset`. Locking it again changes nothing.
    pub fn lock_cell(&mut self, out_point: OutPoint) -> (r: Result<(), CellCollectorError>)
        requires
            old(self).wf(),
        ensures
            final(self).wf(),
            r is Ok,
            final(self).locked() == old(self).locked().insert(out_point),
            final(self).offchain() == old(self).offchain(),
    {
        if !contains_out_point(&self.locked_cells, &out_point) {
            proof {
                lemma_push_to_set(self.locked_cells@, out_point);
            }
            self.locked_cells.push(out_point);
        } else {
            assert(self.locked().insert(out_point) =~= self.locked());
        }
        Ok(())
    }

    /// Takes note of a transaction that was built here and sent: its inputs
    /// are locked, and each of its outputs becomes an unconfirmed cell that
    /// the next collection can take.
    pub fn apply_tx(&mut self, tx: Transaction) -> (r: Result<(), CellCollectorError>)
        requires
            old(self).wf(),
            tx.outputs@.len() <= u32::MAX,
        ensures
            final(self).wf(),
            r is Ok,
            final(self).locked() == old(self).locked().union(tx.inputs@.to_set()),
            final(self).offchain() == old(self).offchain() + unconfirmed_cells(tx),
            tx.inputs@.no_duplicates() && (forall|i: int|
                0 <= i < tx.inputs@.len() ==> !old(self).locked().contains(tx.inputs@[i]))
                ==> final(self).locked().len() == old(self).locked().len() + tx.inputs@.len(),
    {
        let ghost before = *self;
        let inputs: usize = tx.inputs.len();
        let mut i: usize = 0;
        assert(tx.inputs@.take(0).to_set() =~= Set::<OutPoint>::empty());
        assert(self.locked().union(Set::<OutPoint>::empty()) =~= self.locked());
        while i < inputs
            invariant
                i <= inputs,
                inputs == tx.inputs@.len(),
                self.wf(),
                self.locked() == before.locked().union(tx.inputs@.take(i as int).to_set()),
                self.offchain() == before.offchain(),
            decreases inputs - i,
        {
            let _ = self.lock_cell(tx.inputs[i]);
            proof {
                assert(tx.inputs@.take(i + 1) =~= tx.inputs@.take(i as int).push(
                    tx.inputs@[i as int],
                ));
                lemma_push_to_set(tx.inputs@.take(i as int), tx.inputs@[i as int]);
                assert(self.locked() =~= before.locked().union(tx.inputs@.take(i + 1).to_set()));
            }
            i += 1;
        }
        assert(tx.inputs@.take(inputs as int) =~= tx.inputs@);
        let outputs: usize = tx.outputs.len();
        let mut j: usize = 0;
        assert(self.offchain() + unconfirmed_cells(tx).take(0) =~= self.offchain());
        while j < outputs
            invariant
                j <= outputs,
                outputs == tx.outputs@.len(),
                outputs <= u32::MAX,
                self.wf(),
                self.locked() == before.locked().union(tx.inputs@.to_set()),
                self.offchain() == before.offchain() + unconfirmed_cells(tx).take(j as int),
            decreases outputs - j,
        {
            let output = &tx.outputs[j];
            let cell = LiveCell {
                output: output.output.clone(),
                output_data: bytes_clone(&output.data),
                out_point: OutPoint::new(tx.hash, j as u32),
                block_number: 0,
                tx_index: 0,
            };
            proof {
                assert(cell@ == unconfirmed_cell(tx, j as int));
                assert(unconfirmed_cells(tx).take(j + 1) =~= unconfirmed_cells(tx).take(
                    j as int,
                ).push(cell@));
                assert(cells_view(self.offchain_live_cells@.push(cell)) =~= cells_view(
                    self.offchain_live_cells@,
                ).push(cell@));
            }
            self.offchain_live_cells.push(cell);
            assert(self.offchain() =~= before.offchain() + unconfirmed_cells(tx).take(j + 1));
            j += 1;
        }
        assert(unconfirmed_cells(tx).take(outputs as int) =~= unconfirmed_cells(tx));
        proof {
            if tx.inputs@.no_duplicates() && (forall|i: int|
                0 <= i < tx.inputs@.len() ==> !before.locked().contains(tx.inputs@[i])) {
                tx.inputs@.unique_seq_to_set();
                seq_to_set_is_finite(tx.inputs@);
                seq_to_set_is_finite(before.locked_cells@);
                assert(before.locked().disjoint(tx.inputs@.to_set())) by {
                    assert forall|p: OutPoint|
                        !(before.locked().contains(p) && tx.inputs@.to_set().contains(p)) by {
                        if tx.inputs@.contains(p) {
                            let k = choose|k: int| 0 <= k < tx.inputs@.len() && tx.inputs@[k] == p;
                            assert(!before.locked().contains(tx.inputs@[k]));
                        }
                    }
                }
                lemma_set_disjoint_lens(before.locked(), tx.inputs@.to_set());
            }
        }
        Ok(())
    }

    /// Forgets every lock and every unconfirmed cell.
    pub fn reset(&mut self)
        ensures
            final(self).wf(),
            final(self).locked() == Set::<OutPoint>::empty(),
            final(self).offchain() == Seq::<LiveCellView>::empty(),
    {
        self.locked_cells = Vec::new();
        self.offchain_live_cells = Vec::new();
        assert(self.locked_cells@.to_set() =~= Set::<OutPoint>::empty());
        assert(cells_view(self.offchain_live_cells@) =~= Seq::<LiveCellView>::empty());
    }

    /// Begins a collection: goes through the unconfirmed cells and takes
    /// those that the query matches until the threshold is met.
    ///
    /// With `apply_changes` the cells taken leave the collector at once and
    /// the cells passed over stay, in their order. The locks are not looked
    /// at here; they are noted for the pages that may follow. The call fails,
    /// and changes nothing, if the capacity taken does not fit in a `u64`.
    pub fn begin_collect(
        &mut self,
        query: &CellQueryOptions,
        max_mature_number: u64,
        apply_changes: bool,
    ) -> (r: Result<CellCollection, CellCollectorError>)
        requires
            old(self).wf(),
        ensures
            final(self).wf(),
            final(self).locked() == old(self).locked(),
            match r {
                Ok(collection) => {
                    &&& collection.wf()
                    &&& collection.query() == query@
                    &&& collection.max_mature_number() == max_mature_number
                    &&& collection.apply_changes() == apply_changes
                    &&& collection.excluded() == old(self).locked()
                    &&& collection.offered() == old(self).offchain()
                    &&& collection.found() == Seq::<LiveCellView>::empty()
                    &&& collection.pages() == 0
                    &&& collection.cursor() is None
                    &&& !collection.synced()
                    &&& !collection.exhausted()
                    &&& collection.cells() == take_cells(
                        Seq::empty(),
                        old(self).offchain(),
                        query@,
                        max_mature_number,
                        Set::empty(),
                    )
                    &&& total_capacity(collection.cells()) <= u64::MAX
                    &&& final(self).offchain() == if apply_changes {
                        left_cells(old(self).offchain(), query@, max_mature_number)
                    } else {
                        old(self).offchain()
                    }
                },
                Err(e) => {
                    &&& e@ == CellCollectorErrorView::Other(capacity_overflow_text())
                    &&& total_capacity(
                        take_cells(
                            Seq::empty(),
                            old(self).offchain(),
                            query@,
                            max_mature_number,
                            Set::empty(),
                        ),
                    ) > u64::MAX
                    &&& final(self).offchain() == old(self).offchain()
                },
            },
    {
        let (cells, rest, total) = match split_offchain(
            &self.offchain_live_cells,
            query,
            max_mature_number,
        ) {
            Ok(parts) => parts,
            Err(e) => {
                return Err(e);
            },
        };
        let ghost offered = self.offchain();
        if apply_changes {
            self.offchain_live_cells = rest;
        }
        Ok(
            CellCollection {
                query: query.clone(),
                max_mature_number,
                apply_changes,
                excluded: copy_out_points(&self.locked_cells),
                cells,
                total_capacity: total,
                limit: FIRST_PAGE_LIMIT,
                last_cursor: None,
                synced: false,
                exhausted: false,
                offered: Ghost(offered),
                found: Ghost(Seq::empty()),
                pages: Ghost(0),
            },
        )
    }

    /// Ends a collection and hands out its cells with their capacity, which
    /// may be below the threshold if the index service ran out of cells.
    /// With `apply_changes` the out-point of every cell handed out is
    /// locked.
    pub fn finish_collect(&mut self, collection: CellCollection) -> (r: (Vec<LiveCell>, u64))
        requires
            old(self).wf(),
            collection.wf(),
            collection.done(),
        ensures
            final(self).wf(),
            cells_view(r.0@) == collection.cells(),
            r.1 == total_capacity(cells_view(r.0@)),
            final(self).offchain() == old(self).offchain(),
            final(self).locked() == if collection.apply_changes() {
                old(self).locked().union(out_points(collection.cells()))
            } else {
                old(self).locked()
            },
    {
        let ghost before = *self;
        if collection.apply_changes {
            let n: usize = collection.cells.len();
            let mut i: usize = 0;
            assert(out_points(collection.cells().take(0)) =~= Set::<OutPoint>::empty());
            assert(self.locked().union(Set::<OutPoint>::empty()) =~= self.locked());
            while i < n
                invariant
                    i <= n,
                    n == collection.cells@.len(),
                    self.wf(),
                    self.offchain() == before.offchain(),
                    self.locked() == before.locked().union(
                        out_points(collection.cells().take(i as int)),
                    ),
                decreases n - i,
            {
                let _ = self.lock_cell(collection.cells[i].out_point);
                proof {
                    let cell = collection.cells@[i as int]@;
                    assert(collection.cells().take(i + 1) =~= collection.cells().take(
                        i as int,
                    ).push(cell));
                    lemma_out_points_push(collection.cells().take(i as int), cell);
                    assert(self.locked() =~= before.locked().union(
                        out_points(collection.cells().take(i + 1)),
                    ));
                }
                i += 1;
            }
            assert(collection.cells().take(n as int) =~= collection.cells());
        }
        (collection.cells, collection.total_capacity)
    }
}

/// Of the cells that a collection holds, those behind the ones it took from
/// the unconfirmed cells came from the index service: each was returned by
/// the service, is matched by the query, and was not locked when the
/// collection began.
pub proof fn lemma_index_cells_unlocked(collection: CellCollection)
    requires
        collection.wf(),
    ensures
        forall|i: int|
            take_cells(
                Seq::empty(),
                collection.offered(),
                collection.query(),
                collection.max_mature_number(),
                Set::empty(),
            ).len() <= i < collection.cells().len() ==> {
                &&& collection.found().contains(#[trigger] collection.cells()[i])
                &&& collection.query().matches(
                    collection.cells()[i],
                    Some(collection.max_mature_number()),
                )
                &&& !collection.excluded().contains(collection.cells()[i].out_point)
            },
{
    let from_offchain = take_cells(
        Seq::empty(),
        collection.offered(),
        collection.query(),
        collection.max_mature_number(),
        Set::empty(),
    );
    lemma_take_origin(
        from_offchain,
        collection.found(),
        collection.query(),
        collection.max_mature_number(),
        collection.excluded(),
    );
}

/// A cell that one collection has handed out and locked is not handed out
/// by a later one: if every out-point of `first` is excluded in `second`
/// (as it is when `first` was finished with `apply_changes` and the
/// collector was not reset before `second` began), and none of the
/// unconfirmed cells that `second` began with has an out-point of `first`,
/// then the two share no out-point, whatever the index service returns.
pub proof fn lemma_not_collected_again(first: Seq<LiveCellView>, second: CellCollection)
    requires
        second.wf(),
        out_points(first).subset_of(second.excluded()),
        out_points(first).disjoint(out_points(second.offered())),
    ensures
        out_points(first).disjoint(out_points(second.cells())),
{
    let query = second.query();
    let number = second.max_mature_number();
    let from_offchain = take_cells(Seq::empty(), second.offered(), query, number, Set::empty());
    lemma_take_origin(Seq::empty(), second.offered(), query, number, Set::empty());
    lemma_take_origin(from_offchain, second.found(), query, number, second.excluded());
    let cells = second.cells();
    assert forall|p: OutPoint| !(out_points(first).contains(p) && out_points(cells).contains(p)) by {
        if out_points(first).contains(p) && out_points(cells).contains(p) {
            let j = choose|j: int| 0 <= j < cells.len() && cells[j].out_point == p;
            if j < from_offchain.len() {
                assert(cells[j] == from_offchain[j]);
                assert(second.offered().contains(from_offchain[j]));
                let k = choose|k: int|
                    0 <= k < second.offered().len() && second.offered()[k] == from_offchain[j];
                assert(out_points(second.offered()).contains(p));
            } else {
                assert(accepts(query, number, second.excluded(), cells[j]));
            }
        }
    }
}

} // verus!
