//! What a caller asks of the collector: which cells count, and how much
//! capacity they must add up to.

use vstd::prelude::*;
use crate::types::{LiveCell, LiveCellView, Script, ScriptView};

verus! {

/// A half-open range of values, from `start` up to but not including `end`.
#[derive(Clone, Copy, Debug, PartialEq, Eq, Structural)]
pub struct ValueRangeOption {
    pub start: u64,
    pub end: u64,
}

impl ValueRangeOption {
    pub fn new(start: u64, end: u64) -> (r: ValueRangeOption)
        ensures
            r == (ValueRangeOption { start, end }),
    {
        ValueRangeOption { start, end }
    }

    /// A range that holds every value from `start` on, but for `u64::MAX`.
    pub fn new_min(start: u64) -> (r: ValueRangeOption)
        ensures
            r == (ValueRangeOption { start, end: u64::MAX }),
    {
        ValueRangeOption { start, end: u64::MAX }
    }

    pub open spec fn contains(&self, value: u64) -> bool {
        self.start <= value < self.end
    }

    pub fn match_value(&self, value: u64) -> (r: bool)
        ensures
            r == self.contains(value),
    {
        self.start <= value && value < self.end
    }
}

/// A missing range admits every value.
pub open spec fn in_range(range: Option<ValueRangeOption>, value: u64) -> bool {
    match range {
        Some(r) => r.contains(value),
        None => true,
    }
}

/// Which cells a query wants with regard to maturity.
#[derive(Clone, Copy, Debug, PartialEq, Eq, Structural)]
pub enum MaturityOption {
    Mature,
    Immature,
    Both,
}

/// Whether the primary script of a query is compared with a cell's lock
/// script or with its type script.
#[derive(Clone, Copy, Debug, PartialEq, Eq, Structural)]
pub enum PrimaryScriptType {
    Lock,
    Type,
}

/// A cell is immature only while it is the output of a block's first
/// transaction and that block lies above `max_mature_number`. A cell that no
/// block holds yet (`block_number == 0`) is mature.
pub open spec fn is_mature(cell: LiveCellView, max_mature_number: u64) -> bool {
    cell.tx_index > 0 || cell.block_number == 0 || cell.block_number <= max_mature_number
}

/// The criteria of one collection.
#[derive(Debug)]
pub struct CellQueryOptions {
    pub primary_script: Script,
    pub primary_type: PrimaryScriptType,
    pub data_len_range: Option<ValueRangeOption>,
    pub capacity_range: Option<ValueRangeOption>,
    pub block_range: Option<ValueRangeOption>,
    pub maturity: MaturityOption,
    /// Collecting stops as soon as the cells taken hold this much capacity.
    pub min_total_capacity: u64,
}

pub struct CellQueryView {
    pub primary_script: ScriptView,
    pub primary_type: PrimaryScriptType,
    pub data_len_range: Option<ValueRangeOption>,
    pub capacity_range: Option<ValueRangeOption>,
    pub block_range: Option<ValueRangeOption>,
    pub maturity: MaturityOption,
    pub min_total_capacity: u64,
}

impl View for CellQueryOptions {
    type V = CellQueryView;

    open spec fn view(&self) -> CellQueryView {
        CellQueryView {
            primary_script: self.primary_script@,
            primary_type: self.primary_type,
            data_len_range: self.data_len_range,
            capacity_range: self.capacity_range,
            block_range: self.block_range,
            maturity: self.maturity,
            min_total_capacity: self.min_total_capacity,
        }
    }
}

impl CellQueryView {
    /// Whether the cell has the primary script in the place that
    /// `primary_type` names.
    pub open spec fn script_matches(&self, cell: LiveCellView) -> bool {
        match self.primary_type {
            PrimaryScriptType::Lock => cell.output.lock == self.primary_script,
            PrimaryScriptType::Type => cell.output.type_ == Some(self.primary_script),
        }
    }

    /// Whether the cell's maturity is the one asked for. Without a
    /// `max_mature_number` maturity is not looked at.
    pub open spec fn maturity_matches(
        &self,
        cell: LiveCellView,
        max_mature_number: Option<u64>,
    ) -> bool {
        match max_mature_number {
            Some(number) => match self.maturity {
                MaturityOption::Mature => is_mature(cell, number),
                MaturityOption::Immature => !is_mature(cell, number),
                MaturityOption::Both => true,
            },
            None => true,
        }
    }

    /// The cells that the query accepts: the script, the three ranges and
    /// the maturity must all agree.
    pub open spec fn matches(&self, cell: LiveCellView, max_mature_number: Option<u64>) -> bool {
        &&& self.script_matches(cell)
        &&& in_range(self.data_len_range, cell.output_data.len() as u64)
        &&& in_range(self.capacity_range, cell.output.capacity)
        &&& in_range(self.block_range, cell.block_number)
        &&& self.maturity_matches(cell, max_mature_number)
    }
}

impl Clone for CellQueryOptions {
    fn clone(&self) -> (r: CellQueryOptions)
        ensures
            r@ == self@,
    {
        CellQueryOptions {
            primary_script: self.primary_script.clone(),
            primary_type: self.primary_type,
            data_len_range: self.data_len_range,
            capacity_range: self.capacity_range,
            block_range: self.block_range,
            maturity: self.maturity,
            min_total_capacity: self.min_total_capacity,
        }
    }
}

impl CellQueryOptions {
    /// A query for mature cells of any size under `primary_script`, which
    /// stops at the first cell (a threshold of one shannon).
    pub fn new(primary_script: Script, primary_type: PrimaryScriptType) -> (r: CellQueryOptions)
        ensures
            r.primary_script == primary_script,
            r.primary_type == primary_type,
            r.data_len_range is None,
            r.capacity_range is None,
            r.block_range is None,
            r.maturity == MaturityOption::Mature,
            r.min_total_capacity == 1,
    {
        CellQueryOptions {
            primary_script,
            primary_type,
            data_len_range: None,
            capacity_range: None,
            block_range: None,
            maturity: MaturityOption::Mature,
            min_total_capacity: 1,
        }
    }

    pub fn new_lock(primary_script: Script) -> (r: CellQueryOptions)
        ensures
            r.primary_script == primary_script,
            r.primary_type == PrimaryScriptType::Lock,
            r.data_len_range is None,
            r.capacity_range is None,
            r.block_range is None,
            r.maturity == MaturityOption::Mature,
            r.min_total_capacity == 1,
    {
        CellQueryOptions::new(primary_script, PrimaryScriptType::Lock)
    }

    pub fn new_type(primary_script: Script) -> (r: CellQueryOptions)
        ensures
            r.primary_script == primary_script,
            r.primary_type == PrimaryScriptType::Type,
            r.data_len_range is None,
            r.capacity_range is None,
            r.block_range is None,
            r.maturity == MaturityOption::Mature,
            r.min_total_capacity == 1,
    {
        CellQueryOptions::new(primary_script, PrimaryScriptType::Type)
    }

    /// Tests one cell against the query. The same test serves cells that
    /// the index service returned and cells that no block has confirmed yet.
    pub fn match_cell(&self, cell: &LiveCell, max_mature_number: Option<u64>) -> (r: bool)
        ensures
            r == self@.matches(cell@, max_mature_number),
    {
        let script_ok = match self.primary_type {
            PrimaryScriptType::Lock => cell.output.lock.same(&self.primary_script),
            PrimaryScriptType::Type => match &cell.output.type_ {
                Some(script) => script.same(&self.primary_script),
                None => false,
            },
        };
        if !script_ok {
            return false;
        }
        let data_len: u64 = cell.output_data.len() as u64;
        if !range_admits(&self.data_len_range, data_len) {
            return false;
        }
        if !range_admits(&self.capacity_range, cell.output.capacity) {
            return false;
        }
        if !range_admits(&self.block_range, cell.block_number) {
            return false;
        }
        match max_mature_number {
            Some(number) => {
                let mature = cell.tx_index > 0 || cell.block_number == 0 || cell.block_number
                    <= number;
                match self.maturity {
                    MaturityOption::Mature => mature,
                    MaturityOption::Immature => !mature,
                    MaturityOption::Both => true,
                }
            },
            None => true,
        }
    }
}

/// Tests a value against an optional range.
pub fn range_admits(range: &Option<ValueRangeOption>, value: u64) -> (r: bool)
    ensures
        r == in_range(*range, value),
{
    match range {
        Some(r) => r.match_value(value),
        None => true,
    }
}

/// The order in which the index service goes through its cells.
#[derive(Clone, Copy, Debug, PartialEq, Eq, Structural)]
pub enum Order {
    Desc,
    Asc,
}

/// The ranges that the index service applies to the cells it goes through.
#[derive(Clone, Copy, Debug, PartialEq, Eq, Structural)]
pub struct SearchKeyFilter {
    pub output_data_len_range: Option<ValueRangeOption>,
    pub output_capacity_range: Option<ValueRangeOption>,
    pub block_range: Option<ValueRangeOption>,
}

/// What the index service is asked to search for: the cells with `script`
/// as their lock or type script that lie within the ranges of `filter`.
#[derive(Debug, PartialEq, Eq)]
pub struct SearchKey {
    pub script: Script,
    pub script_type: PrimaryScriptType,
    pub filter: Option<SearchKeyFilter>,
}

pub struct SearchKeyView {
    pub script: ScriptView,
    pub script_type: PrimaryScriptType,
    pub filter: Option<SearchKeyFilter>,
}

impl View for SearchKey {
    type V = SearchKeyView;

    open spec fn view(&self) -> SearchKeyView {
        SearchKeyView {
            script: self.script@,
            script_type: self.script_type,
            filter: self.filter,
        }
    }
}

impl SearchKeyView {
    /// The cells that the search finds.
    pub open spec fn admits(&self, cell: LiveCellView) -> bool {
        &&& match self.script_type {
            PrimaryScriptType::Lock => cell.output.lock == self.script,
            PrimaryScriptType::Type => cell.output.type_ == Some(self.script),
        }
        &&& match self.filter {
            Some(filter) => {
                &&& in_range(filter.output_data_len_range, cell.output_data.len() as u64)
                &&& in_range(filter.output_capacity_range, cell.output.capacity)
                &&& in_range(filter.block_range, cell.block_number)
            },
            None => true,
        }
    }
}

impl CellQueryView {
    /// The search for the query: its script, and its three ranges where it
    /// has any. Maturity is no part of the search.
    pub open spec fn search_key(&self) -> SearchKeyView {
        SearchKeyView {
            script: self.primary_script,
            script_type: self.primary_type,
            filter: if self.data_len_range is None && self.capacity_range is None
                && self.block_range is None {
                None
            } else {
                Some(
                    SearchKeyFilter {
                        output_data_len_range: self.data_len_range,
                        output_capacity_range: self.capacity_range,
                        block_range: self.block_range,
                    },
                )
            },
        }
    }

    /// The search loses no cell: whatever the query matches, with or without
    /// a look at maturity, the search for the query finds.
    pub proof fn lemma_search_finds_matches(
        &self,
        cell: LiveCellView,
        max_mature_number: Option<u64>,
    )
        requires
            self.matches(cell, max_mature_number),
        ensures
            self.search_key().admits(cell),
    {
    }
}

impl CellQueryOptions {
    /// The search that the index service is to run for the query.
    pub fn search_key(&self) -> (r: SearchKey)
        ensures
            r@ == self@.search_key(),
    {
        let filter = if self.data_len_range.is_none() && self.capacity_range.is_none()
            && self.block_range.is_none() {
            None
        } else {
            Some(
                SearchKeyFilter {
                    output_data_len_range: self.data_len_range,
                    output_capacity_range: self.capacity_range,
                    block_range: self.block_range,
                },
            )
        };
        SearchKey { script: self.primary_script.clone(), script_type: self.primary_type, filter }
    }
}

} // verus!
