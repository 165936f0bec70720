//! The dependency provider: transactions, cells with their data, block
//! headers and the consensus parameters, each fetched from the node once and
//! served from a cache after that.
//!
//! The provider talks to no node. A lookup (`get_transaction`,
//! `get_cell_with_data`, `get_header`, `get_consensus`) answers from the
//! cache; where it finds nothing the caller asks the node and hands the
//! answer to the matching `resolve_` function, which checks the state that
//! the node reports, stores what passes and returns it. A caller that shares
//! a provider holds its lock from the lookup to the end of the `resolve_`
//! call, so that no key is fetched twice.

use vstd::prelude::*;
use vstd::bytes::{lemma_auto_spec_u32_to_from_le_bytes, spec_u32_to_le_bytes, u32_to_le_bytes};
use crate::cache::{
    all_of_kind,
    cached,
    distinct_keys,
    find_key,
    lemma_find_key_range,
    lemma_lookup_keeps,
    lemma_promoted,
    lemma_stored,
    looked_up,
    lru_entries,
    lru_get,
    lru_limit,
    lru_new,
    lru_put,
    promoted,
    stored,
    CachedItem,
    CachedItemView,
    Entries,
    ItemKind,
    MAX_CACHE_CAPACITY,
};
use crate::error::{
    header_kind_text,
    header_not_found,
    invalid_cell_status,
    invalid_cell_status_text,
    invalid_transaction_status,
    invalid_transaction_status_text,
    transaction_kind_text,
    transaction_not_found,
    TransactionDependencyError,
    TransactionDependencyErrorView,
};
use crate::types::{bytes_clone, Byte32, CellOutput, CellOutputView, OutPoint};

verus! {

/// `ckb_chain_spec::consensus::Consensus`: the consensus parameters of a
/// chain. The library hands them on and never looks into them.
#[verifier::external_type_specification]
#[verifier::external_body]
pub struct ExConsensus(ckb_chain_spec::consensus::Consensus);

/// `Consensus::clone`, which the crate derives: the copy holds the same
/// parameters.
pub assume_specification[ <ckb_chain_spec::consensus::Consensus as Clone>::clone ](
    consensus: &ckb_chain_spec::consensus::Consensus,
) -> (r: ckb_chain_spec::consensus::Consensus)
    ensures
        r == *consensus,
;

/// Where a transaction stands, as the node reports it.
#[derive(Clone, Copy, Debug, PartialEq, Eq, Structural)]
pub enum TxStatus {
    Pending,
    Proposed,
    Committed,
    Unknown,
    Rejected,
}

/// The name of a status, as it stands in an error's text.
pub open spec fn status_text(status: TxStatus) -> Seq<char> {
    match status {
        TxStatus::Pending => "pending"@,
        TxStatus::Proposed => "proposed"@,
        TxStatus::Committed => "committed"@,
        TxStatus::Unknown => "unknown"@,
        TxStatus::Rejected => "rejected"@,
    }
}

pub fn status_name(status: TxStatus) -> (r: &'static str)
    ensures
        r@ == status_text(status),
{
    match status {
        TxStatus::Pending => "pending",
        TxStatus::Proposed => "proposed",
        TxStatus::Committed => "committed",
        TxStatus::Unknown => "unknown",
        TxStatus::Rejected => "rejected",
    }
}

/// The node's answer for a transaction it knows.
pub struct TransactionWithStatus {
    pub status: TxStatus,
    pub transaction: Option<ckb_types::core::TransactionView>,
}

/// A cell as the node returns it.
pub struct CellInfo {
    pub output: CellOutput,
    pub data: Option<Vec<u8>>,
}

/// The node's answer for a cell.
pub struct CellWithStatus {
    pub status: String,
    pub cell: Option<CellInfo>,
}

/// The status of a cell that can be spent.
pub open spec fn live_text() -> Seq<char> {
    "live"@
}

pub fn is_live(status: &String) -> (r: bool)
    ensures
        r == (status@ == live_text()),
{
    let live = "live".to_owned();
    *status == live
}

/// The key of a transaction or a header in its cache: the 32 bytes of the
/// hash.
pub open spec fn hash_key(hash: Byte32) -> Seq<u8> {
    hash@
}

/// The key of a cell in its cache: the 32 bytes of the transaction hash,
/// then the index in four bytes, lowest first.
pub open spec fn out_point_key(out_point: OutPoint) -> Seq<u8> {
    out_point.tx_hash@ + spec_u32_to_le_bytes(out_point.index)
}

/// Two out-points with the same key are the same out-point.
pub proof fn lemma_out_point_key_injective(a: OutPoint, b: OutPoint)
    requires
        out_point_key(a) == out_point_key(b),
    ensures
        a == b,
{
    lemma_auto_spec_u32_to_from_le_bytes();
    let key = out_point_key(a);
    assert(a.tx_hash@ =~= key.take(32));
    assert(b.tx_hash@ =~= key.take(32));
    assert(a.tx_hash =~= b.tx_hash);
    assert(spec_u32_to_le_bytes(a.index) =~= key.skip(32));
    assert(spec_u32_to_le_bytes(b.index) =~= key.skip(32));
}

pub fn make_hash_key(hash: &Byte32) -> (r: Vec<u8>)
    ensures
        r@ == hash_key(*hash),
{
    let mut r: Vec<u8> = Vec::new();
    let mut i: usize = 0;
    while i < 32
        invariant
            i <= 32,
            r@ == hash@.take(i as int),
        decreases 32 - i,
    {
        r.push(hash[i]);
        assert(hash@.take(i as int).push(hash@[i as int]) =~= hash@.take(i + 1));
        i += 1;
    }
    assert(hash@.take(32) =~= hash@);
    r
}

pub fn make_out_point_key(out_point: &OutPoint) -> (r: Vec<u8>)
    ensures
        r@ == out_point_key(*out_point),
{
    let mut r = make_hash_key(&out_point.tx_hash);
    let mut index = u32_to_le_bytes(out_point.index);
    r.append(&mut index);
    r
}

/// The transaction held under the hash, if any.
pub open spec fn cached_transaction(entries: Entries, tx_hash: Byte32) -> Option<
    ckb_types::core::TransactionView,
> {
    match cached(entries, hash_key(tx_hash)) {
        Some(CachedItemView::Transaction(tx)) => Some(tx),
        _ => None,
    }
}

/// The cell held under the out-point, if any.
pub open spec fn cached_cell(entries: Entries, out_point: OutPoint) -> Option<
    (CellOutputView, Seq<u8>),
> {
    match cached(entries, out_point_key(out_point)) {
        Some(CachedItemView::Cell(output, data)) => Some((output, data)),
        _ => None,
    }
}

/// The header held under the block hash, if any.
pub open spec fn cached_header(entries: Entries, block_hash: Byte32) -> Option<
    ckb_types::core::HeaderView,
> {
    match cached(entries, hash_key(block_hash)) {
        Some(CachedItemView::Header(header)) => Some(header),
        _ => None,
    }
}

/// The view of a cell with its data.
pub open spec fn cell_view(cell: (CellOutput, Vec<u8>)) -> (CellOutputView, Seq<u8>) {
    (cell.0@, cell.1@)
}

pub open spec fn cell_opt_view(cell: Option<(CellOutput, Vec<u8>)>) -> Option<
    (CellOutputView, Seq<u8>),
> {
    match cell {
        Some(c) => Some(cell_view(c)),
        None => None,
    }
}

/// The caches and the consensus slot of a dependency provider.
pub struct DefaultTransactionDependencyProvider {
    consensus: Option<ckb_chain_spec::consensus::Consensus>,
    tx_cache: lru::LruCache<Vec<u8>, CachedItem>,
    cell_cache: lru::LruCache<Vec<u8>, CachedItem>,
    header_cache: lru::LruCache<Vec<u8>, CachedItem>,
}

impl DefaultTransactionDependencyProvider {
    /// The consensus parameters, once they were fetched.
    pub closed spec fn consensus(&self) -> Option<ckb_chain_spec::consensus::Consensus> {
        self.consensus
    }

    /// The number of entries that each of the three caches holds at most.
    pub closed spec fn capacity(&self) -> nat {
        lru_limit(self.tx_cache)
    }

    /// The cached transactions, from the most recently used to the least.
    pub closed spec fn transactions(&self) -> Entries {
        lru_entries(self.tx_cache)
    }

    /// The cached cells, from the most recently used to the least.
    pub closed spec fn cells(&self) -> Entries {
        lru_entries(self.cell_cache)
    }

    /// The cached headers, from the most recently used to the least.
    pub closed spec fn headers(&self) -> Entries {
        lru_entries(self.header_cache)
    }

    /// The entries form a cache of this kind that keeps to the limit.
    pub open spec fn cache_wf(entries: Entries, limit: nat, kind: ItemKind) -> bool {
        &&& distinct_keys(entries)
        &&& entries.len() <= limit
        &&& all_of_kind(entries, kind)
    }

    /// Each cache keeps to the common limit, holds no key twice and holds
    /// items of its own kind only.
    pub closed spec fn wf(&self) -> bool {
        &&& lru_limit(self.cell_cache) == self.capacity()
        &&& lru_limit(self.header_cache) == self.capacity()
        &&& Self::cache_wf(self.transactions(), self.capacity(), ItemKind::Transaction)
        &&& Self::cache_wf(self.cells(), self.capacity(), ItemKind::Cell)
        &&& Self::cache_wf(self.headers(), self.capacity(), ItemKind::Header)
    }

    /// Everything but the cached transactions is as in `other`.
    pub open spec fn same_but_transactions(&self, other: Self) -> bool {
        &&& self.capacity() == other.capacity()
        &&& self.consensus() == other.consensus()
        &&& self.cells() == other.cells()
        &&& self.headers() == other.headers()
    }

    /// Everything but the cached cells is as in `other`.
    pub open spec fn same_but_cells(&self, other: Self) -> bool {
        &&& self.capacity() == other.capacity()
        &&& self.consensus() == other.consensus()
        &&& self.transactions() == other.transactions()
        &&& self.headers() == other.headers()
    }

    /// Everything but the cached headers is as in `other`.
    pub open spec fn same_but_headers(&self, other: Self) -> bool {
        &&& self.capacity() == other.capacity()
        &&& self.consensus() == other.consensus()
        &&& self.transactions() == other.transactions()
        &&& self.cells() == other.cells()
    }

    /// Nothing has changed from `other`.
    pub open spec fn unchanged(&self, other: Self) -> bool {
        &&& self.same_but_transactions(other)
        &&& self.transactions() == other.transactions()
    }

    /// A provider with three empty caches of `cache_capacity` entries each
    /// and no consensus parameters. With a capacity of zero nothing is ever
    /// cached.
    pub fn new(cache_capacity: usize) -> (r: DefaultTransactionDependencyProvider)
        requires
            cache_capacity <= MAX_CACHE_CAPACITY,
        ensures
            r.wf(),
            r.capacity() == cache_capacity,
            r.consensus() is None,
            r.transactions().len() == 0,
            r.cells().len() == 0,
            r.headers().len() == 0,
    {
        DefaultTransactionDependencyProvider {
            consensus: None,
            tx_cache: lru_new(cache_capacity),
            cell_cache: lru_new(cache_capacity),
            header_cache: lru_new(cache_capacity),
        }
    }

    /// The consensus parameters, if they were fetched before.
    pub fn get_consensus(&self) -> (r: Option<ckb_chain_spec::consensus::Consensus>)
        ensures
            r == self.consensus(),
    {
        match &self.consensus {
            Some(consensus) => Some(consensus.clone()),
            None => None,
        }
    }

    /// Takes the node's answer to the request for the consensus parameters
    /// after `get_consensus` found none: the parameters are kept for good
    /// and returned; a failure of the node comes back as an error with the
    /// failure's text and leaves the slot empty.
    pub fn resolve_consensus(
        &mut self,
        fetched: Result<ckb_chain_spec::consensus::Consensus, String>,
    ) -> (r: Result<ckb_chain_spec::consensus::Consensus, TransactionDependencyError>)
        requires
            old(self).wf(),
            old(self).consensus() is None,
        ensures
            final(self).wf(),
            final(self).capacity() == old(self).capacity(),
            final(self).transactions() == old(self).transactions(),
            final(self).cells() == old(self).cells(),
            final(self).headers() == old(self).headers(),
            match fetched {
                Ok(consensus) => r == Ok::<
                    ckb_chain_spec::consensus::Consensus,
                    TransactionDependencyError,
                >(consensus) && final(self).consensus() == Some(consensus),
                Err(text) => r matches Err(e) && e@ == TransactionDependencyErrorView::Other(text@)
                    && final(self).consensus() is None,
            },
    {
        match fetched {
            Ok(consensus) => {
                self.consensus = Some(consensus.clone());
                Ok(consensus)
            },
            Err(text) => Err(TransactionDependencyError::Other(text)),
        }
    }

    /// Looks the transaction up in the cache. A transaction that is found
    /// counts as used. With a capacity of zero nothing is ever found.
    pub fn get_transaction(&mut self, tx_hash: &Byte32) -> (r: Option<
        ckb_types::core::TransactionView,
    >)
        requires
            old(self).wf(),
        ensures
            final(self).wf(),
            final(self).same_but_transactions(*old(self)),
            r == cached_transaction(old(self).transactions(), *tx_hash),
            r is Some <==> find_key(old(self).transactions(), hash_key(*tx_hash)) is Some,
            final(self).transactions() == looked_up(old(self).transactions(), hash_key(*tx_hash)),
            forall|key: Seq<u8>|
                cached(final(self).transactions(), key) == cached(old(self).transactions(), key),
            old(self).capacity() == 0 ==> r is None,
    {
        let key = make_hash_key(tx_hash);
        proof {
            lemma_find_key_range(self.transactions(), key@);
            if find_key(self.transactions(), key@) is Some {
                lemma_promoted(self.transactions(), find_key(self.transactions(), key@).unwrap());
            }
            assert forall|other: Seq<u8>|
                cached(looked_up(self.transactions(), key@), other) == cached(self.transactions(), other) by {
                lemma_lookup_keeps(self.transactions(), key@, other);
            }
        }
        match lru_get(&mut self.tx_cache, &key) {
            Some(CachedItem::Transaction(tx)) => Some(tx),
            _ => None,
        }
    }

    /// Takes the node's answer to the request for the transaction after
    /// `get_transaction` found none.
    ///
    /// A committed transaction is stored under its hash and returned. A
    /// failure of the node, a transaction that the node does not know and a
    /// transaction in any other state are errors, and change nothing. The
    /// node's answer for a committed transaction holds the transaction.
    pub fn resolve_transaction(
        &mut self,
        tx_hash: &Byte32,
        fetched: Result<Option<TransactionWithStatus>, String>,
    ) -> (r: Result<ckb_types::core::TransactionView, TransactionDependencyError>)
        requires
            old(self).wf(),
            match fetched {
                Ok(Some(answer)) => answer.status == TxStatus::Committed
                    ==> answer.transaction is Some,
                _ => true,
            },
        ensures
            final(self).wf(),
            final(self).same_but_transactions(*old(self)),
            match fetched {
                Err(text) => r matches Err(e) && e@ == TransactionDependencyErrorView::Other(text@)
                    && final(self).transactions() == old(self).transactions(),
                Ok(None) => r matches Err(e) && e@ == TransactionDependencyErrorView::NotFound(
                    transaction_kind_text(),
                ) && final(self).transactions() == old(self).transactions(),
                Ok(Some(answer)) => if answer.status == TxStatus::Committed {
                    &&& r == Ok::<ckb_types::core::TransactionView, TransactionDependencyError>(
                        answer.transaction.unwrap(),
                    )
                    &&& final(self).transactions() == stored(
                        old(self).transactions(),
                        old(self).capacity(),
                        hash_key(*tx_hash),
                        CachedItemView::Transaction(answer.transaction.unwrap()),
                    )
                    &&& cached_transaction(final(self).transactions(), *tx_hash) == if old(
                        self,
                    ).capacity() == 0 {
                        None
                    } else {
                        answer.transaction
                    }
                } else {
                    &&& r matches Err(e)
                    &&& e@ == TransactionDependencyErrorView::Other(
                        invalid_transaction_status_text(status_text(answer.status)),
                    )
                    &&& final(self).transactions() == old(self).transactions()
                },
            },
    {
        let answer = match fetched {
            Ok(Some(answer)) => answer,
            Ok(None) => {
                return Err(transaction_not_found());
            },
            Err(text) => {
                return Err(TransactionDependencyError::Other(text));
            },
        };
        if answer.status != TxStatus::Committed {
            return Err(invalid_transaction_status(status_name(answer.status)));
        }
        let tx = match answer.transaction {
            Some(tx) => tx,
            None => {
                assert(false);
                return Err(transaction_not_found());
            },
        };
        let key = make_hash_key(tx_hash);
        proof {
            lemma_stored(
                self.transactions(),
                self.capacity(),
                key@,
                CachedItemView::Transaction(tx),
            );
        }
        lru_put(&mut self.tx_cache, key, CachedItem::Transaction(tx.clone()));
        Ok(tx)
    }

    /// Looks the cell up in the cache. A cell that is found counts as used.
    /// With a capacity of zero nothing is ever found.
    pub fn get_cell_with_data(&mut self, out_point: &OutPoint) -> (r: Option<
        (CellOutput, Vec<u8>),
    >)
        requires
            old(self).wf(),
        ensures
            final(self).wf(),
            final(self).same_but_cells(*old(self)),
            cell_opt_view(r) == cached_cell(old(self).cells(), *out_point),
            r is Some <==> find_key(old(self).cells(), out_point_key(*out_point)) is Some,
            final(self).cells() == looked_up(old(self).cells(), out_point_key(*out_point)),
            forall|key: Seq<u8>|
                cached(final(self).cells(), key) == cached(old(self).cells(), key),
            old(self).capacity() == 0 ==> r is None,
    {
        let key = make_out_point_key(out_point);
        proof {
            lemma_find_key_range(self.cells(), key@);
            if find_key(self.cells(), key@) is Some {
                lemma_promoted(self.cells(), find_key(self.cells(), key@).unwrap());
            }
            assert forall|other: Seq<u8>|
                cached(looked_up(self.cells(), key@), other) == cached(self.cells(), other) by {
                lemma_lookup_keeps(self.cells(), key@, other);
            }
        }
        match lru_get(&mut self.cell_cache, &key) {
            Some(CachedItem::Cell(output, data)) => Some((output, data)),
            _ => None,
        }
    }

    /// The output of the cell, if the cell is cached.
    pub fn get_cell(&mut self, out_point: &OutPoint) -> (r: Option<CellOutput>)
        requires
            old(self).wf(),
        ensures
            final(self).wf(),
            final(self).same_but_cells(*old(self)),
            match cached_cell(old(self).cells(), *out_point) {
                Some(cell) => r matches Some(output) && output@ == cell.0,
                None => r is None,
            },
            final(self).cells() == looked_up(old(self).cells(), out_point_key(*out_point)),
    {
        match self.get_cell_with_data(out_point) {
            Some((output, _)) => Some(output),
            None => None,
        }
    }

    /// The data of the cell, if the cell is cached.
    pub fn get_cell_data(&mut self, out_point: &OutPoint) -> (r: Option<Vec<u8>>)
        requires
            old(self).wf(),
        ensures
            final(self).wf(),
            final(self).same_but_cells(*old(self)),
            match cached_cell(old(self).cells(), *out_point) {
                Some(cell) => r matches Some(data) && data@ == cell.1,
                None => r is None,
            },
            final(self).cells() == looked_up(old(self).cells(), out_point_key(*out_point)),
    {
        match self.get_cell_with_data(out_point) {
            Some((_, data)) => Some(data),
            None => None,
        }
    }

    /// Takes the node's answer to the request for the cell and its data
    /// after `get_cell_with_data` found none.
    ///
    /// A live cell is stored under its out-point and returned with its data.
    /// A failure of the node and a cell in any other state are errors, and
    /// change nothing. The node's answer for a live cell holds the cell and
    /// its data.
    pub fn resolve_cell_with_data(
        &mut self,
        out_point: &OutPoint,
        fetched: Result<CellWithStatus, String>,
    ) -> (r: Result<(CellOutput, Vec<u8>), TransactionDependencyError>)
        requires
            old(self).wf(),
            match fetched {
                Ok(answer) => answer.status@ == live_text() ==> answer.cell is Some
                    && answer.cell.unwrap().data is Some,
                Err(_) => true,
            },
        ensures
            final(self).wf(),
            final(self).same_but_cells(*old(self)),
            match fetched {
                Err(text) => r matches Err(e) && e@ == TransactionDependencyErrorView::Other(text@)
                    && final(self).cells() == old(self).cells(),
                Ok(answer) => if answer.status@ == live_text() {
                    &&& r matches Ok(cell)
                    &&& cell.0@ == answer.cell.unwrap().output@
                    &&& cell.1@ == answer.cell.unwrap().data.unwrap()@
                    &&& final(self).cells() == stored(
                        old(self).cells(),
                        old(self).capacity(),
                        out_point_key(*out_point),
                        CachedItemView::Cell(cell.0@, cell.1@),
                    )
                    &&& cached_cell(final(self).cells(), *out_point) == if old(self).capacity()
                        == 0 {
                        None
                    } else {
                        Some((cell.0@, cell.1@))
                    }
                } else {
                    &&& r matches Err(e)
                    &&& e@ == TransactionDependencyErrorView::Other(
                        invalid_cell_status_text(answer.status@),
                    )
                    &&& final(self).cells() == old(self).cells()
                },
            },
    {
        let answer = match fetched {
            Ok(answer) => answer,
            Err(text) => {
                return Err(TransactionDependencyError::Other(text));
            },
        };
        if !is_live(&answer.status) {
            return Err(invalid_cell_status(answer.status.as_str()));
        }
        let (output, data) = match answer.cell {
            Some(CellInfo { output, data: Some(data) }) => (output, data),
            _ => {
                assert(false);
                return Err(invalid_cell_status(answer.status.as_str()));
            },
        };
        let key = make_out_point_key(out_point);
        proof {
            lemma_stored(
                self.cells(),
                self.capacity(),
                key@,
                CachedItemView::Cell(output@, data@),
            );
        }
        lru_put(&mut self.cell_cache, key, CachedItem::Cell(output.clone(), bytes_clone(&data)));
        Ok((output, data))
    }

    /// Looks the header up in the cache. A header that is found counts as
    /// used. With a capacity of zero nothing is ever found.
    pub fn get_header(&mut self, block_hash: &Byte32) -> (r: Option<ckb_types::core::HeaderView>)
        requires
            old(self).wf(),
        ensures
            final(self).wf(),
            final(self).same_but_headers(*old(self)),
            r == cached_header(old(self).headers(), *block_hash),
            r is Some <==> find_key(old(self).headers(), hash_key(*block_hash)) is Some,
            final(self).headers() == looked_up(old(self).headers(), hash_key(*block_hash)),
            forall|key: Seq<u8>|
                cached(final(self).headers(), key) == cached(old(self).headers(), key),
            old(self).capacity() == 0 ==> r is None,
    {
        let key = make_hash_key(block_hash);
        proof {
            lemma_find_key_range(self.headers(), key@);
            if find_key(self.headers(), key@) is Some {
                lemma_promoted(self.headers(), find_key(self.headers(), key@).unwrap());
            }
            assert forall|other: Seq<u8>|
                cached(looked_up(self.headers(), key@), other) == cached(self.headers(), other) by {
                lemma_lookup_keeps(self.headers(), key@, other);
            }
        }
        match lru_get(&mut self.header_cache, &key) {
            Some(CachedItem::Header(header)) => Some(header),
            _ => None,
        }
    }

    /// Takes the node's answer to the request for the header after
    /// `get_header` found none: a header is stored under the block hash and
    /// returned; a failure of the node and a block that the node does not
    /// know are errors, and change nothing.
    pub fn resolve_header(
        &mut self,
        block_hash: &Byte32,
        fetched: Result<Option<ckb_types::core::HeaderView>, String>,
    ) -> (r: Result<ckb_types::core::HeaderView, TransactionDependencyError>)
        requires
            old(self).wf(),
        ensures
            final(self).wf(),
            final(self).same_but_headers(*old(self)),
            match fetched {
                Err(text) => r matches Err(e) && e@ == TransactionDependencyErrorView::Other(text@)
                    && final(self).headers() == old(self).headers(),
                Ok(None) => r matches Err(e) && e@ == TransactionDependencyErrorView::NotFound(
                    header_kind_text(),
                ) && final(self).headers() == old(self).headers(),
                Ok(Some(header)) => r == Ok::<
                    ckb_types::core::HeaderView,
                    TransactionDependencyError,
                >(header) && final(self).headers() == stored(
                    old(self).headers(),
                    old(self).capacity(),
                    hash_key(*block_hash),
                    CachedItemView::Header(header),
                ) && cached_header(final(self).headers(), *block_hash) == if old(self).capacity()
                    == 0 {
                    None
                } else {
                    Some(header)
                },
            },
    {
        let header = match fetched {
            Ok(Some(header)) => header,
            Ok(None) => {
                return Err(header_not_found());
            },
            Err(text) => {
                return Err(TransactionDependencyError::Other(text));
            },
        };
        let key = make_hash_key(block_hash);
        proof {
            lemma_stored(self.headers(), self.capacity(), key@, CachedItemView::Header(header));
        }
        lru_put(&mut self.header_cache, key, CachedItem::Header(header.clone()));
        Ok(header)
    }
}

} // verus!
