//! A bounded cache of chain data with least-recently-used eviction, kept by
//! the `lru` crate.
//!
//! Verus does not look into the crate. What it knows of a cache is the
//! sequence of its entries from the most recently used to the least,
//! [`lru_entries`], and the limit it was made with, [`lru_limit`]; the three
//! wrappers below say what `new`, `get` and `put` do to them. That no key
//! occurs twice and that the limit is kept is proved from those statements in
//! the provider, not assumed here.

use vstd::prelude::*;
use crate::types::{bytes_clone, CellOutput, CellOutputView};

verus! {

/// `lru::LruCache`, of which Verus sees nothing but what the names and
/// wrappers below say.
#[verifier::external_type_specification]
#[verifier::external_body]
#[verifier::reject_recursive_types(K)]
#[verifier::reject_recursive_types(V)]
#[verifier::reject_recursive_types(S)]
pub struct ExLruCache<K, V, S>(lru::LruCache<K, V, S>);

/// `lru::DefaultHasher`, the hasher of a cache made with `LruCache::new`.
#[verifier::external_type_specification]
#[verifier::external_body]
pub struct ExDefaultHasher(lru::DefaultHasher);

/// `ckb_types::core::TransactionView`: a transaction with its hashes. The
/// library hands it on and never looks into it.
#[verifier::external_type_specification]
#[verifier::external_body]
pub struct ExTransactionView(ckb_types::core::TransactionView);

/// `ckb_types::core::HeaderView`: a block header with its hash. The library
/// hands it on and never looks into it.
#[verifier::external_type_specification]
#[verifier::external_body]
pub struct ExHeaderView(ckb_types::core::HeaderView);

/// `TransactionView::clone`, which the crate derives: the copy is the same
/// transaction.
pub assume_specification[ <ckb_types::core::TransactionView as Clone>::clone ](
    view: &ckb_types::core::TransactionView,
) -> (r: ckb_types::core::TransactionView)
    ensures
        r == *view,
;

/// `HeaderView::clone`, which the crate derives: the copy is the same header.
pub assume_specification[ <ckb_types::core::HeaderView as Clone>::clone ](
    view: &ckb_types::core::HeaderView,
) -> (r: ckb_types::core::HeaderView)
    ensures
        r == *view,
;

/// What a cache holds under a key: a committed transaction, a live cell with
/// its data, or a block header.
pub enum CachedItem {
    Transaction(ckb_types::core::TransactionView),
    Cell(CellOutput, Vec<u8>),
    Header(ckb_types::core::HeaderView),
}

pub enum CachedItemView {
    Transaction(ckb_types::core::TransactionView),
    Cell(CellOutputView, Seq<u8>),
    Header(ckb_types::core::HeaderView),
}

impl View for CachedItem {
    type V = CachedItemView;

    open spec fn view(&self) -> CachedItemView {
        match self {
            CachedItem::Transaction(tx) => CachedItemView::Transaction(*tx),
            CachedItem::Cell(output, data) => CachedItemView::Cell(output@, data@),
            CachedItem::Header(header) => CachedItemView::Header(*header),
        }
    }
}

impl Clone for CachedItem {
    fn clone(&self) -> (r: CachedItem)
        ensures
            r@ == self@,
    {
        match self {
            CachedItem::Transaction(tx) => CachedItem::Transaction(tx.clone()),
            CachedItem::Cell(output, data) => CachedItem::Cell(output.clone(), bytes_clone(data)),
            CachedItem::Header(header) => CachedItem::Header(header.clone()),
        }
    }
}

/// The entries of a cache: each a key with what is held under it.
pub type Entries = Seq<(Seq<u8>, CachedItemView)>;

/// The entries of the cache, from the most recently used to the least.
pub uninterp spec fn lru_entries(cache: lru::LruCache<Vec<u8>, CachedItem>) -> Seq<
    (Seq<u8>, CachedItemView),
>;

/// The number of entries that the cache was made to hold at most.
pub uninterp spec fn lru_limit(cache: lru::LruCache<Vec<u8>, CachedItem>) -> nat;

/// The place of an entry with this key, if there is one.
pub open spec fn find_key(entries: Entries, key: Seq<u8>) -> Option<int> {
    if exists|i: int| 0 <= i < entries.len() && entries[i].0 == key {
        Some(choose|i: int| 0 <= i < entries.len() && entries[i].0 == key)
    } else {
        None
    }
}

/// The entries after the entry at `at` was used: it moves to the front.
pub open spec fn promoted(entries: Entries, at: int) -> Entries {
    seq![entries[at]] + entries.remove(at)
}

/// The entries after `item` was put under `key` into a cache with this
/// limit. An entry with the key is replaced and moves to the front. Without
/// one, a cache with limit zero stays as it is; a full cache drops its least
/// recently used entry; and the new entry goes to the front.
pub open spec fn stored(entries: Entries, limit: nat, key: Seq<u8>, item: CachedItemView) -> Entries {
    match find_key(entries, key) {
        Some(at) => seq![(key, item)] + entries.remove(at),
        None => if limit == 0 {
            entries
        } else if entries.len() == limit {
            seq![(key, item)] + entries.drop_last()
        } else {
            seq![(key, item)] + entries
        },
    }
}

/// The largest limit that a cache is made with here.
pub const MAX_CACHE_CAPACITY: usize = 0x100_0000;

/// `LruCache::new`: an empty cache with the limit `cap`.
///
/// The crate makes its hash map with room for `cap` entries at once, and the
/// hash map panics where a table of that size cannot be laid out in the
/// address space. The bound on `cap` keeps clear of that on machines with
/// addresses of 32 bits and more.
#[verifier::external_body]
pub(crate) fn lru_new(cap: usize) -> (cache: lru::LruCache<Vec<u8>, CachedItem>)
    requires
        cap <= MAX_CACHE_CAPACITY,
    ensures
        lru_entries(cache) == Seq::<(Seq<u8>, CachedItemView)>::empty(),
        lru_limit(cache) == cap,
{
    lru::LruCache::new(cap)
}

/// `LruCache::get`, with the value found copied: gives what is held under
/// the key and moves that entry to the front; without such an entry gives
/// nothing and changes nothing.
#[verifier::external_body]
pub(crate) fn lru_get(cache: &mut lru::LruCache<Vec<u8>, CachedItem>, key: &Vec<u8>) -> (r: Option<
    CachedItem,
>)
    ensures
        lru_limit(*final(cache)) == lru_limit(*old(cache)),
        match find_key(lru_entries(*old(cache)), key@) {
            Some(at) => {
                &&& r matches Some(item)
                &&& item@ == lru_entries(*old(cache))[at].1
                &&& lru_entries(*final(cache)) == promoted(lru_entries(*old(cache)), at)
            },
            None => r is None && lru_entries(*final(cache)) == lru_entries(*old(cache)),
        },
{
    cache.get(key).cloned()
}

/// `LruCache::put`, with the value it replaces dropped: the entries
/// afterwards are those of [`stored`].
#[verifier::external_body]
pub(crate) fn lru_put(cache: &mut lru::LruCache<Vec<u8>, CachedItem>, key: Vec<u8>, item: CachedItem)
    ensures
        lru_limit(*final(cache)) == lru_limit(*old(cache)),
        lru_entries(*final(cache)) == stored(
            lru_entries(*old(cache)),
            lru_limit(*old(cache)),
            key@,
            item@,
        ),
{
    cache.put(key, item);
}

/// What is held under the key, if anything.
pub open spec fn cached(entries: Entries, key: Seq<u8>) -> Option<CachedItemView> {
    match find_key(entries, key) {
        Some(at) => Some(entries[at].1),
        None => None,
    }
}

/// No key occurs twice.
pub open spec fn distinct_keys(entries: Entries) -> bool {
    forall|i: int, j: int| 0 <= i < j < entries.len() ==> entries[i].0 != entries[j].0
}

/// The kinds of item that a cache can hold.
#[derive(Clone, Copy, Debug, PartialEq, Eq, Structural)]
pub enum ItemKind {
    Transaction,
    Cell,
    Header,
}

pub open spec fn kind_of(item: CachedItemView) -> ItemKind {
    match item {
        CachedItemView::Transaction(_) => ItemKind::Transaction,
        CachedItemView::Cell(_, _) => ItemKind::Cell,
        CachedItemView::Header(_) => ItemKind::Header,
    }
}

/// Every entry holds an item of this kind.
pub open spec fn all_of_kind(entries: Entries, kind: ItemKind) -> bool {
    forall|i: int| 0 <= i < entries.len() ==> kind_of(#[trigger] entries[i].1) == kind
}

/// Where no key occurs twice, a key is found at the one place that has it.
pub proof fn lemma_find_key(entries: Entries, key: Seq<u8>, at: int)
    requires
        distinct_keys(entries),
        0 <= at < entries.len(),
        entries[at].0 == key,
    ensures
        find_key(entries, key) == Some(at),
        cached(entries, key) == Some(entries[at].1),
{
    let found = choose|i: int| 0 <= i < entries.len() && entries[i].0 == key;
    assert(found == at);
}

pub proof fn lemma_find_key_range(entries: Entries, key: Seq<u8>)
    ensures
        find_key(entries, key) matches Some(at) ==> 0 <= at < entries.len() && entries[at].0
            == key,
        find_key(entries, key) is None ==> forall|i: int|
            0 <= i < entries.len() ==> entries[i].0 != key,
{
}

/// The place in `entries` of the entry that stands at `place` once the
/// entry at `at` has moved to the front.
pub open spec fn promoted_from(at: int, place: int) -> int {
    if place == 0 {
        at
    } else if place <= at {
        place - 1
    } else {
        place
    }
}

/// Using an entry changes the order of the entries and nothing else: the
/// keys stay distinct, and every key holds what it held.
pub proof fn lemma_promoted(entries: Entries, at: int)
    requires
        distinct_keys(entries),
        0 <= at < entries.len(),
    ensures
        promoted(entries, at).len() == entries.len(),
        promoted(entries, at)[0] == entries[at],
        distinct_keys(promoted(entries, at)),
        forall|key: Seq<u8>| cached(promoted(entries, at), key) == cached(entries, key),
        forall|kind: ItemKind|
            all_of_kind(entries, kind) ==> all_of_kind(promoted(entries, at), kind),
{
    let after = promoted(entries, at);
    assert forall|place: int| 0 <= place < after.len() implies after[place]
        == entries[promoted_from(at, place)] by {}
    assert forall|i: int, j: int| 0 <= i < j < after.len() implies after[i].0 != after[j].0 by {
        let a = promoted_from(at, i);
        let b = promoted_from(at, j);
        assert(after[i] == entries[a]);
        assert(after[j] == entries[b]);
        assert(a != b);
    }
    assert forall|key: Seq<u8>| cached(after, key) == cached(entries, key) by {
        lemma_find_key_range(entries, key);
        lemma_find_key_range(after, key);
        match find_key(entries, key) {
            Some(i) => {
                let place = if i == at {
                    0
                } else if i < at {
                    i + 1
                } else {
                    i
                };
                assert(after[place] == entries[promoted_from(at, place)]);
                lemma_find_key(after, key, place);
            },
            None => {
                if find_key(after, key) is Some {
                    let place = find_key(after, key).unwrap();
                    assert(after[place] == entries[promoted_from(at, place)]);
                }
            },
        }
    }
    assert forall|kind: ItemKind| all_of_kind(entries, kind) implies all_of_kind(after, kind) by {
        assert forall|place: int| 0 <= place < after.len() implies kind_of(
            #[trigger] after[place].1,
        ) == kind by {
            assert(after[place] == entries[promoted_from(at, place)]);
        }
    }
}

/// Putting an item into a cache keeps the keys distinct and the limit kept.
/// In a cache with room for at least one entry the item is then found under
/// its key, at the front; a cache with limit zero stays empty.
pub proof fn lemma_stored(entries: Entries, limit: nat, key: Seq<u8>, item: CachedItemView)
    requires
        distinct_keys(entries),
        entries.len() <= limit,
    ensures
        distinct_keys(stored(entries, limit, key, item)),
        stored(entries, limit, key, item).len() <= limit,
        limit >= 1 ==> find_key(stored(entries, limit, key, item), key) == Some(0int) && cached(
            stored(entries, limit, key, item),
            key,
        ) == Some(item),
        limit == 0 ==> stored(entries, limit, key, item) == entries,
        all_of_kind(entries, kind_of(item)) ==> all_of_kind(
            stored(entries, limit, key, item),
            kind_of(item),
        ),
{
    let after = stored(entries, limit, key, item);
    lemma_find_key_range(entries, key);
    match find_key(entries, key) {
        Some(at) => {
            assert forall|i: int, j: int| 0 <= i < j < after.len() implies after[i].0
                != after[j].0 by {
                let b = promoted_from(at, j);
                assert(after[j] == entries[b]);
                if i > 0 {
                    let a = promoted_from(at, i);
                    assert(after[i] == entries[a]);
                    assert(a != b);
                } else {
                    assert(b != at);
                }
            }
            lemma_find_key(after, key, 0);
            if all_of_kind(entries, kind_of(item)) {
                assert forall|place: int| 0 <= place < after.len() implies kind_of(
                    #[trigger] after[place].1,
                ) == kind_of(item) by {
                    if place > 0 {
                        assert(after[place] == entries[promoted_from(at, place)]);
                    }
                }
            }
        },
        None => {
            if limit > 0 {
                assert forall|place: int| 0 < place < after.len() implies after[place]
                    == entries[place - 1] by {}
                assert forall|i: int, j: int| 0 <= i < j < after.len() implies after[i].0
                    != after[j].0 by {
                    assert(after[j] == entries[j - 1]);
                    if i > 0 {
                        assert(after[i] == entries[i - 1]);
                    }
                }
                lemma_find_key(after, key, 0);
                if all_of_kind(entries, kind_of(item)) {
                    assert forall|place: int| 0 <= place < after.len() implies kind_of(
                        #[trigger] after[place].1,
                    ) == kind_of(item) by {
                        if place > 0 {
                            assert(after[place] == entries[place - 1]);
                        }
                    }
                }
            }
        },
    }
}

/// The entries after a lookup of the key: an entry that was found has moved
/// to the front.
pub open spec fn looked_up(entries: Entries, key: Seq<u8>) -> Entries {
    match find_key(entries, key) {
        Some(at) => promoted(entries, at),
        None => entries,
    }
}

/// No lookup, of whatever key, takes anything out of a cache: what is held
/// under a key is held under it after the lookup too. Repeated requests for
/// a key that is cached therefore never lead to a fetch.
pub proof fn lemma_lookup_keeps(entries: Entries, looked_for: Seq<u8>, key: Seq<u8>)
    requires
        distinct_keys(entries),
    ensures
        distinct_keys(looked_up(entries, looked_for)),
        looked_up(entries, looked_for).len() == entries.len(),
        cached(looked_up(entries, looked_for), key) == cached(entries, key),
{
    lemma_find_key_range(entries, looked_for);
    if find_key(entries, looked_for) is Some {
        lemma_promoted(entries, find_key(entries, looked_for).unwrap());
    }
}

} // verus!
