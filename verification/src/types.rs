//! Plain chain data shared by the sync check, the collector, the dependency
//! cache and the cell-dep resolver.
//!
//! Every type that owns heap data has a view with the same fields over `Seq`,
//! and the contracts of the crate are stated over those views.

use vstd::prelude::*;

verus! {

/// A 32-byte hash: of a transaction, a block, or a script's code.
pub type Byte32 = [u8; 32];

/// Compares two hashes byte by byte.
pub fn byte32_eq(a: &Byte32, b: &Byte32) -> (r: bool)
    ensures
        r == (*a == *b),
{
    let mut i: usize = 0;
    while i < 32
        invariant
            i <= 32,
            forall|j: int| 0 <= j < i ==> a@[j] == b@[j],
        decreases 32 - i,
    {
        if a[i] != b[i] {
            return false;
        }
        i += 1;
    }
    assert(*a =~= *b);
    true
}

/// Compares two byte strings.
pub fn bytes_eq(a: &Vec<u8>, b: &Vec<u8>) -> (r: bool)
    ensures
        r == (a@ == b@),
{
    if a.len() != b.len() {
        return false;
    }
    let n: usize = a.len();
    let mut i: usize = 0;
    while i < n
        invariant
            i <= n,
            n == a@.len(),
            n == b@.len(),
            forall|j: int| 0 <= j < i ==> a@[j] == b@[j],
        decreases n - i,
    {
        if a[i] != b[i] {
            return false;
        }
        i += 1;
    }
    assert(a@ =~= b@);
    true
}

/// Copies a byte string.
pub fn bytes_clone(a: &Vec<u8>) -> (r: Vec<u8>)
    ensures
        r@ == a@,
{
    let mut r: Vec<u8> = Vec::new();
    let n: usize = a.len();
    let mut i: usize = 0;
    while i < n
        invariant
            i <= n,
            n == a@.len(),
            r@ == a@.take(i as int),
        decreases n - i,
    {
        r.push(a[i]);
        assert(a@.take(i as int).push(a@[i as int]) =~= a@.take(i + 1));
        i += 1;
    }
    assert(a@.take(n as int) =~= a@);
    r
}

/// Identifies a cell: the hash of the transaction that created it and the
/// position of the cell among that transaction's outputs.
#[derive(Clone, Copy, Debug, PartialEq, Eq)]
pub struct OutPoint {
    pub tx_hash: Byte32,
    pub index: u32,
}

impl OutPoint {
    pub fn new(tx_hash: Byte32, index: u32) -> (r: OutPoint)
        ensures
            r == (OutPoint { tx_hash, index }),
    {
        OutPoint { tx_hash, index }
    }

    /// Whether both name the same cell.
    pub fn same(&self, other: &OutPoint) -> (r: bool)
        ensures
            r == (*self == *other),
    {
        self.index == other.index && byte32_eq(&self.tx_hash, &other.tx_hash)
    }
}

/// Hash type "data" as the byte that stands in a script: the code hash is
/// the hash of the data of the cell that holds the code.
pub const HASH_TYPE_DATA: u8 = 0;

/// Hash type "type": the code hash is the hash of the type script of the
/// cell that holds the code.
pub const HASH_TYPE_TYPE: u8 = 1;

/// Hash type "data1": as "data", for the second version of the machine
/// that runs the code.
pub const HASH_TYPE_DATA1: u8 = 2;

/// Hash type "data2": as "data", for the third version of the machine that
/// runs the code.
pub const HASH_TYPE_DATA2: u8 = 4;

/// A lock or type script. `hash_type` is the byte that says how `code_hash`
/// is to be resolved.
#[derive(Debug, PartialEq, Eq)]
pub struct Script {
    pub code_hash: Byte32,
    pub hash_type: u8,
    pub args: Vec<u8>,
}

pub struct ScriptView {
    pub code_hash: Byte32,
    pub hash_type: u8,
    pub args: Seq<u8>,
}

impl View for Script {
    type V = ScriptView;

    open spec fn view(&self) -> ScriptView {
        ScriptView { code_hash: self.code_hash, hash_type: self.hash_type, args: self.args@ }
    }
}

impl Clone for Script {
    fn clone(&self) -> (r: Script)
        ensures
            r@ == self@,
    {
        Script { code_hash: self.code_hash, hash_type: self.hash_type, args: bytes_clone(&self.args) }
    }
}

impl Script {
    /// Whether both scripts have the same code hash, hash type and arguments.
    pub fn same(&self, other: &Script) -> (r: bool)
        ensures
            r == (self@ == other@),
    {
        self.hash_type == other.hash_type && byte32_eq(&self.code_hash, &other.code_hash)
            && bytes_eq(&self.args, &other.args)
    }
}

/// The view of an optional script.
pub open spec fn script_opt_view(s: Option<Script>) -> Option<ScriptView> {
    match s {
        Some(script) => Some(script@),
        None => None,
    }
}

/// What a cell holds besides its data: its capacity in shannons, the lock
/// script that owns it and an optional type script.
#[derive(Debug, PartialEq, Eq)]
pub struct CellOutput {
    pub capacity: u64,
    pub lock: Script,
    pub type_: Option<Script>,
}

pub struct CellOutputView {
    pub capacity: u64,
    pub lock: ScriptView,
    pub type_: Option<ScriptView>,
}

impl View for CellOutput {
    type V = CellOutputView;

    open spec fn view(&self) -> CellOutputView {
        CellOutputView {
            capacity: self.capacity,
            lock: self.lock@,
            type_: script_opt_view(self.type_),
        }
    }
}

impl Clone for CellOutput {
    fn clone(&self) -> (r: CellOutput)
        ensures
            r@ == self@,
    {
        let type_ = match &self.type_ {
            Some(script) => Some(script.clone()),
            None => None,
        };
        CellOutput { capacity: self.capacity, lock: self.lock.clone(), type_ }
    }
}

/// An unspent cell as the collector sees it. `block_number == 0` marks a cell
/// that a transaction built here has created and no block has confirmed yet.
#[derive(Debug, PartialEq, Eq)]
pub struct LiveCell {
    pub output: CellOutput,
    pub output_data: Vec<u8>,
    pub out_point: OutPoint,
    pub block_number: u64,
    pub tx_index: u32,
}

pub struct LiveCellView {
    pub output: CellOutputView,
    pub output_data: Seq<u8>,
    pub out_point: OutPoint,
    pub block_number: u64,
    pub tx_index: u32,
}

impl View for LiveCell {
    type V = LiveCellView;

    open spec fn view(&self) -> LiveCellView {
        LiveCellView {
            output: self.output@,
            output_data: self.output_data@,
            out_point: self.out_point,
            block_number: self.block_number,
            tx_index: self.tx_index,
        }
    }
}

impl Clone for LiveCell {
    fn clone(&self) -> (r: LiveCell)
        ensures
            r@ == self@,
    {
        LiveCell {
            output: self.output.clone(),
            output_data: bytes_clone(&self.output_data),
            out_point: self.out_point,
            block_number: self.block_number,
            tx_index: self.tx_index,
        }
    }
}

/// The views of a sequence of cells, in the same order.
pub open spec fn cells_view(cells: Seq<LiveCell>) -> Seq<LiveCellView> {
    Seq::new(cells.len(), |i: int| cells[i]@)
}

/// One output of a transaction together with its data.
#[derive(Debug)]
pub struct TransactionOutput {
    pub output: CellOutput,
    pub data: Vec<u8>,
}

/// What the collector reads of a transaction that was built here: its hash,
/// the cells it spends and the cells it creates, in the transaction's order.
#[derive(Debug)]
pub struct Transaction {
    pub hash: Byte32,
    pub inputs: Vec<OutPoint>,
    pub outputs: Vec<TransactionOutput>,
}

/// One page of a cell search at the index service, and the cursor to
/// continue after it.
#[derive(Debug)]
pub struct CellPage {
    pub objects: Vec<LiveCell>,
    pub last_cursor: Vec<u8>,
}

/// The view of an optional byte string.
pub open spec fn bytes_opt_view(bytes: Option<Vec<u8>>) -> Option<Seq<u8>> {
    match bytes {
        Some(b) => Some(b@),
        None => None,
    }
}

/// The chain tip as one service reports it.
#[derive(Clone, Copy, Debug, PartialEq, Eq)]
pub struct Tip {
    pub block_hash: Byte32,
    pub block_number: u64,
}

} // verus!
