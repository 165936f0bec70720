//! The cell-dep resolver: which cell a transaction has to name as a
//! dependency in order to run a given script.

use vstd::prelude::*;
use crate::types::{byte32_eq, Byte32, OutPoint, HASH_TYPE_TYPE};

verus! {

/// Identifies a script's code: the code hash and how it is to be resolved.
#[derive(Clone, Copy, Debug, PartialEq, Eq)]
pub struct ScriptId {
    pub code_hash: Byte32,
    pub hash_type: u8,
}

impl ScriptId {
    pub fn new(code_hash: Byte32, hash_type: u8) -> (r: ScriptId)
        ensures
            r == (ScriptId { code_hash, hash_type }),
    {
        ScriptId { code_hash, hash_type }
    }

    /// An id whose code hash is the hash of a type script.
    pub fn new_type(code_hash: Byte32) -> (r: ScriptId)
        ensures
            r == (ScriptId { code_hash, hash_type: HASH_TYPE_TYPE }),
    {
        ScriptId { code_hash, hash_type: HASH_TYPE_TYPE }
    }

    pub fn same(&self, other: &ScriptId) -> (r: bool)
        ensures
            r == (*self == *other),
    {
        self.hash_type == other.hash_type && byte32_eq(&self.code_hash, &other.code_hash)
    }
}

/// How the cell of a dependency is to be read.
#[derive(Clone, Copy, Debug, PartialEq, Eq, Structural)]
pub enum DepType {
    Code,
    DepGroup,
}

/// A cell that a transaction depends on.
#[derive(Clone, Copy, Debug, PartialEq, Eq)]
pub struct CellDep {
    pub out_point: OutPoint,
    pub dep_type: DepType,
}

/// What the genesis block tells about the three system scripts.
#[derive(Clone, Copy, Debug)]
pub struct GenesisInfo {
    pub sighash_type_hash: Byte32,
    pub sighash_dep: CellDep,
    pub multisig_type_hash: Byte32,
    pub multisig_dep: CellDep,
    pub dao_type_hash: Byte32,
    pub dao_dep: CellDep,
}

pub open spec fn sighash_name() -> Seq<char> {
    "Secp256k1 blake160 sighash all"@
}

pub open spec fn multisig_name() -> Seq<char> {
    "Secp256k1 blake160 multisig all"@
}

pub open spec fn dao_name() -> Seq<char> {
    "Nervos DAO"@
}

/// One registration: the script, its cell dep and a name for people.
pub type Registration = (ScriptId, (CellDep, String));

/// The cell dep and the name of a registration.
pub open spec fn registered(entry: Registration) -> (CellDep, Seq<char>) {
    (entry.1.0, entry.1.1@)
}

/// The table that a list of registrations stands for: a later registration
/// of a script replaces an earlier one.
pub open spec fn items_of(entries: Seq<Registration>) -> Map<ScriptId, (CellDep, Seq<char>)>
    decreases entries.len(),
{
    if entries.len() == 0 {
        Map::empty()
    } else {
        items_of(entries.drop_last()).insert(entries.last().0, registered(entries.last()))
    }
}

/// No script is registered twice.
pub open spec fn distinct_scripts(entries: Seq<Registration>) -> bool {
    forall|i: int, j: int| 0 <= i < j < entries.len() ==> entries[i].0 != entries[j].0
}

pub proof fn lemma_items_of(entries: Seq<Registration>)
    requires
        distinct_scripts(entries),
    ensures
        forall|i: int|
            0 <= i < entries.len() ==> items_of(entries).contains_key(#[trigger] entries[i].0)
                && items_of(entries)[entries[i].0] == registered(entries[i]),
        forall|id: ScriptId|
            items_of(entries).contains_key(id) ==> exists|i: int|
                0 <= i < entries.len() && entries[i].0 == id,
    decreases entries.len(),
{
    if entries.len() > 0 {
        let shorter = entries.drop_last();
        lemma_items_of(shorter);
        assert forall|i: int| 0 <= i < entries.len() implies items_of(entries).contains_key(
            #[trigger] entries[i].0,
        ) && items_of(entries)[entries[i].0] == registered(entries[i]) by {
            if i < shorter.len() {
                assert(shorter[i] == entries[i]);
            }
        }
        assert forall|id: ScriptId| items_of(entries).contains_key(id) implies exists|i: int|
            0 <= i < entries.len() && entries[i].0 == id by {
            if id == entries.last().0 {
                assert(entries[entries.len() - 1].0 == id);
            } else {
                assert(items_of(shorter).contains_key(id));
                let i = choose|i: int| 0 <= i < shorter.len() && shorter[i].0 == id;
                assert(shorter[i] == entries[i]);
                assert(entries[i].0 == id);
            }
        }
    }
}

pub proof fn lemma_items_without(entries: Seq<Registration>, at: int)
    requires
        distinct_scripts(entries),
        0 <= at < entries.len(),
    ensures
        distinct_scripts(entries.remove(at)),
        items_of(entries.remove(at)) == items_of(entries).remove(entries[at].0),
{
    let fewer = entries.remove(at);
    assert forall|i: int, j: int| 0 <= i < j < fewer.len() implies fewer[i].0 != fewer[j].0 by {
        let a = if i < at {
            i
        } else {
            i + 1
        };
        let b = if j < at {
            j
        } else {
            j + 1
        };
        assert(fewer[i] == entries[a] && fewer[j] == entries[b]);
    }
    lemma_items_of(entries);
    lemma_items_of(fewer);
    let left = items_of(fewer);
    let right = items_of(entries).remove(entries[at].0);
    assert forall|id: ScriptId| left.contains_key(id) <==> right.contains_key(id) by {
        if left.contains_key(id) {
            let i = choose|i: int| 0 <= i < fewer.len() && fewer[i].0 == id;
            let a = if i < at {
                i
            } else {
                i + 1
            };
            assert(fewer[i] == entries[a]);
            assert(items_of(entries).contains_key(entries[a].0));
        }
        if right.contains_key(id) {
            let a = choose|a: int| 0 <= a < entries.len() && entries[a].0 == id;
            let i = if a < at {
                a
            } else {
                a - 1
            };
            assert(fewer[i] == entries[a]);
            assert(left.contains_key(fewer[i].0));
        }
    }
    assert forall|id: ScriptId| left.contains_key(id) implies left[id] == right[id] by {
        let i = choose|i: int| 0 <= i < fewer.len() && fewer[i].0 == id;
        let a = if i < at {
            i
        } else {
            i + 1
        };
        assert(fewer[i] == entries[a]);
        assert(left[fewer[i].0] == registered(fewer[i]));
        assert(items_of(entries)[entries[a].0] == registered(entries[a]));
    }
    assert(left =~= right);
}

/// A table from scripts to the cell deps that carry their code. It starts
/// with the three system scripts of the genesis block and takes further
/// registrations.
pub struct DefaultCellDepResolver {
    items: Vec<Registration>,
}

/// Two lists with the same scripts, cell deps and names, place by place,
/// stand for the same table.
pub proof fn lemma_items_of_copy(entries: Seq<Registration>, copy: Seq<Registration>)
    requires
        copy.len() == entries.len(),
        forall|i: int|
            0 <= i < entries.len() ==> copy[i].0 == entries[i].0 && registered(copy[i])
                == registered(entries[i]),
    ensures
        items_of(copy) == items_of(entries),
        distinct_scripts(entries) ==> distinct_scripts(copy),
    decreases entries.len(),
{
    if entries.len() > 0 {
        lemma_items_of_copy(entries.drop_last(), copy.drop_last());
    }
}

impl Default for DefaultCellDepResolver {
    /// A table with no registration.
    fn default() -> (r: DefaultCellDepResolver)
        ensures
            r.wf(),
            r.items() == Map::<ScriptId, (CellDep, Seq<char>)>::empty(),
    {
        DefaultCellDepResolver { items: Vec::new() }
    }
}

impl Clone for DefaultCellDepResolver {
    fn clone(&self) -> (r: DefaultCellDepResolver)
        ensures
            r.items() == self.items(),
            self.wf() ==> r.wf(),
    {
        let mut items: Vec<Registration> = Vec::new();
        let n: usize = self.items.len();
        let mut i: usize = 0;
        while i < n
            invariant
                i <= n,
                n == self.items@.len(),
                items@.len() == i,
                forall|j: int|
                    0 <= j < i ==> items@[j].0 == self.items@[j].0 && registered(items@[j])
                        == registered(self.items@[j]),
            decreases n - i,
        {
            let entry = &self.items[i];
            items.push((entry.0, (entry.1.0, entry.1.1.clone())));
            i += 1;
        }
        proof {
            lemma_items_of_copy(self.items@, items@);
        }
        DefaultCellDepResolver { items }
    }
}

impl DefaultCellDepResolver {
    /// The table.
    pub closed spec fn items(&self) -> Map<ScriptId, (CellDep, Seq<char>)> {
        items_of(self.items@)
    }

    /// No script is kept twice.
    pub closed spec fn wf(&self) -> bool {
        distinct_scripts(self.items@)
    }

    /// Where the script is kept, if it is registered.
    fn position(&self, script_id: &ScriptId) -> (r: Option<usize>)
        requires
            self.wf(),
        ensures
            match r {
                Some(at) => at < self.items@.len() && self.items@[at as int].0 == *script_id
                    && self.items().contains_key(*script_id),
                None => !self.items().contains_key(*script_id),
            },
    {
        let n: usize = self.items.len();
        let mut i: usize = 0;
        while i < n
            invariant
                i <= n,
                n == self.items@.len(),
                self.wf(),
                forall|j: int| 0 <= j < i ==> self.items@[j].0 != *script_id,
            decreases n - i,
        {
            if self.items[i].0.same(script_id) {
                proof {
                    lemma_items_of(self.items@);
                }
                return Some(i);
            }
            i += 1;
        }
        proof {
            lemma_items_of(self.items@);
        }
        None
    }

    /// The table of the three system scripts: each is registered under the
    /// hash of its type script, with its cell dep and its name. Where two of
    /// the hashes agree the later of sighash, multisig and DAO stands.
    pub fn new(info: &GenesisInfo) -> (r: DefaultCellDepResolver)
        ensures
            r.wf(),
            r.items() == Map::<ScriptId, (CellDep, Seq<char>)>::empty().insert(
                ScriptId { code_hash: info.sighash_type_hash, hash_type: HASH_TYPE_TYPE },
                (info.sighash_dep, sighash_name()),
            ).insert(
                ScriptId { code_hash: info.multisig_type_hash, hash_type: HASH_TYPE_TYPE },
                (info.multisig_dep, multisig_name()),
            ).insert(
                ScriptId { code_hash: info.dao_type_hash, hash_type: HASH_TYPE_TYPE },
                (info.dao_dep, dao_name()),
            ),
    {
        let mut r = DefaultCellDepResolver { items: Vec::new() };
        r.insert(
            ScriptId::new_type(info.sighash_type_hash),
            info.sighash_dep,
            "Secp256k1 blake160 sighash all".to_owned(),
        );
        r.insert(
            ScriptId::new_type(info.multisig_type_hash),
            info.multisig_dep,
            "Secp256k1 blake160 multisig all".to_owned(),
        );
        r.insert(ScriptId::new_type(info.dao_type_hash), info.dao_dep, "Nervos DAO".to_owned());
        r
    }

    /// Registers the script with this cell dep and name, and gives what was
    /// registered for it before.
    pub fn insert(&mut self, script_id: ScriptId, cell_dep: CellDep, name: String) -> (r: Option<
        (CellDep, String),
    >)
        requires
            old(self).wf(),
        ensures
            final(self).wf(),
            final(self).items() == old(self).items().insert(script_id, (cell_dep, name@)),
            match r {
                Some(before) => old(self).items().contains_key(script_id) && old(
                    self,
                ).items()[script_id] == (before.0, before.1@),
                None => !old(self).items().contains_key(script_id),
            },
    {
        let before = self.remove(&script_id);
        proof {
            lemma_items_of(self.items@);
            let longer = self.items@.push((script_id, (cell_dep, name)));
            assert(longer.drop_last() =~= self.items@);
            assert forall|i: int, j: int| 0 <= i < j < longer.len() implies longer[i].0
                != longer[j].0 by {
                if j == longer.len() - 1 {
                    assert(self.items().contains_key(self.items@[i].0));
                }
            }
            assert(old(self).items().remove(script_id).insert(script_id, (cell_dep, name@))
                =~= old(self).items().insert(script_id, (cell_dep, name@)));
        }
        self.items.push((script_id, (cell_dep, name)));
        before
    }

    /// Takes the script out of the table, and gives what was registered for
    /// it.
    pub fn remove(&mut self, script_id: &ScriptId) -> (r: Option<(CellDep, String)>)
        requires
            old(self).wf(),
        ensures
            final(self).wf(),
            final(self).items() == old(self).items().remove(*script_id),
            match r {
                Some(before) => old(self).items().contains_key(*script_id) && old(
                    self,
                ).items()[*script_id] == (before.0, before.1@),
                None => !old(self).items().contains_key(*script_id),
            },
    {
        match self.position(script_id) {
            Some(at) => {
                proof {
                    lemma_items_of(self.items@);
                    lemma_items_without(self.items@, at as int);
                }
                let entry = self.items.remove(at);
                Some(entry.1)
            },
            None => {
                assert(self.items().remove(*script_id) =~= self.items());
                None
            },
        }
    }

    /// Whether the script is registered.
    pub fn contains(&self, script_id: &ScriptId) -> (r: bool)
        requires
            self.wf(),
        ensures
            r == self.items().contains_key(*script_id),
    {
        self.position(script_id).is_some()
    }

    /// What is registered for the script.
    pub fn get(&self, script_id: &ScriptId) -> (r: Option<&(CellDep, String)>)
        requires
            self.wf(),
        ensures
            match r {
                Some(entry) => self.items().contains_key(*script_id) && self.items()[*script_id]
                    == (entry.0, entry.1@),
                None => !self.items().contains_key(*script_id),
            },
    {
        match self.position(script_id) {
            Some(at) => {
                proof {
                    lemma_items_of(self.items@);
                }
                Some(&self.items[at].1)
            },
            None => None,
        }
    }

    /// The cell dep that is registered for the script.
    pub fn resolve(&self, script_id: &ScriptId) -> (r: Option<CellDep>)
        requires
            self.wf(),
        ensures
            match r {
                Some(cell_dep) => self.items().contains_key(*script_id)
                    && self.items()[*script_id].0 == cell_dep,
                None => !self.items().contains_key(*script_id),
            },
    {
        match self.get(script_id) {
            Some(entry) => Some(entry.0),
            None => None,
        }
    }
}

} // verus!
