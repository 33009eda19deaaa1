use vstd::prelude::*;
use crate::error::GraphError;
use crate::record::{RecordValue, VarKindImpl};

verus! {

/// The identity of a variable record within one arena. Identities are handed
/// out from 0 upwards; a negative one names no record.
pub type VarId = i32;

/// The most records one arena can hold: every identity fits a `VarId`.
pub const MAX_RECORDS: usize = 0x7fff_ffff;

/// The storage of the variable records of one session, and their only owner.
/// Records are appended and never removed or moved, so an identity, once
/// handed out, resolves to the same record for as long as the arena lives.
pub struct Arena {
    records: Vec<VarKindImpl>,
}

impl View for Arena {
    type V = Seq<RecordValue>;

    closed spec fn view(&self) -> Seq<RecordValue> {
        Seq::new(self.records@.len(), |i: int| self.records@[i]@)
    }
}

/// Whether `id` names a record among `count` of them.
pub open spec fn in_range(id: VarId, count: nat) -> bool {
    0 <= id && (id as nat) < count
}

impl Arena {
    /// An arena without records.
    pub fn new() -> (a: Arena)
        ensures
            a@ == Seq::<RecordValue>::empty(),
    {
        let a = Arena { records: Vec::new() };
        a
    }

    /// The number of records, which is also the next identity.
    pub fn len(&self) -> (n: usize)
        ensures
            n == self@.len(),
    {
        self.records.len()
    }

    /// Whether `id` names a record of this arena.
    pub fn contains(&self, id: VarId) -> (b: bool)
        ensures
            b == in_range(id, self@.len()),
    {
        id >= 0 && (id as usize) < self.records.len()
    }

    /// Appends `record` and gives its identity, the number of records so
    /// far. Fails with `OutOfRangeIdentity`, and changes nothing, exactly when
    /// the arena already holds `MAX_RECORDS` records or more.
    pub fn allocate(&mut self, record: VarKindImpl) -> (r: Result<VarId, GraphError>)
        ensures
            old(self)@.len() < MAX_RECORDS ==> r == Ok::<VarId, GraphError>(
                old(self)@.len() as VarId,
            ) && final(self)@ == old(self)@.push(record@),
            old(self)@.len() >= MAX_RECORDS ==> r == Err::<VarId, GraphError>(
                GraphError::OutOfRangeIdentity,
            ) && final(self)@ == old(self)@,
    {
        let n: usize = self.records.len();
        if n >= MAX_RECORDS {
            return Err(GraphError::OutOfRangeIdentity);
        }
        self.records.push(record);
        Ok(n as VarId)
    }

    /// The record that `id` names; `OutOfRangeIdentity` exactly when it names
    /// none.
    pub fn get(&self, id: VarId) -> (r: Result<&VarKindImpl, GraphError>)
        ensures
            in_range(id, self@.len()) ==> r is Ok && r->Ok_0@ == self@[id as int],
            !in_range(id, self@.len()) ==> r == Err::<&VarKindImpl, GraphError>(
                GraphError::OutOfRangeIdentity,
            ),
    {
        if id >= 0 && (id as usize) < self.records.len() {
            Ok(&self.records[id as usize])
        } else {
            Err(GraphError::OutOfRangeIdentity)
        }
    }

    /// The record at position `index`, for changing it, if there is one.
    pub(crate) fn at_mut(&mut self, index: usize) -> (r: Option<&mut VarKindImpl>)
        ensures
            index < old(self)@.len() ==> r is Some && (*r->Some_0)@ == old(self)@[index as int]
                && final(self)@ == old(self)@.update(index as int, (*final(r->Some_0))@),
            index >= old(self)@.len() ==> r is None && final(self)@ == old(self)@,
    {
        if index < self.records.len() {
            Some(&mut self.records[index])
        } else {
            None
        }
    }

    /// The record that `id` names, for changing it: whatever the caller
    /// leaves there is the arena's record at `id` afterwards, and no other
    /// record changes. `OutOfRangeIdentity` exactly when `id` names none.
    pub fn get_mut(&mut self, id: VarId) -> (r: Result<&mut VarKindImpl, GraphError>)
        ensures
            in_range(id, old(self)@.len()) ==> r is Ok && (*r->Ok_0)@ == old(self)@[id as int]
                && final(self)@ == old(self)@.update(id as int, (*final(r->Ok_0))@),
            !in_range(id, old(self)@.len()) ==> r is Err && r->Err_0
                == GraphError::OutOfRangeIdentity && final(self)@ == old(self)@,
    {
        if id >= 0 && (id as usize) < self.records.len() {
            Ok(&mut self.records[id as usize])
        } else {
            Err(GraphError::OutOfRangeIdentity)
        }
    }
}

/// A table of variable records that handles resolve their identities in:
/// records can be read, changed in place and appended, and nothing else, so
/// an identity, once handed out, keeps naming a record.
pub trait VarTable {
    /// What the table holds besides the records.
    type Frame;

    /// The records by identity.
    spec fn records(&self) -> Seq<RecordValue>;

    /// What the table holds besides the records; reading, changing and
    /// appending records leaves it alone.
    spec fn frame(&self) -> Self::Frame;

    /// The record that `id` names; `OutOfRangeIdentity` exactly when it names
    /// none.
    fn get(&self, id: VarId) -> (r: Result<&VarKindImpl, GraphError>)
        ensures
            in_range(id, self.records().len()) ==> r is Ok && r->Ok_0@ == self.records()[id as int],
            !in_range(id, self.records().len()) ==> r == Err::<&VarKindImpl, GraphError>(
                GraphError::OutOfRangeIdentity,
            ),
    ;

    /// The record that `id` names, for changing it: whatever the caller
    /// leaves there is the record at `id` afterwards, and no other record
    /// changes. `OutOfRangeIdentity` exactly when `id` names none.
    fn get_mut(&mut self, id: VarId) -> (r: Result<&mut VarKindImpl, GraphError>)
        ensures
            in_range(id, old(self).records().len()) ==> r is Ok && (*r->Ok_0)@ == old(
                self,
            ).records()[id as int] && final(self).records() == old(self).records().update(
                id as int,
                (*final(r->Ok_0))@,
            ),
            !in_range(id, old(self).records().len()) ==> r is Err && r->Err_0
                == GraphError::OutOfRangeIdentity && final(self).records() == old(self).records(),
            final(self).frame() == old(self).frame(),
    ;

    /// Appends `record` and gives its identity, the number of records so
    /// far. Fails with `OutOfRangeIdentity`, and changes nothing, exactly when
    /// the table already holds `MAX_RECORDS` records or more.
    fn allocate(&mut self, record: VarKindImpl) -> (r: Result<VarId, GraphError>)
        ensures
            old(self).records().len() < MAX_RECORDS ==> r == Ok::<VarId, GraphError>(
                old(self).records().len() as VarId,
            ) && final(self).records() == old(self).records().push(record@),
            old(self).records().len() >= MAX_RECORDS ==> r == Err::<VarId, GraphError>(
                GraphError::OutOfRangeIdentity,
            ) && final(self).records() == old(self).records(),
            final(self).frame() == old(self).frame(),
    ;
}

impl VarTable for Arena {
    type Frame = ();

    open spec fn records(&self) -> Seq<RecordValue> {
        self@
    }

    open spec fn frame(&self) -> () {
        ()
    }

    fn get(&self, id: VarId) -> (r: Result<&VarKindImpl, GraphError>) {
        Arena::get(self, id)
    }

    fn get_mut(&mut self, id: VarId) -> (r: Result<&mut VarKindImpl, GraphError>) {
        Arena::get_mut(self, id)
    }

    fn allocate(&mut self, record: VarKindImpl) -> (r: Result<VarId, GraphError>) {
        Arena::allocate(self, record)
    }
}

} // verus!
