use vstd::prelude::*;
use crate::CounterError;

verus! {

/// A value held by a storage cell.
#[derive(Clone, Copy, Debug, PartialEq, Eq, Structural)]
pub enum StoredValue {
    Unit,
    I32(i32),
    U32(u32),
}

/// One step of the signed accumulator: adds one, wrapping at the top of
/// the range as the host's integer addition does.
pub open spec fn succ_i32(v: i32) -> i32 {
    if v == i32::MAX {
        i32::MIN
    } else {
        (v + 1) as i32
    }
}

/// What reading cell `u` as a signed integer gives.
pub open spec fn read_i32_spec(cells: Seq<Option<StoredValue>>, u: int) -> Result<i32, CounterError> {
    if u < 0 || u >= cells.len() {
        Err(CounterError::ValueAbsent)
    } else {
        match cells[u] {
            None => Err(CounterError::ValueAbsent),
            Some(StoredValue::I32(v)) => Ok(v),
            Some(_) => Err(CounterError::ReadFailure),
        }
    }
}

/// The arena of storage cells. A cell is reached only through the `Key::URef`
/// that allocated it.
#[derive(Clone, Debug)]
pub struct Storage {
    pub cells: Vec<Option<StoredValue>>,
}

impl Storage {
    pub fn new() -> (r: Storage)
        ensures
            r.cells@ == Seq::<Option<StoredValue>>::empty(),
    {
        Storage { cells: Vec::new() }
    }

    /// Allocates a fresh cell holding `v` and returns its index.
    pub fn new_uref(&mut self, v: StoredValue) -> (r: usize)
        ensures
            r == old(self).cells@.len(),
            final(self).cells@ == old(self).cells@.push(Some(v)),
    {
        let r = self.cells.len();
        self.cells.push(Some(v));
        r
    }

    /// Reads cell `u` as a signed integer.
    pub fn read_i32(&self, u: usize) -> (r: Result<i32, CounterError>)
        ensures
            r == read_i32_spec(self.cells@, u as int),
    {
        if u >= self.cells.len() {
            return Err(CounterError::ValueAbsent);
        }
        match self.cells[u] {
            None => Err(CounterError::ValueAbsent),
            Some(StoredValue::I32(v)) => Ok(v),
            Some(_) => Err(CounterError::ReadFailure),
        }
    }

    /// Adds one to the signed integer in cell `u`, as one indivisible step:
    /// either the cell is updated, or nothing changes and the error says why.
    pub fn increment_i32(&mut self, u: usize) -> (r: Result<(), CounterError>)
        ensures
            match read_i32_spec(old(self).cells@, u as int) {
                Ok(v) => r is Ok && final(self).cells@ == old(self).cells@.update(
                    u as int,
                    Some(StoredValue::I32(succ_i32(v))),
                ),
                Err(e) => r == Err::<(), CounterError>(e) && final(self).cells@ == old(self).cells@,
            },
    {
        match self.read_i32(u) {
            Err(e) => Err(e),
            Ok(v) => {
                let n: i32 = if v == i32::MAX {
                    i32::MIN
                } else {
                    v + 1
                };
                self.cells.set(u, Some(StoredValue::I32(n)));
                Ok(())
            },
        }
    }
}

} // verus!
