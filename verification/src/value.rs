//! The runtime value representation and the constant pool.

use vstd::prelude::*;

verus! {

/// A runtime value: the bit pattern of a 64-bit IEEE-754 number.
///
/// The library never computes on the encoded number itself — the rules of
/// this crate keep floating-point arithmetic out of verified code. Callers
/// decode the bits (`f64::from_bits`), perform the arithmetic, and hand the
/// encoded result (`f64::to_bits`) back; see `vm::VM::step`.
pub type Value = u64;

/// An ordered, append-only sequence of values, indexed from zero. An index
/// is stable once assigned: values are never removed one by one, only
/// discarded all at once by `free`.
pub struct ValueArray {
    values: Vec<Value>,
}

impl View for ValueArray {
    type V = Seq<Value>;

    closed spec fn view(&self) -> Seq<Value> {
        self.values@
    }
}

impl ValueArray {
    /// An empty array.
    pub fn new() -> (a: ValueArray)
        ensures
            a@ == Seq::<Value>::empty(),
    {
        ValueArray { values: Vec::new() }
    }

    /// Appends `value` and returns the index it was stored at.
    pub fn write(&mut self, value: Value) -> (index: usize)
        ensures
            final(self)@ == old(self)@.push(value),
            index == old(self)@.len(),
    {
        let count = self.values.len();
        self.values.push(value);
        count
    }

    /// Bounds-checked access to the value stored at `index`.
    pub fn read(&self, index: usize) -> (v: Value)
        requires
            index < self@.len(),
        ensures
            v == self@[index as int],
    {
        self.values[index]
    }

    /// How many values are stored.
    pub fn count(&self) -> (n: usize)
        ensures
            n == self@.len(),
    {
        self.values.len()
    }

    /// Discards every stored value.
    pub fn free(&mut self)
        ensures
            final(self)@ == Seq::<Value>::empty(),
    {
        self.values = Vec::new();
    }
}

} // verus!
