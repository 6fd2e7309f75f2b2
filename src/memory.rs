use vstd::prelude::*;
use crate::ir::Dtype;
use crate::value::Value;

verus! {

/// The zero value of a dtype: zero integers and floats, the null pointer, unit.
pub open spec fn default_value(dtype: Dtype) -> Value {
    match dtype {
        Dtype::Unit => Value::Unit,
        Dtype::Int { width, is_signed } => Value::Int { value: 0, width, is_signed },
        Dtype::Float { width } => Value::Float { value: 0, width },
        _ => Value::Pointer { bid: None, offset: 0 },
    }
}

/// The contents of a fresh block for a dtype: one zero slot, or none for a function.
pub open spec fn fresh_block(dtype: Dtype) -> Seq<Value> {
    if dtype is Function {
        Seq::empty()
    } else {
        seq![default_value(dtype)]
    }
}

impl Value {
    /// The zero-initialized value of a dtype. Function types have none.
    pub fn default_from_dtype(dtype: &Dtype) -> (r: Value)
        requires
            !(*dtype is Function),
        ensures
            r == default_value(*dtype),
    {
        match dtype {
            Dtype::Unit => Value::unit(),
            Dtype::Int { width, is_signed } => Value::integer(0, *width, *is_signed),
            Dtype::Float { width } => Value::float(0, *width),
            _ => Value::nullptr(),
        }
    }
}

/// Memory as a growing list of blocks, each a sequence of slots of one value.
#[derive(Debug, PartialEq)]
pub struct Memory {
    inner: Vec<Vec<Value>>,
}

impl View for Memory {
    type V = Seq<Seq<Value>>;

    closed spec fn view(&self) -> Seq<Seq<Value>> {
        Seq::new(self.inner@.len(), |i: int| self.inner@[i]@)
    }
}

impl Memory {
    /// Whether `(bid, offset)` names an existing slot.
    pub open spec fn in_bounds(&self, bid: usize, offset: usize) -> bool {
        bid < self@.len() && offset < self@[bid as int].len()
    }

    pub fn new() -> (r: Memory)
        ensures
            r@ == Seq::<Seq<Value>>::empty(),
    {
        let r = Memory { inner: Vec::new() };
        assert(r@ =~= Seq::<Seq<Value>>::empty());
        r
    }

    pub fn len(&self) -> (r: usize)
        ensures
            r == self@.len(),
    {
        self.inner.len()
    }

    /// Appends a fresh block for `dtype` and returns its id.
    pub fn allocate(&mut self, dtype: &Dtype) -> (r: usize)
        requires
            old(self)@.len() < usize::MAX,
        ensures
            r == old(self)@.len(),
            final(self)@ == old(self)@.push(fresh_block(*dtype)),
    {
        let block = if dtype.is_function() {
            Vec::new()
        } else {
            vec![Value::default_from_dtype(dtype)]
        };
        proof {
            assert(block@ =~= fresh_block(*dtype));
        }
        self.inner.push(block);
        assert(self@ =~= old(self)@.push(fresh_block(*dtype)));
        self.inner.len() - 1
    }

    /// Appends an empty block, which gives a function an id but no storage.
    pub fn allocate_function(&mut self) -> (r: usize)
        requires
            old(self)@.len() < usize::MAX,
        ensures
            r == old(self)@.len(),
            final(self)@ == old(self)@.push(Seq::<Value>::empty()),
    {
        self.inner.push(Vec::new());
        assert(self@ =~= old(self)@.push(Seq::<Value>::empty()));
        self.inner.len() - 1
    }

    pub fn block_len(&self, bid: usize) -> (r: usize)
        requires
            bid < self@.len(),
        ensures
            r == self@[bid as int].len(),
    {
        self.inner[bid].len()
    }

    pub fn load(&self, bid: usize, offset: usize) -> (r: Value)
        requires
            self.in_bounds(bid, offset),
        ensures
            r == self@[bid as int][offset as int],
    {
        self.inner[bid][offset]
    }

    pub fn store(&mut self, bid: usize, offset: usize, value: Value)
        requires
            old(self).in_bounds(bid, offset),
        ensures
            final(self)@ == old(self)@.update(
                bid as int,
                old(self)@[bid as int].update(offset as int, value),
            ),
    {
        let mut block = self.inner.remove(bid);
        block.set(offset, value);
        self.inner.insert(bid, block);
        assert(self@ =~= old(self)@.update(
            bid as int,
            old(self)@[bid as int].update(offset as int, value),
        ));
    }
}

/// A load from a slot that was just stored to gives back the stored value.
pub proof fn law_store_then_load(before: Memory, after: Memory, bid: usize, offset: usize, value: Value)
    requires
        before.in_bounds(bid, offset),
        after@ == before@.update(bid as int, before@[bid as int].update(offset as int, value)),
    ensures
        after.in_bounds(bid, offset),
        after@[bid as int][offset as int] == value,
{
}

} // verus!
