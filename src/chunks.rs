use vstd::prelude::*;

verus! {

/// Splits a sequence of items into consecutive batches of a fixed size.
pub struct Chunks<T> {
    size: usize,
    rest: Vec<T>,
}

/// Turns a collection into a stream of batches of at most `size` items.
pub trait ChunkIter<T>: Sized {
    fn chunks(self, size: usize) -> (r: Chunks<T>)
        ensures
            r.size() == size,
            r.remaining() == self.items(),
    ;

    /// The items, in order.
    spec fn items(&self) -> Seq<T>;
}

impl<T> ChunkIter<T> for Vec<T> {
    open spec fn items(&self) -> Seq<T> {
        self@
    }

    fn chunks(self, size: usize) -> (r: Chunks<T>) {
        Chunks { size, rest: self }
    }
}

/// Length of the next batch: `size` items, or all that remain when fewer do.
pub open spec fn batch_len(size: nat, remaining: nat) -> nat {
    if remaining < size {
        remaining
    } else {
        size
    }
}

impl<T> Chunks<T> {
    /// The batch size.
    pub closed spec fn size(&self) -> nat {
        self.size as nat
    }

    /// The items not yet handed out, in the order they were given.
    pub closed spec fn remaining(&self) -> Seq<T> {
        self.rest@
    }

    /// Hands out the next batch: the first `size` remaining items, or all of
    /// them when fewer remain. Returns `None` once nothing remains or when the
    /// batch size is zero.
    pub fn next(&mut self) -> (r: Option<Vec<T>>)
        ensures
            final(self).size() == old(self).size(),
            old(self).size() == 0 || old(self).remaining().len() == 0 ==> {
                &&& r.is_none()
                &&& final(self).remaining() == old(self).remaining()
            },
            old(self).size() > 0 && old(self).remaining().len() > 0 ==> {
                let n = batch_len(old(self).size(), old(self).remaining().len()) as int;
                &&& r.is_some()
                &&& r.unwrap()@ == old(self).remaining().take(n)
                &&& final(self).remaining() == old(self).remaining().skip(n)
            },
    {
        if self.size == 0 || self.rest.len() == 0 {
            return None;
        }
        let n: usize = if self.rest.len() < self.size {
            self.rest.len()
        } else {
            self.size
        };
        let mut batch = self.rest.split_off(n);
        std::mem::swap(&mut batch, &mut self.rest);
        proof {
            assert(batch@ =~= old(self).rest@.take(n as int));
            assert(self.rest@ =~= old(self).rest@.skip(n as int));
        }
        Some(batch)
    }
}

} // verus!
