//! `SparseReader` helps reading data that is fragmented at various locations
//! and potentially has chunks of differing sizes: it presents a list of byte
//! slices as one contiguous stream.

use vstd::prelude::*;

verus! {

broadcast use vstd::slice::axiom_spec_len;

/// A cursor over a list of byte slices, read as if they were one stream.
pub struct SparseReader<'a, 'b> {
    mapping_index: usize,
    position: usize,
    mappings: &'b [&'a [u8]],
}

/// The concatenation of the slices of `mappings` from `index` on.
pub open spec fn concat_from(mappings: Seq<&[u8]>, index: int) -> Seq<u8>
    decreases mappings.len() - index,
{
    if index < 0 || index >= mappings.len() {
        Seq::empty()
    } else {
        mappings[index]@ + concat_from(mappings, index + 1)
    }
}

impl<'a, 'b> SparseReader<'a, 'b> {
    /// Whether the cursor is in bounds: at a slice with bytes still ahead,
    /// or just past the end of everything.
    pub closed spec fn wf(&self) -> bool {
        &&& self.mapping_index <= self.mappings@.len()
        &&& if self.mapping_index == self.mappings@.len() {
            self.position == 0
        } else {
            self.position <= self.mappings@[self.mapping_index as int]@.len()
        }
    }

    /// The bytes not yet read.
    pub closed spec fn remaining(&self) -> Seq<u8> {
        if self.mapping_index >= self.mappings@.len() {
            Seq::empty()
        } else {
            self.mappings@[self.mapping_index as int]@.skip(self.position as int) + concat_from(
                self.mappings@,
                self.mapping_index + 1,
            )
        }
    }

    /// A reader positioned at the start of the stream.
    pub fn new(mappings: &'b [&'a [u8]]) -> (r: SparseReader<'a, 'b>)
        ensures
            r.wf(),
            r.remaining() == concat_from(mappings@, 0),
    {
        proof {
            if mappings@.len() > 0 {
                assert(mappings@[0]@.skip(0) =~= mappings@[0]@);
            }
        }
        SparseReader { mapping_index: 0, position: 0, mappings }
    }

    /// Reads up to `max_len` bytes, advancing the cursor: the next
    /// `min(max_len, remaining)` bytes of the stream.
    pub fn read(&mut self, max_len: usize) -> (r: Vec<u8>)
        requires
            old(self).wf(),
        ensures
            final(self).wf(),
            r@ == old(self).remaining().take(min_int(max_len as int, old(self).remaining().len() as int)),
            final(self).remaining() == old(self).remaining().skip(r@.len() as int),
    {
        let mut out: Vec<u8> = Vec::new();
        while out.len() < max_len && self.mapping_index < self.mappings.len()
            invariant
                self.wf(),
                self.mappings == old(self).mappings,
                self.mapping_index <= self.mappings@.len(),
                out@.len() <= max_len,
                old(self).remaining() == out@ + self.remaining(),
            decreases old(self).remaining().len() - out@.len() + self.mappings@.len()
                - self.mapping_index,
        {
            let mapping: &[u8] = self.mappings[self.mapping_index];
            if self.position >= mapping.len() {
                proof {
                    assert(mapping@.skip(self.position as int) =~= Seq::<u8>::empty());
                    assert(Seq::<u8>::empty() + concat_from(
                        self.mappings@,
                        self.mapping_index + 1,
                    ) =~= concat_from(self.mappings@, self.mapping_index + 1));
                    if self.mapping_index + 1 < self.mappings@.len() {
                        assert(self.mappings@[self.mapping_index + 1]@.skip(0)
                            =~= self.mappings@[self.mapping_index + 1]@);
                    }
                }
                self.mapping_index = self.mapping_index + 1;
                self.position = 0;
            } else {
                let ghost rem_pre = self.remaining();
                let byte = mapping[self.position];
                proof {
                    assert(rem_pre[0] == byte);
                }
                out.push(byte);
                self.position = self.position + 1;
                proof {
                    assert(mapping@.skip(self.position as int) =~= mapping@.skip(
                        self.position - 1,
                    ).skip(1));
                    assert(self.remaining() =~= rem_pre.skip(1));
                    assert(out@ + self.remaining() =~= out@.drop_last() + rem_pre);
                }
            }
        }
        proof {
            assert(out@ =~= old(self).remaining().take(out@.len() as int));
            assert(self.remaining() =~= old(self).remaining().skip(out@.len() as int));
            assert(out@.len() == min_int(max_len as int, old(self).remaining().len() as int));
        }
        out
    }
}

/// The smaller of two integers.
pub open spec fn min_int(a: int, b: int) -> int {
    if a < b {
        a
    } else {
        b
    }
}

} // verus!
