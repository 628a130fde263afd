//! The scratch memory of a frame.

use vstd::prelude::*;
use vstd::slice::slice_subrange;
use crate::exit::ExitFatal;
use crate::word::Word;

verus! {

/// `n` rounded up to a multiple of 32.
pub open spec fn ceil32(n: int) -> int {
    ((n + 31) / 32) * 32
}

/// `bytes` cut, or filled with zero bytes on the right, to `len` bytes.
pub open spec fn padded(bytes: Seq<u8>, len: nat) -> Seq<u8> {
    Seq::new(
        len,
        |i: int|
            if i < bytes.len() {
                bytes[i]
            } else {
                0u8
            },
    )
}

/// The memory `m` after it has grown, with zero bytes, to hold `new_len` bytes at least.
pub open spec fn grown(m: Seq<u8>, new_len: nat) -> Seq<u8> {
    if new_len <= m.len() {
        m
    } else {
        padded(m, new_len)
    }
}

/// The `size` bytes read from `m` at `offset`, where every byte past the end of `m` reads as zero.
pub open spec fn read(m: Seq<u8>, offset: nat, size: nat) -> Seq<u8> {
    Seq::new(
        size,
        |i: int|
            if offset + i < m.len() {
                m[offset + i]
            } else {
                0u8
            },
    )
}

/// The memory `m` after the `len` bytes of `src` that start at `src_offset` are copied to
/// `offset`. A byte past the end of `src` is copied as zero, and a byte that would land past the
/// end of `m` is dropped.
pub open spec fn copied(m: Seq<u8>, offset: nat, src: Seq<u8>, src_offset: nat, len: nat) -> Seq<
    u8,
> {
    Seq::new(
        m.len(),
        |i: int|
            if offset <= i < offset + len {
                if src_offset + (i - offset) < src.len() {
                    src[src_offset + (i - offset)]
                } else {
                    0u8
                }
            } else {
                m[i]
            },
    )
}

/// The memory `m` after `target` bytes are written at `offset`: those of `value`, cut or filled
/// with zero bytes on the right.
pub open spec fn written(m: Seq<u8>, offset: nat, value: Seq<u8>, target: nat) -> Seq<u8> {
    copied(m, offset, value, 0, target)
}

/// A zero-initialised byte buffer that only grows. Its view is the memory as the code sees it:
/// as many bytes as the effective length, which is a multiple of 32.
pub struct Memory {
    /// The bytes written so far; every byte past them is zero.
    data: Vec<u8>,
    /// The effective length, counted in words of 32 bytes.
    words: usize,
    limit: usize,
}

impl View for Memory {
    type V = Seq<u8>;

    closed spec fn view(&self) -> Seq<u8> {
        padded(self.data@, (32 * self.words) as nat)
    }
}

impl Memory {
    /// What holds of every memory between two operations.
    pub closed spec fn wf(&self) -> bool {
        self.data@.len() <= 32 * self.words
    }

    /// The most bytes the memory may be asked to cover.
    pub closed spec fn spec_limit(&self) -> nat {
        self.limit as nat
    }

    /// Whether the memory may grow to cover the `len` bytes at `offset`: the range ends within
    /// the limit.
    pub open spec fn can_cover(&self, offset: nat, len: nat) -> bool {
        offset + len <= self.spec_limit()
    }

    /// The effective length is a multiple of 32.
    pub proof fn lemma_aligned(self)
        requires
            self.wf(),
        ensures
            self@.len() % 32 == 0,
    {
    }

    /// The limit is a length that the machine can address.
    pub proof fn lemma_limit_bounded(self)
        ensures
            self.spec_limit() <= usize::MAX,
    {
    }

    /// An empty memory that may cover at most `limit` bytes.
    pub fn new(limit: usize) -> (r: Memory)
        ensures
            r.wf(),
            r@ == Seq::<u8>::empty(),
            r.spec_limit() == limit,
    {
        let r = Memory { data: Vec::new(), words: 0, limit };
        assert(r@ =~= Seq::<u8>::empty());
        r
    }

    /// The most bytes the memory may be asked to cover.
    pub fn limit(&self) -> (r: usize)
        ensures
            r == self.spec_limit(),
    {
        self.limit
    }

    /// The number of bytes the memory covers: the highest byte touched so far, rounded up to a
    /// multiple of 32.
    pub fn effective_len(&self) -> (r: Word)
        ensures
            r@ == self@.len(),
            r == Word::of(self@.len()),
            r@ % 32 == 0,
    {
        let r = Word::from_usize(self.words).wrapping_mul(Word::from_u64(32));
        proof {
            vstd::arithmetic::div_mod::lemma_small_mod(
                (self.words * 32) as nat,
                crate::word::word_modulus(),
            );
        }
        r
    }

    /// Whether the memory covers no byte yet.
    pub fn is_empty(&self) -> (r: bool)
        ensures
            r == (self@.len() == 0),
    {
        self.words == 0
    }

    /// Grows the memory to cover the `len` bytes at `offset`, up to the next multiple of 32.
    /// Nothing happens when `len` is zero. The memory is left as it is when the range cannot be
    /// covered.
    pub fn resize_offset(&mut self, offset: Word, len: Word) -> (r: Result<(), ExitFatal>)
        requires
            old(self).wf(),
        ensures
            final(self).wf(),
            final(self).spec_limit() == old(self).spec_limit(),
            len@ == 0 ==> r is Ok && final(self)@ == old(self)@,
            len@ != 0 && old(self).can_cover(offset@, len@) ==> r is Ok && final(self)@ == grown(
                old(self)@,
                ceil32((offset@ + len@) as int) as nat,
            ),
            len@ != 0 && !old(self).can_cover(offset@, len@) ==> r == Err::<(), ExitFatal>(
                ExitFatal::NotSupported,
            ) && final(self)@ == old(self)@,
            len@ != 0 && r is Ok ==> offset@ + len@ <= usize::MAX,
    {
        if len.is_zero() {
            return Ok(());
        }
        let start = match offset.to_usize() {
            Some(v) => v,
            None => {
                return Err(ExitFatal::NotSupported);
            },
        };
        let size = match len.to_usize() {
            Some(v) => v,
            None => {
                return Err(ExitFatal::NotSupported);
            },
        };
        if size > self.limit || start > self.limit - size {
            return Err(ExitFatal::NotSupported);
        }
        let end: usize = start + size;
        let needed: usize = if end % 32 == 0 {
            end / 32
        } else {
            end / 32 + 1
        };
        assert(32 * needed == ceil32(end as int));
        if needed > self.words {
            self.words = needed;
            assert(final(self)@ =~= grown(old(self)@, (32 * needed) as nat));
        }
        Ok(())
    }

    /// Reads `size` bytes at `offset`. Bytes past the effective length read as zero.
    pub fn get(&self, offset: usize, size: usize) -> (r: Vec<u8>)
        requires
            self.wf(),
        ensures
            r@ == read(self@, offset as nat, size as nat),
    {
        let mut ret: Vec<u8> = Vec::new();
        let mut index: usize = 0;
        let held: usize = self.data.len();
        while index < size
            invariant
                self.wf(),
                index <= size,
                held == self.data@.len(),
                ret@.len() == index,
                forall|j: int|
                    0 <= j < index ==> ret@[j] == read(self@, offset as nat, size as nat)[j],
            decreases size - index,
        {
            let b: u8 = if offset < held && index < held - offset {
                self.data[offset + index]
            } else {
                0u8
            };
            ret.push(b);
            index = index + 1;
        }
        assert(ret@ =~= read(self@, offset as nat, size as nat));
        ret
    }

    /// Writes `target_size` bytes at `offset`: the bytes of `value`, cut or filled with zero bytes
    /// on the right. The memory does not grow: a byte that would land past the effective
    /// length is dropped. Writing no bytes does nothing, wherever it is asked for; any other
    /// range that ends past the limit is refused.
    pub fn set(&mut self, offset: usize, value: &[u8], target_size: usize) -> (r: Result<
        (),
        ExitFatal,
    >)
        requires
            old(self).wf(),
        ensures
            final(self).wf(),
            final(self).spec_limit() == old(self).spec_limit(),
            target_size == 0 || offset + target_size <= old(self).spec_limit() ==> r is Ok
                && final(self)@ == written(old(self)@, offset as nat, value@, target_size as nat),
            target_size == 0 ==> final(self)@ == old(self)@,
            target_size != 0 && offset + target_size > old(self).spec_limit() ==> r == Err::<
                (),
                ExitFatal,
            >(ExitFatal::NotSupported) && final(self)@ == old(self)@,
    {
        if target_size == 0 {
            assert(self@ =~= written(old(self)@, offset as nat, value@, 0));
            return Ok(());
        }
        if target_size > self.limit || offset > self.limit - target_size {
            return Err(ExitFatal::NotSupported);
        }
        let wanted: usize = offset + target_size;
        let end: usize = if wanted / 32 < self.words {
            wanted
        } else {
            self.words * 32
        };
        assert(end == if wanted < 32 * self.words {
            wanted as int
        } else {
            32 * self.words
        });
        if offset >= end {
            assert(final(self)@ =~= written(
                old(self)@,
                offset as nat,
                value@,
                target_size as nat,
            ));
            return Ok(());
        }
        while self.data.len() < end
            invariant
                self.words == old(self).words,
                self.limit == old(self).limit,
                end <= 32 * self.words,
                self.data@.len() <= 32 * self.words,
                self@ =~= old(self)@,
            decreases end - self.data@.len(),
        {
            self.data.push(0u8);
        }
        let ghost base = self.data@;
        let mut pos: usize = offset;
        while pos < end
            invariant
                self.words == old(self).words,
                self.limit == old(self).limit,
                offset <= pos <= end <= self.data@.len(),
                self.data@.len() == base.len(),
                base.len() <= 32 * self.words,
                forall|j: int|
                    0 <= j < base.len() ==> self.data@[j] == (if offset <= j < pos {
                        if j - offset < value@.len() {
                            value@[j - offset]
                        } else {
                            0u8
                        }
                    } else {
                        base[j]
                    }),
            decreases end - pos,
        {
            let b: u8 = if pos - offset < value.len() {
                value[pos - offset]
            } else {
                0u8
            };
            self.data.set(pos, b);
            pos = pos + 1;
        }
        assert(final(self)@ =~= written(old(self)@, offset as nat, value@, target_size as nat));
        Ok(())
    }

    /// Copies the `len` bytes of `data` that start at `data_offset` to `memory_offset`. A byte
    /// past the end of `data` is copied as zero. The memory does not grow. Copying no bytes does
    /// nothing, wherever it is asked for; any other range that ends past the limit is refused.
    pub fn copy_large(
        &mut self,
        memory_offset: Word,
        data_offset: Word,
        len: Word,
        data: &[u8],
    ) -> (r: Result<(), ExitFatal>)
        requires
            old(self).wf(),
        ensures
            final(self).wf(),
            final(self).spec_limit() == old(self).spec_limit(),
            len@ == 0 || memory_offset@ + len@ <= old(self).spec_limit() ==> r is Ok
                && final(self)@ == copied(old(self)@, memory_offset@, data@, data_offset@, len@),
            len@ == 0 ==> final(self)@ == old(self)@,
            len@ != 0 && memory_offset@ + len@ > old(self).spec_limit() ==> r == Err::<
                (),
                ExitFatal,
            >(ExitFatal::NotSupported) && final(self)@ == old(self)@,
    {
        if len.is_zero() {
            assert(self@ =~= copied(old(self)@, memory_offset@, data@, data_offset@, 0));
            return Ok(());
        }
        let start = match memory_offset.to_usize() {
            Some(v) => v,
            None => {
                return Err(ExitFatal::NotSupported);
            },
        };
        let size = match len.to_usize() {
            Some(v) => v,
            None => {
                return Err(ExitFatal::NotSupported);
            },
        };
        let held: usize = data.len();
        let from: usize = match data_offset.to_usize() {
            Some(v) => if v < held {
                v
            } else {
                held
            },
            None => held,
        };
        let to: usize = if size < held - from {
            from + size
        } else {
            held
        };
        let window = slice_subrange(data, from, to);
        let r = self.set(start, window, size);
        proof {
            if r is Ok {
                assert(final(self)@ =~= copied(
                    old(self)@,
                    memory_offset@,
                    data@,
                    data_offset@,
                    len@,
                ));
            }
        }
        r
    }
}

} // verus!
