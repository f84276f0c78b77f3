//! Fixed-size, word-addressed memory with bounds-checked single-word and
//! range access. The length is chosen at construction and never changes.

use vstd::prelude::*;
use vstd::arithmetic::div_mod::lemma_add_mod_noop;
use vstd::slice::slice_subrange;
use crate::cpu::WordType;

verus! {

/// Faults raised by memory accesses.
#[derive(Debug, PartialEq, Eq, Structural, Clone, Copy)]
pub enum MemoryErr {
    /// A single-word access outside the bounds: carries (length, position).
    PointerOutOfRange(WordType, WordType),
    /// A range access whose window exceeds the bounds: carries
    /// (length, position, requested end of the window).
    PointerRangeOverflow(WordType, WordType, WordType),
}

/// A fixed-length array of words, addressed by word positions.
pub struct Memory {
    mem: Vec<WordType>,
}

impl View for Memory {
    type V = Seq<WordType>;

    closed spec fn view(&self) -> Seq<WordType> {
        self.mem@
    }
}

/// The requested end of a range access, reduced modulo the word range so it
/// fits in a word, as reported by `MemoryErr::PointerRangeOverflow`.
pub open spec fn range_end(pos: WordType, count: int) -> WordType {
    ((pos + count) % 0x10000) as WordType
}

/// What `get` returns: the word at `pos`, or `PointerOutOfRange` past the end.
pub open spec fn spec_get(mem: Seq<WordType>, pos: WordType) -> Result<WordType, MemoryErr> {
    if (pos as int) < mem.len() {
        Ok(mem[pos as int])
    } else {
        Err(MemoryErr::PointerOutOfRange(mem.len() as WordType, pos))
    }
}

/// What `set` does: the memory after the call, paired with the outcome.
/// Out of bounds, the memory is unchanged.
pub open spec fn spec_set(mem: Seq<WordType>, pos: WordType, value: WordType) -> (
    Seq<WordType>,
    Result<(), MemoryErr>,
) {
    if (pos as int) < mem.len() {
        (mem.update(pos as int, value), Ok(()))
    } else {
        (mem, Err(MemoryErr::PointerOutOfRange(mem.len() as WordType, pos)))
    }
}

/// What `get_range` returns: the whole window `[pos, pos + count)`, or
/// `PointerRangeOverflow` when any of it lies past the end.
pub open spec fn spec_get_range(mem: Seq<WordType>, pos: WordType, count: WordType) -> Result<
    Seq<WordType>,
    MemoryErr,
> {
    if pos + count <= mem.len() {
        Ok(mem.subrange(pos as int, pos + count))
    } else {
        Err(MemoryErr::PointerRangeOverflow(mem.len() as WordType, pos, range_end(pos, count as int)))
    }
}

/// What `set_range` does: the whole window `[pos, pos + data.len())` is
/// replaced by `data`, or nothing is written and `PointerRangeOverflow`
/// comes back.
pub open spec fn spec_set_range(mem: Seq<WordType>, pos: WordType, data: Seq<WordType>) -> (
    Seq<WordType>,
    Result<(), MemoryErr>,
) {
    if pos + data.len() <= mem.len() {
        (mem.take(pos as int) + data + mem.skip(pos + data.len()), Ok(()))
    } else {
        (mem, Err(MemoryErr::PointerRangeOverflow(mem.len() as WordType, pos, range_end(pos, data.len() as int))))
    }
}

impl Memory {
    /// The length fits in a word: positions are words, and `len` reports the
    /// length as one.
    pub open spec fn wf(self) -> bool {
        self@.len() <= WordType::MAX
    }

    /// A zero-filled memory of `size` words.
    pub fn new(size: WordType) -> (r: Memory)
        ensures
            r.wf(),
            r@ == Seq::new(size as nat, |i: int| 0u16),
    {
        Memory::new_raw(size)
    }

    /// A zero-filled memory of `size` words.
    pub fn new_raw(size: WordType) -> (r: Memory)
        ensures
            r.wf(),
            r@ == Seq::new(size as nat, |i: int| 0u16),
    {
        let mut mem: Vec<WordType> = Vec::new();
        while mem.len() < size as usize
            invariant
                mem@.len() <= size as nat,
                forall|i: int| 0 <= i < mem@.len() ==> mem@[i] == 0u16,
            decreases size as int - mem@.len(),
        {
            mem.push(0);
        }
        let r = Memory { mem };
        proof {
            assert(r@ =~= Seq::new(size as nat, |i: int| 0u16));
        }
        r
    }

    /// The word at `pos`, if `pos` is within bounds.
    pub fn get(&self, pos: WordType) -> (r: Result<WordType, MemoryErr>)
        requires
            self.wf(),
        ensures
            r == spec_get(self@, pos),
    {
        if pos < self.len() {
            Ok(self.mem[pos as usize])
        } else {
            Err(MemoryErr::PointerOutOfRange(self.len(), pos))
        }
    }

    /// The window of `count` words starting at `pos`, if it lies wholly
    /// within bounds.
    pub fn get_range(&self, pos: WordType, count: WordType) -> (r: Result<&[WordType], MemoryErr>)
        requires
            self.wf(),
        ensures
            ({
                match (r, spec_get_range(self@, pos, count)) {
                    (Ok(s), Ok(w)) => s@ == w,
                    (Err(e), Err(w)) => e == w,
                    _ => false,
                }
            }),
    {
        let end: usize = pos as usize + count as usize;
        if end <= self.mem.len() {
            Ok(slice_subrange(self.mem.as_slice(), pos as usize, end))
        } else {
            Err(MemoryErr::PointerRangeOverflow(self.len(), pos, Self::wrap_end(pos, count as usize)))
        }
    }

    /// Writes `value` at `pos`, if `pos` is within bounds.
    pub fn set(&mut self, pos: WordType, value: WordType) -> (r: Result<(), MemoryErr>)
        requires
            old(self).wf(),
        ensures
            final(self).wf(),
            final(self)@ == spec_set(old(self)@, pos, value).0,
            r == spec_set(old(self)@, pos, value).1,
    {
        if pos < self.len() {
            self.mem[pos as usize] = value;
            Ok(())
        } else {
            Err(MemoryErr::PointerOutOfRange(self.len(), pos))
        }
    }

    /// Writes all of `data` starting at `pos`, if the whole window lies
    /// within bounds; out of bounds, nothing is written.
    pub fn set_range(&mut self, pos: WordType, data: &[WordType]) -> (r: Result<(), MemoryErr>)
        requires
            old(self).wf(),
        ensures
            final(self).wf(),
            final(self)@ == spec_set_range(old(self)@, pos, data@).0,
            r == spec_set_range(old(self)@, pos, data@).1,
    {
        if data.len() <= self.mem.len() && pos as usize <= self.mem.len() - data.len() {
            let mut i: usize = 0;
            while i < data.len()
                invariant
                    pos as int + data@.len() <= self.mem@.len() <= WordType::MAX,
                    i <= data@.len(),
                    self.mem@.len() == old(self).mem@.len(),
                    forall|j: int| 0 <= j < pos as int ==> self.mem@[j] == old(self).mem@[j],
                    forall|j: int| 0 <= j < i ==> self.mem@[pos as int + j] == data@[j],
                    forall|j: int|
                        pos as int + i <= j < self.mem@.len() ==> self.mem@[j] == old(self).mem@[j],
                decreases data@.len() - i,
            {
                self.mem[pos as usize + i] = data[i];
                i += 1;
            }
            proof {
                assert(self.mem@ =~= old(self).mem@.take(pos as int) + data@ + old(self).mem@.skip(
                    pos + data@.len(),
                ));
            }
            Ok(())
        } else {
            Err(MemoryErr::PointerRangeOverflow(self.len(), pos, Self::wrap_end(pos, data.len())))
        }
    }

    /// The number of words this memory holds.
    pub fn len(&self) -> (r: WordType)
        requires
            self.wf(),
        ensures
            r == self@.len(),
    {
        self.mem.len() as WordType
    }

    /// The whole contents as a slice of words.
    pub fn raw(&self) -> (r: &[WordType])
        ensures
            r@ == self@,
    {
        self.mem.as_slice()
    }

    /// The whole contents as a mutable slice of words.
    pub fn raw_mut(&mut self) -> (r: &mut [WordType])
        ensures
            r@ == old(self)@,
            final(self)@ == final(r)@,
            old(self).wf() && final(r)@.len() == old(self)@.len() ==> final(self).wf(),
    {
        self.mem.as_mut_slice()
    }

    /// The requested end of a range access, reduced modulo the word range.
    fn wrap_end(pos: WordType, count: usize) -> (r: WordType)
        ensures
            r == range_end(pos, count as int),
    {
        let reduced: usize = count % 0x10000;
        proof {
            lemma_add_mod_noop(pos as int, count as int, 0x10000);
            lemma_add_mod_noop(pos as int, reduced as int, 0x10000);
        }
        ((pos as usize + reduced) % 0x10000) as WordType
    }
}

/// For any position within bounds, a `set` followed by a `get` at the same
/// position returns exactly the value written.
pub proof fn lemma_set_get_roundtrip(mem: Seq<WordType>, pos: WordType, value: WordType)
    requires
        (pos as int) < mem.len(),
    ensures
        spec_set(mem, pos, value).1 == Ok::<(), MemoryErr>(()),
        spec_get(spec_set(mem, pos, value).0, pos) == Ok::<WordType, MemoryErr>(value),
{
}

/// Any single-word access at a position at or past the length fails with
/// `PointerOutOfRange(length, position)`, whatever the value, and a failed
/// `set` leaves the memory unchanged.
pub proof fn lemma_out_of_range_fails(mem: Seq<WordType>, pos: WordType, value: WordType)
    requires
        mem.len() <= WordType::MAX,
        pos as int >= mem.len(),
    ensures
        spec_get(mem, pos) == Err::<WordType, MemoryErr>(
            MemoryErr::PointerOutOfRange(mem.len() as WordType, pos),
        ),
        spec_set(mem, pos, value).1 == Err::<(), MemoryErr>(
            MemoryErr::PointerOutOfRange(mem.len() as WordType, pos),
        ),
        spec_set(mem, pos, value).0 == mem,
{
}

/// A range access fails with `PointerRangeOverflow` exactly when its window
/// `[pos, pos + count)` sticks out past the length; within bounds, `get_range`
/// returns exactly that window and `set_range` replaces exactly that window.
pub proof fn lemma_range_window(mem: Seq<WordType>, pos: WordType, data: Seq<WordType>)
    requires
        mem.len() <= WordType::MAX,
        data.len() <= WordType::MAX,
    ensures
        pos + data.len() > mem.len() ==> spec_get_range(mem, pos, data.len() as WordType)
            == Err::<Seq<WordType>, MemoryErr>(
            MemoryErr::PointerRangeOverflow(mem.len() as WordType, pos, range_end(pos, data.len() as int)),
        ),
        pos + data.len() > mem.len() ==> spec_set_range(mem, pos, data) == (
            mem,
            Err::<(), MemoryErr>(
                MemoryErr::PointerRangeOverflow(
                    mem.len() as WordType,
                    pos,
                    range_end(pos, data.len() as int),
                ),
            ),
        ),
        pos + data.len() <= mem.len() ==> spec_get_range(
            spec_set_range(mem, pos, data).0,
            pos,
            data.len() as WordType,
        ) == Ok::<Seq<WordType>, MemoryErr>(data),
        pos + data.len() <= mem.len() ==> {
            let written = spec_set_range(mem, pos, data).0;
            &&& written.len() == mem.len()
            &&& forall|j: int|
                0 <= j < mem.len() && !(pos as int <= j < pos + data.len()) ==> written[j] == mem[j]
            &&& forall|j: int| 0 <= j < data.len() ==> written[pos as int + j] == data[j]
        },
{
    if pos + data.len() <= mem.len() {
        let written = spec_set_range(mem, pos, data).0;
        assert(written.subrange(pos as int, pos + data.len()) =~= data);
    }
}

} // verus!
