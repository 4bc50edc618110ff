//! Packed coils: a run of bits, eight to a byte, least significant bit first.

use crate::error::Error;
use vstd::prelude::*;
use vstd::std_specs::iter::IteratorSpec;

verus! {

/// A coil is a single bit: `true` is ON, `false` is OFF.
pub type Coil = bool;

/// Whether bit `i` of `byte` is set; bit 0 is the least significant one.
pub open spec fn bit_of(byte: u8, i: int) -> bool {
    (byte >> (i as u8)) & 1 > 0
}

/// The coil with index `i` in packed bytes: bit `i % 8` of byte `i / 8`.
pub open spec fn coil_at(bytes: Seq<u8>, i: int) -> bool {
    bit_of(bytes[i / 8], i % 8)
}

/// The number of bytes that `quantity` coils occupy.
pub open spec fn spec_packed_len(quantity: int) -> int {
    (quantity + 7) / 8
}

/// `new` is `old` with the coils `bits` packed into it: the buffer keeps its
/// length, coil `p` of it is `bits[p]` as far as the buffer has room, every
/// other bit is as it was, and so is every byte behind the packed ones.
pub open spec fn is_packed_into(old: Seq<u8>, bits: Seq<bool>, new: Seq<u8>) -> bool {
    &&& new.len() == old.len()
    &&& forall|p: int|
        0 <= p < 8 * old.len() ==> coil_at(new, p) == if p < bits.len() {
            bits[p]
        } else {
            coil_at(old, p)
        }
    &&& forall|k: int| spec_packed_len(bits.len() as int) <= k < old.len() ==> new[k] == old[k]
}

/// The value that stands for a coil in a single-coil request.
pub open spec fn spec_bool_to_u16_coil(state: bool) -> u16 {
    if state {
        0xFF00
    } else {
        0x0000
    }
}

/// The coil that a single-coil value stands for, if it is one of the two
/// values allowed.
pub open spec fn spec_u16_coil_to_bool(coil: u16) -> Result<bool, Error> {
    if coil == 0xFF00 {
        Ok(true)
    } else if coil == 0x0000 {
        Ok(false)
    } else {
        Err(Error::CoilValue(coil))
    }
}

proof fn lemma_set_bit(x: u8, v: u8, j: u8, i: u8)
    by (bit_vector)
    requires
        v <= 1,
        j < 8,
        i < 8,
    ensures
        ((((x & !(1u8 << j)) | (v << j)) >> i) & 1 > 0) == (if i == j {
            v == 1
        } else {
            (x >> i) & 1 > 0
        }),
{
}

proof fn lemma_bits_determine_byte(x: u8, y: u8)
    by (bit_vector)
    requires
        ((x >> 0u8) & 1 > 0) == ((y >> 0u8) & 1 > 0),
        ((x >> 1u8) & 1 > 0) == ((y >> 1u8) & 1 > 0),
        ((x >> 2u8) & 1 > 0) == ((y >> 2u8) & 1 > 0),
        ((x >> 3u8) & 1 > 0) == ((y >> 3u8) & 1 > 0),
        ((x >> 4u8) & 1 > 0) == ((y >> 4u8) & 1 > 0),
        ((x >> 5u8) & 1 > 0) == ((y >> 5u8) & 1 > 0),
        ((x >> 6u8) & 1 > 0) == ((y >> 6u8) & 1 > 0),
        ((x >> 7u8) & 1 > 0) == ((y >> 7u8) & 1 > 0),
    ensures
        x == y,
{
}

/// Packed bytes are determined by their coils: two buffers of one length
/// that agree on every coil are equal. So `is_packed_into` names exactly one
/// result for a buffer and a run of coils.
pub proof fn lemma_coils_determine_bytes(a: Seq<u8>, b: Seq<u8>)
    requires
        a.len() == b.len(),
        forall|p: int| 0 <= p < 8 * a.len() ==> coil_at(a, p) == coil_at(b, p),
    ensures
        a == b,
{
    assert forall|k: int| 0 <= k < a.len() implies a[k] == b[k] by {
        assert(coil_at(a, 8 * k + 0) == coil_at(b, 8 * k + 0));
        assert(coil_at(a, 8 * k + 1) == coil_at(b, 8 * k + 1));
        assert(coil_at(a, 8 * k + 2) == coil_at(b, 8 * k + 2));
        assert(coil_at(a, 8 * k + 3) == coil_at(b, 8 * k + 3));
        assert(coil_at(a, 8 * k + 4) == coil_at(b, 8 * k + 4));
        assert(coil_at(a, 8 * k + 5) == coil_at(b, 8 * k + 5));
        assert(coil_at(a, 8 * k + 6) == coil_at(b, 8 * k + 6));
        assert(coil_at(a, 8 * k + 7) == coil_at(b, 8 * k + 7));
        lemma_bits_determine_byte(a[k], b[k]);
    }
    assert(a =~= b);
}

/// Makes coil `i` of `bytes` equal to `coil` and leaves every other bit.
pub(crate) fn set_coil(bytes: &mut [u8], i: usize, coil: Coil)
    requires
        i / 8 < old(bytes)@.len(),
    ensures
        final(bytes)@.len() == old(bytes)@.len(),
        forall|k: int|
            0 <= k < old(bytes)@.len() && k != i / 8 ==> final(bytes)@[k] == old(bytes)@[k],
        forall|p: int|
            0 <= p < 8 * old(bytes)@.len() ==> coil_at(final(bytes)@, p) == if p == i {
                coil
            } else {
                coil_at(old(bytes)@, p)
            },
{
    let value: u8 = if coil {
        1
    } else {
        0
    };
    let shift: u8 = (i % 8) as u8;
    let before: u8 = bytes[i / 8];
    bytes[i / 8] = (before & !(1u8 << shift)) | (value << shift);
    proof {
        assert forall|p: int| 0 <= p < 8 * old(bytes)@.len() implies coil_at(bytes@, p) == if p
            == i {
            coil
        } else {
            coil_at(old(bytes)@, p)
        } by {
            if p / 8 == i / 8 {
                lemma_set_bit(before, value, shift, (p % 8) as u8);
            }
        }
    }
}

/// A quantity of coils.
#[derive(Debug, Clone, Copy, PartialEq, Eq)]
pub struct CoilQuantity {
    /// The number of coils.
    pub quantity: usize,
}

impl CoilQuantity {
    /// The number of bytes required for the number of coils.
    pub fn packed_len(&self) -> (len: usize)
        ensures
            len == spec_packed_len(self.quantity as int),
    {
        if self.quantity % 8 == 0 {
            self.quantity / 8
        } else {
            self.quantity / 8 + 1
        }
    }
}

/// The model of [`Coils`]: the bytes it refers to and the number of coils
/// it declares.
pub struct CoilsView {
    pub data: Seq<u8>,
    pub quantity: nat,
}

impl CoilsView {
    /// The number of bytes that the declared coils occupy.
    pub open spec fn packed_len(self) -> nat {
        spec_packed_len(self.quantity as int) as nat
    }

    /// The bytes hold every declared coil.
    pub open spec fn wf(self) -> bool {
        self.packed_len() <= self.data.len()
    }

    /// The bytes that carry the declared coils.
    pub open spec fn packed(self) -> Seq<u8> {
        self.data.take(self.packed_len() as int)
    }

    /// The bytes are no more than the declared coils occupy.
    pub open spec fn is_exact(self) -> bool {
        self.data.len() == self.packed_len()
    }

    /// The same coils, without the bytes behind those that carry them.
    pub open spec fn trimmed(self) -> CoilsView {
        CoilsView { data: self.packed(), quantity: self.quantity }
    }

    /// The coils, in order.
    pub open spec fn bits(self) -> Seq<bool> {
        Seq::new(self.quantity, |i: int| coil_at(self.data, i))
    }

    /// Coil `idx`, or nothing at and after the declared quantity.
    pub open spec fn get(self, idx: int) -> Option<bool> {
        if 0 <= idx < self.quantity {
            Some(coil_at(self.data, idx))
        } else {
            None
        }
    }
}

/// Packed coils: a view of bytes in a buffer, with the number of coils that
/// they hold.
#[derive(Debug, Clone, Copy, PartialEq, Eq)]
pub struct Coils<'c> {
    pub data: &'c [u8],
    pub quantity: CoilQuantity,
}

impl<'c> View for Coils<'c> {
    type V = CoilsView;

    open spec fn view(&self) -> CoilsView {
        CoilsView { data: self.data@, quantity: self.quantity.quantity as nat }
    }
}

impl<'c> Coils<'c> {
    /// The bytes hold every declared coil.
    pub open spec fn wf(&self) -> bool {
        self@.wf()
    }

    /// Packs the coils of a slice into a byte buffer and returns them as a
    /// view of that buffer: coil `i` of the view is `bools[i]`, whatever the
    /// buffer held before.
    ///
    /// The coils are packed one by one for as long as the buffer has room, so
    /// a buffer that is too small is filled before the error is returned.
    pub fn from_bools(bools: &[bool], target: &'c mut [u8]) -> (r: Result<Self, Error>)
        ensures
            is_packed_into(old(target)@, bools@, final(target)@),
            bools@.len() <= 8 * old(target)@.len() ==> r is Ok,
            match r {
                Ok(coils) => {
                    &&& bools@.len() <= 8 * old(target)@.len()
                    &&& coils.data@ == final(target)@
                    &&& coils.quantity.quantity == bools@.len()
                    &&& coils.wf()
                    &&& coils@.bits() == bools@
                    &&& forall|i: int|
                        0 <= i < bools@.len() ==> coil_at(final(target)@, i) == bools@[i]
                },
                Err(e) => e == Error::BufferSize && bools@.len() > 8 * old(target)@.len(),
            },
    {
        let mut i: usize = 0;
        while i < bools.len()
            invariant
                i <= bools@.len(),
                i <= 8 * target@.len(),
                is_packed_into(old(target)@, bools@.take(i as int), target@),
            decreases bools@.len() - i,
        {
            if i / 8 >= target.len() {
                proof {
                    assert(is_packed_into(old(target)@, bools@, target@));
                }
                return Err(Error::BufferSize);
            }
            set_coil(target, i, bools[i]);
            i = i + 1;
        }
        proof {
            assert(bools@.take(i as int) =~= bools@);
        }
        let data: &'c [u8] = target;
        let coils = Coils { data, quantity: CoilQuantity { quantity: i } };
        proof {
            assert(coils@.bits() =~= bools@);
        }
        Ok(coils)
    }

    /// Packs the coils that an iterator yields into a byte buffer and returns
    /// them as a view of that buffer: coil `i` of the view is the iterator's
    /// item `i`, whatever the buffer held before.
    ///
    /// What is promised holds of an iterator that keeps vstd's iterator laws;
    /// its items are then `bools.remaining()`.
    pub fn from_iter<I: Iterator<Item = bool>>(bools: I, target: &'c mut [u8]) -> (r: Result<
        Self,
        Error,
    >)
        ensures
            final(target)@.len() == old(target)@.len(),
            bools.obeys_prophetic_iter_laws() ==> {
                &&& is_packed_into(old(target)@, countable(bools.remaining()), final(target)@)
                &&& spec_pack_result(old(target)@.len(), bools.remaining().len()) == match r {
                    Ok(coils) => Ok::<nat, Error>(coils.quantity.quantity as nat),
                    Err(e) => Err(e),
                }
                &&& r matches Ok(coils) ==> {
                    &&& coils.data@ == final(target)@
                    &&& coils.wf()
                    &&& coils@.bits() == bools.remaining()
                    &&& forall|i: int|
                        0 <= i < bools.remaining().len() ==> coil_at(final(target)@, i)
                            == bools.remaining()[i]
                }
            },
    {
        match pack_coils(bools, target) {
            Ok(quantity) => {
                let data: &'c [u8] = target;
                let coils = Coils { data, quantity };
                proof {
                    if bools.obeys_prophetic_iter_laws() {
                        assert(coils@.bits() =~= bools.remaining());
                    }
                }
                Ok(coils)
            },
            Err(e) => Err(e),
        }
    }

    /// Copies the bytes that carry the coils to the front of `buf`.
    pub fn copy_to(&self, buf: &mut [u8])
        requires
            self.wf(),
            old(buf)@.len() >= self@.packed_len(),
        ensures
            final(buf)@ == self@.packed() + old(buf)@.skip(self@.packed_len() as int),
    {
        let packed_len = self.packed_len();
        let mut idx: usize = 0;
        while idx < packed_len
            invariant
                idx <= packed_len,
                packed_len == self@.packed_len(),
                packed_len <= self.data@.len(),
                buf@.len() == old(buf)@.len(),
                buf@.len() >= packed_len,
                buf@ =~= self.data@.take(idx as int) + old(buf)@.skip(idx as int),
            decreases packed_len - idx,
        {
            buf[idx] = self.data[idx];
            idx = idx + 1;
        }
    }

    /// The quantity of coils.
    pub fn len(&self) -> (n: usize)
        ensures
            n == self@.quantity,
    {
        self.quantity.quantity
    }

    /// The number of bytes required to pack the coils.
    pub fn packed_len(&self) -> (n: usize)
        ensures
            n == self@.packed_len(),
            n == spec_packed_len(self@.quantity as int),
    {
        self.quantity.packed_len()
    }

    /// Whether there is no coil.
    pub fn is_empty(&self) -> (b: bool)
        ensures
            b <==> self@.quantity == 0,
    {
        self.quantity.quantity == 0
    }

    /// A specific coil, or nothing at and after the declared quantity.
    pub fn get(&self, idx: usize) -> (r: Option<Coil>)
        requires
            self.wf(),
        ensures
            r == self@.get(idx as int),
            r is None <==> idx >= self@.quantity,
    {
        if idx >= self.quantity.quantity {
            return None;
        }
        let byte: u8 = self.data[idx / 8];
        Some((byte >> ((idx % 8) as u8)) & 1 > 0)
    }

    /// A cursor at the first coil.
    pub fn into_iter(self) -> (iter: CoilsIter<'c>)
        ensures
            iter.cnt == 0,
            iter.coils == self,
    {
        CoilsIter { cnt: 0, coils: self }
    }
}

/// A cursor over coils: it yields each coil once, in order, and then nothing.
#[derive(Debug, Clone, PartialEq, Eq)]
pub struct CoilsIter<'c> {
    pub cnt: usize,
    pub coils: Coils<'c>,
}

impl<'c> CoilsIter<'c> {
    /// The coil at the cursor, which then moves on; nothing once all coils
    /// have been yielded.
    pub fn next(&mut self) -> (r: Option<Coil>)
        requires
            old(self).coils.wf(),
        ensures
            r == old(self).coils@.get(old(self).cnt as int),
            final(self).coils == old(self).coils,
            final(self).cnt == if r is Some {
                old(self).cnt + 1
            } else {
                old(self).cnt as int
            },
    {
        let result = self.coils.get(self.cnt);
        if result.is_some() {
            self.cnt = self.cnt + 1;
        }
        result
    }
}

/// Turns a coil into its single-coil value.
pub fn bool_to_u16_coil(state: bool) -> (coil: u16)
    ensures
        coil == spec_bool_to_u16_coil(state),
{
    if state {
        0xFF00
    } else {
        0x0000
    }
}

/// Turns a single-coil value into a coil.
pub fn u16_coil_to_bool(coil: u16) -> (r: Result<bool, Error>)
    ensures
        r == spec_u16_coil_to_bool(coil),
{
    match coil {
        0xFF00 => Ok(true),
        0x0000 => Ok(false),
        _ => Err(Error::CoilValue(coil)),
    }
}

/// The coils of a run that a `usize` can count: all of them, but for a run
/// longer than any buffer, of which packing stops after coil `usize::MAX`.
pub open spec fn countable(coils: Seq<bool>) -> Seq<bool> {
    if coils.len() <= usize::MAX {
        coils
    } else {
        coils.take(usize::MAX + 1)
    }
}

/// What packing `coils` coils into a buffer of `room` bytes returns: their
/// number, or `BufferSize` where the buffer is too small for them. A run
/// whose length no `usize` holds cannot be counted; where the buffer has
/// room for coil `usize::MAX`, the error is `ByteCount(0)`.
pub open spec fn spec_pack_result(room: nat, coils: nat) -> Result<nat, Error> {
    if coils <= 8 * room && coils <= usize::MAX {
        Ok(coils)
    } else if coils > 8 * room && 8 * room <= usize::MAX {
        Err(Error::BufferSize)
    } else {
        Err(Error::ByteCount(0))
    }
}

/// Packs the coils that an iterator yields into a byte buffer and returns
/// their number: coil `i` of the buffer is then the iterator's item `i`,
/// whatever the buffer held before.
///
/// The coils are packed one by one for as long as the buffer has room, so a
/// buffer that is too small is filled before the error is returned. What is
/// promised of the result holds of an iterator that keeps vstd's iterator
/// laws; its items are then `coils.remaining()`.
pub fn pack_coils<I: Iterator<Item = Coil>>(coils: I, bytes: &mut [u8]) -> (r: Result<
    CoilQuantity,
    Error,
>)
    ensures
        final(bytes)@.len() == old(bytes)@.len(),
        coils.obeys_prophetic_iter_laws() ==> {
            &&& is_packed_into(old(bytes)@, countable(coils.remaining()), final(bytes)@)
            &&& spec_pack_result(old(bytes)@.len(), coils.remaining().len()) == match r {
                Ok(q) => Ok::<nat, Error>(q.quantity as nat),
                Err(e) => Err(e),
            }
            &&& r is Ok ==> forall|i: int|
                0 <= i < coils.remaining().len() ==> coil_at(final(bytes)@, i)
                    == coils.remaining()[i]
        },
{
    let mut iter = coils;
    let mut coil_count: usize = 0;
    let ghost all = coils.remaining();
    loop
        invariant
            bytes@.len() == old(bytes)@.len(),
            iter.obeys_prophetic_iter_laws() == coils.obeys_prophetic_iter_laws(),
            all == coils.remaining(),
            coil_count <= 8 * bytes@.len(),
            coils.obeys_prophetic_iter_laws() ==> {
                &&& coil_count <= all.len()
                &&& iter.remaining() == all.skip(coil_count as int)
                &&& is_packed_into(old(bytes)@, all.take(coil_count as int), bytes@)
            },
        decreases 8 * bytes@.len() - coil_count,
    {
        let ghost before = iter.remaining();
        match iter.next() {
            None => {
                proof {
                    if coils.obeys_prophetic_iter_laws() {
                        assert(before.len() == 0);
                        assert(all.take(coil_count as int) =~= all);
                    }
                }
                return Ok(CoilQuantity { quantity: coil_count });
            },
            Some(coil) => {
                proof {
                    if coils.obeys_prophetic_iter_laws() {
                        assert(before.len() > 0);
                        assert(coil == all[coil_count as int]);
                        assert(iter.remaining() =~= all.skip(coil_count + 1));
                    }
                }
                if coil_count / 8 >= bytes.len() {
                    proof {
                        if coils.obeys_prophetic_iter_laws() {
                            assert(is_packed_into(old(bytes)@, countable(all), bytes@));
                        }
                    }
                    return Err(Error::BufferSize);
                }
                set_coil(bytes, coil_count, coil);
                match coil_count.checked_add(1) {
                    Some(count) => {
                        coil_count = count;
                    },
                    None => {
                        proof {
                            if coils.obeys_prophetic_iter_laws() {
                                assert(countable(all) =~= all.take(coil_count + 1));
                            }
                        }
                        return Err(Error::ByteCount(0));
                    },
                }
            },
        }
    }
}

/// Unpacks the first `count` coils of `bytes` into the front of `coils`.
pub fn unpack_coils(bytes: &[u8], count: u16, coils: &mut [Coil]) -> (r: Result<(), Error>)
    requires
        old(coils)@.len() >= count ==> bytes@.len() >= spec_packed_len(count as int),
    ensures
        final(coils)@.len() == old(coils)@.len(),
        old(coils)@.len() < count ==> r == Err::<(), Error>(Error::BufferSize) && final(coils)@
            == old(coils)@,
        old(coils)@.len() >= count ==> {
            &&& r is Ok
            &&& forall|i: int| 0 <= i < count ==> final(coils)@[i] == coil_at(bytes@, i)
            &&& forall|i: int|
                count <= i < old(coils)@.len() ==> final(coils)@[i] == old(coils)@[i]
        },
{
    if coils.len() < count as usize {
        return Err(Error::BufferSize);
    }
    let mut i: u16 = 0;
    while i < count
        invariant
            i <= count,
            coils@.len() == old(coils)@.len(),
            coils@.len() >= count,
            bytes@.len() >= spec_packed_len(count as int),
            forall|k: int| 0 <= k < i ==> coils@[k] == coil_at(bytes@, k),
            forall|k: int| i <= k < coils@.len() ==> coils@[k] == old(coils)@[k],
        decreases count - i,
    {
        let byte: u8 = bytes[(i / 8) as usize];
        coils[i as usize] = (byte >> ((i % 8) as u8)) & 1 > 0;
        i = i + 1;
    }
    Ok(())
}

} // verus!
