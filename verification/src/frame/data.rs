//! Register data: a run of 16-bit words, each stored big-endian in two bytes.

use crate::endian::{be16, read_u16_be, write_u16_be};
use crate::error::Error;
use vstd::prelude::*;

verus! {

/// A register holds one 16-bit word.
pub type Word = u16;

/// The bytes of a run of words, big-endian, in order.
pub open spec fn be_words(words: Seq<u16>) -> Seq<u8> {
    Seq::new(
        2 * words.len(),
        |i: int|
            if i % 2 == 0 {
                (words[i / 2] / 256) as u8
            } else {
                (words[i / 2] % 256) as u8
            },
    )
}

/// The word that starts at byte `2 * idx` of `bytes`.
pub open spec fn word_at(bytes: Seq<u8>, idx: int) -> u16 {
    be16(bytes[2 * idx], bytes[2 * idx + 1])
}

/// The model of [`Data`]: the bytes it refers to and the number of words it
/// declares.
pub struct DataView {
    pub data: Seq<u8>,
    pub quantity: nat,
}

impl DataView {
    /// The bytes hold every declared word.
    pub open spec fn wf(self) -> bool {
        2 * self.quantity <= self.data.len()
    }

    /// The bytes that carry the declared words.
    pub open spec fn packed(self) -> Seq<u8> {
        self.data.take(2 * self.quantity as int)
    }

    /// The bytes are no more than the declared words occupy.
    pub open spec fn is_exact(self) -> bool {
        self.data.len() == 2 * self.quantity
    }

    /// The same words, without the bytes behind those that carry them.
    pub open spec fn trimmed(self) -> DataView {
        DataView { data: self.packed(), quantity: self.quantity }
    }

    /// The words, in order.
    pub open spec fn words(self) -> Seq<u16> {
        Seq::new(self.quantity, |i: int| word_at(self.data, i))
    }

    /// Word `idx`, or nothing at and after the declared quantity.
    pub open spec fn get(self, idx: int) -> Option<u16> {
        if 0 <= idx < self.quantity {
            Some(word_at(self.data, idx))
        } else {
            None
        }
    }
}

/// Register data: a view of bytes in a buffer, with the number of words that
/// they hold.
#[derive(Debug, Clone, Copy, PartialEq, Eq)]
pub struct Data<'d> {
    pub data: &'d [u8],
    pub quantity: usize,
}

impl<'d> View for Data<'d> {
    type V = DataView;

    open spec fn view(&self) -> DataView {
        DataView { data: self.data@, quantity: self.quantity as nat }
    }
}

/// The buffer has an invalid size: it must hold a whole number of words, and
/// at least one.
#[derive(Debug, Clone, Copy, PartialEq, Eq)]
pub struct DataFromBufferError;

impl<'d> Data<'d> {
    /// The bytes hold every declared word.
    pub open spec fn wf(&self) -> bool {
        self@.wf()
    }

    /// Writes words to the front of a byte buffer, big-endian, and returns
    /// a view of the bytes written: two for each word, and none of what the
    /// buffer holds behind them. No words, or more than the buffer holds, are
    /// refused, and the buffer is then left as it was.
    pub fn from_words(words: &[u16], target: &'d mut [u8]) -> (r: Result<Self, Error>)
        ensures
            match r {
                Ok(data) => {
                    &&& 0 < words@.len()
                    &&& 2 * words@.len() <= old(target)@.len()
                    &&& final(target)@ == be_words(words@) + old(target)@.skip(
                        2 * words@.len() as int,
                    )
                    &&& data.data@ == be_words(words@)
                    &&& data.quantity == words@.len()
                    &&& data.wf()
                    &&& data@.is_exact()
                    &&& data@.words() == words@
                },
                Err(e) => {
                    &&& e == Error::BufferSize
                    &&& words@.len() == 0 || 2 * words@.len() > old(target)@.len()
                    &&& final(target)@ == old(target)@
                },
            },
    {
        if words.len() > target.len() / 2 || words.is_empty() {
            return Err(Error::BufferSize);
        }
        let room = target.len();
        let mut i: usize = 0;
        while i < words.len()
            invariant
                i <= words@.len(),
                2 * words@.len() <= target@.len(),
                target@.len() == old(target)@.len(),
                target@.len() == room,
                target@ =~= be_words(words@.take(i as int)) + old(target)@.skip(2 * i),
            decreases words@.len() - i,
        {
            let (_, rest) = target.split_at_mut(i * 2);
            write_u16_be(rest, words[i]);
            i = i + 1;
        }
        proof {
            assert(words@.take(i as int) =~= words@);
        }
        let whole: &'d [u8] = target;
        let data: &'d [u8] = &whole[0..2 * words.len()];
        let r = Data { data, quantity: words.len() };
        proof {
            assert(r.data@ =~= be_words(words@));
            assert forall|k: int| 0 <= k < words@.len() implies #[trigger] word_at(r.data@, k)
                == words@[k] by {
                assert(r.data@[2 * k] == be_words(words@)[2 * k]);
                assert(r.data@[2 * k + 1] == be_words(words@)[2 * k + 1]);
            }
            assert(r@.words() =~= words@);
        }
        Ok(r)
    }

    /// Takes a whole buffer as words: it must hold a whole number of them,
    /// and at least one.
    pub fn try_from(value: &'d [u8]) -> (r: Result<Self, DataFromBufferError>)
        ensures
            r is Ok <==> value@.len() > 0 && value@.len() % 2 == 0,
            r matches Ok(data) ==> data.data@ == value@ && data.quantity == value@.len() / 2
                && data.wf() && data@.is_exact(),
    {
        if value.is_empty() || value.len() % 2 != 0 {
            Err(DataFromBufferError)
        } else {
            Ok(Data { data: value, quantity: value.len() / 2 })
        }
    }

    /// Takes an array as words; a last byte without a partner belongs to no
    /// word and is left out of the view.
    pub fn from<const N: usize>(value: &'d [u8; N]) -> (data: Self)
        ensures
            data.data@ == value@.take(2 * (N / 2)),
            data.quantity == N / 2,
            data.wf(),
            data@.is_exact(),
    {
        let whole: &'d [u8] = value.as_slice();
        let bytes: &'d [u8] = &whole[0..2 * (N / 2)];
        Data { data: bytes, quantity: N / 2 }
    }

    /// Copies the bytes that carry the words to the front of `buf`.
    pub fn copy_to(&self, buf: &mut [u8])
        requires
            self.wf(),
            old(buf)@.len() >= 2 * self@.quantity,
        ensures
            final(buf)@ == self@.packed() + old(buf)@.skip(2 * self@.quantity as int),
    {
        let room = self.data.len();
        let cnt = self.quantity * 2;
        let mut idx: usize = 0;
        while idx < cnt
            invariant
                idx <= cnt,
                cnt == 2 * self@.quantity,
                cnt <= self.data@.len(),
                buf@.len() == old(buf)@.len(),
                buf@.len() >= cnt,
                buf@ =~= self.data@.take(idx as int) + old(buf)@.skip(idx as int),
            decreases cnt - idx,
        {
            buf[idx] = self.data[idx];
            idx = idx + 1;
        }
    }

    /// The quantity of words.
    pub fn len(&self) -> (n: usize)
        ensures
            n == self@.quantity,
    {
        self.quantity
    }

    /// Whether there is no word.
    pub fn is_empty(&self) -> (b: bool)
        ensures
            b <==> self@.quantity == 0,
    {
        self.quantity == 0
    }

    /// A specific word, or nothing at and after the declared quantity.
    pub fn get(&self, idx: usize) -> (r: Option<Word>)
        requires
            self.wf(),
        ensures
            r == self@.get(idx as int),
            r is None <==> idx >= self@.quantity,
    {
        if idx >= self.quantity {
            return None;
        }
        let room = self.data.len();
        let start = idx * 2;
        Some(read_u16_be(&self.data[start..start + 2]))
    }

    /// The bytes that the view refers to.
    pub fn payload(&self) -> (bytes: &'d [u8])
        ensures
            bytes@ == self@.data,
    {
        self.data
    }

    /// A cursor at the first word.
    pub fn into_iter(self) -> (iter: DataIter<'d>)
        ensures
            iter.cnt == 0,
            iter.data == self,
    {
        DataIter { cnt: 0, data: self }
    }
}

/// A cursor over words: it yields each word once, in order, and then nothing.
#[derive(Debug, Clone, PartialEq, Eq)]
pub struct DataIter<'d> {
    pub cnt: usize,
    pub data: Data<'d>,
}

impl<'d> DataIter<'d> {
    /// The word at the cursor, which then moves on; nothing once all words
    /// have been yielded.
    pub fn next(&mut self) -> (r: Option<Word>)
        requires
            old(self).data.wf(),
        ensures
            r == old(self).data@.get(old(self).cnt as int),
            final(self).data == old(self).data,
            final(self).cnt == if r is Some {
                old(self).cnt + 1
            } else {
                old(self).cnt as int
            },
    {
        let result = self.data.get(self.cnt);
        if result.is_some() {
            self.cnt = self.cnt + 1;
        }
        result
    }
}

} // verus!
