//! An input byte stream with a one-byte lookahead, used when decoding a
//! tagged value whose tag must be inspected before the body is read.

use vstd::prelude::*;

verus! {

/// A decoding failure.
#[derive(Clone, Copy, Debug, PartialEq, Eq, Structural, Hash)]
pub enum DecodeError {
    /// The input ended before the value did.
    NotEnoughData,
    /// The recursion depth limit was reached.
    DepthLimit,
}

/// An input byte stream. `data()` is what remains to be read; reading a
/// byte consumes the front of it.
pub trait Input: Sized {
    spec fn inv(&self) -> bool;

    spec fn data(&self) -> Seq<u8>;

    /// How many bytes remain, when the source knows.
    fn remaining_len(&mut self) -> (r: Result<Option<usize>, DecodeError>)
        requires
            old(self).inv(),
        ensures
            final(self).inv(),
            final(self).data() == old(self).data(),
            match r {
                Ok(Some(l)) => l == old(self).data().len(),
                Ok(None) => true,
                Err(_) => false,
            },
    ;

    /// The next byte; consumed. Fails exactly when nothing remains.
    fn read_byte(&mut self) -> (r: Result<u8, DecodeError>)
        requires
            old(self).inv(),
        ensures
            final(self).inv(),
            match r {
                Ok(b) => old(self).data().len() > 0 && b == old(self).data()[0] && final(self).data() == old(self).data().drop_first(),
                Err(e) => e == DecodeError::NotEnoughData && old(self).data().len() == 0 && final(self).data() == old(self).data(),
            },
    ;

    /// Fills `into` from the front of the stream. Fails exactly when fewer
    /// bytes remain than `into` holds, consuming nothing.
    fn read(&mut self, into: &mut Vec<u8>) -> (r: Result<(), DecodeError>)
        requires
            old(self).inv(),
        ensures
            final(self).inv(),
            final(into)@.len() == old(into)@.len(),
            match r {
                Ok(()) => old(self).data().len() >= old(into)@.len() && final(into)@ == old(self).data().take(old(into)@.len() as int) && final(self).data() == old(self).data().skip(old(into)@.len() as int),
                Err(e) => e == DecodeError::NotEnoughData && old(self).data().len() < old(into)@.len() && final(self).data() == old(self).data(),
            },
    ;

    /// Leaves a nested reference; the stream is unchanged.
    fn ascend_ref(&mut self)
        requires
            old(self).inv(),
        ensures
            final(self).inv(),
            final(self).data() == old(self).data(),
    ;

    /// Enters a nested reference; the stream is unchanged, and a source
    /// with a depth limit may refuse.
    fn descend_ref(&mut self) -> (r: Result<(), DecodeError>)
        requires
            old(self).inv(),
        ensures
            final(self).inv(),
            final(self).data() == old(self).data(),
    ;
}

/// A stream over an owned byte vector.
pub struct ByteInput {
    pub bytes: Vec<u8>,
    pub pos: usize,
}

impl ByteInput {
    pub fn new(bytes: Vec<u8>) -> (r: ByteInput)
        ensures
            r.inv(),
            r.data() == bytes@,
    {
        let r = ByteInput { bytes, pos: 0 };
        proof {
            assert(r.data() =~= r.bytes@);
        }
        r
    }
}

impl Input for ByteInput {
    open spec fn inv(&self) -> bool {
        self.pos <= self.bytes@.len()
    }

    open spec fn data(&self) -> Seq<u8> {
        self.bytes@.skip(self.pos as int)
    }

    fn remaining_len(&mut self) -> (r: Result<Option<usize>, DecodeError>) {
        Ok(Some(self.bytes.len() - self.pos))
    }

    fn read_byte(&mut self) -> (r: Result<u8, DecodeError>) {
        if self.pos < self.bytes.len() {
            let b = self.bytes[self.pos];
            self.pos = self.pos + 1;
            proof {
                assert(self.data() =~= old(self).data().drop_first());
            }
            Ok(b)
        } else {
            Err(DecodeError::NotEnoughData)
        }
    }

    fn read(&mut self, into: &mut Vec<u8>) -> (r: Result<(), DecodeError>) {
        let wanted = into.len();
        let total = self.bytes.len();
        if total - self.pos < wanted {
            return Err(DecodeError::NotEnoughData);
        }
        let mut i: usize = 0;
        while i < wanted
            invariant
                i <= wanted,
                wanted == into@.len(),
                self.inv(),
                total == self.bytes@.len(),
                self.bytes@ == old(self).bytes@,
                self.pos == old(self).pos,
                old(self).bytes@.len() - old(self).pos >= wanted,
                forall|j: int| 0 <= j < i ==> into@[j] == old(self).data()[j],
            decreases wanted - i,
        {
            let b = self.bytes[self.pos + i];
            into.set(i, b);
            i = i + 1;
        }
        self.pos = self.pos + wanted;
        proof {
            assert(into@ =~= old(self).data().take(wanted as int));
            assert(self.data() =~= old(self).data().skip(wanted as int));
        }
        Ok(())
    }

    fn ascend_ref(&mut self) {
    }

    fn descend_ref(&mut self) -> (r: Result<(), DecodeError>) {
        Ok(())
    }
}

/// The one-byte lookahead over an input stream. Peeking reads a byte from
/// the source and keeps it; the stream's remaining data is unchanged until
/// the byte is consumed.
pub struct Peekable<I> {
    pub init: Option<u8>,
    pub inner: I,
}

impl<I: Input> Peekable<I> {
    pub open spec fn inv(&self) -> bool {
        self.inner.inv()
    }

    /// What remains to be read: the peeked byte, if one is held, then the
    /// source's remaining data.
    pub open spec fn data(&self) -> Seq<u8> {
        match self.init {
            Some(b) => seq![b] + self.inner.data(),
            None => self.inner.data(),
        }
    }

    /// Whether the peeked tag byte, if any, has been consumed again.
    pub open spec fn is_consumed(&self) -> bool {
        self.init is None
    }

    /// A new peekable stream over `inner`.
    pub fn new(inner: I) -> (r: Self)
        requires
            inner.inv(),
        ensures
            r.inv(),
            r.data() == inner.data(),
            r.is_consumed(),
    {
        Peekable { init: None, inner }
    }

    /// The next byte, without consuming it.
    pub fn peek(&mut self) -> (r: Result<u8, DecodeError>)
        requires
            old(self).inv(),
        ensures
            final(self).inv(),
            final(self).data() == old(self).data(),
            match r {
                Ok(b) => old(self).data().len() > 0 && b == old(self).data()[0] && !final(self).is_consumed(),
                Err(e) => e == DecodeError::NotEnoughData && old(self).data().len() == 0,
            },
    {
        match self.init {
            Some(b) => Ok(b),
            None => match self.inner.read_byte() {
                Ok(b) => {
                    self.init = Some(b);
                    proof {
                        assert(self.data() =~= old(self).data());
                    }
                    Ok(b)
                },
                Err(e) => Err(e),
            },
        }
    }

    /// The decoder calls this once the tag has been read through `read` or
    /// `read_byte`; a held lookahead byte here is a decoder bug, which the
    /// caller rules out.
    pub fn assert_tag_consumed(&self)
        requires
            self.is_consumed(),
    {
    }
}

impl<I: Input> Input for Peekable<I> {
    open spec fn inv(&self) -> bool {
        Peekable::inv(self)
    }

    open spec fn data(&self) -> Seq<u8> {
        Peekable::data(self)
    }

    fn remaining_len(&mut self) -> (r: Result<Option<usize>, DecodeError>) {
        let extra: usize = if self.init.is_some() {
            1
        } else {
            0
        };
        match self.inner.remaining_len() {
            Ok(Some(l)) => {
                if l <= usize::MAX - extra {
                    Ok(Some(l + extra))
                } else {
                    Ok(None)
                }
            },
            Ok(None) => Ok(None),
            Err(e) => Err(e),
        }
    }

    fn read_byte(&mut self) -> (r: Result<u8, DecodeError>) {
        match self.init {
            Some(b) => {
                self.init = None;
                proof {
                    assert(Peekable::data(self) =~= Peekable::data(&*old(self)).drop_first());
                }
                Ok(b)
            },
            None => self.inner.read_byte(),
        }
    }

    fn read(&mut self, into: &mut Vec<u8>) -> (r: Result<(), DecodeError>) {
        match self.init {
            None => self.inner.read(into),
            Some(b) => {
                if into.len() == 0 {
                    proof {
                        assert(into@ =~= Peekable::data(self).take(0));
                        assert(Peekable::data(self) =~= Peekable::data(self).skip(0));
                    }
                    return Ok(());
                }
                // The lookahead byte fills the first slot; the source fills
                // the rest, or nothing moves.
                let rest_len = into.len() - 1;
                let mut rest: Vec<u8> = Vec::new();
                let mut i: usize = 0;
                while i < rest_len
                    invariant
                        i <= rest_len,
                        rest@.len() == i,
                    decreases rest_len - i,
                {
                    rest.push(0);
                    i = i + 1;
                }
                match self.inner.read(&mut rest) {
                    Ok(()) => {
                        self.init = None;
                        into.set(0, b);
                        let mut j: usize = 0;
                        let ghost inner_read = rest@;
                        while j < rest_len
                            invariant
                                j <= rest_len,
                                rest_len == rest@.len(),
                                rest@ == inner_read,
                                into@.len() == rest_len + 1,
                                into@[0] == b,
                                forall|k: int| 0 <= k < j ==> into@[k + 1] == rest@[k],
                            decreases rest_len - j,
                        {
                            let v = rest[j];
                            into.set(j + 1, v);
                            j = j + 1;
                        }
                        proof {
                            let full = Peekable::data(&*old(self));
                            assert(full =~= seq![b] + old(self).inner.data());
                            assert(inner_read == old(self).inner.data().take(rest_len as int));
                            assert(into@.len() == rest_len + 1);
                            assert(full[0] == b);
                            assert forall|t: int| 0 <= t < into@.len() implies into@[t]
                                == full.take(into@.len() as int)[t] by {
                                if t > 0 {
                                    assert(into@[t] == rest@[t - 1]);
                                    assert(rest@[t - 1] == old(self).inner.data().take(
                                        rest_len as int,
                                    )[t - 1]);
                                    assert(full[t] == old(self).inner.data()[t - 1]);
                                }
                            }
                            assert(into@ =~= full.take(into@.len() as int));
                            assert(Peekable::data(self) =~= Peekable::data(&*old(self)).skip(
                                into@.len() as int,
                            ));
                        }
                        Ok(())
                    },
                    Err(e) => Err(e),
                }
            },
        }
    }

    fn ascend_ref(&mut self) {
        self.inner.ascend_ref()
    }

    fn descend_ref(&mut self) -> (r: Result<(), DecodeError>) {
        self.inner.descend_ref()
    }
}

} // verus!
