//! Reading the bytes of a pickle, which may come in frames: a frame is a run of
//! bytes announced by its length, and reads are served from the current frame
//! until it is used up.

use vstd::prelude::*;

use crate::bigint::{byte_base, signed_le_value, unsigned_le_value};
use crate::error::Error;

verus! {

/// Reads the bytes of a pickle, from the current frame if there is one.
pub struct Unframer<'a> {
    data: &'a [u8],
    current_frame: Option<&'a [u8]>,
}

/// What an unframer holds: the bytes of the stream not yet read, and the bytes of
/// the current frame not yet read, if there is a frame.
pub struct UnframerModel {
    pub data: Seq<u8>,
    pub frame: Option<Seq<u8>>,
}

impl<'a> View for Unframer<'a> {
    type V = UnframerModel;

    closed spec fn view(&self) -> UnframerModel {
        UnframerModel {
            data: self.data@,
            frame: match self.current_frame {
                Some(f) => Some(f@),
                None => None,
            },
        }
    }
}

/// There is no frame, or it has been read to its end.
pub open spec fn frame_finished(m: UnframerModel) -> bool {
    match m.frame {
        Some(f) => f.len() == 0,
        None => true,
    }
}

/// What `read_exact(len)` does: the `len` next bytes of the current frame, or of the
/// stream if no frame is left, and the state after.
pub open spec fn read_exact_spec(m: UnframerModel, len: nat) -> Result<(Seq<u8>, UnframerModel), Error> {
    if !frame_finished(m) {
        let f = m.frame.unwrap();
        if len <= f.len() {
            Ok((f.take(len as int), UnframerModel { frame: Some(f.skip(len as int)), ..m }))
        } else {
            Err(Error::FrameExhausted)
        }
    } else {
        if len <= m.data.len() {
            Ok(
                (
                    m.data.take(len as int),
                    UnframerModel { data: m.data.skip(len as int), frame: None },
                ),
            )
        } else {
            Err(Error::StreamExhausted)
        }
    }
}

/// The state after a failed read: a finished frame is dropped.
pub open spec fn after_failed_read(m: UnframerModel) -> UnframerModel {
    if frame_finished(m) {
        UnframerModel { frame: None, ..m }
    } else {
        m
    }
}

/// What `read_byte` and the other fixed-size reads do: read the bytes, then the
/// value of those bytes as `value` gives it.
pub open spec fn read_value_spec(
    m: UnframerModel,
    len: nat,
    value: spec_fn(Seq<u8>) -> int,
) -> Result<(int, UnframerModel), Error> {
    match read_exact_spec(m, len) {
        Ok((bytes, next)) => Ok((value(bytes), next)),
        Err(e) => Err(e),
    }
}

/// What `load_frame(size)` does: a new frame may only start when the current one is
/// finished; it holds the next `size` bytes of the stream.
pub open spec fn load_frame_spec(m: UnframerModel, size: u64) -> Result<UnframerModel, Error> {
    if !frame_finished(m) {
        Err(Error::FrameNotFinished)
    } else if size > usize::MAX {
        Err(Error::FrameTooLarge)
    } else {
        match read_exact_spec(m, size as nat) {
            Ok((bytes, next)) => Ok(UnframerModel { frame: Some(bytes), ..next }),
            Err(e) => Err(e),
        }
    }
}

/// The value of up to eight bytes read as an unsigned number, least significant first.
fn le_unsigned(bytes: &[u8]) -> (r: u64)
    requires
        bytes@.len() <= 8,
    ensures
        r == unsigned_le_value(bytes@),
{
    let mut acc: u64 = 0;
    let mut i: usize = bytes.len();
    proof {
        assert(bytes@.skip(i as int) =~= Seq::<u8>::empty());
    }
    while i > 0
        invariant
            0 <= i <= bytes@.len() <= 8,
            acc == unsigned_le_value(bytes@.skip(i as int)),
            unsigned_le_value(bytes@.skip(i as int)) < byte_base((bytes@.len() - i) as nat),
        decreases i,
    {
        proof {
            let s = bytes@.skip(i - 1);
            assert(s.drop_first() =~= bytes@.skip(i as int));
            assert(s[0] == bytes@[i - 1]);
            lemma_byte_base_8((bytes@.len() - i) as nat);
        }
        acc = acc * 256 + bytes[i - 1] as u64;
        i -= 1;
    }
    proof {
        assert(bytes@.skip(0) =~= bytes@);
    }
    acc
}

proof fn lemma_byte_base_8(n: nat)
    requires
        n < 8,
    ensures
        byte_base(n) * 256 <= 0x1_0000_0000_0000_0000,
        byte_base(n + 1) == byte_base(n) * 256,
{
    reveal_with_fuel(byte_base, 9);
}

impl<'a> Unframer<'a> {
    pub fn new(data: &'a [u8]) -> (r: Unframer<'a>)
        ensures
            r@ == (UnframerModel { data: data@, frame: None }),
    {
        Unframer { data, current_frame: None }
    }

    /// Whether there is no frame, or it has been read to its end.
    pub fn current_frame_is_finished(&self) -> (r: bool)
        ensures
            r == frame_finished(self@),
    {
        match self.current_frame {
            Some(f) => f.len() == 0,
            None => true,
        }
    }

    /// The next `len` bytes.
    pub fn read_exact(&mut self, len: usize) -> (r: Result<&'a [u8], Error>)
        ensures
            match read_exact_spec(old(self)@, len as nat) {
                Ok((bytes, next)) => r matches Ok(b) && b@ == bytes && final(self)@ == next,
                Err(e) => r matches Err(x) && x == e && final(self)@ == after_failed_read(old(self)@),
            },
    {
        if self.current_frame_is_finished() {
            self.current_frame = None;
        }
        match self.current_frame {
            Some(frame) => {
                if len <= frame.len() {
                    let (data, rest) = frame.split_at(len);
                    self.current_frame = Some(rest);
                    proof {
                        assert(data@ =~= old(self)@.frame.unwrap().take(len as int));
                        assert(rest@ =~= old(self)@.frame.unwrap().skip(len as int));
                    }
                    Ok(data)
                } else {
                    Err(Error::FrameExhausted)
                }
            },
            None => {
                if len <= self.data.len() {
                    let (data, rest) = self.data.split_at(len);
                    self.data = rest;
                    proof {
                        assert(data@ =~= old(self)@.data.take(len as int));
                        assert(rest@ =~= old(self)@.data.skip(len as int));
                    }
                    Ok(data)
                } else {
                    Err(Error::StreamExhausted)
                }
            },
        }
    }
}

impl<'a> Unframer<'a> {
    pub fn read_byte(&mut self) -> (r: Result<u8, Error>)
        ensures
            match read_exact_spec(old(self)@, 1) {
                Ok((bytes, next)) => r matches Ok(v) && v == bytes[0] && final(self)@ == next,
                Err(e) => r matches Err(x) && x == e && final(self)@ == after_failed_read(old(self)@),
            },
    {
        let data = self.read_exact(1)?;
        Ok(data[0])
    }

    pub fn read_u16(&mut self) -> (r: Result<u16, Error>)
        ensures
            match read_exact_spec(old(self)@, 2) {
                Ok((bytes, next)) => r matches Ok(v) && v == unsigned_le_value(bytes) && final(self)@ == next,
                Err(e) => r matches Err(x) && x == e && final(self)@ == after_failed_read(old(self)@),
            },
    {
        let data = self.read_exact(2)?;
        let v = le_unsigned(data);
        proof {
            lemma_unsigned_le_bound(data@);
            reveal_with_fuel(byte_base, 3);
        }
        Ok(v as u16)
    }

    pub fn read_u32(&mut self) -> (r: Result<u32, Error>)
        ensures
            match read_exact_spec(old(self)@, 4) {
                Ok((bytes, next)) => r matches Ok(v) && v == unsigned_le_value(bytes) && final(self)@ == next,
                Err(e) => r matches Err(x) && x == e && final(self)@ == after_failed_read(old(self)@),
            },
    {
        let data = self.read_exact(4)?;
        let v = le_unsigned(data);
        proof {
            lemma_unsigned_le_bound(data@);
            reveal_with_fuel(byte_base, 5);
        }
        Ok(v as u32)
    }

    /// Four bytes read as a two's complement number.
    pub fn read_i32(&mut self) -> (r: Result<i32, Error>)
        ensures
            match read_exact_spec(old(self)@, 4) {
                Ok((bytes, next)) => r matches Ok(v) && v == signed_le_value(bytes) && final(self)@ == next,
                Err(e) => r matches Err(x) && x == e && final(self)@ == after_failed_read(old(self)@),
            },
    {
        let data = self.read_exact(4)?;
        let v = le_unsigned(data);
        proof {
            lemma_unsigned_le_bound(data@);
            reveal_with_fuel(byte_base, 5);
            lemma_top_byte(data@);
        }
        if v < 0x8000_0000 {
            Ok(v as i32)
        } else {
            Ok(((v - 0x8000_0000) as i32) + i32::MIN)
        }
    }

    pub fn read_u64(&mut self) -> (r: Result<u64, Error>)
        ensures
            match read_exact_spec(old(self)@, 8) {
                Ok((bytes, next)) => r matches Ok(v) && v == unsigned_le_value(bytes) && final(self)@ == next,
                Err(e) => r matches Err(x) && x == e && final(self)@ == after_failed_read(old(self)@),
            },
    {
        let data = self.read_exact(8)?;
        let v = le_unsigned(data);
        Ok(v)
    }

    /// Starts a frame of the next `frame_size` bytes.
    pub fn load_frame(&mut self, frame_size: u64) -> (r: Result<(), Error>)
        ensures
            match load_frame_spec(old(self)@, frame_size) {
                Ok(next) => r is Ok && final(self)@ == next,
                Err(e) => r matches Err(x) && x == e && (frame_finished(old(self)@) && frame_size
                    <= usize::MAX ==> final(self)@ == after_failed_read(old(self)@)) && (!(
                frame_finished(old(self)@) && frame_size <= usize::MAX) ==> final(self)@ == old(self)@),
            },
    {
        if !self.current_frame_is_finished() {
            return Err(Error::FrameNotFinished);
        }
        if frame_size > usize::MAX as u64 {
            return Err(Error::FrameTooLarge);
        }
        let frame = self.read_exact(frame_size as usize)?;
        self.current_frame = Some(frame);
        Ok(())
    }
}

proof fn lemma_unsigned_le_bound(s: Seq<u8>)
    ensures
        unsigned_le_value(s) < byte_base(s.len()),
    decreases s.len(),
{
    if s.len() > 0 {
        lemma_unsigned_le_bound(s.drop_first());
    }
}

/// For four bytes, the top byte is at least 0x80 exactly when their unsigned value
/// is at least 2^31.
proof fn lemma_top_byte(s: Seq<u8>)
    requires
        s.len() == 4,
    ensures
        (s.last() >= 0x80) == (unsigned_le_value(s) >= 0x8000_0000),
{
    let t = s.drop_first();
    let u = t.drop_first();
    let w = u.drop_first();
    assert(w.drop_first().len() == 0);
    assert(unsigned_le_value(w) == w[0] as nat + 256 * unsigned_le_value(w.drop_first()));
    assert(w[0] == s.last());
    assert(unsigned_le_value(u) == u[0] as nat + 256 * unsigned_le_value(w));
    assert(unsigned_le_value(t) == t[0] as nat + 256 * unsigned_le_value(u));
    assert(unsigned_le_value(s) == s[0] as nat + 256 * unsigned_le_value(t));
}

} // verus!
