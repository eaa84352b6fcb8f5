//! A read cursor confined to a window of a byte buffer.
//!
//! Every nested record of an AVI file declares its own size. Parsing such a
//! record through a [`SubReader`] cut to that size keeps the record from
//! reading past its end, whatever its contents claim.

use vstd::prelude::*;
use crate::bytes::{le_i32, le_u16, le_u32};
use crate::error::{fails, AviError, ErrorKind};

verus! {

/// Whether a read did what the format asks of it: `expected` gives either the
/// value read together with the position after it, or the category of the
/// failure. The window never changes.
pub open spec fn parsed<T: View>(
    res: Result<T, AviError>,
    after: SubReader,
    before: SubReader,
    expected: Result<(T::V, int), ErrorKind>,
) -> bool {
    &&& after.same_window(&before)
    &&& match expected {
        Ok((value, next)) => (res matches Ok(x) && x@ == value) && after.position() == next,
        Err(k) => fails(res, k),
    }
}

/// The views of the items of a sequence, one for one.
pub open spec fn views<T: View>(items: Seq<T>) -> Seq<T::V> {
    items.map_values(|item: T| item@)
}

/// Whether a read of a whole window did what the format asks of it: `expected`
/// gives either the values read, in order, or the category of the failure.
/// After a success the cursor stands at the end of the window.
pub open spec fn parsed_all<T: View>(
    res: Result<Vec<T>, AviError>,
    after: SubReader,
    before: SubReader,
    expected: Result<Seq<T::V>, ErrorKind>,
) -> bool {
    &&& after.same_window(&before)
    &&& match expected {
        Ok(values) => (res matches Ok(items) && views(items@) == values) && after.position()
            == after.limit(),
        Err(k) => fails(res, k),
    }
}

/// A cursor over the bytes `first() .. limit()` of a buffer. Positions are
/// absolute: they count from the start of the buffer, not of the window.
pub struct SubReader<'a> {
    data: &'a [u8],
    start: usize,
    pos: usize,
    end: usize,
}

impl<'a> SubReader<'a> {
    #[verifier::type_invariant]
    spec fn in_bounds(self) -> bool {
        self.start <= self.pos <= self.end <= self.data@.len()
    }

    /// The whole underlying buffer.
    pub closed spec fn source(&self) -> Seq<u8> {
        self.data@
    }

    /// Where the window begins.
    pub closed spec fn first(&self) -> int {
        self.start as int
    }

    /// Where the next read begins.
    pub closed spec fn position(&self) -> int {
        self.pos as int
    }

    /// Where the window ends: no read reaches this position or beyond.
    pub closed spec fn limit(&self) -> int {
        self.end as int
    }

    /// Whether two readers look at the same window of the same buffer.
    pub open spec fn same_window(&self, other: &Self) -> bool {
        &&& self.source() == other.source()
        &&& self.first() == other.first()
        &&& self.limit() == other.limit()
    }

    /// Whether `n` more bytes can be read.
    pub open spec fn has(&self, n: int) -> bool {
        self.position() + n <= self.limit()
    }

    /// What a read of `n` bytes does when they are there: the window stays,
    /// the cursor moves past them.
    pub open spec fn advanced(&self, before: &Self, n: int) -> bool {
        &&& self.same_window(before)
        &&& self.position() == before.position() + n
    }

    /// Whether this reader is the window of the next `n` bytes of `outer`,
    /// with its cursor at the window's start.
    pub open spec fn is_cut_from(&self, outer: &Self, n: int) -> bool {
        &&& self.source() == outer.source()
        &&& self.first() == outer.position()
        &&& self.position() == outer.position()
        &&& self.limit() == outer.position() + n
    }

    /// A reader over the whole of `data`.
    pub fn new(data: &'a [u8]) -> (r: Self)
        ensures
            r.source() == data@,
            r.first() == 0,
            r.position() == 0,
            r.limit() == data@.len(),
    {
        SubReader { data, start: 0, pos: 0, end: data.len() }
    }

    /// The cursor's absolute position.
    pub fn pos(&self) -> (p: usize)
        ensures
            p == self.position(),
            0 <= self.first() <= p <= self.limit() <= self.source().len(),
    {
        proof {
            use_type_invariant(self);
        }
        self.pos
    }

    /// The absolute position at which the window ends.
    pub fn end(&self) -> (e: usize)
        ensures
            e == self.limit(),
            0 <= self.first() <= self.position() <= e <= self.source().len(),
    {
        proof {
            use_type_invariant(self);
        }
        self.end
    }

    /// How many bytes are left in the window.
    pub fn remaining(&self) -> (n: usize)
        ensures
            n == self.limit() - self.position(),
    {
        proof {
            use_type_invariant(self);
        }
        self.end - self.pos
    }

    /// Moves the cursor to the absolute position `to`, which must lie in the
    /// window or at its end.
    pub fn seek(&mut self, to: usize) -> (res: Result<(), AviError>)
        ensures
            final(self).same_window(old(self)),
            old(self).first() <= to <= old(self).limit() ==> res is Ok && final(self).position()
                == to,
            !(old(self).first() <= to <= old(self).limit()) ==> fails(
                res,
                ErrorKind::PointerOutOfRange,
            ) && final(self).position() == old(self).position(),
    {
        proof {
            use_type_invariant(&*self);
        }
        if self.start <= to && to <= self.end {
            self.pos = to;
            Ok(())
        } else {
            Err(AviError::PointerOutOfRange)
        }
    }

    /// Moves the cursor `n` bytes forward.
    pub fn skip(&mut self, n: usize) -> (res: Result<(), AviError>)
        ensures
            final(self).same_window(old(self)),
            old(self).has(n as int) ==> res is Ok && final(self).advanced(old(self), n as int),
            !old(self).has(n as int) ==> fails(res, ErrorKind::PointerOutOfRange)
                && final(self).position() == old(self).position(),
    {
        proof {
            use_type_invariant(&*self);
        }
        if n <= self.end - self.pos {
            self.pos = self.pos + n;
            Ok(())
        } else {
            Err(AviError::PointerOutOfRange)
        }
    }

    /// Cuts the next `n` bytes off as a window of their own and moves this
    /// cursor past them.
    pub fn take(&mut self, n: usize) -> (res: Result<SubReader<'a>, AviError>)
        ensures
            final(self).same_window(old(self)),
            old(self).has(n as int) ==> final(self).advanced(old(self), n as int) && (
            res matches Ok(sub) && sub.is_cut_from(old(self), n as int)),
            !old(self).has(n as int) ==> fails(res, ErrorKind::PointerOutOfRange)
                && final(self).position() == old(self).position(),
    {
        proof {
            use_type_invariant(&*self);
        }
        if n <= self.end - self.pos {
            let sub = SubReader {
                data: self.data,
                start: self.pos,
                pos: self.pos,
                end: self.pos + n,
            };
            self.pos = self.pos + n;
            Ok(sub)
        } else {
            Err(AviError::PointerOutOfRange)
        }
    }

    /// Reads one byte.
    pub fn read_u8(&mut self) -> (res: Result<u8, AviError>)
        ensures
            final(self).same_window(old(self)),
            old(self).has(1) ==> final(self).advanced(old(self), 1) && res == Ok::<u8, AviError>(
                old(self).source()[old(self).position()],
            ),
            !old(self).has(1) ==> fails(res, ErrorKind::PointerOutOfRange)
                && final(self).position() == old(self).position(),
    {
        proof {
            use_type_invariant(&*self);
        }
        if 1 <= self.end - self.pos {
            let b = self.data[self.pos];
            self.pos = self.pos + 1;
            Ok(b)
        } else {
            Err(AviError::PointerOutOfRange)
        }
    }

    /// Reads an unsigned 16-bit little-endian value.
    pub fn read_u16(&mut self) -> (res: Result<u16, AviError>)
        ensures
            final(self).same_window(old(self)),
            old(self).has(2) ==> final(self).advanced(old(self), 2) && res == Ok::<u16, AviError>(
                le_u16(old(self).source(), old(self).position()),
            ),
            !old(self).has(2) ==> fails(res, ErrorKind::PointerOutOfRange)
                && final(self).position() == old(self).position(),
    {
        proof {
            use_type_invariant(&*self);
        }
        if 2 <= self.end - self.pos {
            let b0 = self.data[self.pos] as u16;
            let b1 = self.data[self.pos + 1] as u16;
            self.pos = self.pos + 2;
            Ok(b0 + 256 * b1)
        } else {
            Err(AviError::PointerOutOfRange)
        }
    }

    /// Reads an unsigned 32-bit little-endian value.
    pub fn read_u32(&mut self) -> (res: Result<u32, AviError>)
        ensures
            final(self).same_window(old(self)),
            old(self).has(4) ==> final(self).advanced(old(self), 4) && res == Ok::<u32, AviError>(
                le_u32(old(self).source(), old(self).position()),
            ),
            !old(self).has(4) ==> fails(res, ErrorKind::PointerOutOfRange)
                && final(self).position() == old(self).position(),
    {
        proof {
            use_type_invariant(&*self);
        }
        if 4 <= self.end - self.pos {
            let b0 = self.data[self.pos] as u32;
            let b1 = self.data[self.pos + 1] as u32;
            let b2 = self.data[self.pos + 2] as u32;
            let b3 = self.data[self.pos + 3] as u32;
            self.pos = self.pos + 4;
            Ok(b0 + 256 * b1 + 65536 * b2 + 16777216 * b3)
        } else {
            Err(AviError::PointerOutOfRange)
        }
    }

    /// Reads a signed 32-bit little-endian value.
    pub fn read_i32(&mut self) -> (res: Result<i32, AviError>)
        ensures
            final(self).same_window(old(self)),
            old(self).has(4) ==> final(self).advanced(old(self), 4) && res == Ok::<i32, AviError>(
                le_i32(old(self).source(), old(self).position()),
            ),
            !old(self).has(4) ==> fails(res, ErrorKind::PointerOutOfRange)
                && final(self).position() == old(self).position(),
    {
        match self.read_u32() {
            Ok(u) => {
                if u < 0x8000_0000 {
                    Ok(u as i32)
                } else {
                    let low: i32 = (u - 0x8000_0000) as i32;
                    Ok(low + i32::MIN)
                }
            },
            Err(e) => Err(e),
        }
    }

    /// Reads a four-byte tag.
    pub fn read_tag(&mut self) -> (res: Result<[u8; 4], AviError>)
        ensures
            final(self).same_window(old(self)),
            old(self).has(4) ==> final(self).advanced(old(self), 4) && (res matches Ok(t) && t@
                == old(self).source().subrange(old(self).position(), old(self).position() + 4)),
            !old(self).has(4) ==> fails(res, ErrorKind::PointerOutOfRange)
                && final(self).position() == old(self).position(),
    {
        proof {
            use_type_invariant(&*self);
        }
        if 4 <= self.end - self.pos {
            let t: [u8; 4] = [
                self.data[self.pos],
                self.data[self.pos + 1],
                self.data[self.pos + 2],
                self.data[self.pos + 3],
            ];
            assert(t@ =~= self.data@.subrange(self.pos as int, self.pos + 4));
            self.pos = self.pos + 4;
            Ok(t)
        } else {
            Err(AviError::PointerOutOfRange)
        }
    }

    /// Looks at the next four bytes without moving: `None` where fewer are
    /// left in the window.
    pub fn peek_tag(&self) -> (res: Option<[u8; 4]>)
        ensures
            self.has(4) ==> (res matches Some(t) && t@ == self.source().subrange(
                self.position(),
                self.position() + 4,
            )),
            !self.has(4) ==> res is None,
    {
        proof {
            use_type_invariant(self);
        }
        if 4 <= self.end - self.pos {
            let t: [u8; 4] = [
                self.data[self.pos],
                self.data[self.pos + 1],
                self.data[self.pos + 2],
                self.data[self.pos + 3],
            ];
            assert(t@ =~= self.data@.subrange(self.pos as int, self.pos + 4));
            Some(t)
        } else {
            None
        }
    }

    /// Reads the next `n` bytes into a buffer of their own.
    pub fn read_bytes(&mut self, n: usize) -> (res: Result<Vec<u8>, AviError>)
        ensures
            final(self).same_window(old(self)),
            old(self).has(n as int) ==> final(self).advanced(old(self), n as int) && (
            res matches Ok(v) && v@ == old(self).source().subrange(
                old(self).position(),
                old(self).position() + n,
            )),
            !old(self).has(n as int) ==> fails(res, ErrorKind::PointerOutOfRange)
                && final(self).position() == old(self).position(),
    {
        proof {
            use_type_invariant(&*self);
        }
        if n <= self.end - self.pos {
            let data = self.data;
            let from = self.pos;
            let mut out: Vec<u8> = Vec::new();
            let mut i: usize = 0;
            while i < n
                invariant
                    i <= n,
                    from + n <= data.len(),
                    out@ == data@.subrange(from as int, from + i),
                decreases n - i,
            {
                out.push(data[from + i]);
                assert(out@ =~= data@.subrange(from as int, from + i + 1));
                i = i + 1;
            }
            self.pos = from + n;
            Ok(out)
        } else {
            Err(AviError::PointerOutOfRange)
        }
    }
}

} // verus!
