//! A growable byte buffer with a write extent and an independent read cursor.
//!
//! The buffer is modelled by the sequence of its written bytes (its view),
//! its cursor, its capacity and its allocation unit. Capacity only grows, in
//! whole allocation units.

use vstd::prelude::*;
use vstd::slice::{slice_subrange, slice_to_vec};

verus! {

/// Allocation unit of a buffer made by `Default`, in bytes.
pub const DEFAULT_UNIT_SIZE: usize = 128;

/// Where a `seek` measures its offset from.
#[derive(Debug)]
pub enum Seek {
    /// From the first written byte.
    Start,
    /// From the cursor.
    Cur,
    /// From behind the last written byte.
    End,
}

/// The least multiple of `unit` that is at least `size`.
pub open spec fn round_up(size: int, unit: int) -> int
    recommends
        0 <= size,
        0 < unit,
{
    if size % unit == 0 {
        size
    } else {
        size - size % unit + unit
    }
}

/// Capacity after making room for `need` bytes: unchanged while `need` fits,
/// else `need` rounded up to the allocation unit. A capacity never exceeds
/// what `usize` can express.
pub open spec fn grown(capacity: int, need: int, unit: int) -> int
    recommends
        0 <= capacity <= usize::MAX,
        0 <= need,
        0 < unit,
{
    if need <= capacity {
        capacity
    } else if round_up(need, unit) <= usize::MAX {
        round_up(need, unit)
    } else {
        usize::MAX as int
    }
}

/// The bytes of a buffer that held `data` after `src` was written at `pos`:
/// the length grows by the written span, the span itself holds `src`, and
/// what else is new reads as zero.
pub open spec fn written_at(data: Seq<u8>, pos: int, src: Seq<u8>) -> Seq<u8>
    recommends
        src.len() == 0 || 0 <= pos <= data.len(),
{
    Seq::new(
        data.len() + src.len(),
        |i: int|
            if pos <= i < pos + src.len() {
                src[i - pos]
            } else if i < data.len() {
                data[i]
            } else {
                0u8
            },
    )
}

/// The position a `seek` moves the cursor to: the base that `mode` names plus
/// `offset`, clamped to the written length.
pub open spec fn seek_target(pos: int, len: int, offset: int, mode: Seek) -> int
    recommends
        0 <= pos <= len,
        0 <= offset,
{
    let base = match mode {
        Seek::Start => 0,
        Seek::Cur => pos,
        Seek::End => len,
    };
    if base + offset <= len {
        base + offset
    } else {
        len
    }
}

/// How many bytes a read of `want` bytes at `pos` yields from `len` written
/// bytes.
pub open spec fn read_len(pos: int, len: int, want: int) -> int
    recommends
        0 <= pos <= len,
        0 <= want,
{
    if want <= len - pos {
        want
    } else {
        len - pos
    }
}

/// The bytes a read of `want` bytes at `pos` yields.
pub open spec fn read_span(data: Seq<u8>, pos: int, want: int) -> Seq<u8>
    recommends
        0 <= pos <= data.len(),
        0 <= want,
{
    data.subrange(pos, pos + read_len(pos, data.len() as int, want))
}

/// The bytes of all `chunks`, in their order.
pub open spec fn concat(chunks: Seq<Seq<u8>>) -> Seq<u8>
    decreases chunks.len(),
{
    if chunks.len() == 0 {
        Seq::empty()
    } else {
        concat(chunks.drop_last()) + chunks.last()
    }
}

/// The number of bytes in all `chunks` together.
pub open spec fn total_len(chunks: Seq<Seq<u8>>) -> nat
    decreases chunks.len(),
{
    if chunks.len() == 0 {
        0
    } else {
        total_len(chunks.drop_last()) + chunks.last().len()
    }
}

/// A contiguous byte store. Writes extend it, reads copy out of it at a
/// cursor that `seek` repositions.
#[derive(Debug)]
pub struct AutoBuffer {
    pos: usize,
    capacity: usize,
    data: Vec<u8>,
    alloc_unit_size: usize,
}

impl View for AutoBuffer {
    type V = Seq<u8>;

    closed spec fn view(&self) -> Seq<u8> {
        self.data@
    }
}

impl AutoBuffer {
    /// What holds of every buffer: the cursor lies within the written bytes,
    /// the written bytes within the capacity, and the capacity is a whole
    /// number of allocation units unless it is all that `usize` can express.
    #[verifier::type_invariant]
    pub closed spec fn valid(self) -> bool {
        &&& self.pos <= self.data.len()
        &&& self.data.len() <= self.capacity
        &&& self.alloc_unit_size > 0
        &&& (self.capacity % self.alloc_unit_size == 0 || self.capacity == usize::MAX)
    }

    /// The cursor.
    pub closed spec fn spec_pos(&self) -> usize {
        self.pos
    }

    /// The capacity.
    pub closed spec fn spec_capacity(&self) -> usize {
        self.capacity
    }

    /// The number of written bytes.
    pub closed spec fn spec_len(&self) -> usize {
        self.data.len()
    }

    /// The unit in which this buffer's capacity grows.
    pub closed spec fn alloc_unit(&self) -> usize {
        self.alloc_unit_size
    }

    /// Whether the buffer has ever reserved storage.
    pub open spec fn is_allocated(&self) -> bool {
        self.capacity() > 0
    }

    /// Whether this buffer is `before` after `src` was written at its
    /// cursor: the bytes are there, the cursor stands behind them and the
    /// capacity has grown to hold them.
    pub open spec fn wrote(self, before: AutoBuffer, src: Seq<u8>) -> bool {
        &&& self@ == written_at(before@, before.pos() as int, src)
        &&& self.pos() == before.pos() + src.len()
        &&& self.alloc_unit() == before.alloc_unit()
        &&& self.capacity() == grown(
            before.capacity() as int,
            (before@.len() + src.len()) as int,
            before.alloc_unit() as int,
        )
    }

    /// Whether this buffer holds what `before` held, at the same cursor.
    pub open spec fn same_as(self, before: AutoBuffer) -> bool {
        &&& self@ == before@
        &&& self.pos() == before.pos()
        &&& self.alloc_unit() == before.alloc_unit()
        &&& self.capacity() == before.capacity()
    }

    /// An empty buffer that will grow in units of `alloc_unit_size` bytes.
    pub fn new(alloc_unit_size: usize) -> (buf: Self)
        requires
            alloc_unit_size > 0,
        ensures
            buf@ == Seq::<u8>::empty(),
            buf.pos() == 0,
            buf.capacity() == 0,
            buf.alloc_unit() == alloc_unit_size,
    {
        assert(0usize % alloc_unit_size == 0) by (nonlinear_arith)
            requires
                alloc_unit_size > 0,
        ;
        AutoBuffer { pos: 0, capacity: 0, data: Vec::new(), alloc_unit_size }
    }

    /// A buffer with the default allocation unit that holds a copy of `src`,
    /// its cursor behind the last byte.
    pub fn new_from(src: &[u8]) -> (buf: Self)
        ensures
            buf@ == src@,
            buf.pos() == src@.len(),
            buf.capacity() == grown(0, src@.len() as int, DEFAULT_UNIT_SIZE as int),
            buf.alloc_unit() == DEFAULT_UNIT_SIZE,
    {
        let mut buf = AutoBuffer::new(DEFAULT_UNIT_SIZE);
        buf.write(src);
        proof {
            lemma_written_at_end(Seq::<u8>::empty(), src@);
        }
        buf
    }

    /// The cursor: the offset at which the next read or write begins.
    #[verifier::when_used_as_spec(spec_pos)]
    pub fn pos(&self) -> (p: usize)
        ensures
            p == self.pos(),
            p <= self@.len(),
    {
        proof {
            use_type_invariant(self);
        }
        self.pos
    }

    /// The capacity: how many bytes the buffer has made room for.
    #[verifier::when_used_as_spec(spec_capacity)]
    pub fn capacity(&self) -> (c: usize)
        ensures
            c == self.capacity(),
            self@.len() <= c,
    {
        proof {
            use_type_invariant(self);
        }
        self.capacity
    }

    /// The number of written bytes.
    #[verifier::when_used_as_spec(spec_len)]
    pub fn len(&self) -> (n: usize)
        ensures
            n == self.len(),
            n == self@.len(),
    {
        self.data.len()
    }

    /// Makes room for `size` bytes behind the cursor. The written bytes and
    /// the cursor stay as they are.
    pub fn add_capacity(&mut self, size: usize)
        ensures
            final(self)@ == old(self)@,
            final(self).pos() == old(self).pos(),
            final(self).alloc_unit() == old(self).alloc_unit(),
            final(self).capacity() == grown(
                old(self).capacity() as int,
                old(self).pos() + size,
                old(self).alloc_unit() as int,
            ),
    {
        proof {
            use_type_invariant(&*self);
        }
        let need: usize = match self.pos.checked_add(size) {
            Some(n) => n,
            None => usize::MAX,
        };
        proof {
            lemma_round_up(old(self).pos() + size, self.alloc_unit_size as int);
            lemma_round_up(need as int, self.alloc_unit_size as int);
        }
        self.grow(need);
    }

    /// Moves the cursor to `offset` bytes behind the start, the cursor or the
    /// end of the written bytes, and no further than that end.
    pub fn seek(&mut self, offset: usize, seek: Seek)
        ensures
            final(self)@ == old(self)@,
            final(self).capacity() == old(self).capacity(),
            final(self).alloc_unit() == old(self).alloc_unit(),
            final(self).pos() == seek_target(
                old(self).pos() as int,
                old(self)@.len() as int,
                offset as int,
                seek,
            ),
    {
        proof {
            use_type_invariant(&*self);
        }
        let len = self.data.len();
        let base: usize = match seek {
            Seek::Start => 0,
            Seek::Cur => self.pos,
            Seek::End => len,
        };
        if offset <= len - base {
            self.pos = base + offset;
        } else {
            self.pos = len;
        }
    }

    /// Writes `src` at the cursor and moves the cursor behind it.
    pub fn write(&mut self, src: &[u8])
        ensures
            final(self).wrote(*old(self), src@),
            old(self).pos() == old(self)@.len() ==> final(self)@ == old(self)@ + src@,
    {
        proof {
            use_type_invariant(&*self);
            lemma_written_at_end(self@, src@);
        }
        let cursor = self.pos;
        self.write_at_pos(cursor, src);
        self.seek(src.len(), Seek::Cur);
    }

    /// Writes the bytes of `src` at the cursor and moves the cursor behind
    /// them.
    pub fn write_from(&mut self, src: &AutoBuffer)
        ensures
            final(self).wrote(*old(self), src@),
            old(self).pos() == old(self)@.len() ==> final(self)@ == old(self)@ + src@,
    {
        let bytes = src.as_slice(0);
        assert(bytes@ == src@);
        self.write(bytes);
    }

    /// Writes `src` at `pos`, which lies within the written bytes or at their
    /// end. The written length grows by the length of `src` wherever `pos`
    /// lies, so that a write at the end appends and a write before the end
    /// overwrites what it covers and leaves zeros behind the bytes that were
    /// there. The cursor stays. A write of no bytes leaves the buffer as it
    /// is, whatever `pos` is. To write bytes behind the written bytes is an
    /// error of the caller.
    pub fn write_at_pos(&mut self, pos: usize, src: &[u8])
        requires
            src@.len() == 0 || pos <= old(self)@.len(),
        ensures
            final(self)@ == written_at(old(self)@, pos as int, src@),
            final(self).pos() == old(self).pos(),
            final(self).alloc_unit() == old(self).alloc_unit(),
            final(self).capacity() == grown(
                old(self).capacity() as int,
                (old(self)@.len() + src@.len()) as int,
                old(self).alloc_unit() as int,
            ),
            src@.len() == 0 ==> final(self).same_as(*old(self)),
    {
        proof {
            use_type_invariant(&*self);
        }
        if src.is_empty() {
            assert(written_at(self@, pos as int, src@) =~= self@);
            return ;
        }
        vstd::pervasive::runtime_assert(pos <= self.data.len());
        let n = src.len();
        let need: usize = match self.data.len().checked_add(n) {
            Some(need) => need,
            None => usize::MAX,
        };
        proof {
            lemma_round_up(self.data.len() + n, self.alloc_unit_size as int);
            lemma_round_up(need as int, self.alloc_unit_size as int);
        }
        self.grow(need);
        proof {
            use_type_invariant(&*self);
        }
        // The bytes leave the buffer while they are written to; the cursor
        // waits at the start meanwhile, within the empty buffer.
        let cursor = self.pos;
        self.pos = 0;
        let mut data: Vec<u8> = Vec::new();
        core::mem::swap(&mut self.data, &mut data);
        let ghost before = data@;
        let old_len = data.len();
        data.extend_from_slice(src);
        let new_len = data.len();
        assert(data@ =~= before + src@);
        assert(new_len == old_len + n);
        if pos < old_len {
            // The span at `pos` takes the new bytes, and what the appended
            // copy left behind the old end and outside the span is zeroed.
            let mut k: usize = 0;
            while k < n
                invariant
                    k <= n,
                    n == src@.len(),
                    pos < old_len,
                    old_len == before.len(),
                    data@.len() == new_len == old_len + n,
                    forall|i: int|
                        0 <= i < data@.len() ==> data@[i] == if pos <= i < pos + k {
                            src@[i - pos]
                        } else if i < old_len {
                            before[i]
                        } else {
                            src@[i - old_len]
                        },
                decreases n - k,
            {
                data[pos + k] = src[k];
                k = k + 1;
            }
            let mut j: usize = if pos + n < old_len {
                old_len
            } else {
                pos + n
            };
            let ghost gap = j;
            while j < new_len
                invariant
                    gap <= j <= new_len,
                    gap == if pos + n < old_len {
                        old_len as int
                    } else {
                        pos + n
                    },
                    n == src@.len(),
                    pos < old_len,
                    old_len == before.len(),
                    data@.len() == new_len == old_len + n,
                    forall|i: int|
                        0 <= i < data@.len() ==> data@[i] == if pos <= i < pos + n {
                            src@[i - pos]
                        } else if i < old_len {
                            before[i]
                        } else if i < j {
                            0u8
                        } else {
                            src@[i - old_len]
                        },
                decreases new_len - j,
            {
                data[j] = 0;
                j = j + 1;
            }
        }
        assert(data@ =~= written_at(before, pos as int, src@));
        core::mem::swap(&mut self.data, &mut data);
        self.pos = cursor;
    }

    /// Copies up to `len` bytes out of the buffer, starting at the cursor,
    /// and moves the cursor behind them. Fewer bytes come back where the
    /// written bytes end first. To read from a buffer that never reserved
    /// storage is an error of the caller.
    pub fn read(&mut self, len: usize) -> (out: Vec<u8>)
        requires
            old(self).is_allocated(),
        ensures
            out@ == read_span(old(self)@, old(self).pos() as int, len as int),
            final(self).pos() == old(self).pos() + out@.len(),
            final(self)@ == old(self)@,
            final(self).capacity() == old(self).capacity(),
            final(self).alloc_unit() == old(self).alloc_unit(),
    {
        proof {
            use_type_invariant(&*self);
        }
        let (read_len, out) = self.read_at_pos(self.pos, len);
        self.seek(read_len, Seek::Cur);
        out
    }

    /// Copies up to `len` bytes from the cursor into `out_buf`, at its cursor,
    /// moves both cursors behind them and returns how many bytes went over.
    /// To read from a buffer that never reserved storage is an error of the
    /// caller.
    pub fn read_to_buffer(&mut self, out_buf: &mut AutoBuffer, len: usize) -> (count: usize)
        requires
            old(self).is_allocated(),
        ensures
            count == read_len(old(self).pos() as int, old(self)@.len() as int, len as int),
            final(self).pos() == old(self).pos() + count,
            final(self)@ == old(self)@,
            final(self).capacity() == old(self).capacity(),
            final(self).alloc_unit() == old(self).alloc_unit(),
            final(out_buf).wrote(
                *old(out_buf),
                read_span(old(self)@, old(self).pos() as int, len as int),
            ),
    {
        proof {
            use_type_invariant(&*self);
        }
        let (read_len, out) = self.read_at_pos(self.pos, len);
        self.seek(read_len, Seek::Cur);
        out_buf.write(out.as_slice());
        read_len
    }

    /// Copies up to `len` bytes out of the buffer, starting at `pos`, and
    /// returns their number with them. The cursor stays. To read from a
    /// buffer that never reserved storage, or from behind the written bytes,
    /// is an error of the caller.
    pub fn read_at_pos(&self, pos: usize, len: usize) -> (out: (usize, Vec<u8>))
        requires
            self.is_allocated(),
            pos <= self@.len(),
        ensures
            out.0 == read_len(pos as int, self@.len() as int, len as int),
            out.1@ == read_span(self@, pos as int, len as int),
    {
        proof {
            use_type_invariant(self);
        }
        vstd::pervasive::runtime_assert(self.capacity > 0);
        vstd::pervasive::runtime_assert(pos <= self.data.len());
        let left = self.data.len() - pos;
        let read_len = if len <= left {
            len
        } else {
            left
        };
        let out = slice_to_vec(slice_subrange(self.data.as_slice(), pos, pos + read_len));
        (read_len, out)
    }

    /// The written bytes from `offset` on; none where `offset` lies behind
    /// them.
    pub fn as_slice(&self, offset: usize) -> (bytes: &[u8])
        ensures
            bytes@ == if offset <= self@.len() {
                self@.skip(offset as int)
            } else {
                Seq::<u8>::empty()
            },
            offset == 0 ==> bytes@ == self@,
    {
        let len = self.data.len();
        let start = if offset <= len {
            offset
        } else {
            len
        };
        slice_subrange(self.data.as_slice(), start, len)
    }

    /// The written bytes from the cursor on.
    pub fn as_pos_slice(&self) -> (bytes: &[u8])
        ensures
            bytes@ == self@.skip(self.pos() as int),
    {
        proof {
            use_type_invariant(self);
        }
        slice_subrange(self.data.as_slice(), self.pos, self.data.len())
    }

    /// Makes room for `size` bytes in all: where the capacity is less, it
    /// grows to `size` rounded up to the allocation unit, and storage of that
    /// size is reserved.
    fn grow(&mut self, size: usize)
        ensures
            final(self)@ == old(self)@,
            final(self).pos() == old(self).pos(),
            final(self).alloc_unit() == old(self).alloc_unit(),
            final(self).capacity() == grown(
                old(self).capacity() as int,
                size as int,
                old(self).alloc_unit() as int,
            ),
    {
        proof {
            use_type_invariant(&*self);
        }
        if size <= self.capacity {
            return ;
        }
        let unit = self.alloc_unit_size;
        let rem = size % unit;
        assert(rem <= size) by (nonlinear_arith)
            requires
                rem == size % unit,
                unit > 0,
        ;
        let new_capacity = if rem == 0 {
            size
        } else {
            match (size - rem).checked_add(unit) {
                Some(c) => c,
                None => usize::MAX,
            }
        };
        proof {
            lemma_round_up(size as int, unit as int);
        }
        // The bytes leave the buffer while storage is reserved for them; the
        // cursor waits at the start meanwhile, within the empty buffer.
        let cursor = self.pos;
        self.pos = 0;
        let mut data: Vec<u8> = Vec::new();
        core::mem::swap(&mut self.data, &mut data);
        let _ = data.try_reserve(new_capacity - data.len());
        self.capacity = new_capacity;
        core::mem::swap(&mut self.data, &mut data);
        self.pos = cursor;
    }
}

impl Default for AutoBuffer {
    /// An empty buffer with the default allocation unit.
    fn default() -> (buf: Self)
        ensures
            buf@ == Seq::<u8>::empty(),
            buf.pos() == 0,
            buf.capacity() == 0,
            buf.alloc_unit() == DEFAULT_UNIT_SIZE,
    {
        AutoBuffer::new(DEFAULT_UNIT_SIZE)
    }
}

impl Clone for AutoBuffer {
    /// A buffer of its own with the default allocation unit and a copy of
    /// the written bytes, its cursor behind the last byte.
    fn clone(&self) -> (buf: Self)
        ensures
            buf@ == self@,
            buf.pos() == self@.len(),
            buf.capacity() == grown(0, self@.len() as int, DEFAULT_UNIT_SIZE as int),
            buf.alloc_unit() == DEFAULT_UNIT_SIZE,
    {
        let mut buf = AutoBuffer::new(DEFAULT_UNIT_SIZE);
        buf.write_from(self);
        proof {
            lemma_written_at_end(Seq::<u8>::empty(), self@);
        }
        buf
    }
}

impl<'a> From<&'a [u8]> for AutoBuffer {
    /// A buffer with the default allocation unit that holds a copy of
    /// `value`, its cursor behind the last byte.
    fn from(value: &'a [u8]) -> (buf: Self)
        ensures
            buf@ == value@,
            buf.pos() == value@.len(),
            buf.capacity() == grown(0, value@.len() as int, DEFAULT_UNIT_SIZE as int),
            buf.alloc_unit() == DEFAULT_UNIT_SIZE,
    {
        AutoBuffer::new_from(value)
    }
}

/// What `from` returns is stated by `from` itself, over the view and the
/// measures of the buffer.
impl<'a> vstd::std_specs::convert::FromSpecImpl<&'a [u8]> for AutoBuffer {
    open spec fn obeys_from_spec() -> bool {
        false
    }

    open spec fn from_spec(value: &'a [u8]) -> Self {
        arbitrary()
    }
}

/// `round_up` yields a multiple of the unit, at least the size and less than
/// one unit above it.
pub proof fn lemma_round_up(size: int, unit: int)
    requires
        0 <= size,
        0 < unit,
    ensures
        round_up(size, unit) % unit == 0,
        size <= round_up(size, unit) < size + unit,
{
    let r = round_up(size, unit);
    assert(r % unit == 0 && size <= r < size + unit) by (nonlinear_arith)
        requires
            0 <= size,
            0 < unit,
            r == (if size % unit == 0 {
                size
            } else {
                size - size % unit + unit
            }),
    ;
}

/// What `valid` says of a buffer in terms of its public measures.
pub proof fn lemma_valid(buf: AutoBuffer)
    requires
        buf.valid(),
    ensures
        buf.pos() <= buf@.len() <= buf.capacity(),
        buf.alloc_unit() > 0,
        buf.capacity() % buf.alloc_unit() == 0 || buf.capacity() == usize::MAX,
{
}

/// Growth never shrinks a capacity: the grown capacity is at least the old
/// one, holds what it grew for where `usize` can express that, and is a whole
/// number of allocation units unless it is the old one or all that `usize`
/// can express.
pub proof fn lemma_grown(capacity: int, need: int, unit: int)
    requires
        0 <= capacity <= usize::MAX,
        0 <= need,
        0 < unit,
    ensures
        capacity <= grown(capacity, need, unit) <= usize::MAX,
        need <= usize::MAX ==> need <= grown(capacity, need, unit),
        grown(capacity, need, unit) == capacity || grown(capacity, need, unit) % unit == 0
            || grown(capacity, need, unit) == usize::MAX,
        need > capacity && need + unit - 1 <= usize::MAX ==> grown(capacity, need, unit)
            == round_up(need, unit),
{
    lemma_round_up(need, unit);
}

/// Room that was made is kept: where `roomy` is `before`, its cursor at the
/// end of its bytes, after room was made for `size` bytes behind the cursor,
/// a write of no more than `size` bytes at the cursor leaves the capacity as
/// it is.
pub proof fn lemma_room_made_holds_write(
    before: AutoBuffer,
    roomy: AutoBuffer,
    after: AutoBuffer,
    size: usize,
    src: Seq<u8>,
)
    requires
        before.valid(),
        before.pos() == before@.len(),
        before.pos() + size <= usize::MAX,
        roomy@ == before@,
        roomy.pos() == before.pos(),
        roomy.alloc_unit() == before.alloc_unit(),
        roomy.capacity() == grown(
            before.capacity() as int,
            before.pos() + size,
            before.alloc_unit() as int,
        ),
        after.wrote(roomy, src),
        src.len() <= size,
    ensures
        after.capacity() == roomy.capacity(),
{
    lemma_valid(before);
    lemma_grown(before.capacity() as int, before.pos() + size, before.alloc_unit() as int);
}

/// Growing for `first` bytes and then for `second`, no fewer, gives the
/// capacity that growing for `second` gives at once.
pub proof fn lemma_grown_twice(capacity: int, first: int, second: int, unit: int)
    requires
        0 <= capacity <= usize::MAX,
        0 <= first <= second,
        0 < unit,
    ensures
        grown(grown(capacity, first, unit), second, unit) == grown(capacity, second, unit),
{
    lemma_round_up(first, unit);
    lemma_round_up(second, unit);
    let r1 = round_up(first, unit);
    let r2 = round_up(second, unit);
    if first > capacity && second <= r1 {
        assert(r1 == r2) by (nonlinear_arith)
            requires
                0 < unit,
                r1 % unit == 0,
                r2 % unit == 0,
                first <= second <= r1,
                first <= r1 < first + unit,
                second <= r2 < second + unit,
        ;
    }
}

/// Two writes at the cursor, one behind the other, are one write of both
/// spans.
pub proof fn lemma_written_at_twice(data: Seq<u8>, pos: int, first: Seq<u8>, second: Seq<u8>)
    requires
        0 <= pos <= data.len(),
    ensures
        written_at(written_at(data, pos, first), pos + first.len(), second) == written_at(
            data,
            pos,
            first + second,
        ),
{
    assert(written_at(written_at(data, pos, first), pos + first.len(), second) =~= written_at(
        data,
        pos,
        first + second,
    ));
}

/// Where `mid` is `before` after a write of `first`, and `after` is `mid`
/// after a write of `second`, `after` is `before` after a write of both.
pub proof fn lemma_wrote_twice(
    before: AutoBuffer,
    mid: AutoBuffer,
    after: AutoBuffer,
    first: Seq<u8>,
    second: Seq<u8>,
)
    requires
        before.valid(),
        mid.wrote(before, first),
        after.wrote(mid, second),
    ensures
        after.wrote(before, first + second),
{
    lemma_valid(before);
    lemma_written_at_twice(before@, before.pos() as int, first, second);
    lemma_grown_twice(
        before.capacity() as int,
        (before@.len() + first.len()) as int,
        (before@.len() + first.len() + second.len()) as int,
        before.alloc_unit() as int,
    );
}

/// A write at the end of the written bytes appends.
pub proof fn lemma_written_at_end(data: Seq<u8>, src: Seq<u8>)
    ensures
        written_at(data, data.len() as int, src) == data + src,
{
    assert(written_at(data, data.len() as int, src) =~= data + src);
}

/// Writes into an empty buffer add up: where `states` are the buffer before
/// and after each of a sequence of writes of `chunks`, whatever its
/// allocation unit, the buffer holds in the end the chunks one after the
/// other and nothing else, as many bytes as were written, and its cursor
/// stands behind them.
pub proof fn lemma_writes_concatenate(states: Seq<AutoBuffer>, chunks: Seq<Seq<u8>>)
    requires
        states.len() == chunks.len() + 1,
        states[0]@.len() == 0,
        states[0].pos() == 0,
        forall|i: int|
            0 <= i < chunks.len() ==> (#[trigger] states[i + 1]).wrote(states[i], chunks[i]),
    ensures
        states.last()@ == concat(chunks),
        states.last()@.len() == total_len(chunks),
        states.last().pos() == total_len(chunks),
    decreases chunks.len(),
{
    if chunks.len() == 0 {
        assert(states.last()@ =~= concat(chunks));
    } else {
        let n = chunks.len() as int;
        let earlier = states.drop_last();
        assert forall|i: int| 0 <= i < chunks.drop_last().len() implies (#[trigger] earlier[i
            + 1]).wrote(earlier[i], chunks.drop_last()[i]) by {
            assert(states[i + 1].wrote(states[i], chunks[i]));
        }
        lemma_writes_concatenate(earlier, chunks.drop_last());
        assert(earlier.last() == states[n - 1]);
        assert(states[n - 1 + 1].wrote(states[n - 1], chunks[n - 1]));
        lemma_written_at_end(states[n - 1]@, chunks[n - 1]);
    }
}

/// What was written is read back: from the start of the written bytes a
/// read of their length yields them all. A read never yields more than was
/// asked for, and where the written bytes end first it yields what is left
/// of them.
pub proof fn lemma_read_back(data: Seq<u8>, pos: int, want: int)
    requires
        0 <= pos <= data.len(),
        0 <= want,
    ensures
        seek_target(pos, data.len() as int, 0, Seek::Start) == 0,
        read_span(data, 0, data.len() as int) == data,
        read_span(data, pos, want).len() == read_len(pos, data.len() as int, want) <= want,
        want >= data.len() - pos ==> read_span(data, pos, want) == data.skip(pos),
{
    assert(read_span(data, 0, data.len() as int) =~= data);
    if want >= data.len() - pos {
        assert(read_span(data, pos, want) =~= data.skip(pos));
    }
}

} // verus!
