//! A single-producer single-consumer ring buffer of length-prefixed chunks.
//!
//! Layout of the data area: a circular sequence of records. Each record is a
//! 4-byte little-endian length prefix followed by the chunk bytes, padded so
//! that the next record starts on a 4-byte boundary.
use vstd::arithmetic::div_mod::lemma_fundamental_div_mod_converse;
use vstd::bytes::{spec_u32_from_le_bytes, spec_u32_to_le_bytes, u32_from_le_bytes, u32_to_le_bytes};
use vstd::prelude::*;

verus! {

/// Size of the length prefix that starts every record.
pub const PS: usize = 4;

/// Size of the header in front of the data area: five `u32` fields.
pub const HDR_SIZE: usize = 20;

/// `n` rounded up to a multiple of the prefix size.
pub open spec fn align_ps(n: nat) -> nat {
    ((n + 3) / 4 * 4) as nat
}

/// Space taken in the data area by a record holding `m`.
pub open spec fn record_len(m: Seq<u8>) -> nat {
    PS as nat + align_ps(m.len())
}

/// Space taken by all records of `msgs`, in order.
pub open spec fn records_len(msgs: Seq<Seq<u8>>) -> nat
    decreases msgs.len(),
{
    if msgs.len() == 0 {
        0
    } else {
        record_len(msgs[0]) + records_len(msgs.drop_first())
    }
}

/// `s` is exactly the concatenation of the records of `msgs`: each a length
/// prefix, the chunk, and padding bytes of any value.
pub open spec fn frames(s: Seq<u8>, msgs: Seq<Seq<u8>>) -> bool
    decreases msgs.len(),
{
    if msgs.len() == 0 {
        s.len() == 0
    } else {
        let m = msgs[0];
        let r = record_len(m);
        &&& m.len() <= u32::MAX
        &&& r <= s.len()
        &&& s.subrange(0, 4) == spec_u32_to_le_bytes(m.len() as u32)
        &&& s.subrange(4, 4 + m.len() as int) == m
        &&& frames(s.skip(r as int), msgs.drop_first())
    }
}

/// Physical index of logical offset `x` (counted from `head`) in a circular
/// area of `size` bytes, for `0 <= x <= size`.
pub open spec fn phys(head: int, x: int, size: int) -> int {
    if head + x < size {
        head + x
    } else {
        head + x - size
    }
}

proof fn lemma_phys_injective(head: int, x: int, y: int, size: int)
    requires
        0 <= head < size,
        0 <= x < size,
        0 <= y < size,
        x != y,
    ensures
        phys(head, x, size) != phys(head, y, size),
        0 <= phys(head, x, size) < size,
{
}

proof fn lemma_phys_compose(head: int, a: int, b: int, size: int)
    requires
        0 <= head < size,
        0 <= a,
        0 <= b,
        a + b <= size,
        a < size,
    ensures
        phys(phys(head, a, size), b, size) == phys(head, a + b, size),
{
}

proof fn lemma_phys_mod(head: int, x: int, size: int)
    requires
        0 <= head < size,
        0 <= x <= size,
    ensures
        (head + x) % size == if x == size { head } else { phys(head, x, size) },
{
    if head + x < size {
        lemma_fundamental_div_mod_converse(head + x, size, 0, head + x);
    } else if head + x < 2 * size {
        lemma_fundamental_div_mod_converse(head + x, size, 1, head + x - size);
    } else {
        lemma_fundamental_div_mod_converse(head + x, size, 2, head + x - 2 * size);
    }
}

proof fn lemma_align_ps(n: nat)
    ensures
        align_ps(n) % 4 == 0,
        n <= align_ps(n) < n + 4,
{
}

proof fn lemma_records_len_push(msgs: Seq<Seq<u8>>, m: Seq<u8>)
    ensures
        records_len(msgs.push(m)) == records_len(msgs) + record_len(m),
    decreases msgs.len(),
{
    if msgs.len() == 0 {
        assert(msgs.push(m).drop_first() =~= Seq::<Seq<u8>>::empty());
        assert(msgs.push(m)[0] == m);
        assert(records_len(Seq::<Seq<u8>>::empty()) == 0);
    } else {
        assert(msgs.push(m).drop_first() =~= msgs.drop_first().push(m));
        assert(msgs.push(m)[0] == msgs[0]);
        lemma_records_len_push(msgs.drop_first(), m);
    }
}

proof fn lemma_records_len_aligned(msgs: Seq<Seq<u8>>)
    ensures
        records_len(msgs) % 4 == 0,
    decreases msgs.len(),
{
    if msgs.len() > 0 {
        lemma_align_ps(msgs[0].len());
        lemma_records_len_aligned(msgs.drop_first());
    }
}

proof fn lemma_frames_len(s: Seq<u8>, msgs: Seq<Seq<u8>>)
    requires
        frames(s, msgs),
    ensures
        s.len() == records_len(msgs),
    decreases msgs.len(),
{
    if msgs.len() > 0 {
        lemma_frames_len(s.skip(record_len(msgs[0]) as int), msgs.drop_first());
    }
}

proof fn lemma_frames_push(s: Seq<u8>, msgs: Seq<Seq<u8>>, t: Seq<u8>, m: Seq<u8>)
    requires
        frames(s, msgs),
        frames(t, seq![m]),
    ensures
        frames(s + t, msgs.push(m)),
    decreases msgs.len(),
{
    if msgs.len() == 0 {
        assert(s + t =~= t);
        assert(msgs.push(m) =~= seq![m]);
    } else {
        let m0 = msgs[0];
        let r = record_len(m0) as int;
        assert((s + t).subrange(0, 4) =~= s.subrange(0, 4));
        assert((s + t).subrange(4, 4 + m0.len() as int) =~= s.subrange(4, 4 + m0.len() as int));
        assert((s + t).skip(r) =~= s.skip(r) + t);
        assert(msgs.push(m).drop_first() =~= msgs.drop_first().push(m));
        lemma_frames_push(s.skip(r), msgs.drop_first(), t, m);
    }
}

/// Header of a ring buffer: sizes and positions within the data area.
pub struct RBHdr {
    size: u32,
    head: u32,
    tail: u32,
    used: u32,
    need: u32,
}

impl RBHdr {
    /// Reset the header for a data area of `size` bytes.
    fn init(&mut self, size: usize)
        requires
            size <= i32::MAX,
        ensures
            final(self).size == size,
            final(self).head == 0,
            final(self).tail == 0,
            final(self).used == 0,
            final(self).need == 0,
    {
        self.size = size as u32;
        self.head = 0;
        self.tail = 0;
        self.used = 0;
        self.need = 0;
    }

    fn size(&self) -> (r: usize)
        ensures
            r == self.size,
    {
        self.size as usize
    }

    fn used(&self) -> (r: usize)
        ensures
            r == self.used,
    {
        self.used as usize
    }

    fn get_free_size(&self) -> (r: usize)
        requires
            self.used <= self.size,
        ensures
            r == self.size - self.used,
    {
        self.size() - self.used()
    }
}

/// A ring buffer: a header and a circular data area of records.
pub struct RingBuffer {
    hdr: RBHdr,
    data: Vec<u8>,
    msgs: Ghost<Seq<Seq<u8>>>,
}

impl View for RingBuffer {
    type V = Seq<Seq<u8>>;

    /// The chunks held by the buffer, oldest first.
    closed spec fn view(&self) -> Seq<Seq<u8>> {
        self.msgs@
    }
}

impl RingBuffer {
    /// Capacity of the data area in bytes.
    pub closed spec fn capacity(&self) -> nat {
        self.hdr.size as nat
    }

    /// Bytes of the data area held by records.
    pub closed spec fn used_bytes(&self) -> nat {
        self.hdr.used as nat
    }

    /// The value of the shared `need` counter: how many more bytes the
    /// sender waits for.
    pub closed spec fn need_value(&self) -> u32 {
        self.hdr.need
    }

    /// Logical content of the data area, from the head over `used` bytes.
    closed spec fn stream(&self) -> Seq<u8> {
        Seq::new(
            self.hdr.used as nat,
            |x: int| self.data@[phys(self.hdr.head as int, x, self.hdr.size as int)],
        )
    }

    /// The data area, byte by byte.
    pub closed spec fn area(&self) -> Seq<u8> {
        self.data@
    }

    /// Physical position in the data area where the oldest record starts.
    pub closed spec fn head_pos(&self) -> nat {
        self.hdr.head as nat
    }

    /// Physical position of the first chunk byte of the oldest record: just
    /// after its size prefix, wrapping to the start of the area.
    pub open spec fn front_data_pos(&self) -> nat {
        phys(self.head_pos() as int, PS as int, self.capacity() as int) as nat
    }

    pub closed spec fn wf(&self) -> bool {
        let size = self.hdr.size as int;
        &&& self.data@.len() == size
        &&& PS < size <= i32::MAX
        &&& size % 4 == 0
        &&& self.hdr.head < size
        &&& self.hdr.head % 4 == 0
        &&& self.hdr.used <= size
        &&& self.hdr.tail == phys(self.hdr.head as int, self.hdr.used as int, size)
        &&& frames(self.stream(), self.msgs@)
    }

    /// Total shared-memory size requested for a data area of `size` bytes.
    pub fn requested_size(size: usize) -> (r: usize)
        requires
            size + HDR_SIZE <= usize::MAX,
        ensures
            r == size + HDR_SIZE,
    {
        size + HDR_SIZE
    }
}


impl RingBuffer {
    /// `d` describes the oldest record of this buffer.
    pub closed spec fn is_front(&self, d: ReceivedData) -> bool {
        &&& self.msgs@.len() > 0
        &&& d.head == self.front_data_pos()
        &&& d.size == self.msgs@[0].len()
    }

    /// Create an empty ring buffer over a shared region of `size` bytes,
    /// of which the first `HDR_SIZE` bytes hold the header.
    pub fn new(size: usize) -> (r: RingBuffer)
        requires
            size > HDR_SIZE + PS,
            (size - HDR_SIZE) % (PS as int) == 0,
            size - HDR_SIZE <= i32::MAX,
        ensures
            r.wf(),
            r@ == Seq::<Seq<u8>>::empty(),
            r.capacity() == size - HDR_SIZE,
            r.used_bytes() == 0,
            r.need_value() == 0,
            r.head_pos() == 0,
    {
        let n = size - HDR_SIZE;
        let mut hdr = RBHdr { size: 0, head: 0, tail: 0, used: 0, need: 0 };
        hdr.init(n);
        let data: Vec<u8> = vec![0u8; n];
        let r = RingBuffer { hdr, data, msgs: Ghost(Seq::empty()) };
        assert(r.stream() =~= Seq::<u8>::empty());
        r
    }

    /// Hand out the sending and the receiving role of this buffer.
    pub fn split(&mut self) -> (r: (Sender, Receiver))
        ensures
            *final(self) == *old(self),
    {
        (Sender { _role: () }, Receiver { _role: () })
    }

    /// Capacity of the data area in bytes.
    pub fn size(&self) -> (r: usize)
        ensures
            r == self.capacity(),
    {
        self.hdr.size()
    }

    /// Bytes of the data area held by records.
    pub fn used(&self) -> (r: usize)
        ensures
            r == self.used_bytes(),
    {
        self.hdr.used()
    }

    /// Current value of the `need` counter.
    pub fn need(&self) -> (r: u32)
        ensures
            r == self.need_value(),
    {
        self.hdr.need
    }

    /// Write `bytes` at logical offsets `off..off + bytes.len()` after the head.
    fn write_at(&mut self, off: usize, bytes: &[u8])
        requires
            old(self).data@.len() == old(self).hdr.size,
            0 < old(self).hdr.size <= i32::MAX,
            old(self).hdr.head < old(self).hdr.size,
            off + bytes@.len() <= old(self).hdr.size,
        ensures
            final(self).hdr == old(self).hdr,
            final(self).msgs == old(self).msgs,
            final(self).data@.len() == old(self).data@.len(),
            forall|x: int|
                0 <= x < old(self).hdr.size && !(off <= x < off + bytes@.len())
                    ==> #[trigger] final(self).data@[phys(old(self).hdr.head as int, x, old(self).hdr.size as int)]
                    == old(self).data@[phys(old(self).hdr.head as int, x, old(self).hdr.size as int)],
            forall|j: int|
                0 <= j < bytes@.len()
                    ==> #[trigger] final(self).data@[phys(old(self).hdr.head as int, off + j, old(self).hdr.size as int)]
                    == bytes@[j],
    {
        let size = self.hdr.size as usize;
        let head = self.hdr.head as usize;
        let ghost h = head as int;
        let ghost sz = size as int;
        let ghost old_data = self.data@;
        let mut p = head + off;
        if p >= size {
            p = p - size;
        }
        let mut i: usize = 0;
        while i < bytes.len()
            invariant
                size == self.hdr.size,
                head == self.hdr.head,
                h == head,
                sz == size,
                self.hdr == old(self).hdr,
                self.msgs == old(self).msgs,
                old_data == old(self).data@,
                self.data@.len() == size,
                0 < size <= i32::MAX,
                head < size,
                off + bytes@.len() <= size,
                i <= bytes@.len(),
                p < size,
                i < bytes@.len() ==> p == phys(h, off + i, sz),
                forall|x: int|
                    0 <= x < sz && !(off <= x < off + i) ==> self.data@[phys(h, x, sz)]
                        == old_data[phys(h, x, sz)],
                forall|j: int| 0 <= j < i ==> self.data@[phys(h, off + j, sz)] == bytes@[j],
            decreases bytes@.len() - i,
        {
            let ghost before = self.data@;
            self.data[p] = bytes[i];
            proof {
                assert forall|x: int|
                    0 <= x < sz && !(off <= x < off + i + 1) implies self.data@[phys(h, x, sz)]
                    == old_data[phys(h, x, sz)] by {
                    lemma_phys_injective(h, x, off + i, sz);
                }
                assert forall|j: int| 0 <= j < i + 1 implies self.data@[phys(h, off + j, sz)]
                    == bytes@[j] by {
                    if j < i {
                        lemma_phys_injective(h, off + j, off + i, sz);
                    }
                }
            }
            i = i + 1;
            p = p + 1;
            if p == size {
                p = 0;
            }
        }
    }
}

/// Outcome of an attempt to enqueue a chunk.
pub enum PushOutcome {
    /// The chunk was enqueued; `wake` is set when the buffer was empty before,
    /// so the receiving side should be woken.
    Pushed { wake: bool },
    /// Not enough free space; the `need` counter now holds the missing bytes.
    NoSpace,
}

/// The sending role of a ring buffer.
pub struct Sender {
    _role: (),
}

/// The receiving role of a ring buffer.
pub struct Receiver {
    _role: (),
}

/// A record received from a ring buffer: where its chunk starts and its size.
/// It stays in the buffer until it is released.
#[derive(Clone, Copy)]
pub struct ReceivedData {
    head: usize,
    size: usize,
}

impl ReceivedData {
    /// Physical position of the first byte of the chunk.
    pub closed spec fn spec_head(&self) -> nat {
        self.head as nat
    }

    /// Length of the chunk.
    pub closed spec fn spec_size(&self) -> nat {
        self.size as nat
    }
}


impl Sender {
    /// Enqueue `data` as one record.
    ///
    /// Returns `Pushed` when the record was enqueued and `NoSpace` when the
    /// free space is too small, in which case the `need` counter records how
    /// many more bytes the sender waits for.
    pub fn try_push(&mut self, rb: &mut RingBuffer, data: &[u8]) -> (r: PushOutcome)
        requires
            old(rb).wf(),
            record_len(data@) <= old(rb).capacity(),
        ensures
            final(rb).wf(),
            final(rb).capacity() == old(rb).capacity(),
            final(rb).head_pos() == old(rb).head_pos(),
            (r is Pushed) <==> record_len(data@) <= old(rb).capacity() - old(rb).used_bytes(),
            match r {
                PushOutcome::Pushed { wake } => {
                    &&& final(rb)@ == old(rb)@.push(data@)
                    &&& final(rb)@ == after_pushes(old(rb)@, seq![data@])
                    &&& final(rb).used_bytes() == old(rb).used_bytes() + record_len(data@)
                    &&& final(rb).need_value() == old(rb).need_value()
                    &&& wake == (old(rb).used_bytes() == 0)
                },
                PushOutcome::NoSpace => {
                    &&& final(rb)@ == old(rb)@
                    &&& final(rb).used_bytes() == old(rb).used_bytes()
                    &&& final(rb).need_value() == record_len(data@) - (old(rb).capacity()
                        - old(rb).used_bytes())
                },
            },
    {
        proof {
            lemma_align_ps(data@.len());
            lemma_one_push(old(rb)@, data@);
            assert(4usize & 3usize == 0) by (bit_vector);
        }
        let needed = get_aligned_size(PS + data.len(), PS);
        assert(needed == record_len(data@));
        let free = rb.hdr.get_free_size();
        if free < needed {
            rb.hdr.need = (needed - free) as u32;
            assert(rb.stream() =~= old(rb).stream());
            return PushOutcome::NoSpace;
        }
        let ghost h = rb.hdr.head as int;
        let ghost sz = rb.hdr.size as int;
        let ghost old_stream = rb.stream();
        let ghost old_data = rb.data@;
        let used = rb.hdr.used();
        let len32 = data.len() as u32;
        let prefix = u32_to_le_bytes(len32);
        rb.write_at(used, prefix.as_slice());
        rb.write_at(used + PS, data);
        let size = rb.hdr.size;
        rb.hdr.tail = (rb.hdr.tail + needed as u32) % size;
        let old_used = rb.hdr.used;
        rb.hdr.used = old_used + needed as u32;
        proof {
            let m = data@;
            let new_stream = rb.stream();
            let t = new_stream.subrange(used as int, (used + needed) as int);
            assert forall|x: int| 0 <= x < used implies new_stream[x] == old_stream[x] by {
                assert(new_stream[x] == rb.data@[phys(h, x, sz)]);
            }
            assert(new_stream.subrange(0, used as int) =~= old_stream);
            assert(new_stream =~= old_stream + t);
            assert(t.subrange(0, 4) =~= spec_u32_to_le_bytes(len32)) by {
                assert forall|j: int| 0 <= j < 4 implies t.subrange(0, 4)[j]
                    == spec_u32_to_le_bytes(len32)[j] by {
                    assert(t[j] == new_stream[used + j]);
                }
            }
            assert(t.subrange(4, 4 + m.len() as int) =~= m) by {
                assert forall|j: int| 0 <= j < m.len() implies t.subrange(4, 4 + m.len() as int)[j]
                    == m[j] by {
                    assert(t[4 + j] == new_stream[used + 4 + j]);
                    assert(new_stream[used + 4 + j] == rb.data@[phys(h, used + 4 + j, sz)]);
                }
            }
            assert(t.skip(needed as int) =~= Seq::<u8>::empty());
            assert(seq![m][0] == m);
            assert(seq![m].drop_first() =~= Seq::<Seq<u8>>::empty());
            assert(frames(t.skip(needed as int), seq![m].drop_first()));
            assert(frames(t, seq![m]));
            lemma_frames_push(old_stream, rb.msgs@, t, m);
            lemma_phys_mod(phys(h, used as int, sz), needed as int, sz);
            if needed < sz {
                lemma_phys_compose(h, used as int, needed as int, sz);
            }
            rb.msgs = Ghost(rb.msgs@.push(m));
        }
        PushOutcome::Pushed { wake: old_used == 0 }
    }
}

proof fn lemma_frames_empty(s: Seq<u8>, msgs: Seq<Seq<u8>>)
    requires
        frames(s, msgs),
    ensures
        (s.len() == 0) <==> (msgs.len() == 0),
{
}

impl Receiver {
    /// Look at the oldest record, if any. The record stays in the buffer
    /// until it is released.
    pub fn try_pop(&mut self, rb: &RingBuffer) -> (r: Option<ReceivedData>)
        requires
            rb.wf(),
        ensures
            (r is Some) <==> rb@.len() > 0,
            r matches Some(d) ==> rb.is_front(d),
    {
        match self.try_pop_raw(rb) {
            Some((head, size)) => Some(self.new_received_data(head, size)),
            None => None,
        }
    }

    fn new_received_data(&self, head: usize, size: usize) -> (r: ReceivedData)
        ensures
            r.head == head,
            r.size == size,
    {
        ReceivedData { head, size }
    }

    /// Position of the chunk of the oldest record and its size, if any.
    #[verifier::spinoff_prover]
    #[verifier::rlimit(60)]
    fn try_pop_raw(&self, rb: &RingBuffer) -> (r: Option<(usize, usize)>)
        requires
            rb.wf(),
        ensures
            (r is Some) <==> rb@.len() > 0,
            r matches Some(p) ==> p.0 == rb.front_data_pos() && p.1 == rb@[0].len(),
    {
        let used = rb.hdr.used();
        proof {
            lemma_frames_empty(rb.stream(), rb.msgs@);
        }
        if used == 0 {
            return None;
        }
        let size = rb.hdr.size();
        let mut head = rb.hdr.head as usize;
        let ghost h = head as int;
        let ghost sz = size as int;
        let bytes = rb.data.as_slice();
        let prefix = &bytes[head..head + PS];
        let len = u32_from_le_bytes(prefix);
        proof {
            let s = rb.stream();
            let m = rb.msgs@[0];
            assert(s.subrange(0, 4) =~= prefix@) by {
                assert forall|j: int| 0 <= j < 4 implies s.subrange(0, 4)[j] == prefix@[j] by {
                    assert(s[j] == rb.data@[phys(h, j, sz)]);
                }
            }
            vstd::bytes::lemma_auto_spec_u32_to_from_le_bytes();
            assert(len == m.len());
        }
        head = head + PS;
        if head == size {
            head = 0;
        }
        Some((head, len as usize))
    }
}

impl ReceivedData {
    /// The chunk as one or two slices of the data area: the second slice is
    /// non-empty when the chunk wraps around the end of the area.
    #[verifier::rlimit(40)]
    pub fn as_slice<'a>(&self, rb: &'a RingBuffer) -> (r: (&'a [u8], &'a [u8]))
        requires
            rb.wf(),
            rb.is_front(*self),
        ensures
            r.0@ + r.1@ == rb@[0],
            rb.area().len() == rb.capacity(),
            rb.front_data_pos() + rb@[0].len() <= rb.capacity() ==> r.0@ == rb.area().subrange(
                rb.front_data_pos() as int,
                rb.front_data_pos() + rb@[0].len() as int,
            ) && r.1@.len() == 0,
            rb.front_data_pos() + rb@[0].len() > rb.capacity() ==> r.0@ == rb.area().subrange(
                rb.front_data_pos() as int,
                rb.capacity() as int,
            ) && r.1@ == rb.area().subrange(
                0,
                rb.front_data_pos() + rb@[0].len() as int - rb.capacity(),
            ),
    {
        let size = rb.hdr.size();
        let bytes = rb.data.as_slice();
        let first_len = size - self.head;
        let ghost h = rb.hdr.head as int;
        let ghost sz = size as int;
        proof {
            let s = rb.stream();
            let m = rb.msgs@[0];
            assert forall|k: int| 0 <= k < m.len() implies m[k] == rb.data@[phys(self.head as int, k, sz)] by {
                assert(s.subrange(4, 4 + m.len() as int)[k] == s[4 + k]);
                assert(s[4 + k] == rb.data@[phys(h, 4 + k, sz)]);
                lemma_phys_compose(h, 4, k, sz);
            }
        }
        assert(self.head == rb.front_data_pos() && size == rb.capacity() && bytes@ == rb.area());
        if first_len >= self.size {
            let empty: &[u8] = &[];
            let first = &bytes[self.head..self.head + self.size];
            assert(first@ + empty@ =~= rb@[0]);
            assert(first@ =~= rb.area().subrange(self.head as int, self.head + self.size));
            (first, empty)
        } else {
            let first = &bytes[self.head..size];
            let second = &bytes[0..self.size - first_len];
            assert(first@ + second@ =~= rb@[0]);
            assert(first@ =~= rb.area().subrange(self.head as int, size as int));
            assert(second@ =~= rb.area().subrange(0, self.size - first_len));
            (first, second)
        }
    }

    /// Return the record's space to the sender: the head moves past the
    /// record and the `need` counter drops by the record's size.
    ///
    /// Returns true when the sender should be woken: the counter was below
    /// the released size, read as signed 32-bit values.
    pub fn release(self, rb: &mut RingBuffer) -> (wake: bool)
        requires
            old(rb).wf(),
            old(rb).is_front(self),
        ensures
            final(rb).wf(),
            final(rb).capacity() == old(rb).capacity(),
            final(rb).head_pos() == phys(
                old(rb).head_pos() as int,
                record_len(old(rb)@[0]) as int,
                old(rb).capacity() as int,
            ),
            final(rb)@ == old(rb)@.drop_first(),
            final(rb)@ == after_releases(old(rb)@, 1),
            final(rb).used_bytes() == old(rb).used_bytes() - record_len(old(rb)@[0]),
            final(rb).need_value() == (if old(rb).need_value() < record_len(old(rb)@[0]) {
                old(rb).need_value() + 0x1_0000_0000 - record_len(old(rb)@[0])
            } else {
                old(rb).need_value() - record_len(old(rb)@[0])
            }),
            wake == ((old(rb).need_value() as i32) < (record_len(old(rb)@[0]) as i32)),
    {
        proof {
            lemma_align_ps(self.size as nat);
            lemma_one_release(old(rb)@);
            assert(4usize & 3usize == 0) by (bit_vector);
        }
        let ghost h = rb.hdr.head as int;
        let ghost sz = rb.hdr.size as int;
        let ghost old_stream = rb.stream();
        let ghost m = rb.msgs@[0];
        proof {
            lemma_frames_len(old_stream, rb.msgs@);
        }
        let commit_size = get_aligned_size(self.size, PS) as u32;
        let head = self.head as u32;
        let size = rb.hdr.size;
        rb.hdr.head = (head + commit_size) % size;
        let total_size = commit_size + PS as u32;
        assert(total_size == record_len(m));
        rb.hdr.used = rb.hdr.used - total_size;
        let old_need = rb.hdr.need;
        rb.hdr.need = old_need.wrapping_sub(total_size);
        proof {
            let r = total_size as int;
            lemma_phys_mod(self.head as int, commit_size as int, sz);
            lemma_phys_compose(h, 4, commit_size as int, sz);
            lemma_records_len_aligned(rb.msgs@);
            assert(rb.hdr.head as int == phys(h, r, sz));
            assert(rb.hdr.head % 4 == 0);
            let new_stream = rb.stream();
            assert forall|x: int| 0 <= x < new_stream.len() implies new_stream[x]
                == old_stream.skip(r)[x] by {
                lemma_phys_compose(h, r, x, sz);
            }
            assert(new_stream =~= old_stream.skip(r));
            rb.msgs = Ghost(rb.msgs@.drop_first());
        }
        (old_need as i32) < (total_size as i32)
    }
}

/// The bytes in use are exactly the space of the records held, and never
/// exceed the capacity; the buffer is empty exactly when no byte is in use.
pub proof fn law_used_accounts_records(rb: &RingBuffer)
    requires
        rb.wf(),
    ensures
        rb.used_bytes() == records_len(rb@),
        rb.used_bytes() <= rb.capacity(),
        rb.used_bytes() % 4 == 0,
        (rb.used_bytes() == 0) <==> (rb@.len() == 0),
{
    lemma_frames_len(rb.stream(), rb.msgs@);
    lemma_records_len_aligned(rb.msgs@);
    lemma_frames_empty(rb.stream(), rb.msgs@);
}

/// A record is a 4-byte size prefix followed by the chunk padded to a
/// multiple of 4 bytes, so every record starts 4-byte aligned.
pub proof fn law_record_layout(m: Seq<u8>)
    ensures
        record_len(m) % 4 == 0,
        PS + m.len() <= record_len(m) < PS + m.len() + 4,
{
    lemma_align_ps(m.len());
}

/// A sender blocked on a full buffer is woken by a release only when the
/// released record makes room for the chunk it waits to push, and it is
/// woken whenever the record frees more than the space it was missing.
pub proof fn law_wake_means_room(chunk: Seq<u8>, before: &RingBuffer, after: &RingBuffer)
    requires
        before.wf(),
        before@.len() > 0,
        record_len(chunk) <= before.capacity(),
        before.capacity() - before.used_bytes() < record_len(chunk),
        before.need_value() == record_len(chunk) - (before.capacity() - before.used_bytes()),
        after.capacity() == before.capacity(),
        after.used_bytes() == before.used_bytes() - record_len(before@[0]),
    ensures
        ((before.need_value() as i32) < (record_len(before@[0]) as i32)) <==> before.need_value()
            < record_len(before@[0]),
        (before.need_value() as i32) < (record_len(before@[0]) as i32) ==> record_len(chunk)
            <= after.capacity() - after.used_bytes(),
{
    law_used_accounts_records(before);
    assert(records_len(before@) == record_len(before@[0]) + records_len(before@.drop_first()));
    let need: u32 = before.need_value();
    let freed: u32 = record_len(before@[0]) as u32;
    assert(freed == record_len(before@[0]));
    assert(need <= 0x7fff_ffff && freed <= 0x7fff_ffff ==> ((need as i32) < (freed as i32) <==> need
        < freed)) by (bit_vector);
}

/// The chunks a buffer holding `q` holds after the pushes of `ms`, in
/// order, all succeed: each successful `try_push` appends its chunk.
pub open spec fn after_pushes(q: Seq<Seq<u8>>, ms: Seq<Seq<u8>>) -> Seq<Seq<u8>>
    decreases ms.len(),
{
    if ms.len() == 0 {
        q
    } else {
        after_pushes(q, ms.drop_last()).push(ms.last())
    }
}

/// The chunks a buffer holding `q` holds after `n` releases: each
/// `release` drops the oldest chunk.
pub open spec fn after_releases(q: Seq<Seq<u8>>, n: nat) -> Seq<Seq<u8>>
    decreases n,
{
    if n == 0 {
        q
    } else {
        after_releases(q, (n - 1) as nat).drop_first()
    }
}

proof fn lemma_one_push(q: Seq<Seq<u8>>, m: Seq<u8>)
    ensures
        after_pushes(q, seq![m]) == q.push(m),
{
    reveal_with_fuel(after_pushes, 2);
    assert(seq![m].drop_last() =~= Seq::<Seq<u8>>::empty());
}

proof fn lemma_one_release(q: Seq<Seq<u8>>)
    requires
        q.len() > 0,
    ensures
        after_releases(q, 1) == q.drop_first(),
{
    reveal_with_fuel(after_releases, 2);
}

proof fn lemma_after_pushes(q: Seq<Seq<u8>>, ms: Seq<Seq<u8>>)
    ensures
        after_pushes(q, ms) == q + ms,
    decreases ms.len(),
{
    if ms.len() > 0 {
        lemma_after_pushes(q, ms.drop_last());
        assert(q + ms =~= (q + ms.drop_last()).push(ms.last()));
    } else {
        assert(q + ms =~= q);
    }
}

proof fn lemma_after_releases(q: Seq<Seq<u8>>, n: nat)
    requires
        n <= q.len(),
    ensures
        after_releases(q, n) == q.skip(n as int),
    decreases n,
{
    if n > 0 {
        lemma_after_releases(q, (n - 1) as nat);
        assert(q.skip(n - 1).drop_first() =~= q.skip(n as int));
    } else {
        assert(q.skip(0) =~= q);
    }
}

/// Chunks come out in the order they went in: on a buffer holding `held`,
/// after the chunks `pushed` are pushed and the records held before are
/// released, the buffer holds exactly `pushed`; and after `k` more
/// releases the oldest chunk, the one `try_pop` and `as_slice` hand out, is
/// the `k`-th chunk pushed.
pub proof fn law_fifo(held: Seq<Seq<u8>>, pushed: Seq<Seq<u8>>, k: nat)
    requires
        k < pushed.len(),
    ensures
        after_releases(after_pushes(held, pushed), held.len()) == pushed,
        after_releases(after_pushes(held, pushed), held.len() + k)[0] == pushed[k as int],
{
    lemma_after_pushes(held, pushed);
    lemma_after_releases(held + pushed, held.len());
    lemma_after_releases(held + pushed, held.len() + k);
    assert((held + pushed).skip(held.len() as int) =~= pushed);
    assert((held + pushed).skip((held.len() + k) as int)[0] == pushed[k as int]);
}

/// `size` rounded up to a multiple of `align`, a power of two.
pub fn get_aligned_size(size: usize, align: usize) -> (r: usize)
    requires
        align > 0,
        align & ((align - 1) as usize) == 0,
        size + align - 1 <= usize::MAX,
    ensures
        r & ((align - 1) as usize) == 0,
        size <= r < size + align,
        align == PS ==> r == align_ps(size as nat),
{
    let m: usize = align - 1;
    let t: usize = size + m;
    let r = t & !m;
    assert(t & !m & m == 0) by (bit_vector);
    assert(align > 0 && m == align - 1 && align & m == 0 && t == size + m ==> size <= t & !m
        && t & !m < size + align) by (bit_vector);
    proof {
        if align == PS {
            assert(m == 3 && t == size + 3 ==> t & !m == t - t % 4) by (bit_vector);
        }
    }
    r
}

/// `size` is a multiple of `align`, a power of two.
pub fn is_aligned_to(size: usize, align: usize) -> (r: bool)
    requires
        align > 0,
        align & ((align - 1) as usize) == 0,
    ensures
        r == (size & ((align - 1) as usize) == 0),
        align == PS ==> (r == (size % 4 == 0)),
{
    let m: usize = align - 1;
    proof {
        if align == PS {
            assert(m == 3 ==> (size & m == 0) == (size % 4 == 0)) by (bit_vector);
        }
    }
    size & m == 0
}

} // verus!
