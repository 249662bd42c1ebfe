use vstd::prelude::*;

verus! {

/// What one push does to the contents of a buffer of capacity `cap`:
/// nothing at capacity zero, otherwise append and drop the oldest byte when full.
pub open spec fn push_spec(contents: Seq<u8>, cap: nat, b: u8) -> Seq<u8> {
    if cap == 0 {
        contents
    } else if contents.len() < cap {
        contents.push(b)
    } else {
        contents.drop_first().push(b)
    }
}

/// The contents after pushing each byte of `bytes` in order.
pub open spec fn push_all_spec(contents: Seq<u8>, cap: nat, bytes: Seq<u8>) -> Seq<u8>
    decreases bytes.len(),
{
    if bytes.len() == 0 {
        contents
    } else {
        push_spec(push_all_spec(contents, cap, bytes.drop_last()), cap, bytes.last())
    }
}

/// The last `n` elements of `s` (all of `s` when it is shorter).
pub open spec fn last_n(s: Seq<u8>, n: nat) -> Seq<u8> {
    if s.len() <= n {
        s
    } else {
        s.subrange(s.len() - n, s.len() as int)
    }
}

/// Circular buffer (FIFO) for caching log history.
pub struct LogBuffer {
    buffer: Vec<u8>,
    head: usize,
    tail: usize,
    len: usize,
}

impl LogBuffer {
    /// The buffered bytes, oldest first.
    pub closed spec fn contents(&self) -> Seq<u8> {
        Seq::new(self.len as nat, |i: int| self.buffer@[(self.tail + i) % (self.buffer@.len() as int)])
    }

    /// The fixed capacity of the buffer.
    pub closed spec fn capacity(&self) -> nat {
        self.buffer@.len()
    }

    pub closed spec fn wf(&self) -> bool {
        &&& self.len <= self.buffer@.len()
        &&& self.buffer@.len() == 0 ==> self.head == 0 && self.tail == 0
        &&& self.buffer@.len() > 0 ==> {
            &&& self.head < self.buffer@.len()
            &&& self.tail < self.buffer@.len()
            &&& self.head as int == (self.tail + self.len) % (self.buffer@.len() as int)
        }
    }

    /// A well-formed buffer never holds more than its capacity.
    pub proof fn lemma_wf(&self)
        requires
            self.wf(),
        ensures
            self.contents().len() <= self.capacity(),
    {
    }

    /// Creates an empty log buffer holding at most `capacity` bytes.
    pub fn new(capacity: usize) -> (r: Self)
        ensures
            r.wf(),
            r.contents() == Seq::<u8>::empty(),
            r.capacity() == capacity,
    {
        let buffer: Vec<u8> = vec![0u8; capacity];
        let r = LogBuffer { buffer, head: 0, tail: 0, len: 0 };
        assert(r.buffer@.len() == capacity);
        assert(r.buffer@.len() > 0 ==> 0int % (r.buffer@.len() as int) == 0);
        assert(r.contents() =~= Seq::<u8>::empty());
        r
    }

    /// Pushes a byte to the buffer, overwriting the oldest byte if full.
    pub fn push(&mut self, byte: u8)
        requires
            old(self).wf(),
        ensures
            final(self).wf(),
            final(self).contents().len() <= final(self).capacity(),
            final(self).capacity() == old(self).capacity(),
            final(self).contents() == push_spec(old(self).contents(), old(self).capacity(), byte),
    {
        let cap = self.buffer.len();
        if cap == 0 {
            return;
        }
        let ghost old_contents = self.contents();
        let ghost old_buf = self.buffer@;
        let ghost t = self.tail as int;
        let ghost n = self.len as int;
        self.buffer.set(self.head, byte);
        self.head = (self.head + 1) % cap;
        if self.len == cap {
            self.tail = (self.tail + 1) % cap;
            proof {
                let c = cap as int;
                assert(self.head as int == (self.tail + self.len) % c) by {
                    lemma_mod_add_one(t + n, c);
                    lemma_mod_add_one(t, c);
                    lemma_mod_shift(t + 1, n, c);
                }
                assert forall|i: int| 0 <= i < n implies
                    #[trigger] self.contents()[i] == old_contents.drop_first().push(byte)[i] by {
                    lemma_mod_add_one(t, c);
                    lemma_mod_shift(t + 1, i, c);
                    if i < n - 1 {
                        lemma_mod_shift(t, i + 1, c);
                        lemma_mod_ne(t, i + 1, n, c);
                    } else {
                        lemma_mod_shift(t, n, c);
                    }
                }
                assert(self.contents() =~= old_contents.drop_first().push(byte));
            }
        } else {
            self.len = self.len + 1;
            proof {
                let c = cap as int;
                assert(self.head as int == (self.tail + self.len) % c) by {
                    lemma_mod_add_one(t + n, c);
                }
                assert forall|i: int| 0 <= i < n + 1 implies
                    #[trigger] self.contents()[i] == old_contents.push(byte)[i] by {
                    if i < n {
                        lemma_mod_ne(t, i, n, c);
                    }
                }
                assert(self.contents() =~= old_contents.push(byte));
            }
        }
    }

    /// Pushes multiple bytes to the buffer, one after the other.
    pub fn push_bytes(&mut self, bytes: &[u8])
        requires
            old(self).wf(),
        ensures
            final(self).wf(),
            final(self).capacity() == old(self).capacity(),
            final(self).contents() == push_all_spec(old(self).contents(), old(self).capacity(), bytes@),
            final(self).contents().len() <= final(self).capacity(),
            bytes@.len() >= old(self).capacity() ==> final(self).contents() == bytes@.subrange(
                bytes@.len() - old(self).capacity(),
                bytes@.len() as int,
            ),
            old(self).capacity() == 0 ==> final(self).contents().len() == 0,
    {
        let mut i: usize = 0;
        while i < bytes.len()
            invariant
                self.wf(),
                i <= bytes@.len(),
                self.capacity() == old(self).capacity(),
                self.contents() == push_all_spec(old(self).contents(), old(self).capacity(), bytes@.subrange(0, i as int)),
            decreases bytes@.len() - i,
        {
            proof {
                assert(bytes@.subrange(0, i + 1).drop_last() =~= bytes@.subrange(0, i as int));
            }
            self.push(bytes[i]);
            i = i + 1;
        }
        proof {
            assert(bytes@.subrange(0, i as int) =~= bytes@);
            let (c, n, b) = (old(self).contents(), old(self).capacity(), bytes@);
            lemma_push_all_last_n(c, n, b);
            if b.len() >= n {
                assert(last_n(c + b, n) =~= b.subrange(b.len() - n, b.len() as int));
            }
        }
    }

    /// Returns the number of bytes in the buffer.
    pub fn len(&self) -> (r: usize)
        requires
            self.wf(),
        ensures
            r == self.contents().len(),
            r <= self.capacity(),
    {
        self.len
    }

    /// Returns true if the buffer is empty.
    pub fn is_empty(&self) -> (r: bool)
        requires
            self.wf(),
        ensures
            r == (self.contents().len() == 0),
    {
        self.len == 0
    }
}

/// Iterator over the bytes of a [`LogBuffer`], oldest first.
pub struct LogBufferIter<'a> {
    buffer: &'a [u8],
    pos: usize,
    remaining: usize,
}

impl<'a> LogBufferIter<'a> {
    /// The bytes that are still to come, in order.
    pub closed spec fn rest(&self) -> Seq<u8> {
        Seq::new(self.remaining as nat, |i: int| self.buffer@[(self.pos + i) % (self.buffer@.len() as int)])
    }

    pub closed spec fn wf(&self) -> bool {
        &&& self.remaining <= self.buffer@.len()
        &&& self.buffer@.len() > 0 ==> self.pos < self.buffer@.len()
    }

    /// Yields the next byte, or `None` once every buffered byte has been seen.
    pub fn next(&mut self) -> (r: Option<u8>)
        requires
            old(self).wf(),
        ensures
            final(self).wf(),
            old(self).rest().len() == 0 ==> r is None && final(self).rest() == old(self).rest(),
            old(self).rest().len() > 0 ==> r == Some(old(self).rest()[0])
                && final(self).rest() == old(self).rest().drop_first(),
    {
        if self.remaining == 0 {
            return None;
        }
        let ghost old_rest = self.rest();
        let ghost p = self.pos as int;
        let byte = self.buffer[self.pos];
        self.pos = (self.pos + 1) % self.buffer.len();
        self.remaining = self.remaining - 1;
        proof {
            let c = self.buffer@.len() as int;
            assert(old_rest[0] == byte) by {
                vstd::arithmetic::div_mod::lemma_small_mod(p as nat, c as nat);
            }
            assert forall|i: int| 0 <= i < self.remaining implies
                #[trigger] self.rest()[i] == old_rest.drop_first()[i] by {
                lemma_mod_add_one(p, c);
                vstd::arithmetic::div_mod::lemma_small_mod(p as nat, c as nat);
                lemma_mod_shift(p + 1, i, c);
            }
            assert(self.rest() =~= old_rest.drop_first());
        }
        Some(byte)
    }
}

impl LogBuffer {
    /// Iterates over all bytes in the buffer (oldest to newest).
    pub fn iter(&self) -> (r: LogBufferIter<'_>)
        requires
            self.wf(),
        ensures
            r.wf(),
            r.rest() == self.contents(),
    {
        let r = LogBufferIter { buffer: self.buffer.as_slice(), pos: self.tail, remaining: self.len };
        assert(r.rest() =~= self.contents());
        r
    }

    /// The buffered bytes, oldest first, as a vector.
    pub fn to_vec(&self) -> (r: Vec<u8>)
        requires
            self.wf(),
        ensures
            r@ == self.contents(),
    {
        let mut out: Vec<u8> = Vec::new();
        let mut it = self.iter();
        while it.remaining > 0
            invariant
                it.wf(),
                out@ + it.rest() == self.contents(),
            decreases it.remaining,
        {
            let ghost rest = it.rest();
            let b = it.next();
            match b {
                Some(v) => {
                    out.push(v);
                },
                None => {},
            }
            assert(out@ + it.rest() =~= self.contents()) by {
                assert(rest =~= seq![rest[0]] + rest.drop_first());
            }
        }
        assert(out@ + it.rest() =~= out@);
        out
    }
}

/// One push keeps exactly the last `cap` bytes of what was there plus the new byte.
proof fn lemma_push_last_n(t: Seq<u8>, cap: nat, x: u8)
    ensures
        push_spec(last_n(t, cap), cap, x) == last_n(t.push(x), cap),
{
    let l = last_n(t, cap);
    if cap == 0 {
        assert(last_n(t, cap) =~= Seq::<u8>::empty());
        assert(last_n(t.push(x), cap) =~= Seq::<u8>::empty());
    } else if t.len() < cap {
    } else {
        assert(l.drop_first().push(x) =~= last_n(t.push(x), cap));
    }
}

/// Pushing onto a buffer that holds at most `cap` bytes keeps the last `cap`
/// bytes of the old contents followed by the pushed ones.
pub proof fn lemma_push_all_last_n(contents: Seq<u8>, cap: nat, bytes: Seq<u8>)
    requires
        contents.len() <= cap,
    ensures
        push_all_spec(contents, cap, bytes) == last_n(contents + bytes, cap),
    decreases bytes.len(),
{
    if bytes.len() == 0 {
        assert(contents + bytes =~= contents);
    } else {
        lemma_push_all_last_n(contents, cap, bytes.drop_last());
        lemma_push_last_n(contents + bytes.drop_last(), cap, bytes.last());
        assert((contents + bytes.drop_last()).push(bytes.last()) =~= contents + bytes);
    }
}

/// Ring buffer eviction: pushing any bytes into an empty buffer of capacity `cap`
/// leaves exactly the last `cap` of them, oldest first; when there are no more
/// than `cap` of them, all of them in input order, and none at all when none
/// were pushed.
pub proof fn lemma_eviction(cap: nat, bytes: Seq<u8>)
    ensures
        bytes.len() > cap ==> push_all_spec(Seq::empty(), cap, bytes)
            == bytes.subrange(bytes.len() - cap, bytes.len() as int),
        bytes.len() <= cap ==> push_all_spec(Seq::empty(), cap, bytes) == bytes,
        push_all_spec(Seq::empty(), cap, bytes).len() == if bytes.len() <= cap { bytes.len() } else { cap },
{
    lemma_push_all_last_n(Seq::empty(), cap, bytes);
    assert(Seq::<u8>::empty() + bytes =~= bytes);
}

proof fn lemma_mod_add_one(a: int, c: int)
    requires
        0 <= a,
        0 < c,
    ensures
        (a + 1) % c == ((a % c) + 1) % c,
{
    vstd::arithmetic::div_mod::lemma_add_mod_noop(a, 1, c);
    if c > 1 {
        vstd::arithmetic::div_mod::lemma_small_mod(1nat, c as nat);
    } else {
        assert((a + 1) % c == 0 && ((a % c) + 1) % c == 0) by (nonlinear_arith)
            requires
                c == 1,
        ;
    }
}

proof fn lemma_mod_shift(a: int, i: int, c: int)
    requires
        0 <= a,
        0 <= i,
        0 < c,
    ensures
        ((a % c) + i) % c == (a + i) % c,
{
    vstd::arithmetic::div_mod::lemma_add_mod_noop(a, i, c);
    vstd::arithmetic::div_mod::lemma_mod_twice(i, c);
    vstd::arithmetic::div_mod::lemma_add_mod_noop(a % c, i, c);
    vstd::arithmetic::div_mod::lemma_mod_twice(a, c);
}

/// Distinct offsets below the modulus land on distinct slots.
proof fn lemma_mod_ne(a: int, i: int, j: int, c: int)
    requires
        0 <= a,
        0 <= i < j,
        j <= c,
        0 < c,
        i < c,
    ensures
        (a + i) % c != (a + j) % c || j == c && i == 0,
    decreases j,
{
    if j < c {
        vstd::arithmetic::div_mod::lemma_fundamental_div_mod(a + i, c);
        vstd::arithmetic::div_mod::lemma_fundamental_div_mod(a + j, c);
        if (a + i) % c == (a + j) % c {
            assert((j - i) == c * ((a + j) / c - (a + i) / c)) by (nonlinear_arith)
                requires
                    a + i == c * ((a + i) / c) + (a + i) % c,
                    a + j == c * ((a + j) / c) + (a + j) % c,
                    (a + i) % c == (a + j) % c,
            ;
            let k = (a + j) / c - (a + i) / c;
            assert(false) by (nonlinear_arith)
                requires
                    j - i == c * k,
                    0 < j - i < c,
            ;
        }
    } else {
        if i != 0 {
            lemma_mod_ne(a, 0, i, c);
        }
        vstd::arithmetic::div_mod::lemma_fundamental_div_mod(a + c, c);
        vstd::arithmetic::div_mod::lemma_mod_add_multiples_vanish(a, c);
    }
}

} // verus!
