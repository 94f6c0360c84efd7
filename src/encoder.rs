use vstd::prelude::*;

verus! {

/// The lower-case hexadecimal digit of `d`.
pub open spec fn hex_digit(d: nat) -> u8
    recommends
        d < 16,
{
    if d < 10 {
        (48 + d) as u8
    } else {
        (87 + d) as u8
    }
}

/// The lower-case hexadecimal form of `n`, without leading zeros.
pub open spec fn hex(n: nat) -> Seq<u8>
    decreases n,
{
    if n < 16 {
        seq![hex_digit(n)]
    } else {
        hex(n / 16).push(hex_digit(n % 16))
    }
}

/// Carriage return and line feed.
pub open spec fn crlf() -> Seq<u8> {
    seq![13u8, 10u8]
}

/// One chunk of the transfer coding: its length in hex, CRLF, the data,
/// CRLF.
pub open spec fn frame(data: Seq<u8>) -> Seq<u8> {
    hex(data.len()) + crlf() + data + crlf()
}

/// The chunks of `k` bytes that `data` holds, each framed, in order.
pub open spec fn chunked(data: Seq<u8>, k: nat) -> Seq<u8>
    decreases data.len(),
{
    if k == 0 || data.len() < k {
        seq![]
    } else {
        frame(data.take(k as int)) + chunked(data.skip(k as int), k)
    }
}

/// What remains of `data` once every whole chunk of `k` bytes is taken.
pub open spec fn remainder(data: Seq<u8>, k: nat) -> Seq<u8>
    decreases data.len(),
{
    if k == 0 || data.len() < k {
        data
    } else {
        remainder(data.skip(k as int), k)
    }
}

/// The frame of what `flush` sends for `buffer`: nothing when it is empty.
pub open spec fn flushed(buffer: Seq<u8>) -> Seq<u8> {
    if buffer.len() == 0 {
        seq![]
    } else {
        frame(buffer)
    }
}

fn push_hex(out: &mut Vec<u8>, n: usize)
    ensures
        final(out)@ == old(out)@ + hex(n as nat),
    decreases n,
{
    if n >= 16 {
        push_hex(out, n / 16);
    }
    let d: usize = n % 16;
    let b: u8 = if d < 10 {
        48 + d as u8
    } else {
        87 + d as u8
    };
    out.push(b);
    proof {
        if n >= 16 {
            assert(hex(n as nat) == hex((n / 16) as nat).push(hex_digit((n % 16) as nat)));
        }
    }
    assert(final(out)@ =~= old(out)@ + hex(n as nat));
}

fn push_bytes(out: &mut Vec<u8>, data: &[u8], lo: usize, hi: usize)
    requires
        lo <= hi <= data@.len(),
    ensures
        final(out)@ == old(out)@ + data@.subrange(lo as int, hi as int),
{
    let mut i: usize = lo;
    while i < hi
        invariant
            lo <= i <= hi,
            hi <= data@.len(),
            out@ == old(out)@ + data@.subrange(lo as int, i as int),
        decreases hi - i,
    {
        out.push(data[i]);
        i = i + 1;
        assert(out@ =~= old(out)@ + data@.subrange(lo as int, i as int));
    }
}

/// Writes one chunk: the length of `data` in hex, CRLF, `data`, CRLF.
pub fn send(output: &mut Vec<u8>, data: &[u8])
    ensures
        final(output)@ == old(output)@ + frame(data@),
{
    push_hex(output, data.len());
    output.push(13u8);
    output.push(10u8);
    push_bytes(output, data, 0, data.len());
    output.push(13u8);
    output.push(10u8);
    assert(data@.subrange(0, data@.len() as int) =~= data@);
    assert(output@ =~= old(output)@ + frame(data@));
}

/// Splits the data written to it into chunks of the HTTP chunked transfer
/// coding, appended to `output`.
pub struct Encoder {
    output: Vec<u8>,
    chunks_size: usize,
    buffer: Vec<u8>,
}

impl Encoder {
    /// The bytes sent so far.
    pub closed spec fn sent(&self) -> Seq<u8> {
        self.output@
    }

    /// The bytes written but not yet sent.
    pub closed spec fn pending(&self) -> Seq<u8> {
        self.buffer@
    }

    /// The size of each chunk.
    pub closed spec fn chunk_len(&self) -> nat {
        self.chunks_size as nat
    }

    /// Fewer bytes wait than make one chunk.
    pub open spec fn wf(&self) -> bool {
        self.chunk_len() > 0 && self.pending().len() < self.chunk_len()
    }

    /// An encoder with chunks of 8192 bytes.
    pub fn new(output: Vec<u8>) -> (r: Encoder)
        ensures
            r.wf(),
            r.sent() == output@,
            r.pending() == Seq::<u8>::empty(),
            r.chunk_len() == 8192,
    {
        Encoder::with_chunks_size(output, 8192)
    }

    /// An encoder with chunks of `chunks` bytes.
    pub fn with_chunks_size(output: Vec<u8>, chunks: usize) -> (r: Encoder)
        requires
            chunks > 0,
        ensures
            r.wf(),
            r.sent() == output@,
            r.pending() == Seq::<u8>::empty(),
            r.chunk_len() == chunks,
    {
        Encoder { output: output, chunks_size: chunks, buffer: Vec::new() }
    }

    /// The bytes sent so far.
    pub fn written(&self) -> (r: &Vec<u8>)
        ensures
            r@ == self.sent(),
    {
        &self.output
    }

    /// Accepts all of `buf` and sends every whole chunk that is now
    /// pending.
    pub fn write(&mut self, buf: &[u8]) -> (r: usize)
        requires
            old(self).wf(),
        ensures
            final(self).wf(),
            r == buf@.len(),
            final(self).chunk_len() == old(self).chunk_len(),
            final(self).sent() == old(self).sent() + chunked(
                old(self).pending() + buf@,
                old(self).chunk_len(),
            ),
            final(self).pending() == remainder(old(self).pending() + buf@, old(self).chunk_len()),
    {
        let ghost k = self.chunks_size as nat;
        let ghost all = self.buffer@ + buf@;
        push_bytes(&mut self.buffer, buf, 0, buf.len());
        assert(buf@.subrange(0, buf@.len() as int) =~= buf@);
        while self.buffer.len() >= self.chunks_size
            invariant
                self.chunks_size == k,
                k > 0,
                self.output@ + chunked(self.buffer@, k) == old(self).output@ + chunked(all, k),
                remainder(self.buffer@, k) == remainder(all, k),
            decreases self.buffer.len(),
        {
            let ghost b = self.buffer@;
            send(&mut self.output, &self.buffer.as_slice()[0..self.chunks_size]);
            let mut rest: Vec<u8> = Vec::new();
            push_bytes(&mut rest, self.buffer.as_slice(), self.chunks_size, self.buffer.len());
            self.buffer = rest;
            proof {
                assert(b.take(k as int) =~= b.subrange(0, k as int));
                assert(self.buffer@ =~= b.skip(k as int));
                assert(self.output@ + chunked(self.buffer@, k) =~= old(self).output@ + chunked(
                    all,
                    k,
                ));
            }
        }
        buf.len()
    }

    /// Sends what is pending as one chunk, if anything is.
    pub fn flush(&mut self)
        requires
            old(self).wf(),
        ensures
            final(self).wf(),
            final(self).chunk_len() == old(self).chunk_len(),
            final(self).sent() == old(self).sent() + flushed(old(self).pending()),
            final(self).pending() == Seq::<u8>::empty(),
    {
        if self.buffer.len() == 0 {
            assert(self.output@ =~= old(self).output@ + flushed(old(self).pending()));
            return ;
        }
        send(&mut self.output, self.buffer.as_slice());
        self.buffer.clear();
    }

    /// Flushes, writes the terminating empty chunk and returns the output.
    pub fn finish(self) -> (r: Vec<u8>)
        requires
            self.wf(),
        ensures
            r@ == self.sent() + flushed(self.pending()) + frame(Seq::<u8>::empty()),
    {
        let mut e = self;
        e.flush();
        let empty: Vec<u8> = Vec::new();
        send(&mut e.output, empty.as_slice());
        e.output
    }
}

} // verus!
