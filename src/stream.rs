use vstd::prelude::*;
use vstd::utf8::{decode_utf8, decode_utf8_encode_utf8, encode_utf8, encode_utf8_decode_utf8, valid_utf8};
use vstd::string::StringSliceAdditionalSpecFns;

verus! {

/// Number of bytes in one content window.
pub const WINDOW_SIZE: usize = 10;

/// Number of windows of width `w` needed to cover `len` bytes.
pub open spec fn window_count(len: nat, w: nat) -> nat
    recommends
        w > 0,
{
    if len == 0 {
        0
    } else {
        ((len - 1) as nat / w + 1) as nat
    }
}

/// The `i`-th window of width `w` over `s`; the last one may be shorter.
pub open spec fn window(s: Seq<u8>, w: nat, i: int) -> Seq<u8> {
    let lo = i * w;
    let hi = if (i + 1) * w <= s.len() {
        (i + 1) * w
    } else {
        s.len() as int
    };
    s.subrange(lo, hi)
}

/// All windows of `s`, in order.
pub open spec fn windows(s: Seq<u8>, w: nat) -> Seq<Seq<u8>> {
    Seq::new(window_count(s.len(), w), |i: int| window(s, w, i))
}

proof fn lemma_windows_prefix(s: Seq<u8>, w: nat, k: nat)
    requires
        w > 0,
        k <= window_count(s.len(), w),
    ensures
        k * w <= s.len() ==> windows(s, w).take(k as int).flatten() == s.subrange(0, (k * w) as int),
        k * w > s.len() ==> windows(s, w).take(k as int).flatten() == s,
    decreases k,
{
    let ws = windows(s, w);
    if k == 0 {
        assert(ws.take(0) =~= Seq::<Seq<u8>>::empty());
        assert(s.subrange(0, 0) =~= Seq::<u8>::empty());
        assert(0 * w == 0) by (nonlinear_arith);
    } else {
        let j = (k - 1) as nat;
        lemma_windows_prefix(s, w, j);
        assert(ws.take(k as int) =~= ws.take(j as int).push(ws[j as int]));
        ws.take(j as int).lemma_flatten_push(ws[j as int]);
        assert(k * w == j * w + w) by (nonlinear_arith)
            requires k == j + 1;
        if j * w >= s.len() {
            // The previous window would already have been past the end.
            let n = s.len();
            assert(n > 0);
            assert((n - 1) as nat / w * w <= (n - 1) as nat) by (nonlinear_arith)
                requires w > 0;
            assert(j <= (n - 1) as nat / w);
            assert(j * w <= (n - 1) as nat / w * w) by (nonlinear_arith)
                requires j <= (n - 1) as nat / w;
            assert(false);
        }
        assert(s.subrange(0, (j * w) as int) + window(s, w, j as int) =~= if k * w <= s.len() {
            s.subrange(0, (k * w) as int)
        } else {
            s
        });
    }
}

/// Concatenating the windows of a text gives the text back, every window
/// holds between one and `w` bytes, and there are `ceil(len / w)` of them.
pub proof fn windows_reassemble(s: Seq<u8>, w: nat)
    requires
        w > 0,
    ensures
        windows(s, w).flatten() == s,
        windows(s, w).len() * w >= s.len(),
        windows(s, w).len() == 0 || (windows(s, w).len() - 1) * w < s.len(),
        forall|i: int|
            0 <= i < windows(s, w).len() ==> 0 < #[trigger] windows(s, w)[i].len() <= w,
{
    let c = window_count(s.len(), w);
    lemma_windows_prefix(s, w, c);
    assert(windows(s, w).take(c as int) =~= windows(s, w));
    if s.len() > 0 {
        let n = s.len();
        let q = (n - 1) as nat / w;
        assert(q * w <= (n - 1) as nat && ((n - 1) as nat) < q * w + w) by (nonlinear_arith)
            requires w > 0, q == (n - 1) as nat / w;
        assert(c * w == q * w + w) by (nonlinear_arith)
            requires c == q + 1;
        assert(c * w >= n);
        assert forall|i: int| 0 <= i < c implies 0 < #[trigger] windows(s, w)[i].len() <= w by {
            assert(i * w <= q * w) by (nonlinear_arith)
                requires i <= q, w > 0;
            assert((i + 1) * w == i * w + w) by (nonlinear_arith);
        }
        assert(s.subrange(0, n as int) =~= s);
    } else {
        assert(c * w == 0) by (nonlinear_arith) requires c == 0;
        assert(s.subrange(0, 0) =~= s);
    }
}

/// Cuts `bytes` into consecutive windows of `w` bytes; only the last may be shorter.
pub fn split_windows(bytes: &[u8], w: usize) -> (r: Vec<Vec<u8>>)
    requires
        w > 0,
    ensures
        r@.len() == window_count(bytes@.len(), w as nat),
        forall|i: int| 0 <= i < r@.len() ==> #[trigger] r@[i]@ == window(bytes@, w as nat, i),
{
    let n = bytes.len();
    let mut r: Vec<Vec<u8>> = Vec::new();
    let mut start: usize = 0;
    assert(0 * w == 0) by (nonlinear_arith);
    while start < n
        invariant
            w > 0,
            n == bytes@.len(),
            start <= n,
            start < n ==> start == r@.len() * w,
            r@.len() == window_count(start as nat, w as nat),
            forall|i: int| 0 <= i < r@.len() ==> #[trigger] r@[i]@ == window(bytes@, w as nat, i),
        decreases n - start,
    {
        let end: usize = if n - start > w { start + w } else { n };
        let mut piece: Vec<u8> = Vec::new();
        let mut k: usize = start;
        while k < end
            invariant
                start <= k <= end <= n,
                n == bytes@.len(),
                piece@ == bytes@.subrange(start as int, k as int),
            decreases end - k,
        {
            piece.push(bytes[k]);
            k = k + 1;
            assert(piece@ =~= bytes@.subrange(start as int, k as int));
        }
        let ghost idx = r@.len() as int;
        proof {
            assert(idx * w == start);
            assert((idx + 1) * w == start + w) by (nonlinear_arith)
                requires idx * w == start;
            assert(piece@ == window(bytes@, w as nat, idx));
        }
        r.push(piece);
        proof {
            let c = r@.len() as nat;
            assert(c * w == start + w) by (nonlinear_arith)
                requires c == idx + 1, idx * w == start;
            if end == start + w {
                assert(((end - 1) as nat / (w as nat)) == idx) by (nonlinear_arith)
                    requires end == start + w, idx * w == start, w > 0, idx >= 0;
            } else {
                assert(((end - 1) as nat / (w as nat)) == idx) by (nonlinear_arith)
                    requires end <= start + w, end > start, idx * w == start, w > 0, idx >= 0;
            }
        }
        start = end;
    }
    r
}

} // verus!

verus! {

/// Relies on `String::from_utf8_lossy`: the text depends on the bytes alone.
pub uninterp spec fn lossy_text_of(b: Seq<u8>) -> Seq<char>;

/// Relies on `String::from_utf8_lossy`: valid UTF-8 is decoded as it is,
/// invalid sequences become replacement characters.
#[verifier::external_body]
fn lossy_text(b: &[u8]) -> (r: String)
    ensures
        r@ == lossy_text_of(b@),
        valid_utf8(b@) ==> r@ == decode_utf8(b@),
{
    String::from_utf8_lossy(b).to_string()
}

/// The content deltas of a text: one lossy decoding per byte window.
pub open spec fn chunk_texts(s: &str) -> Seq<Seq<char>> {
    windows(s.spec_bytes(), WINDOW_SIZE as nat).map_values(|b: Seq<u8>| lossy_text_of(b))
}

/// Splits a text into the content deltas of its stream, one per window of
/// `WINDOW_SIZE` bytes; a window may cut through a multi-byte character.
pub fn split_into_chunks(input: &str) -> (r: Vec<String>)
    ensures
        r@.len() == window_count(input.spec_bytes().len(), WINDOW_SIZE as nat),
        forall|i: int| 0 <= i < r@.len() ==> #[trigger] r@[i]@ == chunk_texts(input)[i],
        forall|i: int|
            0 <= i < r@.len() && valid_utf8(window(input.spec_bytes(), WINDOW_SIZE as nat, i))
                ==> #[trigger] r@[i]@ == decode_utf8(window(input.spec_bytes(), WINDOW_SIZE as nat, i)),
{
    let bytes = input.as_bytes();
    let parts = split_windows(bytes, WINDOW_SIZE);
    let mut out: Vec<String> = Vec::new();
    let mut i: usize = 0;
    while i < parts.len()
        invariant
            i <= parts@.len(),
            bytes@ == input.spec_bytes(),
            parts@.len() == window_count(bytes@.len(), WINDOW_SIZE as nat),
            forall|j: int| 0 <= j < parts@.len() ==> #[trigger] parts@[j]@ == window(bytes@, WINDOW_SIZE as nat, j),
            out@.len() == i,
            forall|j: int| 0 <= j < i ==> #[trigger] out@[j]@ == chunk_texts(input)[j],
            forall|j: int|
                0 <= j < i && valid_utf8(window(bytes@, WINDOW_SIZE as nat, j))
                    ==> #[trigger] out@[j]@ == decode_utf8(window(bytes@, WINDOW_SIZE as nat, j)),
        decreases parts@.len() - i,
    {
        let t = lossy_text(parts[i].as_slice());
        out.push(t);
        i = i + 1;
    }
    out
}

/// What the streaming task sends next.
#[derive(Debug, Clone, Copy, PartialEq, Eq, Structural)]
pub enum StreamEvent {
    /// The content chunk for the window of this index.
    Content(usize),
    /// The single terminal chunk carrying the usage summary.
    Usage,
    /// The literal completion sentinel.
    Sentinel,
}

/// Where a stream stands.
#[derive(Debug, Clone, Copy, PartialEq, Eq, Structural)]
pub enum Phase {
    /// Content chunks are still owed.
    Streaming,
    /// The usage chunk is owed.
    Finalizing,
    /// The sentinel is owed.
    Done,
    /// Nothing more is sent: the stream ended or its consumer left.
    Closed,
}

/// The event due after `sent` successful sends of a stream of `total` windows.
pub open spec fn event_at(total: nat, sent: nat) -> Option<StreamEvent> {
    if sent < total {
        Some(StreamEvent::Content(sent as usize))
    } else if sent == total {
        Some(StreamEvent::Usage)
    } else if sent == total + 1 {
        Some(StreamEvent::Sentinel)
    } else {
        None
    }
}

/// Decides what one streaming session sends next: the content chunks by
/// increasing window, then the usage chunk, then the sentinel, stopping for
/// good at the first send its consumer does not take.
pub struct ChunkStreamer {
    total: usize,
    sent: usize,
    stopped: bool,
}

impl ChunkStreamer {
    pub closed spec fn total(&self) -> nat {
        self.total as nat
    }

    pub closed spec fn sent(&self) -> nat {
        self.sent as nat
    }

    pub closed spec fn stopped(&self) -> bool {
        self.stopped
    }

    pub closed spec fn wf(&self) -> bool {
        self.total + 2 <= usize::MAX && self.sent <= self.total + 2
    }

    /// The event still owed by this stream, if any.
    pub open spec fn pending(&self) -> Option<StreamEvent> {
        if self.stopped() {
            None
        } else {
            event_at(self.total(), self.sent())
        }
    }

    pub open spec fn phase_spec(&self) -> Phase {
        if self.stopped() || self.sent() > self.total() + 1 {
            Phase::Closed
        } else if self.sent() < self.total() {
            Phase::Streaming
        } else if self.sent() == self.total() {
            Phase::Finalizing
        } else {
            Phase::Done
        }
    }

    /// A stream over `total` content windows, nothing sent yet.
    pub fn new(total: usize) -> (r: ChunkStreamer)
        requires
            total + 2 <= usize::MAX,
        ensures
            r.wf(),
            r.total() == total,
            r.sent() == 0,
            !r.stopped(),
    {
        ChunkStreamer { total, sent: 0, stopped: false }
    }

    pub fn phase(&self) -> (r: Phase)
        requires
            self.wf(),
        ensures
            r == self.phase_spec(),
    {
        if self.stopped || self.sent > self.total + 1 {
            Phase::Closed
        } else if self.sent < self.total {
            Phase::Streaming
        } else if self.sent == self.total {
            Phase::Finalizing
        } else {
            Phase::Done
        }
    }

    /// The next event to send; `None` once the stream is closed.
    pub fn next_event(&self) -> (r: Option<StreamEvent>)
        requires
            self.wf(),
        ensures
            r == self.pending(),
    {
        if self.stopped {
            None
        } else if self.sent < self.total {
            Some(StreamEvent::Content(self.sent))
        } else if self.sent == self.total {
            Some(StreamEvent::Usage)
        } else if self.sent == self.total + 1 {
            Some(StreamEvent::Sentinel)
        } else {
            None
        }
    }

    /// Records the outcome of sending the pending event. A failed send means
    /// the consumer left: the stream closes at once, with nothing more owed.
    pub fn on_sent(&mut self, delivered: bool)
        requires
            old(self).wf(),
            old(self).pending() is Some,
        ensures
            final(self).wf(),
            final(self).total() == old(self).total(),
            delivered ==> final(self).sent() == old(self).sent() + 1 && !final(self).stopped(),
            !delivered ==> final(self).stopped() && final(self).pending() is None,
    {
        if delivered {
            self.sent = self.sent + 1;
        } else {
            self.stopped = true;
        }
    }
}

/// A stream whose sends all succeed delivers exactly `total` content chunks in
/// window order, then one usage chunk, then one sentinel, then closes; a
/// stream that lost its consumer owes nothing more.
pub proof fn stream_order(s: ChunkStreamer)
    ensures
        forall|k: nat| k < s.total() ==> event_at(s.total(), k) == Some(StreamEvent::Content(k as usize)),
        event_at(s.total(), s.total()) == Some(StreamEvent::Usage),
        event_at(s.total(), s.total() + 1) == Some(StreamEvent::Sentinel),
        forall|k: nat| k > s.total() + 1 ==> event_at(s.total(), k) is None,
        s.stopped() ==> s.pending() is None,
{
}

proof fn lemma_encode_concat(a: Seq<char>, b: Seq<char>)
    ensures
        encode_utf8(a + b) == encode_utf8(a) + encode_utf8(b),
    decreases a.len(),
{
    if a.len() == 0 {
        assert(a + b =~= b);
        assert(encode_utf8(a) + encode_utf8(b) =~= encode_utf8(b));
    } else {
        assert((a + b).drop_first() =~= a.drop_first() + b);
        assert((a + b)[0] == a[0]);
        lemma_encode_concat(a.drop_first(), b);
        assert(encode_utf8(a + b) =~= encode_utf8(a) + encode_utf8(b));
    }
}

proof fn lemma_encode_flatten(cs: Seq<Seq<char>>)
    ensures
        encode_utf8(cs.flatten()) == cs.map_values(|c: Seq<char>| encode_utf8(c)).flatten(),
    decreases cs.len(),
{
    let es = cs.map_values(|c: Seq<char>| encode_utf8(c));
    if cs.len() == 0 {
        assert(es =~= Seq::<Seq<u8>>::empty());
        assert(encode_utf8(cs.flatten()) =~= Seq::<u8>::empty());
    } else {
        lemma_encode_concat(cs[0], cs.drop_first().flatten());
        lemma_encode_flatten(cs.drop_first());
        assert(es.drop_first() =~= cs.drop_first().map_values(|c: Seq<char>| encode_utf8(c)));
    }
}

/// When no window cuts through a character, the decoded content deltas of a
/// text, concatenated, are the text itself.
pub proof fn deltas_reassemble(text: Seq<char>)
    requires
        forall|i: int|
            0 <= i < windows(encode_utf8(text), WINDOW_SIZE as nat).len()
                ==> valid_utf8(#[trigger] windows(encode_utf8(text), WINDOW_SIZE as nat)[i]),
    ensures
        windows(encode_utf8(text), WINDOW_SIZE as nat).map_values(|b: Seq<u8>| decode_utf8(b)).flatten() == text,
{
    let ws = windows(encode_utf8(text), WINDOW_SIZE as nat);
    let cs = ws.map_values(|b: Seq<u8>| decode_utf8(b));
    windows_reassemble(encode_utf8(text), WINDOW_SIZE as nat);
    assert forall|i: int| 0 <= i < cs.len() implies encode_utf8(#[trigger] cs[i]) == ws[i] by {
        decode_utf8_encode_utf8(ws[i]);
    }
    assert(cs.map_values(|c: Seq<char>| encode_utf8(c)) =~= ws);
    lemma_encode_flatten(cs);
    encode_utf8_decode_utf8(cs.flatten());
    encode_utf8_decode_utf8(text);
}

} // verus!
