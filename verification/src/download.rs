//! The download engine's verified core: an artifact of known length is
//! fetched as a sequence of fixed-size byte ranges, strictly in order, and a
//! failed range is retried after an exponentially growing, capped backoff
//! that resets at the start of each new chunk.
//!
//! The network itself stays outside; this module decides which range to
//! request next, how long to sleep before a retry, and accumulates the bytes
//! that arrive.

use vstd::arithmetic::div_mod::lemma_fundamental_div_mod;
use vstd::arithmetic::mul::lemma_mul_inequality;
use vstd::prelude::*;

verus! {

/// How many chunks of size `c` cover `l` bytes: the ceiling of `l / c`.
pub open spec fn ceil_div(l: int, c: int) -> int {
    (l + c - 1) / c
}

/// The `i`-th chunk of `[0, l)` under chunk size `c`, as a half-open byte
/// range.
pub open spec fn chunk_of(l: int, c: int, i: int) -> (int, int) {
    (i * c, vstd::math::min(i * c + c, l))
}

proof fn lemma_ceil_div_bounds(l: int, c: int)
    requires
        c >= 1,
        l >= 0,
    ensures
        ceil_div(l, c) * c >= l,
        (ceil_div(l, c) - 1) * c < l,
        0 <= ceil_div(l, c) <= l,
{
    lemma_fundamental_div_mod(l + c - 1, c);
    let q = ceil_div(l, c);
    let r = (l + c - 1) % c;
    assert(l + c - 1 == q * c + r) by (nonlinear_arith)
        requires
            l + c - 1 == c * q + r,
    ;
    assert((q - 1) * c == q * c - c) by (nonlinear_arith);
    assert(q * c <= l * c) by (nonlinear_arith)
        requires
            q * c == l + c - 1 - r,
            0 <= r < c,
            l >= 0,
            c >= 1,
    ;
    assert(q <= l) by (nonlinear_arith)
        requires
            q * c <= l * c,
            c >= 1,
    ;
}

proof fn lemma_ceil_div_formula(l: int, c: int)
    requires
        c >= 1,
        l >= 0,
    ensures
        ceil_div(l, c) == l / c + if l % c == 0 {
            0int
        } else {
            1int
        },
{
    lemma_fundamental_div_mod(l + c - 1, c);
    lemma_fundamental_div_mod(l, c);
    let q1 = (l + c - 1) / c;
    let r1 = (l + c - 1) % c;
    let q2 = l / c;
    let r2 = l % c;
    if r2 == 0 {
        assert(q1 == q2) by (nonlinear_arith)
            requires
                l + c - 1 == c * q1 + r1,
                l == c * q2,
                0 <= r1 < c,
                c >= 1,
        ;
    } else {
        assert(q1 == q2 + 1) by (nonlinear_arith)
            requires
                l + c - 1 == c * q1 + r1,
                l == c * q2 + r2,
                0 <= r1 < c,
                0 < r2 < c,
                c >= 1,
        ;
    }
}

/// The ranges the engine requests for an artifact of `length` bytes with the
/// given chunk size: exactly `ceil(length / chunk_size)` half-open ranges,
/// chunk `i` starting at `i * chunk_size`, together covering `[0, length)`
/// exactly once, in strictly increasing offset order.
pub fn plan_chunks(length: u64, chunk_size: u64) -> (r: Vec<(u64, u64)>)
    requires
        chunk_size >= 1,
    ensures
        r@.len() == ceil_div(length as int, chunk_size as int),
        forall|i: int|
            0 <= i < r@.len() ==> ((#[trigger] r@[i]).0 as int, r@[i].1 as int) == chunk_of(
                length as int,
                chunk_size as int,
                i,
            ),
{
    let ghost l = length as int;
    let ghost c = chunk_size as int;
    proof {
        lemma_ceil_div_bounds(l, c);
        lemma_ceil_div_formula(l, c);
    }
    let count: u64 = length / chunk_size + if length % chunk_size == 0 {
        0
    } else {
        1
    };
    let mut r: Vec<(u64, u64)> = Vec::new();
    let mut start: u64 = 0;
    let mut i: u64 = 0;
    while i < count
        invariant
            chunk_size >= 1,
            l == length as int,
            c == chunk_size as int,
            count == ceil_div(l, c),
            i <= count,
            r@.len() == i as int,
            start as int == vstd::math::min(i as int * c, l),
            forall|j: int|
                0 <= j < i as int ==> ((#[trigger] r@[j]).0 as int, r@[j].1 as int) == chunk_of(
                    l,
                    c,
                    j,
                ),
        decreases count - i,
    {
        proof {
            lemma_ceil_div_bounds(l, c);
            lemma_mul_inequality(i as int, count - 1, c);
            assert((count - 1) * c < l);
            assert(i as int * c + c == (i as int + 1) * c) by (nonlinear_arith);
        }
        let end: u64 = if length - start <= chunk_size {
            length
        } else {
            start + chunk_size
        };
        r.push((start, end));
        start = end;
        i = i + 1;
    }
    r
}

/// The planned chunks partition `[0, length)` exactly: every byte of it lies
/// in chunk `b / c` and in no other, and the chunks stand in strictly
/// increasing offset order, so the ranges are non-overlapping and cover the
/// artifact exactly once.
pub proof fn lemma_chunks_partition(l: int, c: int)
    requires
        c >= 1,
        l >= 0,
    ensures
        forall|b: int|
            0 <= b < l ==> {
                &&& 0 <= #[trigger] (b / c) < ceil_div(l, c)
                &&& chunk_of(l, c, b / c).0 <= b < chunk_of(l, c, b / c).1
            },
        forall|i: int, b: int|
            0 <= i < ceil_div(l, c) && (#[trigger] chunk_of(l, c, i)).0 <= b < chunk_of(l, c, i).1
                ==> 0 <= b < l && i == #[trigger] (b / c),
        forall|i: int, j: int|
            0 <= i < j < ceil_div(l, c) ==> chunk_of(l, c, i).1 <= chunk_of(l, c, j).0,
{
    lemma_ceil_div_bounds(l, c);
    assert forall|b: int| 0 <= b < l implies {
        &&& 0 <= #[trigger] (b / c) < ceil_div(l, c)
        &&& chunk_of(l, c, b / c).0 <= b < chunk_of(l, c, b / c).1
    } by {
        lemma_fundamental_div_mod(b, c);
        let i = b / c;
        assert(i * c <= b < i * c + c) by (nonlinear_arith)
            requires
                b == c * i + b % c,
                0 <= b % c < c,
        ;
        assert(0 <= i) by (nonlinear_arith)
            requires
                b == c * i + b % c,
                0 <= b % c < c,
                0 <= b,
                c >= 1,
        ;
        if i >= ceil_div(l, c) {
            lemma_mul_inequality(ceil_div(l, c), i, c);
        }
    }
    assert forall|i: int, b: int|
        0 <= i < ceil_div(l, c) && (#[trigger] chunk_of(l, c, i)).0 <= b < chunk_of(l, c, i).1
        implies 0 <= b < l && i == #[trigger] (b / c) by {
        lemma_fundamental_div_mod(b, c);
        assert(i * c <= b < i * c + c);
        assert(0 <= b) by (nonlinear_arith)
            requires
                i * c <= b,
                0 <= i,
                c >= 1,
        ;
        assert(i == b / c) by (nonlinear_arith)
            requires
                b == c * (b / c) + b % c,
                0 <= b % c < c,
                i * c <= b < i * c + c,
        ;
    }
    assert forall|i: int, j: int| 0 <= i < j < ceil_div(l, c) implies chunk_of(l, c, i).1
        <= chunk_of(l, c, j).0 by {
        lemma_mul_inequality(i + 1, j, c);
        assert((i + 1) * c == i * c + c) by (nonlinear_arith);
    }
}

/// The percentage of `length` that `end` bytes amount to, rounded to the
/// nearest whole percent, halves rounding up.
pub fn progress_percent(end: u64, length: u64) -> (r: u64)
    requires
        length >= 1,
        end <= length,
    ensures
        r as int == (200 * end as int + length as int) / (2 * length as int),
        r <= 100,
{
    let q: u128 = (200u128 * (end as u128) + (length as u128)) / (2 * (length as u128));
    proof {
        let e = end as int;
        let l = length as int;
        lemma_fundamental_div_mod(200 * e + l, 2 * l);
        assert(0 <= (200 * e + l) / (2 * l) <= 100) by (nonlinear_arith)
            requires
                200 * e + l == (2 * l) * ((200 * e + l) / (2 * l)) + (200 * e + l) % (2 * l),
                0 <= (200 * e + l) % (2 * l) < 2 * l,
                0 <= e <= l,
                l >= 1,
        ;
    }
    q as u64
}

/// The mathematical state of one artifact's download.
pub ghost struct DownloadState {
    pub length: int,
    pub chunk_size: int,
    pub offset: int,
    pub chunks_done: int,
    pub timeout: int,
    pub retry_min: int,
    pub retry_max: int,
    pub data: Seq<u8>,
}

impl DownloadState {
    /// How many chunks the whole download takes.
    pub open spec fn num_chunks(&self) -> int {
        ceil_div(self.length, self.chunk_size)
    }

    /// Well-formed download state.
    pub open spec fn wf(&self) -> bool {
        &&& self.chunk_size >= 1
        &&& 0 <= self.length <= u64::MAX
        &&& 0 <= self.retry_min <= self.retry_max <= u64::MAX
        &&& self.retry_min <= self.timeout <= self.retry_max
        &&& self.offset == vstd::math::min(self.chunks_done * self.chunk_size, self.length)
        &&& 0 <= self.chunks_done <= self.num_chunks()
    }

    /// Every chunk fetched, and so every byte of `[0, length)` written.
    pub open spec fn is_done(&self) -> bool {
        self.offset == self.length
    }

    /// The state after one failed attempt at the current chunk: nothing
    /// fetched so far changes, and the retry delay doubles up to the ceiling.
    pub open spec fn on_failure(self) -> DownloadState {
        DownloadState { timeout: vstd::math::min(2 * self.timeout, self.retry_max), ..self }
    }

    /// The state after the current chunk's body arrived: the body is
    /// appended, the offset moves to the chunk's end, and the backoff resets
    /// to the floor for the next chunk.
    pub open spec fn on_success(self, body: Seq<u8>) -> DownloadState {
        DownloadState {
            offset: vstd::math::min(self.offset + self.chunk_size, self.length),
            chunks_done: self.chunks_done + 1,
            timeout: self.retry_min,
            data: self.data + body,
            ..self
        }
    }
}

/// The state of one artifact's chunked download: the planned extent, the
/// progress so far, the bytes fetched so far, and the backoff state for the
/// chunk currently being fetched.
pub struct Downloader {
    /// Total content length in bytes, learnt from the store's metadata.
    pub length: u64,
    /// Fixed chunk size; every range but possibly the last spans this much.
    pub chunk_size: u64,
    /// Bytes through the end of the last fetched chunk.
    pub offset: u64,
    /// Chunks fetched so far.
    pub chunks_done: u64,
    /// Seconds to sleep before the next retry of the current chunk.
    pub timeout: u64,
    /// The backoff floor: the delay each new chunk starts from.
    pub retry_min: u64,
    /// The backoff ceiling: the delay never grows past this.
    pub retry_max: u64,
    /// The bytes fetched so far, in offset order.
    pub data: Vec<u8>,
}

impl View for Downloader {
    type V = DownloadState;

    open spec fn view(&self) -> DownloadState {
        DownloadState {
            length: self.length as int,
            chunk_size: self.chunk_size as int,
            offset: self.offset as int,
            chunks_done: self.chunks_done as int,
            timeout: self.timeout as int,
            retry_min: self.retry_min as int,
            retry_max: self.retry_max as int,
            data: self.data@,
        }
    }
}

impl Downloader {
    /// Well-formed download state.
    pub open spec fn wf(&self) -> bool {
        self@.wf()
    }

    /// Fresh download state for an artifact of `length` bytes.
    pub fn new(length: u64, chunk_size: u64, retry_min: u64, retry_max: u64) -> (r: Downloader)
        requires
            chunk_size >= 1,
            retry_min <= retry_max,
        ensures
            r.wf(),
            r@ == (DownloadState {
                length: length as int,
                chunk_size: chunk_size as int,
                offset: 0,
                chunks_done: 0,
                timeout: retry_min as int,
                retry_min: retry_min as int,
                retry_max: retry_max as int,
                data: Seq::<u8>::empty(),
            }),
    {
        proof {
            lemma_ceil_div_bounds(length as int, chunk_size as int);
        }
        let d = Downloader {
            length,
            chunk_size,
            offset: 0,
            chunks_done: 0,
            timeout: retry_min,
            retry_min,
            retry_max,
            data: Vec::new(),
        };
        proof {
            assert(d@.data =~= Seq::<u8>::empty());
        }
        d
    }

    /// The next range to request: the current chunk as a half-open byte
    /// range, or nothing once the download is complete.
    pub fn current_request(&self) -> (r: Option<(u64, u64)>)
        requires
            self.wf(),
        ensures
            match r {
                Some(range) => !self@.is_done() && (range.0 as int, range.1 as int) == chunk_of(
                    self@.length,
                    self@.chunk_size,
                    self@.chunks_done,
                ) && range.0 == self.offset && self@.chunks_done < self@.num_chunks(),
                None => self@.is_done(),
            },
    {
        if self.offset >= self.length {
            return None;
        }
        proof {
            let l = self@.length;
            let c = self@.chunk_size;
            let k = self@.chunks_done;
            lemma_ceil_div_bounds(l, c);
            if k >= self@.num_chunks() {
                lemma_mul_inequality(self@.num_chunks(), k, c);
            }
        }
        let end: u64 = if self.length - self.offset <= self.chunk_size {
            self.length
        } else {
            self.offset + self.chunk_size
        };
        Some((self.offset, end))
    }

    /// Records one failed attempt at the current chunk and returns how long
    /// to sleep before retrying it: the current delay, which then doubles up
    /// to the ceiling. Nothing fetched so far is touched, so no earlier chunk
    /// is ever re-fetched.
    pub fn on_failure(&mut self) -> (sleep: u64)
        requires
            old(self).wf(),
        ensures
            final(self)@ == old(self)@.on_failure(),
            final(self).wf(),
            sleep == old(self).timeout,
            final(self).timeout >= old(self).timeout,
    {
        let sleep = self.timeout;
        self.timeout = if self.timeout > self.retry_max / 2 {
            self.retry_max
        } else {
            self.timeout * 2
        };
        sleep
    }

    /// Records the current chunk's body: appends it to the data fetched so
    /// far, advances the offset to the chunk's end, and resets the backoff
    /// for the next chunk.
    pub fn on_success(&mut self, body: Vec<u8>)
        requires
            old(self).wf(),
            !old(self)@.is_done(),
        ensures
            final(self)@ == old(self)@.on_success(body@),
            final(self).wf(),
            final(self).data@ == old(self).data@ + body@,
            final(self).chunks_done == old(self).chunks_done + 1,
            final(self).offset > old(self).offset,
            final(self)@.is_done() <==> old(self)@.chunks_done + 1 == old(self)@.num_chunks(),
    {
        proof {
            let l = self@.length;
            let c = self@.chunk_size;
            let k = self@.chunks_done;
            lemma_ceil_div_bounds(l, c);
            assert(k * c < l);
            assert((k + 1) * c == k * c + c) by (nonlinear_arith);
            if k + 1 > self@.num_chunks() {
                lemma_mul_inequality(self@.num_chunks(), k, c);
            }
            if k + 1 < self@.num_chunks() {
                lemma_mul_inequality(k + 1, self@.num_chunks() - 1, c);
                assert((self@.num_chunks() - 1) * c < l);
            }
        }
        let mut body = body;
        self.offset = if self.length - self.offset <= self.chunk_size {
            self.length
        } else {
            self.offset + self.chunk_size
        };
        self.chunks_done = self.chunks_done + 1;
        self.timeout = self.retry_min;
        self.data.append(&mut body);
    }
}

/// The download state after `n` straight failures of the current chunk.
pub open spec fn fail_n(d: DownloadState, n: nat) -> DownloadState
    decreases n,
{
    if n == 0 {
        d
    } else {
        fail_n(d, (n - 1) as nat).on_failure()
    }
}

/// Failing a chunk any number of times leaves every fetched byte in place —
/// prior chunks are never re-fetched — while the retry delays grow
/// monotonically and never past the ceiling.
pub proof fn lemma_retry_backoff(d: DownloadState, n: nat)
    requires
        d.wf(),
    ensures
        fail_n(d, n).wf(),
        fail_n(d, n).offset == d.offset,
        fail_n(d, n).chunks_done == d.chunks_done,
        fail_n(d, n).data == d.data,
        fail_n(d, n).length == d.length,
        fail_n(d, n).chunk_size == d.chunk_size,
        fail_n(d, n).retry_max == d.retry_max,
        fail_n(d, n).timeout >= d.timeout,
        fail_n(d, n).timeout <= d.retry_max,
        n >= 1 ==> fail_n(d, n).timeout >= fail_n(d, (n - 1) as nat).timeout,
    decreases n,
{
    if n > 0 {
        lemma_retry_backoff(d, (n - 1) as nat);
    }
}

/// However many times a chunk's fetch failed first, its eventual success
/// advances the download by exactly that one chunk: the bytes fetched before
/// stay as they were, the body is appended after them, and one fewer chunk
/// remains — so a download whose chunks each eventually succeed completes.
pub proof fn lemma_success_after_failures(d: DownloadState, n: nat, body: Seq<u8>)
    requires
        d.wf(),
        !d.is_done(),
    ensures
        !fail_n(d, n).is_done(),
        fail_n(d, n).on_success(body).data == d.data + body,
        fail_n(d, n).on_success(body).chunks_done == d.chunks_done + 1,
        fail_n(d, n).on_success(body).offset == vstd::math::min(
            d.offset + d.chunk_size,
            d.length,
        ),
        fail_n(d, n).on_success(body).is_done() <==> d.chunks_done + 1 == d.num_chunks(),
{
    lemma_retry_backoff(d, n);
    let l = d.length;
    let c = d.chunk_size;
    let k = d.chunks_done;
    lemma_ceil_div_bounds(l, c);
    assert(k * c < l);
    assert((k + 1) * c == k * c + c) by (nonlinear_arith);
    if k + 1 > d.num_chunks() {
        lemma_mul_inequality(d.num_chunks(), k, c);
    }
    if k + 1 < d.num_chunks() {
        lemma_mul_inequality(k + 1, d.num_chunks() - 1, c);
        assert((d.num_chunks() - 1) * c < l);
    }
}

} // verus!
