//! Frame accumulation: turning a stream of raw bytes into complete lines.
//!
//! The transport delivers bytes in chunks that need not line up with frame
//! boundaries; a frame ends at a newline byte. The buffer accumulates
//! incoming chunks and hands out one complete line at a time, each with its
//! terminating newline still attached; bytes after the last newline stay
//! buffered until their delimiter arrives. The codec is then only ever
//! given complete lines.

use vstd::prelude::*;
use vstd::slice::slice_index_get;

verus! {

/// `k` is the position of the first newline byte in `s`.
pub open spec fn first_newline_at(s: Seq<u8>, k: int) -> bool {
    &&& 0 <= k < s.len()
    &&& s[k] == 10u8
    &&& forall|j: int| 0 <= j < k ==> s[j] != 10u8
}

/// `s` holds at least one complete line.
pub open spec fn has_newline(s: Seq<u8>) -> bool {
    exists|k: int| first_newline_at(s, k)
}

/// One connection's accumulation buffer: the bytes received so far that
/// have not yet been handed out as complete lines.
pub struct FrameBuffer {
    buf: Vec<u8>,
}

impl View for FrameBuffer {
    type V = Seq<u8>;

    closed spec fn view(&self) -> Seq<u8> {
        self.buf@
    }
}

/// The position of the first newline in `v`, if there is one.
fn find_newline(v: &Vec<u8>) -> (r: Option<usize>)
    ensures
        match r {
            Some(k) => first_newline_at(v@, k as int),
            None => !has_newline(v@),
        },
{
    let n = v.len();
    let mut k: usize = 0;
    while k < n
        invariant
            k <= n,
            n == v@.len(),
            forall|j: int| 0 <= j < k ==> (#[trigger] v@[j]) != 10u8,
        decreases n - k,
    {
        if v[k] == 10 {
            return Some(k);
        }
        k = k + 1;
    }
    proof {
        assert forall|kk: int| !first_newline_at(v@, kk) by {
            if 0 <= kk < v@.len() {
                assert(v@[kk] != 10u8);
            }
        }
    }
    None
}

impl FrameBuffer {
    /// An empty buffer for a freshly accepted connection.
    pub fn new() -> (b: FrameBuffer)
        ensures
            b@ == Seq::<u8>::empty(),
    {
        FrameBuffer { buf: Vec::new() }
    }

    /// Appends one received chunk, exactly as it came off the transport.
    pub fn feed(&mut self, chunk: &[u8])
        ensures
            final(self)@ == old(self)@ + chunk@,
    {
        let n = chunk.len();
        let mut i: usize = 0;
        while i < n
            invariant
                i <= n,
                n == chunk@.len(),
                self@ == old(self)@ + chunk@.take(i as int),
            decreases n - i,
        {
            let b = *slice_index_get(chunk, i);
            proof {
                assert(old(self)@ + chunk@.take(i + 1 as int) =~= (old(self)@ + chunk@.take(
                    i as int,
                )).push(chunk@[i as int]));
            }
            self.buf.push(b);
            i = i + 1;
        }
        proof {
            assert(chunk@.take(n as int) =~= chunk@);
        }
    }

    /// Removes and returns the first complete line, its terminating newline
    /// included, or `None` if no full line has arrived yet (in which case
    /// the buffer is untouched and holds no newline).
    pub fn take_line(&mut self) -> (r: Option<Vec<u8>>)
        ensures
            match r {
                Some(l) => exists|k: int|
                    #[trigger] first_newline_at(old(self)@, k) && l@ == old(self)@.take(k + 1)
                        && final(self)@ == old(self)@.skip(k + 1),
                None => final(self)@ == old(self)@ && !has_newline(old(self)@),
            },
    {
        match find_newline(&self.buf) {
            None => None,
            Some(k) => {
                let n = self.buf.len();
                let mut line: Vec<u8> = Vec::new();
                let mut i: usize = 0;
                while i <= k
                    invariant
                        i <= k + 1,
                        k < n,
                        n == self.buf@.len(),
                        self@ == old(self)@,
                        line@ == self.buf@.take(i as int),
                    decreases k + 1 - i,
                {
                    let b = self.buf[i];
                    proof {
                        assert(self.buf@.take(i + 1 as int) =~= self.buf@.take(i as int).push(
                            self.buf@[i as int],
                        ));
                    }
                    line.push(b);
                    i = i + 1;
                }
                let mut rest: Vec<u8> = Vec::new();
                let mut j: usize = k + 1;
                while j < n
                    invariant
                        k + 1 <= j <= n,
                        n == self.buf@.len(),
                        self@ == old(self)@,
                        rest@ == self.buf@.subrange(k + 1 as int, j as int),
                    decreases n - j,
                {
                    let b = self.buf[j];
                    proof {
                        assert(self.buf@.subrange(k + 1 as int, j + 1 as int) =~= self.buf@.subrange(
                            k + 1 as int,
                            j as int,
                        ).push(self.buf@[j as int]));
                    }
                    rest.push(b);
                    j = j + 1;
                }
                proof {
                    assert(rest@ =~= old(self)@.skip(k + 1 as int));
                }
                self.buf = rest;
                Some(line)
            },
        }
    }
}

} // verus!
