//! A writer into a buffer of fixed capacity `N`: text that does not fit is
//! dropped.

use vstd::prelude::*;
use vstd::string::*;
use vstd::utf8::valid_utf8;

verus! {

/// `core::str::from_utf8`: the text whose UTF-8 encoding is `b`, when `b`
/// is valid UTF-8. Trusted: the result is present exactly for valid UTF-8,
/// and its bytes are then those of `b`.
#[verifier::external_body]
fn text_of<'a>(b: &'a [u8]) -> (r: Option<&'a str>)
    ensures
        r is Some <==> valid_utf8(b@),
        r matches Some(s) ==> s.spec_bytes() == b@,
{
    core::str::from_utf8(b).ok()
}

/// A buffer of `N` bytes and how many of them are written.
pub struct ArrayWriter<const N: usize> {
    buffer: Vec<u8>,
    pos: usize,
}

impl<const N: usize> View for ArrayWriter<N> {
    type V = Seq<u8>;

    /// The bytes written so far.
    closed spec fn view(&self) -> Seq<u8> {
        self.buffer@.take(self.pos as int)
    }
}

impl<const N: usize> ArrayWriter<N> {
    /// The buffer holds `N` bytes, of which the first `pos` are written.
    pub closed spec fn wf(&self) -> bool {
        self.buffer@.len() == N && self.pos <= N
    }

    /// Nothing written yet.
    pub fn new() -> (w: Self)
        ensures
            w.wf(),
            w@ == Seq::<u8>::empty(),
    {
        let mut buffer: Vec<u8> = Vec::new();
        let mut i: usize = 0;
        while i < N
            invariant
                i <= N,
                buffer@.len() == i,
            decreases N - i,
        {
            buffer.push(0);
            i += 1;
        }
        let w = ArrayWriter { buffer, pos: 0 };
        assert(w@ =~= Seq::<u8>::empty());
        w
    }

    /// Appends the bytes of `s`, as many as there is room for.
    pub fn write_str(&mut self, s: &str)
        requires
            old(self).wf(),
        ensures
            final(self).wf(),
            ({
                let b = s.spec_bytes();
                let room = N - old(self)@.len();
                final(self)@ == old(self)@ + if b.len() <= room { b } else { b.take(room) }
            }),
            final(self)@.len() <= N,
    {
        let bytes = s.as_bytes();
        let room = N - self.pos;
        let n = if bytes.len() <= room { bytes.len() } else { room };
        let ghost start = self@;
        let ghost p0 = self.pos;
        let mut i: usize = 0;
        while i < n
            invariant
                i <= n <= bytes@.len(),
                p0 + n <= N,
                self.pos == p0,
                self.buffer@.len() == N,
                self.buffer@.take(p0 as int) == start,
                forall|k: int| 0 <= k < i ==> #[trigger] self.buffer@[p0 + k] == bytes@[k],
            decreases n - i,
        {
            self.buffer.set(self.pos + i, bytes[i]);
            proof {
                assert(self.buffer@.take(p0 as int) =~= start);
            }
            i += 1;
        }
        self.pos = self.pos + n;
        proof {
            let b = s.spec_bytes();
            let added = if b.len() <= room { b } else { b.take(room as int) };
            assert(added.len() == n);
            assert forall|k: int| 0 <= k < p0 + n implies #[trigger] self.buffer@.take(self.pos as int)[k] == (start + added)[k] by {
                if k < p0 {
                    assert(self.buffer@.take(p0 as int)[k] == start[k]);
                } else {
                    assert(self.buffer@[p0 + (k - p0)] == bytes@[k - p0]);
                }
            }
            assert(self.buffer@.take(self.pos as int) =~= start + added);
        }
    }

    /// The text written, or "" when the bytes written are not valid UTF-8
    /// (a character cut at the end of the buffer).
    pub fn as_str(&self) -> (s: &str)
        requires
            self.wf(),
        ensures
            valid_utf8(self@) ==> s.spec_bytes() == self@,
            !valid_utf8(self@) ==> s@ == Seq::<char>::empty(),
    {
        let written = vstd::slice::slice_subrange(self.buffer.as_slice(), 0, self.pos);
        assert(written@ =~= self@);
        match text_of(written) {
            Some(t) => t,
            None => {
                proof {
                    reveal_strlit("");
                }
                ""
            },
        }
    }
}

} // verus!
