//! A small byte store that replays what was written into a caller's buffer,
//! stopping at the first zero byte.

use vstd::prelude::*;

verus! {

/// Whether the bytes hold a zero anywhere.
pub open spec fn has_zero(s: Seq<u8>) -> bool {
    exists|i: int| 0 <= i < s.len() && s[i] == 0
}

/// Position of the first zero byte; the whole length when there is none.
pub open spec fn first_zero(s: Seq<u8>) -> int
    decreases s.len(),
{
    if s.len() == 0 {
        0
    } else if s[0] == 0 {
        0
    } else {
        1 + first_zero(s.drop_first())
    }
}

/// The first zero's position is never negative.
proof fn lemma_first_zero_nonneg(s: Seq<u8>)
    ensures
        first_zero(s) >= 0,
    decreases s.len(),
{
    if s.len() > 0 && s[0] != 0 {
        lemma_first_zero_nonneg(s.drop_first());
    }
}

/// A zero-free prefix pushes the first zero at least that far out.
proof fn lemma_first_zero_min(s: Seq<u8>, m: int)
    requires
        0 <= m <= s.len(),
        forall|k: int| 0 <= k < m ==> s[k] != 0,
    ensures
        first_zero(s) >= m,
    decreases m,
{
    if m > 0 {
        assert(s[0] != 0);
        assert(forall|k: int| 0 <= k < m - 1 ==> #[trigger] s.drop_first()[k] != 0);
        lemma_first_zero_min(s.drop_first(), m - 1);
        assert(first_zero(s) == 1 + first_zero(s.drop_first()));
    } else {
        lemma_first_zero_nonneg(s);
    }
}

/// A zero at `i` behind a zero-free prefix is the first zero.
proof fn lemma_first_zero_at(s: Seq<u8>, i: int)
    requires
        0 <= i < s.len(),
        s[i] == 0,
        forall|k: int| 0 <= k < i ==> s[k] != 0,
    ensures
        first_zero(s) == i,
    decreases i,
{
    if i > 0 {
        assert(s[0] != 0);
        assert(forall|k: int| 0 <= k < i - 1 ==> #[trigger] s.drop_first()[k] != 0);
        assert(s.drop_first()[i - 1] == 0);
        lemma_first_zero_at(s.drop_first(), i - 1);
    }
}

/// The byte store.
pub struct Seeker {
    buffer: Vec<u8>,
}

impl View for Seeker {
    type V = Seq<u8>;

    closed spec fn view(&self) -> Seq<u8> {
        self.buffer@
    }
}

impl Seeker {
    /// An empty store.
    pub fn new() -> (s: Seeker)
        ensures
            s@ == Seq::<u8>::empty(),
    {
        Seeker { buffer: Vec::new() }
    }

    /// Appends one byte.
    pub fn write(&mut self, data: u8)
        ensures
            final(self)@ == old(self)@.push(data),
    {
        self.buffer.push(data);
    }

    /// Copies the stored bytes into `buf` up to (not including) the first
    /// zero byte and returns that zero's position; with no zero stored, it
    /// copies everything and returns 0. Bytes of `buf` beyond the copied
    /// part keep their values. `buf` need only cover the copied part —
    /// anything shorter could not take it.
    pub fn read(&self, buf: &mut Vec<u8>) -> (r: usize)
        requires
            old(buf)@.len() >= (if has_zero(self@) {
                first_zero(self@)
            } else {
                self@.len() as int
            }),
        ensures
            final(buf)@.len() == old(buf)@.len(),
            ({
                let end = if has_zero(self@) {
                    first_zero(self@)
                } else {
                    self@.len() as int
                };
                &&& r == if has_zero(self@) {
                    first_zero(self@)
                } else {
                    0
                }
                &&& forall|k: int| 0 <= k < end ==> final(buf)@[k] == self@[k]
                &&& forall|k: int| end <= k < final(buf)@.len() ==> final(buf)@[k] == old(buf)@[k]
            }),
    {
        let n = self.buffer.len();
        let mut i: usize = 0;
        while i < n
            invariant
                old(buf)@.len() >= (if has_zero(self@) {
                    first_zero(self@)
                } else {
                    self@.len() as int
                }),
                n == self@.len(),
                i <= n,
                buf@.len() == old(buf)@.len(),
                forall|k: int| 0 <= k < i ==> self@[k] != 0,
                forall|k: int| 0 <= k < i ==> buf@[k] == self@[k],
                forall|k: int| i <= k < buf@.len() ==> buf@[k] == old(buf)@[k],
            decreases n - i,
        {
            let byte = self.buffer[i];
            if byte == 0 {
                proof {
                    lemma_first_zero_at(self@, i as int);
                }
                return i;
            }
            proof {
                assert(self@[i as int] != 0);
                assert(forall|k: int| 0 <= k < i + 1 ==> self@[k] != 0);
                lemma_first_zero_min(self@, i as int + 1);
            }
            buf.set(i, byte);
            i += 1;
        }
        0
    }
}

impl Default for Seeker {
    fn default() -> (s: Self)
        ensures
            s@ == Seq::<u8>::empty(),
    {
        Seeker::new()
    }
}

} // verus!
