//! Copying, filling and comparing bytes.

use vstd::prelude::*;

verus! {

/// Copies the first `len` bytes of `src` to the start of `dst`.
pub fn memcpy(dst: &mut [u8], src: &[u8], len: usize)
    requires
        len <= old(dst)@.len(),
        len <= src@.len(),
    ensures
        final(dst)@ == src@.take(len as int) + old(dst)@.skip(len as int),
{
    let mut i: usize = 0;
    while i < len
        invariant
            i <= len,
            len <= src@.len(),
            dst@.len() == old(dst)@.len(),
            len <= dst@.len(),
            dst@ == src@.take(i as int) + old(dst)@.skip(i as int),
        decreases len - i,
    {
        dst[i] = src[i];
        i += 1;
        assert(dst@ =~= src@.take(i as int) + old(dst)@.skip(i as int));
    }
}

/// Sets the first `len` bytes of `dst` to `value`.
pub fn memset(dst: &mut [u8], value: u8, len: usize)
    requires
        len <= old(dst)@.len(),
    ensures
        final(dst)@ == Seq::new(len as nat, |i: int| value) + old(dst)@.skip(len as int),
{
    let mut i: usize = 0;
    while i < len
        invariant
            i <= len,
            dst@.len() == old(dst)@.len(),
            len <= dst@.len(),
            dst@ == Seq::new(i as nat, |k: int| value) + old(dst)@.skip(i as int),
        decreases len - i,
    {
        dst[i] = value;
        i += 1;
        assert(dst@ =~= Seq::new(i as nat, |k: int| value) + old(dst)@.skip(i as int));
    }
}

/// How the first `n` bytes of `a` compare with those of `b`: zero where
/// they are the same, else the difference of the first two bytes that
/// differ.
pub open spec fn compared(a: Seq<u8>, b: Seq<u8>, n: int) -> int
    decreases n,
{
    if n <= 0 {
        0
    } else if compared(a, b, n - 1) != 0 {
        compared(a, b, n - 1)
    } else {
        a[n - 1] - b[n - 1]
    }
}

/// Bytes that are the same compare as zero, and only those do.
pub proof fn lemma_compared_zero(a: Seq<u8>, b: Seq<u8>, n: int)
    requires
        0 <= n <= a.len(),
        n <= b.len(),
    ensures
        compared(a, b, n) == 0 <==> a.take(n) == b.take(n),
    decreases n,
{
    if n > 0 {
        lemma_compared_zero(a, b, n - 1);
        if a.take(n) == b.take(n) {
            assert(a.take(n - 1) =~= a.take(n).take(n - 1));
            assert(b.take(n - 1) =~= b.take(n).take(n - 1));
            assert(a[n - 1] == a.take(n)[n - 1]);
            assert(b[n - 1] == b.take(n)[n - 1]);
        }
        if compared(a, b, n) == 0 {
            assert(a.take(n) =~= a.take(n - 1).push(a[n - 1]));
            assert(b.take(n) =~= b.take(n - 1).push(b[n - 1]));
        }
    } else {
        assert(a.take(0) =~= b.take(0));
    }
}

/// How the first `n` bytes of `a` compare with those of `b`.
pub open spec fn compared_first(a: Seq<u8>, b: Seq<u8>, n: usize) -> int {
    compared(a, b, n as int)
}

/// The difference of the first two bytes that differ among the first `n`
/// of `a` and `b`, or zero where none differ.
pub fn first_difference(a: &[u8], b: &[u8], n: usize) -> (order: i32)
    requires
        n <= a@.len(),
        n <= b@.len(),
    ensures
        order == compared_first(a@, b@, n),
{
    let mut i: usize = 0;
    while i < n
        invariant
            i <= n,
            n <= a@.len(),
            n <= b@.len(),
            compared(a@, b@, i as int) == 0,
        decreases n - i,
    {
        if a[i] != b[i] {
            proof {
                lemma_compared_sticks(a@, b@, i as int + 1, n as int);
            }
            return a[i] as i32 - b[i] as i32;
        }
        i += 1;
    }
    0
}

/// Once bytes differ, more bytes do not change how they compare.
pub proof fn lemma_compared_sticks(a: Seq<u8>, b: Seq<u8>, m: int, n: int)
    requires
        0 <= m <= n,
        compared(a, b, m) != 0,
    ensures
        compared(a, b, n) == compared(a, b, m),
    decreases n - m,
{
    if m < n {
        lemma_compared_sticks(a, b, m, n - 1);
    }
}

/// Compares the first `n` bytes of `a` and `b` one by one.
pub fn slow_byte_cmp(a: &[u8], b: &[u8], n: usize) -> (order: i32)
    requires
        n <= a@.len(),
        n <= b@.len(),
    ensures
        order == compared_first(a@, b@, n),
{
    first_difference(a, b, n)
}

/// Compares the first `len` bytes of `a` and `b`: the result is zero
/// where they are the same, negative where the first byte that differs is
/// less in `a`, and positive where it is greater.
pub fn memcmp(a: &[u8], b: &[u8], len: usize) -> (order: i32)
    requires
        len <= a@.len(),
        len <= b@.len(),
    ensures
        order == compared_first(a@, b@, len),
{
    first_difference(a, b, len)
}

/// What `buf` holds after `n` of its bytes from `src` on were moved to
/// `dest` on: the bytes moved are those that lay at `src` before, also
/// where the two ranges overlap.
pub open spec fn moved(buf: Seq<u8>, dest: int, src: int, n: int) -> Seq<u8> {
    Seq::new(
        buf.len(),
        |i: int|
            if dest <= i < dest + n {
                buf[src + (i - dest)]
            } else {
                buf[i]
            },
    )
}

/// Moves `n` bytes within `buf` from `src` on to `dest` on. The ranges
/// may overlap.
pub fn memmove(buf: &mut [u8], dest: usize, src: usize, n: usize)
    requires
        dest + n <= old(buf)@.len(),
        src + n <= old(buf)@.len(),
    ensures
        final(buf)@ == moved(old(buf)@, dest as int, src as int, n as int),
{
    if dest == src || n == 0 {
        assert(buf@ =~= moved(old(buf)@, dest as int, src as int, n as int));
        return ;
    }
    let total = buf.len();
    if dest < src {
        let mut i: usize = 0;
        while i < n
            invariant
                i <= n,
                dest < src,
                buf@.len() == old(buf)@.len(),
                dest + n <= total,
                src + n <= total,
                total == buf@.len(),
                forall|k: int|
                    0 <= k < buf@.len() ==> #[trigger] buf@[k] == (if dest <= k < dest + i {
                        old(buf)@[src + (k - dest)]
                    } else {
                        old(buf)@[k]
                    }),
            decreases n - i,
        {
            buf[dest + i] = buf[src + i];
            i += 1;
        }
    } else {
        let mut i: usize = n;
        while i > 0
            invariant
                i <= n,
                src < dest,
                buf@.len() == old(buf)@.len(),
                dest + n <= total,
                src + n <= total,
                total == buf@.len(),
                forall|k: int|
                    0 <= k < buf@.len() ==> #[trigger] buf@[k] == (if dest + i <= k < dest + n {
                        old(buf)@[src + (k - dest)]
                    } else {
                        old(buf)@[k]
                    }),
            decreases i,
        {
            i -= 1;
            buf[dest + i] = buf[src + i];
        }
    }
    assert(buf@ =~= moved(old(buf)@, dest as int, src as int, n as int));
}

} // verus!
