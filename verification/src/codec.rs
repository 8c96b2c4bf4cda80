use vstd::prelude::*;

verus! {

/// 256 raised to `w`: the number of bit patterns a `w`-byte value has.
pub open spec fn pow256(w: nat) -> nat
    decreases w,
{
    if w == 0 {
        1
    } else {
        256 * pow256((w - 1) as nat)
    }
}

/// The little-endian value of the `w` bytes of `b` starting at `off`.
pub open spec fn le_word(b: Seq<u8>, off: int, w: nat) -> nat
    decreases w,
{
    if w == 0 {
        0
    } else {
        (b[off] as nat) + 256 * le_word(b, off + 1, (w - 1) as nat)
    }
}

/// pow256 grows with its exponent.
pub proof fn lemma_pow256_monotone(a: nat, b: nat)
    requires
        a <= b,
    ensures
        pow256(a) <= pow256(b),
    decreases b,
{
    if a < b {
        lemma_pow256_monotone(a, (b - 1) as nat);
        assert(pow256(b) == 256 * pow256((b - 1) as nat));
    }
}

/// The numeric values of pow256 at the widths this layer uses.
pub proof fn lemma_pow256_values()
    ensures
        pow256(7) == 0x100000000000000,
        pow256(8) == 0x10000000000000000,
{
    assert(pow256(0) == 1);
    assert(pow256(1) == 256 * pow256(0));
    assert(pow256(2) == 256 * pow256(1));
    assert(pow256(3) == 256 * pow256(2));
    assert(pow256(4) == 256 * pow256(3));
    assert(pow256(5) == 256 * pow256(4));
    assert(pow256(6) == 256 * pow256(5));
    assert(pow256(7) == 256 * pow256(6));
    assert(pow256(8) == 256 * pow256(7));
}

/// A `w`-byte word is below `pow256(w)`.
pub proof fn lemma_le_word_bound(b: Seq<u8>, off: int, w: nat)
    requires
        0 <= off,
        off + w <= b.len(),
    ensures
        le_word(b, off, w) < pow256(w),
    decreases w,
{
    if w > 0 {
        lemma_le_word_bound(b, off + 1, (w - 1) as nat);
        assert((b[off] as nat) + 256 * le_word(b, off + 1, (w - 1) as nat) < 256 * pow256(
            (w - 1) as nat,
        )) by (nonlinear_arith)
            requires
                b[off] < 256,
                le_word(b, off + 1, (w - 1) as nat) < pow256((w - 1) as nat),
        ;
    }
}

/// Reading one more byte raises the word by that byte at the next place
/// value.
pub proof fn lemma_le_word_extend(b: Seq<u8>, off: int, w: nat)
    requires
        0 <= off,
        off + w + 1 <= b.len(),
    ensures
        le_word(b, off, w + 1) == le_word(b, off, w) + pow256(w) * (b[off + w] as nat),
    decreases w,
{
    if w == 0 {
        assert(le_word(b, off, w + 1) == (b[off] as nat) + 256 * le_word(b, off + 1, 0));
        assert(le_word(b, off + 1, 0) == 0);
        assert(le_word(b, off, w) == 0);
        assert(pow256(w) == 1);
    } else {
        lemma_le_word_extend(b, off + 1, (w - 1) as nat);
        assert(le_word(b, off + 1, w) == le_word(b, off + 1, (w - 1) as nat) + pow256(
            (w - 1) as nat,
        ) * (b[off + w] as nat));
        assert(le_word(b, off, w + 1) == (b[off] as nat) + 256 * le_word(b, off + 1, w));
        assert(le_word(b, off, w) == (b[off] as nat) + 256 * le_word(b, off + 1, (w - 1) as nat));
        assert(pow256(w) == 256 * pow256((w - 1) as nat));
        assert(le_word(b, off, w + 1) == le_word(b, off, w) + pow256(w) * (b[off + w] as nat))
            by (nonlinear_arith)
            requires
                le_word(b, off + 1, w) == le_word(b, off + 1, (w - 1) as nat) + pow256(
                    (w - 1) as nat,
                ) * (b[off + w] as nat),
                le_word(b, off, w + 1) == (b[off] as nat) + 256 * le_word(b, off + 1, w),
                le_word(b, off, w) == (b[off] as nat) + 256 * le_word(
                    b,
                    off + 1,
                    (w - 1) as nat,
                ),
                pow256(w) == 256 * pow256((w - 1) as nat),
        ;
    }
}

/// A word reads the same in any buffer that agrees on its bytes.
pub proof fn lemma_le_word_congruent(a: Seq<u8>, b: Seq<u8>, off_a: int, off_b: int, w: nat)
    requires
        0 <= off_a,
        off_a + w <= a.len(),
        0 <= off_b,
        off_b + w <= b.len(),
        forall|j: int| 0 <= j < w ==> #[trigger] a[off_a + j] == b[off_b + j],
    ensures
        le_word(a, off_a, w) == le_word(b, off_b, w),
    decreases w,
{
    if w > 0 {
        assert(a[off_a + 0] == b[off_b + 0]);
        assert forall|j: int| 0 <= j < w - 1 implies #[trigger] a[off_a + 1 + j] == b[off_b + 1
            + j] by {
            assert(a[off_a + (j + 1)] == b[off_b + (j + 1)]);
        }
        lemma_le_word_congruent(a, b, off_a + 1, off_b + 1, (w - 1) as nat);
    }
}

/// Little-endian reading is injective: two byte groups with the same word
/// value are the same bytes. This is what makes the fixed-width round trip
/// exact: re-encoding a decoded column cannot change a single byte.
pub proof fn lemma_le_word_injective(a: Seq<u8>, b: Seq<u8>, off_a: int, off_b: int, w: nat)
    requires
        0 <= off_a,
        off_a + w <= a.len(),
        0 <= off_b,
        off_b + w <= b.len(),
        le_word(a, off_a, w) == le_word(b, off_b, w),
    ensures
        forall|j: int| 0 <= j < w ==> #[trigger] a[off_a + j] == b[off_b + j],
    decreases w,
{
    if w > 0 {
        let ra = le_word(a, off_a + 1, (w - 1) as nat);
        let rb = le_word(b, off_b + 1, (w - 1) as nat);
        assert((a[off_a] as nat) + 256 * ra == (b[off_b] as nat) + 256 * rb);
        assert(a[off_a] == b[off_b] && ra == rb);
        lemma_le_word_injective(a, b, off_a + 1, off_b + 1, (w - 1) as nat);
        assert forall|j: int| 0 <= j < w implies #[trigger] a[off_a + j] == b[off_b + j] by {
            if j > 0 {
                assert(a[off_a + 1 + (j - 1)] == b[off_b + 1 + (j - 1)]);
            }
        }
    }
}

/// Two buffers of `count` words of `width` bytes that carry the same word
/// values are byte-for-byte equal. At the column level this says that the
/// flat buffer a caller reads back is bit-identical to the one inserted,
/// for every fixed-width kind at once.
pub proof fn lemma_word_buffers_equal(a: Seq<u8>, b: Seq<u8>, count: nat, width: nat)
    requires
        1 <= width,
        a.len() == count * width,
        b.len() == count * width,
        forall|i: int|
            0 <= i < count ==> le_word(a, #[trigger] (i * width), width) == le_word(
                b,
                i * width,
                width,
            ),
    ensures
        a =~= b,
{
    assert forall|t: int| 0 <= t < a.len() implies a[t] == b[t] by {
        let i = t / width as int;
        let j = t % width as int;
        assert(t == width * (t / width as int) + t % width as int) by {
            vstd::arithmetic::div_mod::lemma_fundamental_div_mod(t, width as int);
        }
        assert(0 <= j < width) by {
            vstd::arithmetic::div_mod::lemma_mod_bound(t, width as int);
        }
        assert(0 <= i < count) by (nonlinear_arith)
            requires
                0 <= t < count * width,
                t == width * i + j,
                0 <= j < width,
        ;
        assert(i * width + width <= count * width) by (nonlinear_arith)
            requires
                0 <= i < count,
                1 <= width,
        ;
        assert(le_word(a, i * width, width) == le_word(b, i * width, width));
        lemma_le_word_injective(a, b, i * width, i * width, width);
        assert(t == i * width + j) by (nonlinear_arith)
            requires
                t == width * i + j,
        ;
        assert(a[i * width + j] == b[i * width + j]);
    }
}

/// Decode a flat little-endian buffer into `count` words of `width` bytes
/// each. This is the one reinterpretation the insert path performs on a
/// numeric column: the words are the exact bit patterns of the caller's
/// values, whatever their kind.
pub fn words_from_le_bytes(buf: &Vec<u8>, count: usize, width: usize) -> (r: Vec<u64>)
    requires
        1 <= width <= 8,
        buf@.len() == count * width,
    ensures
        r@.len() == count,
        forall|i: int|
            0 <= i < count ==> (#[trigger] r@[i]) as nat == le_word(
                buf@,
                i * width,
                width as nat,
            ),
{
    let buf_len = buf.len();
    let mut r: Vec<u64> = Vec::new();
    let mut i: usize = 0;
    let mut off: usize = 0;
    while i < count
        invariant
            1 <= width <= 8,
            buf@.len() == count * width,
            buf@.len() <= usize::MAX,
            i <= count,
            off == i * width,
            r@.len() == i,
            forall|t: int|
                0 <= t < i ==> (#[trigger] r@[t]) as nat == le_word(buf@, t * width, width as nat),
        decreases count - i,
    {
        proof {
            assert(i * width + width <= count * width) by (nonlinear_arith)
                requires
                    i < count,
                    1 <= width,
            ;
        }
        assert(off + width <= buf@.len());
        let mut word: u64 = 0;
        let mut mult: u64 = 1;
        let mut j: usize = 0;
        while j < width
            invariant
                1 <= width <= 8,
                off + width <= buf@.len(),
                buf@.len() <= usize::MAX,
                j <= width,
                j < width ==> mult as nat == pow256(j as nat),
                word as nat == le_word(buf@, off as int, j as nat),
                (word as nat) < pow256(j as nat),
            decreases width - j,
        {
            proof {
                lemma_pow256_values();
                lemma_pow256_monotone(j as nat, 7);
                lemma_pow256_monotone((j + 1) as nat, 8);
            }
            let byte = buf[off + j];
            assert(word as nat + (mult as nat) * (byte as nat) < pow256((j + 1) as nat)) by (
            nonlinear_arith)
                requires
                    (word as nat) < pow256(j as nat),
                    byte < 256,
                    mult as nat == pow256(j as nat),
                    pow256((j + 1) as nat) == 256 * pow256(j as nat),
            ;
            proof {
                lemma_le_word_extend(buf@, off as int, j as nat);
            }
            word = word + mult * (byte as u64);
            j = j + 1;
            if j < width {
                proof {
                    lemma_pow256_monotone(j as nat, 7);
                }
                mult = mult * 256;
            }
        }
        r.push(word);
        proof {
            assert((i + 1) * width == i * width + width) by (nonlinear_arith);
        }
        i = i + 1;
        off = off + width;
    }
    r
}

/// Encode words back into a flat little-endian buffer, `width` bytes per
/// word: the exact inverse of `words_from_le_bytes`. This is the one
/// reinterpretation the search path performs to hand a numeric result
/// column back across the boundary.
pub fn words_to_le_bytes(words: &Vec<u64>, width: usize) -> (r: Vec<u8>)
    requires
        1 <= width <= 8,
        forall|i: int|
            0 <= i < words@.len() ==> ((#[trigger] words@[i]) as nat) < pow256(width as nat),
        words@.len() * width <= usize::MAX,
    ensures
        r@.len() == words@.len() * width,
        forall|i: int|
            0 <= i < words@.len() ==> le_word(r@, i * width, width as nat) == (
            #[trigger] words@[i]) as nat,
{
    let count = words.len();
    let mut r: Vec<u8> = Vec::new();
    let mut i: usize = 0;
    while i < count
        invariant
            1 <= width <= 8,
            count == words@.len(),
            count * width <= usize::MAX,
            forall|t: int| 0 <= t < count ==> ((#[trigger] words@[t]) as nat) < pow256(width as nat),
            i <= count,
            r@.len() == i * width,
            forall|t: int|
                0 <= t < i ==> le_word(r@, t * width, width as nat) == (#[trigger] words@[t]) as nat,
        decreases count - i,
    {
        let ghost r_old = r@;
        assert((i + 1) * width <= count * width) by (nonlinear_arith)
            requires
                i < count,
                1 <= width,
        ;
        let v = words[i];
        let mut w: u64 = v;
        let mut j: usize = 0;
        proof {
            assert(pow256(0) == 1);
            assert(le_word(r@, r_old.len() as int, 0) == 0);
        }
        while j < width
            invariant
                1 <= width <= 8,
                j <= width,
                r@.len() == r_old.len() + j,
                forall|t: int| 0 <= t < r_old.len() ==> r@[t] == r_old[t],
                v as nat == le_word(r@, r_old.len() as int, j as nat) + pow256(j as nat) * (
                w as nat),
            decreases width - j,
        {
            let b: u8 = (w % 256) as u8;
            let ghost r_before = r@;
            let ghost w_before = w as nat;
            r.push(b);
            w = w / 256;
            proof {
                lemma_le_word_congruent(
                    r_before,
                    r@,
                    r_old.len() as int,
                    r_old.len() as int,
                    j as nat,
                );
                lemma_le_word_extend(r@, r_old.len() as int, j as nat);
                assert(w_before == (b as nat) + 256 * (w as nat));
                assert(pow256(j as nat) * ((b as nat) + 256 * (w as nat)) == pow256(j as nat) * (
                b as nat) + (256 * pow256(j as nat)) * (w as nat)) by (nonlinear_arith);
                assert(pow256((j + 1) as nat) == 256 * pow256(j as nat));
            }
            j = j + 1;
        }
        proof {
            lemma_le_word_bound(r@, r_old.len() as int, width as nat);
            if (w as nat) >= 1 {
                assert(pow256(width as nat) * (w as nat) >= pow256(width as nat)) by (
                nonlinear_arith)
                    requires
                        (w as nat) >= 1,
                        pow256(width as nat) > 0,
                ;
                assert(false);
            }
            assert(le_word(r@, r_old.len() as int, width as nat) == v as nat);
            assert(r_old.len() == i * width);
            assert forall|t: int| 0 <= t < i + 1 implies le_word(r@, t * width, width as nat) == (
            #[trigger] words@[t]) as nat by {
                if t < i {
                    assert(t * width + width <= i * width) by (nonlinear_arith)
                        requires
                            0 <= t < i,
                            1 <= width,
                    ;
                    assert(forall|q: int|
                        0 <= q < width ==> #[trigger] r@[t * width + q] == r_old[t * width + q]);
                    lemma_le_word_congruent(r_old, r@, t * width, t * width, width as nat);
                } else {
                    assert(t * width == r_old.len()) by (nonlinear_arith)
                        requires
                            t == i,
                            r_old.len() == i * width,
                    ;
                }
            }
            assert(r@.len() == (i + 1) * width) by (nonlinear_arith)
                requires
                    r@.len() == i * width + width,
            ;
        }
        i = i + 1;
    }
    r
}

} // verus!
