use vstd::prelude::*;
use vstd::arithmetic::div_mod::{
    lemma_div_is_ordered, lemma_div_multiples_vanish, lemma_fundamental_div_mod,
    lemma_fundamental_div_mod_converse_div, lemma_fundamental_div_mod_converse_mod,
    lemma_mod_bound,
};
use vstd::arithmetic::mul::lemma_mul_inequality;

verus! {

/// The bytes of `s` after exchanging channels 0 and 2 of every complete
/// `bpp`-byte pixel; bytes of a trailing incomplete pixel are untouched.
/// This turns BGRA pixel data into RGBA and vice versa.
pub open spec fn swapped_channels(s: Seq<u8>, bpp: int) -> Seq<u8> {
    Seq::new(
        s.len(),
        |i: int|
            {
                let p = i / bpp;
                let c = i % bpp;
                if (p + 1) * bpp <= s.len() {
                    if c == 0 {
                        s[p * bpp + 2]
                    } else if c == 2 {
                        s[p * bpp]
                    } else {
                        s[i]
                    }
                } else {
                    s[i]
                }
            },
    )
}

/// Byte `i` of the repacked buffer: byte `i % row_len` of source row
/// `i / row_len`, where a source row starts every `stride` bytes.
pub open spec fn repacked_byte(s: Seq<u8>, row_len: int, stride: int, i: int) -> u8 {
    s[(i / row_len) * stride + i % row_len]
}

/// The first `row_len` bytes of each of the `height` rows of `s`, laid out
/// contiguously: the row padding that native strides append is dropped.
pub open spec fn repacked_rows(s: Seq<u8>, row_len: int, stride: int, height: int) -> Seq<u8> {
    Seq::new((height * row_len) as nat, |i: int| repacked_byte(s, row_len, stride, i))
}

/// Repacks a row-padded native buffer into contiguous rows: output row `r`
/// is bytes `[r * stride, r * stride + width * bpp)` of the input, so the
/// result holds exactly `width * height * bpp` bytes and no padding.
pub fn repack_rows(buf: &Vec<u8>, width: usize, height: usize, bpp: usize, stride: usize) -> (out:
    Vec<u8>)
    requires
        width * bpp <= stride,
        height * stride <= buf@.len(),
    ensures
        out@ == repacked_rows(buf@, (width * bpp) as int, stride as int, height as int),
        out@.len() == height * (width * bpp),
        forall|r: int|
            0 <= r < height ==> #[trigger] out@.subrange(r * (width * bpp), (r + 1) * (width
                * bpp)) == buf@.subrange(r * stride, r * stride + (width * bpp)),
{
    let row_len: usize = width * bpp;
    let _buf_len: usize = buf.len();
    let mut out: Vec<u8> = Vec::new();
    let mut r: usize = 0;
    #[verifier::loop_isolation(false)]
    while r < height
        invariant
            r <= height,
            out@.len() == r * row_len,
            forall|i: int|
                0 <= i < out@.len() ==> out@[i] == #[trigger] repacked_byte(
                    buf@,
                    row_len as int,
                    stride as int,
                    i,
                ),
        decreases height - r,
    {
        proof {
            lemma_mul_inequality(r as int + 1, height as int, stride as int);
            lemma_mul_inequality(r as int + 1, height as int, row_len as int);
            assert((r + 1) * stride == r * stride + stride) by (nonlinear_arith);
            assert((r + 1) * row_len == r * row_len + row_len) by (nonlinear_arith);
        }
        let base: usize = r * stride;
        let mut j: usize = 0;
        #[verifier::loop_isolation(false)]
        while j < row_len
            invariant
                j <= row_len,
                r < height,
                base == r * stride,
                out@.len() == r * row_len + j,
                forall|i: int|
                    0 <= i < out@.len() ==> out@[i] == #[trigger] repacked_byte(
                        buf@,
                        row_len as int,
                        stride as int,
                        i,
                    ),
            decreases row_len - j,
        {
            let b: u8 = buf[base + j];
            out.push(b);
            proof {
                let i: int = r * row_len + j;
                lemma_fundamental_div_mod_converse_div(i, row_len as int, r as int, j as int);
                lemma_fundamental_div_mod_converse_mod(i, row_len as int, r as int, j as int);
            }
            j = j + 1;
        }
        r = r + 1;
        proof {
            assert(r * row_len == (r - 1) * row_len + row_len) by (nonlinear_arith);
        }
    }
    proof {
        assert(out@ =~= repacked_rows(buf@, row_len as int, stride as int, height as int));
        lemma_repacked_rows_slices(buf@, row_len as int, stride as int, height as int);
    }
    out
}

/// Row `r` of a repacked buffer equals the unpadded prefix of source row
/// `r`, as subranges.
proof fn lemma_repacked_rows_slices(s: Seq<u8>, row_len: int, stride: int, height: int)
    requires
        0 <= row_len <= stride,
        0 <= height,
        height * stride <= s.len(),
    ensures
        forall|r: int|
            0 <= r < height ==> #[trigger] repacked_rows(s, row_len, stride, height).subrange(
                r * row_len,
                (r + 1) * row_len,
            ) == s.subrange(r * stride, r * stride + row_len),
{
    let rep = repacked_rows(s, row_len, stride, height);
    assert forall|r: int| 0 <= r < height implies #[trigger] rep.subrange(
        r * row_len,
        (r + 1) * row_len,
    ) == s.subrange(r * stride, r * stride + row_len) by {
        assert((r + 1) * row_len == r * row_len + row_len) by (nonlinear_arith);
        assert((r + 1) * row_len <= height * row_len) by (nonlinear_arith)
            requires
                0 <= r < height,
                row_len >= 0,
        ;
        assert((r + 1) * stride <= height * stride) by (nonlinear_arith)
            requires
                0 <= r < height,
                stride >= 0,
        ;
        assert((r + 1) * stride == r * stride + stride) by (nonlinear_arith);
        assert forall|i: int| r * row_len <= i < (r + 1) * row_len implies #[trigger] rep[i] == s[r
            * stride + (i - r * row_len)] by {
            let j = i - r * row_len;
            lemma_fundamental_div_mod_converse_div(i, row_len, r, j);
            lemma_fundamental_div_mod_converse_mod(i, row_len, r, j);
        }
        assert(rep.subrange(r * row_len, r * row_len + row_len) =~= s.subrange(
            r * stride,
            r * stride + row_len,
        ));
    }
}

/// Exchanges the first and third byte of every complete `bpp`-byte pixel in
/// place, converting between BGRA and RGBA channel order.
pub fn swap_channels(buf: &mut Vec<u8>, bpp: usize)
    requires
        bpp >= 3,
    ensures
        final(buf)@ == swapped_channels(old(buf)@, bpp as int),
{
    let ghost orig: Seq<u8> = buf@;
    let len: usize = buf.len();
    let n: usize = len / bpp;
    proof {
        lemma_fundamental_div_mod(len as int, bpp as int);
        lemma_mod_bound(len as int, bpp as int);
        assert(n * bpp <= len) by (nonlinear_arith)
            requires
                len == bpp * (len as int / bpp as int) + len as int % bpp as int,
                len as int % bpp as int >= 0,
                n == len as int / bpp as int,
        ;
    }
    let mut p: usize = 0;
    while p < n
        invariant
            bpp >= 3,
            n * bpp <= len <= usize::MAX,
            len == orig.len(),
            buf@.len() == orig.len(),
            p <= n,
            forall|j: int|
                0 <= j < p * bpp ==> buf@[j] == #[trigger] swapped_channels(orig, bpp as int)[j],
            forall|j: int| p * bpp <= j < len ==> buf@[j] == orig[j],
        decreases n - p,
    {
        proof {
            lemma_mul_inequality(p as int, n as int, bpp as int);
            lemma_mul_inequality(p as int + 1, n as int, bpp as int);
            assert((p + 1) * bpp == p * bpp + bpp) by (nonlinear_arith);
        }
        let i0: usize = p * bpp;
        let i2: usize = i0 + 2;
        let b0: u8 = buf[i0];
        let b2: u8 = buf[i2];
        buf[i0] = b2;
        buf[i2] = b0;
        proof {
            assert forall|j: int| 0 <= j < (p + 1) * bpp implies buf@[j] == #[trigger] swapped_channels(
                orig,
                bpp as int,
            )[j] by {
                if p * bpp <= j {
                    let c = j - p * bpp;
                    lemma_fundamental_div_mod_converse_div(j, bpp as int, p as int, c);
                    lemma_fundamental_div_mod_converse_mod(j, bpp as int, p as int, c);
                }
            }
        }
        p = p + 1;
    }
    proof {
        assert forall|j: int| 0 <= j < len implies buf@[j] == #[trigger] swapped_channels(
            orig,
            bpp as int,
        )[j] by {
            if j >= n * bpp {
                let q = j / (bpp as int);
                lemma_fundamental_div_mod(j, bpp as int);
                lemma_mod_bound(j, bpp as int);
                assert(j < (q + 1) * bpp) by (nonlinear_arith)
                    requires
                        j == bpp * q + j % (bpp as int),
                        j % (bpp as int) < bpp,
                ;
                if (q + 1) * bpp <= len {
                    // A complete pixel past the last one is impossible:
                    // q + 1 <= len / bpp = n would put j below n * bpp.
                    lemma_div_is_ordered((q + 1) * (bpp as int), len as int, bpp as int);
                    assert((q + 1) * bpp == bpp * (q + 1)) by (nonlinear_arith);
                    lemma_div_multiples_vanish(q + 1, bpp as int);
                    assert(q + 1 <= n);
                    lemma_mul_inequality(q + 1, n as int, bpp as int);
                    assert(false);
                }
            }
        }
        assert(buf@ =~= swapped_channels(orig, bpp as int));
    }
}

} // verus!
