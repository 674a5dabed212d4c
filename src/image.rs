use vstd::prelude::*;
use vstd::arithmetic::div_mod::{
    lemma_fundamental_div_mod,
    lemma_fundamental_div_mod_converse,
    lemma_mod_pos_bound,
};

use crate::canvas::Canvas;
use crate::color::Rgb8;

verus! {

/// The ASCII decimal digits of `n`, without leading zeros.
pub open spec fn decimal(n: nat) -> Seq<u8>
    decreases n,
{
    if n < 10 {
        seq![(48 + n) as u8]
    } else {
        decimal(n / 10) + seq![(48 + n % 10) as u8]
    }
}

/// A pixel in a PPM file: its three channels in decimal, red first, one
/// space between them.
pub open spec fn ppm_pixel(p: Rgb8) -> Seq<u8> {
    decimal(p.red as nat) + seq![32u8] + decimal(p.green as nat) + seq![32u8] + decimal(
        p.blue as nat,
    )
}

/// What follows the pixel in column `col` of a row `width` pixels wide: a
/// line break after every fifth pixel of the row and after its last one, a
/// space otherwise.
pub open spec fn ppm_separator(col: int, width: int) -> u8 {
    if (col + 1) % 5 == 0 || col + 1 == width {
        10u8
    } else {
        32u8
    }
}

/// The PPM text of the first `k` pixels of a row-major buffer of a canvas
/// `width` pixels wide.
pub open spec fn ppm_body(pixels: Seq<Rgb8>, width: nat, k: nat) -> Seq<u8>
    decreases k,
{
    if k == 0 {
        seq![]
    } else {
        ppm_body(pixels, width, (k - 1) as nat) + ppm_pixel(pixels[k - 1]) + seq![
            ppm_separator((k - 1) % (width as int), width as int),
        ]
    }
}

/// The PPM header: `P3`, the size, and the largest channel value, one per
/// line.
pub open spec fn ppm_header(width: nat, height: nat) -> Seq<u8> {
    seq![80u8, 51u8, 10u8] + decimal(width) + seq![32u8] + decimal(height) + seq![10u8]
        + seq![50u8, 53u8, 53u8, 10u8]
}

/// A whole plain PPM image: header, pixels, and a final line break.
pub open spec fn ppm_image(pixels: Seq<Rgb8>, width: nat, height: nat) -> Seq<u8> {
    ppm_header(width, height) + ppm_body(pixels, width, pixels.len()) + seq![10u8]
}

/// The 18-byte header of an uncompressed true-color TGA image, 24 bits per
/// pixel, origin at the upper left; the size is stored little-endian in 16
/// bits.
pub open spec fn tga_header(width: nat, height: nat) -> Seq<u8> {
    seq![
        0u8,
        0u8,
        2u8,
        0u8,
        0u8,
        0u8,
        0u8,
        0u8,
        0u8,
        0u8,
        0u8,
        0u8,
        (width % 256) as u8,
        ((width / 256) % 256) as u8,
        (height % 256) as u8,
        ((height / 256) % 256) as u8,
        24u8,
        32u8,
    ]
}

/// The first `k` pixels of a buffer as TGA data: blue, green, red for each.
pub open spec fn tga_body(pixels: Seq<Rgb8>, k: nat) -> Seq<u8>
    decreases k,
{
    if k == 0 {
        seq![]
    } else {
        let p = pixels[k - 1];
        tga_body(pixels, (k - 1) as nat) + seq![p.blue, p.green, p.red]
    }
}

/// A whole TGA image: header, then the pixels row by row from the top.
pub open spec fn tga_image(pixels: Seq<Rgb8>, width: nat, height: nat) -> Seq<u8> {
    tga_header(width, height) + tga_body(pixels, pixels.len())
}

proof fn lemma_next_column(i: int, width: int)
    requires
        0 <= i,
        0 < width,
    ensures
        (i + 1) % width == if i % width + 1 == width {
            0
        } else {
            i % width + 1
        },
{
    lemma_fundamental_div_mod(i, width);
    lemma_mod_pos_bound(i, width);
    let q = i / width;
    assert(i == q * width + i % width) by (nonlinear_arith)
        requires
            i == width * q + i % width,
    ;
    if i % width + 1 == width {
        assert(i + 1 == (q + 1) * width + 0) by (nonlinear_arith)
            requires
                i == q * width + i % width,
                i % width + 1 == width,
        ;
        lemma_fundamental_div_mod_converse(i + 1, width, q + 1, 0);
    } else {
        lemma_fundamental_div_mod_converse(i + 1, width, q, i % width + 1);
    }
}

/// Appends the decimal digits of `n`.
fn push_decimal(out: &mut Vec<u8>, n: usize)
    ensures
        final(out)@ == old(out)@ + decimal(n as nat),
    decreases n,
{
    if n >= 10 {
        push_decimal(out, n / 10);
    }
    let digit = (48 + n % 10) as u8;
    out.push(digit);
    proof {
        assert(final(out)@ =~= old(out)@ + decimal(n as nat));
    }
}

impl Canvas<Rgb8> {
    /// The canvas as a plain (ASCII) PPM image.
    pub fn to_ppm(&self) -> (r: Vec<u8>)
        requires
            self.wf(),
        ensures
            r@ == ppm_image(self@, self.spec_width(), self.spec_height()),
    {
        let width = self.width();
        let height = self.height();
        let pixels = self.pixels();
        let n = pixels.len();
        let mut out: Vec<u8> = Vec::new();
        out.push(80);
        out.push(51);
        out.push(10);
        push_decimal(&mut out, width);
        out.push(32);
        push_decimal(&mut out, height);
        out.push(10);
        out.push(50);
        out.push(53);
        out.push(53);
        out.push(10);
        let ghost header = out@;
        proof {
            assert(header =~= ppm_header(width as nat, height as nat));
        }
        let mut col: usize = 0;
        let mut i: usize = 0;
        while i < n
            invariant
                n == pixels@.len(),
                n == width * height,
                0 <= i <= n,
                width > 0 ==> col as int == (i as int) % (width as int),
                header == ppm_header(width as nat, height as nat),
                out@ == header + ppm_body(pixels@, width as nat, i as nat),
            decreases n - i,
        {
            assert(width > 0) by (nonlinear_arith)
                requires
                    i < n,
                    n == width * height,
            ;
            let p = pixels[i];
            let ghost before = out@;
            push_decimal(&mut out, p.red as usize);
            out.push(32);
            push_decimal(&mut out, p.green as usize);
            out.push(32);
            push_decimal(&mut out, p.blue as usize);
            proof {
                lemma_mod_pos_bound(i as int, width as int);
            }
            let last_of_line = (col + 1) % 5 == 0 || col + 1 == width;
            if last_of_line {
                out.push(10);
            } else {
                out.push(32);
            }
            proof {
                lemma_next_column(i as int, width as int);
                assert(out@ =~= header + ppm_body(pixels@, width as nat, (i + 1) as nat));
            }
            if col + 1 == width {
                col = 0;
            } else {
                col = col + 1;
            }
            i += 1;
        }
        out.push(10);
        out
    }

    /// The canvas as an uncompressed 24-bit TGA image whose first row is the
    /// canvas's top row.
    pub fn to_tga(&self) -> (r: Vec<u8>)
        requires
            self.wf(),
        ensures
            r@ == tga_image(self@, self.spec_width(), self.spec_height()),
    {
        let width = self.width();
        let height = self.height();
        let pixels = self.pixels();
        let n = pixels.len();
        let mut out: Vec<u8> = vec![
            0,
            0,
            2,
            0,
            0,
            0,
            0,
            0,
            0,
            0,
            0,
            0,
            (width % 256) as u8,
            ((width / 256) % 256) as u8,
            (height % 256) as u8,
            ((height / 256) % 256) as u8,
            24,
            0b0010_0000,
        ];
        let ghost header = out@;
        proof {
            assert(header =~= tga_header(width as nat, height as nat));
        }
        let mut i: usize = 0;
        while i < n
            invariant
                n == pixels@.len(),
                0 <= i <= n,
                header == tga_header(width as nat, height as nat),
                out@ == header + tga_body(pixels@, i as nat),
            decreases n - i,
        {
            let p = pixels[i];
            out.push(p.blue);
            out.push(p.green);
            out.push(p.red);
            proof {
                assert(out@ =~= header + tga_body(pixels@, (i + 1) as nat));
            }
            i += 1;
        }
        out
    }
}

} // verus!
