//! The plain-text pixel map (`P3`) that a finished image is written as.
use vstd::prelude::*;
use vstd::arithmetic::div_mod::lemma_fundamental_div_mod_converse;

verus! {

/// A pixel's three 8-bit channels: red, green and blue.
pub type Rgb8 = (u8, u8, u8);

/// The decimal digits of `n`, in ASCII, without leading zeros.
pub open spec fn digits(n: nat) -> Seq<u8>
    decreases n,
{
    if n < 10 {
        seq![(48 + n) as u8]
    } else {
        digits(n / 10).push((48 + n % 10) as u8)
    }
}

/// `P3`, then the width and height, then the largest channel value `255`,
/// each on a line of its own.
pub open spec fn header_spec(width: nat, height: nat) -> Seq<u8> {
    seq![80u8, 51u8, 10u8] + digits(width) + seq![32u8] + digits(height) + seq![10u8, 50u8, 53u8, 53u8, 10u8]
}

/// The line of one pixel: its three channels in decimal, apart by one space.
pub open spec fn pixel_line_spec(p: Rgb8) -> Seq<u8> {
    digits(p.0 as nat) + seq![32u8] + digits(p.1 as nat) + seq![32u8] + digits(p.2 as nat) + seq![10u8]
}

/// The key of the pixel in column `i` of row `j`, rows counted from the bottom.
pub open spec fn key_spec(width: nat, i: nat, j: nat) -> nat {
    j * width + i
}

/// The key of the pixel written in place `k`: rows go from the top one
/// down, and each row from left to right.
pub open spec fn written_key(width: nat, height: nat, k: nat) -> nat {
    key_spec(width, k % width, (height - 1 - k / width) as nat)
}

/// The lines of the first `n` pixels written, for pixels stored by key.
pub open spec fn body_spec(width: nat, height: nat, pixels: Seq<Rgb8>, n: nat) -> Seq<u8>
    decreases n,
{
    if n == 0 {
        Seq::empty()
    } else {
        body_spec(width, height, pixels, (n - 1) as nat)
            + pixel_line_spec(pixels[written_key(width, height, (n - 1) as nat) as int])
    }
}

/// The whole image file.
pub open spec fn image_spec(width: nat, height: nat, pixels: Seq<Rgb8>) -> Seq<u8> {
    header_spec(width, height) + body_spec(width, height, pixels, width * height)
}

/// Appends the decimal digits of `n`.
fn push_digits(out: &mut Vec<u8>, n: usize)
    ensures
        final(out)@ == old(out)@ + digits(n as nat),
    decreases n,
{
    let ghost before = out@;
    if n >= 10 {
        push_digits(out, n / 10);
    }
    let d: u8 = (n % 10) as u8;
    out.push(48 + d);
    assert(out@ =~= before + digits(n as nat));
}

/// Appends the line of pixel `p`.
fn push_pixel_line(out: &mut Vec<u8>, p: Rgb8)
    ensures
        final(out)@ == old(out)@ + pixel_line_spec(p),
{
    let ghost before = out@;
    push_digits(out, p.0 as usize);
    out.push(32);
    push_digits(out, p.1 as usize);
    out.push(32);
    push_digits(out, p.2 as usize);
    out.push(10);
    assert(out@ =~= before + pixel_line_spec(p));
}

/// The header of an image of `width` by `height` pixels.
pub fn ppm_header(width: usize, height: usize) -> (r: Vec<u8>)
    ensures
        r@ == header_spec(width as nat, height as nat),
{
    let mut out: Vec<u8> = Vec::new();
    out.push(80);
    out.push(51);
    out.push(10);
    push_digits(&mut out, width);
    out.push(32);
    push_digits(&mut out, height);
    out.push(10);
    out.push(50);
    out.push(53);
    out.push(53);
    out.push(10);
    assert(out@ =~= header_spec(width as nat, height as nat));
    out
}

/// The line of one pixel.
pub fn pixel_line(p: Rgb8) -> (r: Vec<u8>)
    ensures
        r@ == pixel_line_spec(p),
{
    let mut out: Vec<u8> = Vec::new();
    push_pixel_line(&mut out, p);
    assert(out@ =~= pixel_line_spec(p));
    out
}

/// The pixel in column `i` of row `j` is written in place
/// `(height - 1 - j) * width + i`, and both that place and its key lie in the image.
proof fn lemma_written_key(width: nat, height: nat, j: nat, i: nat)
    requires
        i < width,
        j < height,
    ensures
        written_key(width, height, ((height - 1 - j) * width + i) as nat) == j * width + i,
        j * width + i < width * height,
        (height - 1 - j) * width + i < width * height,
{
    let k = (height - 1 - j) * width + i;
    lemma_fundamental_div_mod_converse(k, width as int, (height - 1 - j) as int, i as int);
    assert(j * width + i < width * height) by (nonlinear_arith)
        requires
            i < width,
            j < height,
    ;
    assert((height - 1 - j) * width + i < width * height) by (nonlinear_arith)
        requires
            i < width,
            j < height,
    ;
}

/// The image file of `width` by `height` pixels, given by key: the pixel in
/// column `i` of row `j`, rows counted from the bottom, is `pixels[j * width + i]`.
/// It is written from the top row down, each row from left to right.
pub fn encode_image(width: usize, height: usize, pixels: &Vec<Rgb8>) -> (r: Vec<u8>)
    requires
        pixels.len() == width * height,
    ensures
        r@ == image_spec(width as nat, height as nat, pixels@),
{
    let mut out = ppm_header(width, height);
    let ghost header = out@;
    let mut j: usize = height;
    while j > 0
        invariant
            j <= height,
            pixels.len() == width * height,
            header == header_spec(width as nat, height as nat),
            out@ == header + body_spec(width as nat, height as nat, pixels@, ((height - j) * width) as nat),
        decreases j,
    {
        j = j - 1;
        let mut i: usize = 0;
        while i < width
            invariant
                i <= width,
                j < height,
                pixels.len() == width * height,
                header == header_spec(width as nat, height as nat),
                out@ == header + body_spec(width as nat, height as nat, pixels@, ((height - 1 - j) * width + i) as nat),
            decreases width - i,
        {
            proof {
                lemma_written_key(width as nat, height as nat, j as nat, i as nat);
            }
            let key = j * width + i;
            push_pixel_line(&mut out, pixels[key]);
            proof {
                let n = ((height - 1 - j) * width + i) as nat;
                assert(out@ =~= header + body_spec(width as nat, height as nat, pixels@, n + 1));
            }
            i = i + 1;
        }
        assert((height - (j + 1)) * width + width == (height - j) * width) by (nonlinear_arith);
    }
    assert((height - j) * width == width * height) by (nonlinear_arith)
        requires
            j == 0,
    ;
    out
}

} // verus!
