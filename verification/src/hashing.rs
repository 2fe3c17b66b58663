//! The fingerprint codec: the 64-bit difference hash of a bitmap and the
//! Hamming distance between two fingerprints.

use vstd::prelude::*;

verus! {

/// How many of the eight bits of `b` are set.
pub open spec fn ones(b: u8) -> nat {
    ((b & 1) + ((b >> 1) & 1) + ((b >> 2) & 1) + ((b >> 3) & 1) + ((b >> 4) & 1) + ((b >> 5) & 1)
        + ((b >> 6) & 1) + ((b >> 7) & 1)) as nat
}

/// `u8::count_ones` of std: the number of ones in the binary representation
/// of the byte, as its documentation says.
pub assume_specification[ u8::count_ones ](b: u8) -> (n: u32)
    ensures
        n == ones(b),
;

/// The number of differing bits among the first `n` byte pairs of `left` and
/// `right`.
pub open spec fn hamming_upto(left: Seq<u8>, right: Seq<u8>, n: nat) -> nat
    decreases n,
{
    if n == 0 {
        0
    } else {
        hamming_upto(left, right, (n - 1) as nat) + ones(left[n - 1] ^ right[n - 1])
    }
}

/// The length of the part that two byte strings have in common when they are
/// paired up position by position.
pub open spec fn paired_len(left: Seq<u8>, right: Seq<u8>) -> nat {
    if left.len() <= right.len() {
        left.len()
    } else {
        right.len()
    }
}

/// The Hamming distance of two byte strings: the number of differing bits,
/// counted over the positions that both strings have.
pub open spec fn hamming(left: Seq<u8>, right: Seq<u8>) -> nat {
    hamming_upto(left, right, paired_len(left, right))
}

/// A byte holds at most eight set bits.
pub proof fn lemma_ones_bound(b: u8)
    ensures
        ones(b) <= 8,
{
    assert(ones(b) <= 8) by (bit_vector);
}

/// Each byte pair adds at most eight to the distance.
pub proof fn lemma_hamming_upto_bound(left: Seq<u8>, right: Seq<u8>, n: nat)
    ensures
        hamming_upto(left, right, n) <= 8 * n,
    decreases n,
{
    if n > 0 {
        lemma_hamming_upto_bound(left, right, (n - 1) as nat);
        lemma_ones_bound(left[n - 1] ^ right[n - 1]);
    }
}

/// A byte differs from itself in no bit.
proof fn lemma_ones_xor_self(a: u8)
    ensures
        ones(a ^ a) == 0,
{
    assert(ones(a ^ a) == 0) by (bit_vector);
}

/// Two bytes differ in no bit exactly when they are equal.
proof fn lemma_ones_xor_zero(a: u8, b: u8)
    ensures
        ones(a ^ b) == 0 <==> a == b,
{
    assert(ones(a ^ b) == 0 <==> a == b) by (bit_vector);
}

/// The bits in which `a` differs from `b` are those in which `b` differs
/// from `a`.
proof fn lemma_ones_xor_symmetric(a: u8, b: u8)
    ensures
        ones(a ^ b) == ones(b ^ a),
{
    assert(a ^ b == b ^ a) by (bit_vector);
}

/// A bit in which `a` differs from `b` is one in which `c` differs from `a`
/// or from `b`.
proof fn lemma_ones_xor_triangle(a: u8, b: u8, c: u8)
    ensures
        ones(a ^ b) <= ones(a ^ c) + ones(c ^ b),
{
    assert(ones(a ^ b) <= ones(a ^ c) + ones(c ^ b)) by (bit_vector);
}

/// The first `n` bytes of a string differ from themselves in no bit.
proof fn lemma_hamming_upto_self(x: Seq<u8>, n: nat)
    ensures
        hamming_upto(x, x, n) == 0,
    decreases n,
{
    if n > 0 {
        lemma_hamming_upto_self(x, (n - 1) as nat);
        lemma_ones_xor_self(x[n - 1]);
    }
}

/// Two strings differ in no bit among their first `n` bytes exactly when
/// these bytes are the same.
proof fn lemma_hamming_upto_zero(x: Seq<u8>, y: Seq<u8>, n: nat)
    requires
        n <= x.len(),
        n <= y.len(),
    ensures
        hamming_upto(x, y, n) == 0 <==> x.take(n as int) == y.take(n as int),
    decreases n,
{
    if n > 0 {
        let m = (n - 1) as nat;
        lemma_hamming_upto_zero(x, y, m);
        lemma_ones_xor_zero(x[n - 1], y[n - 1]);
        if hamming_upto(x, y, n) == 0 {
            assert forall|i: int| 0 <= i < n implies x.take(n as int)[i] == y.take(n as int)[i] by {}
            assert(x.take(n as int) =~= y.take(n as int));
        }
        if x.take(n as int) == y.take(n as int) {
            assert(x.take(n as int)[n - 1] == y.take(n as int)[n - 1]);
            assert forall|i: int| 0 <= i < m implies x.take(m as int)[i] == y.take(m as int)[i] by {}
            assert(x.take(m as int) =~= y.take(m as int));
        }
    } else {
        assert(x.take(0) =~= y.take(0));
    }
}

/// The count over the first `n` byte pairs does not depend on the order of
/// the strings.
proof fn lemma_hamming_upto_symmetric(x: Seq<u8>, y: Seq<u8>, n: nat)
    ensures
        hamming_upto(x, y, n) == hamming_upto(y, x, n),
    decreases n,
{
    if n > 0 {
        lemma_hamming_upto_symmetric(x, y, (n - 1) as nat);
        lemma_ones_xor_symmetric(x[n - 1], y[n - 1]);
    }
}

/// The triangle inequality over the first `n` byte pairs.
proof fn lemma_hamming_upto_triangle(x: Seq<u8>, y: Seq<u8>, z: Seq<u8>, n: nat)
    ensures
        hamming_upto(x, y, n) <= hamming_upto(x, z, n) + hamming_upto(z, y, n),
    decreases n,
{
    if n > 0 {
        lemma_hamming_upto_triangle(x, y, z, (n - 1) as nat);
        lemma_ones_xor_triangle(x[n - 1], y[n - 1], z[n - 1]);
    }
}

/// The distance from a byte string to itself is zero.
pub proof fn lemma_distance_to_self(x: Seq<u8>)
    ensures
        hamming(x, x) == 0,
{
    lemma_hamming_upto_self(x, x.len());
}

/// Two byte strings of one length are at distance zero exactly when they are
/// equal.
pub proof fn lemma_distance_zero_iff_equal(x: Seq<u8>, y: Seq<u8>)
    requires
        x.len() == y.len(),
    ensures
        hamming(x, y) == 0 <==> x == y,
{
    lemma_hamming_upto_zero(x, y, x.len());
    assert(x.take(x.len() as int) =~= x);
    assert(y.take(y.len() as int) =~= y);
}

/// The distance does not depend on the order of its arguments.
pub proof fn lemma_distance_symmetric(x: Seq<u8>, y: Seq<u8>)
    ensures
        hamming(x, y) == hamming(y, x),
{
    lemma_hamming_upto_symmetric(x, y, paired_len(x, y));
}

/// The triangle inequality: among byte strings of one length, going through
/// a third string never shortens the distance.
pub proof fn lemma_distance_triangle(x: Seq<u8>, y: Seq<u8>, z: Seq<u8>)
    requires
        x.len() == y.len(),
        y.len() == z.len(),
    ensures
        hamming(x, y) <= hamming(x, z) + hamming(z, y),
{
    lemma_hamming_upto_triangle(x, y, z, x.len());
}

/// The distance is at most eight per compared byte: at most 64 between two
/// fingerprints.
pub proof fn lemma_distance_bound(x: Seq<u8>, y: Seq<u8>)
    ensures
        hamming(x, y) <= 8 * paired_len(x, y),
{
    lemma_hamming_upto_bound(x, y, paired_len(x, y));
}

/// The Hamming distance between `left` and `right`, over the positions that
/// both have. For two fingerprints this is the number of differing bits, from
/// 0 to 64.
pub fn hamming_distance(left: &[u8], right: &[u8]) -> (distance: u32)
    requires
        8 * paired_len(left@, right@) <= u32::MAX,
    ensures
        distance == hamming(left@, right@),
        distance <= 8 * paired_len(left@, right@),
{
    proof {
        lemma_distance_bound(left@, right@);
    }
    let n: usize = if left.len() <= right.len() {
        left.len()
    } else {
        right.len()
    };
    let mut distance: u32 = 0;
    let mut i: usize = 0;
    while i < n
        invariant
            i <= n,
            n == paired_len(left@, right@),
            8 * n <= u32::MAX,
            distance == hamming_upto(left@, right@, i as nat),
        decreases n - i,
    {
        proof {
            lemma_hamming_upto_bound(left@, right@, i as nat);
            lemma_ones_bound(left@[i as int] ^ right@[i as int]);
        }
        distance = distance + (left[i] ^ right[i]).count_ones();
        i = i + 1;
    }
    distance
}

/// The side of the comparison grid: eight rows of eight comparisons, one per
/// bit of the fingerprint. It is fixed, so that stored and fresh fingerprints
/// can be compared bit by bit.
pub const IMG_SCALE: u32 = 8;

/// What a [`Bitmap`] is: its size in pixels and its samples, three bytes
/// (red, green, blue) per pixel, row by row.
pub struct BitmapView {
    pub width: nat,
    pub height: nat,
    pub rgb: Seq<u8>,
}

/// A decoded colour image with eight bits per channel.
pub struct Bitmap {
    width: u32,
    height: u32,
    rgb: Vec<u8>,
}

impl View for Bitmap {
    type V = BitmapView;

    closed spec fn view(&self) -> BitmapView {
        BitmapView { width: self.width as nat, height: self.height as nat, rgb: self.rgb@ }
    }
}

impl Bitmap {
    /// A bitmap holds exactly three bytes for each of its pixels.
    #[verifier::type_invariant]
    closed spec fn well_formed(self) -> bool {
        self.rgb@.len() == 3 * self.width * self.height
    }

    /// The bitmap of `width` by `height` pixels over `rgb`, or `None` where
    /// `rgb` is not three bytes per pixel.
    pub fn new(width: u32, height: u32, rgb: Vec<u8>) -> (bitmap: Option<Bitmap>)
        ensures
            bitmap is Some <==> rgb@.len() == 3 * width * height,
            bitmap matches Some(b) ==> b@ == (BitmapView {
                width: width as nat,
                height: height as nat,
                rgb: rgb@,
            }),
    {
        let pixels: u64 = {
            assert(width * height <= 0xffff_ffff * 0xffff_ffff) by (nonlinear_arith)
                requires
                    width <= 0xffff_ffff,
                    height <= 0xffff_ffff,
            ;
            width as u64 * height as u64
        };
        assert(3 * width * height == 3 * (width * height)) by (nonlinear_arith);
        if 3 * (pixels as u128) == rgb.len() as u128 {
            Some(Bitmap { width, height, rgb })
        } else {
            None
        }
    }

    /// The width in pixels.
    pub fn width(&self) -> (width: u32)
        ensures
            width == self@.width,
    {
        self.width
    }

    /// The height in pixels.
    pub fn height(&self) -> (height: u32)
        ensures
            height == self@.height,
    {
        self.height
    }

    /// The samples, three bytes per pixel, row by row.
    pub fn as_raw(&self) -> (rgb: &Vec<u8>)
        ensures
            rgb@ == self@.rgb,
            rgb@.len() == 3 * self@.width * self@.height,
    {
        proof {
            use_type_invariant(self);
        }
        &self.rgb
    }
}

/// Whether a bitmap of this size can be turned to grey: one without columns
/// must not have more than one row. `image` walks such a bitmap into its
/// second row and stops there.
pub open spec fn fits_grayscale(width: nat, height: nat) -> bool {
    width >= 1 || height <= 1
}

/// Whether a bitmap of this width can be resampled on this machine: the
/// resampling works on a buffer of `width` by eight pixels of four 32-bit
/// samples each, which has to fit in one allocation.
pub open spec fn fits_resampling(width: nat) -> bool {
    16 * width * IMG_SCALE <= isize::MAX
}

/// The grey value of a colour: its red, green and blue weighted in ten
/// thousandths, rounded down.
pub open spec fn luma(red: u8, green: u8, blue: u8) -> u8 {
    ((2126 * red + 7152 * green + 722 * blue) / 10000) as u8
}

/// The grey samples of a bitmap of the given size and colour samples, one
/// per pixel and row by row.
pub open spec fn gray_samples(width: nat, height: nat, rgb: Seq<u8>) -> Seq<u8> {
    Seq::new(width * height, |i: int| luma(rgb[3 * i], rgb[3 * i + 1], rgb[3 * i + 2]))
}

/// The samples, row by row, that `image::imageops::resize` gives for a grey
/// image of the given size and samples when it is asked for `columns` by
/// `rows` samples with the triangle filter.
pub uninterp spec fn triangle_resized(
    width: nat,
    height: nat,
    luma: Seq<u8>,
    columns: nat,
    rows: nat,
) -> Seq<u8>;

/// The signature of a bitmap: its grey samples, resampled to eight rows of
/// nine.
pub open spec fn luma_signature(width: nat, height: nat, rgb: Seq<u8>) -> Seq<u8> {
    triangle_resized(
        width,
        height,
        gray_samples(width, height, rgb),
        (IMG_SCALE + 1) as nat,
        IMG_SCALE as nat,
    )
}

/// Calls `image::imageops::grayscale` on the bitmap and hands back the grey
/// samples. A bitmap holds three bytes for each pixel, which is what
/// `ImageBuffer::from_raw` asks for. `grayscale` walks the pixels row by row
/// and writes for each the sum of 2126 times its red, 7152 times its green
/// and 722 times its blue, divided by 10000; the contract says so. On a
/// bitmap without columns the walk steps into the second row and panics
/// where there is one; the contract leaves that bitmap out.
#[verifier::external_body]
fn grayscale(img: &Bitmap) -> (luma: Vec<u8>)
    requires
        fits_grayscale(img@.width, img@.height),
    ensures
        luma@ == gray_samples(img@.width, img@.height, img@.rgb),
{
    let rgb: image::ImageBuffer<image::Rgb<u8>, &[u8]> = image::ImageBuffer::from_raw(
        img.width,
        img.height,
        img.rgb.as_slice(),
    ).unwrap();
    image::imageops::grayscale(&rgb).into_raw()
}

/// Calls `image::imageops::resize` with `FilterType::Triangle` on the grey
/// image of the given size and samples, and hands back the samples of the
/// result row by row. There is one sample for each pixel, which is what
/// `ImageBuffer::from_raw` asks for. The result has the size that was asked
/// for, so it holds `columns * rows` samples; the contract says so and gives
/// the samples their name. `resize` works on a buffer of `width` by `rows`
/// pixels of four `f32` samples and on one of the size of the result; the
/// contract leaves out the sizes for which one of them exceeds the largest
/// allocation.
#[verifier::external_body]
fn resize_triangle(
    width: u32,
    height: u32,
    luma: &Vec<u8>,
    columns: u32,
    rows: u32,
) -> (samples: Vec<u8>)
    requires
        luma@.len() == width * height,
        1 <= columns,
        1 <= rows,
        16 * width * rows <= isize::MAX,
        16 * columns * rows <= isize::MAX,
    ensures
        samples@ == triangle_resized(
            width as nat,
            height as nat,
            luma@,
            columns as nat,
            rows as nat,
        ),
        samples@.len() == columns * rows,
{
    let gray_image: image::ImageBuffer<image::Luma<u8>, &[u8]> = image::ImageBuffer::from_raw(
        width,
        height,
        luma.as_slice(),
    ).unwrap();
    image::imageops::resize(
        &gray_image,
        columns,
        rows,
        image::imageops::FilterType::Triangle,
    ).into_raw()
}

/// The signature of a bitmap: the image in grey, resampled to eight rows of
/// nine samples.
fn to_grayscale_signature(img: &Bitmap) -> (signature: [u8; 72])
    requires
        fits_grayscale(img@.width, img@.height),
        fits_resampling(img@.width),
    ensures
        signature@ == luma_signature(img@.width, img@.height, img@.rgb),
{
    let gray_image = grayscale(img);
    let samples = resize_triangle(img.width, img.height, &gray_image, IMG_SCALE + 1, IMG_SCALE);
    let mut signature = [0u8; 72];
    let mut i: usize = 0;
    while i < 72
        invariant
            i <= 72,
            samples@.len() == 72,
            forall|k: int| 0 <= k < i ==> signature@[k] == samples@[k],
        decreases 72 - i,
    {
        signature[i] = samples[i];
        i = i + 1;
    }
    signature
}

/// The grey sample in column `x` of row `y` of a signature.
pub open spec fn sample(signature: Seq<u8>, x: int, y: int) -> u8 {
    signature[y * 9 + x]
}

/// The bit that the comparison in column `x` of row `y` contributes to the
/// byte of its row: bit `x`, set where the sample is darker than its right
/// neighbour.
pub open spec fn comparison_bit(signature: Seq<u8>, x: int, y: int) -> u8 {
    if sample(signature, x, y) < sample(signature, x + 1, y) {
        1u8 << (x as u8)
    } else {
        0u8
    }
}

/// The byte of row `y`: its eight comparisons, the leftmost in the lowest
/// bit.
pub open spec fn row_byte(signature: Seq<u8>, y: int) -> u8 {
    comparison_bit(signature, 0, y) | comparison_bit(signature, 1, y) | comparison_bit(
        signature,
        2,
        y,
    ) | comparison_bit(signature, 3, y) | comparison_bit(signature, 4, y) | comparison_bit(
        signature,
        5,
        y,
    ) | comparison_bit(signature, 6, y) | comparison_bit(signature, 7, y)
}

/// The fingerprint of a signature. Comparison `x` of row `y` is bit
/// `8 * y + x` of a 64-bit value, and the fingerprint is that value in
/// big-endian order: its first byte is the byte of the last row.
pub open spec fn dhash(signature: Seq<u8>) -> [u8; 8] {
    [
        row_byte(signature, 7),
        row_byte(signature, 6),
        row_byte(signature, 5),
        row_byte(signature, 4),
        row_byte(signature, 3),
        row_byte(signature, 2),
        row_byte(signature, 1),
        row_byte(signature, 0),
    ]
}

/// The comparisons of row `y` in the columns before `n`, as bits of a byte.
spec fn row_prefix(signature: Seq<u8>, y: int, n: int) -> u8
    decreases n,
{
    if n <= 0 {
        0u8
    } else {
        row_prefix(signature, y, n - 1) | comparison_bit(signature, n - 1, y)
    }
}

/// All eight comparisons of a row make up its byte.
proof fn lemma_row_prefix_full(signature: Seq<u8>, y: int)
    ensures
        row_prefix(signature, y, 8) == row_byte(signature, y),
{
    reveal_with_fuel(row_prefix, 9);
    let b0 = comparison_bit(signature, 0, y);
    let b1 = comparison_bit(signature, 1, y);
    let b2 = comparison_bit(signature, 2, y);
    let b3 = comparison_bit(signature, 3, y);
    let b4 = comparison_bit(signature, 4, y);
    let b5 = comparison_bit(signature, 5, y);
    let b6 = comparison_bit(signature, 6, y);
    let b7 = comparison_bit(signature, 7, y);
    assert((((((((0u8 | b0) | b1) | b2) | b3) | b4) | b5) | b6) | b7 == b0 | b1 | b2 | b3 | b4 | b5
        | b6 | b7) by (bit_vector);
}

/// The fingerprint of a signature of eight rows of nine grey samples: one
/// bit per comparison of a sample with its right neighbour.
pub fn dhash_of_signature(signature: &[u8; 72]) -> (fingerprint: [u8; 8])
    ensures
        fingerprint == dhash(signature@),
{
    let mut fingerprint: [u8; 8] = [0u8; 8];
    let mut y: usize = 0;
    while y < 8
        invariant
            y <= 8,
            forall|r: int| 0 <= r < y ==> fingerprint@[7 - r] == row_byte(signature@, r),
        decreases 8 - y,
    {
        let mut row: u8 = 0;
        let mut x: usize = 0;
        while x < 8
            invariant
                x <= 8,
                y < 8,
                row == row_prefix(signature@, y as int, x as int),
            decreases 8 - x,
        {
            let current_pixel = signature[y * 9 + x];
            let next_pixel = signature[y * 9 + x + 1];
            if current_pixel < next_pixel {
                row = row | (1u8 << (x as u8));
            } else {
                assert(row | 0u8 == row) by (bit_vector);
            }
            x = x + 1;
        }
        proof {
            lemma_row_prefix_full(signature@, y as int);
        }
        fingerprint[7 - y] = row;
        y = y + 1;
    }
    assert(fingerprint@ =~= dhash(signature@)@);
    fingerprint
}

/// The fingerprint of a bitmap of the given size and samples.
pub open spec fn fingerprint_of(width: nat, height: nat, rgb: Seq<u8>) -> [u8; 8] {
    dhash(luma_signature(width, height, rgb))
}

/// The fingerprint of a bitmap: the image is reduced to grey, resampled to
/// eight rows of nine samples, and each sample is compared with its right
/// neighbour. The fingerprint depends on the size and the samples of the
/// bitmap and on nothing else.
pub fn compute_dhash(img: &Bitmap) -> (fingerprint: [u8; 8])
    requires
        fits_grayscale(img@.width, img@.height),
        fits_resampling(img@.width),
    ensures
        fingerprint == fingerprint_of(img@.width, img@.height, img@.rgb),
{
    let signature = to_grayscale_signature(img);
    dhash_of_signature(&signature)
}

/// Why bytes could not be fingerprinted.
#[derive(Debug, Clone, Copy, PartialEq, Eq, Structural)]
pub enum DecodeError {
    /// The decoder found no image in the bytes.
    Unreadable,
    /// The samples are not three bytes for each pixel.
    Inconsistent,
    /// The bitmap has several rows and no columns.
    NoColumns,
    /// The bitmap is too wide to be resampled on this machine.
    TooWide,
}

/// The fingerprint of the bitmap of the given size over the given samples,
/// or why it has none.
pub open spec fn pixels_fingerprint(
    width: nat,
    height: nat,
    rgb: Seq<u8>,
) -> Result<[u8; 8], DecodeError> {
    if rgb.len() != 3 * width * height {
        Err(DecodeError::Inconsistent)
    } else if !fits_grayscale(width, height) {
        Err(DecodeError::NoColumns)
    } else if !fits_resampling(width) {
        Err(DecodeError::TooWide)
    } else {
        Ok(fingerprint_of(width, height, rgb))
    }
}

/// The fingerprint of a bitmap, or `None` where the bitmap has several rows
/// and no columns, or is too wide to be resampled on this machine.
pub fn try_compute_dhash(img: &Bitmap) -> (fingerprint: Option<[u8; 8]>)
    ensures
        fingerprint == if fits_grayscale(img@.width, img@.height) && fits_resampling(img@.width) {
            Some(fingerprint_of(img@.width, img@.height, img@.rgb))
        } else {
            None
        },
{
    if (img.width() >= 1 || img.height() <= 1) && img.width() as u64 <= (isize::MAX as u64) / 128 {
        Some(compute_dhash(img))
    } else {
        None
    }
}

/// The fingerprint of the bitmap of `width` by `height` pixels over `rgb`.
/// Samples that are not three bytes for each pixel give
/// `DecodeError::Inconsistent`, several rows without columns
/// `DecodeError::NoColumns`, and a width beyond what this machine can
/// resample `DecodeError::TooWide`.
pub fn fingerprint_pixels(
    width: u32,
    height: u32,
    rgb: Vec<u8>,
) -> (result: Result<[u8; 8], DecodeError>)
    ensures
        result == pixels_fingerprint(width as nat, height as nat, rgb@),
{
    match Bitmap::new(width, height, rgb) {
        None => Err(DecodeError::Inconsistent),
        Some(bitmap) => {
            if bitmap.width() == 0 && bitmap.height() >= 2 {
                Err(DecodeError::NoColumns)
            } else {
                match try_compute_dhash(&bitmap) {
                    Some(fingerprint) => Ok(fingerprint),
                    None => Err(DecodeError::TooWide),
                }
            }
        },
    }
}

/// `image::ImageError`, the error of the `image` crate's decoders. Nothing
/// is read from it.
#[verifier::external_type_specification]
#[verifier::external_body]
pub struct ExImageError(image::ImageError);

/// What the `image` crate decodes from the bytes, as eight-bit colour: the
/// width, the height and the samples, or `None` where it finds no image in
/// them.
pub uninterp spec fn decoded_rgb8(bytes: Seq<u8>) -> Option<(nat, nat, Seq<u8>)>;

/// Calls `image::guess_format`, which tells the format from the first
/// bytes, `image::load_from_memory_with_format`, which decodes the bytes in
/// that format, and `DynamicImage::to_rgb8` on what it gives. Hands back the
/// width, the height and the samples of the result, or the error of the
/// call that failed. This is what `image::load_from_memory` does, but for
/// the formats that a program can register with `image::hooks` while it
/// runs: the two calls do not look at them, so the result depends on the
/// bytes alone. The contract gives it its name and claims nothing else.
#[verifier::external_body]
fn load_rgb8(bytes: &[u8]) -> (loaded: Result<(u32, u32, Vec<u8>), image::ImageError>)
    ensures
        match loaded {
            Ok((width, height, rgb)) => decoded_rgb8(bytes@) == Some(
                (width as nat, height as nat, rgb@),
            ),
            Err(_) => decoded_rgb8(bytes@) is None,
        },
{
    let format = image::guess_format(bytes)?;
    let image = image::load_from_memory_with_format(bytes, format)?.to_rgb8();
    Ok((image.width(), image.height(), image.into_raw()))
}

/// The fingerprint of an encoded image, or why it has none: bytes that
/// hold no image are unreadable, and the bitmap that the others hold is
/// fingerprinted.
pub open spec fn image_fingerprint(bytes: Seq<u8>) -> Result<[u8; 8], DecodeError> {
    match decoded_rgb8(bytes) {
        None => Err(DecodeError::Unreadable),
        Some((width, height, rgb)) => pixels_fingerprint(width, height, rgb),
    }
}

/// The fingerprint of what the decoder gave: of the bitmap, where it gave
/// one, and `DecodeError::Unreadable` where it refused the bytes.
pub fn fingerprint_loaded(
    loaded: Result<(u32, u32, Vec<u8>), image::ImageError>,
) -> (result: Result<[u8; 8], DecodeError>)
    ensures
        result == match loaded {
            Err(_) => Err(DecodeError::Unreadable),
            Ok((width, height, rgb)) => pixels_fingerprint(width as nat, height as nat, rgb@),
        },
{
    match loaded {
        Err(_) => Err(DecodeError::Unreadable),
        Ok((width, height, rgb)) => fingerprint_pixels(width, height, rgb),
    }
}

/// The fingerprint of an encoded image: the bytes are decoded to a bitmap
/// of eight-bit colour samples, and the bitmap is fingerprinted. Bytes that
/// the decoder refuses give `DecodeError::Unreadable`.
pub fn fingerprint_image(bytes: &[u8]) -> (result: Result<[u8; 8], DecodeError>)
    ensures
        result == image_fingerprint(bytes@),
{
    fingerprint_loaded(load_rgb8(bytes))
}

/// Fingerprinting is deterministic: bitmaps of one size over the same
/// samples have the same fingerprint, or none for the same reason. The
/// fingerprint depends on no state, time or chance.
pub proof fn lemma_compute_dhash_deterministic(first: BitmapView, second: BitmapView)
    requires
        first.width == second.width,
        first.height == second.height,
        first.rgb == second.rgb,
    ensures
        fingerprint_of(first.width, first.height, first.rgb) == fingerprint_of(
            second.width,
            second.height,
            second.rgb,
        ),
        pixels_fingerprint(first.width, first.height, first.rgb) == pixels_fingerprint(
            second.width,
            second.height,
            second.rgb,
        ),
{
}

/// Encoded images of the same bytes have the same fingerprint, or none for
/// the same reason.
pub proof fn lemma_fingerprint_image_deterministic(first: Seq<u8>, second: Seq<u8>)
    requires
        first == second,
    ensures
        image_fingerprint(first) == image_fingerprint(second),
{
}

} // verus!
