use vstd::prelude::*;
use crate::bits::{pack_bits, packs};
use vstd::arithmetic::div_mod::{lemma_fundamental_div_mod, lemma_fundamental_div_mod_converse, lemma_mod_bound};
use crate::text::{decimal, decimal_text};
use crate::clock::{clock_elapsed, clock_now, duration_millis};

verus! {

/// The perceptual hash algorithms, each with its hash size (side length of
/// the sampled grid).
#[derive(Debug, Clone, Copy, PartialEq, Eq, Structural)]
pub enum HashAlgorithm {
    /// DCT based hash: most accurate, most expensive.
    DCT { size: u32 },
    /// Mean brightness hash: fast, moderately accurate.
    Average { size: u32 },
    /// Neighbour difference hash: good at edges.
    Difference { size: u32 },
}

impl HashAlgorithm {
    /// The similarity threshold recommended for hashes of this algorithm.
    pub open spec fn threshold_spec(self) -> u32 {
        match self {
            HashAlgorithm::DCT { size } => size / 4,
            HashAlgorithm::Average { size } => size / 8,
            HashAlgorithm::Difference { size } => size / 6,
        }
    }

    /// Relative computational cost on a scale from 1 to 10.
    pub open spec fn complexity_spec(self) -> u8 {
        match self {
            HashAlgorithm::Average { .. } => 2,
            HashAlgorithm::Difference { .. } => 3,
            HashAlgorithm::DCT { .. } => 7,
        }
    }

    /// The algorithm as its debug rendering shows it, e.g. `DCT { size: 8 }`.
    pub open spec fn debug_text_spec(self) -> Seq<char> {
        match self {
            HashAlgorithm::DCT { size } => "DCT { size: "@ + decimal_text(size as nat) + " }"@,
            HashAlgorithm::Average { size } => "Average { size: "@ + decimal_text(size as nat) + " }"@,
            HashAlgorithm::Difference { size } => "Difference { size: "@ + decimal_text(size as nat)
                + " }"@,
        }
    }

    pub fn debug_text(&self) -> (r: String)
        ensures
            r@ == self.debug_text_spec(),
    {
        match self {
            HashAlgorithm::DCT { size } => String::from_str("DCT { size: ").concat(
                decimal(*size as u64).as_str(),
            ).concat(" }"),
            HashAlgorithm::Average { size } => String::from_str("Average { size: ").concat(
                decimal(*size as u64).as_str(),
            ).concat(" }"),
            HashAlgorithm::Difference { size } => String::from_str("Difference { size: ").concat(
                decimal(*size as u64).as_str(),
            ).concat(" }"),
        }
    }

    pub fn recommended_threshold(&self) -> (r: u32)
        ensures
            r == self.threshold_spec(),
    {
        match self {
            HashAlgorithm::DCT { size } => *size / 4,
            HashAlgorithm::Average { size } => *size / 8,
            HashAlgorithm::Difference { size } => *size / 6,
        }
    }

    pub fn computational_complexity(&self) -> (r: u8)
        ensures
            r == self.complexity_spec(),
    {
        match self {
            HashAlgorithm::Average { .. } => 2,
            HashAlgorithm::Difference { .. } => 3,
            HashAlgorithm::DCT { .. } => 7,
        }
    }
}

/// Number of positions among the `n` lowest bits where two bytes differ.
pub open spec fn byte_differing_bits(a: u8, b: u8, n: nat) -> nat
    decreases n,
{
    if n == 0 {
        0
    } else {
        byte_differing_bits(a, b, (n - 1) as nat) + if ((a >> ((n - 1) as u8)) & 1u8) != ((b >> ((n
            - 1) as u8)) & 1u8) {
            1nat
        } else {
            0nat
        }
    }
}

/// Hamming distance of two byte strings of equal length: the number of bit
/// positions where they differ.
pub open spec fn hash_distance(s1: Seq<u8>, s2: Seq<u8>) -> nat
    decreases s1.len(),
{
    if s1.len() == 0 {
        0
    } else {
        hash_distance(s1.drop_last(), s2.take(s1.len() - 1)) + byte_differing_bits(
            s1.last(),
            s2[s1.len() - 1],
            8,
        )
    }
}

proof fn lemma_byte_differing_bits_bound(a: u8, b: u8, n: nat)
    ensures
        byte_differing_bits(a, b, n) <= n,
    decreases n,
{
    if n > 0 {
        lemma_byte_differing_bits_bound(a, b, (n - 1) as nat);
    }
}

proof fn lemma_xor_bit_u8(a: u8, b: u8, k: u8)
    requires
        k < 8,
    ensures
        ((a ^ b) >> k) & 1u8 == 1u8 <==> ((a >> k) & 1u8) != ((b >> k) & 1u8),
{
    assert(((a ^ b) >> k) & 1u8 == 1u8 <==> ((a >> k) & 1u8) != ((b >> k) & 1u8)) by (bit_vector)
        requires
            k < 8,
    ;
}

/// Number of bit positions where two bytes differ.
fn byte_distance(a: u8, b: u8) -> (r: u32)
    ensures
        r == byte_differing_bits(a, b, 8),
        r <= 8,
{
    let x: u8 = a ^ b;
    let mut count: u32 = 0;
    let mut k: u8 = 0;
    while k < 8
        invariant
            k <= 8,
            x == a ^ b,
            count == byte_differing_bits(a, b, k as nat),
            count <= k,
        decreases 8 - k,
    {
        proof {
            lemma_xor_bit_u8(a, b, k);
        }
        if (x >> k) & 1u8 == 1u8 {
            count = count + 1;
        }
        k = k + 1;
    }
    count
}

proof fn lemma_hash_distance_bound(s1: Seq<u8>, s2: Seq<u8>)
    ensures
        hash_distance(s1, s2) <= 8 * s1.len(),
    decreases s1.len(),
{
    if s1.len() > 0 {
        lemma_hash_distance_bound(s1.drop_last(), s2.take(s1.len() - 1));
        lemma_byte_differing_bits_bound(s1.last(), s2[s1.len() - 1], 8);
    }
}

proof fn lemma_hash_distance_prefix(s1: Seq<u8>, s2: Seq<u8>, i: int)
    requires
        0 <= i < s1.len(),
        s1.len() <= s2.len(),
    ensures
        hash_distance(s1.take(i + 1), s2.take(i + 1)) == hash_distance(s1.take(i), s2.take(i))
            + byte_differing_bits(s1[i], s2[i], 8),
{
    assert(s1.take(i + 1).drop_last() == s1.take(i));
    assert(s2.take(i + 1).take(i) == s2.take(i));
}

/// Hamming distance between two byte strings of the same length.
pub fn bytes_distance(h1: &Vec<u8>, h2: &Vec<u8>) -> (r: u32)
    requires
        h1@.len() == h2@.len(),
        8 * h1@.len() <= u32::MAX,
    ensures
        r == hash_distance(h1@, h2@),
{
    let mut total: u32 = 0;
    let mut i: usize = 0;
    while i < h1.len()
        invariant
            i <= h1@.len(),
            h1@.len() == h2@.len(),
            8 * h1@.len() <= u32::MAX,
            total == hash_distance(h1@.take(i as int), h2@.take(i as int)),
        decreases h1@.len() - i,
    {
        proof {
            lemma_hash_distance_prefix(h1@, h2@, i as int);
            lemma_hash_distance_bound(h1@.take(i + 1), h2@.take(i + 1));
        }
        let d = byte_distance(h1[i], h2[i]);
        total = total + d;
        i = i + 1;
    }
    assert(h1@.take(h1@.len() as int) == h1@);
    assert(h2@.take(h2@.len() as int) == h2@);
    total
}

proof fn lemma_byte_differing_bits_symmetric(a: u8, b: u8, n: nat)
    ensures
        byte_differing_bits(a, b, n) == byte_differing_bits(b, a, n),
    decreases n,
{
    if n > 0 {
        lemma_byte_differing_bits_symmetric(a, b, (n - 1) as nat);
    }
}

proof fn lemma_byte_differing_bits_self(a: u8, n: nat)
    ensures
        byte_differing_bits(a, a, n) == 0,
    decreases n,
{
    if n > 0 {
        lemma_byte_differing_bits_self(a, (n - 1) as nat);
    }
}

proof fn lemma_byte_differing_bits_triangle(a: u8, b: u8, c: u8, n: nat)
    ensures
        byte_differing_bits(a, c, n) <= byte_differing_bits(a, b, n) + byte_differing_bits(b, c, n),
    decreases n,
{
    if n > 0 {
        lemma_byte_differing_bits_triangle(a, b, c, (n - 1) as nat);
    }
}

/// The distance between byte strings of one length is a metric: zero on equal
/// strings, symmetric, bounded by the number of bits, and it satisfies the
/// triangle inequality.
pub proof fn lemma_hash_distance_metric(s1: Seq<u8>, s2: Seq<u8>, s3: Seq<u8>)
    requires
        s1.len() == s2.len(),
        s2.len() == s3.len(),
    ensures
        hash_distance(s1, s1) == 0,
        hash_distance(s1, s2) == hash_distance(s2, s1),
        hash_distance(s1, s2) <= 8 * s1.len(),
        hash_distance(s1, s3) <= hash_distance(s1, s2) + hash_distance(s2, s3),
    decreases s1.len(),
{
    lemma_hash_distance_bound(s1, s2);
    if s1.len() > 0 {
        let n = s1.len() - 1;
        assert(s1.take(n) == s1.drop_last());
        assert(s2.take(n) == s2.drop_last());
        assert(s3.take(n) == s3.drop_last());
        lemma_hash_distance_metric(s1.drop_last(), s2.drop_last(), s3.drop_last());
        lemma_byte_differing_bits_self(s1.last(), 8);
        lemma_byte_differing_bits_symmetric(s1.last(), s2.last(), 8);
        lemma_byte_differing_bits_triangle(s1.last(), s2.last(), s3.last(), 8);
    }
}

/// The `i`-th character of the binary rendering of a byte string: eight
/// characters `'0'`/`'1'` per byte, most significant bit first.
pub open spec fn bit_char(data: Seq<u8>, i: int) -> char {
    if (data[i / 8] >> ((7 - i % 8) as u8)) & 1u8 == 1u8 {
        '1'
    } else {
        '0'
    }
}

/// Binary rendering of a byte string.
pub open spec fn bits_text(data: Seq<u8>) -> Seq<char> {
    Seq::new(8 * data.len(), |i: int| bit_char(data, i))
}

/// Lower-case hexadecimal digit of a number below 16.
pub open spec fn hex_digit(d: int) -> char {
    if d < 10 {
        (d + 48) as char
    } else {
        (d + 87) as char
    }
}

/// Lower-case hexadecimal rendering of a byte string: two digits per byte,
/// high nibble first.
pub open spec fn hex_text(data: Seq<u8>) -> Seq<char> {
    Seq::new(
        2 * data.len(),
        |i: int|
            if i % 2 == 0 {
                hex_digit((data[i / 2] / 16) as int)
            } else {
                hex_digit((data[i / 2] % 16) as int)
            },
    )
}

/// Standard Base64 encoding (with padding) of a byte string, as computed by
/// the base64 crate.
pub uninterp spec fn base64_standard(data: Seq<u8>) -> Seq<char>;

/// Calls `hex::encode`, which renders each byte as two lower-case hexadecimal
/// digits, high nibble first.
#[verifier::external_body]
fn hex_encode(data: &Vec<u8>) -> (r: String)
    ensures
        r@ == hex_text(data@),
{
    hex::encode(data)
}

/// Calls `base64::Engine::encode` with the standard alphabet and padding; the
/// result has four characters for each started group of three bytes.
#[verifier::external_body]
fn base64_encode(data: &Vec<u8>) -> (r: String)
    requires
        4 * ((data@.len() + 2) / 3) <= usize::MAX,
    ensures
        r@ == base64_standard(data@),
        r@.len() == 4 * ((data@.len() + 2) / 3),
{
    base64::Engine::encode(&base64::engine::general_purpose::STANDARD, data)
}

/// The result of hashing one image.
#[derive(Debug)]
pub struct HashResult {
    /// Hash bits, packed eight to a byte.
    pub hash_data: Vec<u8>,
    /// Number of hash bits.
    pub hash_size_bits: u32,
    /// Algorithm that produced the hash.
    pub algorithm: HashAlgorithm,
    /// Time the computation took, in milliseconds.
    pub computation_time_ms: u64,
    /// Width and height of the source image.
    pub source_dimensions: (u32, u32),
}

impl Clone for HashResult {
    fn clone(&self) -> (r: Self)
        ensures
            r.hash_data@ == self.hash_data@,
            r.hash_size_bits == self.hash_size_bits,
            r.algorithm == self.algorithm,
            r.computation_time_ms == self.computation_time_ms,
            r.source_dimensions == self.source_dimensions,
    {
        HashResult {
            hash_data: self.hash_data.clone(),
            hash_size_bits: self.hash_size_bits,
            algorithm: self.algorithm,
            computation_time_ms: self.computation_time_ms,
            source_dimensions: (self.source_dimensions.0, self.source_dimensions.1),
        }
    }
}

impl HashResult {
    /// The hash as standard Base64.
    pub fn to_base64(&self) -> (r: String)
        requires
            4 * ((self.hash_data@.len() + 2) / 3) <= usize::MAX,
        ensures
            r@ == base64_standard(self.hash_data@),
    {
        base64_encode(&self.hash_data)
    }

    /// One line describing the hash:
    /// `Hash({algorithm}, {bits} bits, {time}ms): {hex}`.
    pub fn describe(&self) -> (r: String)
        ensures
            r@ == "Hash("@ + self.algorithm.debug_text_spec() + ", "@ + decimal_text(
                self.hash_size_bits as nat,
            ) + " bits, "@ + decimal_text(self.computation_time_ms as nat) + "ms): "@ + hex_text(
                self.hash_data@,
            ),
    {
        String::from_str("Hash(").concat(self.algorithm.debug_text().as_str()).concat(", ").concat(
            decimal(self.hash_size_bits as u64).as_str(),
        ).concat(" bits, ").concat(decimal(self.computation_time_ms).as_str()).concat("ms): ").concat(
            self.to_hex().as_str(),
        )
    }

    /// The hash as lower-case hexadecimal.
    pub fn to_hex(&self) -> (r: String)
        ensures
            r@ == hex_text(self.hash_data@),
    {
        hex_encode(&self.hash_data)
    }

    /// The hash as a string of `'0'` and `'1'`, eight per byte.
    pub fn to_bits(&self) -> (r: String)
        requires
            8 * self.hash_data@.len() <= usize::MAX,
        ensures
            r@ == bits_text(self.hash_data@),
    {
        let data = &self.hash_data;
        let mut out = String::new();
        let mut i: usize = 0;
        while i < 8 * data.len()
            invariant
                i <= 8 * data@.len(),
                8 * data@.len() <= usize::MAX,
                out@.len() == i,
                forall|j: int| 0 <= j < i ==> #[trigger] out@[j] == bit_char(data@, j),
            decreases 8 * data@.len() - i,
        {
            proof {
                reveal_strlit("0");
                reveal_strlit("1");
            }
            let byte = data[i / 8];
            let shift: u8 = (7 - i % 8) as u8;
            if (byte >> shift) & 1u8 == 1u8 {
                out.append("1");
            } else {
                out.append("0");
            }
            i = i + 1;
        }
        assert(out@ == bits_text(data@));
        out
    }
}

/// An RGB image with eight bits per channel, pixels row by row.
pub struct ImageData {
    pub width: u32,
    pub height: u32,
    /// Red, green and blue byte of each pixel, row by row.
    pub pixels: Vec<u8>,
}

impl ImageData {
    /// Whether the pixel buffer holds exactly three bytes per pixel.
    pub open spec fn wf(&self) -> bool {
        self.pixels@.len() == 3 * self.width * self.height
    }
}

/// Whether resampling an image of `width` x `height` to `new_width` x
/// `new_height` keeps every intermediate buffer within the address space.
pub open spec fn resize_fits(width: int, height: int, new_width: int, new_height: int) -> bool {
    &&& 16 * width * new_height <= isize::MAX
    &&& 16 * new_width * new_height <= isize::MAX
}

/// The RGB bytes (row by row) that the image crate computes when it
/// resamples an RGB image of `width` x `height` with the Lanczos3 filter to
/// `new_width` x `new_height`.
pub uninterp spec fn lanczos_resize(
    pixels: Seq<u8>,
    width: u32,
    height: u32,
    new_width: u32,
    new_height: u32,
) -> Seq<u8>;

/// The 8-bit luma levels (one per pixel, row by row) that the image crate
/// computes for an RGB image of `width` x `height`.
pub uninterp spec fn luma_levels(pixels: Seq<u8>, width: u32, height: u32) -> Seq<u8>;

/// The gray thumbnail of an RGB image: resampled to `new_width` x
/// `new_height` with Lanczos3, then converted to luma.
pub open spec fn lanczos_gray(
    pixels: Seq<u8>,
    width: u32,
    height: u32,
    new_width: u32,
    new_height: u32,
) -> Seq<u8> {
    luma_levels(lanczos_resize(pixels, width, height, new_width, new_height), new_width, new_height)
}

/// The hash bytes that img_hash computes for an RGB image of `width` x
/// `height` with the Mean algorithm, DCT preprocessing and a hash of
/// `hash_width` x `hash_height` bits.
pub uninterp spec fn dct_mean_hash(
    pixels: Seq<u8>,
    width: u32,
    height: u32,
    hash_width: u32,
    hash_height: u32,
) -> Seq<u8>;

/// Calls `DynamicImage::resize_exact` of the image crate with
/// `FilterType::Lanczos3` on the RGB image (built by `ImageBuffer::from_raw`,
/// taken apart by `into_rgb8` and `into_raw`). The result has three bytes per
/// pixel of the new size.
#[verifier::external_body]
fn resize_rgb(pixels: &Vec<u8>, width: u32, height: u32, new_width: u32, new_height: u32) -> (r: Vec<u8>)
    requires
        pixels@.len() == 3 * width * height,
        resize_fits(width as int, height as int, new_width as int, new_height as int),
    ensures
        r@ == lanczos_resize(pixels@, width, height, new_width, new_height),
        r@.len() == 3 * new_width * new_height,
{
    let buffer = image::RgbImage::from_raw(width, height, pixels.clone()).unwrap();
    image::DynamicImage::ImageRgb8(buffer).resize_exact(
        new_width,
        new_height,
        image::imageops::FilterType::Lanczos3,
    ).into_rgb8().into_raw()
}

/// Calls `DynamicImage::to_luma8` of the image crate on the RGB image (built
/// by `ImageBuffer::from_raw`, taken apart by `into_raw`). The result has one
/// byte per pixel.
#[verifier::external_body]
fn rgb_to_luma(pixels: &Vec<u8>, width: u32, height: u32) -> (r: Vec<u8>)
    requires
        pixels@.len() == 3 * width * height,
    ensures
        r@ == luma_levels(pixels@, width, height),
        r@.len() == width * height,
{
    let buffer = image::RgbImage::from_raw(width, height, pixels.clone()).unwrap();
    image::DynamicImage::ImageRgb8(buffer).to_luma8().into_raw()
}

/// The gray thumbnail of an image: Lanczos3 resampling to `new_width` x
/// `new_height`, then luma.
fn resize_to_gray(pixels: &Vec<u8>, width: u32, height: u32, new_width: u32, new_height: u32) -> (r: Vec<u8>)
    requires
        pixels@.len() == 3 * width * height,
        resize_fits(width as int, height as int, new_width as int, new_height as int),
    ensures
        r@ == lanczos_gray(pixels@, width, height, new_width, new_height),
        r@.len() == new_width * new_height,
{
    let resized = resize_rgb(pixels, width, height, new_width, new_height);
    rgb_to_luma(&resized, new_width, new_height)
}

/// Calls img_hash: `HasherConfig::new().hash_size(hash_width, hash_height)
/// .hash_alg(HashAlg::Mean).preproc_dct().to_hasher().hash_image(..)` on the
/// RGB image (built with img_hash's own image crate), and returns
/// `ImageHash::as_bytes`: the `hash_width * hash_height` bits of the hash,
/// packed eight to a byte. img_hash panics where twice a side of the hash
/// does not fit in a `u32` (its DCT plan truncates that width) and on an
/// image with a side of 0 (its resampler divides 0 by 0 and unwraps the
/// failed conversion); `requires` leaves both out.
#[verifier::external_body]
fn img_hash_dct_mean(pixels: &Vec<u8>, width: u32, height: u32, hash_width: u32, hash_height: u32) -> (r: Vec<u8>)
    requires
        pixels@.len() == 3 * width * height,
        width > 0,
        height > 0,
        hash_width > 0,
        hash_height > 0,
        hash_width * hash_height <= u32::MAX,
        2 * hash_width <= u32::MAX,
        2 * hash_height <= u32::MAX,
        resize_fits(width as int, height as int, 2 * hash_width, 2 * hash_height),
    ensures
        r@ == dct_mean_hash(pixels@, width, height, hash_width, hash_height),
        r@.len() == (hash_width * hash_height + 7) / 8,
{
    let buffer = img_hash::image::RgbImage::from_raw(width, height, pixels.clone()).unwrap();
    let image = img_hash::image::DynamicImage::ImageRgb8(buffer);
    let hasher = img_hash::HasherConfig::new().hash_size(hash_width, hash_height).hash_alg(
        img_hash::HashAlg::Mean,
    ).preproc_dct().to_hasher();
    hasher.hash_image(&image).as_bytes().to_vec()
}

/// Calls `ImageHash::dist` of img_hash on the hashes `ImageHash::from_bytes`
/// makes of the two byte strings. img_hash documents it as counting the
/// 1-bits of the XOR of the two hashes; it goes byte by byte over the shorter
/// of the two.
#[verifier::external_body]
fn img_hash_dist(a: &Vec<u8>, b: &Vec<u8>) -> (r: u32)
    requires
        8 * a@.len() <= u32::MAX,
        8 * b@.len() <= u32::MAX,
    ensures
        r == hash_distance(a@.take(shorter(a@.len(), b@.len())), b@.take(shorter(a@.len(), b@.len()))),
{
    let ha = img_hash::ImageHash::<Box<[u8]>>::from_bytes(a.as_slice()).unwrap();
    let hb = img_hash::ImageHash::<Box<[u8]>>::from_bytes(b.as_slice()).unwrap();
    ha.dist(&hb)
}

/// The smaller of two lengths.
pub open spec fn shorter(a: nat, b: nat) -> int {
    if a < b {
        a as int
    } else {
        b as int
    }
}

/// Milliseconds since `start`, truncated to 64 bits.
fn elapsed_ms(start: &std::time::Instant) -> u64 {
    let d = clock_elapsed(start);
    let ms = duration_millis(&d);
    ms as u64
}

/// Sum of a sequence of bytes.
pub open spec fn byte_sum(s: Seq<u8>) -> nat
    decreases s.len(),
{
    if s.len() == 0 {
        0
    } else {
        byte_sum(s.drop_last()) + s.last() as nat
    }
}

/// Integer mean of a non-empty sequence of gray levels.
pub open spec fn mean_level(gray: Seq<u8>) -> nat {
    byte_sum(gray) / gray.len()
}

/// Bits of the average hash of a gray image: one per pixel, set where the
/// pixel is brighter than the integer mean.
pub open spec fn average_bits(gray: Seq<u8>) -> Seq<bool> {
    Seq::new(gray.len(), |i: int| gray[i] > mean_level(gray))
}

/// Bits of the difference hash of a gray image `size + 1` pixels wide and
/// `size` high: for each pixel of the first `size` columns, row by row,
/// whether it is brighter than its right neighbour.
pub open spec fn difference_bits(gray: Seq<u8>, size: nat) -> Seq<bool> {
    Seq::new(
        size * size,
        |i: int|
            gray[(i / size as int) * (size + 1) + i % size as int] > gray[(i / size as int) * (size
                + 1) + i % size as int + 1],
    )
}

proof fn lemma_byte_sum_bound(s: Seq<u8>)
    ensures
        byte_sum(s) <= 255 * s.len(),
    decreases s.len(),
{
    if s.len() > 0 {
        lemma_byte_sum_bound(s.drop_last());
    }
}

/// The sum of two sequences of bytes laid end to end is the sum of their
/// sums, and a single byte sums to itself: `byte_sum` adds every element.
pub proof fn lemma_byte_sum_concat(a: Seq<u8>, b: Seq<u8>, x: u8)
    ensures
        byte_sum(a + b) == byte_sum(a) + byte_sum(b),
        byte_sum(seq![x]) == x as nat,
        byte_sum(Seq::<u8>::empty()) == 0,
    decreases b.len(),
{
    assert(seq![x].drop_last() =~= Seq::<u8>::empty());
    if b.len() > 0 {
        lemma_byte_sum_concat(a, b.drop_last(), x);
        assert((a + b).drop_last() =~= a + b.drop_last());
        assert((a + b).last() == b.last());
        assert(byte_sum(a + b) == byte_sum(a + b.drop_last()) + b.last() as nat);
    } else {
        assert(a + b =~= a);
        assert(byte_sum(b) == 0);
    }
    assert(byte_sum(seq![x]) == byte_sum(Seq::<u8>::empty()) + x as nat);
}

/// The average hash thresholds at the mean of all pixels: the threshold
/// times the pixel count lies within one pixel count below the total of all
/// pixels, and a pixel's bit is set exactly where the pixel times the pixel
/// count exceeds that total.
pub proof fn lemma_average_threshold(gray: Seq<u8>, t: int)
    requires
        gray.len() > 0,
        0 <= t < gray.len(),
    ensures
        mean_level(gray) * gray.len() <= byte_sum(gray),
        byte_sum(gray) < (mean_level(gray) + 1) * gray.len(),
        average_bits(gray)[t] <==> gray[t] as nat * gray.len() > byte_sum(gray),
{
    let n: int = gray.len() as int;
    let total: int = byte_sum(gray) as int;
    let m: int = mean_level(gray) as int;
    let g: int = gray[t] as int;
    lemma_fundamental_div_mod(total, n);
    lemma_mod_bound(total, n);
    assert(m == total / n);
    assert(m * n <= total < (m + 1) * n) by (nonlinear_arith)
        requires
            total == n * (total / n) + total % n,
            0 <= total % n < n,
            m == total / n,
    ;
    if g > m {
        assert(g * n >= (m + 1) * n) by (nonlinear_arith)
            requires
                g >= m + 1,
                n > 0,
        ;
    } else {
        assert(g * n <= m * n) by (nonlinear_arith)
            requires
                g <= m,
                n > 0,
        ;
    }
}

/// Average hash of a `size` x `size` gray image: one bit per pixel, set where
/// the pixel is brighter than the mean, packed eight to a byte.
pub fn average_hash_from_gray(gray: &Vec<u8>, size: u32) -> (r: Vec<u8>)
    requires
        size > 0,
        gray@.len() == size * size,
        255 * size * size <= u32::MAX,
    ensures
        packs(r@, average_bits(gray@)),
{
    let mut total: u32 = 0;
    let mut i: usize = 0;
    while i < gray.len()
        invariant
            i <= gray@.len(),
            gray@.len() == size * size,
            255 * size * size <= u32::MAX,
            total == byte_sum(gray@.take(i as int)),
        decreases gray@.len() - i,
    {
        proof {
            assert(gray@.take(i + 1).drop_last() == gray@.take(i as int));
            lemma_byte_sum_bound(gray@.take(i + 1));
            let ii: int = i + 1;
            let nn: int = (size * size) as int;
            assert(255 * ii <= 255 * nn) by (nonlinear_arith)
                requires
                    ii <= nn,
            ;
            assert(255 * nn == 255 * size * size) by (nonlinear_arith)
                requires nn == size * size;
        }
        total = total + gray[i] as u32;
        i = i + 1;
    }
    assert(gray@.take(gray@.len() as int) == gray@);
    assert(0 < size * size <= u32::MAX) by (nonlinear_arith)
        requires
            size > 0,
            255 * size * size <= u32::MAX,
    ;
    let average: u32 = total / (size * size);
    let mut bits: Vec<bool> = Vec::new();
    let mut k: usize = 0;
    while k < gray.len()
        invariant
            k <= gray@.len(),
            gray@.len() == size * size,
            average == mean_level(gray@),
            bits@.len() == k,
            forall|j: int| 0 <= j < k ==> #[trigger] bits@[j] == average_bits(gray@)[j],
        decreases gray@.len() - k,
    {
        bits.push(gray[k] as u32 > average);
        k = k + 1;
    }
    assert(bits@ == average_bits(gray@));
    pack_bits(&bits)
}

proof fn lemma_grid_index(size: nat, y: nat, x: nat)
    requires
        x < size,
        y < size,
    ensures
        ((y * size + x) as int) / (size as int) == y,
        ((y * size + x) as int) % (size as int) == x,
        y * size + x < size * size,
        y * (size + 1) + x + 1 < (size + 1) * size,
{
    lemma_fundamental_div_mod_converse((y * size + x) as int, size as int, y as int, x as int);
    assert(y * size + x < size * size) by (nonlinear_arith)
        requires
            x < size,
            y < size,
    ;
    assert(y * (size + 1) + x + 1 < (size + 1) * size) by (nonlinear_arith)
        requires
            x < size,
            y < size,
    ;
}

/// Difference hash of a gray image `size + 1` pixels wide and `size` high:
/// for each pixel of the first `size` columns, row by row, one bit set where
/// it is brighter than its right neighbour, packed eight to a byte.
pub fn difference_hash_from_gray(gray: &Vec<u8>, size: u32) -> (r: Vec<u8>)
    requires
        size > 0,
        gray@.len() == (size + 1) * size,
    ensures
        packs(r@, difference_bits(gray@, size as nat)),
{
    let n: usize = size as usize;
    let gray_len: usize = gray.len();
    let mut bits: Vec<bool> = Vec::new();
    let mut y: usize = 0;
    while y < n
        invariant
            n == size,
            size > 0,
            y <= n,
            gray@.len() == (size + 1) * size,
            gray@.len() == gray_len,
            bits@.len() == y * n,
            forall|j: int| 0 <= j < bits@.len() ==> #[trigger] bits@[j] == difference_bits(gray@, size as nat)[j],
        decreases n - y,
    {
        let mut x: usize = 0;
        while x < n
            invariant
                n == size,
                size > 0,
                y < n,
                x <= n,
                gray@.len() == (size + 1) * size,
                gray@.len() == gray_len,
                bits@.len() == y * n + x,
                forall|j: int| 0 <= j < bits@.len() ==> #[trigger] bits@[j] == difference_bits(gray@, size as nat)[j],
            decreases n - x,
        {
            proof {
                lemma_grid_index(n as nat, y as nat, x as nat);
                assert(y * (n + 1) <= y * (n + 1) + x + 1);
                assert((n + 1) * n == gray@.len());
                let nn: int = n as int;
                assert(nn + 1 <= (nn + 1) * nn) by (nonlinear_arith)
                    requires
                        nn >= 1,
                ;
            }
            let row: usize = y * (n + 1);
            let left = gray[row + x];
            let right = gray[row + x + 1];
            bits.push(left > right);
            x = x + 1;
        }
        proof {
            assert(y * n + n == (y + 1) * n) by (nonlinear_arith);
        }
        y = y + 1;
    }
    assert(bits@ == difference_bits(gray@, size as nat));
    pack_bits(&bits)
}

/// Why two hash results cannot be compared.
#[derive(Debug, Clone, Copy, PartialEq, Eq, Structural)]
pub enum HashComparisonError {
    /// The hashes were made by different algorithms (or sizes).
    DifferentAlgorithms,
    /// The hashes have different byte lengths.
    DifferentSizes,
}

impl HashComparisonError {
    pub fn message(&self) -> (r: &'static str)
        ensures
            r@ == match self {
                HashComparisonError::DifferentAlgorithms => "Cannot compare hashes from different algorithms"@,
                HashComparisonError::DifferentSizes => "Cannot compare hashes of different sizes"@,
            },
    {
        match self {
            HashComparisonError::DifferentAlgorithms => "Cannot compare hashes from different algorithms",
            HashComparisonError::DifferentSizes => "Cannot compare hashes of different sizes",
        }
    }
}

/// What comparing two hash results gives: an error when the algorithms or
/// the lengths differ, else the Hamming distance of the hash bytes.
pub open spec fn comparison(h1: HashResult, h2: HashResult) -> Result<nat, HashComparisonError> {
    if h1.algorithm != h2.algorithm {
        Err(HashComparisonError::DifferentAlgorithms)
    } else if h1.hash_data@.len() != h2.hash_data@.len() {
        Err(HashComparisonError::DifferentSizes)
    } else {
        Ok(hash_distance(h1.hash_data@, h2.hash_data@))
    }
}

/// Hamming distance between two hash results of one algorithm and length.
pub fn calculate_hash_distance(hash1: &HashResult, hash2: &HashResult) -> (r: Result<
    u32,
    HashComparisonError,
>)
    requires
        8 * hash1.hash_data@.len() <= u32::MAX,
    ensures
        match r {
            Ok(d) => comparison(*hash1, *hash2) == Ok::<nat, HashComparisonError>(d as nat),
            Err(e) => comparison(*hash1, *hash2) == Err::<nat, HashComparisonError>(e),
        },
{
    if hash1.algorithm != hash2.algorithm {
        return Err(HashComparisonError::DifferentAlgorithms);
    }
    if hash1.hash_data.len() != hash2.hash_data.len() {
        return Err(HashComparisonError::DifferentSizes);
    }
    Ok(bytes_distance(&hash1.hash_data, &hash2.hash_data))
}

/// Whether two hash results are within `threshold` of each other.
pub fn hashes_similar(hash1: &HashResult, hash2: &HashResult, threshold: u32) -> (r: Result<
    bool,
    HashComparisonError,
>)
    requires
        8 * hash1.hash_data@.len() <= u32::MAX,
    ensures
        match r {
            Ok(b) => comparison(*hash1, *hash2) is Ok && b == (comparison(*hash1, *hash2)->Ok_0
                <= threshold),
            Err(e) => comparison(*hash1, *hash2) == Err::<nat, HashComparisonError>(e),
        },
{
    match calculate_hash_distance(hash1, hash2) {
        Ok(d) => Ok(d <= threshold),
        Err(e) => Err(e),
    }
}

/// Hashes an image with img_hash's DCT-preprocessed mean hash of
/// `size` x `size` bits.
pub fn dct_hash(image: &ImageData, size: u32) -> (r: HashResult)
    requires
        image.wf(),
        image.width > 0,
        image.height > 0,
        size > 0,
        size * size <= u32::MAX,
        resize_fits(image.width as int, image.height as int, 2 * size, 2 * size),
    ensures
        r.hash_data@ == dct_mean_hash(image.pixels@, image.width, image.height, size, size),
        r.hash_data@.len() == (size * size + 7) / 8,
        r.hash_size_bits == size * size,
        r.algorithm == (HashAlgorithm::DCT { size }),
        r.source_dimensions == (image.width, image.height),
{
    assert(2 * size <= u32::MAX) by (nonlinear_arith)
        requires
            size > 0,
            size * size <= u32::MAX,
    ;
    let start = clock_now();
    let hash_data = img_hash_dct_mean(&image.pixels, image.width, image.height, size, size);
    let computation_time_ms = elapsed_ms(&start);
    HashResult {
        hash_data,
        hash_size_bits: size * size,
        algorithm: HashAlgorithm::DCT { size },
        computation_time_ms,
        source_dimensions: (image.width, image.height),
    }
}

/// Perceptual hash from the mean brightness of a `size` x `size` thumbnail.
pub struct AverageHasher {
    algorithm: HashAlgorithm,
    hash_size: u32,
}

impl View for AverageHasher {
    type V = u32;

    /// The hash size.
    closed spec fn view(&self) -> u32 {
        self.hash_size
    }
}

impl AverageHasher {
    #[verifier::type_invariant]
    spec fn inv(self) -> bool {
        self.algorithm == (HashAlgorithm::Average { size: self.hash_size })
    }

    pub fn new(size: u32) -> (r: Self)
        ensures
            r@ == size,
    {
        AverageHasher { algorithm: HashAlgorithm::Average { size }, hash_size: size }
    }

    pub fn get_size(&self) -> (r: u32)
        ensures
            r == self@,
    {
        self.hash_size
    }

    pub fn algorithm(&self) -> (r: &HashAlgorithm)
        ensures
            *r == (HashAlgorithm::Average { size: self@ }),
    {
        proof {
            use_type_invariant(self);
        }
        &self.algorithm
    }

    pub fn algorithm_name(&self) -> (r: &'static str)
        ensures
            r@ == "Average Hash"@,
    {
        "Average Hash"
    }

    pub fn recommended_threshold(&self) -> (r: u32)
        ensures
            r == self@ / 8,
    {
        self.algorithm().recommended_threshold()
    }

    pub fn computational_complexity(&self) -> (r: u8)
        ensures
            r == 2,
    {
        self.algorithm().computational_complexity()
    }

    pub fn calculate_distance(&self, hash1: &HashResult, hash2: &HashResult) -> (r: Result<
        u32,
        HashComparisonError,
    >)
        requires
            8 * hash1.hash_data@.len() <= u32::MAX,
        ensures
            match r {
                Ok(d) => comparison(*hash1, *hash2) == Ok::<nat, HashComparisonError>(d as nat),
                Err(e) => comparison(*hash1, *hash2) == Err::<nat, HashComparisonError>(e),
            },
    {
        calculate_hash_distance(hash1, hash2)
    }

    pub fn are_similar(&self, hash1: &HashResult, hash2: &HashResult, threshold: u32) -> (r: Result<
        bool,
        HashComparisonError,
    >)
        requires
            8 * hash1.hash_data@.len() <= u32::MAX,
        ensures
            match r {
                Ok(b) => comparison(*hash1, *hash2) is Ok && b == (comparison(*hash1, *hash2)->Ok_0
                    <= threshold),
                Err(e) => comparison(*hash1, *hash2) == Err::<nat, HashComparisonError>(e),
            },
    {
        hashes_similar(hash1, hash2, threshold)
    }

    /// Hashes an image: Lanczos3 thumbnail of `size` x `size` in gray, one bit
    /// per pixel brighter than the mean.
    pub fn generate_hash(&self, image: &ImageData) -> (r: HashResult)
        requires
            image.wf(),
            self@ > 0,
            255 * self@ * self@ <= u32::MAX,
            resize_fits(image.width as int, image.height as int, self@ as int, self@ as int),
        ensures
            packs(
                r.hash_data@,
                average_bits(lanczos_gray(image.pixels@, image.width, image.height, self@, self@)),
            ),
            r.hash_size_bits == self@ * self@,
            r.algorithm == (HashAlgorithm::Average { size: self@ }),
            r.source_dimensions == (image.width, image.height),
    {
        proof {
            use_type_invariant(self);
        }
        let start = clock_now();
        let size = self.hash_size;
        let gray = resize_to_gray(&image.pixels, image.width, image.height, size, size);
        let hash_data = average_hash_from_gray(&gray, size);
        let computation_time_ms = elapsed_ms(&start);
        proof {
            assert(size * size <= u32::MAX) by (nonlinear_arith)
                requires
                    255 * size * size <= u32::MAX,
            ;
        }
        HashResult {
            hash_data,
            hash_size_bits: size * size,
            algorithm: self.algorithm,
            computation_time_ms,
            source_dimensions: (image.width, image.height),
        }
    }
}

/// Perceptual hash from brightness differences of neighbouring pixels in a
/// `(size + 1)` x `size` thumbnail.
pub struct DifferenceHasher {
    algorithm: HashAlgorithm,
    hash_size: u32,
}

impl View for DifferenceHasher {
    type V = u32;

    /// The hash size.
    closed spec fn view(&self) -> u32 {
        self.hash_size
    }
}

impl DifferenceHasher {
    #[verifier::type_invariant]
    spec fn inv(self) -> bool {
        self.algorithm == (HashAlgorithm::Difference { size: self.hash_size })
    }

    pub fn new(size: u32) -> (r: Self)
        ensures
            r@ == size,
    {
        DifferenceHasher { algorithm: HashAlgorithm::Difference { size }, hash_size: size }
    }

    pub fn get_size(&self) -> (r: u32)
        ensures
            r == self@,
    {
        self.hash_size
    }

    pub fn algorithm(&self) -> (r: &HashAlgorithm)
        ensures
            *r == (HashAlgorithm::Difference { size: self@ }),
    {
        proof {
            use_type_invariant(self);
        }
        &self.algorithm
    }

    pub fn algorithm_name(&self) -> (r: &'static str)
        ensures
            r@ == "Difference Hash"@,
    {
        "Difference Hash"
    }

    pub fn recommended_threshold(&self) -> (r: u32)
        ensures
            r == self@ / 6,
    {
        self.algorithm().recommended_threshold()
    }

    pub fn computational_complexity(&self) -> (r: u8)
        ensures
            r == 3,
    {
        self.algorithm().computational_complexity()
    }

    pub fn calculate_distance(&self, hash1: &HashResult, hash2: &HashResult) -> (r: Result<
        u32,
        HashComparisonError,
    >)
        requires
            8 * hash1.hash_data@.len() <= u32::MAX,
        ensures
            match r {
                Ok(d) => comparison(*hash1, *hash2) == Ok::<nat, HashComparisonError>(d as nat),
                Err(e) => comparison(*hash1, *hash2) == Err::<nat, HashComparisonError>(e),
            },
    {
        calculate_hash_distance(hash1, hash2)
    }

    pub fn are_similar(&self, hash1: &HashResult, hash2: &HashResult, threshold: u32) -> (r: Result<
        bool,
        HashComparisonError,
    >)
        requires
            8 * hash1.hash_data@.len() <= u32::MAX,
        ensures
            match r {
                Ok(b) => comparison(*hash1, *hash2) is Ok && b == (comparison(*hash1, *hash2)->Ok_0
                    <= threshold),
                Err(e) => comparison(*hash1, *hash2) == Err::<nat, HashComparisonError>(e),
            },
    {
        hashes_similar(hash1, hash2, threshold)
    }

    /// Hashes an image: Lanczos3 thumbnail of `(size + 1)` x `size` in gray,
    /// one bit per pixel brighter than its right neighbour.
    pub fn generate_hash(&self, image: &ImageData) -> (r: HashResult)
        requires
            image.wf(),
            self@ > 0,
            (self@ + 1) * self@ <= u32::MAX,
            resize_fits(image.width as int, image.height as int, self@ + 1, self@ as int),
        ensures
            packs(
                r.hash_data@,
                difference_bits(
                    lanczos_gray(image.pixels@, image.width, image.height, (self@ + 1) as u32, self@),
                    self@ as nat,
                ),
            ),
            r.hash_size_bits == self@ * self@,
            r.algorithm == (HashAlgorithm::Difference { size: self@ }),
            r.source_dimensions == (image.width, image.height),
    {
        proof {
            use_type_invariant(self);
        }
        let start = clock_now();
        let size = self.hash_size;
        proof {
            assert(size + 1 <= (size + 1) * size) by (nonlinear_arith)
                requires
                    size > 0,
            ;
        }
        let gray = resize_to_gray(&image.pixels, image.width, image.height, size + 1, size);
        let hash_data = difference_hash_from_gray(&gray, size);
        let computation_time_ms = elapsed_ms(&start);
        proof {
            assert(size * size <= (size + 1) * size) by (nonlinear_arith);
        }
        HashResult {
            hash_data,
            hash_size_bits: size * size,
            algorithm: self.algorithm,
            computation_time_ms,
            source_dimensions: (image.width, image.height),
        }
    }
}

/// Settings of the average hash.
#[derive(Debug, Clone, Copy)]
pub struct AverageConfig {
    /// Hash size (typically 8, 16 or 32).
    pub size: u32,
}

/// Why a hash configuration was refused.
#[derive(Debug, Clone, Copy, PartialEq, Eq, Structural)]
pub enum HashConfigError {
    /// The size is zero.
    ZeroSize,
    /// The size is above 64.
    SizeTooLarge,
}

impl HashConfigError {
    pub fn message(&self) -> (r: &'static str)
        ensures
            r@ == match self {
                HashConfigError::ZeroSize => "Size must be greater than 0"@,
                HashConfigError::SizeTooLarge => "Size must be 64 or less for performance reasons"@,
            },
    {
        match self {
            HashConfigError::ZeroSize => "Size must be greater than 0",
            HashConfigError::SizeTooLarge => "Size must be 64 or less for performance reasons",
        }
    }
}

/// Checks a hash size: it must lie between 1 and 64.
pub fn validate_hash_size(size: u32) -> (r: Result<(), HashConfigError>)
    ensures
        size == 0 <==> r == Err::<(), HashConfigError>(HashConfigError::ZeroSize),
        size > 64 <==> r == Err::<(), HashConfigError>(HashConfigError::SizeTooLarge),
        1 <= size <= 64 <==> r is Ok,
{
    if size == 0 {
        return Err(HashConfigError::ZeroSize);
    }
    if size > 64 {
        return Err(HashConfigError::SizeTooLarge);
    }
    Ok(())
}

impl AverageConfig {
    /// The default settings: size 8.
    pub fn default_config() -> (r: Self)
        ensures
            r.size == 8,
    {
        AverageConfig { size: 8 }
    }

    pub fn algorithm_name(&self) -> (r: &'static str)
        ensures
            r@ == "average"@,
    {
        "average"
    }

    pub fn description(&self) -> (r: &'static str)
        ensures
            r@ == "Average Hash - Fast algorithm based on average pixel brightness. Good for basic duplicate detection."@,
    {
        "Average Hash - Fast algorithm based on average pixel brightness. Good for basic duplicate detection."
    }

    /// Accepts sizes from 1 to 64.
    pub fn validate(&self) -> (r: Result<(), HashConfigError>)
        ensures
            self.size == 0 <==> r == Err::<(), HashConfigError>(HashConfigError::ZeroSize),
            self.size > 64 <==> r == Err::<(), HashConfigError>(HashConfigError::SizeTooLarge),
            1 <= self.size <= 64 <==> r is Ok,
    {
        validate_hash_size(self.size)
    }

    pub fn create_hasher(&self) -> (r: AverageHasher)
        ensures
            r@ == self.size,
    {
        AverageHasher::new(self.size)
    }
}

impl Default for AverageConfig {
    fn default() -> (r: Self)
        ensures
            r.size == 8,
    {
        AverageConfig::default_config()
    }
}

/// The number whose big-endian bytes are `data` (empty data gives 0).
pub open spec fn big_endian_value(data: Seq<u8>) -> nat
    decreases data.len(),
{
    if data.len() == 0 {
        0
    } else {
        big_endian_value(data.drop_last()) * 256 + data.last() as nat
    }
}

proof fn lemma_big_endian_bound(data: Seq<u8>)
    ensures
        big_endian_value(data) < vstd::arithmetic::power2::pow2(8 * data.len()),
    decreases data.len(),
{
    vstd::arithmetic::power2::lemma2_to64();
    if data.len() > 0 {
        lemma_big_endian_bound(data.drop_last());
        let n = (8 * (data.len() - 1)) as nat;
        vstd::arithmetic::power2::lemma_pow2_adds(n, 8);
        assert(n + 8 == 8 * data.len());
        let v = big_endian_value(data.drop_last());
        let p = vstd::arithmetic::power2::pow2(n);
        let last = data.last() as int;
        assert(v * 256 + last < p * 256) by (nonlinear_arith)
            requires
                v < p,
                0 <= last < 256,
        ;
    }
}

/// The first (up to) eight bytes of a hash as one number, most significant
/// byte first: the 64-bit form of a hash kept beside its text.
pub fn leading_hash_bits(data: &Vec<u8>) -> (r: u64)
    ensures
        r == big_endian_value(data@.take(if data@.len() < 8 { data@.len() as int } else { 8 })),
{
    let n: usize = if data.len() < 8 {
        data.len()
    } else {
        8
    };
    let mut value: u64 = 0;
    let mut i: usize = 0;
    while i < n
        invariant
            n <= 8,
            n <= data@.len(),
            i <= n,
            value == big_endian_value(data@.take(i as int)),
        decreases n - i,
    {
        proof {
            assert(data@.take(i + 1).drop_last() == data@.take(i as int));
            lemma_big_endian_bound(data@.take(i as int));
            vstd::arithmetic::power2::lemma2_to64();
            vstd::arithmetic::power2::lemma2_to64_rest();
            if 8 * i < 56 {
                vstd::arithmetic::power2::lemma_pow2_strictly_increases((8 * i) as nat, 56);
            }
            assert(value * 256 + 255 <= u64::MAX) by (nonlinear_arith)
                requires
                    value < 0x100000000000000,
            ;
        }
        value = value * 256 + data[i] as u64;
        i = i + 1;
    }
    value
}

/// The perceptual hasher of img_hash: mean hash with DCT preprocessing, of a
/// configurable hash size.
pub struct PerceptualHasher {
    width: u32,
    height: u32,
}

impl View for PerceptualHasher {
    type V = (u32, u32);

    /// The hash width and height, in bits.
    closed spec fn view(&self) -> (u32, u32) {
        (self.width, self.height)
    }
}

impl PerceptualHasher {
    /// A hasher of 8 x 8 bits.
    pub fn new() -> (r: Self)
        ensures
            r@ == (8u32, 8u32),
    {
        PerceptualHasher { width: 8, height: 8 }
    }

    pub fn new_with_size(width: u32, height: u32) -> (r: Self)
        ensures
            r@ == (width, height),
    {
        PerceptualHasher { width, height }
    }

    /// The hash bytes of an image.
    pub fn generate_hash(&self, image: &ImageData) -> (r: Vec<u8>)
        requires
            image.wf(),
            image.width > 0,
            image.height > 0,
            self@.0 > 0,
            self@.1 > 0,
            self@.0 * self@.1 <= u32::MAX,
            2 * self@.0 <= u32::MAX,
            2 * self@.1 <= u32::MAX,
            resize_fits(image.width as int, image.height as int, 2 * self@.0, 2 * self@.1),
        ensures
            r@ == dct_mean_hash(image.pixels@, image.width, image.height, self@.0, self@.1),
            r@.len() == (self@.0 * self@.1 + 7) / 8,
    {
        img_hash_dct_mean(&image.pixels, image.width, image.height, self.width, self.height)
    }

    /// Hamming distance between two hashes, over the length of the shorter.
    pub fn calculate_distance(hash1: &Vec<u8>, hash2: &Vec<u8>) -> (r: u32)
        requires
            8 * hash1@.len() <= u32::MAX,
            8 * hash2@.len() <= u32::MAX,
        ensures
            r == hash_distance(
                hash1@.take(shorter(hash1@.len(), hash2@.len())),
                hash2@.take(shorter(hash1@.len(), hash2@.len())),
            ),
    {
        img_hash_dist(hash1, hash2)
    }

    /// Whether two hashes are within `threshold` of each other.
    pub fn are_similar(hash1: &Vec<u8>, hash2: &Vec<u8>, threshold: u32) -> (r: bool)
        requires
            8 * hash1@.len() <= u32::MAX,
            8 * hash2@.len() <= u32::MAX,
        ensures
            r == (hash_distance(
                hash1@.take(shorter(hash1@.len(), hash2@.len())),
                hash2@.take(shorter(hash1@.len(), hash2@.len())),
            ) <= threshold),
    {
        PerceptualHasher::calculate_distance(hash1, hash2) <= threshold
    }
}

impl Default for PerceptualHasher {
    fn default() -> (r: Self)
        ensures
            r@ == (8u32, 8u32),
    {
        PerceptualHasher::new()
    }
}

} // verus!
