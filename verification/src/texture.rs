//! Decoding of the TGA textures of a model into RGBA8 pixels.
//!
//! The TGA decoder of the `image` crate panics on some files, so a file is
//! first checked from its bytes, by following the decoder's reading of the
//! header, of the colour map and of the (possibly run-length encoded) pixel
//! data. The check refuses a file where that reading would panic: a
//! colour-mapped image whose colour map was not read, a colour-map index
//! past the map, colour data that the red/blue swap cannot split into groups
//! of at least three bytes, a zero height with a bottom-left origin, and a
//! buffer too large to allocate. It also refuses a file where that reading
//! stops with an error, which gives no image either. Every other file goes
//! to the decoder.

use vstd::prelude::*;

verus! {

/// An RGBA8 image: `width` x `height` pixels, four bytes each, row by row.
pub struct RgbaImage {
    pub width: u32,
    pub height: u32,
    pub pixels: Vec<u8>,
}

/// Length of the fixed TGA header.
pub const TGA_HEADER_LEN: usize = 18;

/// The little-endian 16-bit value at index `i` of `bytes`.
pub open spec fn le16(bytes: Seq<u8>, i: int) -> nat {
    bytes[i] as nat + 256 * (bytes[i + 1] as nat)
}

/// Bytes of a pixel or of a colour-map entry of `bits` bits.
pub open spec fn bytes_for_bits(bits: u8) -> nat {
    ((bits as nat) + 7) / 8
}

pub open spec fn tga_width(b: Seq<u8>) -> nat {
    le16(b, 12)
}

pub open spec fn tga_height(b: Seq<u8>) -> nat {
    le16(b, 14)
}

/// Bytes per pixel, from the pixel depth.
pub open spec fn tga_bpp(b: Seq<u8>) -> nat {
    bytes_for_bits(b[16])
}

/// Bytes per colour-map entry, from the entry size.
pub open spec fn tga_entry_bytes(b: Seq<u8>) -> nat {
    bytes_for_bits(b[7])
}

/// Bytes of the colour map, which is read when the map type is 1.
pub open spec fn tga_map_bytes(b: Seq<u8>) -> nat {
    if b[1] == 1 {
        tga_entry_bytes(b) * le16(b, 5)
    } else {
        0
    }
}

/// Where the pixel data starts: after the header, the image id and the
/// colour map that is read.
pub open spec fn tga_data_start(b: Seq<u8>) -> nat {
    (TGA_HEADER_LEN as nat) + (b[0] as nat) + tga_map_bytes(b)
}

/// Image types 1, 2, 9 and 10 hold colour; the others grey.
pub open spec fn is_color_type(t: u8) -> bool {
    t == 1 || t == 2 || t == 9 || t == 10
}

/// Image types 1 and 9 index a colour map.
pub open spec fn is_color_mapped_type(t: u8) -> bool {
    t == 1 || t == 9
}

/// Image types 9, 10 and 11 are run-length encoded.
pub open spec fn is_encoded_type(t: u8) -> bool {
    t == 9 || t == 10 || t == 11
}

/// Bits of alpha per pixel, from the descriptor.
pub open spec fn tga_alpha_bits(b: Seq<u8>) -> int {
    (b[17] & 15) as int
}

/// Bits of the other channels: the colour-map entry size when there is a
/// map type, else the pixel depth less the alpha bits.
pub open spec fn tga_color_bits(b: Seq<u8>) -> int {
    if b[1] != 0 {
        b[7] as int
    } else {
        b[16] - tga_alpha_bits(b)
    }
}

/// The channel layouts that are decoded: RGBA, RGB, grey with alpha, grey.
pub open spec fn supported_channels(alpha: int, other: int, color: bool) -> bool {
    ||| alpha == 0 && other == 32 && color
    ||| alpha == 8 && other == 24 && color
    ||| alpha == 0 && other == 24 && color
    ||| alpha == 8 && other == 8 && !color
    ||| alpha == 0 && other == 8 && !color
}

/// The header, image id and colour map are read without error.
pub open spec fn tga_metadata_ok(b: Seq<u8>) -> bool {
    &&& b.len() >= TGA_HEADER_LEN
    &&& tga_map_bytes(b) > 0 ==> tga_data_start(b) <= b.len()
    &&& b[16] % 8 == 0
    &&& b[16] <= 32
    &&& b[1] == 0 ==> tga_alpha_bits(b) <= b[16]
    &&& supported_channels(tga_alpha_bits(b), tga_color_bits(b), is_color_type(b[2]))
}

/// `d` repeated `r` times.
pub open spec fn repeated(d: Seq<u8>, r: nat) -> Seq<u8>
    decreases r,
{
    if r == 0 {
        Seq::empty()
    } else {
        repeated(d, (r - 1) as nat) + d
    }
}

/// The pixel data read from the run-length encoded `input`, appended to
/// `acc`, until at least `need` bytes are there: a packet with the high bit
/// set repeats the pixel that follows it (as far as the input holds it)
/// `(packet & 0x7f) + 1` times; another packet is followed by
/// `packet + 1` pixels (as far as the input holds them). `None` when the
/// input ends before a packet is read.
pub open spec fn rle_decode(input: Seq<u8>, acc: Seq<u8>, need: nat, bpp: nat) -> Option<Seq<u8>>
    decreases input.len(),
{
    if acc.len() >= need {
        Some(acc)
    } else if input.len() == 0 {
        None
    } else {
        let packet = input[0];
        let rest = input.skip(1);
        if packet & 0x80 != 0 {
            let k = if bpp <= rest.len() { bpp } else { rest.len() };
            rle_decode(
                rest.skip(k as int),
                acc + repeated(rest.take(k as int), ((packet & 0x7f) + 1) as nat),
                need,
                bpp,
            )
        } else {
            let n = ((packet as nat) + 1) * bpp;
            let k = if n <= rest.len() { n } else { rest.len() };
            rle_decode(rest.skip(k as int), acc + rest.take(k as int), need, bpp)
        }
    }
}

/// The pixel data as read from the file: `width * height * bpp` bytes from
/// the data start, run-length decoded for the encoded types; `None` when the
/// file ends too early.
pub open spec fn tga_pixel_data(b: Seq<u8>) -> Option<Seq<u8>> {
    let start = tga_data_start(b);
    let need = tga_width(b) * tga_height(b) * tga_bpp(b);
    if is_encoded_type(b[2]) {
        let input = if start <= b.len() { b.skip(start as int) } else { Seq::empty() };
        rle_decode(input, Seq::empty(), need, tga_bpp(b))
    } else if need == 0 {
        Some(Seq::empty())
    } else if start + need <= b.len() {
        Some(b.subrange(start as int, (start + need) as int))
    } else {
        None
    }
}

/// The big-endian value of the bytes `c`: a colour-map index.
pub open spec fn be_value(c: Seq<u8>) -> nat
    decreases c.len(),
{
    if c.len() == 0 {
        0
    } else {
        be_value(c.drop_last()) * 256 + (c.last() as nat)
    }
}

/// The length of the pixel data once each group of `bpp` bytes of `p` (the
/// last group possibly shorter) is replaced by its colour-map entry of
/// `entry` bytes, found at byte `origin + entry * index` of a map of
/// `map_len` bytes; `None` when an entry lies past the map or `bpp` is 0.
pub open spec fn map_expansion(p: Seq<u8>, bpp: nat, origin: nat, entry: nat, map_len: nat) -> Option<nat>
    decreases p.len(),
{
    if bpp == 0 {
        None
    } else if p.len() == 0 {
        Some(0)
    } else {
        let k = if bpp <= p.len() { bpp } else { p.len() };
        if origin + entry * be_value(p.take(k as int)) + entry <= map_len {
            match map_expansion(p.skip(k as int), bpp, origin, entry, map_len) {
                Some(l) => Some(l + entry),
                None => None,
            }
        } else {
            None
        }
    }
}

/// The red/blue swap over groups of `bpp` bytes of `len` bytes of colour
/// data finds three bytes in every group.
pub open spec fn swap_groups_ok(len: nat, bpp: nat) -> bool {
    &&& bpp >= 1
    &&& len == 0 || (bpp >= 3 && (len % bpp == 0 || len % bpp >= 3))
}

/// Length of the pixel data after colour-map expansion; `None` where the
/// expansion would panic.
pub open spec fn tga_expanded_len(b: Seq<u8>, p: Seq<u8>) -> Option<nat> {
    if is_color_mapped_type(b[2]) {
        if b[1] == 1 {
            map_expansion(p, tga_bpp(b), le16(b, 3), tga_entry_bytes(b), tga_map_bytes(b))
        } else {
            None
        }
    } else {
        Some(p.len())
    }
}

/// The TGA file `bytes` is one whose header, colour map and pixel data the
/// decoder reads without error and without panicking, and whose buffers can
/// be allocated.
pub open spec fn tga_decodable(bytes: Seq<u8>) -> bool {
    &&& tga_metadata_ok(bytes)
    &&& 4 * tga_width(bytes) * tga_height(bytes) <= isize::MAX
    &&& is_color_mapped_type(bytes[2]) ==> tga_width(bytes) * tga_height(bytes) * tga_entry_bytes(bytes) <= isize::MAX
    &&& match tga_pixel_data(bytes) {
        None => false,
        Some(p) => match tga_expanded_len(bytes, p) {
            None => false,
            Some(len) => is_color_type(bytes[2]) ==> swap_groups_ok(len, tga_bpp(bytes)),
        },
    }
    &&& bytes[17] & 0x20 == 0 ==> tga_height(bytes) != 0
}

/// The RGBA8 image that the `image` crate decodes from the TGA file
/// `bytes`: its width, height and pixel bytes; `None` when it cannot decode
/// them.
pub uninterp spec fn tga_as_rgba(bytes: Seq<u8>) -> Option<(u32, u32, Seq<u8>)>;

/// Calls `image::load` with the TGA format on `bytes`, and converts a
/// decoded image with `DynamicImage::to_rgba`. Claimed: the result is the
/// image named by `tga_as_rgba` of `bytes` (`None` exactly when decoding
/// fails), and the pixel buffer that `to_rgba` allocates holds exactly four
/// bytes per pixel. Files outside `tga_decodable` are not admitted: on some
/// of them the decoder panics.
#[verifier::external_body]
fn decode_tga_rgba(bytes: &[u8]) -> (image: Option<RgbaImage>)
    requires
        tga_decodable(bytes@),
    ensures
        match image {
            Some(i) => tga_as_rgba(bytes@) == Some((i.width, i.height, i.pixels@)),
            None => tga_as_rgba(bytes@) is None,
        },
        image matches Some(i) ==> i.pixels@.len() == 4 * i.width * i.height,
{
    match ::image::load(std::io::Cursor::new(bytes), ::image::ImageFormat::TGA) {
        Ok(decoded) => {
            let rgba = decoded.to_rgba();
            let (width, height) = rgba.dimensions();
            Some(RgbaImage { width, height, pixels: rgba.into_raw() })
        },
        Err(_) => None,
    }
}

pub open spec fn opt_seq(o: Option<Vec<u8>>) -> Option<Seq<u8>> {
    match o {
        Some(v) => Some(v@),
        None => None,
    }
}

/// Appends `bytes[from..from + k]` to `acc`.
fn append_range(acc: &mut Vec<u8>, bytes: &[u8], from: usize, k: usize)
    requires
        from + k <= bytes@.len(),
    ensures
        final(acc)@ == old(acc)@ + bytes@.subrange(from as int, (from + k) as int),
{
    let n = bytes.len();
    let mut i: usize = 0;
    while i < k
        invariant
            n == bytes@.len(),
            from + k <= n,
            i <= k,
            acc@ == old(acc)@ + bytes@.subrange(from as int, (from + i) as int),
        decreases k - i,
    {
        acc.push(bytes[from + i]);
        i = i + 1;
        assert(acc@ =~= old(acc)@ + bytes@.subrange(from as int, (from + i) as int));
    }
}

/// The run-length decoded pixel data of `bytes` from `start` on, until at
/// least `need` bytes are there; `None` when the input ends before.
fn rle_pixel_data(bytes: &[u8], start: usize, need: usize, bpp: usize) -> (pixels: Option<Vec<u8>>)
    requires
        start <= bytes@.len(),
        bpp <= 4,
        need + 1024 <= usize::MAX,
    ensures
        opt_seq(pixels) == rle_decode(bytes@.skip(start as int), Seq::empty(), need as nat, bpp as nat),
        pixels matches Some(v) ==> v@.len() < need + 1024,
{
    let n = bytes.len();
    let mut pos: usize = start;
    let mut acc: Vec<u8> = Vec::new();
    while acc.len() < need
        invariant
            n == bytes@.len(),
            start <= pos <= n,
            bpp <= 4,
            need + 1024 <= usize::MAX,
            acc@.len() < need + 1024,
            rle_decode(bytes@.skip(pos as int), acc@, need as nat, bpp as nat)
                == rle_decode(bytes@.skip(start as int), Seq::empty(), need as nat, bpp as nat),
        decreases n - pos,
    {
        let ghost input = bytes@.skip(pos as int);
        if pos == n {
            assert(input.len() == 0);
            return None;
        }
        let packet = bytes[pos];
        let rest_start = pos + 1;
        let avail = n - rest_start;
        proof {
            assert(input[0] == packet);
            assert(input.skip(1) =~= bytes@.skip(rest_start as int));
        }
        if packet & 0x80 != 0 {
            assert(packet & 0x7f <= 127) by (bit_vector);
            let count = (packet & 0x7f) as usize + 1;
            let k = if bpp <= avail { bpp } else { avail };
            let ghost d = bytes@.subrange(rest_start as int, (rest_start + k) as int);
            let ghost acc0 = acc@;
            let mut r: usize = 0;
            while r < count
                invariant
                    rest_start + k <= n,
                    n == bytes@.len(),
                    k <= 4,
                    count <= 128,
                    r <= count,
                    d == bytes@.subrange(rest_start as int, (rest_start + k) as int),
                    acc@ == acc0 + repeated(d, r as nat),
                    acc@.len() == acc0.len() + r * k,
                decreases count - r,
            {
                append_range(&mut acc, bytes, rest_start, k);
                r = r + 1;
                assert(acc@ =~= acc0 + repeated(d, r as nat));
                assert(acc@.len() == acc0.len() + r * k) by (nonlinear_arith)
                    requires
                        acc@.len() == acc0.len() + (r - 1) * k + k,
                ;
            }
            assert(acc@.len() <= acc0.len() + 512) by (nonlinear_arith)
                requires
                    acc@.len() == acc0.len() + count * k,
                    count <= 128,
                    k <= 4,
            ;
            proof {
                let rest = input.skip(1);
                assert(rest.take(k as int) =~= d);
                assert(rest.skip(k as int) =~= bytes@.skip((rest_start + k) as int));
            }
            pos = rest_start + k;
        } else {
            assert((packet as usize + 1) * bpp <= 256 * 4) by (nonlinear_arith)
                requires
                    packet as usize + 1 <= 256,
                    bpp <= 4,
            ;
            let m = (packet as usize + 1) * bpp;
            let k = if m <= avail { m } else { avail };
            append_range(&mut acc, bytes, rest_start, k);
            proof {
                let rest = input.skip(1);
                assert(rest.take(k as int) =~= bytes@.subrange(rest_start as int, (rest_start + k) as int));
                assert(rest.skip(k as int) =~= bytes@.skip((rest_start + k) as int));
            }
            pos = rest_start + k;
        }
    }
    Some(acc)
}

/// The length of the pixel data `p` after colour-map expansion; `None`
/// where an entry lies past the map or `bpp` is 0.
fn map_expanded_len(p: &Vec<u8>, bpp: usize, origin: u64, entry: u64, map_len: u64) -> (len: Option<u64>)
    requires
        bpp <= 4,
        origin <= 65535,
        entry <= 32,
        p@.len() <= 0x1_0000_0000_0000,
    ensures
        match len {
            Some(l) => map_expansion(p@, bpp as nat, origin as nat, entry as nat, map_len as nat) == Some(l as nat),
            None => map_expansion(p@, bpp as nat, origin as nat, entry as nat, map_len as nat) is None,
        },
{
    if bpp == 0 {
        return None;
    }
    let n = p.len();
    let mut pos: usize = 0;
    let mut total: u64 = 0;
    assert(p@.skip(0) =~= p@);
    while pos < n
        invariant
            n == p@.len(),
            n <= 0x1_0000_0000_0000,
            1 <= bpp <= 4,
            origin <= 65535,
            entry <= 32,
            pos <= n,
            total <= 32 * pos,
            map_expansion(p@, bpp as nat, origin as nat, entry as nat, map_len as nat) == match map_expansion(
                p@.skip(pos as int),
                bpp as nat,
                origin as nat,
                entry as nat,
                map_len as nat,
            ) {
                Some(l) => Some((l + total) as nat),
                None => None,
            },
        decreases n - pos,
    {
        let ghost rest = p@.skip(pos as int);
        let k = if bpp <= n - pos { bpp } else { n - pos };
        let mut value: u64 = 0;
        let mut j: usize = 0;
        while j < k
            invariant
                pos + k <= n,
                n == p@.len(),
                k <= 4,
                j <= k,
                value == be_value(p@.subrange(pos as int, (pos + j) as int)),
                value < pow256(j as nat),
            decreases k - j,
        {
            proof {
                lemma_pow256_bound(j as nat);
                let c = p@.subrange(pos as int, (pos + j + 1) as int);
                assert(c.drop_last() =~= p@.subrange(pos as int, (pos + j) as int));
            }
            let byte = p[pos + j];
            assert(value * 256 + byte < pow256(j as nat) * 256) by (nonlinear_arith)
                requires
                    value < pow256(j as nat),
                    byte < 256,
            ;
            value = value * 256 + byte as u64;
            j = j + 1;
        }
        proof {
            lemma_pow256_bound(k as nat);
            assert(rest.take(k as int) =~= p@.subrange(pos as int, (pos + k) as int));
            assert(rest.skip(k as int) =~= p@.skip((pos + k) as int));
        }
        assert(entry * value <= 32 * 0x1_0000_0000) by (nonlinear_arith)
            requires
                entry <= 32,
                value <= 0x1_0000_0000,
        ;
        if origin + entry * value + entry > map_len {
            return None;
        }
        total = total + entry;
        pos = pos + k;
    }
    assert(p@.skip(pos as int) =~= Seq::<u8>::empty());
    Some(total)
}

/// 256 to the power `j`.
pub open spec fn pow256(j: nat) -> nat
    decreases j,
{
    if j == 0 {
        1
    } else {
        256 * pow256((j - 1) as nat)
    }
}

proof fn lemma_pow256_bound(j: nat)
    requires
        j <= 4,
    ensures
        pow256(j) <= 0x1_0000_0000,
        pow256(j + 1) == 256 * pow256(j),
{
    reveal_with_fuel(pow256, 5);
}

/// Whether the TGA file `bytes` is one whose header, colour map and pixel
/// data the decoder reads without error and without panicking, and whose
/// buffers can be allocated.
pub fn tga_is_decodable(bytes: &[u8]) -> (decodable: bool)
    ensures
        decodable == tga_decodable(bytes@),
{
    if bytes.len() < TGA_HEADER_LEN {
        return false;
    }
    let id_length = bytes[0] as usize;
    let map_type = bytes[1];
    let image_type = bytes[2];
    let map_origin = bytes[3] as u64 + 256 * bytes[4] as u64;
    let map_length = bytes[5] as u64 + 256 * bytes[6] as u64;
    let entry_bits = bytes[7];
    let width = bytes[12] as u64 + 256 * bytes[13] as u64;
    let height = bytes[14] as u64 + 256 * bytes[15] as u64;
    let depth = bytes[16];
    let descriptor = bytes[17];
    let entry = (entry_bits as u64 + 7) / 8;
    let bpp = (depth as u64 + 7) / 8;
    assert(entry * map_length <= 32 * 65535) by (nonlinear_arith)
        requires
            entry <= 32,
            map_length <= 65535,
    ;
    let map_bytes = if map_type == 1 { entry * map_length } else { 0 };
    let start = TGA_HEADER_LEN as u64 + id_length as u64 + map_bytes;
    // the header, image id and colour map
    if map_bytes > 0 && start > bytes.len() as u64 {
        return false;
    }
    if depth % 8 != 0 || depth > 32 {
        return false;
    }
    let alpha = descriptor & 15;
    if map_type == 0 && alpha > depth {
        return false;
    }
    let other: u8 = if map_type != 0 { entry_bits } else { depth - alpha };
    let color = image_type == 1 || image_type == 2 || image_type == 9 || image_type == 10;
    let supported = (alpha == 0 && other == 32 && color) || (alpha == 8 && other == 24 && color) || (
    alpha == 0 && other == 24 && color) || (alpha == 8 && other == 8 && !color) || (alpha == 0
        && other == 8 && !color);
    if !supported {
        return false;
    }
    // the RGBA buffer
    assert(width * height <= 65535 * 65535) by (nonlinear_arith)
        requires
            width <= 65535,
            height <= 65535,
    ;
    let area = width * height;
    assert(4 * width * height == 4 * area) by (nonlinear_arith)
        requires
            area == width * height,
    ;
    if 4 * area > isize::MAX as u64 {
        return false;
    }
    assert(width * height * entry == area * entry && area * entry <= 65535 * 65535 * 32) by (nonlinear_arith)
        requires
            area == width * height,
            area <= 65535 * 65535,
            entry <= 32,
    ;
    if (image_type == 1 || image_type == 9) && area * entry > isize::MAX as u64 {
        return false;
    }
    if descriptor & 0x20 == 0 && height == 0 {
        return false;
    }
    // the pixel data
    assert(area * bpp <= 4 * area) by (nonlinear_arith)
        requires
            bpp <= 4,
    ;
    let need = (area * bpp) as usize;
    let pixels = if image_type == 9 || image_type == 10 || image_type == 11 {
        let from = if start <= bytes.len() as u64 { start as usize } else { bytes.len() };
        proof {
            if start > bytes.len() {
                assert(bytes@.skip(bytes.len() as int) =~= Seq::<u8>::empty());
            }
        }
        rle_pixel_data(bytes, from, need, bpp as usize)
    } else if need == 0 {
        Some(Vec::new())
    } else if start + need as u64 <= bytes.len() as u64 {
        let s = start as usize;
        Some(vstd::slice::slice_to_vec(vstd::slice::slice_subrange(bytes, s, s + need)))
    } else {
        None
    };
    let pixels = match pixels {
        Some(p) => p,
        None => return false,
    };
    // the colour-map expansion
    let expanded = if image_type == 1 || image_type == 9 {
        if map_type == 1 {
            map_expanded_len(&pixels, bpp as usize, map_origin, entry, map_bytes)
        } else {
            None
        }
    } else {
        Some(pixels.len() as u64)
    };
    let len = match expanded {
        Some(l) => l,
        None => return false,
    };
    // the red/blue swap
    if color {
        bpp >= 1 && (len == 0 || (bpp >= 3 && (len % bpp == 0 || len % bpp >= 3)))
    } else {
        true
    }
}
/// Decodes the TGA file `bytes` into an RGBA8 image; `None` when the file
/// is not one that the decoder handles without panicking, or when the
/// decoder rejects it.
pub fn decode_texture(bytes: &[u8]) -> (image: Option<RgbaImage>)
    ensures
        !tga_decodable(bytes@) ==> image is None,
        tga_decodable(bytes@) ==> match image {
            Some(i) => tga_as_rgba(bytes@) == Some((i.width, i.height, i.pixels@)),
            None => tga_as_rgba(bytes@) is None,
        },
        image matches Some(i) ==> i.pixels@.len() == 4 * i.width * i.height,
{
    if !tga_is_decodable(bytes) {
        return None;
    }
    decode_tga_rgba(bytes)
}


/// A complete uncompressed true-colour TGA file is decodable: image type 2
/// without colour map, 24-bit pixels without alpha or 32-bit pixels with
/// none or 8 alpha bits, a non-zero height, and all `width * height` pixels
/// present after the header and the image id.
pub proof fn law_complete_true_colour_tga_is_decodable(b: Seq<u8>)
    requires
        b.len() >= 18,
        b[1] == 0,
        b[2] == 2,
        (b[16] == 24 && b[17] & 15 == 0) || (b[16] == 32 && (b[17] & 15 == 0 || b[17] & 15 == 8)),
        b[14] != 0 || b[15] != 0,
        18 + (b[0] as int) + ((b[12] as int) + 256 * (b[13] as int)) * ((b[14] as int) + 256 * (b[15] as int)) * (
        (b[16] as int) / 8) <= b.len(),
        4 * ((b[12] as int) + 256 * (b[13] as int)) * ((b[14] as int) + 256 * (b[15] as int)) <= isize::MAX,
    ensures
        tga_decodable(b),
{
    let w = tga_width(b);
    let h = tga_height(b);
    let bpp = tga_bpp(b);
    assert(bpp == (b[16] as int) / 8);
    assert(bpp == 3 || bpp == 4);
    let need = w * h * bpp;
    assert(tga_data_start(b) == 18 + (b[0] as int));
    assert(need % bpp == 0) by {
        vstd::arithmetic::div_mod::lemma_mod_multiples_basic((w * h) as int, bpp as int);
    }
    match tga_pixel_data(b) {
        Some(p) => {
            assert(p.len() == need);
            assert(swap_groups_ok(p.len(), bpp));
        },
        None => {
            assert(false);
        },
    }
}

/// A complete uncompressed greyscale TGA file is decodable: image type 3
/// without colour map, 8-bit pixels without alpha or 16-bit pixels with 8
/// alpha bits, a non-zero height, and all `width * height` pixels present
/// after the header and the image id.
pub proof fn law_complete_grey_tga_is_decodable(b: Seq<u8>)
    requires
        b.len() >= 18,
        b[1] == 0,
        b[2] == 3,
        (b[16] == 8 && b[17] & 15 == 0) || (b[16] == 16 && b[17] & 15 == 8),
        b[14] != 0 || b[15] != 0,
        18 + (b[0] as int) + ((b[12] as int) + 256 * (b[13] as int)) * ((b[14] as int) + 256 * (b[15] as int)) * (
        (b[16] as int) / 8) <= b.len(),
        4 * ((b[12] as int) + 256 * (b[13] as int)) * ((b[14] as int) + 256 * (b[15] as int)) <= isize::MAX,
    ensures
        tga_decodable(b),
{
    assert(tga_bpp(b) == (b[16] as int) / 8);
    assert(tga_data_start(b) == 18 + (b[0] as int));
    match tga_pixel_data(b) {
        Some(p) => {},
        None => {
            assert(false);
        },
    }
}

/// A raw packet byte `c` (high bit clear) is followed by `c + 1` pixels:
/// decoding `[c]` and then at least `(c + 1) * bpp` bytes `p`, until
/// `(c + 1) * bpp` bytes are there, gives exactly the first `(c + 1) * bpp`
/// bytes of `p`.
pub proof fn law_raw_packet_copies_its_pixels(c: u8, p: Seq<u8>, bpp: nat)
    requires
        c < 0x80,
        p.len() >= ((c as nat) + 1) * bpp,
    ensures
        rle_decode(seq![c] + p, Seq::empty(), ((c as nat) + 1) * bpp, bpp) == Some(
            p.take((((c as nat) + 1) * bpp) as int),
        ),
{
    let need = ((c as nat) + 1) * bpp;
    let input = seq![c] + p;
    if need == 0 {
        assert(p.take(0) =~= Seq::<u8>::empty());
    } else {
        assert(c & 0x80 == 0) by (bit_vector)
            requires
                c < 0x80,
        ;
        assert(input[0] == c);
        assert(input.skip(1) =~= p);
        assert(Seq::<u8>::empty() + p.take(need as int) =~= p.take(need as int));
        reveal_with_fuel(rle_decode, 2);
    }
}

/// `d` repeated `r` times has `r * d.len()` bytes, byte `i` being byte
/// `i % d.len()` of `d`.
proof fn lemma_repeated_bytes(d: Seq<u8>, r: nat)
    requires
        d.len() > 0,
    ensures
        repeated(d, r).len() == r * d.len(),
        forall|i: int| 0 <= i < r * d.len() ==> #[trigger] repeated(d, r)[i] == d[i % (d.len() as int)],
    decreases r,
{
    let l = d.len() as int;
    if r == 0 {
        assert(r * l == 0);
    } else {
        let r1 = (r - 1) as nat;
        lemma_repeated_bytes(d, r1);
        assert(r * l == r1 * l + l) by (nonlinear_arith)
            requires
                r1 == r - 1,
        ;
        let prev = repeated(d, r1);
        assert(repeated(d, r) == prev + d);
        assert(prev.len() == r1 * l);
        assert forall|i: int| 0 <= i < r * d.len() implies #[trigger] repeated(d, r)[i] == d[i % l] by {
            if i >= r1 * l {
                assert((prev + d)[i] == d[i - r1 * l]);
                vstd::arithmetic::div_mod::lemma_fundamental_div_mod_converse(i, l, r1 as int, i - r1 * l);
            } else {
                assert((prev + d)[i] == prev[i]);
            }
        }
    }
}

/// A run packet byte `c` (high bit set) repeats the pixel that follows it
/// `(c & 0x7f) + 1` times: decoding `[c]` and then at least `bpp` bytes `p`,
/// until that many pixels are there, gives `((c & 0x7f) + 1) * bpp` bytes,
/// byte `i` being byte `i % bpp` of `p`.
pub proof fn law_run_packet_repeats_its_pixel(c: u8, p: Seq<u8>, bpp: nat)
    requires
        c >= 0x80,
        bpp >= 1,
        p.len() >= bpp,
    ensures
        ({
            let count = ((c & 0x7f) as nat) + 1;
            &&& rle_decode(seq![c] + p, Seq::empty(), count * bpp, bpp) matches Some(r)
            &&& r.len() == count * bpp
            &&& forall|i: int| 0 <= i < r.len() ==> r[i] == p[i % (bpp as int)]
        }),
{
    let count = ((c & 0x7f) as nat) + 1;
    let input = seq![c] + p;
    assert(c & 0x80 != 0) by (bit_vector)
        requires
            c >= 0x80,
    ;
    assert(input[0] == c);
    assert(input.skip(1) =~= p);
    let d = p.take(bpp as int);
    lemma_repeated_bytes(d, count);
    assert(Seq::<u8>::empty() + repeated(d, count) =~= repeated(d, count));
    assert(count * bpp >= 1) by (nonlinear_arith)
        requires
            count >= 1,
            bpp >= 1,
    ;
    reveal_with_fuel(rle_decode, 2);
    let r = repeated(d, count);
    assert forall|i: int| 0 <= i < r.len() implies r[i] == p[i % (bpp as int)] by {
        assert(r[i] == d[i % (bpp as int)]);
    }
}

} // verus!
