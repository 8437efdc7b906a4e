//! Sizes and layouts of the host-visible buffers that carry vertex, uniform
//! and texture data to the device.

use vstd::prelude::*;

use crate::memory::Limits;

verus! {

/// Bytes per pixel of the RGBA8 textures.
pub const BYTES_PIXEL: u32 = 4;

/// `size` rounded up with the mask of `alignment`, as the 32-bit arithmetic
/// of the layout computes it: `(size + (alignment - 1)) & !(alignment - 1)`.
pub open spec fn align_up(size: u32, alignment: u32) -> u32 {
    ((size + (alignment - 1)) as u32) & !((alignment - 1) as u32)
}

/// Number of bytes of a buffer that holds `item_count` items of type `I`.
pub fn buffer_size_for_items<I>(item_count: u64) -> (size: u64)
    requires
        item_count * vstd::layout::size_of::<I>() <= u64::MAX,
    ensures
        size == item_count * vstd::layout::size_of::<I>(),
{
    let stride = core::mem::size_of::<I>() as u64;
    item_count * stride
}

/// Size of one chunk of `items_count_each_chunk` items of type `I`, rounded
/// up with the mask of `alignment`.
pub fn chunk_size_align_to_size<I>(items_count_each_chunk: u32, alignment: u32) -> (chunk_size: u32)
    requires
        alignment >= 1,
        items_count_each_chunk * (vstd::layout::size_of::<I>() as u32) + (alignment - 1) <= u32::MAX,
    ensures
        chunk_size == align_up(
            (items_count_each_chunk * (vstd::layout::size_of::<I>() as u32)) as u32,
            alignment,
        ),
{
    let alignment_mask = alignment - 1;
    let stride = core::mem::size_of::<I>();
    (items_count_each_chunk * (stride as u32) + alignment_mask) & !alignment_mask
}

/// Number of bytes of a buffer made of `num_of_chunk` chunks of
/// `chunk_size` bytes.
pub fn buffer_size_for_chunks(num_of_chunk: u32, chunk_size: u32) -> (size: u64)
    ensures
        size == num_of_chunk * chunk_size,
{
    proof {
        vstd::arithmetic::mul::lemma_mul_upper_bound(
            num_of_chunk as int,
            u32::MAX as int,
            chunk_size as int,
            u32::MAX as int,
        );
    }
    (num_of_chunk as u64) * (chunk_size as u64)
}

/// Copies `items` to the front of the mapped buffer `dest`; the rest of
/// `dest` is left as it was.
pub fn fill_buffer<I: Copy>(dest: &mut [I], items: &[I])
    requires
        items@.len() <= old(dest)@.len(),
    ensures
        final(dest)@ == items@ + old(dest)@.skip(items@.len() as int),
{
    let n = items.len();
    let mut i: usize = 0;
    while i < n
        invariant
            n == items@.len(),
            i <= n,
            n <= dest@.len(),
            dest@.len() == old(dest)@.len(),
            dest@ == items@.take(i as int) + old(dest)@.skip(i as int),
        decreases n - i,
    {
        let x = items[i];
        dest[i] = x;
        i = i + 1;
        assert(dest@ =~= items@.take(i as int) + old(dest)@.skip(i as int));
    }
    assert(items@.take(n as int) =~= items@);
}


/// Row pitch and total size of the staging buffer for an RGBA8 texture of
/// `width` x `height` pixels: each row of `4 * width` bytes is rounded up
/// with the mask of the adapter's row-pitch alignment (taken as 32 bits).
pub fn texture_staging_layout(width: u32, height: u32, limits: &Limits) -> (layout: (u32, u64))
    requires
        limits.min_buffer_copy_pitch_alignment as u32 >= 1,
        width * 4 + ((limits.min_buffer_copy_pitch_alignment as u32) - 1) <= u32::MAX,
        height * align_up(
            (width * 4) as u32,
            limits.min_buffer_copy_pitch_alignment as u32,
        ) <= u32::MAX,
    ensures
        layout.0 == align_up((width * 4) as u32, limits.min_buffer_copy_pitch_alignment as u32),
        layout.1 == height * layout.0,
{
    let row_alignment_mask = limits.min_buffer_copy_pitch_alignment as u32 - 1;
    let stride: usize = 4;
    let row_pitch = (width * stride as u32 + row_alignment_mask) & !row_alignment_mask;
    let upload_size = (height * row_pitch) as u64;
    (row_pitch, upload_size)
}

/// Number of whole items of type `V` in a buffer of `buffer_size` bytes,
/// taken as 32 bits: the vertex count of a draw over a vertex buffer.
pub fn item_count_in_buffer<V>(buffer_size: u64) -> (count: u32)
    requires
        vstd::layout::size_of::<V>() > 0,
        vstd::layout::size_of::<V>() <= u64::MAX,
    ensures
        count == (buffer_size / (vstd::layout::size_of::<V>() as u64)) as u32,
{
    let stride = core::mem::size_of::<V>() as u64;
    (buffer_size / stride) as u32
}

/// `s` with `src` written over it from index `base` on.
pub open spec fn write_at<I>(s: Seq<I>, base: int, src: Seq<I>) -> Seq<I> {
    s.take(base) + src + s.skip(base + src.len())
}

/// The mapped buffer `dest` after the first `k` chunks of `items`, each
/// `chunk_len` items long, have been written to it, chunk `c` at index
/// `c * row_pitch`, in order.
pub open spec fn aligned_fill<I>(dest: Seq<I>, items: Seq<I>, k: nat, chunk_len: int, row_pitch: int) -> Seq<I>
    decreases k,
{
    if k == 0 {
        dest
    } else {
        let c = (k - 1) as nat;
        write_at(
            aligned_fill(dest, items, c, chunk_len, row_pitch),
            c * row_pitch,
            items.subrange(c * chunk_len, k * chunk_len),
        )
    }
}

/// Every chunk of `items` fits in `items`, and lands inside `dest`.
pub open spec fn aligned_fill_fits(
    dest_len: int,
    items_len: int,
    num_of_chunk: int,
    chunk_len: int,
    row_pitch: int,
) -> bool {
    &&& num_of_chunk * chunk_len <= items_len
    &&& num_of_chunk > 0 ==> (num_of_chunk - 1) * row_pitch + chunk_len <= dest_len
}

/// Copies `num_of_chunk` chunks of `items_count_each_chunk` items each from
/// `items` into the mapped buffer `dest`, chunk `c` starting at index
/// `c * row_pitch`; what lies between the chunks is left as it was.
pub fn fill_buffer_with_alignment<I: Copy>(
    dest: &mut [I],
    items: &[I],
    num_of_chunk: u32,
    items_count_each_chunk: u32,
    row_pitch: u32,
)
    requires
        aligned_fill_fits(
            old(dest)@.len() as int,
            items@.len() as int,
            num_of_chunk as int,
            items_count_each_chunk * vstd::layout::size_of::<I>(),
            row_pitch as int,
        ),
    ensures
        final(dest)@ == aligned_fill(
            old(dest)@,
            items@,
            num_of_chunk as nat,
            items_count_each_chunk * vstd::layout::size_of::<I>(),
            row_pitch as int,
        ),
{
    let stride = core::mem::size_of::<I>();
    let items_len = items.len();
    let dest_len = dest.len();
    let ghost cl: int = items_count_each_chunk * vstd::layout::size_of::<I>();
    let ghost rp: int = row_pitch as int;
    let ghost num: int = num_of_chunk as int;
    let mut current_chunk: usize = 0;
    while current_chunk < num_of_chunk as usize
        invariant
            stride as nat == vstd::layout::size_of::<I>(),
            items_len == items@.len(),
            dest_len == dest@.len(),
            cl == items_count_each_chunk * vstd::layout::size_of::<I>(),
            rp == row_pitch as int,
            num == num_of_chunk as int,
            current_chunk <= num,
            aligned_fill_fits(dest@.len() as int, items@.len() as int, num, cl, rp),
            dest@.len() == old(dest)@.len(),
            dest@ == aligned_fill(old(dest)@, items@, current_chunk as nat, cl, rp),
        decreases num - current_chunk,
    {
        proof {
            vstd::arithmetic::mul::lemma_mul_inequality(current_chunk as int + 1, num, cl);
            vstd::arithmetic::mul::lemma_mul_is_distributive_add_other_way(cl, current_chunk as int, 1);
            vstd::arithmetic::mul::lemma_mul_inequality(current_chunk as int, num - 1, rp);
            vstd::arithmetic::mul::lemma_mul_nonnegative(current_chunk as int, cl);
            vstd::arithmetic::mul::lemma_mul_nonnegative(current_chunk as int, rp);
            vstd::arithmetic::mul::lemma_mul_inequality(1, num, cl);
            vstd::arithmetic::mul::lemma_mul_basics(cl);
            assert(cl <= items_len);
            assert(current_chunk * cl + cl <= items_len);
            assert(current_chunk * rp + cl <= dest_len);
        }
        let chunk_len: usize = items_count_each_chunk as usize * stride;
        let start: usize = current_chunk * chunk_len;
        let dest_base: usize = current_chunk * row_pitch as usize;
        let ghost before = dest@;
        let mut j: usize = 0;
        while j < chunk_len
            invariant
                chunk_len == cl,
                items_len == items@.len(),
                before.len() == dest@.len(),
                dest_len == dest@.len(),
                start == current_chunk * cl,
                start + chunk_len <= items_len,
                dest_base == current_chunk * rp,
                dest_base + chunk_len <= dest_len,
                j <= chunk_len,
                dest@ == write_at(before, dest_base as int, items@.subrange(start as int, start + j)),
            decreases chunk_len - j,
        {
            let x = items[start + j];
            dest[dest_base + j] = x;
            j = j + 1;
            assert(dest@ =~= write_at(before, dest_base as int, items@.subrange(start as int, start + j)));
        }
        current_chunk = current_chunk + 1;
        assert(dest@ == aligned_fill(old(dest)@, items@, current_chunk as nat, cl, rp));
    }
}

/// With a power-of-two alignment, rounding up gives the least multiple of
/// the alignment that is not below the size.
pub proof fn law_align_up_power_of_two(size: u32, shift: u32)
    requires
        shift < 32,
        size + ((1u32 << shift) - 1) <= u32::MAX,
    ensures
        align_up(size, 1u32 << shift) % (1u32 << shift) == 0,
        size <= align_up(size, 1u32 << shift),
        align_up(size, 1u32 << shift) < size + (1u32 << shift),
{
    let a: u32 = 1u32 << shift;
    assert(a >= 1) by (bit_vector)
        requires
            a == 1u32 << shift,
            shift < 32,
    ;
    let m: u32 = (a - 1) as u32;
    let x: u32 = (size + m) as u32;
    let r: u32 = x & !m;
    assert(r % a == 0 && r <= x && x - r <= m) by (bit_vector)
        requires
            a == 1u32 << shift,
            shift < 32,
            m == a - 1,
            r == x & !m,
    ;
    assert(align_up(size, a) == r);
}

/// Index `j` of row `c` in a buffer whose rows are `row_pitch` apart.
pub open spec fn row_index(c: int, row_pitch: int, j: int) -> int {
    c * row_pitch + j
}

/// Index `i` lies in none of the first `num` rows of `chunk_len` items.
pub open spec fn outside_rows(i: int, num: nat, chunk_len: int, row_pitch: int) -> bool {
    forall|c: int| 0 <= c < num ==> !(c * row_pitch <= i < #[trigger] row_index(c, row_pitch, chunk_len))
}

proof fn lemma_aligned_fill_rows<I>(dest: Seq<I>, items: Seq<I>, k: nat, cl: int, rp: int)
    requires
        0 <= cl <= rp,
        aligned_fill_fits(dest.len() as int, items.len() as int, k as int, cl, rp),
    ensures
        aligned_fill(dest, items, k, cl, rp).len() == dest.len(),
        forall|c: int, j: int|
            0 <= c < k && 0 <= j < cl ==> aligned_fill(dest, items, k, cl, rp)[#[trigger] row_index(c, rp, j)]
                == items[c * cl + j],
        forall|i: int|
            0 <= i < dest.len() && #[trigger] outside_rows(i, k, cl, rp) ==> aligned_fill(dest, items, k, cl, rp)[i]
                == dest[i],
    decreases k,
{
    if k > 0 {
        let p = (k - 1) as nat;
        let base = p * rp;
        vstd::arithmetic::mul::lemma_mul_inequality(p as int, k as int, cl);
        vstd::arithmetic::mul::lemma_mul_is_distributive_add_other_way(cl, p as int, 1);
        vstd::arithmetic::mul::lemma_mul_nonnegative(p as int, cl);
        vstd::arithmetic::mul::lemma_mul_nonnegative(p as int, rp);
        if p > 0 {
            vstd::arithmetic::mul::lemma_mul_inequality(p - 1, p as int, rp);
        }
        assert(aligned_fill_fits(dest.len() as int, items.len() as int, p as int, cl, rp));
        lemma_aligned_fill_rows(dest, items, p, cl, rp);
        let prev = aligned_fill(dest, items, p, cl, rp);
        let chunk = items.subrange(p * cl, k * cl);
        assert(chunk.len() == cl);
        assert(base + cl <= dest.len());
        let cur = aligned_fill(dest, items, k, cl, rp);
        assert(cur == write_at(prev, base, chunk));
        assert(cur.len() == dest.len());
        assert forall|c: int, j: int| 0 <= c < k && 0 <= j < cl implies cur[#[trigger] row_index(c, rp, j)]
            == items[c * cl + j] by {
            if c < p {
                vstd::arithmetic::mul::lemma_mul_inequality(c + 1, p as int, rp);
                vstd::arithmetic::mul::lemma_mul_is_distributive_add_other_way(rp, c, 1);
                vstd::arithmetic::mul::lemma_mul_nonnegative(c, rp);
                assert(row_index(c, rp, j) < base);
                assert(cur[row_index(c, rp, j)] == prev[row_index(c, rp, j)]);
            } else {
                assert(c == p);
                assert(cur[row_index(c, rp, j)] == chunk[j]);
            }
        }
        assert forall|i: int| 0 <= i < dest.len() && #[trigger] outside_rows(i, k, cl, rp) implies cur[i]
            == dest[i] by {
            assert(!(p * rp <= i < row_index(p as int, rp, cl)));
            assert(outside_rows(i, p, cl, rp)) by {
                assert forall|c: int| 0 <= c < p implies !(c * rp <= i < #[trigger] row_index(c, rp, cl)) by {
                    assert(!(c * rp <= i < row_index(c, rp, cl)));
                }
            }
            if i < base {
                assert(cur[i] == prev[i]);
            } else {
                assert(i >= base + cl);
                assert(cur[i] == prev[i]);
            }
        }
    }
}

/// When rows are no closer than their length, staging `num` rows puts row
/// `c` at index `c * row_pitch`, item for item, and leaves every item that
/// lies in no row as it was; the buffer keeps its length.
pub proof fn law_aligned_fill_places_rows<I>(dest: Seq<I>, items: Seq<I>, num: nat, chunk_len: int, row_pitch: int)
    requires
        0 <= chunk_len <= row_pitch,
        aligned_fill_fits(dest.len() as int, items.len() as int, num as int, chunk_len, row_pitch),
    ensures
        aligned_fill(dest, items, num, chunk_len, row_pitch).len() == dest.len(),
        forall|c: int, j: int|
            0 <= c < num && 0 <= j < chunk_len ==> aligned_fill(dest, items, num, chunk_len, row_pitch)[
                #[trigger] row_index(c, row_pitch, j)] == items[c * chunk_len + j],
        forall|i: int|
            0 <= i < dest.len() && #[trigger] outside_rows(i, num, chunk_len, row_pitch) ==> aligned_fill(
                dest,
                items,
                num,
                chunk_len,
                row_pitch,
            )[i] == dest[i],
{
    lemma_aligned_fill_rows(dest, items, num, chunk_len, row_pitch);
}

} // verus!
