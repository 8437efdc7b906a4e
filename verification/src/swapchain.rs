//! Choice of the surface colour format, and the bookkeeping of which frame
//! and which semaphore pair the next frame uses.

use vstd::prelude::*;

verus! {

/// How the channels of a format are read.
#[derive(Clone, Copy, Debug, PartialEq, Eq)]
pub enum ChannelType {
    Unorm,
    Inorm,
    Uint,
    Int,
    Ufloat,
    Float,
    Uscaled,
    Iscaled,
    Srgb,
}

/// A texel format: its number in the graphics API's format list, and the
/// channel type of its base format.
#[derive(Clone, Copy, Debug, PartialEq, Eq)]
pub struct Format {
    pub id: u32,
    pub channel_type: ChannelType,
}

/// Number of the 8-bit RGBA sRGB format in the format list.
pub const RGBA8_SRGB_ID: u32 = 43;

/// The 8-bit RGBA sRGB format.
pub open spec fn spec_rgba8_srgb() -> Format {
    Format { id: RGBA8_SRGB_ID, channel_type: ChannelType::Srgb }
}

impl Format {
    /// The 8-bit RGBA sRGB format.
    pub fn rgba8_srgb() -> (f: Format)
        ensures
            f == spec_rgba8_srgb(),
    {
        Format { id: RGBA8_SRGB_ID, channel_type: ChannelType::Srgb }
    }

    pub fn is_srgb(&self) -> (b: bool)
        ensures
            b == (self.channel_type == ChannelType::Srgb),
    {
        match self.channel_type {
            ChannelType::Srgb => true,
            _ => false,
        }
    }
}

/// `formats[i]` is the first sRGB format of `formats`.
pub open spec fn is_first_srgb(formats: Seq<Format>, i: int) -> bool {
    &&& 0 <= i < formats.len()
    &&& formats[i].channel_type == ChannelType::Srgb
    &&& forall|j: int| 0 <= j < i ==> (#[trigger] formats[j]).channel_type != ChannelType::Srgb
}

/// The colour format chosen among the formats a surface supports: the
/// first sRGB one, else the first one; with no list, 8-bit RGBA sRGB.
pub open spec fn chosen_color_format(formats: Option<Seq<Format>>, chosen: Format) -> bool {
    match formats {
        None => chosen == spec_rgba8_srgb(),
        Some(fs) => {
            ||| exists|i: int| #[trigger] is_first_srgb(fs, i) && chosen == fs[i]
            ||| (forall|j: int| 0 <= j < fs.len() ==> (#[trigger] fs[j]).channel_type != ChannelType::Srgb)
                && chosen == fs[0]
        },
    }
}

/// Picks the colour format of the swapchain among the formats that the
/// surface supports.
pub fn select_surface_color_format(formats: Option<Vec<Format>>) -> (format: Format)
    requires
        formats matches Some(fs) ==> fs.len() > 0,
    ensures
        chosen_color_format(
            match formats {
                Some(fs) => Some(fs@),
                None => None,
            },
            format,
        ),
{
    let ghost given = formats;
    match formats {
        None => Format::rgba8_srgb(),
        Some(fs) => {
            let mut i: usize = 0;
            while i < fs.len()
                invariant
                    given == Some(fs),
                    given == formats,
                    fs.len() > 0,
                    i <= fs.len(),
                    forall|j: int| 0 <= j < i ==> (#[trigger] fs@[j]).channel_type != ChannelType::Srgb,
                decreases fs.len() - i,
            {
                if fs[i].is_srgb() {
                    let chosen = fs[i];
                    assert(is_first_srgb(fs@, i as int));
                    return chosen;
                }
                i = i + 1;
            }
            fs[0]
        },
    }
}

/// Number of frames in flight for a swapchain with `num_frame_images`
/// images: one per image, and one when the swapchain exposes no images.
pub fn frames_in_flight(num_frame_images: usize) -> (count: usize)
    ensures
        count == if num_frame_images != 0 { num_frame_images } else { 1 },
{
    if num_frame_images != 0 {
        num_frame_images
    } else {
        1
    }
}

/// The semaphore index that follows `current` among `count` semaphores.
pub open spec fn next_semaphore_index(current: int, count: int) -> int {
    if current + 1 >= count {
        0
    } else {
        current + 1
    }
}

/// Which semaphore pair the next frame uses, and which frame came last.
#[derive(Clone, Copy, Debug, PartialEq, Eq)]
pub struct FrameIndices {
    pub current_index: usize,
    pub last_index: usize,
}

impl FrameIndices {
    pub fn new() -> (indices: FrameIndices)
        ensures
            indices.current_index == 0,
            indices.last_index == 0,
    {
        FrameIndices { current_index: 0, last_index: 0 }
    }

    /// Moves to the next of `num_of_acquire_semaphores` semaphores, back to
    /// the first after the last.
    pub fn increment_current_semaphores_index(&mut self, num_of_acquire_semaphores: usize)
        requires
            old(self).current_index < usize::MAX,
        ensures
            final(self).current_index == next_semaphore_index(
                old(self).current_index as int,
                num_of_acquire_semaphores as int,
            ),
            final(self).last_index == old(self).last_index,
    {
        self.current_index = self.current_index + 1;
        if self.current_index >= num_of_acquire_semaphores {
            self.current_index = 0;
        }
    }
}

/// The semaphore index after `steps` increments from `current` among
/// `count` semaphores.
pub open spec fn index_after(current: int, count: int, steps: nat) -> int
    decreases steps,
{
    if steps == 0 {
        current
    } else {
        next_semaphore_index(index_after(current, count, (steps - 1) as nat), count)
    }
}

/// Starting from a valid index, the semaphore index after `steps`
/// increments is `(current + steps) % count`: it stays below `count`, and
/// after `count` increments it is back where it started.
pub proof fn law_semaphore_index_cycles(current: int, count: int, steps: nat)
    requires
        0 <= current < count,
    ensures
        index_after(current, count, steps) == (current + steps) % count,
        0 <= index_after(current, count, steps) < count,
        index_after(current, count, count as nat) == current,
{
    lemma_index_after_mod(current, count, steps);
    vstd::arithmetic::div_mod::lemma_mod_bound(current + steps, count);
    lemma_full_cycle(current, count);
}

proof fn lemma_full_cycle(current: int, count: int)
    requires
        0 <= current < count,
    ensures
        index_after(current, count, count as nat) == current,
{
    lemma_index_after_mod(current, count, count as nat);
    vstd::arithmetic::div_mod::lemma_mod_add_multiples_vanish(current, count);
    vstd::arithmetic::div_mod::lemma_small_mod(current as nat, count as nat);
}

proof fn lemma_index_after_mod(current: int, count: int, steps: nat)
    requires
        0 <= current < count,
    ensures
        index_after(current, count, steps) == (current + steps) % count,
    decreases steps,
{
    vstd::arithmetic::div_mod::lemma_small_mod(current as nat, count as nat);
    if steps > 0 {
        lemma_index_after_mod(current, count, (steps - 1) as nat);
        let r = index_after(current, count, (steps - 1) as nat);
        vstd::arithmetic::div_mod::lemma_mod_bound(current + steps - 1, count);
        vstd::arithmetic::div_mod::lemma_add_mod_noop(current + steps - 1, 1, count);
        if count > 1 {
            vstd::arithmetic::div_mod::lemma_small_mod(1, count as nat);
        } else {
            vstd::arithmetic::div_mod::lemma_mod_self_0(1);
        }
        if r + 1 >= count {
            vstd::arithmetic::div_mod::lemma_mod_self_0(count);
        } else {
            vstd::arithmetic::div_mod::lemma_small_mod((r + 1) as nat, count as nat);
        }
    }
}

/// The chosen colour format is sRGB whenever the surface supports an sRGB
/// format or reports no list, and it is always one of the listed formats
/// when there is a list.
pub proof fn law_srgb_is_preferred(formats: Option<Seq<Format>>, chosen: Format)
    requires
        chosen_color_format(formats, chosen),
        formats matches Some(fs) ==> fs.len() > 0,
    ensures
        formats matches Some(fs) ==> fs.contains(chosen),
        (formats matches Some(fs) && exists|i: int| 0 <= i < fs.len() && (#[trigger] fs[i]).channel_type
            == ChannelType::Srgb) ==> chosen.channel_type == ChannelType::Srgb,
        formats is None ==> chosen == spec_rgba8_srgb(),
{
    if let Some(fs) = formats {
        if exists|i: int| #[trigger] is_first_srgb(fs, i) && chosen == fs[i] {
            let i = choose|i: int| #[trigger] is_first_srgb(fs, i) && chosen == fs[i];
            assert(fs[i] == chosen);
        } else {
            assert(fs[0] == chosen);
        }
    }
}

} // verus!
