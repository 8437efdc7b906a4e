use gem::memory::{
    find_memory_type, select_adapter, AdapterState, Limits,
    MemoryType, MemoryTypeId, Properties, Requirements,
};
use gem::staging::{
    buffer_size_for_chunks, buffer_size_for_items, chunk_size_align_to_size, fill_buffer,
    fill_buffer_with_alignment, item_count_in_buffer, texture_staging_layout,
};

fn memory_type(bits: u16, heap_index: usize) -> MemoryType {
    MemoryType { properties: Properties { bits }, heap_index }
}

fn sample_adapter() -> AdapterState<&'static str> {
    AdapterState::new_from_adapter(
        "adapter",
        vec![memory_type(0x1, 0), memory_type(0x4 | 0x2, 1), memory_type(0x4, 1)],
        Limits { min_buffer_copy_pitch_alignment: 4 },
    )
}

#[test]
fn properties_contains_checks_every_flag() {
    let visible_coherent = Properties { bits: 0x6 };
    assert!(visible_coherent.contains(Properties::cpu_visible()));
    assert!(visible_coherent.contains(Properties::coherent()));
    assert!(!visible_coherent.contains(Properties::device_local()));
    assert!(!Properties::cpu_visible().contains(visible_coherent));
}

#[test]
fn choose_memory_type_picks_first_suitable_type() {
    let adapter = sample_adapter();
    let req = Requirements { size: 256, alignment: 16, type_mask: 0b111 };
    let id = adapter.choose_memory_type_from_memory_requirement(req, Properties::cpu_visible());
    assert_eq!(id, MemoryTypeId(1));
    let id = adapter.choose_memory_type_from_memory_requirement(req, Properties::device_local());
    assert_eq!(id, MemoryTypeId(0));
}

#[test]
fn choose_memory_type_respects_type_mask() {
    let adapter = sample_adapter();
    let req = Requirements { size: 256, alignment: 16, type_mask: 0b100 };
    let id = adapter.choose_memory_type_from_memory_requirement(req, Properties::cpu_visible());
    assert_eq!(id, MemoryTypeId(2));
    assert_eq!(find_memory_type(&adapter.memory_types, 0b100, Properties::cpu_visible()), Some(MemoryTypeId(2)));
}

#[test]
fn find_memory_type_reports_missing_type() {
    let adapter = sample_adapter();
    assert_eq!(find_memory_type(&adapter.memory_types, 0b001, Properties::cpu_visible()), None);
    assert_eq!(find_memory_type(&adapter.memory_types, 0b110, Properties::coherent()), Some(MemoryTypeId(1)));
    assert_eq!(find_memory_type(&Vec::new(), u64::MAX, Properties { bits: 0 }), None);
}

#[test]
fn select_adapter_takes_the_first() {
    let mut adapters = vec!["first", "second", "third"];
    let chosen = select_adapter(&mut adapters);
    assert_eq!(chosen, "first");
    assert_eq!(adapters, vec!["second", "third"]);
}

#[test]
fn new_from_adapter_keeps_what_it_is_given() {
    let adapter = sample_adapter();
    assert_eq!(adapter.adapter, "adapter");
    assert_eq!(adapter.memory_types.len(), 3);
    assert_eq!(adapter.limits.min_buffer_copy_pitch_alignment, 4);
}

#[test]
fn buffer_size_is_item_count_times_stride() {
    assert_eq!(buffer_size_for_items::<u32>(10), 40);
    assert_eq!(buffer_size_for_items::<[f32; 11]>(3), 132);
    assert_eq!(buffer_size_for_items::<u8>(0), 0);
}

#[test]
fn chunk_size_is_rounded_up_to_alignment() {
    assert_eq!(chunk_size_align_to_size::<u8>(5, 4), 8);
    assert_eq!(chunk_size_align_to_size::<u8>(8, 4), 8);
    assert_eq!(chunk_size_align_to_size::<u32>(3, 256), 256);
    assert_eq!(chunk_size_align_to_size::<u8>(7, 1), 7);
    assert_eq!(chunk_size_align_to_size::<u8>(0, 64), 0);
}

#[test]
fn buffer_size_for_chunks_multiplies_in_64_bits() {
    assert_eq!(buffer_size_for_chunks(3, 8), 24);
    assert_eq!(buffer_size_for_chunks(u32::MAX, u32::MAX), (u32::MAX as u64) * (u32::MAX as u64));
}

#[test]
fn fill_buffer_writes_prefix_only() {
    let mut dest = vec![9u8; 6];
    fill_buffer(&mut dest, &[1, 2, 3]);
    assert_eq!(dest, vec![1, 2, 3, 9, 9, 9]);
    let mut whole = vec![0u32; 2];
    fill_buffer(&mut whole, &[7, 8]);
    assert_eq!(whole, vec![7, 8]);
}

#[test]
fn fill_buffer_with_alignment_puts_rows_at_pitch() {
    let mut dest = vec![0u8; 8];
    fill_buffer_with_alignment(&mut dest, &[1, 2, 3, 4, 5, 6], 2, 3, 4);
    assert_eq!(dest, vec![1, 2, 3, 0, 4, 5, 6, 0]);
}

#[test]
fn fill_buffer_with_alignment_leaves_gaps_untouched() {
    let mut dest = vec![7u8; 10];
    fill_buffer_with_alignment(&mut dest, &[1, 2, 3, 4], 2, 2, 5);
    assert_eq!(dest, vec![1, 2, 7, 7, 7, 3, 4, 7, 7, 7]);
    let mut untouched = vec![5u8; 3];
    fill_buffer_with_alignment(&mut untouched, &[], 0, 4, 8);
    assert_eq!(untouched, vec![5, 5, 5]);
}

#[test]
fn texture_staging_layout_aligns_rows() {
    let limits = Limits { min_buffer_copy_pitch_alignment: 8 };
    assert_eq!(texture_staging_layout(3, 2, &limits), (16, 32));
    let limits = Limits { min_buffer_copy_pitch_alignment: 1 };
    assert_eq!(texture_staging_layout(5, 4, &limits), (20, 80));
    let limits = Limits { min_buffer_copy_pitch_alignment: 256 };
    assert_eq!(texture_staging_layout(64, 1, &limits), (256, 256));
}

#[test]
fn item_count_in_buffer_divides_by_stride() {
    assert_eq!(item_count_in_buffer::<[f32; 11]>(88), 2);
    assert_eq!(item_count_in_buffer::<[f32; 11]>(87), 1);
    assert_eq!(item_count_in_buffer::<u8>(u64::MAX), u32::MAX);
}
