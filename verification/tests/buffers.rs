use serde_arrow::bytecode::DictionaryIndex;
use serde_arrow::error::ErrorKind;
use serde_arrow::interpreter::bit_set::BitSet;
use serde_arrow::interpreter::bitmap::pack_bits;
use serde_arrow::interpreter::buffers::{
    count_at, count_items, end_row, push_to, push_to_all, Buffers, OffsetBuilder,
    MAX_OFFSET_32, MAX_OFFSET_64,
};
use serde_arrow::schema::{GenericDataType, GenericField};
use serde_arrow::structure::{
    sort_ascending, ArrayMapping, BufferCounts, BufferKind, FieldDefinition, NullDefinition,
    StructDefinition,
};

#[test]
fn bit_set_holds_positions() {
    let mut set = BitSet::new();
    assert_eq!(BitSet::MAX, 128);
    assert!(!set.contains(0) && !set.contains(127));
    set.insert(0);
    set.insert(5);
    set.insert(127);
    assert!(set.contains(0) && set.contains(5) && set.contains(127));
    assert!(!set.contains(1) && !set.contains(126) && !set.contains(128));
    set.insert(5);
    assert!(set.contains(5));
    set.clear();
    assert!(!set.contains(0) && !set.contains(5) && !set.contains(127));
}

#[test]
fn offsets_start_at_zero_and_never_decrease() {
    let mut offsets = OffsetBuilder::new();
    assert_eq!(offsets.offsets, vec![0]);
    offsets.inc_current_items(3, MAX_OFFSET_32).unwrap();
    offsets.push_current_items();
    offsets.push_current_items();
    offsets.inc_current_items(2, MAX_OFFSET_32).unwrap();
    offsets.push_current_items();
    assert_eq!(offsets.offsets, vec![0, 3, 3, 5]);
    assert_eq!(offsets.current_items, 5);
    assert!(offsets.offsets.windows(2).all(|pair| pair[0] <= pair[1]));
}

#[test]
fn offsets_stay_within_their_width() {
    assert_eq!(MAX_OFFSET_32, i32::MAX as i64);
    assert_eq!(MAX_OFFSET_64, i64::MAX);
    let mut offsets = OffsetBuilder::new();
    offsets.inc_current_items(i32::MAX as usize, MAX_OFFSET_32).unwrap();
    let error = offsets.inc_current_items(1, MAX_OFFSET_32).unwrap_err();
    assert_eq!(error.kind, ErrorKind::Interpret);
    assert_eq!(offsets.current_items, i32::MAX as i64);
    offsets.inc_current_items(1, MAX_OFFSET_64).unwrap();
    assert_eq!(offsets.current_items, i32::MAX as i64 + 1);
    assert!(offsets.inc_current_items(usize::MAX, MAX_OFFSET_64).is_err());
}

#[test]
fn pools_reject_buffers_they_do_not_have() {
    let mut pool: Vec<Vec<u8>> = vec![vec![], vec![1]];
    push_to(&mut pool, 1, 2).unwrap();
    assert_eq!(pool, vec![vec![], vec![1, 2]]);
    assert!(push_to(&mut pool, 2, 0).is_err());
    assert_eq!(pool, vec![vec![], vec![1, 2]]);
    push_to_all(&mut pool, &vec![0, 1, 0], 9).unwrap();
    assert_eq!(pool, vec![vec![9, 9], vec![1, 2, 9]]);
    assert!(push_to_all(&mut pool, &vec![0, 2], 9).is_err());

    let mut counters = vec![0, usize::MAX];
    count_at(&mut counters, 0).unwrap();
    assert!(count_at(&mut counters, 1).is_err());
    assert!(count_at(&mut counters, 2).is_err());
    assert_eq!(counters, vec![1, usize::MAX]);

    let mut offsets = vec![OffsetBuilder::new()];
    count_items(&mut offsets, 0, 2, MAX_OFFSET_32).unwrap();
    end_row(&mut offsets, 0).unwrap();
    assert_eq!(offsets[0].offsets, vec![0, 2]);
    assert!(count_items(&mut offsets, 1, 2, MAX_OFFSET_32).is_err());
    assert!(end_row(&mut offsets, 1).is_err());
}

#[test]
fn buffers_are_allocated_by_count() {
    let mut counts = BufferCounts::new();
    assert_eq!(counts.num_u8 + counts.num_u64 + counts.num_seen + counts.num_dictionaries, 0);
    assert_eq!(counts.allocate(BufferKind::U8).unwrap(), 0);
    assert_eq!(counts.allocate(BufferKind::U8).unwrap(), 1);
    assert_eq!(counts.allocate(BufferKind::U32Offsets).unwrap(), 0);
    assert_eq!(counts.allocate(BufferKind::Seen).unwrap(), 0);
    assert_eq!(counts.get(BufferKind::U8), 2);
    assert_eq!(counts.get(BufferKind::U64), 0);
    counts.num_u64 = usize::MAX;
    assert_eq!(counts.allocate(BufferKind::U64).unwrap_err().kind, ErrorKind::Compile);
    assert_eq!(counts.num_u64, usize::MAX);
    counts.num_u64 = 0;

    let buffers = Buffers::new(&counts);
    assert_eq!(buffers.u8, vec![Vec::<u8>::new(), vec![]]);
    assert_eq!(buffers.u32_offsets.len(), 1);
    assert_eq!(buffers.u32_offsets[0].offsets, vec![0]);
    assert_eq!(buffers.seen, vec![BitSet::new()]);
    assert!(buffers.u0.is_empty() && buffers.u1.is_empty() && buffers.dictionaries.is_empty());
}

#[test]
fn absent_values_advance_the_buffers_of_the_null_definition() {
    let counts = BufferCounts {
        num_u0: 1,
        num_u1: 2,
        num_u8: 1,
        num_u16: 1,
        num_u32: 1,
        num_u64: 1,
        num_u32_offsets: 1,
        num_u64_offsets: 1,
        num_dictionaries: 0,
        num_seen: 0,
    };
    let mut buffers = Buffers::new(&counts);
    buffers.u8[0].push(7);
    buffers.u32_offsets[0].inc_current_items(4, MAX_OFFSET_32).unwrap();
    let mut null = NullDefinition::new();
    for kind in [
        BufferKind::U0,
        BufferKind::U1,
        BufferKind::U8,
        BufferKind::U16,
        BufferKind::U32,
        BufferKind::U64,
        BufferKind::U32Offsets,
        BufferKind::U64Offsets,
    ] {
        null.push(kind, 0);
    }
    null.push_validity(Some(1));
    null.push_validity(None);
    buffers.apply_null(&null).unwrap();

    assert_eq!(buffers.u0, vec![1]);
    assert_eq!(buffers.u1, vec![vec![false], vec![false]]);
    assert_eq!(buffers.u8, vec![vec![7, 0]]);
    assert_eq!(buffers.u16, vec![vec![0]]);
    assert_eq!(buffers.u32, vec![vec![0]]);
    assert_eq!(buffers.u64, vec![vec![0]]);
    assert_eq!(buffers.u32_offsets[0].offsets, vec![0, 4]);
    assert_eq!(buffers.u64_offsets[0].offsets, vec![0, 0]);

    null.push(BufferKind::U16, 1);
    assert!(buffers.apply_null(&null).is_err());
}

#[test]
fn dictionary_indices_must_fit() {
    let counts = BufferCounts { num_u8: 1, num_u16: 1, ..BufferCounts::new() };
    let mut buffers = Buffers::new(&counts);
    buffers.push_dictionary_index(&DictionaryIndex::U8(0), 255).unwrap();
    assert!(buffers.push_dictionary_index(&DictionaryIndex::U8(0), 256).is_err());
    buffers.push_dictionary_index(&DictionaryIndex::I8(0), 127).unwrap();
    assert!(buffers.push_dictionary_index(&DictionaryIndex::I8(0), 128).is_err());
    buffers.push_dictionary_index(&DictionaryIndex::I16(0), 32767).unwrap();
    assert!(buffers.push_dictionary_index(&DictionaryIndex::I16(0), 32768).is_err());
    assert!(buffers.push_dictionary_index(&DictionaryIndex::U32(0), 0).is_err());
    assert_eq!(buffers.u8[0], vec![255, 127]);
    assert_eq!(buffers.u16[0], vec![32767]);
}

#[test]
fn indices_are_sorted() {
    let mut indices = vec![3, 1, 2, 1, 0];
    sort_ascending(&mut indices);
    assert_eq!(indices, vec![0, 1, 1, 2, 3]);

    let mut null = NullDefinition::new();
    null.u0 = vec![2, 1];
    null.u1 = vec![2, 1];
    null.u64_offsets = vec![5, 3, 4];
    null.sort_indices();
    assert_eq!(null.u0, vec![1, 2]);
    assert_eq!(null.u1, vec![1, 2]);
    assert_eq!(null.u64_offsets, vec![3, 4, 5]);

    let sorted = null.clone();
    null.sort_indices();
    assert_eq!(null, sorted);
}

#[test]
fn struct_definitions_keep_one_field_per_name() {
    let mut definition = StructDefinition::new();
    let first = FieldDefinition { index: 0, jump: 1, null_definition: None };
    let second = FieldDefinition { index: 1, jump: 2, null_definition: Some(3) };
    let third = FieldDefinition { index: 2, jump: 3, null_definition: None };
    definition.insert("a".to_string(), first);
    definition.insert("b".to_string(), second);
    definition.insert("a".to_string(), third);
    assert_eq!(
        definition.fields,
        vec![("a".to_string(), third), ("b".to_string(), second)]
    );
    assert_eq!(definition.get("a"), Some(third));
    assert_eq!(definition.get("c"), None);
    assert_eq!(definition.position("b"), Some(1));
    definition.set_null_definition(&"a".to_string(), Some(7)).unwrap();
    assert_eq!(definition.get("a").unwrap().null_definition, Some(7));
    let error = definition.set_null_definition(&"c".to_string(), None).unwrap_err();
    assert_eq!(error.kind, ErrorKind::Compile);
}

fn field() -> GenericField {
    GenericField::new("f", GenericDataType::U8, true)
}

#[test]
fn null_definitions_list_the_buffers_of_a_mapping() {
    let mut null = NullDefinition::new();
    let mappings = vec![
        ArrayMapping::Null { field: field(), buffer: 0, validity: None },
        ArrayMapping::Bool { field: field(), buffer: 1, validity: Some(2) },
        ArrayMapping::U8 { field: field(), buffer: 3, validity: None },
        ArrayMapping::I8 { field: field(), buffer: 4, validity: None },
        ArrayMapping::F16 { field: field(), buffer: 5, validity: None },
        ArrayMapping::I32 { field: field(), buffer: 6, validity: None },
        ArrayMapping::Date64 { field: field(), buffer: 7, validity: None },
        ArrayMapping::Utf8 { field: field(), buffer: 8, offsets: 9, validity: None },
        ArrayMapping::LargeUtf8 { field: field(), buffer: 10, offsets: 11, validity: Some(12) },
    ];
    null.update_from_array_mapping(&ArrayMapping::Struct {
        field: field(),
        fields: mappings,
        validity: Some(13),
    })
    .unwrap();
    assert_eq!(null.u0, vec![0]);
    assert_eq!(null.u1, vec![1, 2, 12, 13]);
    assert_eq!(null.u8, vec![3, 4]);
    assert_eq!(null.u16, vec![5]);
    assert_eq!(null.u32, vec![6]);
    assert_eq!(null.u64, vec![7]);
    assert_eq!(null.u32_offsets, vec![9]);
    assert_eq!(null.u64_offsets, vec![11]);
}

#[test]
fn null_definitions_do_not_list_items_and_entries() {
    let item = ArrayMapping::U8 { field: field(), buffer: 3, validity: None };
    let mut null = NullDefinition::new();
    null.update_from_array_mapping(&ArrayMapping::LargeList {
        field: field(),
        item: Box::new(item),
        offsets: 1,
        validity: Some(0),
    })
    .unwrap();
    assert_eq!(null.u64_offsets, vec![1]);
    assert_eq!(null.u1, vec![0]);
    assert!(null.u8.is_empty());

    let entries = ArrayMapping::Struct { field: field(), fields: vec![], validity: None };
    let mut null = NullDefinition::new();
    null.update_from_array_mapping(&ArrayMapping::KeyValueMap {
        field: field(),
        offsets: 2,
        validity: None,
        entries: Box::new(entries),
    })
    .unwrap();
    assert_eq!(null.u32_offsets, vec![2]);
    assert!(null.u64_offsets.is_empty());
}

#[test]
fn null_definition_of_a_list_holds_its_offsets_and_its_validity() {
    let item = ArrayMapping::U8 { field: field(), buffer: 3, validity: None };
    let list = ArrayMapping::List {
        field: field(),
        item: Box::new(item),
        offsets: 1,
        validity: Some(0),
    };
    let mut null = NullDefinition::new();
    null.update_from_array_mapping(&list).unwrap();
    assert_eq!(null.u32_offsets, vec![1]);
    assert_eq!(null.u1, vec![0]);
    assert!(null.u8.is_empty());
    assert!(null.u64_offsets.is_empty());
}

#[test]
fn null_definitions_reject_columns_that_cannot_be_absent() {
    let union = ArrayMapping::Union { field: field(), fields: vec![], types: 0 };
    let mut null = NullDefinition::new();
    assert_eq!(null.update_from_array_mapping(&union).unwrap_err().kind, ErrorKind::Compile);

    let union = ArrayMapping::Union { field: field(), fields: vec![], types: 0 };
    let nested = ArrayMapping::Struct { field: field(), fields: vec![union], validity: None };
    let mut null = NullDefinition::new();
    assert!(null.update_from_array_mapping(&nested).is_err());
}

#[test]
fn bitmaps_are_packed_with_the_first_flag_in_the_lowest_bit() {
    assert_eq!(pack_bits(&vec![]), Vec::<u8>::new());
    assert_eq!(pack_bits(&vec![true, false, true, true, false]), vec![0b0_1101]);
    assert_eq!(pack_bits(&vec![false; 8]), vec![0]);
    assert_eq!(pack_bits(&vec![true; 8]), vec![0xff]);
    let mut bits = vec![false; 9];
    bits[8] = true;
    bits[1] = true;
    assert_eq!(pack_bits(&bits), vec![0b10, 0b1]);
    let bits: Vec<bool> = (0..21).map(|idx| idx % 3 == 0).collect();
    let packed = pack_bits(&bits);
    assert_eq!(packed.len(), 3);
    let ones: u32 = packed.iter().map(|byte| byte.count_ones()).sum();
    assert_eq!(ones as usize, bits.iter().filter(|bit| **bit).count());
    for (idx, bit) in bits.iter().enumerate() {
        assert_eq!((packed[idx / 8] >> (idx % 8)) & 1 == 1, *bit);
    }
}
