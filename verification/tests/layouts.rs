use dozer_recordstore::layout::{add_field_size, adjust_alignment};
use dozer_recordstore::scalar;
use dozer_recordstore::slots::{size, MAX_SLOT};
use dozer_recordstore::FieldType;

#[test]
fn offsets_move_to_the_next_multiple_of_the_alignment() {
    let align = std::mem::align_of::<u64>();
    assert_eq!(adjust_alignment::<u64>(0), 0);
    assert_eq!(adjust_alignment::<u64>(1), align);
    assert_eq!(adjust_alignment::<u64>(align), align);
    assert_eq!(adjust_alignment::<u64>(align + 1), 2 * align);
    assert_eq!(adjust_alignment::<u8>(13), 13);
    assert_eq!(adjust_alignment::<u64>(24), 24);
    assert_eq!(adjust_alignment::<u128>(32), 32);
}

#[test]
fn a_field_is_added_with_its_padding() {
    let mut total = 0;
    add_field_size::<bool>(&mut total);
    assert_eq!(total, 1);
    add_field_size::<u32>(&mut total);
    assert_eq!(total, 8);
    add_field_size::<bool>(&mut total);
    assert_eq!(total, 9);
    add_field_size::<u128>(&mut total);
    let align = std::mem::align_of::<u128>();
    assert_eq!(total, 9_usize.next_multiple_of(align) + 16);
}

/// A span of time with a byte for its unit.
#[allow(dead_code)]
struct Span(std::time::Duration, u8);

#[test]
fn sizes_of_records() {
    assert_eq!(size(&[]), 0);
    assert_eq!(size(&[None, None]), 0);
    assert_eq!(size(&[Some(FieldType::UInt)]), 8);
    assert_eq!(size(&[Some(FieldType::U128)]), 16);
    assert_eq!(size(&[Some(FieldType::Boolean), Some(FieldType::Boolean)]), 2);
    assert_eq!(size(&[Some(FieldType::UInt), None, Some(FieldType::Int)]), 16);
    let align = std::mem::align_of::<u64>();
    assert_eq!(
        size(&[Some(FieldType::Boolean), Some(FieldType::Float)]),
        align + 8
    );
    assert_eq!(size(&[Some(FieldType::Decimal)]), 16);
    assert_eq!(size(&[Some(FieldType::Timestamp)]), 16);
    assert_eq!(size(&[Some(FieldType::Date)]), 4);
    assert_eq!(size(&[Some(FieldType::Point)]), 16);
    let string = std::mem::size_of::<String>();
    let word = std::mem::size_of::<usize>();
    assert_eq!(size(&[Some(FieldType::String)]), string);
    assert_eq!(size(&[Some(FieldType::Text), Some(FieldType::String)]), 2 * string);
    assert_eq!(
        size(&[Some(FieldType::Binary)]),
        std::mem::size_of::<Vec<u8>>()
    );
    assert_eq!(size(&[Some(FieldType::Binary), Some(FieldType::Json)]), string + word);
    assert_eq!(
        size(&[Some(FieldType::Duration)]),
        std::mem::size_of::<Span>()
    );
    if usize::BITS == 64 {
        let fields = [
            Some(FieldType::String),
            Some(FieldType::Int),
            None,
            Some(FieldType::U128),
        ];
        assert_eq!(size(&fields), 48);
    }
    assert_eq!(
        size(&[Some(FieldType::Boolean), Some(FieldType::Timestamp)]),
        20
    );
    let many = vec![Some(FieldType::U128), Some(FieldType::Boolean)].repeat(50);
    assert!(size(&many) <= many.len() * MAX_SLOT);
}

#[test]
fn numbers_are_stored_with_the_low_byte_first() {
    let mut bytes = vec![0xaa; 24];
    let end = scalar::write::<u32>(&mut bytes, 1, 0x0403_0201);
    assert_eq!(end, 8);
    let end = scalar::write::<i64>(&mut bytes, end, -2);
    assert_eq!(end, 16);
    let end = scalar::write::<bool>(&mut bytes, end, true);
    assert_eq!(end, 17);
    assert_eq!(
        bytes,
        vec![
            0xaa, 0xaa, 0xaa, 0xaa, 1, 2, 3, 4, 0xfe, 0xff, 0xff, 0xff, 0xff, 0xff, 0xff, 0xff, 1,
            0xaa, 0xaa, 0xaa, 0xaa, 0xaa, 0xaa, 0xaa,
        ]
    );
    assert_eq!(scalar::read::<u32>(&bytes, 1), (8, 0x0403_0201));
    assert_eq!(scalar::read::<i64>(&bytes, 8), (16, -2));
    assert_eq!(scalar::read::<bool>(&bytes, 16), (17, true));
}

#[test]
fn padding_is_left_as_it_was() {
    let align = std::mem::align_of::<u64>();
    let mut bytes = vec![0x55; align + 9];
    let end = scalar::write::<u64>(&mut bytes, 1, 0);
    assert_eq!(end, align + 8);
    assert_eq!(bytes[..align], vec![0x55; align]);
    assert_eq!(bytes[align..end], [0; 8]);
    assert_eq!(bytes[end], 0x55);
}
