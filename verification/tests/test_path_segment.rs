use eipscanne_rs::cip::path::{
    CipFullPath, CipPath, CipPathBits, CipShortPath, LogicalFullPathSegment,
    LogicalFullPathSegmentBits, LogicalPathSegment, LogicalPathSegmentBits, LogicalSegmentFormat,
    LogicalSegmentType, SegmentType,
};
use eipscanne_rs::cip::types::CipByte;
use eipscanne_rs::codec::CipCodec;
use eipscanne_rs::error::{ErrorKind, Layer};

#[test]
fn test_serialize_path_segment() {
    let sample_path_segment_bits = LogicalPathSegmentBits::new(
        LogicalSegmentFormat::FormatAsU16,
        LogicalSegmentType::ClassId,
        SegmentType::LogicalSegment,
        0x0,
        0x01,
    );

    let expected_bytes = vec![0x21, 0x0, 0x01, 0x0];

    let logical_path_segment = LogicalPathSegment::from(sample_path_segment_bits);

    let mut sample_path_bytes: Vec<u8> = Vec::new();
    logical_path_segment.write(&mut sample_path_bytes);

    assert_eq!(expected_bytes, sample_path_bytes);
}

#[test]
fn test_deserialize_path_segment() {
    let raw_bytes = vec![0x21, 0x00, 0x04, 0x00];

    let (deserialized_path, consumed) = LogicalPathSegment::read(&raw_bytes).unwrap();
    let path_definition = LogicalPathSegmentBits::from(deserialized_path);

    assert_eq!(consumed, 4);
    assert_eq!(path_definition.segment_type, SegmentType::LogicalSegment);
    assert_eq!(path_definition.logical_segment_type, LogicalSegmentType::ClassId);
    assert_eq!(path_definition.logical_segment_format, LogicalSegmentFormat::FormatAsU16);
    assert_eq!(path_definition.data, 0x04);
}

#[test]
fn test_serialize_cip_path() {
    let expected_byte_array: Vec<CipByte> = vec![0x21, 0x00, 0x01, 0x00, 0x25, 0x00, 0x01, 0x00];

    let cip_path = CipPath::new(0x1, 0x1);

    let mut cip_path_bytes: Vec<u8> = Vec::new();
    cip_path.write(&mut cip_path_bytes);

    assert_eq!(expected_byte_array, cip_path_bytes);
}

#[test]
fn test_serialize_cip_full_path() {
    let expected_byte_array: Vec<CipByte> = vec![0x20, 0x04, 0x24, 0x96, 0x30, 0x03];

    let cip_full_path = CipPath::new_full(0x4, 0x96, 0x3);

    let mut cip_full_path_bytes: Vec<u8> = Vec::new();
    cip_full_path.write(&mut cip_full_path_bytes);

    assert_eq!(expected_byte_array, cip_full_path_bytes);
}

#[test]
fn test_deserialize_cip_path() {
    let raw_bytes: Vec<CipByte> = vec![0x21, 0x00, 0x01, 0x00, 0x25, 0x00, 0x01, 0x00];

    let (cip_path, consumed) = CipPath::read(&raw_bytes).unwrap();
    assert_eq!(consumed, 8);

    let short_path = match cip_path {
        CipPath::Short(path) => path,
        CipPath::Full(_) => panic!("a path of 16-bit segments is a short path"),
    };
    let path_bits = CipPathBits::from(short_path);

    assert_eq!(path_bits.class_id_segment.data, 0x1);
    assert_eq!(path_bits.class_id_segment.logical_segment_type, LogicalSegmentType::ClassId);
    assert_eq!(path_bits.instance_id_segment.data, 0x1);
    assert_eq!(
        path_bits.instance_id_segment.logical_segment_type,
        LogicalSegmentType::InstanceId
    );
}

#[test]
fn test_deserialize_unknown_cip_path() {
    let raw_bytes: Vec<CipByte> = vec![0b10011001, 0x00, 0x01, 0x00, 0x25, 0x00, 0x01, 0x00];

    let (cip_path, _) = CipPath::read(&raw_bytes).unwrap();

    let short_path = match cip_path {
        CipPath::Short(path) => path,
        CipPath::Full(_) => panic!("a path of 16-bit segments is a short path"),
    };
    let path_bits = CipPathBits::from(short_path);

    assert_eq!(path_bits.class_id_segment.segment_type, SegmentType::Unknown(0x4));

    assert_eq!(path_bits.class_id_segment.data, 0x1);
    assert_eq!(
        path_bits.class_id_segment.logical_segment_type,
        LogicalSegmentType::Unknown(0x6)
    );
    assert_eq!(path_bits.instance_id_segment.data, 0x1);
    assert_eq!(
        path_bits.instance_id_segment.logical_segment_type,
        LogicalSegmentType::InstanceId
    );
}

#[test]
fn test_path_byte_size() {
    let cip_path = CipPath::new(0x1, 0x1);

    let mut cip_path_buffer = Vec::new();
    cip_path.write(&mut cip_path_buffer);

    assert_eq!(8, cip_path_buffer.len());
    assert_eq!(8, cip_path.byte_size());
}

#[test]
fn test_full_path_byte_size() {
    let full_cip_path = CipPath::new_full(0x1, 0x1, 0x5);

    let mut full_cip_path_buffer = Vec::new();
    full_cip_path.write(&mut full_cip_path_buffer);

    assert_eq!(6, full_cip_path_buffer.len());
    assert_eq!(6, full_cip_path.byte_size());
}

#[test]
fn short_path_survives_a_round_trip() {
    let cases = [(0x1u16, 0x1u16), (0x0, 0x0), (0xFFFF, 0xFFFF), (0x1234, 0xABCD)];
    for (class_id, instance_id) in cases {
        let path = CipPath::new(class_id, instance_id);
        let mut bytes = Vec::new();
        path.write(&mut bytes);
        assert_eq!(CipPath::read(&bytes), Ok((path, 8)));
    }
}

#[test]
fn full_path_survives_a_round_trip() {
    for (class_id, instance_id, attribute_id) in
        [(0x4u8, 0x70u8, 0x3u8), (0, 0, 0), (0xFF, 0xFF, 0xFF), (0x1, 0x1, 0x5)]
    {
        let path = CipPath::new_full(class_id, instance_id, attribute_id);
        let mut bytes = Vec::new();
        path.write(&mut bytes);
        assert_eq!(CipPath::read(&bytes), Ok((path, 6)));
    }
}

#[test]
fn short_path_has_sixteen_bit_data_in_little_endian() {
    let mut bytes = Vec::new();
    CipPath::new(0x1234, 0xABCD).write(&mut bytes);
    assert_eq!(bytes, vec![0x21, 0x00, 0x34, 0x12, 0x25, 0x00, 0xCD, 0xAB]);
}

#[test]
fn every_wide_segment_pattern_is_reproduced() {
    let patterns: [[u8; 4]; 6] = [
        [0x00, 0x00, 0x00, 0x00],
        [0xFF, 0xFF, 0xFF, 0xFF],
        [0b10011001, 0x00, 0x01, 0x00],
        [0x21, 0x7E, 0x34, 0x12],
        [0b11100011, 0x01, 0x02, 0x03],
        [0b01001110, 0x80, 0x00, 0x80],
    ];
    for pattern in patterns {
        let (segment, consumed) = LogicalPathSegment::read(&pattern).unwrap();
        assert_eq!(consumed, 4);
        let fields = LogicalPathSegmentBits::from(segment);
        let repacked = LogicalPathSegment::from(fields);
        let mut written = Vec::new();
        repacked.write(&mut written);
        assert_eq!(written, pattern.to_vec());
    }
}

#[test]
fn every_narrow_segment_head_is_reproduced() {
    for head in 0u16..=255 {
        for data in [0x00u16, 0x5A, 0xFF] {
            let value = head + 256 * data;
            let fields = LogicalFullPathSegmentBits::unpack(value);
            assert_eq!(fields.pack(), value);
            assert_eq!(LogicalFullPathSegmentBits::unpack(fields.pack()), fields);
        }
    }
}

#[test]
fn every_wide_segment_head_is_reproduced() {
    for head in 0u32..=255 {
        let value = head + 256 * 0xA5 + 65536 * 0xBEEF;
        let fields = LogicalPathSegmentBits::unpack(value);
        assert_eq!(fields.padded_bytes, 0xA5);
        assert_eq!(fields.data, 0xBEEF);
        assert_eq!(fields.pack(), value);
    }
}

#[test]
fn unknown_codes_are_kept_apart_from_named_ones() {
    assert_eq!(SegmentType::from_bits(1), SegmentType::LogicalSegment);
    assert_eq!(SegmentType::from_bits(0), SegmentType::Unknown(0));
    assert_eq!(SegmentType::from_bits(7), SegmentType::Unknown(7));
    assert_eq!(SegmentType::from_bits(9), SegmentType::LogicalSegment);
    assert_eq!(LogicalSegmentType::from_bits(0), LogicalSegmentType::ClassId);
    assert_eq!(LogicalSegmentType::from_bits(1), LogicalSegmentType::InstanceId);
    assert_eq!(LogicalSegmentType::from_bits(4), LogicalSegmentType::AttributeId);
    assert_eq!(LogicalSegmentType::from_bits(2), LogicalSegmentType::Unknown(2));
    assert_eq!(LogicalSegmentFormat::from_bits(0), LogicalSegmentFormat::FormatAsU8);
    assert_eq!(LogicalSegmentFormat::from_bits(1), LogicalSegmentFormat::FormatAsU16);
    assert_eq!(LogicalSegmentFormat::from_bits(3), LogicalSegmentFormat::Unknown(3));
    assert_eq!(SegmentType::Unknown(5).bits(), 5);
    assert_eq!(LogicalSegmentType::AttributeId.bits(), 4);
    assert_eq!(LogicalSegmentFormat::Unknown(2).bits(), 2);
}

#[test]
fn narrow_segment_packs_data_above_the_head() {
    let fields = LogicalFullPathSegmentBits::new(
        LogicalSegmentFormat::FormatAsU8,
        LogicalSegmentType::AttributeId,
        SegmentType::LogicalSegment,
        0x03,
    );
    assert_eq!(fields.pack(), 0x0330);
    let segment = LogicalFullPathSegment::from(fields);
    let mut bytes = Vec::new();
    segment.write(&mut bytes);
    assert_eq!(bytes, vec![0x30, 0x03]);
    assert_eq!(LogicalFullPathSegment::read(&bytes), Ok((segment, 2)));
    assert_eq!(LogicalFullPathSegmentBits::from(segment), fields);
}

#[test]
fn path_constructors_agree_with_their_segments() {
    assert_eq!(CipPath::new(7, 9), CipPath::Short(CipShortPath::new(7, 9)));
    assert_eq!(CipPath::new_full(7, 9, 11), CipPath::Full(CipFullPath::new(7, 9, 11)));
    let short = CipShortPath::new(7, 9);
    assert_eq!(CipShortPath::from(CipPathBits::from(short)), short);
}

#[test]
fn a_path_that_ends_early_is_a_short_read() {
    let no_bytes: Vec<u8> = Vec::new();
    let error = CipPath::read(&no_bytes).unwrap_err();
    assert_eq!(error.kind, ErrorKind::ShortRead);
    assert_eq!(error.layer, Layer::Primitive);

    let short_cut = vec![0x21, 0x00, 0x01, 0x00, 0x25, 0x00, 0x01];
    assert_eq!(CipPath::read(&short_cut).unwrap_err().kind, ErrorKind::ShortRead);

    let full_cut = vec![0x20, 0x04, 0x24, 0x70, 0x30];
    assert_eq!(CipPath::read(&full_cut).unwrap_err().kind, ErrorKind::ShortRead);

    let segment_cut = vec![0x21, 0x00, 0x01];
    assert_eq!(LogicalPathSegment::read(&segment_cut).unwrap_err().kind, ErrorKind::ShortRead);
}

#[test]
fn a_path_reader_leaves_what_follows() {
    let bytes = vec![0x20, 0x04, 0x24, 0x70, 0x30, 0x03, 0xAA, 0xBB, 0xCC];
    assert_eq!(CipPath::read(&bytes), Ok((CipPath::new_full(0x4, 0x70, 0x3), 6)));
}
