use eipscanne_rs::codec::{put_u16_le, put_u32_le, CipCodec};
use eipscanne_rs::error::{CodecError, ErrorKind, Layer};
use eipscanne_rs::scalar::put_u64_le;

#[test]
fn unsigned_scalars_are_little_endian() {
    let mut bytes = Vec::new();
    0xABu8.write(&mut bytes);
    0x1234u16.write(&mut bytes);
    0x89ABCDEFu32.write(&mut bytes);
    0x0102030405060708u64.write(&mut bytes);
    assert_eq!(
        bytes,
        vec![
            0xAB, 0x34, 0x12, 0xEF, 0xCD, 0xAB, 0x89, 0x08, 0x07, 0x06, 0x05, 0x04, 0x03, 0x02,
            0x01,
        ]
    );
    assert_eq!(u8::read(&bytes), Ok((0xAB, 1)));
    assert_eq!(u16::read(&bytes[1..]), Ok((0x1234, 2)));
    assert_eq!(u32::read(&bytes[3..]), Ok((0x89ABCDEF, 4)));
    assert_eq!(u64::read(&bytes[7..]), Ok((0x0102030405060708, 8)));
}

#[test]
fn signed_scalars_are_twos_complement() {
    let mut bytes = Vec::new();
    (-1i8).write(&mut bytes);
    (-2i16).write(&mut bytes);
    (-100i32).write(&mut bytes);
    i64::MIN.write(&mut bytes);
    assert_eq!(
        bytes,
        vec![
            0xFF, 0xFE, 0xFF, 0x9C, 0xFF, 0xFF, 0xFF, 0x00, 0x00, 0x00, 0x00, 0x00, 0x00, 0x00,
            0x80,
        ]
    );
    assert_eq!(i8::read(&bytes), Ok((-1, 1)));
    assert_eq!(i16::read(&bytes[1..]), Ok((-2, 2)));
    assert_eq!(i32::read(&bytes[3..]), Ok((-100, 4)));
    assert_eq!(i64::read(&bytes[7..]), Ok((i64::MIN, 8)));
}

#[test]
fn scalars_survive_a_round_trip_at_their_limits() {
    for value in [i8::MIN, -1, 0, 1, i8::MAX] {
        let mut bytes = Vec::new();
        value.write(&mut bytes);
        assert_eq!(bytes, value.to_le_bytes().to_vec());
        assert_eq!(i8::read(&bytes), Ok((value, 1)));
    }
    for value in [i16::MIN, -1, 0, 1, i16::MAX] {
        let mut bytes = Vec::new();
        value.write(&mut bytes);
        assert_eq!(bytes, value.to_le_bytes().to_vec());
        assert_eq!(i16::read(&bytes), Ok((value, 2)));
    }
    for value in [i32::MIN, -1, 0, 1, i32::MAX] {
        let mut bytes = Vec::new();
        value.write(&mut bytes);
        assert_eq!(bytes, value.to_le_bytes().to_vec());
        assert_eq!(i32::read(&bytes), Ok((value, 4)));
    }
    for value in [i64::MIN, -1, 0, 1, i64::MAX] {
        let mut bytes = Vec::new();
        value.write(&mut bytes);
        assert_eq!(bytes, value.to_le_bytes().to_vec());
        assert_eq!(i64::read(&bytes), Ok((value, 8)));
    }
    for value in [0u64, 1, 0xFFFF_FFFF, 0x1_0000_0000, u64::MAX] {
        let mut bytes = Vec::new();
        value.write(&mut bytes);
        assert_eq!(bytes, value.to_le_bytes().to_vec());
        assert_eq!(u64::read(&bytes), Ok((value, 8)));
    }
    for value in [0u32, 0xFF, 0x100, 0xFFFF, 0x10000, u32::MAX] {
        let mut bytes = Vec::new();
        value.write(&mut bytes);
        assert_eq!(bytes, value.to_le_bytes().to_vec());
        assert_eq!(u32::read(&bytes), Ok((value, 4)));
    }
    for value in [0u16, 0xFF, 0x100, u16::MAX] {
        let mut bytes = Vec::new();
        value.write(&mut bytes);
        assert_eq!(bytes, value.to_le_bytes().to_vec());
        assert_eq!(u16::read(&bytes), Ok((value, 2)));
    }
}

#[test]
fn scalar_that_ends_early_is_a_short_read() {
    let bytes = [0u8; 8];
    let short = CodecError { kind: ErrorKind::ShortRead, layer: Layer::Primitive };
    assert_eq!(u8::read(&bytes[..0]), Err(short));
    assert_eq!(i8::read(&bytes[..0]), Err(short));
    assert_eq!(u16::read(&bytes[..1]), Err(short));
    assert_eq!(i16::read(&bytes[..1]), Err(short));
    assert_eq!(u32::read(&bytes[..3]), Err(short));
    assert_eq!(i32::read(&bytes[..3]), Err(short));
    assert_eq!(u64::read(&bytes[..7]), Err(short));
    assert_eq!(i64::read(&bytes[..7]), Err(short));
}

#[test]
fn writers_append_to_what_is_there() {
    let mut bytes = vec![0xEE];
    put_u16_le(&mut bytes, 0x0102);
    put_u32_le(&mut bytes, 0x03040506);
    put_u64_le(&mut bytes, 0x0708090A0B0C0D0E);
    assert_eq!(
        bytes,
        vec![
            0xEE, 0x02, 0x01, 0x06, 0x05, 0x04, 0x03, 0x0E, 0x0D, 0x0C, 0x0B, 0x0A, 0x09, 0x08,
            0x07,
        ]
    );
    assert_eq!(u16::read(&bytes[1..]), Ok((0x0102, 2)));
    assert_eq!(u32::read(&bytes[3..]), Ok((0x03040506, 4)));
    assert_eq!(u64::read(&bytes[7..]), Ok((0x0708090A0B0C0D0E, 8)));
}

#[test]
fn byte_payload_takes_every_byte() {
    let payload: Vec<u8> = vec![1, 2, 3, 4, 5];
    let mut bytes = vec![0x10];
    payload.write(&mut bytes);
    assert_eq!(bytes, vec![0x10, 1, 2, 3, 4, 5]);
    assert_eq!(Vec::<u8>::read(&bytes[1..]), Ok((payload, 5)));
    assert_eq!(Vec::<u8>::read(&[]), Ok((Vec::new(), 0)));
}

#[test]
fn errors_tell_kind_and_layer() {
    assert_eq!(
        CodecError::short_read(Layer::Assembly),
        CodecError { kind: ErrorKind::ShortRead, layer: Layer::Assembly }
    );
    assert_eq!(
        CodecError::invariant_violation(Layer::MessageRouter),
        CodecError { kind: ErrorKind::InvariantViolation, layer: Layer::MessageRouter }
    );
    assert_eq!(
        CodecError::serialization_overflow(Layer::Encapsulation),
        CodecError { kind: ErrorKind::SerializationOverflow, layer: Layer::Encapsulation }
    );
}
