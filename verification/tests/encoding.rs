//! The byte encodings of field elements, values, inputs and outputs.

use snarkvm_core::bytes::{read_counted, write_counted, DecodeError, LeBytes};
use snarkvm_core::field::{push_u64_bits_le, Field, Group};
use snarkvm_core::program::{
    Ciphertext, Identifier, Plaintext, ProgramID, Record, RecordCiphertext, Value,
};
use snarkvm_core::field::Address;
use snarkvm_core::transition::input::Input;
use snarkvm_core::transition::output::Output;

fn field(v: u64) -> Field {
    Field { l0: v, l1: v.rotate_left(7), l2: !v, l3: v ^ 0x5555 }
}

fn record_ciphertext() -> RecordCiphertext {
    RecordCiphertext {
        owner: field(11),
        gates: field(12),
        data: vec![field(13), field(14)],
        nonce: Group { x: field(15) },
    }
}

/// One output of each kind, with and without its value.
fn sample_outputs() -> Vec<Output> {
    vec![
        Output::Constant(field(0x105), Some(Plaintext { fields: vec![field(1), field(2)] })),
        Output::Constant(field(0x105), None),
        Output::Public(field(0x206), Some(Plaintext { fields: vec![] })),
        Output::Public(field(0x206), None),
        Output::Private(field(0x307), Some(Ciphertext { fields: vec![field(3)] })),
        Output::Private(field(0x307), None),
        Output::Record(field(0x408), field(0x409), Some(record_ciphertext())),
        Output::Record(field(0x408), field(0x409), None),
        Output::ExternalRecord(field(0x50a)),
    ]
}

fn to_bytes<T: LeBytes>(value: &T) -> Vec<u8> {
    let mut out = Vec::new();
    value.write_le(&mut out);
    out
}

#[test]
fn bytes_test_bytes() {
    for expected in sample_outputs() {
        // Check the byte representation.
        let expected_bytes = to_bytes(&expected);
        assert_eq!((expected.clone(), expected_bytes.len()), Output::read_le(&expected_bytes[..], 0).unwrap());
        assert!(Output::read_le(&expected_bytes[1..], 0).is_err());
    }
}

#[test]
fn an_output_is_written_as_its_variant_and_fields() {
    let hash = field(0x105);
    let mut hash_bytes = Vec::new();
    for limb in [hash.l0, hash.l1, hash.l2, hash.l3] {
        hash_bytes.extend(limb.to_le_bytes());
    }
    assert_eq!(to_bytes(&hash), hash_bytes);

    // The variant, the hash, and that no value follows.
    let mut expected = vec![1u8];
    expected.extend(&hash_bytes);
    expected.push(0);
    assert_eq!(to_bytes(&Output::Public(hash, None)), expected);

    // The variant, the hash, that a value follows, its count and its elements.
    let mut expected = vec![2u8];
    expected.extend(&hash_bytes);
    expected.push(1);
    expected.extend([1, 0]);
    expected.extend(&hash_bytes);
    assert_eq!(to_bytes(&Output::Private(hash, Some(Ciphertext { fields: vec![hash] }))), expected);

    let mut expected = vec![4u8];
    expected.extend(&hash_bytes);
    assert_eq!(to_bytes(&Output::ExternalRecord(hash)), expected);

    let mut expected = vec![3u8];
    expected.extend(&hash_bytes);
    expected.extend(&hash_bytes);
    expected.push(0);
    assert_eq!(to_bytes(&Output::Record(hash, hash, None)), expected);
}

#[test]
fn an_output_with_a_variant_of_five_or_more_is_refused() {
    for variant in [5u8, 6, 100, 255] {
        let mut bytes = to_bytes(&Output::ExternalRecord(field(1)));
        bytes[0] = variant;
        assert_eq!(Output::read_le(&bytes, 0), Err(DecodeError::InvalidOutputVariant));
        assert_eq!(Input::read_le(&bytes, 0), Err(DecodeError::InvalidInputVariant));
    }
    assert_eq!(Output::read_le(&[], 0), Err(DecodeError::UnexpectedEnd));
    assert_eq!(Output::read_le(&[0; 33], 0), Err(DecodeError::UnexpectedEnd));
    // A byte that stands for a `bool` must be 0 or 1.
    let mut bytes = vec![0u8; 34];
    bytes[33] = 2;
    assert_eq!(Output::read_le(&bytes, 0), Err(DecodeError::InvalidBool));
}

#[test]
fn an_input_is_read_back_from_its_bytes() {
    let inputs = vec![
        Input::Constant(field(1), Some(Plaintext { fields: vec![field(2)] })),
        Input::Constant(field(1), None),
        Input::Public(field(3), Some(Plaintext { fields: vec![field(4), field(5)] })),
        Input::Private(field(6), Some(Ciphertext { fields: vec![field(7)] })),
        Input::Record(field(8), field(9)),
        Input::ExternalRecord(field(10)),
    ];
    for (variant, expected) in [0u8, 0, 1, 2, 3, 4].into_iter().zip(inputs) {
        let bytes = to_bytes(&expected);
        assert_eq!(bytes[0], variant);
        assert_eq!(expected.variant(), variant);
        assert_eq!(Input::read_le(&bytes, 0), Ok((expected, bytes.len())));
    }
}

#[test]
fn values_are_read_back_from_their_bytes() {
    let record = Record {
        owner: Address { point: Group { x: field(20) } },
        gates: 5,
        data: vec![field(21)],
        nonce: Group { x: field(22) },
    };
    let values = vec![
        Value::Plaintext(Plaintext { fields: vec![field(1), field(2), field(3)] }),
        Value::Record(record.clone()),
    ];
    for expected in &values {
        let bytes = to_bytes(expected);
        assert_eq!(Value::read_le(&bytes, 0), Ok((expected.clone(), bytes.len())));
    }
    let mut bytes = to_bytes(&values[0]);
    bytes[0] = 2;
    assert_eq!(Value::read_le(&bytes, 0), Err(DecodeError::InvalidValueVariant));

    // A list is written after its count, and read from where it starts.
    let mut out = vec![0xff];
    write_counted::<Value>(&values, &mut out);
    assert_eq!(&out[1..3], &[2, 0]);
    assert_eq!(read_counted::<Value>(&out, 1), Ok((values, out.len())));

    let bytes = to_bytes(&record_ciphertext());
    assert_eq!(bytes.len(), 32 + 32 + 2 + 64 + 32);
    assert_eq!(RecordCiphertext::read_le(&bytes, 0), Ok((record_ciphertext(), bytes.len())));

    let id = ProgramID {
        name: Identifier { name: b"token".to_vec() },
        network: Identifier { name: b"aleo".to_vec() },
    };
    assert_eq!(to_bytes(&id), b"\x05token\x04aleo".to_vec());
    assert_eq!(ProgramID::read_le(b"\x05token\x04aleo", 0), Ok((id, 11)));
    assert_eq!(Identifier::read_le(b"\x05toke", 0), Err(DecodeError::UnexpectedEnd));

    assert_eq!(to_bytes(&-2i64), vec![0xfe, 0xff, 0xff, 0xff, 0xff, 0xff, 0xff, 0xff]);
    assert_eq!(i64::read_le(&to_bytes(&i64::MIN), 0), Ok((i64::MIN, 8)));
    assert_eq!(to_bytes(&0x1234u16), vec![0x34, 0x12]);
    assert_eq!(to_bytes(&true), vec![1]);
}

#[test]
fn bits_are_least_significant_first() {
    let mut bits = Vec::new();
    push_u64_bits_le(&mut bits, 0b1011, 6);
    assert_eq!(bits, vec![true, true, false, true, false, false]);

    let mut bits = Vec::new();
    Field { l0: 1, l1: 2, l2: 0, l3: 1 << 63 }.push_bits_le(&mut bits);
    assert_eq!(bits.len(), 256);
    let set: Vec<usize> = (0..256).filter(|i| bits[*i]).collect();
    assert_eq!(set, vec![0, 65, 255]);

    assert_eq!(record_ciphertext().to_bits_le().len(), 5 * 256);
    assert_eq!(Field::from_u16(7), Field { l0: 7, l1: 0, l2: 0, l3: 0 });
    assert_eq!(Field::from_u64(u64::MAX).l0, u64::MAX);
    assert_eq!(Field::zero(), Field::from_u64(0));
}
