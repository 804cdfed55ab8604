use scheduler::codec::stack::{decode, encode, peek, push_encoded, try_decode, try_encode};
use scheduler::codec::{
    decode_datum, encode_datum, from_bytes, read_unsigned_record, to_bytes, unsigned_record,
    CodecError, Datum, Payload,
};
use scheduler::error::Error;
use scheduler::scheduler::Scheduler;
use scheduler::stack::StackError;
use scheduler::tasks::add::{Add, Output};
use scheduler::tasks::mul::{Args, Mul, State};

#[test]
fn a_record_is_written_as_a_map_with_text_keys() {
    // {"result": 15}
    let bytes = to_bytes(&Output { result: 15 }).unwrap();
    assert_eq!(bytes, vec![0xA1, 0x66, b'r', b'e', b's', b'u', b'l', b't', 0x0F]);

    // {"x": 5, "y": 200}
    let bytes = to_bytes(&Args { x: 5, y: 200 }).unwrap();
    assert_eq!(bytes, vec![0xA2, 0x61, b'x', 0x05, 0x61, b'y', 0x18, 200]);
}

#[test]
fn a_task_names_its_kind_first() {
    // {"type": "Add", "x": 1, "y": 2}
    let bytes = to_bytes(&Add::new(1, 2)).unwrap();
    assert_eq!(
        bytes,
        vec![
            0xA3, 0x64, b't', b'y', b'p', b'e', 0x63, b'A', b'd', b'd', 0x61, b'x', 0x01, 0x61,
            b'y', 0x02
        ]
    );
    assert_eq!(
        Mul::P1.to_datum(),
        Datum::Dict(vec![
            (Datum::Text("type".to_string()), Datum::Text("Mul".to_string())),
            (Datum::Text("phase".to_string()), Datum::Integer(1)),
        ])
    );
}

#[test]
fn bytes_decode_to_the_value_they_encode() {
    let state = State { x: 3, y: 4, result: 9, counter: 2 };
    let bytes = to_bytes(&state).unwrap();
    assert_eq!(from_bytes::<State>(&bytes).unwrap(), state);

    let value: Output = from_bytes(&[0xA1, 0x66, b'r', b'e', b's', b'u', b'l', b't', 0x18, 0xFF])
        .unwrap();
    assert_eq!(value.result, 255);
}

#[test]
fn reading_is_strict() {
    // A value out of a byte's range.
    let too_large = [0xA1, 0x66, b'r', b'e', b's', b'u', b'l', b't', 0x19, 0x01, 0x00];
    assert!(matches!(
        from_bytes::<Output>(&too_large),
        Err(CodecError::DeserializationError(_))
    ));
    // Another key.
    let other_key = [0xA1, 0x66, b'r', b'e', b's', b'u', b'l', b'x', 0x01];
    assert!(matches!(
        from_bytes::<Output>(&other_key),
        Err(CodecError::DeserializationError(_))
    ));
    // The record of another type.
    let args = to_bytes(&Args { x: 1, y: 2 }).unwrap();
    assert!(matches!(from_bytes::<State>(&args), Err(CodecError::DeserializationError(_))));
    assert!(matches!(from_bytes::<Add>(&args), Err(CodecError::DeserializationError(_))));
    // A task is told from a value of the same fields by its kind.
    let add = to_bytes(&Add::new(1, 2)).unwrap();
    assert!(matches!(from_bytes::<Args>(&add), Err(CodecError::DeserializationError(_))));
    assert_eq!(from_bytes::<Add>(&add).unwrap(), Add::new(1, 2));
}

#[test]
fn bytes_that_are_no_encoding_are_refused() {
    // Nothing at all, and a text that ends too early.
    assert!(matches!(decode_datum(&[]), Err(CodecError::DeserializationError(_))));
    assert!(matches!(decode_datum(&[0x63, b'a']), Err(CodecError::DeserializationError(_))));
    // A float and a tagged value are outside the data model.
    assert!(matches!(
        decode_datum(&[0xF9, 0x3C, 0x00]),
        Err(CodecError::DeserializationError(_))
    ));
    assert!(matches!(decode_datum(&[0xC1, 0x01]), Err(CodecError::DeserializationError(_))));
}

#[test]
fn every_kind_of_datum_goes_through_the_encoder_and_back() {
    let datum = Datum::Array(vec![
        Datum::Null,
        Datum::Bool(true),
        Datum::Integer(-7),
        Datum::Integer(1_000_000),
        Datum::Bytes(vec![1, 2, 3]),
        Datum::Text("hello".to_string()),
        Datum::Dict(vec![(Datum::Integer(1), Datum::Array(vec![]))]),
    ]);
    let bytes = encode_datum(&datum).unwrap();
    assert_eq!(
        bytes,
        vec![
            0x87, 0xF6, 0xF5, 0x26, 0x1A, 0x00, 0x0F, 0x42, 0x40, 0x43, 1, 2, 3, 0x65, b'h',
            b'e', b'l', b'l', b'o', 0xA1, 0x01, 0x80
        ]
    );
    assert_eq!(decode_datum(&bytes).unwrap(), datum);
}

#[test]
fn decoding_reads_one_value_from_the_front() {
    assert_eq!(decode_datum(&[0x05, 0xFF, 0xFF]).unwrap(), Datum::Integer(5));
}

#[test]
fn datum_fields_are_found_by_place_and_key() {
    let datum = unsigned_record(Some("Kind"), &[("a", 1), ("b", 300)]);
    assert!(datum.is_dict_of(3));
    assert!(!datum.is_dict_of(2));
    assert_eq!(datum.field_at(0, "type"), Some(&Datum::Text("Kind".to_string())));
    assert_eq!(datum.field_at(1, "a"), Some(&Datum::Integer(1)));
    assert_eq!(datum.field_at(1, "b"), None);
    assert_eq!(datum.field_at(3, "a"), None);
    assert_eq!(datum.unsigned_at(2, "b", 300), Some(300));
    assert_eq!(datum.unsigned_at(2, "b", 299), None);
    assert_eq!(datum.unsigned_at(0, "type", 300), None);
    assert_eq!(Datum::unsigned(9), Datum::Integer(9));
    assert_eq!(Datum::text("t"), Datum::Text("t".to_string()));
    assert_eq!(Datum::Null.field_at(0, "a"), None);

    assert_eq!(read_unsigned_record(&datum, Some("Kind"), &["a", "b"], 300), Some(vec![1, 300]));
    assert_eq!(read_unsigned_record(&datum, Some("Kind"), &["a", "b"], 255), None);
    assert_eq!(read_unsigned_record(&datum, Some("Other"), &["a", "b"], 300), None);
    assert_eq!(read_unsigned_record(&datum, None, &["a", "b"], 300), None);
    assert_eq!(read_unsigned_record(&datum, Some("Kind"), &["a"], 300), None);
    assert_eq!(read_unsigned_record(&datum, Some("Kind"), &["b", "a"], 300), None);
    let plain = unsigned_record(None, &[("a", 1)]);
    assert_eq!(read_unsigned_record(&plain, None, &["a"], 1), Some(vec![1]));
    assert_eq!(read_unsigned_record(&plain, Some("Kind"), &[], 1), None);
}

#[test]
fn typed_values_on_the_data_stack() {
    let mut scheduler = Scheduler::new();
    assert!(matches!(peek::<Output>(&scheduler), Err(CodecError::EmptyStack)));
    assert!(matches!(try_decode::<Output>(&mut scheduler), Err(CodecError::EmptyStack)));

    try_encode(&mut scheduler, Output { result: 7 }).unwrap();
    encode(&mut scheduler, Args { x: 1, y: 2 });
    assert_eq!(scheduler.available_capacity(), 4096 - (9 + 1) - (7 + 1));

    // Peeking leaves the value in place.
    assert_eq!(peek::<Args>(&scheduler).unwrap(), Args { x: 1, y: 2 });
    assert_eq!(peek::<Args>(&scheduler).unwrap(), Args { x: 1, y: 2 });

    // A frame of another type stays where it is.
    assert!(matches!(
        try_decode::<Output>(&mut scheduler),
        Err(CodecError::DeserializationError(_))
    ));
    assert_eq!(try_decode::<Args>(&mut scheduler).unwrap(), Args { x: 1, y: 2 });
    assert_eq!(decode::<Output>(&mut scheduler), Output { result: 7 });
    assert_eq!(scheduler.available_capacity(), 4096);
}

#[test]
fn try_encode_reports_a_full_arena() {
    let mut scheduler = Scheduler::new();
    let padding = vec![vec![0u8; 255]; 15];
    push_encoded(&mut scheduler, padding).unwrap();
    push_encoded(&mut scheduler, vec![vec![0u8; 245]]).unwrap();
    // Ten bytes are left, which the frame of {"result": 7} needs exactly.
    assert_eq!(scheduler.available_capacity(), 10);
    try_encode(&mut scheduler, Output { result: 7 }).unwrap();
    assert_eq!(scheduler.available_capacity(), 0);
    assert!(matches!(
        try_encode(&mut scheduler, Output { result: 7 }),
        Err(CodecError::SerializationError(_))
    ));
    assert_eq!(decode::<Output>(&mut scheduler), Output { result: 7 });
}

#[test]
fn push_encoded_stops_at_the_first_refusal() {
    let mut scheduler = Scheduler::new();
    let frames = vec![vec![1u8], vec![2u8; 256], vec![3u8]];
    assert!(matches!(
        push_encoded(&mut scheduler, frames),
        Err(Error::StackCapacity(StackError::DataTooLarge))
    ));
    assert_eq!(scheduler.pop_frame().unwrap(), vec![1u8]);
    assert!(matches!(scheduler.pop_frame(), Err(Error::EmptyStack)));
}
