use todo_kernel::codec::decode_record;
use todo_kernel::codec::decode_request;
use todo_kernel::codec::encode_record;
use todo_kernel::codec::encode_request;
use todo_kernel::codec::read_action;
use todo_kernel::todo::Action;
use todo_kernel::todo::Todo;
use todo_kernel::todo::TodoActions;
use todo_kernel::wire::put_bool;
use todo_kernel::wire::put_i64;
use todo_kernel::wire::put_text;
use todo_kernel::wire::put_u32;
use todo_kernel::wire::read_bool;
use todo_kernel::wire::read_i64;
use todo_kernel::wire::read_text;
use todo_kernel::wire::read_u32;
use todo_kernel::wire::text_is_encodable;
use todo_kernel::wire::DecodeError;

fn sample_record() -> Todo {
    Todo::new("a".to_string(), 1, 2, true, "bc".to_string())
}

fn sample_record_bytes() -> Vec<u8> {
    vec![
        0, 0, 0, 1, 0x61, // title
        0, 0, 0, 0, 0, 0, 0, 1, // created_time
        0, 0, 0, 0, 0, 0, 0, 2, // due_time
        1, // completed
        0, 0, 0, 2, 0x62, 0x63, // owner
    ]
}

#[test]
fn test_ta_into() {
    let t = TodoActions {
        id: 1,
        action: Action::MarkComplete,
        todo: Todo::default(),
        user: "Rayer".to_string(),
    };
    assert!(t.is_valid());

    let output = encode_request(&t);
    let mut hex = String::new();
    for i in &output {
        hex.push_str(&format!("{:02X}", i));
    }
    println!("{}", hex);

    let expected = decode_request(&output).unwrap();
    println!("{:?}", expected);
    assert_eq!(expected, t);
}

#[test]
fn test_str_to_utf8() {
    let message = "Hello Kernel";
    println!("message: {}", message);
    let mut exported = Vec::new();
    put_text(&mut exported, message);
    let mut hex = String::new();
    for byte in &exported[4..] {
        hex.push_str(&format!("{:02X}", byte));
    }
    println!("exported bytes: {}", hex);
    assert_eq!(&exported[4..], message.as_bytes());
    let (message, next) = read_text(&exported, 0).unwrap();
    assert_eq!(message, "Hello Kernel");
    assert_eq!(next, 16);
}

#[test]
fn record_layout_byte_by_byte() {
    assert_eq!(encode_record(&sample_record()), sample_record_bytes());
}

#[test]
fn request_layout_byte_by_byte() {
    let request = TodoActions {
        id: -2,
        action: Action::MarkComplete,
        user: "Rayer".to_string(),
        todo: sample_record(),
    };
    let mut expected = vec![
        0xFF, 0xFF, 0xFF, 0xFF, 0xFF, 0xFF, 0xFF, 0xFE, // id
        3,    // action
        0, 0, 0, 5, 0x52, 0x61, 0x79, 0x65, 0x72, // user
    ];
    expected.extend(sample_record_bytes());
    assert_eq!(encode_request(&request), expected);
}

#[test]
fn default_request_is_thirty_nine_bytes() {
    let t = TodoActions {
        id: 1,
        action: Action::MarkComplete,
        todo: Todo::default(),
        user: "Rayer".to_string(),
    };
    let bytes = encode_request(&t);
    assert_eq!(bytes.len(), 8 + 1 + 4 + 5 + 4 + 8 + 8 + 1 + 4);
    assert_eq!(&bytes[..9], &[0, 0, 0, 0, 0, 0, 0, 1, 3]);
    assert!(bytes[18..].iter().all(|b| *b == 0));
}

#[test]
fn record_round_trip() {
    let records = vec![
        Todo::default(),
        sample_record(),
        Todo::new("Grüße, 世界 🌍".to_string(), i64::MIN, i64::MAX, false, "ålice".to_string()),
        Todo::new(String::new(), -1, 0, true, String::new()),
    ];
    for r in records {
        assert!(r.is_valid());
        assert_eq!(decode_record(&encode_record(&r)), Ok(r));
    }
}

#[test]
fn request_round_trip() {
    for action in [Action::Create, Action::Read, Action::Delete, Action::MarkComplete] {
        for id in [0, 1, -1, 255, 256, i64::MIN, i64::MAX, 0x0102_0304_0506_0708] {
            let request = TodoActions {
                id,
                action,
                user: "bob".to_string(),
                todo: sample_record(),
            };
            assert!(request.is_valid());
            assert_eq!(decode_request(&encode_request(&request)), Ok(request));
        }
    }
}

#[test]
fn trailing_bytes_are_left_unread() {
    let mut bytes = sample_record_bytes();
    bytes.extend([9, 9, 9]);
    assert_eq!(decode_record(&bytes), Ok(sample_record()));
}

#[test]
fn action_discriminants() {
    assert_eq!(read_action(&[0], 0), Ok((Action::Create, 1)));
    assert_eq!(read_action(&[7, 1], 1), Ok((Action::Read, 2)));
    assert_eq!(read_action(&[2], 0), Ok((Action::Delete, 1)));
    assert_eq!(read_action(&[3], 0), Ok((Action::MarkComplete, 1)));
    assert_eq!(read_action(&[4], 0), Err(DecodeError::UnknownAction));
    assert_eq!(read_action(&[0xFF], 0), Err(DecodeError::UnknownAction));
    assert_eq!(read_action(&[], 0), Err(DecodeError::Truncated));
    assert_eq!(read_action(&[0], 1), Err(DecodeError::Truncated));
}

#[test]
fn unknown_action_is_rejected() {
    let request = TodoActions {
        id: 5,
        action: Action::Read,
        user: "bob".to_string(),
        todo: Todo::default(),
    };
    let mut bytes = encode_request(&request);
    bytes[8] = 4;
    assert_eq!(decode_request(&bytes), Err(DecodeError::UnknownAction));
}

#[test]
fn every_proper_prefix_is_truncated() {
    let bytes = sample_record_bytes();
    for cut in 0..bytes.len() {
        assert_eq!(decode_record(&bytes[..cut]), Err(DecodeError::Truncated), "cut at {}", cut);
    }
    let request = TodoActions {
        id: 5,
        action: Action::Create,
        user: "bob".to_string(),
        todo: sample_record(),
    };
    let bytes = encode_request(&request);
    for cut in 0..bytes.len() {
        assert_eq!(decode_request(&bytes[..cut]), Err(DecodeError::Truncated), "cut at {}", cut);
    }
}

#[test]
fn text_longer_than_the_input_is_truncated() {
    assert_eq!(read_text(&[0, 0, 0, 3, 0x61, 0x62], 0), Err(DecodeError::Truncated));
    assert_eq!(read_text(&[0xFF, 0xFF, 0xFF, 0xFF, 0x61], 0), Err(DecodeError::Truncated));
    assert_eq!(read_text(&[0, 0, 0], 0), Err(DecodeError::Truncated));
    assert_eq!(read_text(&[0, 0, 0, 0], 5), Err(DecodeError::Truncated));
}

#[test]
fn invalid_utf8_is_rejected() {
    assert_eq!(read_text(&[0, 0, 0, 1, 0xFF], 0), Err(DecodeError::InvalidUtf8));
    assert_eq!(read_text(&[0, 0, 0, 2, 0xC3, 0x28], 0), Err(DecodeError::InvalidUtf8));
    // an encoded surrogate and an overlong form
    assert_eq!(read_text(&[0, 0, 0, 3, 0xED, 0xA0, 0x80], 0), Err(DecodeError::InvalidUtf8));
    assert_eq!(read_text(&[0, 0, 0, 2, 0xC0, 0x80], 0), Err(DecodeError::InvalidUtf8));
    // beyond the last code point, and a cut-off character
    assert_eq!(read_text(&[0, 0, 0, 4, 0xF4, 0x90, 0x80, 0x80], 0), Err(DecodeError::InvalidUtf8));
    assert_eq!(read_text(&[0, 0, 0, 4, 0xF5, 0x80, 0x80, 0x80], 0), Err(DecodeError::InvalidUtf8));
    assert_eq!(read_text(&[0, 0, 0, 2, 0xE4, 0xB8], 0), Err(DecodeError::InvalidUtf8));
    assert_eq!(read_text(&[0, 0, 0, 4, 0xF4, 0x8F, 0xBF, 0xBF], 0), Ok(("\u{10FFFF}".to_string(), 8)));
    let mut bytes = sample_record_bytes();
    bytes[4] = 0x80;
    assert_eq!(decode_record(&bytes), Err(DecodeError::InvalidUtf8));
}

#[test]
fn text_is_read_where_it_stands() {
    let bytes = [7, 0, 0, 0, 2, 0xC3, 0xA9, 8];
    assert_eq!(read_text(&bytes, 1), Ok(("é".to_string(), 7)));
    assert_eq!(read_text(&[0, 0, 0, 0], 0), Ok((String::new(), 4)));
}

#[test]
fn flag_bytes() {
    assert_eq!(read_bool(&[0], 0), Ok((false, 1)));
    assert_eq!(read_bool(&[1], 0), Ok((true, 1)));
    assert_eq!(read_bool(&[2], 0), Err(DecodeError::InvalidBool));
    assert_eq!(read_bool(&[0xFF], 0), Err(DecodeError::InvalidBool));
    assert_eq!(read_bool(&[], 0), Err(DecodeError::Truncated));
    let mut out = Vec::new();
    put_bool(&mut out, true);
    put_bool(&mut out, false);
    assert_eq!(out, vec![1, 0]);
    let mut bytes = sample_record_bytes();
    bytes[21] = 2;
    assert_eq!(decode_record(&bytes), Err(DecodeError::InvalidBool));
}

#[test]
fn numbers_are_big_endian() {
    let mut out = vec![0xAA];
    put_u32(&mut out, 0x0102_0304);
    assert_eq!(out, vec![0xAA, 1, 2, 3, 4]);
    assert_eq!(read_u32(&out, 1), Ok((0x0102_0304, 5)));
    assert_eq!(read_u32(&out, 2), Err(DecodeError::Truncated));
    assert_eq!(read_u32(&[0xFF, 0xFF, 0xFF, 0xFF], 0), Ok((u32::MAX, 4)));

    for x in [0i64, 1, -1, 256, -256, i64::MIN, i64::MAX, 0x0102_0304_0506_0708] {
        let mut out = Vec::new();
        put_i64(&mut out, x);
        assert_eq!(out, x.to_be_bytes().to_vec());
        assert_eq!(read_i64(&out, 0), Ok((x, 8)));
    }
    assert_eq!(read_i64(&[0; 7], 0), Err(DecodeError::Truncated));
    assert_eq!(read_i64(&[0; 9], 2), Err(DecodeError::Truncated));
    assert_eq!(read_i64(&[0; 9], usize::MAX), Err(DecodeError::Truncated));
}

#[test]
fn numbers_and_texts_agree_with_the_tezos_encoding() {
    for x in [0i64, 1, -1, i64::MIN, i64::MAX, 1_700_000_000] {
        let mut ours = Vec::new();
        put_i64(&mut ours, x);
        let mut theirs = Vec::new();
        tezos_data_encoding::enc::i64(&x, &mut theirs).unwrap();
        assert_eq!(ours, theirs);
    }
    for s in ["", "Rayer", "Grüße, 世界 🌍"] {
        let mut ours = Vec::new();
        put_text(&mut ours, s);
        let mut theirs = Vec::new();
        tezos_data_encoding::enc::string(s, &mut theirs).unwrap();
        assert_eq!(ours, theirs);
        let (rest, text) = tezos_data_encoding::nom::string(&ours).unwrap();
        assert!(rest.is_empty());
        assert_eq!(read_text(&ours, 0), Ok((text, ours.len())));
    }
}

#[test]
fn ordinary_texts_are_encodable() {
    assert!(text_is_encodable(""));
    assert!(text_is_encodable("alice"));
    assert!(Todo::default().is_valid());
}
