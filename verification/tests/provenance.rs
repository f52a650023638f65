use nimbus::provenance::{
    decode, origin_url, property_list, within_events, DecodeError, PropertyItem, PropertyList,
    MAX_DEPTH, MAX_WORK,
};

#[test]
fn decode_refuses_bytes_that_are_no_property_list() {
    assert!(matches!(decode(b"this is not a property list \x00\xff"), Err(DecodeError::Malformed)));
    assert!(matches!(decode(b"bplist00"), Err(DecodeError::Malformed)));
    assert!(matches!(decode(b"bplist00\x00\x01\x02"), Err(DecodeError::Malformed)));
    assert!(matches!(decode(b""), Err(DecodeError::Malformed)));
    assert!(matches!(decode(&[0xffu8; 64]), Err(DecodeError::Malformed)));
}

#[test]
fn decode_reads_a_binary_array_of_strings() {
    let value = plist::Value::Array(vec![
        plist::Value::String("https://learn.uwaterloo.ca/d2l/le/content/CS246_assignment.pdf".to_string()),
        plist::Value::String("https://learn.uwaterloo.ca/".to_string()),
    ]);
    let mut bytes: Vec<u8> = Vec::new();
    value.to_writer_binary(&mut bytes).unwrap();
    let list = decode(&bytes).unwrap();
    match &list {
        PropertyList::Array(items) => {
            assert_eq!(items.len(), 2);
            assert!(matches!(&items[0], PropertyItem::Text(t) if t == "https://learn.uwaterloo.ca/d2l/le/content/CS246_assignment.pdf"));
            assert!(matches!(&items[1], PropertyItem::Text(t) if t == "https://learn.uwaterloo.ca/"));
        }
        PropertyList::Other => panic!("an array was encoded"),
    }
    assert_eq!(
        origin_url(&list),
        Some("https://learn.uwaterloo.ca/d2l/le/content/CS246_assignment.pdf".to_string())
    );
}

#[test]
fn decode_reads_an_xml_property_list_too() {
    let xml = b"<?xml version=\"1.0\" encoding=\"UTF-8\"?>\n<plist version=\"1.0\"><array><string>https://example.org/a.pdf</string></array></plist>";
    let list = decode(xml).unwrap();
    assert_eq!(origin_url(&list), Some("https://example.org/a.pdf".to_string()));
}

#[test]
fn origin_is_the_first_text_of_the_array() {
    let value = plist::Value::Array(vec![
        plist::Value::Integer(7.into()),
        plist::Value::Boolean(true),
        plist::Value::String("second".to_string()),
        plist::Value::String("third".to_string()),
    ]);
    let list = property_list(&value);
    match &list {
        PropertyList::Array(items) => {
            assert_eq!(items.len(), 4);
            assert!(matches!(items[0], PropertyItem::Other));
            assert!(matches!(items[1], PropertyItem::Other));
        }
        PropertyList::Other => panic!("an array was given"),
    }
    assert_eq!(origin_url(&list), Some("second".to_string()));
}

#[test]
fn a_value_that_is_no_array_records_no_origin() {
    let text = plist::Value::String("https://example.org/".to_string());
    assert!(matches!(property_list(&text), PropertyList::Other));
    assert_eq!(origin_url(&property_list(&text)), None);
    let mut bytes: Vec<u8> = Vec::new();
    text.to_writer_binary(&mut bytes).unwrap();
    let list = decode(&bytes).unwrap();
    assert!(matches!(list, PropertyList::Other));
    assert_eq!(origin_url(&list), None);
}

#[test]
fn an_array_without_text_records_no_origin() {
    assert_eq!(origin_url(&PropertyList::Array(vec![])), None);
    assert_eq!(origin_url(&PropertyList::Array(vec![PropertyItem::Other, PropertyItem::Other])), None);
    assert_eq!(origin_url(&PropertyList::Other), None);
    assert_eq!(
        origin_url(&PropertyList::Array(vec![PropertyItem::Other, PropertyItem::Text("u".to_string())])),
        Some("u".to_string())
    );
}

#[test]
fn decode_takes_a_long_attribute() {
    let url = format!("https://example.org/{}", "a".repeat(100_000));
    let value = plist::Value::Array(vec![
        plist::Value::String(url.clone()),
        plist::Value::String("https://example.org/".to_string()),
    ]);
    let mut bytes: Vec<u8> = Vec::new();
    value.to_writer_binary(&mut bytes).unwrap();
    assert!(bytes.len() > 100_000);
    assert!(within_events(&bytes));
    assert_eq!(origin_url(&decode(&bytes).unwrap()), Some(url));
}

#[test]
fn decode_takes_a_long_flat_array() {
    let mut text = String::from("(");
    for _ in 0..5000 {
        text.push_str("7, ");
    }
    text.push_str("\"https://example.org/last\")");
    assert!(within_events(text.as_bytes()));
    match decode(text.as_bytes()).unwrap() {
        PropertyList::Array(items) => {
            assert_eq!(items.len(), 5001);
            assert!(matches!(&items[5000], PropertyItem::Text(t) if t == "https://example.org/last"));
        }
        PropertyList::Other => panic!("an array was written"),
    }
}

#[test]
fn decode_takes_the_deepest_nesting_within_its_bounds() {
    assert_eq!(MAX_DEPTH, 1024);
    let mut nested = vec![b'('; MAX_DEPTH];
    nested.extend(vec![b')'; MAX_DEPTH]);
    assert!(within_events(&nested));
    let list = decode(&nested).unwrap();
    match &list {
        PropertyList::Array(items) => {
            assert_eq!(items.len(), 1);
            assert!(matches!(items[0], PropertyItem::Other));
        }
        PropertyList::Other => panic!("an array was written"),
    }
    assert_eq!(origin_url(&list), None);
    let mut failing = vec![b'('; MAX_DEPTH];
    failing.extend(vec![b')'; MAX_DEPTH - 1]);
    failing.push(b'(');
    assert!(within_events(&failing));
    assert!(matches!(decode(&failing), Err(DecodeError::Malformed)));
}

#[test]
fn decode_refuses_what_nests_deeper_than_it_decodes() {
    let mut nested = vec![b'('; MAX_DEPTH + 1];
    nested.extend(vec![b')'; MAX_DEPTH + 1]);
    assert!(!within_events(&nested));
    assert!(matches!(decode(&nested), Err(DecodeError::TooLarge)));
    let mut deep = vec![b'('; 4 << 20];
    deep.extend(vec![b')'; 4 << 20]);
    assert!(matches!(decode(&deep), Err(DecodeError::TooLarge)));
    deep.push(b'(');
    assert!(matches!(decode(&deep), Err(DecodeError::TooLarge)));
    let open = vec![b'('; MAX_DEPTH + 1];
    assert!(matches!(decode(&open), Err(DecodeError::TooLarge)));
}

#[test]
fn decode_takes_whatever_refers_to_nothing_twice() {
    assert_eq!(MAX_WORK, 1 << 20);
    let long = format!("(\"{}\")", "a".repeat(MAX_WORK + 5));
    assert!(within_events(long.as_bytes()));
    assert!(decode(long.as_bytes()).is_ok());
    let mut many = String::from("(");
    for _ in 0..MAX_WORK {
        many.push_str("1,");
    }
    many.push(')');
    assert!(within_events(many.as_bytes()));
    match decode(many.as_bytes()).unwrap() {
        PropertyList::Array(items) => assert_eq!(items.len(), MAX_WORK),
        PropertyList::Other => panic!("an array was written"),
    }
}

#[test]
fn decode_refuses_values_that_are_shared_beyond_measure() {
    // A binary list of arrays, each of which holds the next one twice.
    for depth in [8usize, 12, 40, 70] {
        let mut bytes = b"bplist00".to_vec();
        for level in 0..depth {
            bytes.extend([0xA2, level as u8 + 1, level as u8 + 1]);
        }
        bytes.push(0x09);
        let table = bytes.len();
        for object in 0..=depth {
            bytes.push((8 + 3 * object) as u8);
        }
        bytes.extend([0, 0, 0, 0, 0, 0, 1, 1]);
        bytes.extend((depth as u64 + 1).to_be_bytes());
        bytes.extend(0u64.to_be_bytes());
        bytes.extend((table as u64).to_be_bytes());
        if depth <= 12 {
            assert!(within_events(&bytes));
            match decode(&bytes).unwrap() {
                PropertyList::Array(items) => assert_eq!(items.len(), 2),
                PropertyList::Other => panic!("an array was written"),
            }
        } else {
            assert!(!within_events(&bytes));
            assert!(matches!(decode(&bytes), Err(DecodeError::TooLarge)), "depth {}", depth);
        }
    }
}

#[test]
fn decode_refuses_a_text_that_is_shared_beyond_measure() {
    // A binary list of one text of 200 bytes and an array that holds it 10000 times.
    let mut bytes = b"bplist00".to_vec();
    let text_at = bytes.len();
    bytes.extend([0x5F, 0x10, 200]);
    bytes.extend(vec![b'a'; 200]);
    let array_at = bytes.len();
    bytes.extend([0xAF, 0x11, 0x27, 0x10]);
    bytes.extend(vec![0u8; 10000]);
    let table = bytes.len();
    bytes.extend((text_at as u16).to_be_bytes());
    bytes.extend((array_at as u16).to_be_bytes());
    bytes.extend([0, 0, 0, 0, 0, 0, 2, 1]);
    bytes.extend(2u64.to_be_bytes());
    bytes.extend(1u64.to_be_bytes());
    bytes.extend((table as u64).to_be_bytes());
    assert!(!within_events(&bytes));
    assert!(matches!(decode(&bytes), Err(DecodeError::TooLarge)));
}

#[test]
fn within_events_counts_a_failure_as_the_last_event() {
    assert!(within_events(b""));
    assert!(within_events(b"no property list \x00\xff"));
    assert!(within_events(b"(\"a\", \"b\")"));
}

#[test]
fn decode_takes_a_long_address() {
    let url = format!("https://example.org/{}", "a".repeat(4100));
    let value = plist::Value::Array(vec![plist::Value::String(url.clone())]);
    let mut bytes: Vec<u8> = Vec::new();
    value.to_writer_binary(&mut bytes).unwrap();
    assert_eq!(origin_url(&decode(&bytes).unwrap()), Some(url));
}
