use feco3::header::{parse_header_line, UNIT_SEPARATOR_MAJOR};
use feco3::line::{decode_fields, parse};
use feco3::value::{is_float, parse_boolean, parse_integer, parse_raw_field_val};
use feco3::tokenizer::{split_bytes, split_record, strip_line};
use feco3::{
    ByteSource,
    FieldSchema, HeaderParseError, LineSchema, MemorySource, Parser, RecordError,
    SchemaRegistry, Separator, Value, ValueType,
};

#[test]
fn integers() {
    assert_eq!(parse_integer(b"0"), Some(0));
    assert_eq!(parse_integer(b"+12"), Some(12));
    assert_eq!(parse_integer(b"-12"), Some(-12));
    assert_eq!(parse_integer(b"9223372036854775807"), Some(i64::MAX));
    assert_eq!(parse_integer(b"-9223372036854775808"), Some(i64::MIN));
    assert_eq!(parse_integer(b"9223372036854775808"), None);
    assert_eq!(parse_integer(b"-9223372036854775809"), None);
    assert_eq!(parse_integer(b"99999999999999999999999"), None);
    assert_eq!(parse_integer(b""), None);
    assert_eq!(parse_integer(b"-"), None);
    assert_eq!(parse_integer(b"1.5"), None);
    assert_eq!(parse_integer(b" 1"), None);
}

#[test]
fn floats() {
    for ok in ["1", "1.5", ".5", "3.", "-2.5e10", "1E-3", "+inf", "Infinity", "NaN", "-nan"] {
        assert!(is_float(ok.as_bytes()), "{}", ok);
        assert!(ok.parse::<f64>().is_ok(), "{}", ok);
    }
    for bad in ["", ".", "e5", "1e", "1.2.3", "abc", "1,5", "--1", "infinit"] {
        assert!(!is_float(bad.as_bytes()), "{}", bad);
        assert!(bad.parse::<f64>().is_err(), "{}", bad);
    }
}

#[test]
fn booleans() {
    assert_eq!(parse_boolean(b"true"), Some(true));
    assert_eq!(parse_boolean(b"false"), Some(false));
    assert_eq!(parse_boolean(b"True"), None);
    assert_eq!(parse_boolean(b"1"), None);
}

#[test]
fn field_coercion() {
    let int = FieldSchema::new("n", ValueType::Integer);
    let date = FieldSchema::new("d", ValueType::Date);
    let float = FieldSchema::new("f", ValueType::Float);
    assert!(matches!(parse_raw_field_val(b"7", Some(&int)), Some(Value::Integer(7))));
    assert!(parse_raw_field_val(b"seven", Some(&int)).is_none());
    assert!(matches!(parse_raw_field_val(b"20230101", Some(&date)), Some(Value::Date(s)) if s == "20230101"));
    assert!(matches!(parse_raw_field_val(b"2.5", Some(&float)), Some(Value::Float(s)) if s == "2.5"));
    assert!(parse_raw_field_val(b"2,5", Some(&float)).is_none());
    // Beyond the layout, a field is text whatever it holds.
    assert!(matches!(parse_raw_field_val(b"7", None), Some(Value::String(s)) if s == "7"));
}

#[test]
fn lossy_text_fields() {
    let text = FieldSchema::new("t", ValueType::String);
    match parse_raw_field_val(b"caf\xe9", Some(&text)) {
        Some(Value::String(s)) => assert_eq!(s, "caf\u{fffd}"),
        other => panic!("{:?}", other),
    }
}

#[test]
fn splitting() {
    assert_eq!(split_bytes(b"a,,b", b','), vec![b"a".to_vec(), vec![], b"b".to_vec()]);
    assert_eq!(split_bytes(b"", b','), vec![Vec::<u8>::new()]);
    assert_eq!(split_bytes(b"a,b,", b','), vec![b"a".to_vec(), b"b".to_vec(), vec![]]);
    assert_eq!(strip_line(b"ab\r\n"), b"ab");
    assert_eq!(strip_line(b"ab\n"), b"ab");
    assert_eq!(strip_line(b"ab"), b"ab");
}

#[test]
fn header_dialects() {
    let old = parse_header_line(b"HDR,FEC,5.00,Soft\n", UNIT_SEPARATOR_MAJOR).unwrap();
    assert_eq!(old.sep, Separator::Comma);
    assert_eq!(old.header.fec_version, "5.00");
    assert_eq!(old.header.software_version, None);
    let new = parse_header_line(b"HDR\x1cFEC\x1c6.1\x1cSoft\x1c\x1cR1\n", UNIT_SEPARATOR_MAJOR).unwrap();
    assert_eq!(new.sep, Separator::UnitSeparator);
    assert_eq!(new.header.software_version, None);
    assert_eq!(new.header.report_id.as_deref(), Some("R1"));
    let high = parse_header_line(b"HDR,FEC,12,Soft", UNIT_SEPARATOR_MAJOR).unwrap();
    assert_eq!(high.sep, Separator::UnitSeparator);
}

#[test]
fn header_shapes() {
    assert!(matches!(parse_header_line(b"HDR,FEC,5.0", UNIT_SEPARATOR_MAJOR), Err(HeaderParseError::Malformed)));
    assert!(matches!(parse_header_line(b"HDR;FEC;5.0;Soft", UNIT_SEPARATOR_MAJOR), Err(HeaderParseError::Malformed)));
    assert!(matches!(parse_header_line(b"HDR,FEC,5.0,a,b,c,d,e", UNIT_SEPARATOR_MAJOR), Err(HeaderParseError::Malformed)));
    assert!(matches!(parse_header_line(b"HDR,FEC,5.,Soft", UNIT_SEPARATOR_MAJOR), Err(HeaderParseError::UnknownVersion)));
    assert!(matches!(parse_header_line(b"HDR,FEC,1.2.3,Soft", UNIT_SEPARATOR_MAJOR), Err(HeaderParseError::UnknownVersion)));
}

#[test]
fn decode_against_layout() {
    let schema = LineSchema::new(
        "SA",
        vec![FieldSchema::new("a", ValueType::Integer), FieldSchema::new("b", ValueType::Boolean)],
    );
    let raw = vec![b"SA".to_vec(), b"3".to_vec(), b"maybe".to_vec()];
    assert_eq!(decode_fields(&raw, &schema).err(), Some(2));
    let raw = vec![b"SA".to_vec(), b"3".to_vec(), b"true".to_vec(), b"x".to_vec()];
    let line = decode_fields(&raw, &schema).unwrap();
    assert!(matches!(line.values[2], Value::Boolean(true)));
    assert!(matches!(&line.values[3], Value::String(s) if s == "x"));
    assert!(line.schema == LineSchema::new("SA", vec![]));
}

#[test]
fn parse_lookup() {
    let mut reg = SchemaRegistry::new();
    reg.add("8.3", LineSchema::new("SA", vec![FieldSchema::new("a", ValueType::Integer)]));
    reg.add("8.3", LineSchema::new("SA", vec![FieldSchema::new("a", ValueType::String)]));
    let v = "8.3".to_string();
    let line = parse(&v, &vec![b"SA".to_vec(), b"5".to_vec()], &reg).unwrap();
    assert!(matches!(line.values[1], Value::Integer(5)));
    assert!(matches!(parse(&v, &vec![], &reg), Err(RecordError::Empty)));
    assert!(matches!(
        parse(&"8.2".to_string(), &vec![b"SA".to_vec()], &reg),
        Err(RecordError::Schema { .. })
    ));
    assert!(reg.lookup(&v, &"SB".to_string()).is_none());
}

#[test]
fn parser_without_cover() {
    let mut reg = SchemaRegistry::new();
    reg.add("5.0", LineSchema::new("A", vec![FieldSchema::new("n", ValueType::Integer)]));
    let src = MemorySource::new(b"HDR,FEC,5.0,Soft\nA,1\nA,2\n".to_vec());
    let mut p = Parser::from_reader(src, reg, UNIT_SEPARATOR_MAJOR);
    assert_eq!(p.parse_header().unwrap().software_name, "Soft");
    assert!(matches!(p.next_line(), Ok(Some(Ok(l))) if matches!(l.values[1], Value::Integer(1))));
    assert!(matches!(p.next_line(), Ok(Some(Ok(l))) if matches!(l.values[1], Value::Integer(2))));
    assert!(matches!(p.next_line(), Ok(None)));
    assert!(matches!(p.next_line(), Ok(None)));
}

#[test]
fn memory_source_lines() {
    let mut m = MemorySource::new(b"a\r\nb".to_vec());
    assert_eq!(m.read_line(), Ok(Some(b"a\r\n".to_vec())));
    assert_eq!(m.read_line(), Ok(Some(b"b".to_vec())));
    assert_eq!(m.read_line(), Ok(None));
}

#[test]
fn header_threshold_is_a_parameter() {
    let p = parse_header_line(b"HDR,FEC,6.1,Soft", 7).unwrap();
    assert_eq!(p.sep, Separator::Comma);
    let p = parse_header_line(b"HDR,FEC,7.0,Soft", 7).unwrap();
    assert_eq!(p.sep, Separator::UnitSeparator);
}

#[test]
fn quoted_fields() {
    assert_eq!(
        split_record(b"A,\"Doe, Jane\",5", b','),
        vec![b"A".to_vec(), b"Doe, Jane".to_vec(), b"5".to_vec()]
    );
    assert_eq!(split_record(b"\"say \"\"hi\"\"\",x", b','), vec![b"say \"hi\"".to_vec(), b"x".to_vec()]);
    assert_eq!(split_record(b"ab\"c,d", b','), vec![b"ab\"c".to_vec(), b"d".to_vec()]);
    assert_eq!(split_record(b"\"a\"b,c", b','), vec![b"ab".to_vec(), b"c".to_vec()]);
    assert_eq!(split_record(b"", b','), vec![Vec::<u8>::new()]);
    assert_eq!(split_record(b"a\x1cb,c", 0x1c), vec![b"a".to_vec(), b"b,c".to_vec()]);
}
