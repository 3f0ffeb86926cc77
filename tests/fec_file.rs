use feco3::header::UNIT_SEPARATOR_MAJOR;
use feco3::{
    ByteSource, CoverParseError, FecFile, FieldSchema, HeaderParseError, LineSchema,
    MemorySource, RecordError, SchemaRegistry, Value, ValueType,
};

fn registry(version: &str) -> SchemaRegistry {
    let mut r = SchemaRegistry::new();
    r.add(
        version,
        LineSchema::new(
            "F3",
            vec![
                FieldSchema::new("committee_id", ValueType::String),
                FieldSchema::new("total", ValueType::Integer),
            ],
        ),
    );
    r.add(
        version,
        LineSchema::new(
            "A",
            vec![
                FieldSchema::new("name", ValueType::String),
                FieldSchema::new("amount", ValueType::Integer),
            ],
        ),
    );
    r.add(version, LineSchema::new("B", vec![FieldSchema::new("memo", ValueType::String)]));
    r.add(version, LineSchema::new("C", vec![FieldSchema::new("ok", ValueType::Boolean)]));
    r.add(
        version,
        LineSchema::new(
            "X",
            vec![
                FieldSchema::new("first", ValueType::String),
                FieldSchema::new("second", ValueType::String),
            ],
        ),
    );
    r
}

fn file(text: &str, version: &str) -> FecFile<MemorySource> {
    FecFile::from_reader(MemorySource::new(text.as_bytes().to_vec()), registry(version), "F3", UNIT_SEPARATOR_MAJOR)
}

fn code(line: &feco3::Line) -> String {
    match &line.values[0] {
        Value::String(s) => s.clone(),
        other => panic!("type code is not text: {:?}", other),
    }
}

/// Hands out its first line once; every later read fails.
struct ReadOnce {
    line: Option<Vec<u8>>,
}

impl ByteSource for ReadOnce {
    fn read_line(&mut self) -> Result<Option<Vec<u8>>, String> {
        match self.line.take() {
            Some(l) => Ok(Some(l)),
            None => Err("read twice".to_string()),
        }
    }
}

#[test]
fn header_is_read_once() {
    let src = ReadOnce { line: Some(b"HDR,FEC,5.0,Soft,1.2,rid,7\n".to_vec()) };
    let mut f = FecFile::from_reader(src, registry("5.0"), "F3", UNIT_SEPARATOR_MAJOR);
    let first = f.get_header().unwrap();
    for _ in 0..5 {
        let again = f.get_header().unwrap();
        assert_eq!(again.fec_version, first.fec_version);
        assert_eq!(again.software_name, first.software_name);
        assert_eq!(again.software_version, first.software_version);
        assert_eq!(again.report_id, first.report_id);
        assert_eq!(again.report_number, first.report_number);
    }
    assert_eq!(first.fec_version, "5.0");
    assert_eq!(first.software_name, "Soft");
    assert_eq!(first.software_version.as_deref(), Some("1.2"));
    assert_eq!(first.report_id.as_deref(), Some("rid"));
    assert_eq!(first.report_number.as_deref(), Some("7"));
}

#[test]
fn header_errors_are_kept() {
    let mut f = file("HDR,XYZ,5.0,Soft\n", "5.0");
    assert!(matches!(f.get_header(), Err(HeaderParseError::Malformed)));
    assert!(matches!(f.get_header(), Err(HeaderParseError::Malformed)));
    assert!(matches!(f.get_cover(), Err(CoverParseError::Header(HeaderParseError::Malformed))));
    assert!(matches!(
        f.next_record(),
        Err(CoverParseError::Header(HeaderParseError::Malformed))
    ));
}

#[test]
fn header_unknown_version() {
    let mut f = file("HDR,FEC,v5,Soft\n", "5.0");
    assert!(matches!(f.get_header(), Err(HeaderParseError::UnknownVersion)));
}

#[test]
fn header_of_empty_source() {
    let mut f = file("", "5.0");
    assert!(matches!(f.get_header(), Err(HeaderParseError::Empty)));
}

#[test]
fn end_of_records_is_final() {
    let mut f = file("HDR,FEC,5.0,Soft\nF3,C001,100\nA,Ann,5\n", "5.0");
    assert!(matches!(f.next_record(), Ok(Some(Ok(_)))));
    for _ in 0..4 {
        assert!(matches!(f.next_record(), Ok(None)));
    }
}

#[test]
fn records_keep_file_order() {
    let mut f = file("HDR,FEC,5.0,Soft\nF3,C001,100\nA,Ann,5\nB,memo\nA,Bob,6\nC,true\n", "5.0");
    let mut codes = Vec::new();
    while let Some(r) = f.next_record().unwrap() {
        codes.push(code(&r.unwrap()));
    }
    assert_eq!(codes, vec!["A", "B", "A", "C"]);
}

#[test]
fn records_wider_or_narrower_than_layout() {
    let mut f = file("HDR,FEC,5.0,Soft\nF3,C001,100\nX,v1,v2,v3\nX,v1\n", "5.0");
    let long = f.next_record().unwrap().unwrap().unwrap();
    // The type code, then three values; the third has no declared field.
    assert_eq!(long.values.len(), 4);
    assert!(matches!(&long.values[3], Value::String(s) if s == "v3"));
    assert_eq!(long.schema.fields.len(), 2);
    let short = f.next_record().unwrap().unwrap().unwrap();
    assert_eq!(short.values.len(), 2);
    assert!(matches!(&short.values[1], Value::String(s) if s == "v1"));
    assert!(matches!(short.get_value(&"first".to_string()), Some(Value::String(s)) if s == "v1"));
    assert!(short.get_value(&"second".to_string()).is_none());
}

#[test]
fn bad_integer_fails_only_its_record() {
    let mut f = file("HDR,FEC,5.0,Soft\nF3,C001,100\nA,Ann,12x\nA,Bob,42\n", "5.0");
    assert!(matches!(
        f.next_record(),
        Ok(Some(Err(RecordError::InvalidField { index: 2 })))
    ));
    let next = f.next_record().unwrap().unwrap().unwrap();
    assert!(matches!(next.values[2], Value::Integer(42)));
    assert!(matches!(f.next_record(), Ok(None)));
}

#[test]
fn unit_separator_keeps_commas() {
    let text = "HDR\x1cFEC\x1c8.3\x1cNGP\x1c8\nF3\x1cC001\x1c100\nB\x1cone, two, three\nA\x1cDoe, Jane\x1c-17\n";
    let mut f = file(text, "8.3");
    assert_eq!(f.get_header().unwrap().fec_version, "8.3");
    let b = f.next_record().unwrap().unwrap().unwrap();
    assert_eq!(b.values.len(), 2);
    assert!(matches!(&b.values[1], Value::String(s) if s == "one, two, three"));
    let a = f.next_record().unwrap().unwrap().unwrap();
    assert!(matches!(&a.values[1], Value::String(s) if s == "Doe, Jane"));
    assert!(matches!(a.values[2], Value::Integer(-17)));
}

#[test]
fn comma_dialect_splits_on_commas() {
    let mut f = file("HDR,FEC,5.0,Soft\nF3,C001,100\nB,one, two\n", "5.0");
    let b = f.next_record().unwrap().unwrap().unwrap();
    assert_eq!(b.values.len(), 3);
    assert!(matches!(&b.values[1], Value::String(s) if s == "one"));
    assert!(matches!(&b.values[2], Value::String(s) if s == " two"));
}

#[test]
fn unknown_code_does_not_end_stream() {
    let mut f = file("HDR,FEC,5.0,Soft\nF3,C001,100\nZZ,1\nB,memo\n", "5.0");
    match f.next_record() {
        Ok(Some(Err(RecordError::Schema { version, code }))) => {
            assert_eq!(version, "5.0");
            assert_eq!(code, "ZZ");
        }
        other => panic!("expected a schema error, got {:?}", other),
    }
    let b = f.next_record().unwrap().unwrap().unwrap();
    assert_eq!(code(&b), "B");
}

#[test]
fn schema_depends_on_version() {
    // The layouts are registered for 5.0 only.
    let mut f = FecFile::from_reader(
        MemorySource::new(b"HDR,FEC,5.1,Soft\nF3,C001,100\n".to_vec()),
        registry("5.0"),
        "F3",
        UNIT_SEPARATOR_MAJOR,
    );
    assert!(matches!(f.get_cover(), Err(CoverParseError::Schema { .. })));
    assert!(matches!(f.next_record(), Err(CoverParseError::Schema { .. })));
}

#[test]
fn cover_is_decoded_once() {
    let mut f = file("HDR,FEC,5.0,Soft\r\nF3,C001,100\r\nA,Ann,5\r\n", "5.0");
    let c = f.get_cover().unwrap();
    assert_eq!(c.line.values.len(), 3);
    assert!(matches!(&c.line.values[1], Value::String(s) if s == "C001"));
    assert!(matches!(c.line.values[2], Value::Integer(100)));
    let again = f.get_cover().unwrap();
    assert_eq!(again.line.values.len(), 3);
    let a = f.next_record().unwrap().unwrap().unwrap();
    assert!(matches!(a.values[2], Value::Integer(5)));
}

#[test]
fn missing_cover() {
    let mut f = file("HDR,FEC,5.0,Soft\n", "5.0");
    assert!(matches!(f.get_cover(), Err(CoverParseError::Missing)));
    assert!(matches!(f.next_record(), Err(CoverParseError::Missing)));
}

#[test]
fn cover_with_bad_field() {
    let mut f = file("HDR,FEC,5.0,Soft\nF3,C001,lots\n", "5.0");
    assert!(matches!(f.get_cover(), Err(CoverParseError::InvalidField { index: 2 })));
}

#[test]
fn blank_record_line() {
    let mut f = file("HDR,FEC,5.0,Soft\nF3,C001,100\n\nB,memo", "5.0");
    assert!(matches!(f.next_record(), Ok(Some(Err(RecordError::Empty)))));
    let b = f.next_record().unwrap().unwrap().unwrap();
    assert!(matches!(&b.values[1], Value::String(s) if s == "memo"));
    assert!(matches!(f.next_record(), Ok(None)));
}

#[test]
fn read_error_is_reported() {
    let src = ReadOnce { line: Some(b"HDR,FEC,5.0,Soft\n".to_vec()) };
    let mut f = FecFile::from_reader(src, registry("5.0"), "F3", UNIT_SEPARATOR_MAJOR);
    assert!(matches!(f.get_cover(), Err(CoverParseError::Io(_))));
}

#[test]
fn header_read_failure() {
    let mut f = FecFile::from_reader(ReadOnce { line: None }, registry("5.0"), "F3", UNIT_SEPARATOR_MAJOR);
    assert!(matches!(f.get_header(), Err(HeaderParseError::Io(_))));
    assert!(matches!(f.get_header(), Err(HeaderParseError::Io(_))));
}

#[test]
fn blank_cover_line() {
    let mut f = file("HDR,FEC,5.0,Soft\n\nF3,C001,100\n", "5.0");
    assert!(matches!(f.get_cover(), Err(CoverParseError::Empty)));
}

/// Hands out its lines, failing once where a line is missing.
struct Scripted {
    lines: Vec<Option<Vec<u8>>>,
    next: usize,
}

impl ByteSource for Scripted {
    fn read_line(&mut self) -> Result<Option<Vec<u8>>, String> {
        if self.next >= self.lines.len() {
            return Ok(None);
        }
        self.next += 1;
        match &self.lines[self.next - 1] {
            Some(l) => Ok(Some(l.clone())),
            None => Err("device error".to_string()),
        }
    }
}

#[test]
fn body_read_failure_does_not_end_stream() {
    let src = Scripted {
        lines: vec![
            Some(b"HDR,FEC,5.0,Soft\n".to_vec()),
            Some(b"F3,C001,100\n".to_vec()),
            None,
            Some(b"A,Ann,3\n".to_vec()),
        ],
        next: 0,
    };
    let mut f = FecFile::from_reader(src, registry("5.0"), "F3", UNIT_SEPARATOR_MAJOR);
    assert!(matches!(f.next_record(), Ok(Some(Err(RecordError::Io(e)))) if e == "device error"));
    let a = f.next_record().unwrap().unwrap().unwrap();
    assert!(matches!(a.values[2], Value::Integer(3)));
    assert!(matches!(f.next_record(), Ok(None)));
}

#[test]
fn quoted_comma_field_in_comma_dialect() {
    let mut f = file("HDR,FEC,5.0,Soft\nF3,C001,100\nA,\"Doe, Jane\",9\n", "5.0");
    let a = f.next_record().unwrap().unwrap().unwrap();
    assert_eq!(a.values.len(), 3);
    assert!(matches!(&a.values[1], Value::String(s) if s == "Doe, Jane"));
    assert!(matches!(a.values[2], Value::Integer(9)));
}
