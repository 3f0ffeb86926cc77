use vstd::prelude::*;

use crate::header::{Header, HeaderModel, HeaderParseError, HeaderParsing, header_result, parse_header_line};
use crate::line::{Line, RecordError, parse, parse_outcome};
use crate::schema::SchemaRegistry;
use crate::source::ByteSource;
use crate::tokenizer::{Separator, is_blank, record_fields, split_record, strip_line, views};

verus! {

/// The raw fields of a body line: none for a blank line.
pub open spec fn line_record(l: Seq<u8>, sep: Separator) -> Seq<Seq<u8>> {
    if is_blank(l) {
        Seq::empty()
    } else {
        record_fields(l, sep)
    }
}

/// Splits a body line into its raw fields under `sep`.
pub fn tokenize_line(l: &[u8], sep: Separator) -> (r: Vec<Vec<u8>>)
    ensures
        views(r@) == line_record(l@, sep),
{
    let s = strip_line(l);
    if s.len() == 0 {
        let r: Vec<Vec<u8>> = Vec::new();
        assert(views(r@) =~= Seq::<Seq<u8>>::empty());
        r
    } else {
        split_record(s, sep.byte())
    }
}

/// The stream of body records: owns the byte source once the header has
/// been read, splits each line under the dialect and decodes it.
pub struct RowsParser<S: ByteSource> {
    source: S,
    version: String,
    sep: Separator,
    ended: bool,
    consumed: Ghost<Seq<Seq<u8>>>,
}

impl<S: ByteSource> RowsParser<S> {
    /// The body lines read so far, in order.
    pub closed spec fn lines_read(&self) -> Seq<Seq<u8>> {
        self.consumed@
    }

    /// Whether the source has reported its end.
    pub closed spec fn ended(&self) -> bool {
        self.ended
    }

    pub closed spec fn version(&self) -> Seq<char> {
        self.version@
    }

    pub closed spec fn sep(&self) -> Separator {
        self.sep
    }

    pub fn new(src: S, version: String, sep: Separator) -> (r: Self)
        ensures
            r.lines_read() == Seq::<Seq<u8>>::empty(),
            !r.ended(),
            r.version() == version@,
            r.sep() == sep,
    {
        RowsParser { source: src, version, sep, ended: false, consumed: Ghost(Seq::empty()) }
    }

    /// Decodes a record's raw fields under the stream's version.
    pub fn parse_csv_record(&self, record: &Vec<Vec<u8>>, registry: &SchemaRegistry) -> (r: Result<
        Line,
        RecordError,
    >)
        ensures
            parse_outcome(self.version(), views(record@), *registry, r),
    {
        parse(&self.version, record, registry)
    }

    /// Reads the next body line and splits it into raw fields. `None` once
    /// the source has ended, and on every call after that.
    pub fn next_record(&mut self) -> (r: Option<Result<Vec<Vec<u8>>, String>>)
        ensures
            final(self).version() == old(self).version(),
            final(self).sep() == old(self).sep(),
            old(self).ended() ==> r is None && *final(self) == *old(self),
            !old(self).ended() ==> raw_outcome(old(self).lines_read(), final(self).lines_read(), final(self).ended(), old(self).sep(), r),
    {
        if self.ended {
            return None;
        }
        match self.source.read_line() {
            Err(e) => Some(Err(e)),
            Ok(None) => {
                self.ended = true;
                None
            },
            Ok(Some(l)) => {
                proof {
                    self.consumed@ = self.consumed@.push(l@);
                    assert(self.consumed@.drop_last() =~= old(self).consumed@);
                }
                Some(Ok(tokenize_line(l.as_slice(), self.sep)))
            },
        }
    }

    /// Reads and decodes the next body line. `None` once the source has
    /// ended, and on every call after that.
    pub fn next_line(&mut self, registry: &SchemaRegistry) -> (r: Option<Result<Line, RecordError>>)
        ensures
            final(self).version() == old(self).version(),
            final(self).sep() == old(self).sep(),
            old(self).ended() ==> r is None && *final(self) == *old(self),
            !old(self).ended() ==> decode_outcome(
                old(self).lines_read(),
                final(self).lines_read(),
                final(self).ended(),
                old(self).sep(),
                old(self).version(),
                *registry,
                r,
            ),
    {
        match self.next_record() {
            None => None,
            Some(Err(e)) => Some(Err(RecordError::Io(e))),
            Some(Ok(record)) => Some(self.parse_csv_record(&record, registry)),
        }
    }
}

/// What one read of raw fields does: at the end of the source it ends the
/// stream; on a read error it reads nothing; else it consumes exactly one
/// more line and yields its fields.
pub open spec fn raw_outcome(
    before: Seq<Seq<u8>>,
    after: Seq<Seq<u8>>,
    ended: bool,
    sep: Separator,
    r: Option<Result<Vec<Vec<u8>>, String>>,
) -> bool {
    match r {
        None => ended && after == before,
        Some(Err(_)) => !ended && after == before,
        Some(Ok(f)) => !ended && after.len() == before.len() + 1 && after.drop_last() == before
            && views(f@) == line_record(after.last(), sep),
    }
}

/// What one read of a decoded record does: as a read of raw fields, then
/// the line consumed is decoded under `version`.
pub open spec fn decode_outcome(
    before: Seq<Seq<u8>>,
    after: Seq<Seq<u8>>,
    ended: bool,
    sep: Separator,
    version: Seq<char>,
    registry: SchemaRegistry,
    r: Option<Result<Line, RecordError>>,
) -> bool {
    match r {
        None => ended && after == before,
        Some(Err(RecordError::Io(_))) => !ended && after == before,
        Some(res) => !ended && after.len() == before.len() + 1 && after.drop_last() == before
            && parse_outcome(version, line_record(after.last(), sep), registry, res),
    }
}
/// The header state as plain values.
pub type HeaderState = Option<Result<(HeaderModel, Separator), HeaderParseError>>;

/// A lazy reader of a filing without a cover: the header, then the body
/// records. Nothing is read until a method needs it.
pub struct Parser<S: ByteSource> {
    registry: SchemaRegistry,
    /// The first major version whose body uses the unit separator.
    threshold: u32,
    /// The byte source, until the body stream takes it over.
    reader: Option<S>,
    header_parsing: Option<Result<HeaderParsing, HeaderParseError>>,
    header_line: Ghost<Option<Seq<u8>>>,
    /// Once the header is known, the stream of body records.
    row_parser: Option<RowsParser<S>>,
}

impl<S: ByteSource> Parser<S> {
    /// The header as decoded so far: `None` before the header line was read.
    pub closed spec fn header_state(&self) -> HeaderState {
        match self.header_parsing {
            None => None,
            Some(Ok(p)) => Some(Ok((p.header@, p.sep))),
            Some(Err(e)) => Some(Err(e)),
        }
    }

    /// The header line, once it was read.
    pub closed spec fn header_line(&self) -> Option<Seq<u8>> {
        self.header_line@
    }

    /// The body lines read so far, in order.
    pub closed spec fn body_lines(&self) -> Seq<Seq<u8>> {
        match self.row_parser {
            Some(rp) => rp.lines_read(),
            None => Seq::empty(),
        }
    }

    /// Whether the body has reported its end.
    pub closed spec fn body_ended(&self) -> bool {
        match self.row_parser {
            Some(rp) => rp.ended(),
            None => false,
        }
    }

    pub closed spec fn registry(&self) -> SchemaRegistry {
        self.registry
    }

    /// The header state is what the header line decodes to; before a line
    /// was read it can only be a read failure or an empty source.
    pub open spec fn header_consistent(&self) -> bool {
        match self.header_line() {
            Some(l) => self.header_state() == Some(header_result(l, self.threshold())),
            None => self.header_state() is None || (self.header_state() matches Some(Err(e)) && (
            e is Io || e is Empty)),
        }
    }

    pub open spec fn wf(&self) -> bool {
        self.inv() && self.header_consistent()
    }

    pub closed spec fn inv(&self) -> bool {
        &&& match self.header_parsing {
            None => self.reader is Some && self.row_parser is None && self.header_line@ is None,
            Some(Ok(p)) => self.header_line@ matches Some(l) && header_result(l, self.threshold) == Ok::<
                (HeaderModel, Separator),
                HeaderParseError,
            >((p.header@, p.sep)) && (self.row_parser is None <==> self.reader is Some),
            Some(Err(e)) => self.row_parser is None && match self.header_line@ {
                Some(l) => header_result(l, self.threshold) == Err::<(HeaderModel, Separator), HeaderParseError>(
                    e,
                ),
                None => e is Io || e is Empty,
            },
        }
        &&& self.row_parser matches Some(rp) ==> (self.header_parsing matches Some(Ok(p))
            && rp.version() == p.header.fec_version@ && rp.sep() == p.sep)
    }

    /// The first major version whose body uses the unit separator.
    pub closed spec fn threshold(&self) -> u32 {
        self.threshold
    }

    pub fn from_reader(reader: S, registry: SchemaRegistry, unit_separator_major: u32) -> (r: Self)
        ensures
            r.threshold() == unit_separator_major,
            r.wf(),
            r.header_state() is None,
            r.body_lines() == Seq::<Seq<u8>>::empty(),
            !r.body_ended(),
            r.registry() == registry,
    {
        Parser {
            registry,
            threshold: unit_separator_major,
            reader: Some(reader),
            header_parsing: None,
            header_line: Ghost(None),
            row_parser: None,
        }
    }

    /// The declared format version, once the header is decoded.
    pub fn header_version(&self) -> (r: Option<&String>)
        ensures
            match self.header_state() {
                Some(Ok(h)) => r matches Some(v) && v@ == h.0.fec_version,
                _ => r is None,
            },
    {
        match &self.header_parsing {
            Some(Ok(p)) => Some(&p.header.fec_version),
            _ => None,
        }
    }

    pub fn registry_ref(&self) -> (r: &SchemaRegistry)
        ensures
            *r == self.registry(),
    {
        &self.registry
    }

    /// The header, read and decoded on the first call and kept: later calls
    /// read nothing and give the same answer.
    pub fn parse_header(&mut self) -> (r: Result<Header, HeaderParseError>)
        requires
            old(self).wf(),
        ensures
            final(self).wf(),
            final(self).threshold() == old(self).threshold(),
            old(self).header_state() is Some ==> *final(self) == *old(self),
            old(self).header_state() is None ==> final(self).body_lines() == Seq::<Seq<u8>>::empty()
                && !final(self).body_ended() && final(self).registry() == old(self).registry(),
            header_answer(final(self).header_state(), r),
    {
        if self.header_parsing.is_none() {
            let read = match &mut self.reader {
                Some(reader) => reader.read_line(),
                None => Err(String::new()),
            };
            let parsed = match read {
                Err(e) => Err(HeaderParseError::Io(e)),
                Ok(None) => Err(HeaderParseError::Empty),
                Ok(Some(l)) => {
                    proof {
                        self.header_line@ = Some(l@);
                    }
                    parse_header_line(l.as_slice(), self.threshold)
                },
            };
            self.header_parsing = Some(parsed);
        }
        match &self.header_parsing {
            Some(Ok(p)) => Ok(p.header.duplicate()),
            Some(Err(e)) => Err(e.duplicate()),
            None => Err(HeaderParseError::Empty),
        }
    }

    /// The raw fields of the next body line, after the header is known.
    /// `Err` where the header could not be decoded.
    pub fn next_raw(&mut self) -> (r: Result<Option<Result<Vec<Vec<u8>>, String>>, HeaderParseError>)
        requires
            old(self).wf(),
        ensures
            final(self).wf(),
            final(self).threshold() == old(self).threshold(),
            final(self).registry() == old(self).registry(),
            final(self).header_state() is Some,
            final(self).header_state() matches Some(Err(_)) ==> final(self).body_lines().len() == 0,
            old(self).header_state() is Some ==> final(self).header_state() == old(self).header_state(),
            old(self).header_state() is None ==> old(self).body_lines() == Seq::<Seq<u8>>::empty(),
            old(self).body_ended() ==> (r matches Ok(None) && *final(self) == *old(self)),
            final(self).header_state() matches Some(Err(e)) ==> r == Err::<
                Option<Result<Vec<Vec<u8>>, String>>,
                HeaderParseError,
            >(e),
            final(self).header_state() matches Some(Ok(h)) ==> (r matches Ok(x) && raw_outcome(
                old(self).body_lines(),
                final(self).body_lines(),
                final(self).body_ended(),
                h.1,
                x,
            )),
    {
        let _ = self.parse_header();
        let ghost mid = *self;
        match &self.header_parsing {
            Some(Err(e)) => {
                return Err(e.duplicate());
            },
            _ => {},
        }
        if self.row_parser.is_none() {
            let reader = self.reader.take();
            match (reader, &self.header_parsing) {
                (Some(reader), Some(Ok(p))) => {
                    self.row_parser = Some(
                        RowsParser::new(reader, p.header.fec_version.clone(), p.sep),
                    );
                },
                _ => {},
            }
        }
        match &mut self.row_parser {
            Some(rp) => Ok(rp.next_record()),
            None => Ok(None),
        }
    }

    /// The next body record, decoded, after the header is known. `Err`
    /// where the header could not be decoded; `Ok(None)` once the body has
    /// ended, and on every call after that.
    pub fn next_line(&mut self) -> (r: Result<Option<Result<Line, RecordError>>, HeaderParseError>)
        requires
            old(self).wf(),
        ensures
            final(self).wf(),
            final(self).threshold() == old(self).threshold(),
            final(self).registry() == old(self).registry(),
            final(self).header_state() is Some,
            final(self).header_state() matches Some(Err(_)) ==> final(self).body_lines().len() == 0,
            old(self).header_state() is Some ==> final(self).header_state() == old(self).header_state(),
            old(self).body_ended() ==> (r matches Ok(None) && *final(self) == *old(self)),
            final(self).header_state() matches Some(Err(e)) ==> r == Err::<
                Option<Result<Line, RecordError>>,
                HeaderParseError,
            >(e),
            final(self).header_state() matches Some(Ok(h)) ==> (r matches Ok(x) && decode_outcome(
                old(self).body_lines(),
                final(self).body_lines(),
                final(self).body_ended(),
                h.1,
                h.0.fec_version,
                old(self).registry(),
                x,
            )),
    {
        match self.next_raw() {
            Err(e) => Err(e),
            Ok(None) => Ok(None),
            Ok(Some(Err(e))) => Ok(Some(Err(RecordError::Io(e)))),
            Ok(Some(Ok(record))) => match &self.header_parsing {
                Some(Ok(p)) => Ok(Some(parse(&p.header.fec_version, &record, &self.registry))),
                _ => Ok(None),
            },
        }
    }
}

/// Whether `r` is the answer that the header state gives.
pub open spec fn header_answer(state: HeaderState, r: Result<Header, HeaderParseError>) -> bool {
    match r {
        Ok(h) => state matches Some(Ok(p)) && p.0 == h@,
        Err(e) => state == Some(Err::<(HeaderModel, Separator), HeaderParseError>(e)),
    }
}

} // verus!
