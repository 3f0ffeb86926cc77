use vstd::prelude::*;

use crate::header::{Header, HeaderParseError, header_result};
use crate::line::{Line, LineModel, RecordError, all_decode, decode_fields, decoded_as, decodes_at};
use crate::parser::{HeaderState, Parser, decode_outcome, line_record};
use crate::schema::SchemaRegistry;
use crate::source::ByteSource;

verus! {

/// The cover record: the first body record, decoded under the layout of the
/// filing's cover code.
#[derive(Clone, Debug)]
pub struct Cover {
    pub line: Line,
}

/// Why the cover record could not be decoded. Each of these fails the whole
/// file: no body record is read after it.
#[derive(Clone, Debug)]
pub enum CoverParseError {
    /// The header could not be decoded.
    Header(HeaderParseError),
    /// The byte source failed while the cover line was read.
    Io(String),
    /// The body holds no record at all.
    Missing,
    /// The cover line is blank.
    Empty,
    /// No layout is registered for the cover code under the version.
    Schema { version: String, code: String },
    /// The cover field at this position is not of its declared type.
    InvalidField { index: usize },
}

impl CoverParseError {
    pub fn duplicate(&self) -> (r: CoverParseError)
        ensures
            r == *self,
    {
        match self {
            CoverParseError::Header(e) => CoverParseError::Header(e.duplicate()),
            CoverParseError::Io(e) => CoverParseError::Io(e.clone()),
            CoverParseError::Missing => CoverParseError::Missing,
            CoverParseError::Empty => CoverParseError::Empty,
            CoverParseError::Schema { version, code } => CoverParseError::Schema {
                version: version.clone(),
                code: code.clone(),
            },
            CoverParseError::InvalidField { index } => CoverParseError::InvalidField {
                index: *index,
            },
        }
    }
}

/// What decoding the raw cover record `raws` under the layout of `code`
/// promises.
pub open spec fn cover_outcome(
    version: Seq<char>,
    code: Seq<char>,
    raws: Seq<Seq<u8>>,
    registry: SchemaRegistry,
    r: Result<LineModel, CoverParseError>,
) -> bool {
    if raws.len() == 0 {
        r matches Err(CoverParseError::Empty)
    } else {
        match registry.lookup_spec(version, code) {
            None => r matches Err(CoverParseError::Schema { version: v, code: c }) && v@ == version
                && c@ == code,
            Some(s) => match r {
                Ok(line) => line.0 == s && all_decode(raws, s.1) && decoded_as(raws, s.1, line.1),
                Err(CoverParseError::InvalidField { index }) => 1 <= index < raws.len()
                    && !decodes_at(raws, s.1, index as int) && (forall|k: int|
                    1 <= k < index ==> #[trigger] decodes_at(raws, s.1, k)),
                Err(_) => false,
            },
        }
    }
}

/// A filing read from a byte source.
///
/// All methods are lazy and streaming: nothing is read from the source
/// until a method needs it. The header and the cover are decoded at most
/// once and kept; body records are read one per call, in file order.
pub struct FecFile<S: ByteSource> {
    parser: Parser<S>,
    cover_code: String,
    cover: Option<Result<Cover, CoverParseError>>,
}

impl<S: ByteSource> FecFile<S> {
    pub closed spec fn header_state(&self) -> HeaderState {
        self.parser.header_state()
    }

    /// The cover as decoded so far: `None` before it was asked for.
    pub closed spec fn cover_state(&self) -> Option<Result<LineModel, CoverParseError>> {
        match self.cover {
            None => None,
            Some(Ok(c)) => Some(Ok(c.line@)),
            Some(Err(e)) => Some(Err(e)),
        }
    }

    /// The body lines read so far, the cover line first.
    pub closed spec fn body_lines(&self) -> Seq<Seq<u8>> {
        self.parser.body_lines()
    }

    /// Whether the body has reported its end.
    pub closed spec fn body_ended(&self) -> bool {
        self.parser.body_ended()
    }

    pub closed spec fn registry(&self) -> SchemaRegistry {
        self.parser.registry()
    }

    /// The first major version whose body uses the unit separator.
    pub closed spec fn threshold(&self) -> u32 {
        self.parser.threshold()
    }

    pub closed spec fn cover_code(&self) -> Seq<char> {
        self.cover_code@
    }

    /// The header line, once it was read.
    pub closed spec fn header_line(&self) -> Option<Seq<u8>> {
        self.parser.header_line()
    }

    /// The header is what the header line decodes to, and the cover is what
    /// the first body line decodes to under the layout of the cover code.
    pub open spec fn consistent(&self) -> bool {
        &&& match self.header_line() {
            Some(l) => self.header_state() == Some(header_result(l, self.threshold())),
            None => self.header_state() is None || (self.header_state() matches Some(Err(e)) && (
            e is Io || e is Empty)),
        }
        &&& match self.cover_state() {
            None => self.body_lines().len() == 0 && !self.body_ended(),
            Some(c) => match self.header_state() {
                Some(Err(e)) => c == Err::<LineModel, CoverParseError>(CoverParseError::Header(e)),
                Some(Ok(h)) => match c {
                    Err(CoverParseError::Missing) => self.body_ended() && self.body_lines().len()
                        == 0,
                    Err(CoverParseError::Io(_)) => self.body_lines().len() == 0,
                    Err(CoverParseError::Header(_)) => false,
                    _ => self.body_lines().len() >= 1 && cover_outcome(
                        h.0.fec_version,
                        self.cover_code(),
                        line_record(self.body_lines()[0], h.1),
                        self.registry(),
                        c,
                    ),
                },
                None => false,
            },
        }
    }

    pub open spec fn wf(&self) -> bool {
        self.inv() && self.consistent()
    }

    pub closed spec fn inv(&self) -> bool {
        self.parser.wf()
    }

    /// A filing over `reader`, whose record layouts are those of `registry`,
    /// whose cover record has the layout registered for `cover_code`, and
    /// whose body uses the unit separator from major version
    /// `unit_separator_major` on (commas before it).
    pub fn from_reader(
        reader: S,
        registry: SchemaRegistry,
        cover_code: &str,
        unit_separator_major: u32,
    ) -> (r: Self)
        ensures
            r.threshold() == unit_separator_major,
            r.wf(),
            r.header_state() is None,
            r.cover_state() is None,
            r.registry() == registry,
            r.cover_code() == cover_code@,
    {
        FecFile { parser: Parser::from_reader(reader, registry, unit_separator_major), cover_code: cover_code.to_owned(), cover: None }
    }

    /// The header, read and decoded on the first call and kept: later calls
    /// read nothing and give the same answer.
    pub fn get_header(&mut self) -> (r: Result<Header, HeaderParseError>)
        requires
            old(self).wf(),
        ensures
            final(self).wf(),
            final(self).threshold() == old(self).threshold(),
            old(self).header_state() is Some ==> *final(self) == *old(self),
            final(self).cover_state() == old(self).cover_state(),
            final(self).registry() == old(self).registry(),
            final(self).cover_code() == old(self).cover_code(),
            crate::parser::header_answer(final(self).header_state(), r),
    {
        self.parser.parse_header()
    }

    fn parse_cover(&mut self)
        requires
            old(self).wf(),
        ensures
            final(self).wf(),
            final(self).threshold() == old(self).threshold(),
            final(self).cover_state() is Some,
            final(self).registry() == old(self).registry(),
            final(self).cover_code() == old(self).cover_code(),
            old(self).cover_state() is Some ==> *final(self) == *old(self),
            old(self).cover_state() is None ==> final(self).body_lines().len() <= 1,
            old(self).header_state() is Some ==> final(self).header_state() == old(self).header_state(),
    {
        if self.cover.is_some() {
            return;
        }
        let parsed = match self.parser.next_raw() {
            Err(e) => Err(CoverParseError::Header(e)),
            Ok(None) => Err(CoverParseError::Missing),
            Ok(Some(Err(e))) => Err(CoverParseError::Io(e)),
            Ok(Some(Ok(raw))) => {
                if raw.len() == 0 {
                    Err(CoverParseError::Empty)
                } else {
                    match self.parser.header_version() {
                        None => Err(CoverParseError::Missing),
                        Some(version) => match self.parser.registry_ref().lookup(
                            version,
                            &self.cover_code,
                        ) {
                            None => Err(
                                CoverParseError::Schema {
                                    version: version.clone(),
                                    code: self.cover_code.clone(),
                                },
                            ),
                            Some(schema) => match decode_fields(&raw, schema) {
                                Ok(line) => Ok(Cover { line }),
                                Err(index) => Err(CoverParseError::InvalidField { index }),
                            },
                        },
                    }
                }
            },
        };
        self.cover = Some(parsed);
    }

    /// The cover record, read and decoded on the first call and kept: later
    /// calls read nothing and give the same answer.
    pub fn get_cover(&mut self) -> (r: Result<Cover, CoverParseError>)
        requires
            old(self).wf(),
        ensures
            final(self).wf(),
            final(self).threshold() == old(self).threshold(),
            final(self).registry() == old(self).registry(),
            final(self).cover_code() == old(self).cover_code(),
            old(self).cover_state() is Some ==> *final(self) == *old(self),
            old(self).header_state() is Some ==> final(self).header_state() == old(self).header_state(),
            match r {
                Ok(c) => final(self).cover_state() == Some(Ok::<LineModel, CoverParseError>(c.line@)),
                Err(e) => final(self).cover_state() == Some(Err::<LineModel, CoverParseError>(e)),
            },
    {
        self.parse_cover();
        match &self.cover {
            Some(Ok(c)) => Ok(Cover { line: c.line.duplicate() }),
            Some(Err(e)) => Err(e.duplicate()),
            None => Err(CoverParseError::Missing),
        }
    }

    /// The next body record after the cover, in file order. `Err` where the
    /// header or the cover could not be decoded; `Ok(Some(Err(..)))` for a
    /// record that could not be decoded, after which the next call reads
    /// the next record; `Ok(None)` once the body has ended, and on every call
    /// after that.
    pub fn next_record(&mut self) -> (r: Result<Option<Result<Line, RecordError>>, CoverParseError>)
        requires
            old(self).wf(),
        ensures
            final(self).wf(),
            final(self).threshold() == old(self).threshold(),
            final(self).registry() == old(self).registry(),
            final(self).cover_code() == old(self).cover_code(),
            old(self).cover_state() is Some ==> final(self).cover_state() == old(self).cover_state(),
            old(self).header_state() is Some ==> final(self).header_state() == old(self).header_state(),
            old(self).cover_state() matches Some(Ok(_)) && old(self).body_ended() ==> (r matches Ok(
                None,
            ) && *final(self) == *old(self)),
            final(self).cover_state() is Some,
            r matches Ok(None) ==> final(self).body_ended(),
            final(self).cover_state() matches Some(Err(e)) ==> r == Err::<
                Option<Result<Line, RecordError>>,
                CoverParseError,
            >(e),
            final(self).cover_state() matches Some(Ok(_)) ==> (final(self).header_state() matches Some(
                Ok(h),
            ) && r matches Ok(x) && decode_outcome(
                lines_before(*old(self), *final(self)),
                final(self).body_lines(),
                final(self).body_ended(),
                h.1,
                h.0.fec_version,
                final(self).registry(),
                x,
            )),
    {
        self.parse_cover();
        match &self.cover {
            Some(Err(e)) => {
                return Err(e.duplicate());
            },
            _ => {},
        }
        let ghost mid = *self;
        let r = match self.parser.next_line() {
            Ok(x) => Ok(x),
            Err(e) => Err(CoverParseError::Header(e)),
        };
        proof {
            if old(self).cover_state() is None && self.cover_state() matches Some(Ok(_)) {
                assert(mid.body_lines().len() == 1);
                let a = self.body_lines();
                if a.len() > mid.body_lines().len() {
                    assert(a.drop_last() == mid.body_lines());
                    assert(a.subrange(0, 1) =~= a.drop_last());
                } else {
                    assert(a.subrange(0, 1) =~= a);
                }
            }
        }
        r
    }
}

/// The body lines that a call of `next_record` starts from: those read
/// before it, or the cover line where the call itself read the cover.
pub open spec fn lines_before<S: ByteSource>(before: FecFile<S>, after: FecFile<S>) -> Seq<Seq<u8>> {
    if before.cover_state() is Some {
        before.body_lines()
    } else {
        after.body_lines().subrange(0, 1)
    }
}

} // verus!
