use vstd::prelude::*;

use crate::text::{decode_lossy, lossy_text};
use crate::tokenizer::{Separator, split_bytes, split_on, strip_line, strip_terminator, views};
use crate::value::{all_digits, lemma_digits_nonneg, check_digits, is_sign, digits_value, integer_value, parse_integer};

verus! {

/// The first major format version of the published format whose body is
/// separated by the unit separator; earlier versions separate body fields by
/// commas. Decoders take the threshold as a parameter; this is the usual one.
pub const UNIT_SEPARATOR_MAJOR: u32 = 6;

/// The filing's header line, decoded.
#[derive(Clone, Debug)]
pub struct Header {
    pub fec_version: String,
    pub software_name: String,
    pub software_version: Option<String>,
    pub report_id: Option<String>,
    pub report_number: Option<String>,
}

/// A header as plain values.
pub struct HeaderModel {
    pub fec_version: Seq<char>,
    pub software_name: Seq<char>,
    pub software_version: Option<Seq<char>>,
    pub report_id: Option<Seq<char>>,
    pub report_number: Option<Seq<char>>,
}

pub open spec fn opt_view(s: Option<String>) -> Option<Seq<char>> {
    match s {
        Some(t) => Some(t@),
        None => None,
    }
}

impl View for Header {
    type V = HeaderModel;

    open spec fn view(&self) -> HeaderModel {
        HeaderModel {
            fec_version: self.fec_version@,
            software_name: self.software_name@,
            software_version: opt_view(self.software_version),
            report_id: opt_view(self.report_id),
            report_number: opt_view(self.report_number),
        }
    }
}

impl Header {
    pub fn duplicate(&self) -> (r: Header)
        ensures
            r@ == self@,
    {
        Header {
            fec_version: self.fec_version.clone(),
            software_name: self.software_name.clone(),
            software_version: copy_opt(&self.software_version),
            report_id: copy_opt(&self.report_id),
            report_number: copy_opt(&self.report_number),
        }
    }
}

fn copy_opt(s: &Option<String>) -> (r: Option<String>)
    ensures
        opt_view(r) == opt_view(*s),
{
    match s {
        Some(t) => Some(t.clone()),
        None => None,
    }
}

/// Why a header line could not be decoded.
#[derive(Clone, Debug)]
pub enum HeaderParseError {
    /// The byte source failed while the line was read.
    Io(String),
    /// The source held no line at all.
    Empty,
    /// The line does not have the header's shape.
    Malformed,
    /// The declared format version is not a version number.
    UnknownVersion,
}

impl HeaderParseError {
    pub fn duplicate(&self) -> (r: HeaderParseError)
        ensures
            r == *self,
    {
        match self {
            HeaderParseError::Io(e) => HeaderParseError::Io(e.clone()),
            HeaderParseError::Empty => HeaderParseError::Empty,
            HeaderParseError::Malformed => HeaderParseError::Malformed,
            HeaderParseError::UnknownVersion => HeaderParseError::UnknownVersion,
        }
    }
}

/// A decoded header and the body dialect that its version selects.
pub struct HeaderParsing {
    pub header: Header,
    pub sep: Separator,
}

/// The major number of a version token such as `8.3` or `6`.
pub open spec fn version_major(v: Seq<u8>) -> Option<int> {
    let parts = split_on(v, 46);
    if (parts.len() == 1 || parts.len() == 2) && (forall|i: int|
        0 <= i < parts.len() ==> #[trigger] parts[i].len() > 0 && all_digits(parts[i])) {
        Some(digits_value(parts[0]))
    } else {
        None
    }
}

/// The body dialect of a major version, where versions from `threshold` on
/// use the unit separator.
pub open spec fn dialect_of(major: int, threshold: u32) -> Separator {
    if major >= threshold {
        Separator::UnitSeparator
    } else {
        Separator::Comma
    }
}

/// An optional header field: absent or empty is `None`.
pub open spec fn optional_field(f: Seq<Seq<u8>>, i: int) -> Option<Seq<char>> {
    if i < f.len() && f[i].len() > 0 {
        Some(lossy_text(f[i]))
    } else {
        None
    }
}

pub open spec fn header_tag() -> Seq<u8> {
    seq![72u8, 68, 82]
}

pub open spec fn format_tag() -> Seq<u8> {
    seq![70u8, 69, 67]
}

/// What a header line decodes to. The line is `HDR`, a delimiter (comma or
/// unit separator) that also separates the remaining fields, `FEC`, the
/// format version, the software name, and up to three optional fields:
/// software version, report id and report number.
pub open spec fn header_result(l: Seq<u8>, threshold: u32) -> Result<(HeaderModel, Separator), HeaderParseError> {
    let s = strip_terminator(l);
    if !(s.len() >= 4 && s.subrange(0, 3) == header_tag() && (s[3] == 44 || s[3] == 28)) {
        Err(HeaderParseError::Malformed)
    } else {
        let f = split_on(s, s[3]);
        if f.len() < 4 || f.len() > 7 || f[1] != format_tag() {
            Err(HeaderParseError::Malformed)
        } else {
            match version_major(f[2]) {
                None => Err(HeaderParseError::UnknownVersion),
                Some(m) => Ok(
                    (
                        HeaderModel {
                            fec_version: lossy_text(f[2]),
                            software_name: lossy_text(f[3]),
                            software_version: optional_field(f, 4),
                            report_id: optional_field(f, 5),
                            report_number: optional_field(f, 6),
                        },
                        dialect_of(m, threshold),
                    ),
                ),
            }
        }
    }
}

fn optional_text(f: &Vec<Vec<u8>>, i: usize) -> (r: Option<String>)
    ensures
        opt_view(r) == optional_field(views(f@), i as int),
{
    if i < f.len() && f[i].len() > 0 {
        Some(decode_lossy(f[i].as_slice()))
    } else {
        None
    }
}

/// The body dialect that a version token selects, if it is a version.
fn version_dialect(v: &[u8], threshold: u32) -> (r: Option<Separator>)
    ensures
        match r {
            Some(sep) => version_major(v@) matches Some(m) && sep == dialect_of(m, threshold),
            None => version_major(v@) is None,
        },
{
    let parts = split_bytes(v, 46u8);
    let n = parts.len();
    if n != 1 && n != 2 {
        return None;
    }
    let mut i: usize = 0;
    while i < n
        invariant
            i <= n,
            n == parts@.len(),
            views(parts@) == split_on(v@, 46),
            forall|k: int|
                0 <= k < i ==> #[trigger] views(parts@)[k].len() > 0 && all_digits(views(parts@)[k]),
        decreases n - i,
    {
        let p = parts[i].as_slice();
        assert(p@ == views(parts@)[i as int]);
        if p.len() == 0 || !check_digits(p) {
            return None;
        }
        i = i + 1;
    }
    let major = parse_integer(parts[0].as_slice());
    proof {
        let d = views(parts@)[0];
        assert(d.len() > 0 && all_digits(d));
        assert(!is_sign(d[0]));
        assert(d == parts@[0]@);
        lemma_digits_nonneg(d);
        assert(integer_value(d) == if digits_value(d) <= i64::MAX {
            Some(digits_value(d))
        } else {
            None::<int>
        });
        assert(version_major(v@) == Some(digits_value(d)));
    }
    match major {
        Some(m) => if m as i128 >= threshold as i128 {
            Some(Separator::UnitSeparator)
        } else {
            Some(Separator::Comma)
        },
        None => Some(Separator::UnitSeparator),
    }
}

/// Decodes the header line `line`, whose terminator may still be attached;
/// versions from major `threshold` on select the unit-separator dialect.
pub fn parse_header_line(line: &[u8], threshold: u32) -> (r: Result<HeaderParsing, HeaderParseError>)
    ensures
        match r {
            Ok(p) => header_result(line@, threshold) == Ok::<(HeaderModel, Separator), HeaderParseError>(
                (p.header@, p.sep),
            ),
            Err(e) => header_result(line@, threshold) == Err::<(HeaderModel, Separator), HeaderParseError>(e),
        },
{
    let s = strip_line(line);
    let n = s.len();
    if !(n >= 4 && s[0] == 72u8 && s[1] == 68u8 && s[2] == 82u8 && (s[3] == 44u8 || s[3] == 28u8)) {
        proof {
            if s@.len() >= 4 && s@.subrange(0, 3) == header_tag() {
                assert(s@.subrange(0, 3)[1] == s@[1]);
                assert(s@.subrange(0, 3)[2] == s@[2]);
                assert(s@.subrange(0, 3)[0] == s@[0]);
            }
        }
        return Err(HeaderParseError::Malformed);
    }
    assert(s@.subrange(0, 3) =~= header_tag());
    let f = split_bytes(s, s[3]);
    let k = f.len();
    if k < 4 || k > 7 {
        return Err(HeaderParseError::Malformed);
    }
    let tag = f[1].as_slice();
    assert(tag@ == views(f@)[1]);
    if !(tag.len() == 3 && tag[0] == 70u8 && tag[1] == 69u8 && tag[2] == 67u8) {
        proof {
            if tag@ == format_tag() {
                assert(tag@[0] == 70u8 && tag@[1] == 69u8 && tag@[2] == 67u8);
            }
        }
        return Err(HeaderParseError::Malformed);
    }
    assert(tag@ =~= format_tag());
    let version = f[2].as_slice();
    assert(version@ == views(f@)[2]);
    let sep = match version_dialect(version, threshold) {
        Some(sep) => sep,
        None => {
            return Err(HeaderParseError::UnknownVersion);
        },
    };
    let name = f[3].as_slice();
    assert(name@ == views(f@)[3]);
    let header = Header {
        fec_version: decode_lossy(version),
        software_name: decode_lossy(name),
        software_version: optional_text(&f, 4),
        report_id: optional_text(&f, 5),
        report_number: optional_text(&f, 6),
    };
    Ok(HeaderParsing { header, sep })
}

} // verus!
