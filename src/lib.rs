//! Streaming parser for line-oriented, schema-versioned campaign-finance
//! filings: one header line, one cover record, then detail records whose
//! layout depends on the declared format version and on each record's type
//! code.
//!
//! Decoding is lazy: nothing is read from the byte source until a caller
//! asks for the header, the cover or the next record.

pub mod fec;
pub mod header;
pub mod line;
pub mod parser;
pub mod schema;
pub mod source;
pub mod text;
pub mod tokenizer;
pub mod value;

pub use crate::fec::{Cover, CoverParseError, FecFile};
pub use crate::header::{Header, HeaderParseError, HeaderParsing};
pub use crate::line::{Line, RecordError};
pub use crate::parser::{Parser, RowsParser};
pub use crate::schema::{FieldSchema, LineSchema, SchemaRegistry, ValueType};
pub use crate::source::{ByteSource, MemorySource};
pub use crate::tokenizer::Separator;
pub use crate::value::Value;
