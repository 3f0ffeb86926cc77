use vstd::prelude::*;

use crate::schema::{FieldModel, FieldSchema, LineSchema, SchemaModel, SchemaRegistry, extra_field};
use crate::text::{decode_lossy, lossy_text};
use crate::value::{Value, ValueModel, field_value, layout_of, parse_raw_field_val};

verus! {

/// A decoded record: its layout and its values, the type code first.
///
/// A record may hold fewer or more values than its layout declares: the
/// values are those of the fields the record actually has.
#[derive(Clone, Debug)]
pub struct Line {
    pub schema: LineSchema,
    pub values: Vec<Value>,
}

/// A decoded record as plain values.
pub type LineModel = (SchemaModel, Seq<ValueModel>);

impl View for Line {
    type V = LineModel;

    open spec fn view(&self) -> LineModel {
        (self.schema@, self.values@.map_values(|v: Value| v@))
    }
}

/// Why a single body record could not be decoded. None of these ends the
/// stream: the next record can still be read.
#[derive(Clone, Debug)]
pub enum RecordError {
    /// The byte source failed while the record was read.
    Io(String),
    /// The record holds no field at all.
    Empty,
    /// No layout is registered for the record's type code under the version.
    Schema { version: String, code: String },
    /// The field at this position (the type code being position 0) is not
    /// of its declared type.
    InvalidField { index: usize },
}

/// The layout of the record field at position `k` (the type code is at 0):
/// the declared one, or plain text beyond the declared ones.
pub open spec fn position_layout(fields: Seq<FieldModel>, k: int) -> FieldModel {
    if 1 <= k && k - 1 < fields.len() {
        fields[k - 1]
    } else {
        extra_field()
    }
}

/// Whether the field at position `k` of a raw record decodes under `fields`.
pub open spec fn decodes_at(raw: Seq<Seq<u8>>, fields: Seq<FieldModel>, k: int) -> bool {
    field_value(raw[k], position_layout(fields, k)) is Some
}

/// Whether `values` is the decoding of the raw record `raw` under `fields`:
/// the type code as text, then each further field under its layout.
pub open spec fn decoded_as(raw: Seq<Seq<u8>>, fields: Seq<FieldModel>, values: Seq<ValueModel>) -> bool {
    &&& raw.len() >= 1
    &&& values.len() == raw.len()
    &&& values[0] == ValueModel::String(lossy_text(raw[0]))
    &&& forall|k: int|
        1 <= k < raw.len() ==> field_value(raw[k], position_layout(fields, k)) == Some(
            #[trigger] values[k],
        )
}

/// Whether a raw record decodes under `fields`: every field after the type
/// code holds text of its type.
pub open spec fn all_decode(raw: Seq<Seq<u8>>, fields: Seq<FieldModel>) -> bool {
    forall|k: int| 1 <= k < raw.len() ==> #[trigger] decodes_at(raw, fields, k)
}

impl Line {
    pub fn duplicate(&self) -> (r: Line)
        ensures
            r@ == self@,
    {
        let mut values: Vec<Value> = Vec::new();
        let n = self.values.len();
        for i in 0..n
            invariant
                n == self.values@.len(),
                values@.len() == i,
                forall|j: int| 0 <= j < i ==> #[trigger] values@[j]@ == self.values@[j]@,
        {
            values.push(self.values[i].duplicate());
        }
        let r = Line { schema: self.schema.duplicate(), values };
        assert(r@.1 =~= self@.1);
        r
    }

    /// The value of the first field named `field_name`, if the layout
    /// declares one and the record holds a value at its position (the
    /// layout's fields follow the type code).
    pub fn get_value(&self, field_name: &String) -> (r: Option<&Value>)
        ensures
            match r {
                Some(v) => exists|i: int|
                    0 <= i < self.schema.fields@.len() && i + 1 < self.values@.len() && #[trigger] self.schema.fields@[i].name@
                        == field_name@ && (forall|j: int|
                        0 <= j < i ==> self.schema.fields@[j].name@ != field_name@)
                        && *v == self.values@[i + 1],
                None => forall|i: int|
                    0 <= i < self.schema.fields@.len() && #[trigger] self.schema.fields@[i].name@
                        == field_name@ ==> i + 1 >= self.values@.len() || exists|j: int|
                        0 <= j < i && self.schema.fields@[j].name@ == field_name@,
            },
    {
        let n = self.schema.fields.len();
        let mut i: usize = 0;
        while i < n
            invariant
                i <= n,
                n == self.schema.fields@.len(),
                forall|j: int| 0 <= j < i ==> #[trigger] self.schema.fields@[j].name@ != field_name@,
            decreases n - i,
        {
            if self.schema.fields[i].name == *field_name {
                if self.values.len() > 0 && i < self.values.len() - 1 {
                    return Some(&self.values[i + 1]);
                }
                return None;
            }
            i = i + 1;
        }
        None
    }
}

/// Decodes a raw record under `schema`: the first field is kept as text,
/// the others are walked in step with the layout. Fields beyond the layout
/// are text, and a record shorter than its layout simply has fewer values.
/// On failure, the position of the first field that is not of its type.
pub fn decode_fields(raw: &Vec<Vec<u8>>, schema: &LineSchema) -> (r: Result<Line, usize>)
    requires
        raw@.len() >= 1,
    ensures
        ({
            let raws = raw@.map_values(|f: Vec<u8>| f@);
            match r {
                Ok(line) => line.schema@ == schema@ && all_decode(raws, schema@.1) && decoded_as(
                    raws,
                    schema@.1,
                    line@.1,
                ),
                Err(index) => 1 <= index < raws.len() && !decodes_at(raws, schema@.1, index as int)
                    && (forall|k: int| 1 <= k < index ==> #[trigger] decodes_at(raws, schema@.1, k)),
            }
        }),
{
    let ghost raws = raw@.map_values(|f: Vec<u8>| f@);
    let ghost fields = schema@.1;
    let mut values: Vec<Value> = Vec::new();
    assert(raws[0] == raw@[0]@);
    values.push(Value::String(decode_lossy(raw[0].as_slice())));
    let n = raw.len();
    let mut k: usize = 1;
    while k < n
        invariant
            1 <= k <= n,
            n == raw@.len(),
            raws == raw@.map_values(|f: Vec<u8>| f@),
            fields == schema@.1,
            values@.len() == k,
            values@[0]@ == ValueModel::String(lossy_text(raws[0])),
            forall|j: int|
                1 <= j < k ==> field_value(raws[j], position_layout(fields, j)) == Some(
                    #[trigger] values@[j]@,
                ),
        decreases n - k,
    {
        let layout: Option<&FieldSchema> = if k - 1 < schema.fields.len() {
            Some(&schema.fields[k - 1])
        } else {
            None
        };
        assert(layout_of(layout) == position_layout(fields, k as int));
        assert(raw@[k as int]@ == raws[k as int]);
        match parse_raw_field_val(raw[k].as_slice(), layout) {
            Some(v) => values.push(v),
            None => {
                assert(!decodes_at(raws, fields, k as int));
                assert forall|j: int| 1 <= j < k implies #[trigger] decodes_at(raws, fields, j) by {
                    assert(field_value(raws[j], position_layout(fields, j)) == Some(values@[j]@));
                }
                return Err(k);
            },
        }
        k = k + 1;
    }
    let line = Line { schema: schema.duplicate(), values };
    proof {
        assert forall|j: int| 1 <= j < raws.len() implies #[trigger] decodes_at(raws, fields, j) by {
            assert(field_value(raws[j], position_layout(fields, j)) == Some(line.values@[j]@));
        }
        assert(line@.1.len() == raws.len());
        assert forall|j: int| 1 <= j < raws.len() implies field_value(
            raws[j],
            position_layout(fields, j),
        ) == Some(#[trigger] line@.1[j]) by {
            assert(line@.1[j] == line.values@[j]@);
        }
    }
    Ok(line)
}

/// What decoding a raw record against the layout registered for its type
/// code promises: `Empty` for a record with no field, a schema error where
/// no layout is registered, else the decoded record or the first field that
/// is not of its type.
pub open spec fn parse_outcome(
    version: Seq<char>,
    raws: Seq<Seq<u8>>,
    registry: SchemaRegistry,
    r: Result<Line, RecordError>,
) -> bool {
    if raws.len() == 0 {
        r matches Err(RecordError::Empty)
    } else {
        let code = lossy_text(raws[0]);
        match registry.lookup_spec(version, code) {
            None => r matches Err(RecordError::Schema { version: v, code: c }) && v@ == version
                && c@ == code,
            Some(s) => match r {
                Ok(line) => line.schema@ == s && all_decode(raws, s.1) && decoded_as(
                    raws,
                    s.1,
                    line@.1,
                ),
                Err(RecordError::InvalidField { index }) => 1 <= index < raws.len()
                    && !decodes_at(raws, s.1, index as int) && (forall|k: int|
                    1 <= k < index ==> #[trigger] decodes_at(raws, s.1, k)),
                Err(_) => false,
            },
        }
    }
}

/// Decodes a raw record: its first field is the type code, which selects
/// the layout under `fec_version` and is kept as the first value.
pub fn parse(fec_version: &String, raw: &Vec<Vec<u8>>, registry: &SchemaRegistry) -> (r: Result<
    Line,
    RecordError,
>)
    ensures
        parse_outcome(fec_version@, raw@.map_values(|f: Vec<u8>| f@), *registry, r),
{
    if raw.len() == 0 {
        return Err(RecordError::Empty);
    }
    let ghost raws = raw@.map_values(|f: Vec<u8>| f@);
    let code = decode_lossy(raw[0].as_slice());
    assert(raws[0] == raw@[0]@);
    match registry.lookup(fec_version, &code) {
        Some(s) => match decode_fields(raw, s) {
            Ok(line) => Ok(line),
            Err(index) => Err(RecordError::InvalidField { index }),
        },
        None => Err(RecordError::Schema { version: fec_version.clone(), code }),
    }
}

/// Width never fails a record: a record decodes as soon as each field that
/// has a declared layout holds text of its type, however many more fields it
/// has (they are text) or however many fewer (nothing is filled in). The
/// values are then exactly one per field present.
pub proof fn lemma_width_tolerance(raws: Seq<Seq<u8>>, fields: Seq<FieldModel>, values: Seq<ValueModel>)
    requires
        forall|k: int| 1 <= k < raws.len() && k - 1 < fields.len() ==> #[trigger] decodes_at(raws, fields, k),
    ensures
        all_decode(raws, fields),
        decoded_as(raws, fields, values) ==> values.len() == raws.len(),
{
    assert forall|k: int| 1 <= k < raws.len() implies #[trigger] decodes_at(raws, fields, k) by {
        if k - 1 >= fields.len() {
            assert(position_layout(fields, k) == extra_field());
        }
    }
}

} // verus!
