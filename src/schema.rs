use vstd::prelude::*;

verus! {

/// The declared type of a field: what its raw text is coerced into.
#[derive(Clone, Copy, Debug, PartialEq, Eq, Structural)]
pub enum ValueType {
    String,
    Integer,
    Float,
    Date,
    Boolean,
}

/// One named, typed position of a record layout.
#[derive(Clone, Debug)]
pub struct FieldSchema {
    pub name: String,
    pub typ: ValueType,
}

/// The layout of the records carrying one type code, eg "F3" or "SA11".
///
/// Two layouts are equal when their codes are: the fields are not part of
/// a layout's identity.
#[derive(Clone, Debug)]
pub struct LineSchema {
    pub code: String,
    pub fields: Vec<FieldSchema>,
}

/// A field layout as plain values: its name and its type.
pub type FieldModel = (Seq<char>, ValueType);

/// A record layout as plain values: its code and its fields, in order.
pub type SchemaModel = (Seq<char>, Seq<FieldModel>);

impl View for FieldSchema {
    type V = FieldModel;

    open spec fn view(&self) -> FieldModel {
        (self.name@, self.typ)
    }
}

impl View for LineSchema {
    type V = SchemaModel;

    open spec fn view(&self) -> SchemaModel {
        (self.code@, self.fields@.map_values(|f: FieldSchema| f@))
    }
}

/// The layout that stands for a field beyond the end of a record's layout.
pub open spec fn extra_field() -> FieldModel {
    (seq!['e', 'x', 't', 'r', 'a'], ValueType::String)
}

impl FieldSchema {
    pub fn new(name: &str, typ: ValueType) -> (r: FieldSchema)
        ensures
            r@ == (name@, typ),
    {
        FieldSchema { name: name.to_owned(), typ }
    }

    /// The layout used for fields that a record has beyond its declared ones.
    pub fn extra() -> (r: FieldSchema)
        ensures
            r@ == extra_field(),
    {
        let name = String::from_str("extra");
        proof {
            reveal_strlit("extra");
            assert(name@ =~= extra_field().0);
        }
        FieldSchema { name, typ: ValueType::String }
    }

    pub fn duplicate(&self) -> (r: FieldSchema)
        ensures
            r@ == self@,
    {
        FieldSchema { name: self.name.clone(), typ: self.typ }
    }
}

impl LineSchema {
    pub fn new(code: &str, fields: Vec<FieldSchema>) -> (r: LineSchema)
        ensures
            r@ == (code@, fields@.map_values(|f: FieldSchema| f@)),
    {
        LineSchema { code: code.to_owned(), fields }
    }

    pub fn duplicate(&self) -> (r: LineSchema)
        ensures
            r@ == self@,
    {
        let mut fields: Vec<FieldSchema> = Vec::new();
        let n = self.fields.len();
        for i in 0..n
            invariant
                n == self.fields@.len(),
                fields@.len() == i,
                forall|j: int| 0 <= j < i ==> #[trigger] fields@[j]@ == self.fields@[j]@,
        {
            fields.push(self.fields[i].duplicate());
        }
        let r = LineSchema { code: self.code.clone(), fields };
        assert(r@.1 =~= self@.1);
        r
    }
}

impl PartialEq for LineSchema {
    fn eq(&self, other: &LineSchema) -> (r: bool) {
        self.code == other.code
    }
}

impl vstd::std_specs::cmp::PartialEqSpecImpl for LineSchema {
    open spec fn obeys_eq_spec() -> bool {
        true
    }

    open spec fn eq_spec(&self, other: &LineSchema) -> bool {
        self.code@ == other.code@
    }
}

impl Eq for LineSchema {}

/// Whether an entry of a registry is the layout of `code` under `version`.
pub open spec fn entry_matches(e: (Seq<char>, SchemaModel), version: Seq<char>, code: Seq<char>) -> bool {
    e.0 == version && e.1.0 == code
}

/// The layout of the first entry registered for `version` and `code`.
pub open spec fn find_schema(entries: Seq<(Seq<char>, SchemaModel)>, version: Seq<char>, code: Seq<char>) -> Option<SchemaModel>
    decreases entries.len(),
{
    if entries.len() == 0 {
        None
    } else if entry_matches(entries[0], version, code) {
        Some(entries[0].1)
    } else {
        find_schema(entries.drop_first(), version, code)
    }
}

/// The table of known record layouts, partitioned by format version.
pub struct SchemaRegistry {
    entries: Vec<(String, LineSchema)>,
}

impl SchemaRegistry {
    /// The registered (version, layout) pairs, oldest first.
    pub closed spec fn entries(&self) -> Seq<(Seq<char>, SchemaModel)> {
        self.entries@.map_values(|e: (String, LineSchema)| (e.0@, e.1@))
    }

    /// The layout that a lookup of `code` under `version` gives.
    pub open spec fn lookup_spec(&self, version: Seq<char>, code: Seq<char>) -> Option<SchemaModel> {
        find_schema(self.entries(), version, code)
    }

    pub fn new() -> (r: SchemaRegistry)
        ensures
            r.entries() == Seq::<(Seq<char>, SchemaModel)>::empty(),
    {
        let r = SchemaRegistry { entries: Vec::new() };
        assert(r.entries() =~= Seq::<(Seq<char>, SchemaModel)>::empty());
        r
    }

    /// Registers `schema` for `version`; an earlier entry for the same
    /// version and code keeps precedence.
    pub fn add(&mut self, version: &str, schema: LineSchema)
        ensures
            final(self).entries() == old(self).entries().push((version@, schema@)),
    {
        self.entries.push((version.to_owned(), schema));
        assert(self.entries() =~= old(self).entries().push((version@, schema@)));
    }

    /// The layout of `code` under `version`, if one is registered.
    pub fn lookup(&self, version: &String, code: &String) -> (r: Option<&LineSchema>)
        ensures
            match r {
                Some(s) => self.lookup_spec(version@, code@) == Some(s@),
                None => self.lookup_spec(version@, code@) is None,
            },
    {
        let n = self.entries.len();
        let mut i: usize = 0;
        assert(self.entries().subrange(0, n as int) =~= self.entries());
        while i < n
            invariant
                n == self.entries@.len(),
                i <= n,
                self.lookup_spec(version@, code@) == find_schema(
                    self.entries().subrange(i as int, n as int),
                    version@,
                    code@,
                ),
            decreases n - i,
        {
            let e = &self.entries[i];
            let ghost rest = self.entries().subrange(i as int, n as int);
            assert(rest[0] == (e.0@, e.1@));
            if e.0 == *version && e.1.code == *code {
                return Some(&e.1);
            }
            assert(rest.drop_first() =~= self.entries().subrange(i + 1, n as int));
            i = i + 1;
        }
        None
    }
}

} // verus!
