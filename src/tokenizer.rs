use vstd::prelude::*;

verus! {

/// The byte that separates the fields of a body record.
#[derive(Clone, Copy, Debug, PartialEq, Eq, Structural)]
pub enum Separator {
    Comma,
    /// The ASCII unit-separator control byte (0x1c) of newer formats,
    /// which leaves commas in free text unambiguous.
    UnitSeparator,
}

pub open spec fn sep_byte(sep: Separator) -> u8 {
    match sep {
        Separator::Comma => 44,
        Separator::UnitSeparator => 28,
    }
}

impl Separator {
    pub fn byte(&self) -> (r: u8)
        ensures
            r == sep_byte(*self),
    {
        match self {
            Separator::Comma => 44u8,
            Separator::UnitSeparator => 28u8,
        }
    }
}

/// The fields of `l`: each separator byte starts a new field, every other
/// byte extends the last one. A line without separators is a single field.
pub open spec fn split_on(l: Seq<u8>, sep: u8) -> Seq<Seq<u8>>
    decreases l.len(),
{
    if l.len() == 0 {
        seq![Seq::<u8>::empty()]
    } else {
        let prev = split_on(l.drop_last(), sep);
        if l.last() == sep {
            prev.push(Seq::<u8>::empty())
        } else {
            prev.update(prev.len() - 1, prev.last().push(l.last()))
        }
    }
}

/// `l` without its line terminator: a final `\n`, then a final `\r`.
pub open spec fn strip_terminator(l: Seq<u8>) -> Seq<u8> {
    let a = if l.len() > 0 && l.last() == 10 {
        l.drop_last()
    } else {
        l
    };
    if a.len() > 0 && a.last() == 13 {
        a.drop_last()
    } else {
        a
    }
}

/// Whether a line holds no record at all.
pub open spec fn is_blank(l: Seq<u8>) -> bool {
    strip_terminator(l).len() == 0
}

/// The raw fields of the record on line `l`.
pub open spec fn record_fields(l: Seq<u8>, sep: Separator) -> Seq<Seq<u8>> {
    scan_record(strip_terminator(l), sep_byte(sep)).0
}

pub open spec fn views(v: Seq<Vec<u8>>) -> Seq<Seq<u8>> {
    v.map_values(|f: Vec<u8>| f@)
}

pub fn strip_line(l: &[u8]) -> (r: &[u8])
    ensures
        r@ == strip_terminator(l@),
{
    let mut n = l.len();
    if n > 0 && l[n - 1] == 10u8 {
        n = n - 1;
    }
    if n > 0 && l[n - 1] == 13u8 {
        n = n - 1;
    }
    let r = &l[0..n];
    proof {
        let a = if l@.len() > 0 && l@.last() == 10 {
            l@.drop_last()
        } else {
            l@
        };
        assert(a =~= l@.subrange(0, a.len() as int));
        assert(r@ =~= strip_terminator(l@));
    }
    r
}

/// Splits `l` at every `sep` byte.
pub fn split_bytes(l: &[u8], sep: u8) -> (r: Vec<Vec<u8>>)
    ensures
        views(r@) == split_on(l@, sep),
{
    let n = l.len();
    let mut fields: Vec<Vec<u8>> = Vec::new();
    let mut current: Vec<u8> = Vec::new();
    let mut i: usize = 0;
    assert(l@.subrange(0, 0) =~= Seq::<u8>::empty());
    assert(views(fields@).push(current@) =~= seq![Seq::<u8>::empty()]);
    while i < n
        invariant
            i <= n,
            n == l@.len(),
            split_on(l@.subrange(0, i as int), sep) == views(fields@).push(current@),
        decreases n - i,
    {
        let ghost prev = l@.subrange(0, i as int);
        assert(l@.subrange(0, i + 1).drop_last() =~= prev);
        let c = l[i];
        if c == sep {
            let ghost before = fields@;
            let mut done: Vec<u8> = Vec::new();
            std::mem::swap(&mut done, &mut current);
            fields.push(done);
            assert(views(fields@).push(current@) =~= views(before).push(done@).push(
                Seq::<u8>::empty(),
            )) by {
                assert(views(fields@) =~= views(before).push(done@));
            }
        } else {
            current.push(c);
            assert(views(fields@).push(current@) =~= split_on(prev, sep).update(
                split_on(prev, sep).len() - 1,
                split_on(prev, sep).last().push(c),
            ));
        }
        i = i + 1;
    }
    assert(l@.subrange(0, n as int) =~= l@);
    fields.push(current);
    assert(views(fields@) =~= split_on(l@, sep));
    fields
}

/// The line that writing `fields` separated by `sep` gives.
pub open spec fn join_with(fields: Seq<Seq<u8>>, sep: u8) -> Seq<u8>
    decreases fields.len(),
{
    if fields.len() <= 1 {
        if fields.len() == 1 {
            fields[0]
        } else {
            Seq::empty()
        }
    } else {
        join_with(fields.drop_last(), sep).push(sep) + fields.last()
    }
}

/// Whether no field holds the byte `b`.
pub open spec fn free_of(fields: Seq<Seq<u8>>, b: u8) -> bool {
    forall|i: int, j: int| 0 <= i < fields.len() && 0 <= j < fields[i].len() ==> #[trigger] fields[i][j] != b
}

proof fn lemma_join_bytes(fields: Seq<Seq<u8>>, sep: u8, b: u8)
    requires
        sep != b,
        free_of(fields, b),
    ensures
        forall|i: int| 0 <= i < join_with(fields, sep).len() ==> #[trigger] join_with(fields, sep)[i] != b,
    decreases fields.len(),
{
    if fields.len() > 1 {
        lemma_join_bytes(fields.drop_last(), sep, b);
        let j = join_with(fields.drop_last(), sep).push(sep);
        assert forall|i: int| 0 <= i < join_with(fields, sep).len() implies #[trigger] join_with(fields, sep)[i] != b by {
            if i >= j.len() {
                assert(join_with(fields, sep)[i] == fields[fields.len() - 1][i - j.len()]);
            }
        }
    } else if fields.len() == 1 {
        assert forall|i: int| 0 <= i < join_with(fields, sep).len() implies #[trigger] join_with(fields, sep)[i] != b by {
            assert(join_with(fields, sep)[i] == fields[0][i]);
        }
    }
}

/// Where a record's scan stands after a byte.
#[derive(Clone, Copy, Debug, PartialEq, Eq, Structural)]
pub enum ScanState {
    /// At the start of a field.
    Start,
    /// Inside a field that did not open with a quote.
    Unquoted,
    /// Inside a field that opened with a double quote.
    Quoted,
    /// Just after a double quote inside a quoted field: a second quote is a
    /// literal quote, anything else closes the quotes.
    QuoteSeen,
}

pub open spec fn extend_last(f: Seq<Seq<u8>>, c: u8) -> Seq<Seq<u8>> {
    f.update(f.len() - 1, f.last().push(c))
}

/// One byte of a record's scan. A field that opens with a double quote may
/// hold separators; inside it a doubled quote stands for one quote, and the
/// quote marks themselves are not part of the field.
pub open spec fn scan_step(f: Seq<Seq<u8>>, st: ScanState, c: u8, sep: u8) -> (Seq<Seq<u8>>, ScanState) {
    match st {
        ScanState::Start => if c == sep {
            (f.push(Seq::empty()), ScanState::Start)
        } else if c == 34 {
            (f, ScanState::Quoted)
        } else {
            (extend_last(f, c), ScanState::Unquoted)
        },
        ScanState::Unquoted => if c == sep {
            (f.push(Seq::empty()), ScanState::Start)
        } else {
            (extend_last(f, c), ScanState::Unquoted)
        },
        ScanState::Quoted => if c == 34 {
            (f, ScanState::QuoteSeen)
        } else {
            (extend_last(f, c), ScanState::Quoted)
        },
        ScanState::QuoteSeen => if c == 34 {
            (extend_last(f, 34), ScanState::Quoted)
        } else if c == sep {
            (f.push(Seq::empty()), ScanState::Start)
        } else {
            (extend_last(f, c), ScanState::Unquoted)
        },
    }
}

/// The fields of a record line read byte by byte, and where the scan ends.
pub open spec fn scan_record(l: Seq<u8>, sep: u8) -> (Seq<Seq<u8>>, ScanState)
    decreases l.len(),
{
    if l.len() == 0 {
        (seq![Seq::<u8>::empty()], ScanState::Start)
    } else {
        let prev = scan_record(l.drop_last(), sep);
        scan_step(prev.0, prev.1, l.last(), sep)
    }
}

proof fn lemma_scan_nonempty(l: Seq<u8>, sep: u8)
    ensures
        scan_record(l, sep).0.len() >= 1,
    decreases l.len(),
{
    if l.len() > 0 {
        lemma_scan_nonempty(l.drop_last(), sep);
    }
}

/// Splits a record line into its fields under `sep`, honouring quotes.
pub fn split_record(l: &[u8], sep: u8) -> (r: Vec<Vec<u8>>)
    ensures
        views(r@) == scan_record(l@, sep).0,
{
    let n = l.len();
    let mut fields: Vec<Vec<u8>> = Vec::new();
    let mut current: Vec<u8> = Vec::new();
    let mut st = ScanState::Start;
    let mut i: usize = 0;
    assert(l@.subrange(0, 0) =~= Seq::<u8>::empty());
    assert(views(fields@).push(current@) =~= seq![Seq::<u8>::empty()]);
    while i < n
        invariant
            i <= n,
            n == l@.len(),
            scan_record(l@.subrange(0, i as int), sep) == (views(fields@).push(current@), st),
        decreases n - i,
    {
        let ghost prev = l@.subrange(0, i as int);
        let ghost f = views(fields@).push(current@);
        assert(l@.subrange(0, i + 1).drop_last() =~= prev);
        let c = l[i];
        let ghost expect = scan_step(f, st, c, sep);
        let ghost before = fields@;
        let split = c == sep && (st == ScanState::Start || st == ScanState::Unquoted || (st
            == ScanState::QuoteSeen && c != 34u8));
        if split {
            let mut done: Vec<u8> = Vec::new();
            std::mem::swap(&mut done, &mut current);
            fields.push(done);
            st = ScanState::Start;
            assert(views(fields@) =~= views(before).push(done@));
            assert(views(fields@).push(current@) =~= f.push(Seq::<u8>::empty()));
        } else if c == 34u8 && st == ScanState::Start {
            st = ScanState::Quoted;
        } else if c == 34u8 && st == ScanState::Quoted {
            st = ScanState::QuoteSeen;
        } else {
            current.push(c);
            st = if st == ScanState::QuoteSeen {
                if c == 34u8 {
                    ScanState::Quoted
                } else {
                    ScanState::Unquoted
                }
            } else if st == ScanState::Start {
                ScanState::Unquoted
            } else {
                st
            };
            assert(views(fields@).push(current@) =~= extend_last(f, c));
        }
        assert(scan_record(l@.subrange(0, i + 1), sep) == expect);
        assert(st == expect.1);
        assert(views(fields@).push(current@) == expect.0);
        i = i + 1;
    }
    assert(l@.subrange(0, n as int) =~= l@);
    fields.push(current);
    assert(views(fields@) =~= scan_record(l@, sep).0);
    fields
}

/// Bytes free of the separator that do not open a quoted field extend the
/// last field.
proof fn lemma_scan_extend(a: Seq<u8>, b: Seq<u8>, sep: u8)
    requires
        sep != 34,
        scan_record(a, sep).1 == ScanState::Start || scan_record(a, sep).1 == ScanState::Unquoted,
        forall|j: int| 0 <= j < b.len() ==> #[trigger] b[j] != sep,
        scan_record(a, sep).1 == ScanState::Start && b.len() > 0 ==> b[0] != 34,
    ensures
        scan_record(a + b, sep).0 == extend_all(scan_record(a, sep).0, b),
        scan_record(a + b, sep).1 == if b.len() == 0 {
            scan_record(a, sep).1
        } else {
            ScanState::Unquoted
        },
    decreases b.len(),
{
    lemma_scan_nonempty(a, sep);
    let s = scan_record(a, sep).0;
    if b.len() == 0 {
        assert(a + b =~= a);
        assert(s.last() + b =~= s.last());
        assert(s.update(s.len() - 1, s.last()) =~= s);
    } else {
        let c = b.last();
        assert((a + b).drop_last() =~= a + b.drop_last());
        lemma_scan_extend(a, b.drop_last(), sep);
        assert((a + b).last() == c);
        if b.len() == 1 {
            assert(b[0] == c);
        }
        assert((s.last() + b.drop_last()).push(c) =~= s.last() + b);
        assert(scan_record(a + b, sep).0 =~= extend_all(s, b));
    }
}

/// `f` with the bytes `b` added to its last field.
pub open spec fn extend_all(f: Seq<Seq<u8>>, b: Seq<u8>) -> Seq<Seq<u8>> {
    f.update(f.len() - 1, f.last() + b)
}

/// Splitting undoes joining: fields that hold no separator byte and do not
/// open with a double quote come back as they were written, whatever other
/// bytes (commas among them) they hold.
pub proof fn lemma_split_join(fields: Seq<Seq<u8>>, sep: u8)
    requires
        fields.len() >= 1,
        sep != 34,
        free_of(fields, sep),
        forall|i: int| 0 <= i < fields.len() && fields[i].len() > 0 ==> #[trigger] fields[i][0] != 34,
    ensures
        scan_record(join_with(fields, sep), sep).0 == fields,
        scan_record(join_with(fields, sep), sep).1 == ScanState::Start || scan_record(
            join_with(fields, sep),
            sep,
        ).1 == ScanState::Unquoted,
    decreases fields.len(),
{
    let n = fields.len();
    let last = fields[n - 1];
    assert(forall|j: int| 0 <= j < last.len() ==> #[trigger] last[j] == fields[n - 1][j]);
    if n == 1 {
        lemma_scan_extend(Seq::empty(), last, sep);
        assert(Seq::<u8>::empty() + last =~= last);
        assert(scan_record(Seq::<u8>::empty(), sep).0 =~= seq![Seq::<u8>::empty()]);
        assert(scan_record(last, sep).0 =~= fields);
    } else {
        let init = fields.drop_last();
        assert(free_of(init, sep)) by {
            assert forall|i: int, j: int| 0 <= i < init.len() && 0 <= j < init[i].len() implies #[trigger] init[i][j] != sep by {
                assert(init[i] == fields[i]);
            }
        }
        assert forall|i: int| 0 <= i < init.len() && init[i].len() > 0 implies #[trigger] init[i][0] != 34 by {
            assert(init[i] == fields[i]);
        }
        lemma_split_join(init, sep);
        let a = join_with(init, sep).push(sep);
        assert(a.drop_last() =~= join_with(init, sep));
        assert(scan_record(a, sep).0 == init.push(Seq::<u8>::empty()));
        assert(scan_record(a, sep).1 == ScanState::Start);
        lemma_scan_extend(a, last, sep);
        assert(Seq::<u8>::empty() + last =~= last);
        assert(scan_record(join_with(fields, sep), sep).0 =~= fields);
    }
}

/// The unit-separator dialect round-trips a record: a line written from
/// fields that hold neither the unit separator nor a carriage return, and
/// that do not open with a double quote (free text with commas included),
/// reads back as exactly those fields.
pub proof fn lemma_unit_separator_round_trip(fields: Seq<Seq<u8>>)
    requires
        fields.len() >= 1,
        free_of(fields, 28),
        free_of(fields, 13),
        forall|i: int| 0 <= i < fields.len() && fields[i].len() > 0 ==> #[trigger] fields[i][0] != 34,
    ensures
        record_fields(join_with(fields, 28).push(10), Separator::UnitSeparator) == fields,
{
    let j = join_with(fields, 28);
    lemma_join_bytes(fields, 28, 13);
    assert(j.push(10).drop_last() =~= j);
    if j.len() > 0 {
        assert(j[j.len() - 1] != 13);
    }
    assert(strip_terminator(j.push(10)) == j);
    lemma_split_join(fields, 28);
}

} // verus!
