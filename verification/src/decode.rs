//! Decoding of tabular input into typed records.
//!
//! The first record of an input names the columns; every record after it is
//! one row. Decoding is strict: a row either gives its record or a fault, and
//! nothing is skipped or guessed.

use crate::numeral::{
    check_decimal_numeral, is_decimal_numeral, parse_i32_field, parse_u16_field, parse_u32_field,
    spec_i32_field, spec_u16_field, spec_u32_field,
};
use crate::timing::{
    parse_lap_duration, parse_pit_stop_duration, parse_wall_time, spec_lap_duration,
    spec_pit_stop_duration, spec_wall_time, Elapsed, WallTime,
};
use vstd::prelude::*;
use vstd::string::*;
use vstd::utf8::{decode_utf8, encode_utf8, valid_utf8};

verus! {

/// The records that the `csv` crate reads from `input`, the first one
/// included, each as the bytes of its fields.
pub uninterp spec fn csv_records(input: Seq<u8>) -> Seq<Seq<Seq<u8>>>;

/// The fields of a record.
pub open spec fn record_view(record: Vec<Vec<u8>>) -> Seq<Seq<u8>> {
    record@.map_values(|field: Vec<u8>| field@)
}

/// The records of an input.
pub open spec fn records_view(records: Vec<Vec<Vec<u8>>>) -> Seq<Seq<Seq<u8>>> {
    records@.map_values(|record: Vec<Vec<u8>>| record_view(record))
}

/// Reads `input` with a `csv::Reader` that treats no record as a header and
/// accepts records of any length (`has_headers(false)`, `flexible(true)`), and
/// copies the fields of each `ByteRecord` that `byte_records` yields. The
/// contract names what was read.
#[verifier::external_body]
fn read_csv_records(input: &[u8]) -> (records: Vec<Vec<Vec<u8>>>)
    ensures
        records_view(records) == csv_records(input@),
{
    let mut reader = csv::ReaderBuilder::new().has_headers(false).flexible(true).from_reader(input);
    reader.byte_records().map_while(|r| r.ok()).map(
        |record| record.iter().map(|field| field.to_vec()).collect(),
    ).collect()
}

/// Splits an input into its records, the header first.
pub fn read_records(input: &[u8]) -> (records: Vec<Vec<Vec<u8>>>)
    ensures
        records_view(records) == csv_records(input@),
{
    read_csv_records(input)
}

/// Calls `String::from_utf8` on a copy of `bytes`. As its documentation says,
/// there is a string exactly when the bytes are UTF-8, and it holds the
/// characters that they encode.
#[verifier::external_body]
fn string_from_utf8(bytes: &[u8]) -> (text: Option<String>)
    ensures
        text is Some <==> valid_utf8(bytes@),
        text matches Some(t) ==> t@ == decode_utf8(bytes@),
{
    String::from_utf8(bytes.to_vec()).ok()
}

/// What a field of a record is read as.
#[derive(Clone, Copy, Debug, PartialEq, Eq, Structural)]
pub enum FieldKind {
    /// A number that fits an `i32`.
    I32,
    /// A number that fits a `u16`.
    U16,
    /// A number that fits a `u32`.
    U32,
    /// Any text.
    Text,
    /// Any text; absent where the field is empty or has no column.
    OptText,
    /// A number that fits a `u16`; absent where the field is empty or has no column.
    OptU16,
    /// A decimal numeral; absent where the field is empty or has no column.
    OptDecimal,
    /// A lap duration, `M:SS.mmm`.
    LapDuration,
    /// A time of day, `HH:MM:SS`.
    TimeOfDay,
    /// A pit stop duration, `SS.mmm`.
    StopDuration,
}

impl FieldKind {
    /// A record may lack a column of this kind.
    pub open spec fn spec_optional(self) -> bool {
        self == FieldKind::OptText || self == FieldKind::OptU16 || self == FieldKind::OptDecimal
    }

    pub fn optional(&self) -> (b: bool)
        ensures
            b == self.spec_optional(),
    {
        match self {
            FieldKind::OptText | FieldKind::OptU16 | FieldKind::OptDecimal => true,
            _ => false,
        }
    }
}

/// What was read from one field.
#[derive(Debug, PartialEq, Eq)]
pub enum Cell {
    Absent,
    Int(i64),
    Text(String),
    Time(WallTime),
    Span(Elapsed),
}

pub enum CellView {
    Absent,
    Int(i64),
    Text(Seq<char>),
    Time(WallTime),
    Span(Elapsed),
}

impl View for Cell {
    type V = CellView;

    open spec fn view(&self) -> CellView {
        match self {
            Cell::Absent => CellView::Absent,
            Cell::Int(n) => CellView::Int(*n),
            Cell::Text(t) => CellView::Text(t@),
            Cell::Time(t) => CellView::Time(*t),
            Cell::Span(e) => CellView::Span(*e),
        }
    }
}

/// The cell is one that a field of this kind can give.
pub open spec fn cell_fits(kind: FieldKind, cell: CellView) -> bool {
    match kind {
        FieldKind::I32 => cell matches CellView::Int(n) && i32::MIN <= n <= i32::MAX,
        FieldKind::U16 => cell matches CellView::Int(n) && 0 <= n <= u16::MAX,
        FieldKind::U32 => cell matches CellView::Int(n) && 0 <= n <= u32::MAX,
        FieldKind::Text => cell is Text,
        FieldKind::OptText => cell is Text || cell is Absent,
        FieldKind::OptU16 => cell is Absent || (cell matches CellView::Int(n) && 0 <= n
            <= u16::MAX),
        FieldKind::OptDecimal => cell is Text || cell is Absent,
        FieldKind::LapDuration => cell is Span,
        FieldKind::TimeOfDay => cell is Time,
        FieldKind::StopDuration => cell is Span,
    }
}

/// The text that a field holds, if it holds text.
pub open spec fn field_text(field: Seq<u8>) -> Option<Seq<char>> {
    if valid_utf8(field) {
        Some(decode_utf8(field))
    } else {
        None
    }
}

/// What a field is read as; `None` where it does not hold what its kind asks for.
pub open spec fn spec_decode_cell(kind: FieldKind, field: Seq<u8>) -> Option<CellView> {
    match kind {
        FieldKind::I32 => match spec_i32_field(field) {
            Some(n) => Some(CellView::Int(n as i64)),
            None => None,
        },
        FieldKind::U16 => match spec_u16_field(field) {
            Some(n) => Some(CellView::Int(n as i64)),
            None => None,
        },
        FieldKind::U32 => match spec_u32_field(field) {
            Some(n) => Some(CellView::Int(n as i64)),
            None => None,
        },
        FieldKind::Text => match field_text(field) {
            Some(text) => Some(CellView::Text(text)),
            None => None,
        },
        FieldKind::OptText => if field.len() == 0 {
            Some(CellView::Absent)
        } else {
            match field_text(field) {
                Some(text) => Some(CellView::Text(text)),
                None => None,
            }
        },
        FieldKind::OptU16 => if field.len() == 0 {
            Some(CellView::Absent)
        } else {
            match spec_u16_field(field) {
                Some(n) => Some(CellView::Int(n as i64)),
                None => None,
            }
        },
        FieldKind::OptDecimal => if field.len() == 0 {
            Some(CellView::Absent)
        } else if is_decimal_numeral(field) {
            match field_text(field) {
                Some(text) => Some(CellView::Text(text)),
                None => None,
            }
        } else {
            None
        },
        FieldKind::LapDuration => match field_text(field) {
            Some(text) => match spec_lap_duration(text) {
                Some(e) => Some(CellView::Span(e)),
                None => None,
            },
            None => None,
        },
        FieldKind::TimeOfDay => match field_text(field) {
            Some(text) => match spec_wall_time(text) {
                Some(t) => Some(CellView::Time(t)),
                None => None,
            },
            None => None,
        },
        FieldKind::StopDuration => match field_text(field) {
            Some(text) => match spec_pit_stop_duration(text) {
                Some(e) => Some(CellView::Span(e)),
                None => None,
            },
            None => None,
        },
    }
}

/// Reads one field as its kind asks.
pub fn decode_cell(kind: FieldKind, field: &[u8]) -> (cell: Option<Cell>)
    ensures
        match cell {
            Some(c) => spec_decode_cell(kind, field@) == Some(c@) && cell_fits(kind, c@),
            None => spec_decode_cell(kind, field@) is None,
        },
{
    match kind {
        FieldKind::I32 => match parse_i32_field(field) {
            Some(n) => Some(Cell::Int(n as i64)),
            None => None,
        },
        FieldKind::U16 => match parse_u16_field(field) {
            Some(n) => Some(Cell::Int(n as i64)),
            None => None,
        },
        FieldKind::U32 => match parse_u32_field(field) {
            Some(n) => Some(Cell::Int(n as i64)),
            None => None,
        },
        FieldKind::Text => match string_from_utf8(field) {
            Some(t) => Some(Cell::Text(t)),
            None => None,
        },
        FieldKind::OptText => if field.len() == 0 {
            Some(Cell::Absent)
        } else {
            match string_from_utf8(field) {
                Some(t) => Some(Cell::Text(t)),
                None => None,
            }
        },
        FieldKind::OptU16 => if field.len() == 0 {
            Some(Cell::Absent)
        } else {
            match parse_u16_field(field) {
                Some(n) => Some(Cell::Int(n as i64)),
                None => None,
            }
        },
        FieldKind::OptDecimal => if field.len() == 0 {
            Some(Cell::Absent)
        } else if check_decimal_numeral(field) {
            match string_from_utf8(field) {
                Some(t) => Some(Cell::Text(t)),
                None => None,
            }
        } else {
            None
        },
        FieldKind::LapDuration => match string_from_utf8(field) {
            Some(t) => match parse_lap_duration(t.as_str()) {
                Ok(e) => Some(Cell::Span(e)),
                Err(_) => None,
            },
            None => None,
        },
        FieldKind::TimeOfDay => match string_from_utf8(field) {
            Some(t) => match parse_wall_time(t.as_str()) {
                Ok(time) => Some(Cell::Time(time)),
                Err(_) => None,
            },
            None => None,
        },
        FieldKind::StopDuration => match string_from_utf8(field) {
            Some(t) => match parse_pit_stop_duration(t.as_str()) {
                Ok(e) => Some(Cell::Span(e)),
                Err(_) => None,
            },
            None => None,
        },
    }
}

/// One field of a record's shape: the name of its column and what it is read as.
#[derive(Clone, Copy, Debug, PartialEq, Eq)]
pub struct Field {
    pub name: &'static str,
    pub kind: FieldKind,
}

pub struct FieldView {
    pub name: Seq<char>,
    pub kind: FieldKind,
}

impl View for Field {
    type V = FieldView;

    open spec fn view(&self) -> FieldView {
        FieldView { name: self.name@, kind: self.kind }
    }
}

/// The fields of a shape.
pub open spec fn fields_view(fields: Vec<Field>) -> Seq<FieldView> {
    fields@.map_values(|f: Field| f@)
}

/// Why a row gives no record.
#[derive(Clone, Copy, Debug, PartialEq, Eq, Structural)]
pub enum DecodeFault {
    /// The row has another number of fields than the header.
    UnequalLengths { expected: usize, found: usize },
    /// A field of the row is not UTF-8.
    InvalidText,
    /// The column repeats a field that an earlier column gave.
    DuplicateField { column: usize },
    /// The column does not hold what its field is read as.
    InvalidField { column: usize },
    /// No column gives the field, counted in the shape's order.
    MissingField { field: usize },
}

/// Every field of the record is UTF-8.
pub open spec fn all_utf8(record: Seq<Seq<u8>>) -> bool {
    forall|i: int| 0 <= i < record.len() ==> valid_utf8(#[trigger] record[i])
}

/// The first field from `from` on whose name is written `name`.
pub open spec fn field_named(fields: Seq<FieldView>, name: Seq<u8>, from: int) -> Option<int>
    decreases fields.len() - from,
{
    if from >= fields.len() {
        None
    } else if encode_utf8(fields[from].name) == name {
        Some(from)
    } else {
        field_named(fields, name, from + 1)
    }
}

/// The field that column `j` gives. Columns go by their names in the header;
/// under a header that is not text they go by their place.
pub open spec fn column_field(
    fields: Seq<FieldView>,
    header: Seq<Seq<u8>>,
    named: bool,
    j: int,
) -> Option<int> {
    if named {
        field_named(fields, header[j], 0)
    } else if j < fields.len() {
        Some(j)
    } else {
        None
    }
}

/// Reads the columns from `j` on, in their order, into `cells`. A column that
/// gives no field of the shape is passed over.
pub open spec fn decode_columns(
    fields: Seq<FieldView>,
    header: Seq<Seq<u8>>,
    named: bool,
    row: Seq<Seq<u8>>,
    j: int,
    cells: Seq<Option<CellView>>,
) -> Result<Seq<Option<CellView>>, DecodeFault>
    decreases row.len() - j,
{
    if j >= row.len() {
        Ok(cells)
    } else {
        match column_field(fields, header, named, j) {
            None => decode_columns(fields, header, named, row, j + 1, cells),
            Some(k) => if cells[k] is Some {
                Err(DecodeFault::DuplicateField { column: j as usize })
            } else {
                match spec_decode_cell(fields[k].kind, row[j]) {
                    None => Err(DecodeFault::InvalidField { column: j as usize }),
                    Some(cell) => decode_columns(
                        fields,
                        header,
                        named,
                        row,
                        j + 1,
                        cells.update(k, Some(cell)),
                    ),
                }
            },
        }
    }
}

/// The first field from `k` on that no column gave and that the record cannot
/// lack. Only a record whose columns go by name can lack an optional field.
pub open spec fn first_missing(
    fields: Seq<FieldView>,
    named: bool,
    cells: Seq<Option<CellView>>,
    k: int,
) -> Option<int>
    decreases fields.len() - k,
{
    if k >= fields.len() {
        None
    } else if cells[k] is None && !(named && fields[k].kind.spec_optional()) {
        Some(k)
    } else {
        first_missing(fields, named, cells, k + 1)
    }
}

/// The cells with each field that no column gave marked absent.
pub open spec fn filled(cells: Seq<Option<CellView>>) -> Seq<CellView> {
    Seq::new(
        cells.len(),
        |k: int|
            match cells[k] {
                Some(cell) => cell,
                None => CellView::Absent,
            },
    )
}

/// What a row is read as under a header: one cell for each field of the
/// shape, or the first fault. The faults come in this order: the row's length,
/// its text, then its columns from left to right, then the fields that no
/// column gave.
pub open spec fn spec_decode_row(
    fields: Seq<FieldView>,
    header: Seq<Seq<u8>>,
    row: Seq<Seq<u8>>,
) -> Result<Seq<CellView>, DecodeFault> {
    if row.len() != header.len() {
        Err(
            DecodeFault::UnequalLengths {
                expected: header.len() as usize,
                found: row.len() as usize,
            },
        )
    } else if !all_utf8(row) {
        Err(DecodeFault::InvalidText)
    } else {
        let named = all_utf8(header);
        let start = Seq::new(fields.len(), |k: int| None::<CellView>);
        match decode_columns(fields, header, named, row, 0, start) {
            Err(fault) => Err(fault),
            Ok(cells) => match first_missing(fields, named, cells, 0) {
                Some(k) => Err(DecodeFault::MissingField { field: k as usize }),
                None => Ok(filled(cells)),
            },
        }
    }
}

/// The cells of a row.
pub open spec fn cells_view(cells: Vec<Cell>) -> Seq<CellView> {
    cells@.map_values(|c: Cell| c@)
}

fn bytes_equal(a: &[u8], b: &[u8]) -> (eq: bool)
    ensures
        eq == (a@ == b@),
{
    if a.len() != b.len() {
        return false;
    }
    let mut i: usize = 0;
    while i < a.len()
        invariant
            a.len() == b.len(),
            i <= a.len(),
            forall|k: int| 0 <= k < i ==> a@[k] == b@[k],
        decreases a.len() - i,
    {
        if a[i] != b[i] {
            return false;
        }
        i = i + 1;
    }
    assert(a@ =~= b@);
    true
}

fn is_text(record: &Vec<Vec<u8>>) -> (ok: bool)
    ensures
        ok == all_utf8(record_view(*record)),
{
    let mut i: usize = 0;
    while i < record.len()
        invariant
            i <= record.len(),
            forall|k: int| 0 <= k < i ==> valid_utf8(#[trigger] record_view(*record)[k]),
        decreases record.len() - i,
    {
        if string_from_utf8(record[i].as_slice()).is_none() {
            assert(!valid_utf8(record_view(*record)[i as int]));
            return false;
        }
        i = i + 1;
    }
    true
}

fn find_field(fields: &Vec<Field>, name: &[u8]) -> (found: Option<usize>)
    ensures
        match found {
            Some(k) => k < fields.len() && field_named(fields_view(*fields), name@, 0) == Some(
                k as int,
            ),
            None => field_named(fields_view(*fields), name@, 0) is None,
        },
{
    let mut k: usize = 0;
    while k < fields.len()
        invariant
            k <= fields.len(),
            field_named(fields_view(*fields), name@, 0) == field_named(
                fields_view(*fields),
                name@,
                k as int,
            ),
        decreases fields.len() - k,
    {
        assert(fields_view(*fields)[k as int] == fields@[k as int]@);
        if bytes_equal(fields[k].name.as_bytes(), name) {
            return Some(k);
        }
        k = k + 1;
    }
    None
}

/// The cells read so far: those of the fields that a column gave.
spec fn cells_so_far(cells: Vec<Cell>, seen: Vec<bool>) -> Seq<Option<CellView>> {
    Seq::new(
        cells@.len(),
        |k: int|
            if seen@[k] {
                Some(cells@[k]@)
            } else {
                None
            },
    )
}

/// Reads a row under a header as the shape `fields` asks: one cell for each
/// field, in the shape's order.
pub fn decode_row(fields: &Vec<Field>, header: &Vec<Vec<u8>>, row: &Vec<Vec<u8>>) -> (result:
    Result<Vec<Cell>, DecodeFault>)
    ensures
        match result {
            Ok(cells) => {
                &&& spec_decode_row(fields_view(*fields), record_view(*header), record_view(*row))
                    == Ok::<Seq<CellView>, DecodeFault>(cells_view(cells))
                &&& cells.len() == fields.len()
                &&& forall|k: int|
                    0 <= k < cells.len() ==> cell_fits(
                        (#[trigger] fields@[k]).kind,
                        cells@[k]@,
                    )
            },
            Err(fault) => spec_decode_row(
                fields_view(*fields),
                record_view(*header),
                record_view(*row),
            ) == Err::<Seq<CellView>, DecodeFault>(fault),
        },
{
    let ghost fv = fields_view(*fields);
    let ghost hv = record_view(*header);
    let ghost rv = record_view(*row);
    if row.len() != header.len() {
        return Err(DecodeFault::UnequalLengths { expected: header.len(), found: row.len() });
    }
    if !is_text(row) {
        return Err(DecodeFault::InvalidText);
    }
    let named = is_text(header);
    let mut cells: Vec<Cell> = Vec::new();
    let mut seen: Vec<bool> = Vec::new();
    while cells.len() < fields.len()
        invariant
            cells.len() == seen.len(),
            cells.len() <= fields.len(),
            forall|k: int| 0 <= k < cells.len() ==> !seen@[k] && cells@[k]@ == CellView::Absent,
        decreases fields.len() - cells.len(),
    {
        cells.push(Cell::Absent);
        seen.push(false);
    }
    let ghost start = Seq::new(fv.len(), |k: int| None::<CellView>);
    assert(cells_so_far(cells, seen) =~= start);
    let mut j: usize = 0;
    while j < row.len()
        invariant
            j <= row.len(),
            row.len() == header.len(),
            fv == fields_view(*fields),
            hv == record_view(*header),
            rv == record_view(*row),
            all_utf8(rv),
            named == all_utf8(hv),
            start == Seq::new(fv.len(), |k: int| None::<CellView>),
            cells.len() == fields.len(),
            seen.len() == fields.len(),
            forall|k: int| 0 <= k < cells.len() ==> (!seen@[k] ==> cells@[k]@ == CellView::Absent),
            forall|k: int|
                0 <= k < cells.len() ==> (seen@[k] ==> cell_fits(
                    (#[trigger] fields@[k]).kind,
                    cells@[k]@,
                )),
            decode_columns(fv, hv, named, rv, 0, start) == decode_columns(
                fv,
                hv,
                named,
                rv,
                j as int,
                cells_so_far(cells, seen),
            ),
        decreases row.len() - j,
    {
        let ghost before = cells_so_far(cells, seen);
        let target: Option<usize> = if named {
            find_field(fields, header[j].as_slice())
        } else if j < fields.len() {
            Some(j)
        } else {
            None
        };
        assert(hv[j as int] == header@[j as int]@);
        assert(rv[j as int] == row@[j as int]@);
        assert(match target {
            Some(k) => column_field(fv, hv, named, j as int) == Some(k as int),
            None => column_field(fv, hv, named, j as int) is None,
        });
        if let Some(k) = target {
            assert(fv[k as int] == fields@[k as int]@);
            if seen[k] {
                return Err(DecodeFault::DuplicateField { column: j });
            }
            match decode_cell(fields[k].kind, row[j].as_slice()) {
                None => {
                    return Err(DecodeFault::InvalidField { column: j });
                },
                Some(cell) => {
                    let ghost cv = cell@;
                    cells.set(k, cell);
                    seen.set(k, true);
                    assert(cells_so_far(cells, seen) =~= before.update(k as int, Some(cv)));
                },
            }
        }
        j = j + 1;
    }
    let ghost done = cells_so_far(cells, seen);
    let mut k: usize = 0;
    while k < fields.len()
        invariant
            k <= fields.len(),
            row.len() == header.len(),
            fv == fields_view(*fields),
            hv == record_view(*header),
            rv == record_view(*row),
            all_utf8(rv),
            named == all_utf8(hv),
            start == Seq::new(fv.len(), |k: int| None::<CellView>),
            decode_columns(fv, hv, named, rv, 0, start) == Ok::<
                Seq<Option<CellView>>,
                DecodeFault,
            >(done),
            cells.len() == fields.len(),
            seen.len() == fields.len(),
            done == cells_so_far(cells, seen),
            first_missing(fv, named, done, 0) == first_missing(fv, named, done, k as int),
        decreases fields.len() - k,
    {
        assert(fv[k as int] == fields@[k as int]@);
        if !seen[k] && !(named && fields[k].kind.optional()) {
            return Err(DecodeFault::MissingField { field: k });
        }
        k = k + 1;
    }
    assert(cells_view(cells) =~= filled(done));
    assert forall|k: int| 0 <= k < cells.len() implies cell_fits(
        (#[trigger] fields@[k]).kind,
        cells@[k]@,
    ) by {
        assert(fv[k] == fields@[k]@);
        if !seen@[k] {
            assert(done[k] is None);
            assert(first_missing(fv, named, done, 0) is None);
            lemma_none_missing(fv, named, done, 0, k);
        }
    }
    Ok(cells)
}

/// Where no field is missing, each field that no column gave is optional.
proof fn lemma_none_missing(
    fields: Seq<FieldView>,
    named: bool,
    cells: Seq<Option<CellView>>,
    from: int,
    k: int,
)
    requires
        0 <= from <= k < fields.len(),
        first_missing(fields, named, cells, from) is None,
        cells[k] is None,
    ensures
        named && fields[k].kind.spec_optional(),
    decreases k - from,
{
    if from < k {
        lemma_none_missing(fields, named, cells, from + 1, k);
    }
}

} // verus!
