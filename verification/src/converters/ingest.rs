//! What the two row ingestions share: synthesized headers, the number of
//! batches, the batch of text columns that a run of rows fills, and the
//! file that each batch is written to.

use vstd::prelude::*;
use crate::converters::batch::{Cell, CellView, Column, Field, PhysicalType, RecordBatch};
use crate::error::TransmutaError;
use crate::paths::{
    extension_of,
    file_stem_of,
    path_extension,
    path_file_stem,
    path_with_file_name,
    with_file_name,
};
use crate::text::{
    decimal_digits,
    from_chars,
    push_chars,
    push_decimal_digits,
    push_zero_padded,
    zero_padded,
};

verus! {

/// The name given to the column with index `index` of a source without
/// header: `Column` and the column's number, counted from one.
pub open spec fn default_header(index: int) -> Seq<char> {
    "Column"@ + decimal_digits((index + 1) as nat)
}

/// The names `Column1`, `Column2` and so on, for `count` columns.
pub fn default_headers(count: usize) -> (r: Vec<String>)
    ensures
        r@.len() == count,
        forall|i: int| 0 <= i < count ==> (#[trigger] r@[i])@ == default_header(i),
{
    let mut headers: Vec<String> = Vec::new();
    let mut i: usize = 0;
    while i < count
        invariant
            i <= count,
            headers@.len() == i,
            forall|k: int| 0 <= k < i ==> (#[trigger] headers@[k])@ == default_header(k),
        decreases count - i,
    {
        let mut name: Vec<char> = Vec::new();
        push_chars(&mut name, "Column");
        push_decimal_digits(&mut name, i as u128 + 1);
        proof {
            assert(name@ =~= default_header(i as int));
        }
        headers.push(from_chars(&name));
        i += 1;
    }
    headers
}

/// The number of batches of at most `size` rows that `total` rows fill: the
/// quotient rounded up.
pub open spec fn batches_needed(total: int, size: int) -> int {
    (total + size - 1) / size
}

/// The number of rows of the batch with index `index`: `size`, but for a
/// last batch that holds what is left.
pub open spec fn rows_in_batch(total: int, size: int, index: int) -> int {
    if total - index * size < size {
        total - index * size
    } else {
        size
    }
}

/// The number of batches of at most `batch_size` rows that `total_rows` rows
/// fill.
pub fn batch_count(total_rows: usize, batch_size: usize) -> (r: usize)
    requires
        batch_size > 0,
    ensures
        r == batches_needed(total_rows as int, batch_size as int),
{
    let full = total_rows / batch_size;
    let rest = total_rows % batch_size;
    proof {
        lemma_batches_needed(total_rows as int, batch_size as int);
        vstd::arithmetic::div_mod::lemma_fundamental_div_mod(total_rows as int, batch_size as int);
        assert(batch_size * full == full * batch_size) by (nonlinear_arith);
        assert(rest != 0 ==> full < total_rows) by (nonlinear_arith)
            requires
                total_rows == full * batch_size + rest,
                batch_size > 0,
                full >= 0,
        ;
    }
    if rest == 0 {
        full
    } else {
        full + 1
    }
}

/// The quotient rounded up is the quotient, and one more where a remainder
/// is left.
pub proof fn lemma_batches_needed(total: int, size: int)
    requires
        0 <= total,
        0 < size,
    ensures
        batches_needed(total, size) == total / size + if total % size == 0 {
            0int
        } else {
            1int
        },
{
    let q = total / size;
    let m = total % size;
    assert(total == q * size + m && 0 <= m < size) by {
        vstd::arithmetic::div_mod::lemma_fundamental_div_mod(total, size);
    }
    let up = total + size - 1;
    if m == 0 {
        assert(up == q * size + (size - 1));
        vstd::arithmetic::div_mod::lemma_fundamental_div_mod_converse(up, size, q, size - 1);
    } else {
        assert(up == (q + 1) * size + (m - 1)) by (nonlinear_arith)
            requires
                up == total + size - 1,
                total == q * size + m,
        ;
        vstd::arithmetic::div_mod::lemma_fundamental_div_mod_converse(up, size, q + 1, m - 1);
    }
}

/// The field of a record for the column with index `column`: the record's
/// own field where it has one, the empty text where the record is short.
pub open spec fn padded_field(record: Seq<Seq<char>>, column: int) -> Seq<char> {
    if 0 <= column < record.len() {
        record[column]
    } else {
        Seq::empty()
    }
}

/// Whether a batch holds the records from `from` up to `to` under the given
/// headers: one text column for each header, one row for each record, each
/// cell the record's field or the empty text where the record is short.
pub open spec fn batch_holds(
    batch: RecordBatch,
    headers: Seq<Seq<char>>,
    records: Seq<Seq<Seq<char>>>,
    from: int,
    to: int,
) -> bool {
    &&& batch.wf()
    &&& batch@.fields.len() == headers.len()
    &&& batch@.row_count == to - from
    &&& forall|c: int|
        0 <= c < headers.len() ==> {
            &&& (#[trigger] batch@.fields[c]).name == headers[c]
            &&& batch@.fields[c].data_type == PhysicalType::Utf8
        }
    &&& forall|r: int, c: int|
        0 <= r < to - from && 0 <= c < headers.len() ==> #[trigger] batch@.cell(r, c)
            == CellView::Text(padded_field(records[from + r], c))
}

/// The text column with index `column` of the records from `from` up to
/// `to`.
fn text_column(records: &Vec<Vec<String>>, from: usize, to: usize, column: usize) -> (r: Column)
    requires
        from <= to <= records@.len(),
    ensures
        r.data_type == PhysicalType::Utf8,
        r@.cells.len() == to - from,
        r.wf(),
        forall|k: int|
            0 <= k < to - from ==> #[trigger] r@.cells[k] == CellView::Text(
                padded_field(records.deep_view()[from + k], column as int),
            ),
{
    let mut cells: Vec<Cell> = Vec::new();
    let mut row: usize = from;
    while row < to
        invariant
            from <= row <= to <= records@.len(),
            cells@.len() == row - from,
            forall|k: int|
                0 <= k < row - from ==> (#[trigger] cells@[k])@ == CellView::Text(
                    padded_field(records.deep_view()[from + k], column as int),
                ),
        decreases to - row,
    {
        let record = &records[row];
        let ghost fields = records.deep_view()[row as int];
        assert(fields == record.deep_view());
        let value = if column < record.len() {
            assert(fields[column as int] == record@[column as int]@);
            record[column].clone()
        } else {
            String::new()
        };
        cells.push(Cell::Text(value));
        row += 1;
    }
    Column { data_type: PhysicalType::Utf8, cells }
}

/// The batch of text columns that the records from `from` up to `to` fill
/// under the given headers, none of them having more fields than there are
/// headers. A record with fewer fields is padded with empty text.
fn fill_batch(headers: &Vec<String>, records: &Vec<Vec<String>>, from: usize, to: usize) -> (batch:
    RecordBatch)
    requires
        from <= to <= records@.len(),
        forall|i: int| from <= i < to ==> (#[trigger] records@[i])@.len() <= headers@.len(),
    ensures
        batch_holds(batch, headers.deep_view(), records.deep_view(), from as int, to as int),
{
    let mut fields: Vec<Field> = Vec::new();
    let mut columns: Vec<Column> = Vec::new();
    let mut col_idx: usize = 0;
    while col_idx < headers.len()
        invariant
            from <= to <= records@.len(),
            col_idx <= headers@.len(),
            fields@.len() == col_idx,
            columns@.len() == col_idx,
            forall|c: int|
                0 <= c < col_idx ==> {
                    &&& (#[trigger] fields@[c]).name@ == headers@[c]@
                    &&& fields@[c].data_type == PhysicalType::Utf8
                },
            forall|c: int|
                0 <= c < col_idx ==> {
                    &&& (#[trigger] columns@[c]).data_type == PhysicalType::Utf8
                    &&& columns@[c]@.cells.len() == to - from
                    &&& columns@[c].wf()
                    &&& forall|k: int|
                        0 <= k < to - from ==> #[trigger] columns@[c]@.cells[k] == CellView::Text(
                            padded_field(records.deep_view()[from + k], c),
                        )
                },
        decreases headers.len() - col_idx,
    {
        fields.push(Field { name: headers[col_idx].clone(), data_type: PhysicalType::Utf8 });
        columns.push(text_column(records, from, to, col_idx));
        col_idx += 1;
    }
    let batch = RecordBatch { fields, columns, row_count: to - from };
    proof {
        let h = headers.deep_view();
        let rs = records.deep_view();
        assert forall|c: int| 0 <= c < h.len() implies {
            &&& (#[trigger] batch@.fields[c]).name == h[c]
            &&& batch@.fields[c].data_type == PhysicalType::Utf8
        } by {
            assert(batch@.fields[c] == fields@[c]@);
        }
        assert forall|r: int, c: int| 0 <= r < to - from && 0 <= c < h.len() implies #[trigger] batch@.cell(
            r,
            c,
        ) == CellView::Text(padded_field(rs[from + r], c)) by {
            assert(batch@.columns[c] == columns@[c]@);
        }
        assert forall|c: int| 0 <= c < batch@.columns.len() implies {
            &&& (#[trigger] batch@.columns[c]).data_type == batch@.fields[c].data_type
            &&& batch@.columns[c].cells.len() == batch@.row_count
            &&& batch@.columns[c].wf()
        } by {
            assert(batch@.columns[c] == columns@[c]@);
            assert(batch@.fields[c] == fields@[c]@);
        }
    }
    batch
}

/// The batch of text columns that the records from `from` up to `to` fill
/// under the given headers. A record with fewer fields than there are
/// headers is padded with empty text; the first record with more fields
/// fails the batch.
pub fn build_batch(headers: &Vec<String>, records: &Vec<Vec<String>>, from: usize, to: usize) -> (r:
    Result<RecordBatch, TransmutaError>)
    requires
        from <= to <= records@.len(),
    ensures
        match r {
            Ok(batch) => {
                &&& batch_holds(batch, headers.deep_view(), records.deep_view(), from as int, to as int)
                &&& forall|i: int| from <= i < to ==> (#[trigger] records@[i])@.len() <= headers@.len()
            },
            Err(TransmutaError::RowTooLong { row, fields, columns }) => {
                &&& from <= row < to
                &&& fields == records@[row as int]@.len()
                &&& columns == headers@.len()
                &&& fields > columns
                &&& forall|i: int| from <= i < row ==> (#[trigger] records@[i])@.len() <= headers@.len()
            },
            Err(_) => false,
        },
{
    let mut row: usize = from;
    while row < to
        invariant
            from <= row <= to <= records@.len(),
            forall|i: int| from <= i < row ==> (#[trigger] records@[i])@.len() <= headers@.len(),
        decreases to - row,
    {
        if records[row].len() > headers.len() {
            return Err(
                TransmutaError::RowTooLong {
                    row,
                    fields: records[row].len(),
                    columns: headers.len(),
                },
            );
        }
        row += 1;
    }
    Ok(fill_batch(headers, records, from, to))
}

/// The file name of the part with index `index` of an output whose file
/// name has the given stem and extension: the stem, `_part`, the part's
/// number counted from one in four digits at least, and the extension after
/// a dot where there is one.
pub open spec fn part_name(stem: Seq<char>, extension: Option<Seq<char>>, index: int) -> Seq<char> {
    stem + "_part"@ + zero_padded(decimal_digits((index + 1) as nat), 4) + match extension {
        Some(ext) => seq!['.'] + ext,
        None => Seq::empty(),
    }
}

/// The path of the file that the batch with index `index` of `count`
/// batches is written to: the output path itself for a single batch, else
/// the output path with the part's name for file name. An output path
/// without a file name is left as it is.
pub open spec fn part_path(output_path: Seq<char>, count: int, index: int) -> Seq<char> {
    if count > 1 {
        match file_stem_of(output_path) {
            Some(stem) => with_file_name(
                output_path,
                part_name(stem, extension_of(output_path), index),
            ),
            None => output_path,
        }
    } else {
        output_path
    }
}

/// The file name of a part.
pub fn part_file_name(stem: &str, extension: Option<&str>, index: usize) -> (r: String)
    ensures
        r@ == part_name(
            stem@,
            match extension {
                Some(ext) => Some(ext@),
                None => None,
            },
            index as int,
        ),
{
    let mut name: Vec<char> = Vec::new();
    push_chars(&mut name, stem);
    push_chars(&mut name, "_part");
    push_zero_padded(&mut name, index as u128 + 1, 4);
    match extension {
        Some(ext) => {
            name.push('.');
            push_chars(&mut name, ext);
        },
        None => {},
    }
    proof {
        assert(name@ =~= part_name(
            stem@,
            match extension {
                Some(ext) => Some(ext@),
                None => None,
            },
            index as int,
        ));
    }
    from_chars(&name)
}

/// The path of the file that the batch with index `batch_idx` of
/// `batch_count` batches is written to.
pub fn batch_output_path(output_path: &str, batch_count: usize, batch_idx: usize) -> (r: String)
    ensures
        r@ == part_path(output_path@, batch_count as int, batch_idx as int),
{
    if batch_count > 1 {
        match path_file_stem(output_path) {
            Some(stem) => {
                let new_file_name = match path_extension(output_path) {
                    Some(ext) => part_file_name(stem.as_str(), Some(ext.as_str()), batch_idx),
                    None => part_file_name(stem.as_str(), None, batch_idx),
                };
                path_with_file_name(output_path, new_file_name.as_str())
            },
            None => output_path.to_owned(),
        }
    } else {
        output_path.to_owned()
    }
}

/// One output of a run: a batch and the path of the file it is written to.
#[derive(Debug, Clone, PartialEq, Eq)]
pub struct PartFile {
    pub path: String,
    pub batch: RecordBatch,
}

/// Whether `parts` are the outputs of the records from `from` on, in
/// batches of `size` rows under the given headers: as many parts as batches
/// are needed, the part with index `k` holding the `k`-th run of `size`
/// records, or of what is left of them, and bound for the `k`-th path.
pub open spec fn parts_hold(
    parts: Seq<PartFile>,
    headers: Seq<Seq<char>>,
    records: Seq<Seq<Seq<char>>>,
    from: int,
    size: int,
    output_path: Seq<char>,
) -> bool {
    let total = records.len() - from;
    &&& parts.len() == batches_needed(total, size)
    &&& forall|k: int|
        0 <= k < parts.len() ==> {
            &&& (#[trigger] parts[k]).path@ == part_path(output_path, parts.len() as int, k)
            &&& batch_holds(
                parts[k].batch,
                headers,
                records,
                from + k * size,
                from + k * size + rows_in_batch(total, size, k),
            )
        }
}

/// The rows of all parts together.
pub open spec fn total_rows(parts: Seq<PartFile>) -> int
    decreases parts.len(),
{
    if parts.len() == 0 {
        0
    } else {
        total_rows(parts.drop_last()) + parts.last().batch.row_count
    }
}

/// A batch index lies below the number of batches exactly when rows are
/// left for it.
pub proof fn lemma_batch_bounds(total: int, size: int, index: int)
    requires
        0 <= total,
        0 < size,
        0 <= index,
    ensures
        (index < batches_needed(total, size)) == (index * size < total),
{
    lemma_batches_needed(total, size);
    let q = total / size;
    let m = total % size;
    vstd::arithmetic::div_mod::lemma_fundamental_div_mod(total, size);
    assert(total == q * size + m) by (nonlinear_arith)
        requires
            total == size * q + m,
    ;
    if index <= q - 1 {
        assert(index * size <= (q - 1) * size) by (nonlinear_arith)
            requires
                index <= q - 1,
                size > 0,
        ;
        assert((q - 1) * size == q * size - size) by (nonlinear_arith);
    } else if index == q {
    } else {
        assert(index * size >= (q + 1) * size) by (nonlinear_arith)
            requires
                index >= q + 1,
                size > 0,
        ;
        assert((q + 1) * size == q * size + size) by (nonlinear_arith);
    }
}

/// The parts of a run hold as many rows together as the source has.
pub proof fn lemma_total_rows(
    parts: Seq<PartFile>,
    headers: Seq<Seq<char>>,
    records: Seq<Seq<Seq<char>>>,
    from: int,
    size: int,
    output_path: Seq<char>,
)
    requires
        0 <= from <= records.len(),
        0 < size,
        parts_hold(parts, headers, records, from, size, output_path),
    ensures
        total_rows(parts) == records.len() - from,
{
    let total = records.len() - from;
    lemma_batch_bounds(total, size, parts.len() as int);
    lemma_rows_up_to(parts, total, size, parts.len() as int);
    if parts.len() > 0 {
        lemma_batch_bounds(total, size, parts.len() - 1);
    }
    assert(parts.take(parts.len() as int) =~= parts);
}

/// The first `count` parts hold the first `count * size` rows, or all rows
/// where those are fewer.
proof fn lemma_rows_up_to(parts: Seq<PartFile>, total: int, size: int, count: int)
    requires
        0 <= total,
        0 < size,
        0 <= count <= parts.len(),
        parts.len() == batches_needed(total, size),
        forall|k: int|
            0 <= k < parts.len() ==> (#[trigger] parts[k]).batch.row_count == rows_in_batch(
                total,
                size,
                k,
            ),
    ensures
        total_rows(parts.take(count)) == if count * size < total {
            count * size
        } else {
            total
        },
    decreases count,
{
    if count == 0 {
        assert(0 * size == 0) by (nonlinear_arith);
    } else {
        lemma_rows_up_to(parts, total, size, count - 1);
        let taken = parts.take(count);
        assert(taken.drop_last() =~= parts.take(count - 1));
        assert(taken.last() == parts[count - 1]);
        lemma_batch_bounds(total, size, count - 1);
        assert(count * size == (count - 1) * size + size) by (nonlinear_arith);
    }
}

/// The ingestion of a source that is read record by record. Records are
/// taken one at a time; whenever they fill a batch the batch is handed out,
/// and what is left at the end is handed out as a last, shorter batch. The
/// number of data rows is declared at the start: it decides how many parts
/// there are and so how their files are named, and records beyond it are
/// left aside.
pub struct Ingestion {
    /// The column names.
    pub headers: Vec<String>,
    /// The number of rows of a full batch.
    pub batch_size: usize,
    /// The number of data rows that the source was counted to have.
    pub total_rows: usize,
    /// The output path of the run.
    pub output_path: String,
    /// The index in the source of its first data record: one where a header
    /// record comes first, else zero.
    pub data_start: usize,
    /// The number of records taken so far.
    pub rows_seen: usize,
    /// The records of the batch that is being filled.
    pub pending: Vec<Vec<String>>,
    /// All records taken so far.
    pub seen: Ghost<Seq<Seq<Seq<char>>>>,
}

impl Ingestion {
    /// The number of parts of the run.
    pub open spec fn parts(&self) -> int {
        batches_needed(self.total_rows as int, self.batch_size as int)
    }

    /// The batch being filled holds the records taken since the last full
    /// batch, fewer than a batch, none of them longer than the headers.
    pub open spec fn wf(&self) -> bool {
        &&& self.batch_size > 0
        &&& self.data_start <= 1
        &&& self.rows_seen <= self.total_rows
        &&& self.rows_seen == self.seen@.len()
        &&& self.pending@.len() == (self.rows_seen as int) % (self.batch_size as int)
        &&& self.pending.deep_view() == self.seen@.skip(self.rows_seen - self.pending@.len())
        &&& forall|i: int|
            0 <= i < self.pending@.len() ==> (#[trigger] self.pending@[i])@.len()
                <= self.headers@.len()
    }

    /// Starts an ingestion under the given column names, for a source
    /// counted to have `total_rows` data rows, after a header record where
    /// `has_header` says so.
    pub fn new(
        headers: Vec<String>,
        has_header: bool,
        total_rows: usize,
        batch_size: usize,
        output_path: String,
    ) -> (r: Ingestion)
        requires
            batch_size > 0,
        ensures
            r.wf(),
            r.headers == headers,
            r.data_start == if has_header {
                1usize
            } else {
                0usize
            },
            r.total_rows == total_rows,
            r.batch_size == batch_size,
            r.output_path == output_path,
            r.seen@.len() == 0,
    {
        let r = Ingestion {
            headers,
            batch_size,
            total_rows,
            output_path,
            data_start: if has_header {
                1
            } else {
                0
            },
            rows_seen: 0,
            pending: Vec::new(),
            seen: Ghost(Seq::empty()),
        };
        proof {
            assert(r.pending.deep_view() =~= r.seen@.skip(0));
        }
        r
    }

    /// Takes the next data record of the source. A record beyond the
    /// declared number of rows is left aside. A record with more fields than
    /// there are column names fails, with its index among the records of
    /// the source, and changes nothing. The record that fills a batch gives
    /// the part of that batch.
    pub fn push(&mut self, record: Vec<String>) -> (r: Result<Option<PartFile>, TransmutaError>)
        requires
            old(self).wf(),
        ensures
            final(self).wf(),
            final(self).headers == old(self).headers,
            final(self).batch_size == old(self).batch_size,
            final(self).total_rows == old(self).total_rows,
            final(self).output_path == old(self).output_path,
            final(self).data_start == old(self).data_start,
            match r {
                Ok(part) => {
                    if old(self).rows_seen == old(self).total_rows {
                        &&& part.is_none()
                        &&& final(self).seen@ == old(self).seen@
                    } else {
                        &&& record@.len() <= old(self).headers@.len()
                        &&& final(self).seen@ == old(self).seen@.push(record.deep_view())
                        &&& part.is_some() == ((final(self).seen@.len() as int) % (old(
                            self,
                        ).batch_size as int) == 0)
                        &&& part matches Some(p) ==> {
                            let index = (final(self).seen@.len() as int) / (old(
                                self,
                            ).batch_size as int) - 1;
                            &&& p.path@ == part_path(old(self).output_path@, old(self).parts(), index)
                            &&& batch_holds(
                                p.batch,
                                old(self).headers.deep_view(),
                                final(self).seen@,
                                index * old(self).batch_size,
                                index * old(self).batch_size + old(self).batch_size,
                            )
                        }
                    }
                },
                Err(TransmutaError::RowTooLong { row, fields, columns }) => {
                    &&& old(self).rows_seen < old(self).total_rows
                    &&& row == old(self).data_start + old(self).rows_seen
                    &&& fields == record@.len()
                    &&& columns == old(self).headers@.len()
                    &&& fields > columns
                    &&& final(self).seen@ == old(self).seen@
                },
                Err(_) => false,
            },
    {
        if self.rows_seen == self.total_rows {
            return Ok(None);
        }
        if record.len() > self.headers.len() {
            return Err(
                TransmutaError::RowTooLong {
                    row: self.data_start + self.rows_seen,
                    fields: record.len(),
                    columns: self.headers.len(),
                },
            );
        }
        let ghost before = self.seen@;
        let ghost held = self.pending.deep_view();
        let ghost fields = record.deep_view();
        let size = self.batch_size;
        proof {
            lemma_remainder_bounds(self.rows_seen as int, size as int);
        }
        self.pending.push(record);
        self.rows_seen = self.rows_seen + 1;
        self.seen = Ghost(before.push(fields));
        proof {
            let now = self.seen@;
            let count = self.rows_seen as int;
            assert(self.pending.deep_view() =~= held.push(fields));
            assert(held.push(fields) =~= now.skip(count - self.pending@.len()));
            lemma_next_remainder(count - 1, size as int);
        }
        if self.pending.len() < size {
            return Ok(None);
        }
        let ghost index = self.rows_seen as int / size as int - 1;
        proof {
            lemma_full_batch(self.rows_seen as int, size as int);
            lemma_batch_bounds(self.total_rows as int, size as int, index);
            assert(index * size < self.total_rows) by (nonlinear_arith)
                requires
                    self.rows_seen == (index + 1) * size,
                    self.rows_seen <= self.total_rows,
                    size > 0,
            ;
        }
        let flushed = self.rows_seen / size - 1;
        let batch = fill_batch(&self.headers, &self.pending, 0, size);
        let path = batch_output_path(
            self.output_path.as_str(),
            batch_count(self.total_rows, size),
            flushed,
        );
        proof {
            let now = self.seen@;
            let held_now = self.pending.deep_view();
            assert((index + 1) * size == index * size + size) by (nonlinear_arith);
            assert(held_now == now.skip(index * size));
            assert forall|r: int, c: int|
                0 <= r < size && 0 <= c < self.headers.deep_view().len() implies #[trigger] batch@.cell(
                r,
                c,
            ) == CellView::Text(padded_field(now[index * size + r], c)) by {
                assert(held_now[r] == now[index * size + r]);
            }
        }
        self.pending = Vec::new();
        proof {
            assert(self.pending.deep_view() =~= self.seen@.skip(self.rows_seen as int));
        }
        Ok(Some(PartFile { path, batch }))
    }

    /// Ends the ingestion. Records that fill no batch give a last part.
    pub fn finish(self) -> (r: Option<PartFile>)
        requires
            self.wf(),
        ensures
            r.is_some() == ((self.seen@.len() as int) % (self.batch_size as int) != 0),
            r matches Some(p) ==> {
                let index = (self.seen@.len() as int) / (self.batch_size as int);
                &&& p.path@ == part_path(self.output_path@, self.parts(), index as int)
                &&& batch_holds(
                    p.batch,
                    self.headers.deep_view(),
                    self.seen@,
                    index * self.batch_size,
                    self.seen@.len() as int,
                )
            },
    {
        if self.pending.len() == 0 {
            return None;
        }
        let size = self.batch_size;
        let flushed = self.rows_seen / size;
        let ghost index = flushed as int;
        proof {
            lemma_remainder_bounds(self.rows_seen as int, size as int);
        }
        let batch = fill_batch(&self.headers, &self.pending, 0, self.pending.len());
        let path = batch_output_path(
            self.output_path.as_str(),
            batch_count(self.total_rows, size),
            flushed,
        );
        proof {
            let now = self.seen@;
            let held = self.pending.deep_view();
            assert forall|r: int, c: int|
                0 <= r < now.len() - index * size && 0 <= c
                    < self.headers.deep_view().len() implies #[trigger] batch@.cell(r, c)
                == CellView::Text(padded_field(now[index * size + r], c)) by {
                assert(held[r] == now[index * size + r]);
            }
        }
        Some(PartFile { path, batch })
    }
}

/// Counting one more record moves the remainder by a batch on by one, or
/// back to zero where the batch is full.
proof fn lemma_next_remainder(count: int, size: int)
    requires
        0 <= count,
        0 < size,
    ensures
        (count + 1) % size == if count % size + 1 == size {
            0int
        } else {
            count % size + 1
        },
{
    let q = count / size;
    let m = count % size;
    vstd::arithmetic::div_mod::lemma_fundamental_div_mod(count, size);
    assert(count == q * size + m) by (nonlinear_arith)
        requires
            count == size * q + m,
    ;
    if m + 1 == size {
        assert(count + 1 == (q + 1) * size + 0) by (nonlinear_arith)
            requires
                count == q * size + m,
                m + 1 == size,
        ;
        vstd::arithmetic::div_mod::lemma_fundamental_div_mod_converse(count + 1, size, q + 1, 0);
    } else {
        vstd::arithmetic::div_mod::lemma_fundamental_div_mod_converse(count + 1, size, q, m + 1);
    }
}

/// The remainder of a count by a batch is less than a batch and not more
/// than the count.
proof fn lemma_remainder_bounds(count: int, size: int)
    requires
        0 <= count,
        0 < size,
    ensures
        0 <= count % size < size,
        count % size <= count,
        0 <= count / size,
        count == (count / size) * size + count % size,
{
    let q = count / size;
    let m = count % size;
    vstd::arithmetic::div_mod::lemma_fundamental_div_mod(count, size);
    assert(count == q * size + m) by (nonlinear_arith)
        requires
            count == size * q + m,
    ;
    assert(q >= 0) by (nonlinear_arith)
        requires
            count == q * size + m,
            0 <= count,
            m < size,
            0 < size,
    ;
    assert(q * size >= 0) by (nonlinear_arith)
        requires
            q >= 0,
            size > 0,
    ;
}

/// A count without remainder is its quotient times the batch size.
proof fn lemma_full_batch(count: int, size: int)
    requires
        0 < count,
        0 < size,
        count % size == 0,
    ensures
        count == (count / size) * size,
        count / size >= 1,
{
    let q = count / size;
    vstd::arithmetic::div_mod::lemma_fundamental_div_mod(count, size);
    assert(count == q * size) by (nonlinear_arith)
        requires
            count == size * q + 0,
    ;
    assert(q >= 1) by (nonlinear_arith)
        requires
            count == q * size,
            count > 0,
            size > 0,
    ;
}

/// Counting one more record moves the quotient by a batch on by one where
/// the batch is full, and leaves it otherwise.
proof fn lemma_next_quotient(count: int, size: int)
    requires
        0 <= count,
        0 < size,
    ensures
        (count + 1) / size == count / size + if (count + 1) % size == 0 {
            1int
        } else {
            0int
        },
{
    let q = count / size;
    let m = count % size;
    lemma_remainder_bounds(count, size);
    if m + 1 == size {
        assert(count + 1 == (q + 1) * size + 0) by (nonlinear_arith)
            requires
                count == q * size + m,
                m + 1 == size,
        ;
        vstd::arithmetic::div_mod::lemma_fundamental_div_mod_converse(count + 1, size, q + 1, 0);
    } else {
        vstd::arithmetic::div_mod::lemma_fundamental_div_mod_converse(count + 1, size, q, m + 1);
    }
}

/// A batch that holds records of what an ingestion has seen holds the same
/// records of the source that the ingestion was fed from.
proof fn lemma_batch_holds_in_source(
    batch: RecordBatch,
    headers: Seq<Seq<char>>,
    seen: Seq<Seq<Seq<char>>>,
    records: Seq<Seq<Seq<char>>>,
    from: int,
    first: int,
    end: int,
)
    requires
        0 <= from,
        0 <= first <= end <= seen.len(),
        from + seen.len() <= records.len(),
        seen == records.subrange(from, from + seen.len()),
        batch_holds(batch, headers, seen, first, end),
    ensures
        batch_holds(batch, headers, records, from + first, from + end),
{
    assert forall|r: int, c: int|
        0 <= r < end - first && 0 <= c < headers.len() implies #[trigger] batch@.cell(r, c)
        == CellView::Text(padded_field(records[from + first + r], c)) by {
        assert(seen[first + r] == records[from + first + r]);
    }
}

/// Cuts the records from `from` on into batches of `batch_size` rows, the
/// last one shorter where the records run out, and names the file of each:
/// the records are handed to an ingestion one by one, and the parts that it
/// gives are collected. Records shorter than the headers are padded; the
/// first record that is longer fails the run.
pub fn convert_rows(
    headers: &Vec<String>,
    records: &Vec<Vec<String>>,
    from: usize,
    batch_size: usize,
    output_path: &str,
) -> (r: Result<Vec<PartFile>, TransmutaError>)
    requires
        batch_size > 0,
        from <= records@.len(),
    ensures
        match r {
            Ok(parts) => {
                &&& parts_hold(
                    parts@,
                    headers.deep_view(),
                    records.deep_view(),
                    from as int,
                    batch_size as int,
                    output_path@,
                )
                &&& forall|i: int|
                    from <= i < records@.len() ==> (#[trigger] records@[i])@.len() <= headers@.len()
            },
            Err(TransmutaError::RowTooLong { row, fields, columns }) => {
                &&& from <= row < records@.len()
                &&& fields == records@[row as int]@.len()
                &&& columns == headers@.len()
                &&& fields > columns
                &&& forall|i: int| from <= i < row ==> (#[trigger] records@[i])@.len() <= headers@.len()
            },
            Err(_) => false,
        },
{
    let length: usize = records.len();
    let total: usize = length - from;
    let ghost source = records.deep_view();
    let ghost names = headers.deep_view();
    let ghost count = batches_needed(total as int, batch_size as int);
    let mut ingestion = Ingestion::new(
        headers.clone(),
        false,
        total,
        batch_size,
        output_path.to_owned(),
    );
    let mut parts: Vec<PartFile> = Vec::new();
    let mut taken: usize = 0;
    proof {
        assert(ingestion.seen@ =~= source.subrange(from as int, from as int));
        lemma_remainder_bounds(0, batch_size as int);
    }
    while taken < total
        invariant
            batch_size > 0,
            from <= records@.len(),
            length == records@.len(),
            total == records@.len() - from,
            source == records.deep_view(),
            names == headers.deep_view(),
            count == batches_needed(total as int, batch_size as int),
            taken <= total,
            ingestion.wf(),
            ingestion.headers.deep_view() == names,
            ingestion.headers@.len() == headers@.len(),
            ingestion.batch_size == batch_size,
            ingestion.total_rows == total,
            ingestion.output_path@ == output_path@,
            ingestion.data_start == 0,
            ingestion.rows_seen == taken,
            ingestion.seen@ == source.subrange(from as int, from + taken),
            parts@.len() == (taken as int) / (batch_size as int),
            forall|i: int| from <= i < from + taken ==> (#[trigger] records@[i])@.len() <= headers@.len(),
            forall|k: int|
                0 <= k < parts@.len() ==> {
                    &&& (#[trigger] parts@[k]).path@ == part_path(output_path@, count, k)
                    &&& batch_holds(
                        parts@[k].batch,
                        names,
                        source,
                        from + k * batch_size,
                        from + k * batch_size + batch_size,
                    )
                },
        decreases total - taken,
    {
        let record = &records[from + taken];
        let ghost fields = source[from + taken];
        assert(fields == record.deep_view());
        let ghost seen_before = ingestion.seen@;
        match ingestion.push(record.clone()) {
            Ok(part) => {
                proof {
                    lemma_next_quotient(taken as int, batch_size as int);
                    assert(ingestion.seen@ =~= source.subrange(from as int, from + taken + 1));
                }
                match part {
                    Some(p) => {
                        proof {
                            let index = (taken as int + 1) / (batch_size as int) - 1;
                            lemma_full_batch(taken as int + 1, batch_size as int);
                            assert((index + 1) * batch_size == index * batch_size + batch_size)
                                by (nonlinear_arith);
                            lemma_batch_holds_in_source(
                                p.batch,
                                names,
                                ingestion.seen@,
                                source,
                                from as int,
                                index * batch_size,
                                index * batch_size + batch_size,
                            );
                        }
                        parts.push(p);
                    },
                    None => {},
                }
            },
            Err(TransmutaError::RowTooLong { row, fields, columns }) => {
                return Err(TransmutaError::RowTooLong { row: from + taken, fields, columns });
            },
            Err(e) => {
                return Err(e);
            },
        }
        taken += 1;
    }
    let ghost seen = ingestion.seen@;
    let ghost full = (total as int) / (batch_size as int);
    proof {
        lemma_remainder_bounds(total as int, batch_size as int);
        lemma_batches_needed(total as int, batch_size as int);
    }
    match ingestion.finish() {
        Some(p) => {
            proof {
                lemma_batch_holds_in_source(
                    p.batch,
                    names,
                    seen,
                    source,
                    from as int,
                    full * batch_size,
                    total as int,
                );
            }
            parts.push(p);
        },
        None => {},
    }
    proof {
        assert forall|k: int| 0 <= k < parts@.len() implies {
            &&& (#[trigger] parts@[k]).path@ == part_path(output_path@, parts@.len() as int, k)
            &&& batch_holds(
                parts@[k].batch,
                names,
                source,
                from + k * batch_size,
                from + k * batch_size + rows_in_batch(total as int, batch_size as int, k),
            )
        } by {
            if k < full {
                assert(k * batch_size + batch_size <= full * batch_size) by (nonlinear_arith)
                    requires
                        k + 1 <= full,
                        batch_size > 0,
                ;
            }
        }
    }
    Ok(parts)
}

/// Batch chunking: at least one row, cut into batches of `size` rows, gives
/// as many parts as the quotient of rows by `size` rounded up. With more rows
/// than `size` there are several parts, and where the output path has a file
/// name each part is written beside it under its part name; otherwise there
/// is one part, written to the output path itself. The parts hold as many
/// rows together as there are rows.
pub proof fn law_batch_chunking(
    parts: Seq<PartFile>,
    headers: Seq<Seq<char>>,
    records: Seq<Seq<Seq<char>>>,
    from: int,
    size: int,
    output_path: Seq<char>,
)
    requires
        0 <= from <= records.len(),
        0 < size,
        parts_hold(parts, headers, records, from, size, output_path),
        records.len() - from >= 1,
    ensures
        parts.len() == batches_needed(records.len() - from, size),
        records.len() - from > size ==> parts.len() > 1 && forall|k: int|
            0 <= k < parts.len() ==> (#[trigger] parts[k]).path@ == match file_stem_of(output_path) {
                Some(stem) => with_file_name(
                    output_path,
                    part_name(stem, extension_of(output_path), k),
                ),
                None => output_path,
            },
        records.len() - from <= size ==> parts.len() == 1 && parts[0].path@ == output_path,
        total_rows(parts) == records.len() - from,
{
    let rows = records.len() - from;
    lemma_batch_bounds(rows, size, 0);
    lemma_batch_bounds(rows, size, 1);
    assert(1 * size == size) by (nonlinear_arith);
    assert(0 * size == 0) by (nonlinear_arith);
    lemma_total_rows(parts, headers, records, from, size, output_path);
}

/// Ragged row: a record with fewer fields than there are columns is in its
/// batch like any other, with the empty text in each column for which it has
/// no field.
pub proof fn law_short_row_is_padded(
    parts: Seq<PartFile>,
    headers: Seq<Seq<char>>,
    records: Seq<Seq<Seq<char>>>,
    from: int,
    size: int,
    output_path: Seq<char>,
    row: int,
    column: int,
)
    requires
        0 <= from <= row < records.len(),
        0 < size,
        parts_hold(parts, headers, records, from, size, output_path),
        records[row].len() <= column < headers.len(),
    ensures
        0 <= (row - from) / size < parts.len(),
        0 <= (row - from) % size < parts[(row - from) / size].batch@.row_count,
        parts[(row - from) / size].batch@.cell((row - from) % size, column) == CellView::Text(
            Seq::empty(),
        ),
{
    let rows = records.len() - from;
    let offset = row - from;
    let k = offset / size;
    let r = offset % size;
    lemma_remainder_bounds(offset, size);
    lemma_batch_bounds(rows, size, k);
    assert(parts[k].batch@.cell(r, column) == CellView::Text(
        padded_field(records[from + k * size + r], column),
    ));
}

} // verus!
