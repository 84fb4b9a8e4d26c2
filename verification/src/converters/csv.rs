//! Ingestion of a delimited-text source: its records, once decoded, become
//! batches of text columns.

use vstd::prelude::*;
use crate::converters::batch::CellView;
use crate::converters::ingest::{
    convert_rows,
    default_header,
    default_headers,
    lemma_batch_bounds,
    parts_hold,
    Ingestion,
    PartFile,
};
use crate::error::TransmutaError;

verus! {

/// The column names of a source, given its first record: the record itself
/// where the source declares a header, else `Column1`, `Column2` and so on,
/// one for each field of the record.
pub open spec fn headers_for(has_header: bool, first_record: Seq<Seq<char>>) -> Seq<Seq<char>> {
    if has_header {
        first_record
    } else {
        Seq::new(first_record.len(), |i: int| default_header(i))
    }
}

/// The index of the first record that is data: the header record, where the
/// source declares one, is not.
pub open spec fn data_start(has_header: bool) -> int {
    if has_header {
        1
    } else {
        0
    }
}

/// Resolves the column names of a source from its first record. A source
/// without any record is empty.
pub fn resolve_headers(has_header: bool, first_record: Option<&Vec<String>>) -> (r: Result<
    Vec<String>,
    TransmutaError,
>)
    ensures
        match r {
            Ok(headers) => first_record matches Some(record) && headers.deep_view() == headers_for(
                has_header,
                record.deep_view(),
            ),
            Err(e) => first_record.is_none() && e is EmptySource,
        },
{
    match first_record {
        Some(record) => {
            let headers = if has_header {
                record.clone()
            } else {
                default_headers(record.len())
            };
            proof {
                assert(headers.deep_view() =~= headers_for(has_header, record.deep_view()));
            }
            Ok(headers)
        },
        None => Err(TransmutaError::EmptySource),
    }
}

/// Opens the ingestion of a source that is read record by record, given its
/// first record and the number of its records, the header record counted in.
/// The column names are resolved from the first record; a source without
/// records is empty. What is then to be handed in are the data records: all
/// records, but for the header record where the source declares one.
pub fn open_ingestion(
    has_header: bool,
    first_record: Option<&Vec<String>>,
    record_count: usize,
    batch_size: usize,
    output_path: &str,
) -> (r: Result<Ingestion, TransmutaError>)
    requires
        batch_size > 0,
    ensures
        match r {
            Ok(ingestion) => {
                &&& first_record matches Some(record)
                &&& ingestion.wf()
                &&& ingestion.headers.deep_view() == headers_for(has_header, record.deep_view())
                &&& ingestion.data_start == data_start(has_header)
                &&& ingestion.total_rows == if record_count >= data_start(has_header) {
                    record_count - data_start(has_header)
                } else {
                    0
                }
                &&& ingestion.batch_size == batch_size
                &&& ingestion.output_path@ == output_path@
                &&& ingestion.seen@.len() == 0
            },
            Err(e) => first_record.is_none() && e is EmptySource,
        },
{
    let headers = match resolve_headers(has_header, first_record) {
        Ok(headers) => headers,
        Err(e) => {
            return Err(e);
        },
    };
    let total_rows: usize = if has_header && record_count > 0 {
        record_count - 1
    } else if has_header {
        0
    } else {
        record_count
    };
    Ok(Ingestion::new(headers, has_header, total_rows, batch_size, output_path.to_owned()))
}

/// Whether `parts` are the outputs of a source: the source has a record, and
/// its data records are cut into batches of `size` rows under the column
/// names of its first record.
pub open spec fn csv_converted(
    parts: Seq<PartFile>,
    source: Seq<Seq<Seq<char>>>,
    has_header: bool,
    size: int,
    output_path: Seq<char>,
) -> bool {
    &&& source.len() > 0
    &&& parts_hold(
        parts,
        headers_for(has_header, source[0]),
        source,
        data_start(has_header),
        size,
        output_path,
    )
}

/// Converts the records of a delimited-text source into batches of at most
/// `batch_size` rows, each with the path of its file. Where the source
/// declares no header its first record is data like the others. The index
/// in a failure counts the records of the source from zero.
pub fn convert_csv(source: &Vec<Vec<String>>, has_header: bool, batch_size: usize, output_path: &str) -> (r:
    Result<Vec<PartFile>, TransmutaError>)
    requires
        batch_size > 0,
    ensures
        match r {
            Ok(parts) => {
                &&& csv_converted(
                    parts@,
                    source.deep_view(),
                    has_header,
                    batch_size as int,
                    output_path@,
                )
                &&& forall|i: int|
                    data_start(has_header) <= i < source@.len() ==> (#[trigger] source.deep_view()[i]).len()
                        <= headers_for(has_header, source.deep_view()[0]).len()
            },
            Err(TransmutaError::EmptySource) => source@.len() == 0,
            Err(TransmutaError::RowTooLong { row, fields, columns }) => {
                &&& source@.len() > 0
                &&& data_start(has_header) <= row < source@.len()
                &&& fields == source.deep_view()[row as int].len()
                &&& columns == headers_for(has_header, source.deep_view()[0]).len()
                &&& fields > columns
                &&& forall|i: int|
                    data_start(has_header) <= i < row ==> (#[trigger] source.deep_view()[i]).len()
                        <= columns
            },
            Err(_) => false,
        },
{
    let first_record = if source.len() > 0 {
        Some(&source[0])
    } else {
        None
    };
    let headers = match resolve_headers(has_header, first_record) {
        Ok(headers) => headers,
        Err(e) => {
            return Err(e);
        },
    };
    let from: usize = if has_header {
        1
    } else {
        0
    };
    proof {
        assert(source.deep_view()[0] == source@[0].deep_view());
        assert forall|i: int| 0 <= i < source@.len() implies (#[trigger] source.deep_view()[i]).len()
            == source@[i]@.len() by {
            assert(source.deep_view()[i] == source@[i].deep_view());
        }
    }
    convert_rows(&headers, source, from, batch_size, output_path)
}

/// Header-less ingestion: the columns of a source without header are named
/// `Column1`, `Column2` and so on, one for each field of the first record,
/// and the first record is the first row of the first batch.
pub proof fn law_headerless_source(
    parts: Seq<PartFile>,
    source: Seq<Seq<Seq<char>>>,
    size: int,
    output_path: Seq<char>,
)
    requires
        0 < size,
        csv_converted(parts, source, false, size, output_path),
    ensures
        parts.len() >= 1,
        forall|k: int|
            0 <= k < parts.len() ==> (#[trigger] parts[k]).batch@.fields.len() == source[0].len(),
        forall|k: int, c: int|
            0 <= k < parts.len() && 0 <= c < source[0].len() ==> (#[trigger] parts[k].batch@.fields[c]).name
                == default_header(c),
        parts[0].batch@.row_count >= 1,
        forall|c: int|
            0 <= c < source[0].len() ==> #[trigger] parts[0].batch@.cell(0, c) == CellView::Text(
                source[0][c],
            ),
{
    let rows = source.len() as int;
    lemma_batch_bounds(rows, size, 0);
    assert(0 * size == 0) by (nonlinear_arith);
}

} // verus!
