//! From the answer to a range query to rows.
//!
//! The answer holds, under `data.result`, a list of series. Each series has a
//! label set under `metric` and, under `values`, a list of samples: pairs of a
//! time in seconds and a value as text. Every sample whose time is an integer
//! and whose value is a number gives one row; any other sample is passed
//! over. Rows come in the order of the answer: series by series, and in each
//! series sample by sample.

use crate::interface::{Cell, CellView, Diagnostic, Qual, Row, RowView, ScanError, rows_view};
use crate::json::{Json, element, json_document, json_view, json_views, member, parse_document};
use crate::numeral::{is_float_literal, is_float_text};
use crate::fdw::PrometheusFdw;
use crate::translate::{
    Filter,
    ObjectKind,
    diagnostic_list,
    find_qual,
    first_match,
    object_kind,
    promql_diagnostic,
    promql_text,
};
use vstd::prelude::*;

verus! {

/// The row of one sample of the metric `name`.
pub open spec fn metric_row(name: Seq<char>, labels: Json, time: i64, value: Seq<char>) -> RowView {
    RowView {
        cols: seq!["metric_name"@, "metric_labels"@, "metric_time"@, "metric_value"@],
        cells: seq![
            Some(CellView::Text(name)),
            Some(CellView::Json(labels)),
            Some(CellView::I64(time)),
            Some(CellView::Float(value)),
        ],
    }
}

/// Whether a row has the columns of `metrics`, each with a cell of its kind.
pub open spec fn is_metric_row(row: RowView) -> bool {
    &&& row.cols == seq!["metric_name"@, "metric_labels"@, "metric_time"@, "metric_value"@]
    &&& row.cells.len() == 4
    &&& row.cells[0] matches Some(CellView::Text(_))
    &&& row.cells[1] matches Some(CellView::Json(_))
    &&& row.cells[2] matches Some(CellView::I64(_))
    &&& row.cells[3] matches Some(CellView::Float(value)) && is_float_literal(value)
}

/// The row that one sample gives, where it gives one.
pub open spec fn sample_row(name: Seq<char>, labels: Json, pair: Json) -> Option<RowView> {
    match (pair.element(0).integer(), pair.element(1).text()) {
        (Some(time), Some(value)) => if is_float_literal(value) {
            Some(metric_row(name, labels, time, value))
        } else {
            None
        },
        _ => None,
    }
}

/// The rows of some samples of one series, in their order.
pub open spec fn sample_rows(name: Seq<char>, labels: Json, pairs: Seq<Json>) -> Seq<RowView>
    decreases pairs.len(),
{
    if pairs.len() == 0 {
        Seq::empty()
    } else {
        let before = sample_rows(name, labels, pairs.drop_last());
        match sample_row(name, labels, pairs.last()) {
            Some(row) => before.push(row),
            None => before,
        }
    }
}

/// The rows of one series.
pub open spec fn series_rows(name: Seq<char>, series: Json) -> Seq<RowView> {
    match series.member("values"@).items() {
        Some(pairs) => sample_rows(name, series.member("metric"@), pairs),
        None => Seq::empty(),
    }
}

/// The rows of some series, in their order.
pub open spec fn result_rows(name: Seq<char>, result: Seq<Json>) -> Seq<RowView>
    decreases result.len(),
{
    if result.len() == 0 {
        Seq::empty()
    } else {
        result_rows(name, result.drop_last()) + series_rows(name, result.last())
    }
}

/// The rows of an answer for the metric `name`.
pub open spec fn response_rows(name: Seq<char>, resp: Json) -> Seq<RowView> {
    match resp.member("data"@).member("result"@).items() {
        Some(result) => result_rows(name, result),
        None => Seq::empty(),
    }
}

/// The rows that an answer gives to a scan of `object` under `quals`. Every
/// row bears the name that the scan asked for, whatever the answer's labels
/// say; without a filter that names a metric there are no rows.
pub open spec fn decoded_rows(object: Seq<char>, resp: Json, quals: Seq<Qual>) -> Seq<RowView> {
    if object_kind(object) == ObjectKind::Metrics {
        match first_match(Filter::MetricName, quals) {
            Some(qual) => response_rows(promql_text(qual.value), resp),
            None => Seq::empty(),
        }
    } else {
        Seq::empty()
    }
}

/// What decoding has to say.
pub open spec fn decoding_diagnostics(object: Seq<char>, quals: Seq<Qual>) -> Seq<Diagnostic> {
    if object_kind(object) == ObjectKind::Metrics {
        match first_match(Filter::MetricName, quals) {
            Some(qual) => diagnostic_list(promql_diagnostic(qual.value)),
            None => Seq::empty(),
        }
    } else {
        seq![Diagnostic::UnsupportedObject]
    }
}

/// The rows that an answer's body gives, or why it gives none: a body for
/// `metrics` has to be JSON. The body of another object is not read.
pub open spec fn body_rows(object: Seq<char>, body: Seq<char>, quals: Seq<Qual>) -> Result<
    Seq<RowView>,
    ScanError,
> {
    if object_kind(object) != ObjectKind::Metrics {
        Ok(Seq::empty())
    } else {
        match json_document(body) {
            Some(document) => Ok(decoded_rows(object, document, quals)),
            None => Err(ScanError::Decode),
        }
    }
}

/// What decoding a body has to say, where it gives rows.
pub open spec fn body_diagnostics(object: Seq<char>, body: Seq<char>, quals: Seq<Qual>) -> Seq<
    Diagnostic,
> {
    if body_rows(object, body, quals) is Ok {
        decoding_diagnostics(object, quals)
    } else {
        Seq::empty()
    }
}

/// Decoded rows, and what there was to say on the way.
#[derive(Debug, Clone, PartialEq)]
pub struct Decoded {
    pub rows: Vec<Row>,
    pub diagnostics: Vec<Diagnostic>,
}

/// Builds the row of one sample.
pub fn new_metric_row(name: &String, labels: &serde_json::Value, time: i64, value: &str) -> (row:
    Row)
    ensures
        row@ == metric_row(name@, json_view(*labels), time, value@),
{
    let mut row = Row::new();
    row.push("metric_name", Some(Cell::Text(name.clone())));
    row.push("metric_labels", Some(Cell::Json(labels.clone())));
    row.push("metric_time", Some(Cell::I64(time)));
    row.push("metric_value", Some(Cell::Float(value.to_owned())));
    assert(row@.cols =~= metric_row(name@, json_view(*labels), time, value@).cols);
    assert(row@.cells =~= metric_row(name@, json_view(*labels), time, value@).cells);
    row
}

/// Adds to `rows` the rows of one series.
fn push_series_rows(rows: &mut Vec<Row>, name: &String, series: &serde_json::Value)
    ensures
        rows_view(final(rows)@) == rows_view(old(rows)@) + series_rows(name@, json_view(*series)),
{
    let labels = member(series, "metric");
    let ghost before = rows_view(rows@);
    let ghost labelled = json_view(*labels);
    match member(series, "values").as_array() {
        None => {},
        Some(pairs) => {
            let ghost samples = json_views(pairs@);
            let mut i: usize = 0;
            while i < pairs.len()
                invariant
                    i <= pairs@.len(),
                    samples == json_views(pairs@),
                    labelled == json_view(*labels),
                    rows_view(rows@) == before + sample_rows(name@, labelled, samples.take(i as int)),
                decreases pairs@.len() - i,
            {
                let pair = &pairs[i];
                let ghost seen = rows_view(rows@);
                assert(samples.take(i + 1).drop_last() =~= samples.take(i as int));
                if let Some(time) = element(pair, 0).as_i64() {
                    if let Some(value) = element(pair, 1).as_str() {
                        if is_float_text(value) {
                            let row = new_metric_row(name, labels, time, value);
                            rows.push(row);
                            assert(rows_view(rows@) =~= seen.push(row@));
                        }
                    }
                }
                i += 1;
            }
            assert(samples.take(pairs@.len() as int) =~= samples);
        },
    }
}

/// Decodes the answer to a range query into the rows of a scan of `object`
/// under `quals`.
pub fn resp_to_rows(object: &str, resp: &serde_json::Value, quals: &[Qual]) -> (decoded: Decoded)
    ensures
        rows_view(decoded.rows@) == decoded_rows(object@, json_view(*resp), quals@),
        decoded.diagnostics@ == decoding_diagnostics(object@, quals@),
        forall|i: int| 0 <= i < decoded.rows@.len() ==> is_metric_row(#[trigger] decoded.rows@[i]@),
{
    let mut rows: Vec<Row> = Vec::new();
    let mut diagnostics: Vec<Diagnostic> = Vec::new();
    if ObjectKind::parse(object) != ObjectKind::Metrics {
        diagnostics.push(Diagnostic::UnsupportedObject);
        return Decoded { rows, diagnostics };
    }
    if let Some(qual) = find_qual(Filter::MetricName, quals) {
        let (name, said) = PrometheusFdw::value_to_promql_string(&qual.value);
        if let Some(d) = said {
            diagnostics.push(d);
        }
        if let Some(result) = member(member(resp, "data"), "result").as_array() {
            let ghost series = json_views(result@);
            let mut i: usize = 0;
            while i < result.len()
                invariant
                    i <= result@.len(),
                    series == json_views(result@),
                    rows_view(rows@) == result_rows(name@, series.take(i as int)),
                decreases result@.len() - i,
            {
                assert(series.take(i + 1).drop_last() =~= series.take(i as int));
                push_series_rows(&mut rows, &name, &result[i]);
                i += 1;
            }
            assert(series.take(result@.len() as int) =~= series);
        }
    }
    proof {
        lemma_decoded_rows_are_metric_rows(object@, json_view(*resp), quals@);
        assert forall|i: int| 0 <= i < rows@.len() implies is_metric_row(#[trigger] rows@[i]@) by {
            assert(is_metric_row(decoded_rows(object@, json_view(*resp), quals@)[i]));
        }
    }
    Decoded { rows, diagnostics }
}

/// Decodes the body of an answer into the rows of a scan of `object` under
/// `quals`. A body that is not JSON is an error, not an empty answer.
pub fn decode(object: &str, body: &str, quals: &[Qual]) -> (decoded: Result<Decoded, ScanError>)
    ensures
        match body_rows(object@, body@, quals@) {
            Ok(rows) => decoded matches Ok(d) && rows_view(d.rows@) == rows && d.diagnostics@
                == body_diagnostics(object@, body@, quals@) && forall|i: int|
                0 <= i < d.rows@.len() ==> is_metric_row(#[trigger] d.rows@[i]@),
            Err(error) => decoded == Err::<Decoded, ScanError>(error),
        },
{
    if ObjectKind::parse(object) != ObjectKind::Metrics {
        let mut diagnostics: Vec<Diagnostic> = Vec::new();
        diagnostics.push(Diagnostic::UnsupportedObject);
        let rows: Vec<Row> = Vec::new();
        return Ok(Decoded { rows, diagnostics });
    }
    match parse_document(body) {
        Ok(document) => Ok(resp_to_rows(object, &document, quals)),
        Err(_) => Err(ScanError::Decode),
    }
}

proof fn lemma_metric_row(name: Seq<char>, labels: Json, time: i64, value: Seq<char>)
    requires
        is_float_literal(value),
    ensures
        is_metric_row(metric_row(name, labels, time, value)),
{
}

proof fn lemma_sample_rows_are_metric_rows(name: Seq<char>, labels: Json, pairs: Seq<Json>)
    ensures
        forall|i: int|
            0 <= i < sample_rows(name, labels, pairs).len() ==> is_metric_row(
                #[trigger] sample_rows(name, labels, pairs)[i],
            ),
    decreases pairs.len(),
{
    if pairs.len() > 0 {
        let before = sample_rows(name, labels, pairs.drop_last());
        let all = sample_rows(name, labels, pairs);
        lemma_sample_rows_are_metric_rows(name, labels, pairs.drop_last());
        let pair = pairs.last();
        match (pair.element(0).integer(), pair.element(1).text()) {
            (Some(time), Some(value)) => {
                if is_float_literal(value) {
                    lemma_metric_row(name, labels, time, value);
                }
            },
            _ => {},
        }
    }
}

proof fn lemma_result_rows_are_metric_rows(name: Seq<char>, result: Seq<Json>)
    ensures
        forall|i: int|
            0 <= i < result_rows(name, result).len() ==> is_metric_row(
                #[trigger] result_rows(name, result)[i],
            ),
    decreases result.len(),
{
    if result.len() > 0 {
        let before = result_rows(name, result.drop_last());
        let added = series_rows(name, result.last());
        let all = result_rows(name, result);
        lemma_result_rows_are_metric_rows(name, result.drop_last());
        let series = result.last();
        match series.member("values"@).items() {
            Some(pairs) => {
                lemma_sample_rows_are_metric_rows(name, series.member("metric"@), pairs);
            },
            None => {},
        }
    }
}

/// Every decoded row has the columns of `metrics`, whatever the answer holds.
pub proof fn lemma_decoded_rows_are_metric_rows(object: Seq<char>, resp: Json, quals: Seq<Qual>)
    ensures
        forall|i: int|
            0 <= i < decoded_rows(object, resp, quals).len() ==> is_metric_row(
                #[trigger] decoded_rows(object, resp, quals)[i],
            ),
{
    if object_kind(object) == ObjectKind::Metrics {
        match first_match(Filter::MetricName, quals) {
            Some(qual) => {
                let name = promql_text(qual.value);
                match resp.member("data"@).member("result"@).items() {
                    Some(result) => {
                        lemma_result_rows_are_metric_rows(name, result);
                    },
                    None => {},
                }
            },
            None => {},
        }
    }
}

/// A sample that gives no row leaves the others alone: the rows of a series
/// are those of the series without that sample, the same rows at the same
/// places.
pub proof fn lemma_skipped_sample_leaves_rows_alone(
    name: Seq<char>,
    labels: Json,
    pairs: Seq<Json>,
    k: int,
)
    requires
        0 <= k < pairs.len(),
        sample_row(name, labels, pairs[k]) is None,
    ensures
        sample_rows(name, labels, pairs) == sample_rows(name, labels, pairs.remove(k)),
    decreases pairs.len(),
{
    if k < pairs.len() - 1 {
        lemma_skipped_sample_leaves_rows_alone(name, labels, pairs.drop_last(), k);
        assert(pairs.remove(k).drop_last() =~= pairs.drop_last().remove(k));
    }
}

} // verus!
