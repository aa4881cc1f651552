//! From filters to the URL of a range query.
//!
//! A scan of `metrics` needs three filters: `metric_name = ..` names the
//! metric, and one filter on `metric_time` from each side bounds the window.
//! Only a filter on `metric_time` counts as a bound: an inequality on any
//! other column is not one, whatever its operator. Where several filters
//! qualify, the first one counts.

use crate::interface::{Cell, Diagnostic, Operand, Qual};
use crate::percent::percent_encoded;
use crate::text::{decimal, str_eq};
use vstd::prelude::*;

verus! {

/// The kinds of object that a table can stand for.
#[derive(Debug, Clone, Copy, PartialEq, Eq, Structural)]
pub enum ObjectKind {
    Metrics,
    Unsupported,
}

pub open spec fn object_kind(object: Seq<char>) -> ObjectKind {
    if object == "metrics"@ {
        ObjectKind::Metrics
    } else {
        ObjectKind::Unsupported
    }
}

impl ObjectKind {
    /// The kind that an `object` option names.
    pub fn parse(object: &str) -> (kind: ObjectKind)
        ensures
            kind == object_kind(object@),
    {
        if str_eq(object, "metrics") {
            ObjectKind::Metrics
        } else {
            ObjectKind::Unsupported
        }
    }
}

/// The three filters that a scan of `metrics` reads.
#[derive(Debug, Clone, Copy, PartialEq, Eq, Structural)]
pub enum Filter {
    /// `metric_name = ..`
    MetricName,
    /// `metric_time > ..` or `metric_time >= ..`
    LowerBound,
    /// `metric_time < ..` or `metric_time <= ..`
    UpperBound,
}

/// Whether `qual` is a filter of the kind `filter`.
pub open spec fn qualifies(filter: Filter, qual: Qual) -> bool {
    match filter {
        Filter::MetricName => qual.field@ == "metric_name"@ && qual.operator@ == "="@,
        Filter::LowerBound => qual.field@ == "metric_time"@ && (qual.operator@ == ">"@
            || qual.operator@ == ">="@),
        Filter::UpperBound => qual.field@ == "metric_time"@ && (qual.operator@ == "<"@
            || qual.operator@ == "<="@),
    }
}

/// The first of `quals` that is a filter of the kind `filter`.
pub open spec fn first_match(filter: Filter, quals: Seq<Qual>) -> Option<Qual>
    decreases quals.len(),
{
    if quals.len() == 0 {
        None
    } else if qualifies(filter, quals[0]) {
        Some(quals[0])
    } else {
        first_match(filter, quals.skip(1))
    }
}

/// Whether `qual` is a filter of the kind `filter`.
pub fn is_filter(filter: Filter, qual: &Qual) -> (r: bool)
    ensures
        r == qualifies(filter, *qual),
{
    let field = qual.field.as_str();
    let operator = qual.operator.as_str();
    match filter {
        Filter::MetricName => str_eq(field, "metric_name") && str_eq(operator, "="),
        Filter::LowerBound => str_eq(field, "metric_time") && (str_eq(operator, ">") || str_eq(
            operator,
            ">=",
        )),
        Filter::UpperBound => str_eq(field, "metric_time") && (str_eq(operator, "<") || str_eq(
            operator,
            "<=",
        )),
    }
}

/// Finds the first of `quals` that is a filter of the kind `filter`.
pub fn find_qual<'a>(filter: Filter, quals: &'a [Qual]) -> (found: Option<&'a Qual>)
    ensures
        match found {
            Some(qual) => first_match(filter, quals@) == Some(*qual),
            None => first_match(filter, quals@) is None,
        },
{
    let mut i: usize = 0;
    assert(quals@.skip(0) =~= quals@);
    while i < quals.len()
        invariant
            i <= quals@.len(),
            first_match(filter, quals@) == first_match(filter, quals@.skip(i as int)),
        decreases quals@.len() - i,
    {
        if is_filter(filter, &quals[i]) {
            return Some(&quals[i]);
        }
        assert(quals@.skip(i as int).skip(1) =~= quals@.skip(i + 1));
        i += 1;
    }
    None
}

/// The query token that a filter's value gives: a text as it is, an integer
/// in decimal, and nothing for anything else.
pub open spec fn promql_text(value: Operand) -> Seq<char> {
    match value {
        Operand::Cell(Cell::Text(text)) => text@,
        Operand::Cell(Cell::I64(i)) => decimal(i as int),
        _ => Seq::empty(),
    }
}

/// What there is to say of a value that gives no token.
pub open spec fn promql_diagnostic(value: Operand) -> Option<Diagnostic> {
    match value {
        Operand::Cell(Cell::Text(_)) => None,
        Operand::Cell(Cell::I64(_)) => None,
        Operand::Cell(_) => Some(Diagnostic::UnsupportedCell),
        Operand::Array(_) => Some(Diagnostic::UnsupportedValue),
    }
}

/// The step of the query: the `step` option, or ten minutes.
pub open spec fn step_of(options: Map<Seq<char>, Seq<char>>) -> Seq<char> {
    if options.contains_key("step"@) {
        options["step"@]
    } else {
        "10m"@
    }
}

/// The URL of a range query.
pub open spec fn query_url(
    endpoint: Seq<char>,
    token: Seq<char>,
    lower: Seq<char>,
    upper: Seq<char>,
    step: Seq<char>,
) -> Seq<char> {
    endpoint + "/api/v1/query_range?query="@ + percent_encoded(token) + "&start="@ + lower
        + "&end="@ + upper + "&step="@ + step
}

/// Whether `quals` hold the three filters that a query needs.
pub open spec fn has_filters(quals: Seq<Qual>) -> bool {
    &&& first_match(Filter::MetricName, quals) is Some
    &&& first_match(Filter::LowerBound, quals) is Some
    &&& first_match(Filter::UpperBound, quals) is Some
}

/// The URL that a scan of `object` under `quals` asks for; the empty text
/// where there is nothing to ask.
pub open spec fn translated_url(
    endpoint: Seq<char>,
    object: Seq<char>,
    options: Map<Seq<char>, Seq<char>>,
    quals: Seq<Qual>,
) -> Seq<char> {
    if object_kind(object) == ObjectKind::Metrics && has_filters(quals) {
        query_url(
            endpoint,
            promql_text(first_match(Filter::MetricName, quals)->0.value),
            promql_text(first_match(Filter::LowerBound, quals)->0.value),
            promql_text(first_match(Filter::UpperBound, quals)->0.value),
            step_of(options),
        )
    } else {
        Seq::empty()
    }
}

pub open spec fn diagnostic_list(diagnostic: Option<Diagnostic>) -> Seq<Diagnostic> {
    match diagnostic {
        Some(d) => seq![d],
        None => Seq::empty(),
    }
}

/// What translating has to say, in the order in which it comes up: the step,
/// then the filters, then each token.
pub open spec fn translation_diagnostics(
    object: Seq<char>,
    options: Map<Seq<char>, Seq<char>>,
    quals: Seq<Qual>,
) -> Seq<Diagnostic> {
    if object_kind(object) != ObjectKind::Metrics {
        seq![Diagnostic::UnsupportedObject]
    } else {
        let step = if options.contains_key("step"@) {
            Seq::empty()
        } else {
            seq![Diagnostic::DefaultStep]
        };
        if has_filters(quals) {
            step + diagnostic_list(
                promql_diagnostic(first_match(Filter::MetricName, quals)->0.value),
            ) + diagnostic_list(promql_diagnostic(first_match(Filter::LowerBound, quals)->0.value))
                + diagnostic_list(
                promql_diagnostic(first_match(Filter::UpperBound, quals)->0.value),
            )
        } else {
            step.push(Diagnostic::FiltersNotFound)
        }
    }
}

/// A translated scan: the URL to ask, empty where there is nothing to ask,
/// and what there was to say on the way.
#[derive(Debug, Clone, PartialEq)]
pub struct Translation {
    pub url: String,
    pub diagnostics: Vec<Diagnostic>,
}

/// A URL that asks something is never empty: the empty URL always stands
/// for "nothing to ask".
pub proof fn lemma_url_empty_iff_nothing_to_ask(
    endpoint: Seq<char>,
    object: Seq<char>,
    options: Map<Seq<char>, Seq<char>>,
    quals: Seq<Qual>,
)
    ensures
        translated_url(endpoint, object, options, quals).len() == 0 <==> !(object_kind(object)
            == ObjectKind::Metrics && has_filters(quals)),
{
    reveal_strlit("/api/v1/query_range?query=");
}

} // verus!
