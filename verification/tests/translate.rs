use prometheus_fdw::fdw::PrometheusFdw;
use prometheus_fdw::interface::{Cell, Diagnostic, Operand, Qual};
use prometheus_fdw::options::Options;
use prometheus_fdw::translate::{find_qual, is_filter, Filter, ObjectKind, Translation};

fn translate(endpoint: &str, object: &str, options: &Options, quals: &[Qual]) -> Translation {
    let mut server = Options::new();
    server.insert("base_url".to_string(), endpoint.to_string());
    let (fdw, _) = PrometheusFdw::new(&server, None).unwrap();
    fdw.build_url(object, options, quals)
}

fn value_to_promql_string(value: &Operand) -> (String, Option<Diagnostic>) {
    PrometheusFdw::value_to_promql_string(value)
}

fn qual(field: &str, operator: &str, cell: Cell) -> Qual {
    Qual { field: field.to_string(), operator: operator.to_string(), value: Operand::Cell(cell) }
}

fn text(value: &str) -> Cell {
    Cell::Text(value.to_string())
}

fn window(name: &str, lower: i64, upper: i64) -> Vec<Qual> {
    vec![
        qual("metric_name", "=", text(name)),
        qual("metric_time", ">", Cell::I64(lower)),
        qual("metric_time", "<", Cell::I64(upper)),
    ]
}

fn options(pairs: &[(&str, &str)]) -> Options {
    let mut options = Options::new();
    for (key, value) in pairs {
        options.insert(key.to_string(), value.to_string());
    }
    options
}

#[test]
fn object_kind_knows_metrics_only() {
    assert_eq!(ObjectKind::parse("metrics"), ObjectKind::Metrics);
    assert_eq!(ObjectKind::parse("Metrics"), ObjectKind::Unsupported);
    assert_eq!(ObjectKind::parse("alerts"), ObjectKind::Unsupported);
    assert_eq!(ObjectKind::parse(""), ObjectKind::Unsupported);
}

#[test]
fn token_of_a_text_is_the_text() {
    let (token, said) = value_to_promql_string(&Operand::Cell(text("up{job=\"x\"}")));
    assert_eq!(token, "up{job=\"x\"}");
    assert_eq!(said, None);
}

#[test]
fn token_of_an_integer_is_its_decimal() {
    let (token, said) = value_to_promql_string(&Operand::Cell(Cell::I64(1000)));
    assert_eq!(token, "1000");
    assert_eq!(said, None);
    let (token, said) = value_to_promql_string(&Operand::Cell(Cell::I64(-42)));
    assert_eq!(token, "-42");
    assert_eq!(said, None);
}

#[test]
fn token_of_another_cell_is_empty() {
    for cell in [
        Cell::Bool(true),
        Cell::Float("1.5".to_string()),
        Cell::Json(serde_json::Value::Null),
        Cell::Other,
    ] {
        let (token, said) = value_to_promql_string(&Operand::Cell(cell));
        assert_eq!(token, "");
        assert_eq!(said, Some(Diagnostic::UnsupportedCell));
    }
}

#[test]
fn token_of_a_list_is_empty() {
    let list = Operand::Array(vec![Cell::I64(1), Cell::I64(2)]);
    let (token, said) = value_to_promql_string(&list);
    assert_eq!(token, "");
    assert_eq!(said, Some(Diagnostic::UnsupportedValue));
}

#[test]
fn filters_are_told_by_field_and_operator() {
    assert!(is_filter(Filter::MetricName, &qual("metric_name", "=", text("up"))));
    assert!(!is_filter(Filter::MetricName, &qual("metric_name", "<>", text("up"))));
    assert!(!is_filter(Filter::MetricName, &qual("metric_time", "=", Cell::I64(1))));
    assert!(is_filter(Filter::LowerBound, &qual("metric_time", ">", Cell::I64(1))));
    assert!(is_filter(Filter::LowerBound, &qual("metric_time", ">=", Cell::I64(1))));
    assert!(!is_filter(Filter::LowerBound, &qual("metric_time", "<", Cell::I64(1))));
    assert!(is_filter(Filter::UpperBound, &qual("metric_time", "<", Cell::I64(1))));
    assert!(is_filter(Filter::UpperBound, &qual("metric_time", "<=", Cell::I64(1))));
    assert!(!is_filter(Filter::UpperBound, &qual("metric_time", ">=", Cell::I64(1))));
}

#[test]
fn an_inequality_on_another_column_is_no_bound() {
    assert!(!is_filter(Filter::LowerBound, &qual("metric_value", ">=", Cell::I64(1))));
    assert!(!is_filter(Filter::LowerBound, &qual("metric_value", ">", Cell::I64(1))));
    assert!(!is_filter(Filter::UpperBound, &qual("metric_value", "<=", Cell::I64(1))));
    assert!(!is_filter(Filter::UpperBound, &qual("metric_value", "<", Cell::I64(1))));
}

#[test]
fn the_first_matching_filter_counts() {
    let quals = vec![
        qual("metric_time", "<", Cell::I64(5)),
        qual("metric_name", "=", text("first")),
        qual("metric_time", ">=", Cell::I64(1)),
        qual("metric_name", "=", text("second")),
        qual("metric_time", ">", Cell::I64(2)),
        qual("metric_time", "<=", Cell::I64(6)),
    ];
    assert_eq!(find_qual(Filter::MetricName, &quals), Some(&quals[1]));
    assert_eq!(find_qual(Filter::LowerBound, &quals), Some(&quals[2]));
    assert_eq!(find_qual(Filter::UpperBound, &quals), Some(&quals[0]));
    assert_eq!(find_qual(Filter::MetricName, &quals[4..]), None);
    assert_eq!(find_qual(Filter::MetricName, &[]), None);
}

#[test]
fn url_of_a_plain_window_with_default_step() {
    let t = translate("http://prom:9090", "metrics", &options(&[]), &window("up", 1000, 2000));
    assert_eq!(t.url, "http://prom:9090/api/v1/query_range?query=up&start=1000&end=2000&step=10m");
    assert_eq!(t.diagnostics, vec![Diagnostic::DefaultStep]);
}

#[test]
fn url_takes_the_step_option() {
    let t = translate(
        "http://prom:9090",
        "metrics",
        &options(&[("object", "metrics"), ("step", "30s")]),
        &window("up", 1000, 2000),
    );
    assert_eq!(t.url, "http://prom:9090/api/v1/query_range?query=up&start=1000&end=2000&step=30s");
    assert_eq!(t.diagnostics, Vec::<Diagnostic>::new());
}

#[test]
fn url_percent_encodes_the_token() {
    let token = "up{job=\"x\"}";
    let t = translate("http://h", "metrics", &options(&[("step", "1m")]), &window(token, 1, 2));
    assert_eq!(t.url, "http://h/api/v1/query_range?query=up%7Bjob%3D%22x%22%7D&start=1&end=2&step=1m");
    let query = t.url.split("query=").nth(1).unwrap().split('&').next().unwrap();
    assert_eq!(urlencoding::decode(query).unwrap(), token);
}

#[test]
fn url_token_round_trips_for_any_characters() {
    for token in [
        "",
        "up",
        "a-b_c.d~e",
        "rate(http_requests_total{job=~\"api|web\"}[5m])",
        "100% sure & more = less + 1",
        "température{ville=\"Zürich\"}",
        "日本語",
        "%41%zz%",
        "a b\tc\nd",
    ] {
        let t = translate("http://h", "metrics", &options(&[("step", "1m")]), &window(token, 1, 2));
        let query = t.url.split("query=").nth(1).unwrap().split("&start=").next().unwrap();
        assert!(
            query.bytes().all(|b| b.is_ascii_alphanumeric() || b"-._~%".contains(&b)),
            "{}",
            query
        );
        assert_eq!(urlencoding::decode(query).unwrap(), token);
        assert_eq!(query, urlencoding::encode(token));
    }
}

#[test]
fn url_bounds_are_written_as_they_are() {
    let quals = vec![
        qual("metric_name", "=", text("up")),
        qual("metric_time", ">=", text("2024-01-01T00:00:00Z")),
        qual("metric_time", "<=", Cell::I64(-5)),
    ];
    let t = translate("http://h", "metrics", &options(&[("step", "1h")]), &quals);
    assert_eq!(
        t.url,
        "http://h/api/v1/query_range?query=up&start=2024-01-01T00:00:00Z&end=-5&step=1h"
    );
}

#[test]
fn url_of_unsupported_tokens_has_empty_places() {
    let quals = vec![
        qual("metric_name", "=", Cell::Bool(true)),
        qual("metric_time", ">", Cell::Float("1.5".to_string())),
        Qual {
            field: "metric_time".to_string(),
            operator: "<".to_string(),
            value: Operand::Array(vec![Cell::I64(1)]),
        },
    ];
    let t = translate("http://h", "metrics", &options(&[]), &quals);
    assert_eq!(t.url, "http://h/api/v1/query_range?query=&start=&end=&step=10m");
    assert_eq!(
        t.diagnostics,
        vec![
            Diagnostic::DefaultStep,
            Diagnostic::UnsupportedCell,
            Diagnostic::UnsupportedCell,
            Diagnostic::UnsupportedValue,
        ]
    );
}

#[test]
fn no_url_without_the_name() {
    let quals = vec![
        qual("metric_time", ">", Cell::I64(1000)),
        qual("metric_time", "<", Cell::I64(2000)),
    ];
    let t = translate("http://h", "metrics", &options(&[("step", "1m")]), &quals);
    assert_eq!(t.url, "");
    assert_eq!(t.diagnostics, vec![Diagnostic::FiltersNotFound]);
}

#[test]
fn no_url_without_a_lower_bound() {
    let quals = vec![qual("metric_name", "=", text("up")), qual("metric_time", "<", Cell::I64(2))];
    let t = translate("http://h", "metrics", &options(&[]), &quals);
    assert_eq!(t.url, "");
    assert_eq!(t.diagnostics, vec![Diagnostic::DefaultStep, Diagnostic::FiltersNotFound]);
}

#[test]
fn no_url_without_an_upper_bound() {
    let quals = vec![qual("metric_name", "=", text("up")), qual("metric_time", ">", Cell::I64(2))];
    let t = translate("http://h", "metrics", &options(&[("step", "1m")]), &quals);
    assert_eq!(t.url, "");
    assert_eq!(t.diagnostics, vec![Diagnostic::FiltersNotFound]);
}

#[test]
fn no_url_when_the_bounds_are_on_another_column() {
    let quals = vec![
        qual("metric_name", "=", text("up")),
        qual("metric_value", ">=", Cell::I64(1)),
        qual("metric_value", "<=", Cell::I64(2)),
    ];
    let t = translate("http://h", "metrics", &options(&[("step", "1m")]), &quals);
    assert_eq!(t.url, "");
    assert_eq!(t.diagnostics, vec![Diagnostic::FiltersNotFound]);
}

#[test]
fn no_url_for_an_unsupported_object() {
    let t = translate("http://h", "alerts", &options(&[]), &window("up", 1, 2));
    assert_eq!(t.url, "");
    assert_eq!(t.diagnostics, vec![Diagnostic::UnsupportedObject]);
}
