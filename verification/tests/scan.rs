use prometheus_fdw::fdw::{
    ConfigError, Credential, FetchOutcome, PrometheusFdw, Request, ScanState,
};
use prometheus_fdw::interface::{Cell, Column, Diagnostic, Operand, Qual, Row, ScanError};
use prometheus_fdw::options::Options;

fn qual(field: &str, operator: &str, cell: Cell) -> Qual {
    Qual { field: field.to_string(), operator: operator.to_string(), value: Operand::Cell(cell) }
}

fn window(name: &str, lower: i64, upper: i64) -> Vec<Qual> {
    vec![
        qual("metric_name", "=", Cell::Text(name.to_string())),
        qual("metric_time", ">", Cell::I64(lower)),
        qual("metric_time", "<", Cell::I64(upper)),
    ]
}

fn options(pairs: &[(&str, &str)]) -> Options {
    let mut options = Options::new();
    for (key, value) in pairs {
        options.insert(key.to_string(), value.to_string());
    }
    options
}

fn metrics() -> Options {
    options(&[("object", "metrics"), ("step", "1m")])
}

fn connect(pairs: &[(&str, &str)]) -> PrometheusFdw {
    PrometheusFdw::new(&options(pairs), None).unwrap().0
}

fn server() -> PrometheusFdw {
    connect(&[("base_url", "http://prom:9090")])
}

fn column(name: &str, num: usize) -> Column {
    Column { name: name.to_string(), num, type_oid: 25 }
}

fn body(name: &str, times: &[i64]) -> FetchOutcome {
    let values: Vec<String> = times.iter().map(|t| format!("[{},\"{}.5\"]", t, t)).collect();
    FetchOutcome::Body(format!(
        "{{\"data\":{{\"result\":[{{\"metric\":{{\"__name__\":\"{}\"}},\"values\":[{}]}}]}}}}",
        name,
        values.join(",")
    ))
}

fn drain(fdw: &mut PrometheusFdw) -> Vec<Row> {
    let mut rows = Vec::new();
    let mut row = Row::new();
    while fdw.iter_scan(&mut row).is_some() {
        rows.push(row.clone());
    }
    rows
}

fn times(rows: &[Row]) -> Vec<i64> {
    rows.iter()
        .map(|row| match &row.cells[2] {
            Some(Cell::I64(time)) => *time,
            other => panic!("no time: {:?}", other),
        })
        .collect()
}

fn names(rows: &[Row]) -> Vec<String> {
    rows.iter()
        .map(|row| match &row.cells[0] {
            Some(Cell::Text(name)) => name.clone(),
            other => panic!("no name: {:?}", other),
        })
        .collect()
}

#[test]
fn endpoint_comes_from_the_option() {
    let made = PrometheusFdw::new(
        &options(&[("base_url", "http://prom:9090")]),
        Some("http://env".to_string()),
    );
    let (fdw, diagnostics) = made.unwrap();
    assert_eq!(fdw.base_url(), "http://prom:9090");
    assert_eq!(diagnostics, Vec::<Diagnostic>::new());
    assert_eq!(fdw.state(), ScanState::Unstarted);
    assert_eq!(fdw.remaining(), 0);
    assert!(fdw.columns().is_empty());
}

#[test]
fn endpoint_falls_back_to_the_environment() {
    let made = PrometheusFdw::new(&options(&[("username", "u")]), Some("http://env".to_string()));
    let (fdw, diagnostics) = made.unwrap();
    assert_eq!(fdw.base_url(), "http://env");
    assert_eq!(diagnostics, vec![Diagnostic::EndpointFromEnvironment]);
}

#[test]
fn no_connection_without_an_endpoint() {
    let made = PrometheusFdw::new(&options(&[("bearer_token", "t")]), None);
    assert_eq!(made.err(), Some(ConfigError::MissingEndpoint));
}

#[test]
fn no_connection_with_an_empty_endpoint() {
    let made = PrometheusFdw::new(&options(&[("base_url", "")]), Some("http://env".to_string()));
    assert_eq!(made.err(), Some(ConfigError::EmptyEndpoint));
    let made = PrometheusFdw::new(&options(&[]), Some(String::new()));
    assert_eq!(made.err(), Some(ConfigError::EmptyEndpoint));
}

#[test]
fn bearer_token_comes_first() {
    let fdw = connect(&[
        ("base_url", "http://h"),
        ("username", "u"),
        ("password", "p"),
        ("bearer_token", "t"),
    ]);
    assert_eq!(fdw.credential(), Credential::Bearer("t".to_string()));
}

#[test]
fn username_and_password_come_second() {
    let fdw = connect(&[("base_url", "http://h"), ("username", "u"), ("password", "p")]);
    assert_eq!(fdw.credential(), Credential::Basic("u".to_string(), "p".to_string()));
}

#[test]
fn half_a_pair_is_no_credential() {
    let fdw = connect(&[("base_url", "http://h"), ("username", "u")]);
    assert_eq!(fdw.credential(), Credential::Anonymous);
    let fdw = connect(&[("base_url", "http://h"), ("password", "p")]);
    assert_eq!(fdw.credential(), Credential::Anonymous);
    let fdw = connect(&[("base_url", "http://h")]);
    assert_eq!(fdw.credential(), Credential::Anonymous);
}

#[test]
fn build_url_starts_at_the_endpoint() {
    let t = server().build_url("metrics", &options(&[]), &window("up", 1000, 2000));
    assert_eq!(t.url, "http://prom:9090/api/v1/query_range?query=up&start=1000&end=2000&step=10m");
    assert_eq!(t.diagnostics, vec![Diagnostic::DefaultStep]);
}

#[test]
fn plan_asks_one_request_with_the_credential() {
    let fdw = connect(&[("base_url", "http://h"), ("bearer_token", "secret")]);
    let plan = fdw.plan_scan(&window("up", 1, 2), &options(&[("object", "metrics")]));
    assert_eq!(
        plan.request,
        Some(Request {
            url: "http://h/api/v1/query_range?query=up&start=1&end=2&step=10m".to_string(),
            credential: Credential::Bearer("secret".to_string()),
        })
    );
    assert_eq!(plan.diagnostics, vec![Diagnostic::DefaultStep]);
}

#[test]
fn plan_asks_nothing_without_filters() {
    let plan = server().plan_scan(&[], &metrics());
    assert_eq!(plan.request, None);
    assert_eq!(plan.diagnostics, vec![Diagnostic::FiltersNotFound]);
}

#[test]
fn plan_asks_nothing_for_an_unsupported_object() {
    let plan = server().plan_scan(&window("up", 1, 2), &options(&[("object", "alerts")]));
    assert_eq!(plan.request, None);
    assert_eq!(plan.diagnostics, vec![Diagnostic::UnsupportedObject]);
}

#[test]
fn begin_without_a_filter_holds_no_rows() {
    let all = window("up", 1000, 2000);
    for missing in 0..3 {
        let mut quals = all.clone();
        quals.remove(missing);
        for outcome in [
            FetchOutcome::NotSent,
            body("up", &[1, 2, 3]),
            FetchOutcome::Failed,
            FetchOutcome::BodyUnreadable,
            FetchOutcome::TimedOut,
            FetchOutcome::Body("not json".to_string()),
        ] {
            let mut fdw = server();
            let begun = fdw.begin_scan(&quals, &[], &metrics(), outcome);
            assert_eq!(begun, Ok(vec![]));
            assert_eq!(fdw.remaining(), 0);
            assert_eq!(fdw.state(), ScanState::Populated);
            assert_eq!(drain(&mut fdw), Vec::<Row>::new());
        }
    }
}

#[test]
fn begin_holds_the_rows_of_the_body() {
    let mut fdw = server();
    let columns = vec![column("metric_time", 3), column("metric_value", 4)];
    let begun = fdw.begin_scan(&window("up", 0, 9), &columns, &metrics(), body("x", &[1, 2]));
    assert_eq!(begun, Ok(vec![]));
    assert_eq!(fdw.state(), ScanState::Populated);
    assert_eq!(fdw.remaining(), 2);
    assert_eq!(fdw.columns(), &columns);
    let rows = drain(&mut fdw);
    assert_eq!(times(&rows), vec![1, 2]);
    assert_eq!(names(&rows), vec!["up", "up"]);
}

#[test]
fn begin_for_an_unsupported_object_holds_no_rows() {
    let mut fdw = server();
    let begun = fdw.begin_scan(
        &window("up", 0, 9),
        &[],
        &options(&[("object", "alerts")]),
        body("up", &[1]),
    );
    assert_eq!(begun, Ok(vec![]));
    assert_eq!(fdw.remaining(), 0);
    assert_eq!(fdw.state(), ScanState::Populated);
}

#[test]
fn a_request_without_an_answer_is_a_scan_without_rows() {
    for outcome in [FetchOutcome::Failed, FetchOutcome::NotSent] {
        let mut fdw = server();
        let begun = fdw.begin_scan(&window("up", 0, 9), &[], &metrics(), outcome);
        assert_eq!(begun, Ok(vec![Diagnostic::NoResponse]));
        assert_eq!(fdw.remaining(), 0);
        assert_eq!(fdw.state(), ScanState::Populated);
    }
}

#[test]
fn an_unreadable_body_is_a_scan_without_rows() {
    let mut fdw = server();
    let begun = fdw.begin_scan(&window("up", 0, 9), &[], &metrics(), FetchOutcome::BodyUnreadable);
    assert_eq!(begun, Ok(vec![Diagnostic::BodyUnreadable]));
    assert_eq!(fdw.remaining(), 0);
}

#[test]
fn a_timeout_gives_the_scan_up() {
    let mut fdw = server();
    fdw.begin_scan(&window("up", 0, 9), &[], &metrics(), body("up", &[1, 2])).unwrap();
    let begun = fdw.begin_scan(&window("up", 0, 9), &[], &metrics(), FetchOutcome::TimedOut);
    assert_eq!(begun, Err(ScanError::Timeout));
    assert_eq!(fdw.state(), ScanState::Ended);
    assert_eq!(fdw.remaining(), 0);
}

#[test]
fn a_body_that_is_not_json_gives_the_scan_up() {
    for text in ["", "not json", "{\"data\":", "{'data': 1}", "[1,2,]"] {
        let mut fdw = server();
        let outcome = FetchOutcome::Body(text.to_string());
        let begun = fdw.begin_scan(&window("up", 0, 9), &[], &metrics(), outcome);
        assert_eq!(begun, Err(ScanError::Decode), "{}", text);
        assert_eq!(fdw.state(), ScanState::Ended);
        assert_eq!(fdw.remaining(), 0);
    }
}

#[test]
fn a_body_with_an_unsupported_name_says_so() {
    let quals = vec![
        qual("metric_name", "=", Cell::Other),
        qual("metric_time", ">", Cell::I64(1)),
        qual("metric_time", "<", Cell::I64(2)),
    ];
    let mut fdw = server();
    let begun = fdw.begin_scan(&quals, &[], &metrics(), body("up", &[1]));
    assert_eq!(begun, Ok(vec![Diagnostic::UnsupportedCell]));
    assert_eq!(names(&drain(&mut fdw)), vec![""]);
}

#[test]
fn rows_come_one_per_call_and_then_none() {
    let mut fdw = server();
    fdw.begin_scan(&window("up", 0, 99), &[], &metrics(), body("up", &[10, 20, 30, 40])).unwrap();
    let mut row = Row::new();
    for (n, time) in [10, 20, 30, 40].into_iter().enumerate() {
        assert_eq!(fdw.remaining(), 4 - n);
        assert_eq!(fdw.iter_scan(&mut row), Some(()));
        assert_eq!(times(&[row.clone()]), vec![time]);
        assert_eq!(fdw.state(), ScanState::Draining);
    }
    let last = row.clone();
    for _ in 0..5 {
        assert_eq!(fdw.iter_scan(&mut row), None);
        assert_eq!(row, last);
        assert_eq!(fdw.remaining(), 0);
        assert_eq!(fdw.state(), ScanState::Draining);
    }
}

#[test]
fn a_scan_without_rows_says_none_at_once() {
    let mut fdw = server();
    fdw.begin_scan(&window("up", 0, 99), &[], &metrics(), body("up", &[])).unwrap();
    let mut row = Row::new();
    assert_eq!(fdw.iter_scan(&mut row), None);
    assert_eq!(fdw.iter_scan(&mut row), None);
    assert_eq!(row, Row::new());
    assert_eq!(fdw.state(), ScanState::Populated);
}

#[test]
fn a_scan_that_has_not_begun_has_no_rows() {
    let mut fdw = server();
    let mut row = Row::new();
    assert_eq!(fdw.iter_scan(&mut row), None);
    assert_eq!(fdw.state(), ScanState::Unstarted);
    fdw.end_scan();
    assert_eq!(fdw.iter_scan(&mut row), None);
    assert_eq!(fdw.state(), ScanState::Ended);
}

#[test]
fn end_lets_the_rows_go() {
    let mut fdw = server();
    let columns = vec![column("metric_name", 1)];
    fdw.begin_scan(&window("up", 0, 99), &columns, &metrics(), body("up", &[1, 2, 3])).unwrap();
    let mut row = Row::new();
    assert_eq!(fdw.iter_scan(&mut row), Some(()));
    fdw.end_scan();
    assert_eq!(fdw.state(), ScanState::Ended);
    assert_eq!(fdw.remaining(), 0);
    assert!(fdw.columns().is_empty());
    assert_eq!(fdw.iter_scan(&mut row), None);
    fdw.end_scan();
    assert_eq!(fdw.state(), ScanState::Ended);
}

#[test]
fn a_new_scan_holds_nothing_of_the_last() {
    let mut fdw = server();
    let first = vec![column("metric_name", 1), column("metric_time", 3)];
    fdw.begin_scan(&window("up", 0, 99), &first, &metrics(), body("up", &[1, 2, 3])).unwrap();
    let mut row = Row::new();
    assert_eq!(fdw.iter_scan(&mut row), Some(()));
    fdw.end_scan();
    let second = vec![column("metric_value", 4)];
    fdw.begin_scan(&window("down", 100, 199), &second, &metrics(), body("down", &[150, 160]))
        .unwrap();
    assert_eq!(fdw.state(), ScanState::Populated);
    assert_eq!(fdw.columns(), &second);
    let rows = drain(&mut fdw);
    assert_eq!(times(&rows), vec![150, 160]);
    assert_eq!(names(&rows), vec!["down", "down"]);
}

#[test]
fn a_new_scan_without_end_holds_nothing_of_the_last() {
    let mut fdw = server();
    fdw.begin_scan(&window("up", 0, 99), &[], &metrics(), body("up", &[1, 2, 3])).unwrap();
    fdw.begin_scan(&window("down", 0, 99), &[], &metrics(), body("down", &[7])).unwrap();
    let rows = drain(&mut fdw);
    assert_eq!(times(&rows), vec![7]);
    assert_eq!(names(&rows), vec!["down"]);
}
