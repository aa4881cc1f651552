//! The data wrapper: a connection to one Prometheus endpoint, and the scan
//! that the host drives over it.
//!
//! A scan goes `begin_scan`, `iter_scan` until it says that no row is left,
//! `end_scan`. Sending the request is not done here. `plan_scan` says what to
//! ask and with which credential; the caller asks, and hands what came of it
//! to `begin_scan`.
//!
//! Failures come in two kinds. A soft one leaves the scan without rows and a
//! diagnostic behind: filters that do not make a query, an object that is
//! not supported, a request without an answer, a body that cannot be read. A
//! hard one ends the scan with an error: a request that ran out of time, and
//! a body that is not JSON.

use crate::decode::{body_diagnostics, body_rows, decode};
use crate::interface::{
    Cell,
    Column,
    Diagnostic,
    Operand,
    Qual,
    Row,
    RowView,
    ScanError,
    rows_view,
};
use crate::options::Options;
use crate::percent::encode;
use crate::text::i64_to_decimal;
use crate::translate::{
    Filter,
    ObjectKind,
    Translation,
    diagnostic_list,
    find_qual,
    has_filters,
    lemma_url_empty_iff_nothing_to_ask,
    promql_diagnostic,
    promql_text,
    translated_url,
    translation_diagnostics,
};
use vstd::prelude::*;
use vstd::string::*;

verus! {

/// Why no connection could be made.
#[derive(Debug, Clone, Copy, PartialEq, Eq, Structural)]
pub enum ConfigError {
    /// Neither the `base_url` option nor the environment names an endpoint.
    MissingEndpoint,
    /// The endpoint is the empty text.
    EmptyEndpoint,
}

/// Where a scan stands.
#[derive(Debug, Clone, Copy, PartialEq, Eq, Structural)]
pub enum ScanState {
    Unstarted,
    Populated,
    Draining,
    Ended,
}

/// How a request says who asks.
#[derive(Debug, Clone, PartialEq)]
pub enum Credential {
    Bearer(String),
    Basic(String, String),
    Anonymous,
}

pub enum CredentialView {
    Bearer(Seq<char>),
    Basic(Seq<char>, Seq<char>),
    Anonymous,
}

impl View for Credential {
    type V = CredentialView;

    open spec fn view(&self) -> CredentialView {
        match self {
            Credential::Bearer(token) => CredentialView::Bearer(token@),
            Credential::Basic(username, password) => CredentialView::Basic(username@, password@),
            Credential::Anonymous => CredentialView::Anonymous,
        }
    }
}

/// One GET request.
#[derive(Debug, Clone, PartialEq)]
pub struct Request {
    pub url: String,
    pub credential: Credential,
}

/// What a scan has to ask, if anything.
#[derive(Debug, Clone, PartialEq)]
pub struct ScanPlan {
    pub request: Option<Request>,
    pub diagnostics: Vec<Diagnostic>,
}

/// What came of a request.
#[derive(Debug, Clone, PartialEq)]
pub enum FetchOutcome {
    /// No request was sent.
    NotSent,
    /// The answer's body.
    Body(String),
    /// The request failed on the way, otherwise than by running out of time.
    Failed,
    /// An answer came, and its body could not be read as text.
    BodyUnreadable,
    /// The request ran out of time.
    TimedOut,
}

pub enum FetchOutcomeView {
    NotSent,
    Body(Seq<char>),
    Failed,
    BodyUnreadable,
    TimedOut,
}

impl View for FetchOutcome {
    type V = FetchOutcomeView;

    open spec fn view(&self) -> FetchOutcomeView {
        match self {
            FetchOutcome::NotSent => FetchOutcomeView::NotSent,
            FetchOutcome::Body(body) => FetchOutcomeView::Body(body@),
            FetchOutcome::Failed => FetchOutcomeView::Failed,
            FetchOutcome::BodyUnreadable => FetchOutcomeView::BodyUnreadable,
            FetchOutcome::TimedOut => FetchOutcomeView::TimedOut,
        }
    }
}

pub open spec fn text_view(text: Option<String>) -> Option<Seq<char>> {
    match text {
        Some(t) => Some(t@),
        None => None,
    }
}

/// The value of an option, where it has one.
pub open spec fn option_of(options: Map<Seq<char>, Seq<char>>, key: Seq<char>) -> Option<
    Seq<char>,
> {
    if options.contains_key(key) {
        Some(options[key])
    } else {
        None
    }
}

/// The endpoint of a connection: the `base_url` option where there is one,
/// else what the environment names. It may not be missing, nor empty.
pub open spec fn resolved_endpoint(
    options: Map<Seq<char>, Seq<char>>,
    environment: Option<Seq<char>>,
) -> Result<Seq<char>, ConfigError> {
    let named = if options.contains_key("base_url"@) {
        Some(options["base_url"@])
    } else {
        environment
    };
    match named {
        None => Err(ConfigError::MissingEndpoint),
        Some(endpoint) => if endpoint.len() == 0 {
            Err(ConfigError::EmptyEndpoint)
        } else {
            Ok(endpoint)
        },
    }
}

/// The rows that a scan holds once it has begun, or why it was given up.
///
/// Where the filters make no query, nothing was asked and there are no rows,
/// whatever `outcome` says.
pub open spec fn scan_rows(
    endpoint: Seq<char>,
    options: Map<Seq<char>, Seq<char>>,
    quals: Seq<Qual>,
    outcome: FetchOutcomeView,
) -> Result<Seq<RowView>, ScanError> {
    let object = options["object"@];
    if translated_url(endpoint, object, options, quals).len() == 0 {
        Ok(Seq::empty())
    } else {
        match outcome {
            FetchOutcomeView::NotSent => Ok(Seq::empty()),
            FetchOutcomeView::Failed => Ok(Seq::empty()),
            FetchOutcomeView::BodyUnreadable => Ok(Seq::empty()),
            FetchOutcomeView::TimedOut => Err(ScanError::Timeout),
            FetchOutcomeView::Body(body) => body_rows(object, body, quals),
        }
    }
}

/// What beginning a scan has to say, once the request is done.
pub open spec fn scan_diagnostics(
    endpoint: Seq<char>,
    options: Map<Seq<char>, Seq<char>>,
    quals: Seq<Qual>,
    outcome: FetchOutcomeView,
) -> Seq<Diagnostic> {
    let object = options["object"@];
    if translated_url(endpoint, object, options, quals).len() == 0 {
        Seq::empty()
    } else {
        match outcome {
            FetchOutcomeView::NotSent => seq![Diagnostic::NoResponse],
            FetchOutcomeView::Failed => seq![Diagnostic::NoResponse],
            FetchOutcomeView::BodyUnreadable => seq![Diagnostic::BodyUnreadable],
            FetchOutcomeView::TimedOut => Seq::empty(),
            FetchOutcomeView::Body(body) => body_diagnostics(object, body, quals),
        }
    }
}

/// A connection and its scan, as contracts see them.
pub struct FdwView {
    pub base_url: Seq<char>,
    pub username: Option<Seq<char>>,
    pub password: Option<Seq<char>>,
    pub bearer_token: Option<Seq<char>>,
    pub state: ScanState,
    /// The rows that the scan has yet to hand out, the next one first.
    pub rows: Seq<RowView>,
    /// The columns that the host asked for.
    pub columns: Seq<Column>,
}

impl FdwView {
    /// What holds of every connection: it has an endpoint, and a scan that
    /// has not begun, or has ended, holds no rows.
    pub open spec fn inv(self) -> bool {
        &&& self.base_url.len() > 0
        &&& (self.state == ScanState::Unstarted || self.state == ScanState::Ended)
            ==> self.rows.len() == 0
    }

    /// The credential of a request: the bearer token where there is one, else
    /// the username and password where there are both, else none.
    pub open spec fn credential(self) -> CredentialView {
        match (self.bearer_token, self.username, self.password) {
            (Some(token), _, _) => CredentialView::Bearer(token),
            (None, Some(username), Some(password)) => CredentialView::Basic(username, password),
            _ => CredentialView::Anonymous,
        }
    }

    /// The connection with a scan that has just begun, or was given up.
    pub open spec fn after_begin(
        self,
        columns: Seq<Column>,
        rows: Result<Seq<RowView>, ScanError>,
    ) -> FdwView {
        match rows {
            Ok(rows) => FdwView { state: ScanState::Populated, rows, columns, ..self },
            Err(_) => FdwView { state: ScanState::Ended, rows: Seq::empty(), columns, ..self },
        }
    }

    /// The row that the next call of `iter_scan` hands out, if any.
    pub open spec fn next_row(self) -> Option<RowView> {
        if self.rows.len() > 0 {
            Some(self.rows[0])
        } else {
            None
        }
    }

    /// The connection after one call of `iter_scan`.
    pub open spec fn after_next(self) -> FdwView {
        if self.rows.len() > 0 {
            FdwView { state: ScanState::Draining, rows: self.rows.skip(1), ..self }
        } else {
            self
        }
    }

    /// The connection after `n` calls of `iter_scan`.
    pub open spec fn after_nexts(self, n: nat) -> FdwView
        decreases n,
    {
        if n == 0 {
            self
        } else {
            self.after_nexts((n - 1) as nat).after_next()
        }
    }

    /// The connection after `end_scan`.
    pub open spec fn after_end(self) -> FdwView {
        FdwView { state: ScanState::Ended, rows: Seq::empty(), columns: Seq::empty(), ..self }
    }
}

/// A connection to one Prometheus endpoint, and the scan over it.
#[derive(Debug)]
pub struct PrometheusFdw {
    base_url: String,
    username: Option<String>,
    password: Option<String>,
    bearer_token: Option<String>,
    state: ScanState,
    scan_result: Vec<Row>,
    tgt_cols: Vec<Column>,
}

impl View for PrometheusFdw {
    type V = FdwView;

    closed spec fn view(&self) -> FdwView {
        FdwView {
            base_url: self.base_url@,
            username: text_view(self.username),
            password: text_view(self.password),
            bearer_token: text_view(self.bearer_token),
            state: self.state,
            rows: rows_view(self.scan_result@),
            columns: self.tgt_cols@,
        }
    }
}

fn copy_columns(columns: &[Column]) -> (copy: Vec<Column>)
    ensures
        copy@ == columns@,
{
    let mut copy: Vec<Column> = Vec::new();
    let mut i: usize = 0;
    while i < columns.len()
        invariant
            i <= columns@.len(),
            copy@ == columns@.take(i as int),
        decreases columns@.len() - i,
    {
        let column = &columns[i];
        copy.push(Column { name: column.name.clone(), num: column.num, type_oid: column.type_oid });
        i += 1;
    }
    copy
}

fn note(diagnostics: &mut Vec<Diagnostic>, diagnostic: Option<Diagnostic>)
    ensures
        final(diagnostics)@ == old(diagnostics)@ + diagnostic_list(diagnostic),
{
    if let Some(d) = diagnostic {
        diagnostics.push(d);
    }
}

fn option_text(options: &Options, key: &str) -> (text: Option<String>)
    ensures
        text_view(text) == option_of(options@, key@),
{
    match options.get(key) {
        Some(value) => Some(value.clone()),
        None => None,
    }
}

impl PrometheusFdw {
    #[verifier::type_invariant]
    spec fn type_inv(self) -> bool {
        self@.inv()
    }

    /// Makes a connection from the server's options. `environment` is the
    /// endpoint that the environment names, if it names one. The options
    /// `username`, `password` and `bearer_token` are kept as they are given:
    /// which of them a request bears is settled when it is made.
    pub fn new(options: &Options, environment: Option<String>) -> (made: Result<
        (PrometheusFdw, Vec<Diagnostic>),
        ConfigError,
    >)
        ensures
            match resolved_endpoint(options@, text_view(environment)) {
                Ok(endpoint) => made matches Ok((fdw, diagnostics)) && fdw@ == (FdwView {
                    base_url: endpoint,
                    username: option_of(options@, "username"@),
                    password: option_of(options@, "password"@),
                    bearer_token: option_of(options@, "bearer_token"@),
                    state: ScanState::Unstarted,
                    rows: Seq::empty(),
                    columns: Seq::empty(),
                }) && diagnostics@ == (if options@.contains_key("base_url"@) {
                    Seq::<Diagnostic>::empty()
                } else {
                    seq![Diagnostic::EndpointFromEnvironment]
                }),
                Err(error) => made == Err::<(PrometheusFdw, Vec<Diagnostic>), ConfigError>(error),
            },
    {
        let mut diagnostics: Vec<Diagnostic> = Vec::new();
        let named = match option_text(options, "base_url") {
            Some(url) => Some(url),
            None => {
                diagnostics.push(Diagnostic::EndpointFromEnvironment);
                environment
            },
        };
        let base_url = match named {
            Some(url) => url,
            None => {
                return Err(ConfigError::MissingEndpoint);
            },
        };
        if base_url.as_str().is_empty() {
            return Err(ConfigError::EmptyEndpoint);
        }
        let fdw = PrometheusFdw {
            base_url,
            username: option_text(options, "username"),
            password: option_text(options, "password"),
            bearer_token: option_text(options, "bearer_token"),
            state: ScanState::Unstarted,
            scan_result: Vec::new(),
            tgt_cols: Vec::new(),
        };
        assert(fdw@.rows =~= Seq::empty());
        Ok((fdw, diagnostics))
    }

    /// The endpoint of the connection. It is never empty.
    pub fn base_url(&self) -> (url: &str)
        ensures
            url@ == self@.base_url,
            url@.len() > 0,
            self@.inv(),
    {
        proof {
            use_type_invariant(self);
        }
        self.base_url.as_str()
    }

    /// Where the scan stands.
    pub fn state(&self) -> (state: ScanState)
        ensures
            state == self@.state,
    {
        self.state
    }

    /// How many rows the scan has yet to hand out.
    pub fn remaining(&self) -> (n: usize)
        ensures
            n == self@.rows.len(),
    {
        self.scan_result.len()
    }

    /// The columns that the host asked for when the scan began.
    pub fn columns(&self) -> (columns: &Vec<Column>)
        ensures
            columns@ == self@.columns,
    {
        &self.tgt_cols
    }

    /// The credential that a request bears: the bearer token where there is
    /// one, else the username and password where there are both, else none.
    pub fn credential(&self) -> (credential: Credential)
        ensures
            credential@ == self@.credential(),
    {
        match &self.bearer_token {
            Some(token) => Credential::Bearer(token.clone()),
            None => match (&self.username, &self.password) {
                (Some(username), Some(password)) => Credential::Basic(
                    username.clone(),
                    password.clone(),
                ),
                _ => Credential::Anonymous,
            },
        }
    }

    /// Turns a filter's value into a query token. A value of a kind that has
    /// no token gives the empty token and a diagnostic, never a failure.
    pub fn value_to_promql_string(value: &Operand) -> (r: (String, Option<Diagnostic>))
        ensures
            r.0@ == promql_text(*value),
            r.1 == promql_diagnostic(*value),
    {
        match value {
            Operand::Cell(cell) => match cell {
                Cell::Text(text) => (text.clone(), None),
                Cell::I64(i) => (i64_to_decimal(*i), None),
                _ => (String::new(), Some(Diagnostic::UnsupportedCell)),
            },
            Operand::Array(_) => (String::new(), Some(Diagnostic::UnsupportedValue)),
        }
    }

    /// Translates a scan of `object` under `quals` into the URL of one range
    /// query at this connection's endpoint. Where there is nothing to ask,
    /// the URL is empty.
    pub fn build_url(&self, object: &str, options: &Options, quals: &[Qual]) -> (t: Translation)
        ensures
            t.url@ == translated_url(self@.base_url, object@, options@, quals@),
            t.diagnostics@ == translation_diagnostics(object@, options@, quals@),
    {
        let mut diagnostics: Vec<Diagnostic> = Vec::new();
        if ObjectKind::parse(object) != ObjectKind::Metrics {
            diagnostics.push(Diagnostic::UnsupportedObject);
            return Translation { url: String::new(), diagnostics };
        }
        let step: String = match options.get("step") {
            Some(step) => step.clone(),
            None => {
                diagnostics.push(Diagnostic::DefaultStep);
                "10m".to_owned()
            },
        };
        let name = find_qual(Filter::MetricName, quals);
        let lower = find_qual(Filter::LowerBound, quals);
        let upper = find_qual(Filter::UpperBound, quals);
        match (name, lower, upper) {
            (Some(name), Some(lower), Some(upper)) => {
                let (token, said) = Self::value_to_promql_string(&name.value);
                note(&mut diagnostics, said);
                let (start, said) = Self::value_to_promql_string(&lower.value);
                note(&mut diagnostics, said);
                let (end, said) = Self::value_to_promql_string(&upper.value);
                note(&mut diagnostics, said);
                let query = encode(token.as_str());
                let mut url = self.base_url.clone();
                url.append("/api/v1/query_range?query=");
                url.append(query.as_str());
                url.append("&start=");
                url.append(start.as_str());
                url.append("&end=");
                url.append(end.as_str());
                url.append("&step=");
                url.append(step.as_str());
                Translation { url, diagnostics }
            },
            _ => {
                diagnostics.push(Diagnostic::FiltersNotFound);
                Translation { url: String::new(), diagnostics }
            },
        }
    }

    /// Says what a scan has to ask: one request, or nothing where the
    /// filters make no query or the object is not supported.
    pub fn plan_scan(&self, quals: &[Qual], options: &Options) -> (plan: ScanPlan)
        requires
            options@.contains_key("object"@),
        ensures
            ({
                let url = translated_url(self@.base_url, options@["object"@], options@, quals@);
                match plan.request {
                    Some(request) => url.len() > 0 && request.url@ == url && request.credential@
                        == self@.credential(),
                    None => url.len() == 0,
                }
            }),
            plan.diagnostics@ == translation_diagnostics(options@["object"@], options@, quals@),
            !has_filters(quals@) ==> plan.request is None,
    {
        let object = options.get("object").unwrap();
        let Translation { url, diagnostics } = self.build_url(object.as_str(), options, quals);
        proof {
            lemma_url_empty_iff_nothing_to_ask(self@.base_url, object@, options@, quals@);
        }
        if url.as_str().is_empty() {
            ScanPlan { request: None, diagnostics }
        } else {
            ScanPlan { request: Some(Request { url, credential: self.credential() }), diagnostics }
        }
    }

    /// Begins a scan: takes what came of the request that `plan_scan` asked
    /// for, and holds the rows that it gives.
    ///
    /// Nothing of an earlier scan is left: the rows are those of this
    /// request, the columns those named here. Where the scan is given up, it
    /// has ended and holds no rows.
    pub fn begin_scan(
        &mut self,
        quals: &[Qual],
        columns: &[Column],
        options: &Options,
        outcome: FetchOutcome,
    ) -> (begun: Result<Vec<Diagnostic>, ScanError>)
        requires
            options@.contains_key("object"@),
        ensures
            final(self)@ == old(self)@.after_begin(
                columns@,
                scan_rows(old(self)@.base_url, options@, quals@, outcome@),
            ),
            match scan_rows(old(self)@.base_url, options@, quals@, outcome@) {
                Ok(_) => begun matches Ok(diagnostics) && diagnostics@ == scan_diagnostics(
                    old(self)@.base_url,
                    options@,
                    quals@,
                    outcome@,
                ),
                Err(error) => begun == Err::<Vec<Diagnostic>, ScanError>(error),
            },
            !has_filters(quals@) ==> begun is Ok && final(self)@.rows.len() == 0,
    {
        proof {
            use_type_invariant(&*self);
        }
        let plan = self.plan_scan(quals, options);
        let object = options.get("object").unwrap();
        let mut rows: Vec<Row> = Vec::new();
        let mut diagnostics: Vec<Diagnostic> = Vec::new();
        let mut failure: Option<ScanError> = None;
        assert(rows_view(rows@) =~= Seq::empty());
        if plan.request.is_some() {
            match outcome {
                FetchOutcome::NotSent => {
                    diagnostics.push(Diagnostic::NoResponse);
                },
                FetchOutcome::Failed => {
                    diagnostics.push(Diagnostic::NoResponse);
                },
                FetchOutcome::BodyUnreadable => {
                    diagnostics.push(Diagnostic::BodyUnreadable);
                },
                FetchOutcome::TimedOut => {
                    failure = Some(ScanError::Timeout);
                },
                FetchOutcome::Body(body) => match decode(object.as_str(), body.as_str(), quals) {
                    Ok(decoded) => {
                        rows = decoded.rows;
                        diagnostics = decoded.diagnostics;
                    },
                    Err(error) => {
                        failure = Some(error);
                    },
                },
            }
        }
        self.tgt_cols = copy_columns(columns);
        match failure {
            Some(error) => {
                self.scan_result = Vec::new();
                self.state = ScanState::Ended;
                Err(error)
            },
            None => {
                self.state = ScanState::Populated;
                self.scan_result = rows;
                Ok(diagnostics)
            },
        }
    }

    /// Hands out the next row of the scan: puts it in `row`, or says that no
    /// row is left and leaves `row` as it is.
    pub fn iter_scan(&mut self, row: &mut Row) -> (handed: Option<()>)
        ensures
            final(self)@ == old(self)@.after_next(),
            match old(self)@.next_row() {
                Some(next) => handed is Some && final(row)@ == next,
                None => handed is None && *final(row) == *old(row),
            },
    {
        proof {
            use_type_invariant(&*self);
        }
        let mut rows: Vec<Row> = Vec::new();
        core::mem::swap(&mut self.scan_result, &mut rows);
        if rows.len() > 0 {
            let next = rows.remove(0);
            assert(rows_view(rows@) =~= rows_view(old(self).scan_result@).skip(1));
            self.state = ScanState::Draining;
            self.scan_result = rows;
            *row = next;
            Some(())
        } else {
            assert(self@.rows =~= old(self)@.rows);
            None
        }
    }

    /// Ends the scan: the rows that are left, and the columns, are let go.
    pub fn end_scan(&mut self)
        ensures
            final(self)@ == old(self)@.after_end(),
    {
        proof {
            use_type_invariant(&*self);
        }
        self.scan_result = Vec::new();
        self.tgt_cols = Vec::new();
        self.state = ScanState::Ended;
        assert(self@.rows =~= Seq::empty());
    }
}

/// Whether two connections are to the same endpoint with the same credentials.
pub open spec fn same_connection(a: FdwView, b: FdwView) -> bool {
    &&& a.base_url == b.base_url
    &&& a.username == b.username
    &&& a.password == b.password
    &&& a.bearer_token == b.bearer_token
}

/// Filters that lack the metric's name, or either end of the time window,
/// give a scan without rows and without an error, whatever came of any
/// request.
pub proof fn lemma_missing_filter_gives_no_rows(
    endpoint: Seq<char>,
    options: Map<Seq<char>, Seq<char>>,
    quals: Seq<Qual>,
    outcome: FetchOutcomeView,
)
    requires
        !has_filters(quals),
    ensures
        translated_url(endpoint, options["object"@], options, quals).len() == 0,
        scan_rows(endpoint, options, quals, outcome) == Ok::<Seq<RowView>, ScanError>(Seq::empty()),
        scan_diagnostics(endpoint, options, quals, outcome) == Seq::<Diagnostic>::empty(),
{
    lemma_url_empty_iff_nothing_to_ask(endpoint, options["object"@], options, quals);
}

/// A scan hands its rows out in their order, one per call, and from then on
/// says "no row" on every call: after `k` calls of `iter_scan` the next call
/// hands out row `k` where there is one, and nothing where there is none.
pub proof fn lemma_rows_come_in_order(s: FdwView, k: nat)
    ensures
        k <= s.rows.len() ==> s.after_nexts(k).rows == s.rows.skip(k as int),
        k >= s.rows.len() ==> s.after_nexts(k).rows.len() == 0,
        k < s.rows.len() ==> s.after_nexts(k).next_row() == Some(s.rows[k as int]),
        k >= s.rows.len() ==> s.after_nexts(k).next_row() is None,
        same_connection(s.after_nexts(k), s),
        s.after_nexts(k).columns == s.columns,
    decreases k,
{
    if k > 0 {
        lemma_rows_come_in_order(s, (k - 1) as nat);
    }
}

/// Beginning a scan leaves nothing of an earlier one: what the connection
/// holds afterwards depends on the connection and on the new scan alone,
/// whether or not the earlier scan was ended, and however far it had come.
pub proof fn lemma_begin_leaves_no_residue(
    a: FdwView,
    b: FdwView,
    columns: Seq<Column>,
    rows: Result<Seq<RowView>, ScanError>,
)
    requires
        same_connection(a, b),
    ensures
        a.after_begin(columns, rows) == b.after_begin(columns, rows),
        a.after_end().after_begin(columns, rows) == a.after_begin(columns, rows),
        rows matches Ok(held) ==> a.after_end().after_begin(columns, rows).rows == held,
        a.after_end().after_begin(columns, rows).columns == columns,
{
}

/// Every step of a scan keeps what holds of every connection.
pub proof fn lemma_steps_keep_inv(
    s: FdwView,
    columns: Seq<Column>,
    rows: Result<Seq<RowView>, ScanError>,
)
    requires
        s.inv(),
    ensures
        s.after_begin(columns, rows).inv(),
        s.after_next().inv(),
        s.after_end().inv(),
{
}

} // verus!
