//! The request that carries one statement to the store.
//!
//! A statement travels as the plain-text body of one POST request. Namespace
//! and database are not part of the statement: they are selected by two
//! header fields of the request.

use vstd::prelude::*;
use vstd::string::StringExecFns;

verus! {

/// The number of seconds after which the transport gives a request up.
pub const REQUEST_TIMEOUT_SECS: u64 = 120;

/// Where the statements of a run go.
#[derive(Debug, PartialEq, Eq)]
pub struct Target {
    /// Address of the store's query endpoint.
    pub endpoint: String,
    /// Namespace that the statements are run in.
    pub ns: String,
    /// Database that the statements are run in.
    pub db: String,
    /// Table that the items are inserted into.
    pub table: String,
}

/// One header field of a request.
#[derive(Debug, PartialEq, Eq)]
pub struct Header {
    /// Name of the field.
    pub name: String,
    /// Value of the field.
    pub value: String,
}

/// A POST request, as plain values.
#[derive(Debug, PartialEq, Eq)]
pub struct Request {
    /// Address that the request goes to.
    pub url: String,
    /// Header fields, in the order in which they are set.
    pub headers: Vec<Header>,
    /// Body of the request.
    pub body: String,
    /// Number of seconds after which the transport gives the request up.
    pub timeout_secs: u64,
}

/// A request as a mathematical value; each header is a pair of name and value.
pub struct RequestView {
    pub url: Seq<char>,
    pub headers: Seq<(Seq<char>, Seq<char>)>,
    pub body: Seq<char>,
    pub timeout_secs: u64,
}

impl View for Header {
    type V = (Seq<char>, Seq<char>);

    open spec fn view(&self) -> (Seq<char>, Seq<char>) {
        (self.name@, self.value@)
    }
}

impl View for Request {
    type V = RequestView;

    open spec fn view(&self) -> RequestView {
        RequestView {
            url: self.url@,
            headers: self.headers@.map_values(|header: Header| header@),
            body: self.body@,
            timeout_secs: self.timeout_secs,
        }
    }
}

/// The request that submits `statement` to `endpoint`: it accepts a JSON
/// answer, declares its body as plain text, selects namespace `ns` and
/// database `db`, and is given up after the fixed timeout.
pub open spec fn insert_request(
    endpoint: Seq<char>,
    ns: Seq<char>,
    db: Seq<char>,
    statement: Seq<char>,
) -> RequestView {
    RequestView {
        url: endpoint,
        headers: seq![
            ("accept"@, "application/json"@),
            ("content-type"@, "text/plain; charset=utf-8"@),
            ("Surreal-NS"@, ns),
            ("Surreal-DB"@, db),
        ],
        body: statement,
        timeout_secs: REQUEST_TIMEOUT_SECS,
    }
}

fn header(name: &str, value: &str) -> (header: Header)
    ensures
        header@ == (name@, value@),
{
    Header { name: String::from_str(name), value: String::from_str(value) }
}

/// Builds the request that submits `statement` to `endpoint` for namespace
/// `ns` and database `db`.
pub fn build_request(endpoint: &str, ns: &str, db: &str, statement: String) -> (request: Request)
    ensures
        request@ == insert_request(endpoint@, ns@, db@, statement@),
{
    let mut headers: Vec<Header> = Vec::new();
    headers.push(header("accept", "application/json"));
    headers.push(header("content-type", "text/plain; charset=utf-8"));
    headers.push(header("Surreal-NS", ns));
    headers.push(header("Surreal-DB", db));
    let request = Request {
        url: String::from_str(endpoint),
        headers,
        body: statement,
        timeout_secs: REQUEST_TIMEOUT_SECS,
    };
    proof {
        assert(request@.headers =~= insert_request(endpoint@, ns@, db@, statement@).headers);
    }
    request
}

} // verus!
