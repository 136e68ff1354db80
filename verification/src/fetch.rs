use vstd::prelude::*;

verus! {

/// HTTP methods that fetch requests use.
#[derive(Clone, Copy, Debug, PartialEq, Eq, Structural)]
pub enum HttpMethod {
    Get,
    Post,
}

/// The headers of a request as name and value pairs.
pub fn copy_headers(v: &Vec<(String, String)>) -> (r: Vec<(String, String)>)
    ensures
        r@ == v@,
{
    let mut r: Vec<(String, String)> = Vec::new();
    let mut i: usize = 0;
    while i < v.len()
        invariant
            i <= v@.len(),
            r@ == v@.subrange(0, i as int),
        decreases v@.len() - i,
    {
        let (a, b) = &v[i];
        r.push((a.clone(), b.clone()));
        i = i + 1;
        assert(r@ =~= v@.subrange(0, i as int));
    }
    assert(v@.subrange(0, v@.len() as int) =~= v@);
    r
}

/// A request of a node to fetch a URL.
#[derive(Debug)]
pub struct FetchRequest {
    pub requesting_node_id: u32,
    pub method: HttpMethod,
    pub url: String,
    pub headers: Vec<(String, String)>,
    pub body: Option<String>,
}

/// The contents of a fetch request.
pub struct FetchRequestView {
    pub requesting_node_id: u32,
    pub method: HttpMethod,
    pub url: Seq<char>,
    pub headers: Seq<(String, String)>,
    pub body: Option<String>,
}

impl View for FetchRequest {
    type V = FetchRequestView;

    open spec fn view(&self) -> FetchRequestView {
        FetchRequestView {
            requesting_node_id: self.requesting_node_id,
            method: self.method,
            url: self.url@,
            headers: self.headers@,
            body: self.body,
        }
    }
}

/// A GET request for a URL without headers or body.
pub open spec fn get_request(node_id: u32, url: Seq<char>) -> FetchRequestView {
    FetchRequestView {
        requesting_node_id: node_id,
        method: HttpMethod::Get,
        url,
        headers: Seq::empty(),
        body: None,
    }
}

impl FetchRequest {
    /// A GET request without headers or body.
    pub fn new(node_id: u32, url: &str) -> (r: FetchRequest)
        ensures
            r@ == get_request(node_id, url@),
    {
        FetchRequest {
            requesting_node_id: node_id,
            method: HttpMethod::Get,
            url: String::from_str(url),
            headers: Vec::new(),
            body: None,
        }
    }
}

/// A fetch request as the fetcher receives it: tagged with the project and
/// the domain it is rate-limited under.
#[derive(Debug)]
pub struct InternalFetchRequest {
    pub project_id: String,
    pub node_id: u32,
    pub method: HttpMethod,
    pub domain: String,
    pub url: String,
    pub headers: Vec<(String, String)>,
    pub body: Option<String>,
}

pub struct InternalFetchRequestView {
    pub project_id: Seq<char>,
    pub node_id: u32,
    pub method: HttpMethod,
    pub domain: Seq<char>,
    pub url: Seq<char>,
    pub headers: Seq<(String, String)>,
    pub body: Option<String>,
}

impl View for InternalFetchRequest {
    type V = InternalFetchRequestView;

    open spec fn view(&self) -> InternalFetchRequestView {
        InternalFetchRequestView {
            project_id: self.project_id@,
            node_id: self.node_id,
            method: self.method,
            domain: self.domain@,
            url: self.url@,
            headers: self.headers@,
            body: self.body,
        }
    }
}

/// The internal request built from a node's request, the project and the
/// domain.
pub open spec fn internal_request(request: FetchRequestView, project_id: Seq<char>, domain: Seq<char>) -> InternalFetchRequestView {
    InternalFetchRequestView {
        project_id,
        node_id: request.requesting_node_id,
        method: request.method,
        domain,
        url: request.url,
        headers: request.headers,
        body: request.body,
    }
}

impl InternalFetchRequest {
    pub fn from_request_to_engine(request: FetchRequest, project_id: String, domain: String) -> (r: InternalFetchRequest)
        ensures
            r@ == internal_request(request@, project_id@, domain@),
    {
        InternalFetchRequest {
            project_id,
            node_id: request.requesting_node_id,
            method: request.method,
            domain,
            url: request.url,
            headers: request.headers,
            body: request.body,
        }
    }
}

/// The contents fetched for a node.
#[derive(Debug)]
pub struct FetchResponse {
    pub project_id: String,
    pub node_id: u32,
    pub url: String,
    pub contents: String,
}

/// The reason a fetch for a node failed.
#[derive(Debug)]
pub struct FetchError {
    pub project_id: String,
    pub node_id: u32,
    pub error: String,
}

/// Data that arrived for a node from an earlier request.
#[derive(Debug)]
pub enum ExternalData {
    Response(FetchResponse),
    Error(FetchError),
}

/// What arrived for a node from a request to a model or a search service:
/// the reply, already read into the shape the node expects (or the error of
/// reading it), or the failure of the fetch.
#[derive(Debug)]
pub enum ReplyData<T> {
    Response(crate::error::PiResult<T>),
    Error(FetchError),
}

} // verus!
