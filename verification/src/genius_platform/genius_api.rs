//! The Genius API client: how a query becomes a request, how a reply
//! becomes a response or an error, and the mock data served without an API
//! key.

use vstd::prelude::*;
use core::time::Duration;
use crate::text::{owned, concat, usize_to_string, decimal, trim_ws};

verus! {

/// Represents an item returned from the Genius API
pub struct GeniusItem {
    /// Unique identifier for the item
    pub id: String,
    /// Description text for the item
    pub description: String,
    /// Additional metadata, as the text of a JSON object
    pub metadata: String,
}

/// The plain values of an item.
pub struct ItemView {
    pub id: Seq<char>,
    pub description: Seq<char>,
    pub metadata: Seq<char>,
}

impl View for GeniusItem {
    type V = ItemView;

    open spec fn view(&self) -> ItemView {
        ItemView { id: self.id@, description: self.description@, metadata: self.metadata@ }
    }
}

impl Clone for GeniusItem {
    fn clone(&self) -> (r: Self)
        ensures
            r@ == self@,
    {
        GeniusItem {
            id: self.id.clone(),
            description: self.description.clone(),
            metadata: self.metadata.clone(),
        }
    }
}

/// Response from the Genius API containing multiple items
pub struct GeniusResponse {
    /// List of items returned from the API
    pub items: Vec<GeniusItem>,
    /// Status of the response
    pub status: String,
}

/// The plain values of a response.
pub struct ResponseView {
    pub items: Seq<ItemView>,
    pub status: Seq<char>,
}

/// The views of a list of items.
pub open spec fn item_views(items: Seq<GeniusItem>) -> Seq<ItemView> {
    items.map_values(|i: GeniusItem| i@)
}

impl View for GeniusResponse {
    type V = ResponseView;

    open spec fn view(&self) -> ResponseView {
        ResponseView { items: item_views(self.items@), status: self.status@ }
    }
}

/// Copies a list of items.
pub fn clone_items(items: &Vec<GeniusItem>) -> (r: Vec<GeniusItem>)
    ensures
        item_views(r@) == item_views(items@),
{
    let mut r: Vec<GeniusItem> = Vec::new();
    let mut k: usize = 0;
    while k < items.len()
        invariant
            k <= items@.len(),
            item_views(r@) == item_views(items@.take(k as int)),
        decreases items@.len() - k,
    {
        let ghost prev = r@;
        r.push(items[k].clone());
        proof {
            assert(item_views(r@) =~= item_views(prev).push(items@[k as int]@));
            assert(item_views(items@.take(k + 1)) =~= item_views(items@.take(k as int)).push(
                items@[k as int]@,
            ));
        }
        k = k + 1;
    }
    proof {
        assert(items@.take(items@.len() as int) =~= items@);
    }
    r
}

impl Clone for GeniusResponse {
    fn clone(&self) -> (r: Self)
        ensures
            r@ == self@,
    {
        GeniusResponse { items: clone_items(&self.items), status: self.status.clone() }
    }
}

/// Error types that can occur during API operations
pub enum GeniusApiError {
    /// Error occurred during network request
    NetworkError(String),
    /// Error parsing the response
    ParseError(String),
    /// API returned an error
    ApiError(String),
    /// Other unexpected errors
    Other(String),
}

/// The text of an error: its kind and its message.
pub open spec fn error_text(e: GeniusApiError) -> Seq<char> {
    match e {
        GeniusApiError::NetworkError(m) => "Network error: "@ + m@,
        GeniusApiError::ParseError(m) => "Parse error: "@ + m@,
        GeniusApiError::ApiError(m) => "API error: "@ + m@,
        GeniusApiError::Other(m) => "Other error: "@ + m@,
    }
}

impl GeniusApiError {
    /// The text that describes the error.
    pub fn message(&self) -> (s: String)
        ensures
            s@ == error_text(*self),
    {
        match self {
            GeniusApiError::NetworkError(msg) => concat("Network error: ", msg.as_str()),
            GeniusApiError::ParseError(msg) => concat("Parse error: ", msg.as_str()),
            GeniusApiError::ApiError(msg) => concat("API error: ", msg.as_str()),
            GeniusApiError::Other(msg) => concat("Other error: ", msg.as_str()),
        }
    }
}

/// The duration of `secs` seconds.
pub uninterp spec fn secs_duration(secs: u64) -> Duration;

/// `Duration::from_secs`: the duration of the given number of seconds.
#[verifier::external_body]
fn duration_from_secs(secs: u64) -> (d: Duration)
    ensures
        d == secs_duration(secs),
{
    Duration::from_secs(secs)
}

/// The base URL of the Genius API.
pub open spec fn default_base_url() -> Seq<char> {
    "https://api.genius.example.com"@
}

/// Client for interacting with the Genius API
pub struct GeniusApiClient {
    base_url: String,
    api_key: Option<String>,
    organization_id: Option<String>,
    timeout: Duration,
}

/// The text of an optional string.
pub open spec fn opt_view(s: Option<String>) -> Option<Seq<char>> {
    match s {
        Some(v) => Some(v@),
        None => None,
    }
}

/// The plain values of a client.
pub struct ClientView {
    pub base_url: Seq<char>,
    pub api_key: Option<Seq<char>>,
    pub organization_id: Option<Seq<char>>,
    pub timeout: Duration,
}

impl View for GeniusApiClient {
    type V = ClientView;

    closed spec fn view(&self) -> ClientView {
        ClientView {
            base_url: self.base_url@,
            api_key: opt_view(self.api_key),
            organization_id: opt_view(self.organization_id),
            timeout: self.timeout,
        }
    }
}

/// A request to send to the API: where, with which credentials, what, and
/// how long to wait.
pub struct ApiRequest {
    pub url: String,
    pub authorization: String,
    pub body: String,
    pub timeout: Duration,
}

/// The JSON text of a string.
pub uninterp spec fn json_quoted(s: Seq<char>) -> Seq<char>;

/// A character that JSON writes as it is inside a string: not a double
/// quote, not a backslash and not a control character below U+0020.
pub open spec fn json_plain(c: char) -> bool {
    c != '"' && c != '\\' && ' ' <= c
}

/// `serde_json::to_string` on a string slice: its JSON string literal,
/// which opens and closes with a double quote, and holds a string of plain
/// characters unchanged.  Serializing a string does not fail.
#[verifier::external_body]
fn json_string(s: &str) -> (r: String)
    ensures
        r@ == json_quoted(s@),
        r@.len() >= 2,
        r@[0] == '"',
        r@.last() == '"',
        (forall|i: int| 0 <= i < s@.len() ==> json_plain(#[trigger] s@[i])) ==> r@ == seq!['"'] + s@
            + seq!['"'],
{
    serde_json::to_string(s).unwrap_or_default()
}

/// The body of a query: the query text, the number of results wanted and,
/// for a page past the first, the page.
pub open spec fn query_body(query: Seq<char>, page: Option<usize>) -> Seq<char> {
    match page {
        None => "{\"max_results\":10,\"query\":"@ + json_quoted(query) + "}"@,
        Some(p) => "{\"max_results\":10,\"page\":"@ + decimal(p as nat) + ",\"query\":"@ + json_quoted(
            query,
        ) + "}"@,
    }
}

/// What a query leads to: the mock response when there is no API key, or a
/// request to send.
pub enum QueryPlan {
    Mock(GeniusResponse),
    Send(ApiRequest),
}

/// The client has no usable API key: none, or one of white space only.
pub open spec fn uses_mock(c: ClientView) -> bool {
    match c.api_key {
        None => true,
        Some(k) => trim_ws(k).len() == 0,
    }
}

/// The description of mock item `i` for a query.
pub open spec fn mock_description(i: nat, query: Seq<char>) -> Seq<char> {
    "Item "@ + decimal(i) + " - This is a mock item for query: '"@ + query + "'"@
}

/// Mock item `i` for a query: relevance `i` tenths.
pub open spec fn mock_item(i: nat, query: Seq<char>) -> ItemView {
    ItemView {
        id: "item-"@ + decimal(i),
        description: mock_description(i, query),
        metadata: "{\"relevance\":0."@ + decimal(i) + "}"@,
    }
}

/// The mock response for a query: eight items, the i-th with relevance
/// i tenths, and status "success".
pub open spec fn mock_response(query: Seq<char>) -> ResponseView {
    ResponseView { items: Seq::new(8, |k: int| mock_item((k + 1) as nat, query)), status: "success"@ }
}

/// The request for a query with an API key.
pub open spec fn request_for(c: ClientView, query: Seq<char>, page: Option<usize>, r: ApiRequest) -> bool {
    &&& r.url@ == c.base_url + "/query"@
    &&& r.authorization@ == "Bearer "@ + c.api_key->0
    &&& r.body@ == query_body(query, page)
    &&& r.timeout == c.timeout
}

/// The plan for a query: mock data without a key, a request with one.
pub open spec fn planned(c: ClientView, query: Seq<char>, page: Option<usize>, plan: QueryPlan) -> bool {
    if uses_mock(c) {
        plan matches QueryPlan::Mock(resp) && resp@ == mock_response(query)
    } else {
        plan matches QueryPlan::Send(r) && request_for(c, query, page, r)
    }
}

impl GeniusApiClient {
    /// Create a new API client with default settings
    pub fn new() -> (c: Self)
        ensures
            c@ == (ClientView {
                base_url: default_base_url(),
                api_key: None,
                organization_id: None,
                timeout: secs_duration(10),
            }),
    {
        GeniusApiClient {
            base_url: owned("https://api.genius.example.com"),
            api_key: None,
            organization_id: None,
            timeout: duration_from_secs(10),
        }
    }

    /// Create a new API client with custom configuration
    pub fn with_config(base_url: String, api_key: Option<String>, timeout: Duration) -> (c: Self)
        ensures
            c@ == (ClientView {
                base_url: base_url@,
                api_key: opt_view(api_key),
                organization_id: None,
                timeout,
            }),
    {
        GeniusApiClient { base_url, api_key, organization_id: None, timeout }
    }

    /// The client with the given API key.
    pub fn with_api_key(self, api_key: String) -> (c: Self)
        ensures
            c@ == (ClientView { api_key: Some(api_key@), ..self@ }),
    {
        GeniusApiClient { api_key: Some(api_key), ..self }
    }

    /// The client with the given organization.
    pub fn with_organization_id(self, organization_id: String) -> (c: Self)
        ensures
            c@ == (ClientView { organization_id: Some(organization_id@), ..self@ }),
    {
        GeniusApiClient { organization_id: Some(organization_id), ..self }
    }

    /// Get the base URL for the API
    pub fn base_url(&self) -> (s: &str)
        ensures
            s@ == self@.base_url,
    {
        self.base_url.as_str()
    }

    /// Get the timeout duration
    pub fn timeout(&self) -> (d: Duration)
        ensures
            d == self@.timeout,
    {
        self.timeout
    }

    /// Whether queries are answered with mock data: without an API key, or
    /// with one that is empty or white space.
    pub fn uses_mock_data(&self) -> (b: bool)
        ensures
            b == uses_mock(self@),
    {
        match &self.api_key {
            None => true,
            Some(k) => k.as_str().trim().is_empty(),
        }
    }

    /// Create a mock response for testing and development
    pub fn mock_query(&self, query: &str) -> (r: GeniusResponse)
        ensures
            r@ == mock_response(query@),
    {
        let mut items: Vec<GeniusItem> = Vec::new();
        let mut i: usize = 1;
        while i <= 8
            invariant
                1 <= i <= 9,
                item_views(items@) == Seq::new((i - 1) as nat, |k: int| mock_item((k + 1) as nat, query@)),
            decreases 9 - i,
        {
            let number = usize_to_string(i);
            let id = concat("item-", number.as_str());
            let head = concat("Item ", number.as_str());
            let mid = concat(head.as_str(), " - This is a mock item for query: '");
            let with_query = concat(mid.as_str(), query);
            let description = concat(with_query.as_str(), "'");
            let open = concat("{\"relevance\":0.", number.as_str());
            let metadata = concat(open.as_str(), "}");
            let ghost prev = items@;
            let item = GeniusItem { id, description, metadata };
            proof {
                assert(item@ == mock_item(i as nat, query@));
            }
            items.push(item);
            proof {
                assert(item_views(items@) =~= item_views(prev).push(mock_item(i as nat, query@)));
                assert(item_views(items@) =~= Seq::new(
                    i as nat,
                    |k: int| mock_item((k + 1) as nat, query@),
                ));
            }
            i = i + 1;
        }
        GeniusResponse { items, status: owned("success") }
    }

    /// The request for a query, or the mock response without an API key.
    /// A page is sent when one is given.
    fn plan(&self, query: &str, page: Option<usize>) -> (p: QueryPlan)
        ensures
            planned(self@, query@, page, p),
    {
        if self.uses_mock_data() {
            return QueryPlan::Mock(self.mock_query(query));
        }
        let key = match &self.api_key {
            Some(k) => k.as_str(),
            None => "",
        };
        let url = concat(self.base_url.as_str(), "/query");
        let authorization = concat("Bearer ", key);
        let quoted = json_string(query);
        let body = match page {
            None => {
                let head = concat("{\"max_results\":10,\"query\":", quoted.as_str());
                concat(head.as_str(), "}")
            },
            Some(p) => {
                let head = concat("{\"max_results\":10,\"page\":", usize_to_string(p).as_str());
                let mid = concat(head.as_str(), ",\"query\":");
                let all = concat(mid.as_str(), quoted.as_str());
                concat(all.as_str(), "}")
            },
        };
        QueryPlan::Send(ApiRequest { url, authorization, body, timeout: self.timeout })
    }

    /// What a query needs: the mock response when there is no API key, or
    /// the request to send.
    pub fn plan_query(&self, input: &str) -> (p: QueryPlan)
        ensures
            planned(self@, input@, None, p),
    {
        self.plan(input, None)
    }

    /// What a query for a page of results needs.
    pub fn plan_query_page(&self, input: &str, page: usize) -> (p: QueryPlan)
        ensures
            planned(self@, input@, Some(page), p),
    {
        self.plan(input, Some(page))
    }
}

/// What came back from sending a request: a failure to send it, or a
/// status with, when it is a success, the body parsed as a response or the
/// parser's complaint.
pub enum HttpReply {
    Failed(String),
    Status { success: bool, status: String, body: Option<Result<GeniusResponse, String>> },
}

/// The outcome of a reply: a failure to send is a network error, a
/// status other than success an API error naming it, and a body that does
/// not parse a parse error.
pub open spec fn reply_outcome(reply: HttpReply, r: Result<GeniusResponse, GeniusApiError>) -> bool {
    match reply {
        HttpReply::Failed(m) => r matches Err(GeniusApiError::NetworkError(e)) && e@ == m@,
        HttpReply::Status { success, status, body } => if !success {
            r matches Err(GeniusApiError::ApiError(e)) && e@ == "API returned error status: "@ + status@
        } else {
            match body {
                Some(Ok(resp)) => r matches Ok(got) && got@ == resp@,
                Some(Err(m)) => r matches Err(GeniusApiError::ParseError(e)) && e@ == m@,
                None => r matches Err(GeniusApiError::ParseError(e)) && e@ == Seq::<char>::empty(),
            }
        },
    }
}

/// Turns a reply into the query's result.
pub fn reply_result(reply: HttpReply) -> (r: Result<GeniusResponse, GeniusApiError>)
    ensures
        reply_outcome(reply, r),
{
    match reply {
        HttpReply::Failed(m) => Err(GeniusApiError::NetworkError(m)),
        HttpReply::Status { success, status, body } => {
            if !success {
                return Err(
                    GeniusApiError::ApiError(concat("API returned error status: ", status.as_str())),
                );
            }
            match body {
                Some(Ok(resp)) => Ok(resp),
                Some(Err(m)) => Err(GeniusApiError::ParseError(m)),
                None => Err(GeniusApiError::ParseError(String::new())),
            }
        },
    }
}

/// Creates a mock API client that returns predefined responses
pub fn create_mock_client() -> (c: GeniusApiClient)
    ensures
        c@ == (ClientView {
            base_url: default_base_url(),
            api_key: None,
            organization_id: None,
            timeout: secs_duration(10),
        }),
{
    GeniusApiClient::new()
}

/// Creates a mock response with the given items
pub fn create_mock_response(items: Vec<GeniusItem>) -> (r: GeniusResponse)
    ensures
        r@ == (ResponseView { items: item_views(items@), status: "success"@ }),
{
    GeniusResponse { items, status: owned("success") }
}

/// The descriptions of a list of items.
pub open spec fn descriptions(items: Seq<ItemView>) -> Seq<Seq<char>> {
    items.map_values(|i: ItemView| i.description)
}

/// Extract descriptions from a list of items
pub fn extract_descriptions(response: &GeniusResponse) -> (d: Vec<String>)
    ensures
        d@.map_values(|s: String| s@) == descriptions(response@.items),
{
    let mut d: Vec<String> = Vec::new();
    let mut k: usize = 0;
    while k < response.items.len()
        invariant
            k <= response.items@.len(),
            d@.map_values(|s: String| s@) == descriptions(item_views(response.items@.take(k as int))),
        decreases response.items@.len() - k,
    {
        let ghost prev = d@;
        d.push(response.items[k].description.clone());
        proof {
            assert(d@.map_values(|s: String| s@) =~= prev.map_values(|s: String| s@).push(
                response.items@[k as int].description@,
            ));
            assert(descriptions(item_views(response.items@.take(k + 1))) =~= descriptions(
                item_views(response.items@.take(k as int)),
            ).push(response.items@[k as int].description@));
        }
        k = k + 1;
    }
    proof {
        assert(response.items@.take(response.items@.len() as int) =~= response.items@);
    }
    d
}

/// A client made by `GeniusApiClient::new` has no API key, so every query
/// is answered with the mock response.
pub proof fn lemma_new_client_uses_mock(query: Seq<char>, page: Option<usize>, plan: QueryPlan)
    requires
        planned(
            ClientView {
                base_url: default_base_url(),
                api_key: None,
                organization_id: None,
                timeout: secs_duration(10),
            },
            query,
            page,
            plan,
        ),
    ensures
        plan matches QueryPlan::Mock(resp) && resp@ == mock_response(query),
{
}

/// A client with an API key that is not all white space sends a request,
/// to the query endpoint under its base URL, with the key as a bearer
/// token.
pub proof fn lemma_keyed_client_sends(c: ClientView, query: Seq<char>, page: Option<usize>, plan: QueryPlan)
    requires
        c.api_key matches Some(k) && trim_ws(k).len() > 0,
        planned(c, query, page, plan),
    ensures
        plan matches QueryPlan::Send(r) && r.url@ == c.base_url + "/query"@ && r.authorization@
            == "Bearer "@ + c.api_key->0,
{
}

} // verus!
