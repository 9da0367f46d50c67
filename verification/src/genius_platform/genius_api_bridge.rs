//! The bridge between the application and the Genius API: it keeps the
//! current query and page, the latest response and every item loaded for
//! the query so far, and decides what each query needs.  Sending a request
//! is left to the caller, which hands the reply back.

use vstd::prelude::*;
use crate::App;
use crate::genius_platform::genius_api::{GeniusApiClient, GeniusApiError, GeniusResponse, GeniusItem,
    ClientView, ResponseView, ItemView, ApiRequest, QueryPlan, item_views, clone_items, uses_mock,
    mock_response, request_for, descriptions, default_base_url, secs_duration,
    create_mock_client};
use crate::text::{owned, same_text};

verus! {

/// Bridge between the application UI and the Genius API
pub struct GeniusApiBridge {
    /// The API client used to make requests
    api_client: GeniusApiClient,
    /// The most recent API response
    last_response: Option<GeniusResponse>,
    /// Flag indicating if a request is in progress
    request_in_progress: bool,
    /// Current page number (1-based)
    current_page: usize,
    /// Current query text
    current_query: String,
    /// All items loaded so far (across all pages)
    all_items: Vec<GeniusItem>,
}

/// The plain values of a bridge.
pub struct BridgeView {
    pub client: ClientView,
    pub last_response: Option<ResponseView>,
    pub request_in_progress: bool,
    pub current_page: usize,
    pub current_query: Seq<char>,
    pub all_items: Seq<ItemView>,
}

/// The view of an optional response.
pub open spec fn opt_response(r: Option<GeniusResponse>) -> Option<ResponseView> {
    match r {
        Some(v) => Some(v@),
        None => None,
    }
}

impl View for GeniusApiBridge {
    type V = BridgeView;

    closed spec fn view(&self) -> BridgeView {
        BridgeView {
            client: self.api_client@,
            last_response: opt_response(self.last_response),
            request_in_progress: self.request_in_progress,
            current_page: self.current_page,
            current_query: self.current_query@,
            all_items: item_views(self.all_items@),
        }
    }
}

/// A fresh bridge over a client.
pub open spec fn fresh_bridge(client: ClientView) -> BridgeView {
    BridgeView {
        client,
        last_response: None,
        request_in_progress: false,
        current_page: 1,
        current_query: Seq::empty(),
        all_items: Seq::empty(),
    }
}

/// The bridge after a successful reply for `page`: the response is kept,
/// its items added to those loaded (which the first page starts afresh),
/// and no request is in progress.
pub open spec fn after_ok(b: BridgeView, page: usize, resp: ResponseView) -> BridgeView {
    BridgeView {
        last_response: Some(resp),
        all_items: (if page == 1 {
            Seq::empty()
        } else {
            b.all_items
        }) + resp.items,
        request_in_progress: false,
        ..b
    }
}

/// A successful reply for a page past the first keeps every item loaded
/// so far, in place, and puts the reply's items after them, in order; for
/// the first page the items loaded are exactly the reply's.  The reply
/// becomes the last response and no request is in progress.
pub proof fn lemma_pages_append(b: BridgeView, page: usize, resp: ResponseView)
    ensures
        ({
            let n = after_ok(b, page, resp);
            let kept = if page == 1 {
                0
            } else {
                b.all_items.len() as int
            };
            &&& n.all_items.len() == kept + resp.items.len()
            &&& page != 1 ==> forall|k: int| 0 <= k < b.all_items.len() ==> n.all_items[k] == b.all_items[k]
            &&& forall|k: int| 0 <= k < resp.items.len() ==> n.all_items[kept + k] == resp.items[k]
            &&& n.last_response == Some(resp)
            &&& !n.request_in_progress
            &&& n.current_page == b.current_page
            &&& n.current_query == b.current_query
        }),
{
}

/// The bridge after a failed reply: no request is in progress.
pub open spec fn after_err(b: BridgeView) -> BridgeView {
    BridgeView { request_in_progress: false, ..b }
}

/// What a query needs next: nothing more (its result is there), or a
/// request to send for the given page, whose reply goes back to
/// `complete_query`.
pub enum QueryStep {
    Done(Result<GeniusResponse, GeniusApiError>),
    Send { request: ApiRequest, page: usize },
}

/// Running a query for a page: without an API key the mock response is the
/// result at once; with one, a request for the page is to be sent and the
/// bridge has a request in progress.
pub open spec fn ran_page(old: BridgeView, query: Seq<char>, page: usize, new: BridgeView, step: QueryStep) -> bool {
    if uses_mock(old.client) {
        &&& step matches QueryStep::Done(Ok(resp)) && resp@ == mock_response(query)
        &&& new == after_ok(old, page, mock_response(query))
    } else {
        &&& step matches QueryStep::Send { request, page: p } && p == page && request_for(
            old.client,
            query,
            Some(page),
            request,
        )
        &&& new == BridgeView { request_in_progress: true, ..old }
    }
}

/// The bridge ready for a query: a query other than the current one starts
/// again at the first page with no items loaded.
pub open spec fn reset_for(b: BridgeView, input: Seq<char>) -> BridgeView {
    if input != b.current_query {
        BridgeView { current_page: 1, current_query: input, all_items: Seq::empty(), ..b }
    } else {
        b
    }
}

impl GeniusApiBridge {
    /// Create a new API bridge with default settings
    pub fn new() -> (b: Self)
        ensures
            b@ == fresh_bridge(
                ClientView {
                    base_url: default_base_url(),
                    api_key: None,
                    organization_id: None,
                    timeout: secs_duration(10),
                },
            ),
    {
        Self::with_client(GeniusApiClient::new())
    }

    /// Create a new API bridge with a custom API client
    pub fn with_client(api_client: GeniusApiClient) -> (b: Self)
        ensures
            b@ == fresh_bridge(api_client@),
    {
        let b = GeniusApiBridge {
            api_client,
            last_response: None,
            request_in_progress: false,
            current_page: 1,
            current_query: String::new(),
            all_items: Vec::new(),
        };
        proof {
            assert(item_views(b.all_items@) =~= Seq::<ItemView>::empty());
        }
        b
    }

    /// Configure the API client with the given API key and organization ID
    pub fn configure(&mut self, api_key: &str, organization_id: &str)
        ensures
            final(self)@ == (BridgeView {
                client: ClientView {
                    base_url: default_base_url(),
                    api_key: Some(api_key@),
                    organization_id: Some(organization_id@),
                    timeout: secs_duration(10),
                },
                ..old(self)@
            }),
    {
        self.api_client = GeniusApiClient::new().with_api_key(owned(api_key)).with_organization_id(
            owned(organization_id),
        );
    }

    /// The API client used to make requests.
    pub fn api_client(&self) -> (c: &GeniusApiClient)
        ensures
            c@ == self@.client,
    {
        &self.api_client
    }

    /// Get the input query from the application state: the text of the
    /// input field.
    pub fn get_query_from_app(&self, app: &App) -> (q: String)
        ensures
            q@ == app.display_container_state@.input,
    {
        owned(app.display_container_state.input_value())
    }

    /// Takes the result of a query for `page`: a response is kept and its
    /// items added to those loaded; either way no request is in progress.
    /// Returns the result.
    pub fn complete_query(&mut self, page: usize, result: Result<GeniusResponse, GeniusApiError>) -> (r: Result<GeniusResponse, GeniusApiError>)
        ensures
            r == result,
            match result {
                Ok(resp) => final(self)@ == after_ok(old(self)@, page, resp@),
                Err(_) => final(self)@ == after_err(old(self)@),
            },
    {
        match &result {
            Ok(response) => {
                // Store the response
                self.last_response = Some(response.clone());
                // If this is page 1, clear the all_items list
                if page == 1 {
                    self.all_items.clear();
                }
                // Add the new items to the all_items list
                let ghost before = self.all_items@;
                let mut more = clone_items(&response.items);
                self.all_items.append(&mut more);
                proof {
                    assert(item_views(self.all_items@) =~= item_views(before) + item_views(
                        response.items@,
                    ));
                }
                self.request_in_progress = false;
            },
            Err(_) => {
                self.request_in_progress = false;
            },
        }
        result
    }

    /// Execute a query with the given input string and page number: a
    /// request is in progress until its result comes back.
    pub fn execute_query_with_page(&mut self, query: &str, page: usize) -> (step: QueryStep)
        ensures
            ran_page(old(self)@, query@, page, final(self)@, step),
    {
        // Mark that a request is in progress
        self.request_in_progress = true;
        match self.api_client.plan_query_page(query, page) {
            QueryPlan::Mock(response) => QueryStep::Done(self.complete_query(page, Ok(response))),
            QueryPlan::Send(request) => QueryStep::Send { request, page },
        }
    }

    /// Execute a query with the given input string (page 1)
    pub fn execute_query(&mut self, query: &str) -> (step: QueryStep)
        ensures
            ran_page(old(self)@, query@, 1, final(self)@, step),
    {
        self.execute_query_with_page(query, 1)
    }

    /// Execute a query using the input from the application
    pub fn query_with_app(&mut self, app: &App) -> (step: QueryStep)
        ensures
            ran_page(old(self)@, app.display_container_state@.input, 1, final(self)@, step),
    {
        let query = self.get_query_from_app(app);
        self.execute_query(query.as_str())
    }

    /// Query the API with specific input text: a different query starts
    /// again at the first page.
    pub fn query_with_input(&mut self, _app: &App, input: &str) -> (step: QueryStep)
        ensures
            ran_page(
                reset_for(old(self)@, input@),
                input@,
                reset_for(old(self)@, input@).current_page,
                final(self)@,
                step,
            ),
    {
        // If the query text has changed, reset pagination
        if !same_text(input, self.current_query.as_str()) {
            self.current_page = 1;
            self.current_query = owned(input);
            self.all_items.clear();
            proof {
                assert(item_views(self.all_items@) =~= Seq::<ItemView>::empty());
            }
        }
        let page = self.current_page;
        self.execute_query_with_page(input, page)
    }

    /// Load the next page of results for the current query; without a
    /// current query this is an error.
    pub fn load_next_page(&mut self) -> (step: QueryStep)
        requires
            old(self)@.current_page < usize::MAX,
        ensures
            old(self)@.current_query.len() == 0 ==> final(self)@ == old(self)@ && (step matches QueryStep::Done(
                Err(GeniusApiError::Other(m)),
            ) && m@ == "No current query to load more results for"@),
            old(self)@.current_query.len() > 0 ==> ran_page(
                BridgeView { current_page: (old(self)@.current_page + 1) as usize, ..old(self)@ },
                old(self)@.current_query,
                (old(self)@.current_page + 1) as usize,
                final(self)@,
                step,
            ),
    {
        if self.current_query.as_str().is_empty() {
            return QueryStep::Done(
                Err(GeniusApiError::Other(owned("No current query to load more results for"))),
            );
        }
        // Increment the page number
        self.current_page = self.current_page + 1;
        let query = self.current_query.clone();
        let page = self.current_page;
        self.execute_query_with_page(query.as_str(), page)
    }

    /// Get the descriptions from the last API response
    pub fn get_descriptions(&self) -> (d: Vec<String>)
        ensures
            d@.map_values(|s: String| s@) == match self@.last_response {
                Some(resp) => descriptions(resp.items),
                None => Seq::<Seq<char>>::empty(),
            },
    {
        match &self.last_response {
            Some(response) => crate::genius_platform::genius_api::extract_descriptions(response),
            None => {
                let d: Vec<String> = Vec::new();
                proof {
                    assert(d@.map_values(|s: String| s@) =~= Seq::<Seq<char>>::empty());
                }
                d
            },
        }
    }

    /// Check if a request is currently in progress
    pub fn is_request_in_progress(&self) -> (b: bool)
        ensures
            b == self@.request_in_progress,
    {
        self.request_in_progress
    }

    /// Set a response directly, as if a query had returned it
    pub fn set_test_response(&mut self, response: GeniusResponse)
        ensures
            final(self)@ == (BridgeView {
                last_response: Some(response@),
                request_in_progress: false,
                ..old(self)@
            }),
    {
        self.last_response = Some(response);
        self.request_in_progress = false;
    }

    /// Get the last API response, if any
    pub fn last_response(&self) -> (r: Option<&GeniusResponse>)
        ensures
            match r {
                Some(resp) => self@.last_response == Some(resp@),
                None => self@.last_response is None,
            },
    {
        self.last_response.as_ref()
    }

    /// Get all items loaded so far (across all pages)
    pub fn all_items(&self) -> (items: &[GeniusItem])
        ensures
            item_views(items@) == self@.all_items,
    {
        self.all_items.as_slice()
    }

    /// Get the current page number
    pub fn current_page(&self) -> (p: usize)
        ensures
            p == self@.current_page,
    {
        self.current_page
    }

    /// Check if there are more pages to load: there are while a query is
    /// current.
    pub fn has_more_pages(&self) -> (b: bool)
        ensures
            b == (self@.current_query.len() > 0),
    {
        !self.current_query.as_str().is_empty()
    }
}

/// Create a default API bridge
pub fn create_default_bridge() -> (b: GeniusApiBridge)
    ensures
        b@ == fresh_bridge(
            ClientView {
                base_url: default_base_url(),
                api_key: None,
                organization_id: None,
                timeout: secs_duration(10),
            },
        ),
{
    GeniusApiBridge::new()
}

/// Create a mock API bridge for testing
pub fn create_mock_bridge() -> (b: GeniusApiBridge)
    ensures
        b@ == fresh_bridge(
            ClientView {
                base_url: default_base_url(),
                api_key: None,
                organization_id: None,
                timeout: secs_duration(10),
            },
        ),
{
    GeniusApiBridge::with_client(create_mock_client())
}

/// Create a configured API bridge with the given API key and organization ID
pub fn create_configured_bridge(api_key: &str, organization_id: &str) -> (b: GeniusApiBridge)
    ensures
        b@ == fresh_bridge(
            ClientView {
                base_url: default_base_url(),
                api_key: Some(api_key@),
                organization_id: Some(organization_id@),
                timeout: secs_duration(10),
            },
        ),
{
    let mut bridge = GeniusApiBridge::new();
    bridge.configure(api_key, organization_id);
    bridge
}

/// The bridge for the given settings: configured when both an API key and
/// an organization are given and neither is empty, the default one
/// (answering with mock data) otherwise.
pub fn create_from_settings(api_key: Option<String>, organization_id: Option<String>) -> (b: GeniusApiBridge)
    ensures
        b@ == match (api_key, organization_id) {
            (Some(k), Some(o)) => if k@.len() > 0 && o@.len() > 0 {
                fresh_bridge(
                    ClientView {
                        base_url: default_base_url(),
                        api_key: Some(k@),
                        organization_id: Some(o@),
                        timeout: secs_duration(10),
                    },
                )
            } else {
                fresh_bridge(
                    ClientView {
                        base_url: default_base_url(),
                        api_key: None,
                        organization_id: None,
                        timeout: secs_duration(10),
                    },
                )
            },
            _ => fresh_bridge(
                ClientView {
                    base_url: default_base_url(),
                    api_key: None,
                    organization_id: None,
                    timeout: secs_duration(10),
                },
            ),
        },
{
    match (api_key, organization_id) {
        (Some(key), Some(org)) => {
            if !key.as_str().is_empty() && !org.as_str().is_empty() {
                create_configured_bridge(key.as_str(), org.as_str())
            } else {
                create_default_bridge()
            }
        },
        _ => create_default_bridge(),
    }
}

} // verus!
