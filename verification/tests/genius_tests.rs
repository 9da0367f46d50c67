use cyberorganism::genius_platform::genius_api::{
    create_mock_client, create_mock_response, extract_descriptions, reply_result, ApiRequest, GeniusApiClient,
    GeniusApiError, GeniusItem, GeniusResponse, HttpReply, QueryPlan,
};
use cyberorganism::genius_platform::genius_api_bridge::{create_from_settings, GeniusApiBridge, QueryStep};
use cyberorganism::genius_platform::genius_keyhandler::{FeedFrame, GeniusKeyHandler};
use cyberorganism::gui::genius_feed::{expand_indicator, feed_placeholder, ApiRequestCache, GeniusFeedState};
use cyberorganism::commands::AppMode;
use cyberorganism::App;
use std::time::Duration;

#[test]
fn test_genius_api_dummy_data() {
    let mut api_bridge = GeniusApiBridge::new();
    let test_input = "test query";
    let result = match api_bridge.execute_query(test_input) {
        QueryStep::Done(result) => result,
        QueryStep::Send { .. } => panic!("a bridge without an API key answers at once"),
    };

    assert!(result.is_ok(), "Query should succeed");
    if let Ok(response) = result {
        assert_eq!(response.items.len(), 8, "Should have 8 dummy items");
        for item in response.items.iter() {
            assert!(item.description.contains(test_input), "Item description should contain the query text");
        }
        assert_eq!(response.status, "success", "Status should be 'success'");
    }
    assert!(api_bridge.last_response().is_some(), "last_response should be set");
    assert!(!api_bridge.is_request_in_progress(), "request_in_progress should be false");
}

fn create_mock_api_bridge() -> GeniusApiBridge {
    let mut api_bridge = GeniusApiBridge::new();
    let mut items = Vec::new();
    for i in 1..=8 {
        let mut map = serde_json::Map::new();
        map.insert(
            "relevance".to_string(),
            serde_json::Value::Number(serde_json::Number::from_f64(i as f64 * 0.1).unwrap()),
        );
        items.push(GeniusItem {
            id: format!("item-{}", i),
            description: format!("Item {} - This is a dummy item for test", i),
            metadata: serde_json::Value::Object(map).to_string(),
        });
    }
    let response = GeniusResponse { items, status: "success".to_string() };
    api_bridge.set_test_response(response);
    api_bridge
}

#[test]
fn test_render_genius_feed() {
    let api_bridge = create_mock_api_bridge();
    assert!(api_bridge.last_response().is_some(), "API bridge should have a response");
    if let Some(response) = api_bridge.last_response() {
        assert_eq!(response.items.len(), 8, "Response should have 8 items");
        for (i, item) in response.items.iter().enumerate() {
            let i_f64 = (i + 1) as f64;
            let expected_relevance = i_f64 * 0.1;
            let metadata: serde_json::Value = serde_json::from_str(&item.metadata).unwrap();
            let relevance = metadata.get("relevance").and_then(|v| v.as_f64()).unwrap_or(0.0);
            let epsilon = 0.0001;
            assert!(
                (relevance - expected_relevance).abs() < epsilon,
                "Item {} should have relevance {}, got {}",
                i + 1,
                expected_relevance,
                relevance
            );
        }
    }
}

#[test]
fn mock_query_items_and_relevance() {
    let client = create_mock_client();
    let response = client.mock_query("tea");
    assert_eq!(response.items[0].id, "item-1");
    assert_eq!(response.items[2].description, "Item 3 - This is a mock item for query: 'tea'");
    assert_eq!(response.items[7].metadata, "{\"relevance\":0.8}");
    let metadata: serde_json::Value = serde_json::from_str(&response.items[2].metadata).unwrap();
    assert_eq!(metadata.get("relevance").and_then(|v| v.as_f64()), Some(0.3));
}

#[test]
fn client_defaults_and_config() {
    let client = GeniusApiClient::new();
    assert_eq!(client.base_url(), "https://api.genius.example.com");
    assert_eq!(client.timeout(), Duration::from_secs(10));
    assert!(client.uses_mock_data());

    let client = GeniusApiClient::with_config("http://localhost".to_string(), Some("  ".to_string()), Duration::from_millis(5));
    assert_eq!(client.base_url(), "http://localhost");
    assert_eq!(client.timeout(), Duration::from_millis(5));
    assert!(client.uses_mock_data());
}

#[test]
fn keyed_client_plans_a_request() {
    let client = GeniusApiClient::with_config("http://h".to_string(), Some("k1".to_string()), Duration::from_secs(3));
    assert!(!client.uses_mock_data());
    match client.plan_query("say \"hi\"") {
        QueryPlan::Send(ApiRequest { url, authorization, body, timeout }) => {
            assert_eq!(url, "http://h/query");
            assert_eq!(authorization, "Bearer k1");
            assert_eq!(body, "{\"max_results\":10,\"query\":\"say \\\"hi\\\"\"}");
            assert_eq!(timeout, Duration::from_secs(3));
        }
        QueryPlan::Mock(_) => panic!("a keyed client sends requests"),
    }
    match client.plan_query_page("q", 2) {
        QueryPlan::Send(request) => assert_eq!(request.body, "{\"max_results\":10,\"page\":2,\"query\":\"q\"}"),
        QueryPlan::Mock(_) => panic!("a keyed client sends requests"),
    }
}

#[test]
fn reply_results_map_errors() {
    assert!(matches!(reply_result(HttpReply::Failed("down".to_string())), Err(GeniusApiError::NetworkError(m)) if m == "down"));
    let r = reply_result(HttpReply::Status { success: false, status: "404 Not Found".to_string(), body: None });
    assert!(matches!(r, Err(GeniusApiError::ApiError(m)) if m == "API returned error status: 404 Not Found"));
    let r = reply_result(HttpReply::Status { success: true, status: "200 OK".to_string(), body: Some(Err("bad".to_string())) });
    assert!(matches!(r, Err(GeniusApiError::ParseError(m)) if m == "bad"));
    let ok = create_mock_response(vec![]);
    let r = reply_result(HttpReply::Status { success: true, status: "200 OK".to_string(), body: Some(Ok(ok)) });
    assert!(matches!(r, Ok(resp) if resp.status == "success" && resp.items.is_empty()));
}

#[test]
fn error_messages() {
    assert_eq!(GeniusApiError::NetworkError("x".to_string()).message(), "Network error: x");
    assert_eq!(GeniusApiError::ParseError("x".to_string()).message(), "Parse error: x");
    assert_eq!(GeniusApiError::ApiError("x".to_string()).message(), "API error: x");
    assert_eq!(GeniusApiError::Other("x".to_string()).message(), "Other error: x");
}

#[test]
fn bridge_pagination() {
    let app = App::new();
    let mut bridge = GeniusApiBridge::new();
    assert!(!bridge.has_more_pages());
    assert!(matches!(bridge.load_next_page(), QueryStep::Done(Err(GeniusApiError::Other(m))) if m == "No current query to load more results for"));

    assert!(matches!(bridge.query_with_input(&app, "cats"), QueryStep::Done(Ok(_))));
    assert_eq!(bridge.current_page(), 1);
    assert_eq!(bridge.all_items().len(), 8);
    assert!(bridge.has_more_pages());

    assert!(matches!(bridge.load_next_page(), QueryStep::Done(Ok(_))));
    assert_eq!(bridge.current_page(), 2);
    assert_eq!(bridge.all_items().len(), 16);
    assert_eq!(bridge.get_descriptions().len(), 8);

    assert!(matches!(bridge.query_with_input(&app, "dogs"), QueryStep::Done(Ok(_))));
    assert_eq!(bridge.current_page(), 1);
    assert_eq!(bridge.all_items().len(), 8);
}

#[test]
fn bridge_with_key_waits_for_the_reply() {
    let mut bridge = create_from_settings(Some("key".to_string()), Some("org".to_string()));
    let page = match bridge.execute_query("x") {
        QueryStep::Send { request, page } => {
            assert_eq!(request.authorization, "Bearer key");
            page
        }
        QueryStep::Done(_) => panic!("a configured bridge sends a request"),
    };
    assert!(bridge.is_request_in_progress());
    let r = bridge.complete_query(page, Err(GeniusApiError::NetworkError("no route".to_string())));
    assert!(r.is_err());
    assert!(!bridge.is_request_in_progress());
    assert!(bridge.last_response().is_none());

    let unconfigured = create_from_settings(Some("key".to_string()), Some(String::new()));
    assert!(unconfigured.api_client().uses_mock_data());
}

#[test]
fn descriptions_of_a_response() {
    let response = GeniusApiClient::new().mock_query("q");
    let d = extract_descriptions(&response);
    assert_eq!(d.len(), 8);
    assert_eq!(d[0], "Item 1 - This is a mock item for query: 'q'");
}

#[test]
fn feed_focus_wraps_around() {
    let mut state = GeniusFeedState::new();
    assert_eq!(state.get_focused_index(), Some(0));
    state.focus_previous(3);
    assert_eq!(state.get_focused_index(), Some(2));
    state.focus_next(3);
    assert_eq!(state.get_focused_index(), Some(0));
    state.focus_next(0);
    assert_eq!(state.get_focused_index(), Some(0));
    state.set_focused_index(None);
    state.focus_next(3);
    assert_eq!(state.get_focused_index(), Some(0));
    state.settle_focus(0);
    assert_eq!(state.get_focused_index(), None);
    state.settle_focus(4);
    assert_eq!(state.get_focused_index(), Some(0));
}

#[test]
fn feed_item_expansion_toggles() {
    let mut state = GeniusFeedState::new();
    assert!(!state.is_item_expanded(2));
    state.toggle_item_expansion(2);
    assert!(state.is_item_expanded(2));
    assert_eq!(expand_indicator(true), "");
    state.toggle_item_expansion(2);
    assert!(!state.is_item_expanded(2));
    assert_eq!(expand_indicator(false), "\u{25b6}");
}

#[test]
fn rate_limited_queries() {
    let mut app = App::new();
    let mut cache = ApiRequestCache::new();
    let mut bridge = GeniusApiBridge::new();
    let mut handler = GeniusKeyHandler::new();
    let frame = |space: bool, ctrl: bool, now_ns: u64| FeedFrame { shift: false, ctrl, space, now_ns };

    let (handled, step) = handler.handle_input(&mut app, frame(false, false, 1_000_000_000), &mut cache, &mut bridge, "a");
    assert!(!handled);
    assert!(step.is_some());
    // Too soon after the last request
    let (_, step) = handler.handle_input(&mut app, frame(false, false, 1_010_000_000), &mut cache, &mut bridge, "ab");
    assert!(step.is_none());
    // The same text is not asked again
    let (_, step) = handler.handle_input(&mut app, frame(false, false, 2_000_000_000), &mut cache, &mut bridge, "a");
    assert!(step.is_none());
    let (_, step) = handler.handle_input(&mut app, frame(false, false, 2_000_000_000), &mut cache, &mut bridge, "ab");
    assert!(step.is_some());
    // Empty input never queries
    let (_, step) = handler.handle_input(&mut app, frame(false, false, 9_000_000_000), &mut cache, &mut bridge, "");
    assert!(step.is_none());
    // Ctrl+Space switches the mode
    let (handled, _) = handler.handle_input(&mut app, frame(true, true, 9_000_000_000), &mut cache, &mut bridge, "");
    assert!(handled);
    assert_eq!(app.app_mode, AppMode::Feed);
}

#[test]
fn feed_placeholders() {
    let mut bridge = GeniusApiBridge::new();
    assert_eq!(feed_placeholder(&bridge), Some("Type to see Genius suggestions"));
    let keyed = create_from_settings(Some("k".to_string()), Some("o".to_string()));
    let mut keyed = keyed;
    let _ = keyed.execute_query("x");
    assert_eq!(feed_placeholder(&keyed), Some("Loading results..."));
    let _ = bridge.execute_query("x");
    assert_eq!(feed_placeholder(&bridge), None);
}
