use m3u_filter::api::api_model::{
    authorization_body, UserApiRequest, XtreamAuthorizationResponse, XtreamServerInfo,
    XtreamUserInfo,
};
use m3u_filter::api::xtream_player_api::{
    collection_response, decision_status, detail_response, xtream_player_api,
    xtream_player_api_decide, xtream_player_api_stream, PlayerApiDecision, XtreamCollection,
};
use m3u_filter::model::config::{ConfigInput, InputType};

fn sample_response() -> XtreamAuthorizationResponse {
    XtreamAuthorizationResponse {
        user_info: XtreamUserInfo {
            active_cons: "0".to_string(),
            allowed_output_formats: vec!["ts".to_string()],
            auth: 1,
            created_at: 100,
            exp_date: 200,
            is_trial: "0".to_string(),
            max_connections: "1".to_string(),
            message: "msg".to_string(),
            password: "pw".to_string(),
            username: "user".to_string(),
            status: "Active".to_string(),
        },
        server_info: XtreamServerInfo {
            url: "1.2.3.4".to_string(),
            port: 80,
            https_port: 443,
            server_protocol: "http".to_string(),
            rtmp_port: 0,
            timezone: "UTC".to_string(),
            timestamp_now: 150,
            time_now: "2024-01-01 00:00:00".to_string(),
        },
    }
}

#[test]
fn authorization_body_exact() {
    let body = authorization_body(&sample_response());
    let expected = "{\"user_info\":{\"active_cons\":\"0\",\"allowed_output_formats\":[\"ts\"],\"auth\":1,\"created_at\":100,\"exp_date\":200,\"is_trial\":\"0\",\"max_connections\":\"1\",\"message\":\"msg\",\"password\":\"pw\",\"username\":\"user\",\"status\":\"Active\"},\"server_info\":{\"url\":\"1.2.3.4\",\"port\":80,\"https_port\":443,\"server_protocol\":\"http\",\"rtmp_port\":0,\"timezone\":\"UTC\",\"timestamp_now\":150,\"time_now\":\"2024-01-01 00:00:00\"}}";
    assert_eq!(body, expected);
}

#[test]
fn authorization_body_contains_auth_and_credentials() {
    let body = authorization_body(&sample_response());
    assert!(body.contains("\"auth\":1"));
    assert!(body.contains("\"username\":\"user\""));
    assert!(body.contains("\"password\":\"pw\""));
}

#[test]
fn authorization_body_escapes_strings() {
    let mut resp = sample_response();
    resp.user_info.username = "a\"b\\c\nd".to_string();
    let body = authorization_body(&resp);
    assert!(body.contains("\"username\":\"a\\\"b\\\\c\\nd\""));
}

#[test]
fn empty_action_with_valid_credentials_authorizes() {
    let d = xtream_player_api_decide(true, true, "", "", "");
    assert_eq!(d, PlayerApiDecision::Authorize);
    assert_eq!(decision_status(&d), 200);
}

#[test]
fn invalid_credentials_with_empty_action_is_unauthorized() {
    let d = xtream_player_api_decide(false, false, "", "", "");
    assert_eq!(d, PlayerApiDecision::Unauthorized);
    assert_eq!(decision_status(&d), 401);
}

#[test]
fn invalid_credentials_with_action_is_bad_request() {
    let d = xtream_player_api_decide(false, false, "get_live_streams", "", "");
    assert_eq!(d, PlayerApiDecision::BadRequest);
    assert_eq!(decision_status(&d), 400);
}

#[test]
fn non_xtream_target_is_bad_request_for_every_action() {
    for action in ["", "get_live_streams", "get_series_info", "whatever"] {
        let d = xtream_player_api_decide(true, false, action, "1", "1");
        assert_eq!(d, PlayerApiDecision::BadRequest);
        assert_eq!(decision_status(&d), 400);
    }
}

#[test]
fn series_info_with_non_numeric_id_is_bad_request() {
    let d = xtream_player_api_decide(true, true, "get_series_info", "abc", "");
    assert_eq!(d, PlayerApiDecision::BadRequest);
    assert_eq!(decision_status(&d), 400);
}

#[test]
fn series_info_with_numeric_id_absent_from_repository_is_no_content() {
    let d = xtream_player_api_decide(true, true, "get_series_info", " 42 ", "");
    assert_eq!(d, PlayerApiDecision::SeriesInfo(42));
    let resp = detail_response(None);
    assert_eq!(resp.status, 204);
    assert_eq!(resp.body, None);
}

#[test]
fn series_info_present_returns_json_payload() {
    let resp = detail_response(Some("{\"x\":1}".to_string()));
    assert_eq!(resp.status, 200);
    assert!(resp.content_type_json);
    assert_eq!(resp.body, Some("{\"x\":1}".to_string()));
}

#[test]
fn vod_info_parses_its_own_id() {
    let d = xtream_player_api_decide(true, true, "get_vod_info", "", "7");
    assert_eq!(d, PlayerApiDecision::VodInfo(7));
    let bad = xtream_player_api_decide(true, true, "get_vod_info", "", "x");
    assert_eq!(bad, PlayerApiDecision::BadRequest);
}

#[test]
fn collection_actions_map_to_collections() {
    let cases = [
        ("get_live_categories", XtreamCollection::LiveCategories),
        ("get_vod_categories", XtreamCollection::VodCategories),
        ("get_series_categories", XtreamCollection::SeriesCategories),
        ("get_live_streams", XtreamCollection::LiveStreams),
        ("get_vod_streams", XtreamCollection::VodStreams),
        ("get_series", XtreamCollection::Series),
    ];
    for (action, col) in cases {
        let d = xtream_player_api_decide(true, true, action, "", "");
        assert_eq!(d, PlayerApiDecision::Collection(col));
    }
}

#[test]
fn unknown_action_is_not_found() {
    let d = xtream_player_api_decide(true, true, "get_magic", "", "");
    assert_eq!(d, PlayerApiDecision::NotFound);
    assert_eq!(decision_status(&d), 204);
}

#[test]
fn action_is_trimmed_before_dispatch() {
    let d = xtream_player_api_decide(true, true, "  get_series  ", "", "");
    assert_eq!(d, PlayerApiDecision::Collection(XtreamCollection::Series));
}

#[test]
fn collection_lookup_file_is_streamed() {
    let r = collection_response(true, Some("/data/live.json".to_string()), None);
    assert_eq!(r.status, 200);
    assert_eq!(r.file_path, Some("/data/live.json".to_string()));
    assert_eq!(r.body, None);
}

#[test]
fn collection_lookup_inline_payload_is_returned() {
    let r = collection_response(true, None, Some("[1]".to_string()));
    assert_eq!(r.status, 200);
    assert_eq!(r.body, Some("[1]".to_string()));
    assert_eq!(r.file_path, None);
}

#[test]
fn collection_lookup_empty_or_failed_is_no_content() {
    let r = collection_response(true, None, None);
    assert_eq!(r.status, 204);
    let r2 = collection_response(false, Some("/p".to_string()), Some("x".to_string()));
    assert_eq!(r2.status, 204);
    assert_eq!(r2.body, None);
    assert_eq!(r2.file_path, None);
}

fn relay_input() -> ConfigInput {
    ConfigInput {
        id: 1,
        input_type: InputType::Xtream,
        headers: vec![],
        url: "http://up.example".to_string(),
        epg_url: None,
        username: Some("iu".to_string()),
        password: Some("ip".to_string()),
        persist: None,
        prefix: None,
        suffix: None,
        name: None,
        enabled: true,
        options: None,
    }
}

#[test]
fn relay_builds_upstream_url() {
    let input = relay_input();
    let url = xtream_player_api_stream(true, true, Some(&input), "live", "99");
    assert_eq!(url, Some("http://up.example/live/iu/ip/99".to_string()));
}

#[test]
fn relay_rejects_unresolved_or_misconfigured_requests() {
    let input = relay_input();
    assert_eq!(xtream_player_api_stream(false, true, Some(&input), "live", "1"), None);
    assert_eq!(xtream_player_api_stream(true, false, Some(&input), "live", "1"), None);
    assert_eq!(xtream_player_api_stream(true, true, None, "live", "1"), None);
    let mut no_creds = relay_input();
    no_creds.password = None;
    assert_eq!(xtream_player_api_stream(true, true, Some(&no_creds), "movie", "1"), None);
}

#[test]
fn request_dispatch_reads_the_request_fields() {
    let req = UserApiRequest {
        username: "u".to_string(),
        password: "p".to_string(),
        token: "".to_string(),
        action: "get_vod_info".to_string(),
        series_id: "".to_string(),
        vod_id: "31".to_string(),
    };
    assert_eq!(xtream_player_api(true, true, &req), PlayerApiDecision::VodInfo(31));
    assert_eq!(xtream_player_api(true, false, &req), PlayerApiDecision::BadRequest);
}
