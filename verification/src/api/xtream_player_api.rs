use vstd::prelude::*;

use crate::api::api_model::{
    UserApiRequest, XtreamAuthorizationResponse, XtreamServerInfo, XtreamUserInfo,
};
use crate::model::api_proxy::UserCredentials;
use crate::model::config::{Config, ConfigInput};
use crate::text_util::{
    opt_string_view, parse_i32, std_parse_i32, str_equal, trim_spec, trim_string,
};

verus! {

/// The pre-rendered collections the repository serves.
#[derive(Debug, Clone, Copy, PartialEq, Eq, Structural)]
pub enum XtreamCollection {
    LiveCategories,
    VodCategories,
    SeriesCategories,
    LiveStreams,
    VodStreams,
    Series,
}

/// What the Player API decides to do with one request, before any
/// repository access.
#[derive(Debug, Clone, PartialEq, Eq, Structural)]
pub enum PlayerApiDecision {
    /// 401: an anonymous login probe that resolved to no user.
    Unauthorized,
    /// 400: resolution failed with an action, no xtream output, or a
    /// malformed id.
    BadRequest,
    /// 200: answer with the synthesized authorization payload.
    Authorize,
    /// Look up cached series detail for this id.
    SeriesInfo(i32),
    /// Look up cached video-on-demand detail for this id.
    VodInfo(i32),
    /// Look up a pre-rendered collection.
    Collection(XtreamCollection),
    /// An unrecognized action: no content.
    NotFound,
}

/// The Player API dispatch rule. Unresolved credentials are rejected
/// as an anonymous probe (401) without an action and as a bad request
/// (400) with one; a resolved target without xtream output is always a
/// bad request; an empty action authorizes; detail actions need a
/// well-formed numeric id; the six collection actions map to their
/// collections; anything else is not found.
pub open spec fn player_api_decision_spec(
    resolved: bool,
    has_xtream: bool,
    action: Seq<char>,
    series_id: Seq<char>,
    vod_id: Seq<char>,
) -> PlayerApiDecision {
    if !resolved {
        if action.len() == 0 {
            PlayerApiDecision::Unauthorized
        } else {
            PlayerApiDecision::BadRequest
        }
    } else if !has_xtream {
        PlayerApiDecision::BadRequest
    } else {
        let a = trim_spec(action);
        if a.len() == 0 {
            PlayerApiDecision::Authorize
        } else if a == "get_series_info"@ {
            match std_parse_i32(trim_spec(series_id)) {
                Option::Some(id) => PlayerApiDecision::SeriesInfo(id),
                Option::None => PlayerApiDecision::BadRequest,
            }
        } else if a == "get_vod_info"@ {
            match std_parse_i32(trim_spec(vod_id)) {
                Option::Some(id) => PlayerApiDecision::VodInfo(id),
                Option::None => PlayerApiDecision::BadRequest,
            }
        } else if a == "get_live_categories"@ {
            PlayerApiDecision::Collection(XtreamCollection::LiveCategories)
        } else if a == "get_vod_categories"@ {
            PlayerApiDecision::Collection(XtreamCollection::VodCategories)
        } else if a == "get_series_categories"@ {
            PlayerApiDecision::Collection(XtreamCollection::SeriesCategories)
        } else if a == "get_live_streams"@ {
            PlayerApiDecision::Collection(XtreamCollection::LiveStreams)
        } else if a == "get_vod_streams"@ {
            PlayerApiDecision::Collection(XtreamCollection::VodStreams)
        } else if a == "get_series"@ {
            PlayerApiDecision::Collection(XtreamCollection::Series)
        } else {
            PlayerApiDecision::NotFound
        }
    }
}

/// Decides one Player API request from the resolution outcome and the
/// request parameters.
pub fn xtream_player_api_decide(
    resolved: bool,
    has_xtream_output: bool,
    action: &str,
    series_id: &str,
    vod_id: &str,
) -> (r: PlayerApiDecision)
    ensures
        r == player_api_decision_spec(
            resolved,
            has_xtream_output,
            action@,
            series_id@,
            vod_id@,
        ),
{
    if !resolved {
        if action.is_empty() {
            return PlayerApiDecision::Unauthorized;
        }
        return PlayerApiDecision::BadRequest;
    }
    if !has_xtream_output {
        return PlayerApiDecision::BadRequest;
    }
    let a = trim_string(action);
    let astr = a.as_str();
    if astr.is_empty() {
        PlayerApiDecision::Authorize
    } else if str_equal(astr, "get_series_info") {
        let sid = trim_string(series_id);
        match parse_i32(sid.as_str()) {
            Some(id) => PlayerApiDecision::SeriesInfo(id),
            None => PlayerApiDecision::BadRequest,
        }
    } else if str_equal(astr, "get_vod_info") {
        let vid = trim_string(vod_id);
        match parse_i32(vid.as_str()) {
            Some(id) => PlayerApiDecision::VodInfo(id),
            None => PlayerApiDecision::BadRequest,
        }
    } else if str_equal(astr, "get_live_categories") {
        PlayerApiDecision::Collection(XtreamCollection::LiveCategories)
    } else if str_equal(astr, "get_vod_categories") {
        PlayerApiDecision::Collection(XtreamCollection::VodCategories)
    } else if str_equal(astr, "get_series_categories") {
        PlayerApiDecision::Collection(XtreamCollection::SeriesCategories)
    } else if str_equal(astr, "get_live_streams") {
        PlayerApiDecision::Collection(XtreamCollection::LiveStreams)
    } else if str_equal(astr, "get_vod_streams") {
        PlayerApiDecision::Collection(XtreamCollection::VodStreams)
    } else if str_equal(astr, "get_series") {
        PlayerApiDecision::Collection(XtreamCollection::Series)
    } else {
        PlayerApiDecision::NotFound
    }
}

/// Decides one Player API request as it arrives on the wire.
pub fn xtream_player_api(resolved: bool, has_xtream_output: bool, req: &UserApiRequest) -> (r:
    PlayerApiDecision)
    ensures
        r == player_api_decision_spec(
            resolved,
            has_xtream_output,
            req.action@,
            req.series_id@,
            req.vod_id@,
        ),
{
    xtream_player_api_decide(
        resolved,
        has_xtream_output,
        req.action.as_str(),
        req.series_id.as_str(),
        req.vod_id.as_str(),
    )
}

/// The status code of a decision that needs no repository access.
pub open spec fn decision_status_spec(d: PlayerApiDecision) -> u16 {
    match d {
        PlayerApiDecision::Unauthorized => 401,
        PlayerApiDecision::BadRequest => 400,
        PlayerApiDecision::Authorize => 200,
        PlayerApiDecision::SeriesInfo(id) => 200,
        PlayerApiDecision::VodInfo(id) => 200,
        PlayerApiDecision::Collection(c) => 200,
        PlayerApiDecision::NotFound => 204,
    }
}

pub fn decision_status(d: &PlayerApiDecision) -> (r: u16)
    ensures
        r == decision_status_spec(*d),
{
    match d {
        PlayerApiDecision::Unauthorized => 401,
        PlayerApiDecision::BadRequest => 400,
        PlayerApiDecision::Authorize => 200,
        PlayerApiDecision::SeriesInfo(_) => 200,
        PlayerApiDecision::VodInfo(_) => 200,
        PlayerApiDecision::Collection(_) => 200,
        PlayerApiDecision::NotFound => 204,
    }
}

/// How one response is served: a status, and at most one of an inline
/// body or a file to stream.
#[derive(Debug, Clone, PartialEq)]
pub struct ApiHttpResponse {
    pub status: u16,
    pub body: Option<String>,
    pub content_type_json: bool,
    pub file_path: Option<String>,
}

/// Serves a cached detail payload: the raw JSON with a JSON content
/// type when it exists, no content otherwise.
pub fn detail_response(content: Option<String>) -> (r: ApiHttpResponse)
    ensures
        r.status == 200 <==> content is Some,
        r.status == 204 <==> content is None,
        opt_string_view(r.body) == opt_string_view(content),
        r.content_type_json == (content is Some),
        r.file_path is None,
{
    match content {
        Some(payload) => ApiHttpResponse {
            status: 200,
            body: Some(payload),
            content_type_json: true,
            file_path: None,
        },
        None => ApiHttpResponse {
            status: 204,
            body: None,
            content_type_json: false,
            file_path: None,
        },
    }
}

/// Serves a collection lookup: a file is streamed, an inline payload
/// is returned directly, and anything else is no content. A failed
/// lookup counts as no content.
pub fn collection_response(
    lookup_ok: bool,
    file_path: Option<String>,
    content: Option<String>,
) -> (r: ApiHttpResponse)
    ensures
        lookup_ok && file_path is Some ==> r.status == 200 && opt_string_view(r.file_path)
            == opt_string_view(file_path) && r.body is None,
        lookup_ok && file_path is None && content is Some ==> r.status == 200 && opt_string_view(
            r.body,
        ) == opt_string_view(content) && r.file_path is None,
        lookup_ok && file_path is None && content is None ==> r.status == 204 && r.body is None
            && r.file_path is None,
        !lookup_ok ==> r.status == 204 && r.body is None && r.file_path is None,
        r.content_type_json == false,
{
    if !lookup_ok {
        return ApiHttpResponse {
            status: 204,
            body: None,
            content_type_json: false,
            file_path: None,
        };
    }
    match file_path {
        Some(path) => ApiHttpResponse {
            status: 200,
            body: None,
            content_type_json: false,
            file_path: Some(path),
        },
        None => match content {
            Some(payload) => ApiHttpResponse {
                status: 200,
                body: Some(payload),
                content_type_json: false,
                file_path: None,
            },
            None => ApiHttpResponse {
                status: 204,
                body: None,
                content_type_json: false,
                file_path: None,
            },
        },
    }
}

// ---------------------------------------------------------------------------
// The authorization payload
// ---------------------------------------------------------------------------

/// Relies on chrono::Local::now: the current local time, as epoch
/// seconds and formatted `%Y-%m-%d %H:%M:%S`. Nothing is promised of
/// either: the clock and time zone decide.
#[verifier::external_body]
fn current_time() -> (r: (i64, String)) {
    let now = chrono::Local::now();
    (now.timestamp(), now.format("%Y-%m-%d %H:%M:%S").to_string())
}

/// The one-year window, in seconds, faked around the current time.
pub open spec fn auth_window() -> int {
    31536000
}

/// Builds the authorization response from the resolved credentials,
/// the configured server metadata, and one clock reading.
pub fn build_user_info(
    user: &UserCredentials,
    server: &crate::model::api_proxy::ApiProxyServerInfo,
    now: i64,
    time_now: String,
) -> (r: XtreamAuthorizationResponse)
    requires
        i64::MIN + auth_window() <= now <= i64::MAX - auth_window(),
    ensures
        r.user_info.auth == 1,
        r.user_info.username@ == user.username@,
        r.user_info.password@ == user.password@,
        r.user_info.active_cons@ == "0"@,
        r.user_info.is_trial@ == "0"@,
        r.user_info.max_connections@ == "1"@,
        r.user_info.status@ == "Active"@,
        r.user_info.message@ == server.message@,
        crate::text_util::strings_view(r.user_info.allowed_output_formats@) == seq![
            "ts"@,
        ],
        r.user_info.created_at == now - auth_window(),
        r.user_info.exp_date == now + auth_window(),
        r.server_info.url@ == server.ip@,
        r.server_info.port == server.http_port,
        r.server_info.https_port == server.https_port,
        r.server_info.server_protocol@ == server.protocol@,
        r.server_info.rtmp_port == server.rtmp_port,
        r.server_info.timezone@ == server.timezone@,
        r.server_info.timestamp_now == now,
        r.server_info.time_now@ == time_now@,
{
    let mut formats: Vec<String> = Vec::new();
    formats.push(String::from_str("ts"));
    proof {
        assert(crate::text_util::strings_view(formats@) =~= seq!["ts"@]);
    }
    XtreamAuthorizationResponse {
        user_info: XtreamUserInfo {
            active_cons: String::from_str("0"),
            allowed_output_formats: formats,
            auth: 1,
            created_at: now - 31536000,
            exp_date: now + 31536000,
            is_trial: String::from_str("0"),
            max_connections: String::from_str("1"),
            message: server.message.clone(),
            password: user.password.clone(),
            username: user.username.clone(),
            status: String::from_str("Active"),
        },
        server_info: XtreamServerInfo {
            url: server.ip.clone(),
            port: server.http_port,
            https_port: server.https_port,
            server_protocol: server.protocol.clone(),
            rtmp_port: server.rtmp_port,
            timezone: server.timezone.clone(),
            timestamp_now: now,
            time_now,
        },
    }
}

/// The authorization response for an empty-action request: fabricated
/// but protocol-shaped, echoing the caller's credentials and the real
/// server metadata, stamped with the current time.
pub fn get_user_info(user: &UserCredentials, cfg: &Config) -> (r: XtreamAuthorizationResponse)
    requires
        cfg._api_proxy is Some,
    ensures
        r.user_info.auth == 1,
        r.user_info.username@ == user.username@,
        r.user_info.password@ == user.password@,
        r.user_info.message@ == cfg._api_proxy->Some_0.server.message@,
        r.server_info.url@ == cfg._api_proxy->Some_0.server.ip@,
        r.server_info.port == cfg._api_proxy->Some_0.server.http_port,
        r.server_info.https_port == cfg._api_proxy->Some_0.server.https_port,
        r.server_info.server_protocol@ == cfg._api_proxy->Some_0.server.protocol@,
        r.server_info.rtmp_port == cfg._api_proxy->Some_0.server.rtmp_port,
        r.server_info.timezone@ == cfg._api_proxy->Some_0.server.timezone@,
        r.user_info.exp_date - r.user_info.created_at == 2 * auth_window(),
        r.server_info.timestamp_now - r.user_info.created_at == auth_window(),
{
    let (now_raw, time_now) = current_time();
    let now: i64 = if now_raw < i64::MIN + 31536000 {
        i64::MIN + 31536000
    } else if now_raw > i64::MAX - 31536000 {
        i64::MAX - 31536000
    } else {
        now_raw
    };
    match &cfg._api_proxy {
        Some(proxy) => build_user_info(user, &proxy.server, now, time_now),
        None => unreached(),
    }
}

// ---------------------------------------------------------------------------
// The stream relay
// ---------------------------------------------------------------------------

/// The upstream URL a relay request is forwarded to, or nothing when
/// the request must be rejected: unresolved credentials, no xtream
/// output, no matching input, or an input without stored credentials
/// all yield Bad Request.
pub open spec fn relay_decision_spec(
    resolved: bool,
    has_xtream: bool,
    input: Option<ConfigInput>,
    context: Seq<char>,
    stream_id: Seq<char>,
) -> Option<Seq<char>> {
    if !resolved || !has_xtream {
        Option::None
    } else {
        match input {
            Option::None => Option::None,
            Option::Some(inp) => match (inp.username, inp.password) {
                (Option::Some(u), Option::Some(p)) => Option::Some(
                    inp.url@ + "/"@ + context + "/"@ + u@ + "/"@ + p@ + "/"@ + stream_id,
                ),
                _ => Option::None,
            },
        }
    }
}

/// Decides one relay request and synthesizes the upstream URL.
pub fn xtream_player_api_stream(
    resolved: bool,
    has_xtream_output: bool,
    input: Option<&ConfigInput>,
    context: &str,
    stream_id: &str,
) -> (r: Option<String>)
    ensures
        opt_string_view(r) == relay_decision_spec(
            resolved,
            has_xtream_output,
            match input {
                Option::Some(inp) => Option::Some(*inp),
                Option::None => Option::None,
            },
            context@,
            stream_id@,
        ),
{
    if !resolved || !has_xtream_output {
        return None;
    }
    match input {
        None => None,
        Some(inp) => {
            match (&inp.username, &inp.password) {
                (Some(u), Some(p)) => {
                    let mut url = inp.url.clone();
                    url.append("/");
                    url.append(context);
                    url.append("/");
                    url.append(u.as_str());
                    url.append("/");
                    url.append(p.as_str());
                    url.append("/");
                    url.append(stream_id);
                    Some(url)
                },
                _ => None,
            }
        },
    }
}

// ---------------------------------------------------------------------------
// Laws of the Player API
// ---------------------------------------------------------------------------

/// A target without xtream output configured is answered with Bad
/// Request for every Player API action, whatever the action and ids
/// say.
pub proof fn lemma_non_xtream_target_rejected(
    action: Seq<char>,
    series_id: Seq<char>,
    vod_id: Seq<char>,
)
    ensures
        player_api_decision_spec(true, false, action, series_id, vod_id)
            == PlayerApiDecision::BadRequest,
        decision_status_spec(
            player_api_decision_spec(true, false, action, series_id, vod_id),
        ) == 400,
{
}

/// Unresolved credentials are answered 401 on a login probe (empty
/// action) and 400 when an action was requested.
pub proof fn lemma_unresolved_credentials(
    has_xtream: bool,
    action: Seq<char>,
    series_id: Seq<char>,
    vod_id: Seq<char>,
)
    ensures
        action.len() == 0 ==> decision_status_spec(
            player_api_decision_spec(false, has_xtream, action, series_id, vod_id),
        ) == 401,
        action.len() > 0 ==> decision_status_spec(
            player_api_decision_spec(false, has_xtream, action, series_id, vod_id),
        ) == 400,
{
}

} // verus!
