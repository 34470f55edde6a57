use vstd::prelude::*;

use crate::text_util::{
    dec_str, int_str, i32_to_string, i64_to_string, json_escape_append, json_escape_seq,
    push_char, strings_view, u16_to_string,
};

verus! {

/// The downstream-facing request parameters of the Player API.
#[derive(Debug, Clone, PartialEq)]
pub struct UserApiRequest {
    pub username: String,
    pub password: String,
    pub token: String,
    pub action: String,
    pub series_id: String,
    pub vod_id: String,
}

/// The fabricated account block of an authorization response.
#[derive(Debug, Clone, PartialEq)]
pub struct XtreamUserInfo {
    pub active_cons: String,
    pub allowed_output_formats: Vec<String>,
    pub auth: i32,
    pub created_at: i64,
    pub exp_date: i64,
    pub is_trial: String,
    pub max_connections: String,
    pub message: String,
    pub password: String,
    pub username: String,
    pub status: String,
}

/// The server block of an authorization response.
#[derive(Debug, Clone, PartialEq)]
pub struct XtreamServerInfo {
    pub url: String,
    pub port: u16,
    pub https_port: u16,
    pub server_protocol: String,
    pub rtmp_port: u16,
    pub timezone: String,
    pub timestamp_now: i64,
    pub time_now: String,
}

#[derive(Debug, Clone, PartialEq)]
pub struct XtreamAuthorizationResponse {
    pub user_info: XtreamUserInfo,
    pub server_info: XtreamServerInfo,
}

// ---------------------------------------------------------------------------
// The authorization payload on the wire
// ---------------------------------------------------------------------------

/// A JSON string literal.
pub open spec fn json_str(s: Seq<char>) -> Seq<char> {
    seq!['"'] + json_escape_seq(s) + seq!['"']
}

pub open spec fn json_str_items(ss: Seq<Seq<char>>) -> Seq<char>
    decreases ss.len(),
{
    if ss.len() == 0 {
        Seq::empty()
    } else if ss.len() == 1 {
        json_str(ss[0])
    } else {
        json_str_items(ss.subrange(0, ss.len() - 1)) + seq![','] + json_str(ss[ss.len() - 1])
    }
}

/// A JSON array of string literals.
pub open spec fn json_str_array(ss: Seq<Seq<char>>) -> Seq<char> {
    seq!['['] + json_str_items(ss) + seq![']']
}

/// The serialized account block, fields in declaration order.
pub open spec fn user_info_body(u: XtreamUserInfo) -> Seq<char> {
    "{\"active_cons\":"@ + json_str(u.active_cons@) + ",\"allowed_output_formats\":"@
        + json_str_array(strings_view(u.allowed_output_formats@)) + ",\"auth\":"@ + int_str(
        u.auth as int,
    ) + ",\"created_at\":"@ + int_str(u.created_at as int) + ",\"exp_date\":"@ + int_str(
        u.exp_date as int,
    ) + ",\"is_trial\":"@ + json_str(u.is_trial@) + ",\"max_connections\":"@ + json_str(
        u.max_connections@,
    ) + ",\"message\":"@ + json_str(u.message@) + ",\"password\":"@ + json_str(u.password@)
        + ",\"username\":"@ + json_str(u.username@) + ",\"status\":"@ + json_str(u.status@)
        + seq!['}']
}

/// The serialized server block, fields in declaration order.
pub open spec fn server_info_body(s: XtreamServerInfo) -> Seq<char> {
    "{\"url\":"@ + json_str(s.url@) + ",\"port\":"@ + dec_str(s.port as nat) + ",\"https_port\":"@
        + dec_str(s.https_port as nat) + ",\"server_protocol\":"@ + json_str(s.server_protocol@)
        + ",\"rtmp_port\":"@ + dec_str(s.rtmp_port as nat) + ",\"timezone\":"@ + json_str(
        s.timezone@,
    ) + ",\"timestamp_now\":"@ + int_str(s.timestamp_now as int) + ",\"time_now\":"@ + json_str(
        s.time_now@,
    ) + seq!['}']
}

/// The whole authorization payload.
pub open spec fn auth_body_spec(r: XtreamAuthorizationResponse) -> Seq<char> {
    "{\"user_info\":"@ + user_info_body(r.user_info) + ",\"server_info\":"@ + server_info_body(
        r.server_info,
    ) + seq!['}']
}

fn append_json_str(out: &mut String, s: &str)
    ensures
        final(out)@ == old(out)@ + json_str(s@),
{
    push_char(out, '"');
    json_escape_append(out, s);
    push_char(out, '"');
    proof {
        assert(out@ =~= old(out)@ + json_str(s@));
    }
}

fn append_json_str_array(out: &mut String, ss: &Vec<String>)
    ensures
        final(out)@ == old(out)@ + json_str_array(strings_view(ss@)),
{
    push_char(out, '[');
    let n = ss.len();
    let mut i: usize = 0;
    proof {
        assert(strings_view(ss@).subrange(0, 0) =~= Seq::<Seq<char>>::empty());
        assert(out@ =~= old(out)@ + seq!['['] + json_str_items(
            strings_view(ss@).subrange(0, 0),
        ));
    }
    while i < n
        invariant
            i <= n,
            n == ss@.len(),
            out@ == old(out)@ + seq!['['] + json_str_items(strings_view(ss@).subrange(0, i as int)),
        decreases n - i,
    {
        if i > 0 {
            push_char(out, ',');
        }
        append_json_str(out, ss[i].as_str());
        proof {
            let sv = strings_view(ss@);
            assert(sv.subrange(0, i + 1).subrange(0, i as int) =~= sv.subrange(0, i as int));
            assert(sv.subrange(0, i + 1)[i as int] == ss@[i as int]@);
            assert(out@ =~= old(out)@ + seq!['['] + json_str_items(sv.subrange(0, i + 1)));
        }
        i += 1;
    }
    push_char(out, ']');
    proof {
        assert(strings_view(ss@).subrange(0, n as int) =~= strings_view(ss@));
        assert(out@ =~= old(out)@ + json_str_array(strings_view(ss@)));
    }
}

/// Serializes the account block.
fn user_info_json(u: &XtreamUserInfo) -> (r: String)
    ensures
        r@ == user_info_body(*u),
{
    let mut out = String::from_str("{\"active_cons\":");
    append_json_str(&mut out, u.active_cons.as_str());
    out.append(",\"allowed_output_formats\":");
    append_json_str_array(&mut out, &u.allowed_output_formats);
    out.append(",\"auth\":");
    let auth_s = i32_to_string(u.auth);
    out.append(auth_s.as_str());
    out.append(",\"created_at\":");
    let created_s = i64_to_string(u.created_at);
    out.append(created_s.as_str());
    out.append(",\"exp_date\":");
    let exp_s = i64_to_string(u.exp_date);
    out.append(exp_s.as_str());
    out.append(",\"is_trial\":");
    append_json_str(&mut out, u.is_trial.as_str());
    out.append(",\"max_connections\":");
    append_json_str(&mut out, u.max_connections.as_str());
    out.append(",\"message\":");
    append_json_str(&mut out, u.message.as_str());
    out.append(",\"password\":");
    append_json_str(&mut out, u.password.as_str());
    out.append(",\"username\":");
    append_json_str(&mut out, u.username.as_str());
    out.append(",\"status\":");
    append_json_str(&mut out, u.status.as_str());
    out.append("}");
    proof {
        reveal_strlit("}");
        assert(out@ =~= user_info_body(*u));
    }
    out
}

/// Serializes the server block.
fn server_info_json(s: &XtreamServerInfo) -> (r: String)
    ensures
        r@ == server_info_body(*s),
{
    let mut out = String::from_str("{\"url\":");
    append_json_str(&mut out, s.url.as_str());
    out.append(",\"port\":");
    let port_s = u16_to_string(s.port);
    out.append(port_s.as_str());
    out.append(",\"https_port\":");
    let hport_s = u16_to_string(s.https_port);
    out.append(hport_s.as_str());
    out.append(",\"server_protocol\":");
    append_json_str(&mut out, s.server_protocol.as_str());
    out.append(",\"rtmp_port\":");
    let rport_s = u16_to_string(s.rtmp_port);
    out.append(rport_s.as_str());
    out.append(",\"timezone\":");
    append_json_str(&mut out, s.timezone.as_str());
    out.append(",\"timestamp_now\":");
    let ts_s = i64_to_string(s.timestamp_now);
    out.append(ts_s.as_str());
    out.append(",\"time_now\":");
    append_json_str(&mut out, s.time_now.as_str());
    out.append("}");
    proof {
        reveal_strlit("}");
        assert(out@ =~= server_info_body(*s));
    }
    out
}

/// Serializes the authorization response exactly as it goes on the
/// wire.
pub fn authorization_body(resp: &XtreamAuthorizationResponse) -> (r: String)
    ensures
        r@ == auth_body_spec(*resp),
{
    let mut out = String::from_str("{\"user_info\":");
    let u = user_info_json(&resp.user_info);
    out.append(u.as_str());
    out.append(",\"server_info\":");
    let sv = server_info_json(&resp.server_info);
    out.append(sv.as_str());
    out.append("}");
    proof {
        reveal_strlit("}");
        assert(out@ =~= auth_body_spec(*resp));
    }
    out
}

/// An authorization payload built for an authorized caller always
/// carries `"auth":1` on the wire.
pub proof fn lemma_auth_body_signals_authorized(r: XtreamAuthorizationResponse)
    requires
        r.user_info.auth == 1,
    ensures
        exists|i: int|
            0 <= i && i + 8 <= auth_body_spec(r).len() && #[trigger] auth_body_spec(r).subrange(
                i,
                i + 8,
            ) =~= "\"auth\":1"@,
{
    reveal_strlit(",\"auth\":");
    reveal_strlit("\"auth\":1");
    let body = auth_body_spec(r);
    let u = r.user_info;
    let pre = "{\"user_info\":"@ + ("{\"active_cons\":"@ + json_str(u.active_cons@)
        + ",\"allowed_output_formats\":"@ + json_str_array(strings_view(u.allowed_output_formats@)));
    let mid = ",\"auth\":"@ + int_str(1);
    assert(int_str(1) =~= seq!['1']);
    assert(mid =~= seq![','] + "\"auth\":1"@);
    let i: int = pre.len() as int + 1;
    assert(body.subrange(i, i + 8) =~= "\"auth\":1"@) by {
        assert forall|k: int| 0 <= k < 8 implies body[i + k] == "\"auth\":1"@[k] by {
            assert(body[i + k] == mid[1 + k]);
        }
    }
}

} // verus!
