use vstd::prelude::*;

use crate::m3u_filter_error::{M3uFilterError, M3uFilterErrorKind};
use crate::model::api_proxy::{
    cred_view_eq, find_user, find_user_by_token, ApiProxyConfig, UserCredentials,
};
use crate::model::mapping::{find_mapping, Mapping, Mappings};
use crate::model::model_config::{ItemField, MsgKind, ProcessingOrder, SortOrder, TargetType};
use crate::pattern::{compile_pattern, regex_ok};
use crate::text_util::{
    opt_string_view, seq_eq_ignore_ascii_case, str_eq_ignore_ascii_case, str_equal, trim_spec,
    trim_string,
};

verus! {

/// The targets and inputs selected on the command line for processing.
#[derive(Debug, Clone, PartialEq)]
pub struct ProcessTargets {
    pub enabled: bool,
    pub inputs: Vec<u16>,
    pub targets: Vec<u16>,
}

impl ProcessTargets {
    pub fn has_target(&self, tid: u16) -> (r: bool)
        ensures
            r == self.targets@.contains(tid),
    {
        let n = self.targets.len();
        let mut i: usize = 0;
        while i < n
            invariant
                i <= n,
                n == self.targets@.len(),
                forall|k: int| 0 <= k < i ==> self.targets@[k] != tid,
            decreases n - i,
        {
            if self.targets[i] == tid {
                return true;
            }
            i += 1;
        }
        false
    }

    pub fn has_input(&self, tid: u16) -> (r: bool)
        ensures
            r == self.inputs@.contains(tid),
    {
        let n = self.inputs.len();
        let mut i: usize = 0;
        while i < n
            invariant
                i <= n,
                n == self.inputs@.len(),
                forall|k: int| 0 <= k < i ==> self.inputs@[k] != tid,
            decreases n - i,
        {
            if self.inputs[i] == tid {
                return true;
            }
            i += 1;
        }
        false
    }
}

#[derive(Debug, Clone, PartialEq)]
pub struct ConfigSortGroup {
    pub order: SortOrder,
}

/// One channel-sorting rule; its group pattern is compiled during
/// `prepare`.
#[derive(Debug, Clone)]
pub struct ConfigSortChannel {
    pub field: ItemField,
    pub group_pattern: String,
    pub order: SortOrder,
    pub re: Option<regex::Regex>,
}

fn pattern_error(pattern: &str) -> (r: M3uFilterError)
    ensures
        r.kind == M3uFilterErrorKind::Info,
{
    let mut msg = String::from_str("cant parse regex: ");
    msg.append(pattern);
    M3uFilterError::new(M3uFilterErrorKind::Info, msg)
}

impl ConfigSortChannel {
    pub fn prepare(&mut self) -> (r: Result<(), M3uFilterError>)
        ensures
            match r {
                Result::Ok(u) => {
                    &&& regex_ok(old(self).group_pattern@)
                    &&& final(self).re is Some
                    &&& final(self).group_pattern == old(self).group_pattern
                    &&& final(self).field == old(self).field
                    &&& final(self).order == old(self).order
                },
                Result::Err(e) => {
                    &&& !regex_ok(old(self).group_pattern@)
                    &&& e.kind == M3uFilterErrorKind::Info
                    &&& *final(self) == *old(self)
                },
            },
    {
        match compile_pattern(self.group_pattern.as_str()) {
            Some(re) => {
                self.re = Some(re);
                Ok(())
            },
            None => Err(pattern_error(self.group_pattern.as_str())),
        }
    }
}

/// All channel rules carry compilable patterns.
pub open spec fn sort_channels_ok(cs: Seq<ConfigSortChannel>) -> bool {
    forall|i: int| 0 <= i < cs.len() ==> regex_ok((#[trigger] cs[i]).group_pattern@)
}

#[derive(Debug, Clone)]
pub struct ConfigSort {
    pub match_as_ascii: bool,
    pub groups: Option<ConfigSortGroup>,
    pub channels: Option<Vec<ConfigSortChannel>>,
}

pub open spec fn sort_prepare_ok(s: ConfigSort) -> bool {
    match s.channels {
        Option::Some(cs) => sort_channels_ok(cs@),
        Option::None => true,
    }
}

/// Every channel rule carries its compiled pattern.
pub open spec fn sort_rules_prepared(s: ConfigSort) -> bool {
    match s.channels {
        Option::Some(cs) => forall|i: int| 0 <= i < cs@.len() ==> (#[trigger] cs@[i]).re is Some,
        Option::None => true,
    }
}

impl ConfigSort {
    pub fn prepare(&mut self) -> (r: Result<(), M3uFilterError>)
        ensures
            match r {
                Result::Ok(u) => sort_prepare_ok(*old(self)) && sort_rules_prepared(
                    *final(self),
                ),
                Result::Err(e) => {
                    &&& !sort_prepare_ok(*old(self))
                    &&& e.kind == M3uFilterErrorKind::Info
                },
            },
    {
        match &mut self.channels {
            Some(cs) => {
                let n = cs.len();
                let mut j: usize = 0;
                while j < n
                    invariant
                        j <= n,
                        n == cs@.len(),
                        old(self).channels is Some,
                        cs@.len() == old(self).channels->Some_0@.len(),
                        forall|k: int|
                            0 <= k < n ==> (#[trigger] cs@[k]).group_pattern == old(
                                self,
                            ).channels->Some_0@[k].group_pattern,
                        forall|k: int|
                            0 <= k < j ==> regex_ok(
                                (#[trigger] cs@[k]).group_pattern@,
                            ),
                        forall|k: int| 0 <= k < j ==> (#[trigger] cs@[k]).re is Some,
                    decreases n - j,
                {
                    match cs[j].prepare() {
                        Ok(()) => {},
                        Err(e) => {
                            proof {
                                assert(!regex_ok(
                                    old(self).channels->Some_0@[j as int].group_pattern@,
                                ));
                                assert(!sort_channels_ok(old(self).channels->Some_0@));
                            }
                            return Err(e);
                        },
                    }
                    j += 1;
                }
                proof {
                    let oldcs = old(self).channels->Some_0@;
                    assert forall|k: int| 0 <= k < oldcs.len() implies regex_ok(
                        (#[trigger] oldcs[k]).group_pattern@,
                    ) by {
                        assert(cs@[k].group_pattern == oldcs[k].group_pattern);
                        assert(regex_ok(cs@[k].group_pattern@));
                    }
                    assert(sort_channels_ok(oldcs));
                }
                Ok(())
            },
            None => Ok(()),
        }
    }
}

/// One rename rule; its pattern is compiled during `prepare`.
#[derive(Debug, Clone)]
pub struct ConfigRename {
    pub field: ItemField,
    pub pattern: String,
    pub new_name: String,
    pub re: Option<regex::Regex>,
}

impl ConfigRename {
    pub fn prepare(&mut self) -> (r: Result<(), M3uFilterError>)
        ensures
            match r {
                Result::Ok(u) => {
                    &&& regex_ok(old(self).pattern@)
                    &&& final(self).re is Some
                    &&& final(self).pattern == old(self).pattern
                    &&& final(self).field == old(self).field
                    &&& final(self).new_name == old(self).new_name
                },
                Result::Err(e) => {
                    &&& !regex_ok(old(self).pattern@)
                    &&& e.kind == M3uFilterErrorKind::Info
                    &&& *final(self) == *old(self)
                },
            },
    {
        match compile_pattern(self.pattern.as_str()) {
            Some(re) => {
                self.re = Some(re);
                Ok(())
            },
            None => Err(pattern_error(self.pattern.as_str())),
        }
    }
}

#[derive(Debug, Clone, PartialEq)]
pub struct ConfigTargetOptions {
    pub ignore_logo: bool,
    pub underscore_whitespace: bool,
    pub cleanup: bool,
    pub kodi_style: bool,
    pub xtream_skip_live_direct_source: bool,
    pub xtream_skip_video_direct_source: bool,
    pub xtream_resolve_series: bool,
    pub xtream_resolve_series_delay: u16,
}

/// One declared output of a target.
#[derive(Debug, Clone, PartialEq)]
pub struct TargetOutput {
    pub target: TargetType,
    pub filename: Option<String>,
}

#[derive(Debug, Clone, PartialEq)]
pub struct InputAffix {
    pub field: String,
    pub value: String,
}

#[derive(Debug, Clone, Copy, PartialEq, Eq, Structural)]
pub enum InputType {
    M3u,
    Xtream,
}

pub open spec fn input_type_str(t: InputType) -> Seq<char> {
    match t {
        InputType::M3u => "m3u"@,
        InputType::Xtream => "xtream"@,
    }
}

impl InputType {
    pub fn to_string(&self) -> (r: String)
        ensures
            r@ == input_type_str(*self),
    {
        match self {
            InputType::M3u => String::from_str("m3u"),
            InputType::Xtream => String::from_str("xtream"),
        }
    }

    pub fn from_str(s: &str) -> (r: Result<InputType, M3uFilterError>)
        ensures
            match r {
                Result::Ok(t) => s@ == input_type_str(t),
                Result::Err(e) => {
                    &&& s@ != "m3u"@
                    &&& s@ != "xtream"@
                    &&& e.kind == M3uFilterErrorKind::Info
                },
            },
    {
        if str_equal(s, "m3u") {
            Ok(InputType::M3u)
        } else if str_equal(s, "xtream") {
            Ok(InputType::Xtream)
        } else {
            let mut msg = String::from_str("Unkown InputType: ");
            msg.append(s);
            Err(M3uFilterError::new(M3uFilterErrorKind::Info, msg))
        }
    }
}

#[derive(Debug, Clone, Copy, PartialEq, Eq, Structural)]
pub struct ConfigInputOptions {
    pub xtream_info_cache: bool,
}

/// One upstream provider connection.
#[derive(Debug, Clone, PartialEq)]
pub struct ConfigInput {
    pub id: u16,
    pub input_type: InputType,
    pub headers: Vec<(String, String)>,
    pub url: String,
    pub epg_url: Option<String>,
    pub username: Option<String>,
    pub password: Option<String>,
    pub persist: Option<String>,
    pub prefix: Option<InputAffix>,
    pub suffix: Option<InputAffix>,
    pub name: Option<String>,
    pub enabled: bool,
    pub options: Option<ConfigInputOptions>,
}

/// An optional field with a blank value counts as absent.
pub open spec fn normalized_opt_view(o: Option<String>) -> Option<Seq<char>> {
    match o {
        Option::Some(s) => if trim_spec(s@).len() > 0 {
            Option::Some(s@)
        } else {
            Option::None
        },
        Option::None => Option::None,
    }
}

/// An input is acceptable when its URL is non-blank and, for the
/// xtream protocol, credentials are present.
pub open spec fn input_prepare_ok(inp: ConfigInput) -> bool {
    &&& trim_spec(inp.url@).len() > 0
    &&& (inp.input_type == InputType::Xtream ==> normalized_opt_view(inp.username) is Some
        && normalized_opt_view(inp.password) is Some)
}

fn normalize_opt(o: &mut Option<String>)
    ensures
        opt_string_view(*final(o)) == normalized_opt_view(*old(o)),
{
    let blank = match o {
        Some(s) => trim_string(s.as_str()).as_str().is_empty(),
        None => false,
    };
    if blank {
        *o = None;
    }
}

/// How a prepared input relates to its configured form.
pub open spec fn input_prepared_rel(o: ConfigInput, f: ConfigInput, id: int) -> bool {
    &&& f.id == id
    &&& f.input_type == o.input_type
    &&& f.url == o.url
    &&& f.headers == o.headers
    &&& f.epg_url == o.epg_url
    &&& opt_string_view(f.username) == normalized_opt_view(o.username)
    &&& opt_string_view(f.password) == normalized_opt_view(o.password)
    &&& opt_string_view(f.persist) == normalized_opt_view(o.persist)
    &&& f.enabled == o.enabled
}

impl ConfigInput {
    pub fn prepare(&mut self, id: u16) -> (r: Result<(), M3uFilterError>)
        ensures
            match r {
                Result::Ok(u) => {
                    &&& input_prepare_ok(*old(self))
                    &&& input_prepared_rel(*old(self), *final(self), id as int)
                },
                Result::Err(e) => {
                    &&& !input_prepare_ok(*old(self))
                    &&& e.kind == M3uFilterErrorKind::Info
                },
            },
    {
        self.id = id;
        if trim_string(self.url.as_str()).as_str().is_empty() {
            return Err(
                M3uFilterError::new(
                    M3uFilterErrorKind::Info,
                    String::from_str("url for input is mandatory"),
                ),
            );
        }
        normalize_opt(&mut self.username);
        normalize_opt(&mut self.password);
        match self.input_type {
            InputType::M3u => {},
            InputType::Xtream => {
                if self.username.is_none() || self.password.is_none() {
                    return Err(
                        M3uFilterError::new(
                            M3uFilterErrorKind::Info,
                            String::from_str(
                                "for input type xtream: username and password are mandatory",
                            ),
                        ),
                    );
                }
            },
        }
        normalize_opt(&mut self.persist);
        Ok(())
    }
}

#[derive(Debug, Clone, PartialEq)]
pub struct ConfigApi {
    pub host: String,
    pub port: u16,
    pub web_root: String,
}

impl ConfigApi {
    pub fn prepare(&mut self)
        ensures
            final(self).web_root@ == if old(self).web_root@.len() == 0 {
                "./web"@
            } else {
                old(self).web_root@
            },
            final(self).host == old(self).host,
            final(self).port == old(self).port,
    {
        if self.web_root.as_str().is_empty() {
            self.web_root = String::from_str("./web");
        }
    }
}


// ---------------------------------------------------------------------------
// Targets
// ---------------------------------------------------------------------------

/// How many declared outputs carry the given type.
pub open spec fn count_output(out: Seq<TargetOutput>, t: TargetType) -> int
    decreases out.len(),
{
    if out.len() == 0 {
        0
    } else {
        count_output(out.subrange(0, out.len() - 1), t) + if out[out.len() - 1].target == t {
            1int
        } else {
            0int
        }
    }
}

/// m3u and strm outputs must name a file.
pub open spec fn outputs_filenames_ok(out: Seq<TargetOutput>) -> bool {
    forall|i: int|
        0 <= i < out.len() ==> (((#[trigger] out[i]).target == TargetType::M3u || out[i].target
            == TargetType::Strm) ==> out[i].filename is Some)
}

pub open spec fn watch_patterns_ok(ws: Seq<String>) -> bool {
    forall|i: int| 0 <= i < ws.len() ==> regex_ok((#[trigger] ws[i])@)
}

pub open spec fn renames_ok(rs: Seq<ConfigRename>) -> bool {
    forall|i: int| 0 <= i < rs.len() ==> regex_ok((#[trigger] rs[i]).pattern@)
}

/// A target prepares cleanly when it declares at least one output, at
/// most one per type, file names where they are required, no xtream
/// output under the reserved default name, and compilable watch,
/// rename and sort patterns.
pub open spec fn target_prepare_ok(t: ConfigTarget) -> bool {
    &&& t.output@.len() > 0
    &&& outputs_filenames_ok(t.output@)
    &&& count_output(t.output@, TargetType::M3u) <= 1
    &&& count_output(t.output@, TargetType::Strm) <= 1
    &&& count_output(t.output@, TargetType::Xtream) <= 1
    &&& (count_output(t.output@, TargetType::Xtream) > 0 ==> !seq_eq_ignore_ascii_case(
        "default"@,
        t.name@,
    ))
    &&& match t.watch {
        Option::Some(ws) => watch_patterns_ok(ws@),
        Option::None => true,
    }
    &&& match t.rename {
        Option::Some(rs) => renames_ok(rs@),
        Option::None => true,
    }
    &&& match t.sort {
        Option::Some(srt) => sort_prepare_ok(srt),
        Option::None => true,
    }
}

/// One operator-defined downstream output configuration.
#[derive(Debug, Clone)]
pub struct ConfigTarget {
    pub id: u16,
    pub enabled: bool,
    pub name: String,
    pub options: Option<ConfigTargetOptions>,
    pub sort: Option<ConfigSort>,
    pub filter: String,
    pub output: Vec<TargetOutput>,
    pub rename: Option<Vec<ConfigRename>>,
    pub mapping: Option<Vec<String>>,
    pub processing_order: ProcessingOrder,
    pub watch: Option<Vec<String>>,
    pub _watch_re: Option<Vec<regex::Regex>>,
    pub _mapping: Option<Vec<crate::model::mapping::Mapping>>,
}

proof fn lemma_count_output_prefix(out: Seq<TargetOutput>, t: TargetType, j: int)
    requires
        0 <= j <= out.len(),
    ensures
        count_output(out.subrange(0, j), t) <= count_output(out, t),
        count_output(out, t) >= 0,
    decreases out.len(),
{
    if out.len() == 0 {
        assert(out.subrange(0, j) =~= out);
    } else if j == out.len() {
        assert(out.subrange(0, j) =~= out);
        lemma_count_output_prefix(out.subrange(0, out.len() - 1), t, out.len() - 1);
    } else {
        let pre = out.subrange(0, out.len() - 1);
        lemma_count_output_prefix(pre, t, j);
        assert(pre.subrange(0, j) =~= out.subrange(0, j));
    }
}

/// Checks the declared outputs of a target named `name`.
fn check_outputs(output: &Vec<TargetOutput>, name: &str) -> (r: Result<(), M3uFilterError>)
    ensures
        match r {
            Result::Ok(u) => {
                &&& output@.len() > 0
                &&& outputs_filenames_ok(output@)
                &&& count_output(output@, TargetType::M3u) <= 1
                &&& count_output(output@, TargetType::Strm) <= 1
                &&& count_output(output@, TargetType::Xtream) <= 1
                &&& (count_output(output@, TargetType::Xtream) > 0 ==> !seq_eq_ignore_ascii_case(
                    "default"@,
                    name@,
                ))
            },
            Result::Err(e) => {
                &&& e.kind == M3uFilterErrorKind::Info
                &&& {
                    ||| output@.len() == 0
                    ||| !outputs_filenames_ok(output@)
                    ||| count_output(output@, TargetType::M3u) > 1
                    ||| count_output(output@, TargetType::Strm) > 1
                    ||| count_output(output@, TargetType::Xtream) > 1
                    ||| (count_output(output@, TargetType::Xtream) > 0 && seq_eq_ignore_ascii_case(
                        "default"@,
                        name@,
                    ))
                }
            },
        },
{
    if output.is_empty() {
        let mut msg = String::from_str("Missing output format for ");
        msg.append(name);
        return Err(M3uFilterError::new(M3uFilterErrorKind::Info, msg));
    }
    let n = output.len();
    let mut m3u_cnt: usize = 0;
    let mut strm_cnt: usize = 0;
    let mut xtream_cnt: usize = 0;
    let mut i: usize = 0;
    proof {
        assert(output@.subrange(0, 0) =~= Seq::<TargetOutput>::empty());
    }
    while i < n
        invariant
            i <= n,
            n == output@.len(),
            m3u_cnt <= i && strm_cnt <= i && xtream_cnt <= i,
            m3u_cnt == count_output(output@.subrange(0, i as int), TargetType::M3u),
            strm_cnt == count_output(output@.subrange(0, i as int), TargetType::Strm),
            xtream_cnt == count_output(output@.subrange(0, i as int), TargetType::Xtream),
            xtream_cnt > 0 ==> !seq_eq_ignore_ascii_case("default"@, name@),
            forall|k: int|
                0 <= k < i ==> (((#[trigger] output@[k]).target == TargetType::M3u || output@[k].target
                    == TargetType::Strm) ==> output@[k].filename is Some),
        decreases n - i,
    {
        proof {
            assert(output@.subrange(0, i + 1).subrange(0, i as int) =~= output@.subrange(
                0,
                i as int,
            ));
            assert(output@.subrange(0, i + 1)[i as int] == output@[i as int]);
        }
        match output[i].target {
            TargetType::M3u => {
                m3u_cnt = m3u_cnt + 1;
                if output[i].filename.is_none() {
                    proof {
                        assert(!outputs_filenames_ok(output@));
                    }
                    let mut msg = String::from_str("filename is required for m3u type: ");
                    msg.append(name);
                    return Err(M3uFilterError::new(M3uFilterErrorKind::Info, msg));
                }
            },
            TargetType::Strm => {
                strm_cnt = strm_cnt + 1;
                if output[i].filename.is_none() {
                    proof {
                        assert(!outputs_filenames_ok(output@));
                    }
                    let mut msg = String::from_str("filename is required for strm type: ");
                    msg.append(name);
                    return Err(M3uFilterError::new(M3uFilterErrorKind::Info, msg));
                }
            },
            TargetType::Xtream => {
                xtream_cnt = xtream_cnt + 1;
                if str_eq_ignore_ascii_case("default", name) {
                    proof {
                        lemma_count_output_prefix(output@, TargetType::Xtream, i + 1);
                    }
                    let mut msg = String::from_str(
                        "unique target name is required for xtream type: ",
                    );
                    msg.append(name);
                    return Err(M3uFilterError::new(M3uFilterErrorKind::Info, msg));
                }
            },
        }
        i += 1;
    }
    proof {
        assert(output@.subrange(0, n as int) =~= output@);
    }
    if m3u_cnt > 1 || strm_cnt > 1 || xtream_cnt > 1 {
        let mut msg = String::from_str("Multiple output formats with same type : ");
        msg.append(name);
        return Err(M3uFilterError::new(M3uFilterErrorKind::Info, msg));
    }
    Ok(())
}

/// Compiles the watch patterns of a target.
fn compile_watch(ws: &Vec<String>) -> (r: Result<Vec<regex::Regex>, M3uFilterError>)
    ensures
        match r {
            Result::Ok(v) => watch_patterns_ok(ws@),
            Result::Err(e) => !watch_patterns_ok(ws@) && e.kind == M3uFilterErrorKind::Info,
        },
{
    let n = ws.len();
    let mut out: Vec<regex::Regex> = Vec::new();
    let mut i: usize = 0;
    while i < n
        invariant
            i <= n,
            n == ws@.len(),
            forall|k: int| 0 <= k < i ==> regex_ok((#[trigger] ws@[k])@),
        decreases n - i,
    {
        match compile_pattern(ws[i].as_str()) {
            Some(re) => {
                out.push(re);
            },
            None => {
                proof {
                    assert(!regex_ok(ws@[i as int]@));
                    assert(!watch_patterns_ok(ws@));
                }
                let mut msg = String::from_str("Invalid watch regular expression: ");
                msg.append(ws[i].as_str());
                return Err(M3uFilterError::new(M3uFilterErrorKind::Info, msg));
            },
        }
        i += 1;
    }
    Ok(out)
}

/// Compiles every rename rule of a target.
fn prepare_renames(rs: &mut Vec<ConfigRename>) -> (r: Result<(), M3uFilterError>)
    ensures
        match r {
            Result::Ok(u) => renames_ok(old(rs)@) && final(rs)@.len() == old(rs)@.len()
                && forall|k: int| 0 <= k < final(rs)@.len() ==> (#[trigger] final(rs)@[k]).re is Some,
            Result::Err(e) => !renames_ok(old(rs)@) && e.kind == M3uFilterErrorKind::Info,
        },
{
    let n = rs.len();
    let mut j: usize = 0;
    while j < n
        invariant
            j <= n,
            n == rs@.len(),
            rs@.len() == old(rs)@.len(),
            forall|k: int| 0 <= k < n ==> (#[trigger] rs@[k]).pattern == old(rs)@[k].pattern,
            forall|k: int| 0 <= k < j ==> regex_ok((#[trigger] rs@[k]).pattern@),
            forall|k: int| 0 <= k < j ==> (#[trigger] rs@[k]).re is Some,
        decreases n - j,
    {
        match rs[j].prepare() {
            Ok(()) => {},
            Err(e) => {
                proof {
                    assert(!regex_ok(old(rs)@[j as int].pattern@));
                    assert(!renames_ok(old(rs)@));
                }
                return Err(e);
            },
        }
        j += 1;
    }
    proof {
        assert forall|k: int| 0 <= k < old(rs)@.len() implies regex_ok(
            (#[trigger] old(rs)@[k]).pattern@,
        ) by {
            assert(rs@[k].pattern == old(rs)@[k].pattern);
            assert(regex_ok(rs@[k].pattern@));
        }
    }
    Ok(())
}

impl ConfigTarget {
    pub fn prepare(&mut self, id: u16) -> (r: Result<(), M3uFilterError>)
        ensures
            match r {
                Result::Ok(u) => {
                    &&& target_prepare_ok(*old(self))
                    &&& final(self).id == id
                    &&& final(self).name == old(self).name
                    &&& final(self).enabled == old(self).enabled
                    &&& final(self).filter == old(self).filter
                    &&& final(self).output == old(self).output
                    &&& final(self).mapping == old(self).mapping
                    &&& (old(self).watch is Some ==> final(self)._watch_re is Some)
                    &&& match final(self).rename {
                        Option::Some(rs) => forall|k: int|
                            0 <= k < rs@.len() ==> (#[trigger] rs@[k]).re is Some,
                        Option::None => true,
                    }
                    &&& match final(self).sort {
                        Option::Some(srt) => sort_rules_prepared(srt),
                        Option::None => true,
                    }
                },
                Result::Err(e) => {
                    &&& !target_prepare_ok(*old(self))
                    &&& e.kind == M3uFilterErrorKind::Info
                },
            },
    {
        self.id = id;
        match check_outputs(&self.output, self.name.as_str()) {
            Ok(()) => {},
            Err(e) => {
                return Err(e);
            },
        }
        match &self.watch {
            Some(ws) => {
                match compile_watch(ws) {
                    Ok(res) => {
                        self._watch_re = Some(res);
                    },
                    Err(e) => {
                        return Err(e);
                    },
                }
            },
            None => {},
        }
        match &mut self.rename {
            Some(rs) => {
                match prepare_renames(rs) {
                    Ok(()) => {},
                    Err(e) => {
                        return Err(e);
                    },
                }
            },
            None => {},
        }
        match &mut self.sort {
            Some(srt) => {
                match srt.prepare() {
                    Ok(()) => {},
                    Err(e) => {
                        return Err(e);
                    },
                }
            },
            None => {},
        }
        Ok(())
    }

    /// The file name of the first declared m3u output, when it has one.
    pub fn get_m3u_filename(&self) -> (r: Option<String>)
        ensures
            match find_output(self.output@, TargetType::M3u) {
                Option::Some(o) => opt_string_view(r) == opt_string_view(o.filename),
                Option::None => r is None,
            },
    {
        let n = self.output.len();
        let mut i: usize = 0;
        proof {
            assert(self.output@.subrange(0, n as int) =~= self.output@);
        }
        while i < n
            invariant
                i <= n,
                n == self.output@.len(),
                find_output(self.output@, TargetType::M3u) == find_output(
                    self.output@.subrange(i as int, n as int),
                    TargetType::M3u,
                ),
            decreases n - i,
        {
            proof {
                let rest = self.output@.subrange(i as int, n as int);
                assert(rest.subrange(1, rest.len() as int) =~= self.output@.subrange(
                    i + 1,
                    n as int,
                ));
            }
            match self.output[i].target {
                TargetType::M3u => {
                    return match &self.output[i].filename {
                        Some(f) => Some(f.clone()),
                        None => None,
                    };
                },
                TargetType::Strm => {},
                TargetType::Xtream => {},
            }
            i += 1;
        }
        None
    }

    /// Whether the target declares an output of the given type.
    pub fn has_output(&self, tt: &TargetType) -> (r: bool)
        ensures
            r == has_output_type(self.output@, *tt),
    {
        let n = self.output.len();
        let mut i: usize = 0;
        while i < n
            invariant
                i <= n,
                n == self.output@.len(),
                forall|k: int| 0 <= k < i ==> (#[trigger] self.output@[k]).target != *tt,
            decreases n - i,
        {
            if type_eq(&self.output[i].target, tt) {
                return true;
            }
            i += 1;
        }
        proof {
            assert(!has_output_type(self.output@, *tt));
        }
        false
    }
}

/// The first declared output of the given type.
pub open spec fn find_output(out: Seq<TargetOutput>, t: TargetType) -> Option<TargetOutput>
    decreases out.len(),
{
    if out.len() == 0 {
        Option::None
    } else if out[0].target == t {
        Option::Some(out[0])
    } else {
        find_output(out.subrange(1, out.len() as int), t)
    }
}

pub open spec fn has_output_type(out: Seq<TargetOutput>, t: TargetType) -> bool {
    exists|i: int| 0 <= i < out.len() && (#[trigger] out[i]).target == t
}

fn type_eq(a: &TargetType, b: &TargetType) -> (r: bool)
    ensures
        r == (*a == *b),
{
    match (a, b) {
        (TargetType::M3u, TargetType::M3u) => true,
        (TargetType::Strm, TargetType::Strm) => true,
        (TargetType::Xtream, TargetType::Xtream) => true,
        _ => false,
    }
}

// ---------------------------------------------------------------------------
// Sources
// ---------------------------------------------------------------------------

/// The inputs and targets of one configured source.
#[derive(Debug, Clone)]
pub struct ConfigSource {
    pub inputs: Vec<ConfigInput>,
    pub targets: Vec<ConfigTarget>,
}

pub open spec fn inputs_ok(ins: Seq<ConfigInput>) -> bool {
    forall|i: int| 0 <= i < ins.len() ==> input_prepare_ok(#[trigger] ins[i])
}

/// The first input of the given protocol type.
pub open spec fn find_input_typed(ins: Seq<ConfigInput>, t: InputType) -> Option<ConfigInput>
    decreases ins.len(),
{
    if ins.len() == 0 {
        Option::None
    } else if ins[0].input_type == t {
        Option::Some(ins[0])
    } else {
        find_input_typed(ins.subrange(1, ins.len() as int), t)
    }
}

pub open spec fn has_target_named(ts: Seq<ConfigTarget>, name: Seq<char>) -> bool {
    exists|i: int| 0 <= i < ts.len() && (#[trigger] ts[i]).name@ == name
}

/// The input of the first source that both holds a target of the given
/// name and declares an input of the given protocol type.
pub open spec fn find_input_for_target(
    ss: Seq<ConfigSource>,
    name: Seq<char>,
    t: InputType,
) -> Option<ConfigInput>
    decreases ss.len(),
{
    if ss.len() == 0 {
        Option::None
    } else if has_target_named(ss[0].targets@, name) && find_input_typed(
        ss[0].inputs@,
        t,
    ) is Some {
        find_input_typed(ss[0].inputs@, t)
    } else {
        find_input_for_target(ss.subrange(1, ss.len() as int), name, t)
    }
}

fn input_type_eq(a: &InputType, b: &InputType) -> (r: bool)
    ensures
        r == (*a == *b),
{
    match (a, b) {
        (InputType::M3u, InputType::M3u) => true,
        (InputType::Xtream, InputType::Xtream) => true,
        _ => false,
    }
}

impl ConfigSource {
    /// Assigns ids to the inputs, starting at `index`.
    pub fn prepare(&mut self, index: u16) -> (r: Result<u16, M3uFilterError>)
        requires
            index + old(self).inputs@.len() <= u16::MAX,
        ensures
            match r {
                Result::Ok(next) => {
                    &&& next == index + old(self).inputs@.len()
                    &&& inputs_ok(old(self).inputs@)
                    &&& final(self).inputs@.len() == old(self).inputs@.len()
                    &&& forall|k: int|
                        0 <= k < old(self).inputs@.len() ==> input_prepared_rel(
                            old(self).inputs@[k],
                            #[trigger] final(self).inputs@[k],
                            index + k,
                        )
                    &&& final(self).targets == old(self).targets
                },
                Result::Err(e) => {
                    &&& !inputs_ok(old(self).inputs@)
                    &&& e.kind == M3uFilterErrorKind::Info
                },
            },
    {
        let n = self.inputs.len();
        let mut i: usize = 0;
        while i < n
            invariant
                i <= n,
                n == self.inputs@.len(),
                n == old(self).inputs@.len(),
                index + n <= u16::MAX,
                forall|k: int|
                    i <= k < n ==> #[trigger] self.inputs@[k] == old(self).inputs@[k],
                forall|k: int|
                    0 <= k < i ==> input_prepare_ok(#[trigger] old(self).inputs@[k]),
                forall|k: int|
                    0 <= k < i ==> input_prepared_rel(
                        old(self).inputs@[k],
                        #[trigger] self.inputs@[k],
                        index + k,
                    ),
                self.targets == old(self).targets,
            decreases n - i,
        {
            let idx: u16 = index + (i as u16);
            match self.inputs[i].prepare(idx) {
                Ok(()) => {},
                Err(e) => {
                    proof {
                        assert(!input_prepare_ok(old(self).inputs@[i as int]));
                        assert(!inputs_ok(old(self).inputs@));
                    }
                    return Err(e);
                },
            }
            i += 1;
        }
        Ok(index + (n as u16))
    }

    /// The input serving a target of the given name, by protocol type.
    pub fn get_input_for_target(&self, target_name: &str, input_type: &InputType) -> (r: Option<
        &ConfigInput,
    >)
        ensures
            match r {
                Option::Some(inp) => has_target_named(self.targets@, target_name@)
                    && find_input_typed(self.inputs@, *input_type) == Option::Some(*inp),
                Option::None => !has_target_named(self.targets@, target_name@)
                    || find_input_typed(self.inputs@, *input_type) is None,
            },
    {
        let tn = self.targets.len();
        let mut t: usize = 0;
        let mut named = false;
        while t < tn
            invariant
                t <= tn,
                tn == self.targets@.len(),
                named ==> has_target_named(self.targets@, target_name@),
                !named ==> forall|k: int|
                    0 <= k < t ==> (#[trigger] self.targets@[k]).name@ != target_name@,
            decreases tn - t,
        {
            if str_equal(self.targets[t].name.as_str(), target_name) {
                named = true;
            }
            t += 1;
        }
        if !named {
            proof {
                assert(!has_target_named(self.targets@, target_name@));
            }
            return None;
        }
        let n = self.inputs.len();
        let mut i: usize = 0;
        proof {
            assert(self.inputs@.subrange(0, n as int) =~= self.inputs@);
        }
        while i < n
            invariant
                i <= n,
                n == self.inputs@.len(),
                named,
                has_target_named(self.targets@, target_name@),
                find_input_typed(self.inputs@, *input_type) == find_input_typed(
                    self.inputs@.subrange(i as int, n as int),
                    *input_type,
                ),
            decreases n - i,
        {
            proof {
                let rest = self.inputs@.subrange(i as int, n as int);
                assert(rest.subrange(1, rest.len() as int) =~= self.inputs@.subrange(
                    i + 1,
                    n as int,
                ));
            }
            if input_type_eq(&self.inputs[i].input_type, input_type) {
                return Some(&self.inputs[i]);
            }
            i += 1;
        }
        None
    }
}


// ---------------------------------------------------------------------------
// Messaging and video configuration
// ---------------------------------------------------------------------------

#[derive(Debug, Clone, PartialEq)]
pub struct TelegramMessagingConfig {
    pub bot_token: String,
    pub chat_ids: Vec<String>,
}

#[derive(Debug, Clone, PartialEq)]
pub struct RestMessagingConfig {
    pub url: String,
}

#[derive(Debug, Clone, PartialEq)]
pub struct MessagingConfig {
    pub notify_on: Vec<MsgKind>,
    pub telegram: Option<TelegramMessagingConfig>,
    pub rest: Option<RestMessagingConfig>,
}

#[derive(Debug, Clone)]
pub struct VideoDownloadConfig {
    pub headers: Vec<(String, String)>,
    pub directory: Option<String>,
    pub organize_into_directories: bool,
    pub episode_pattern: Option<String>,
    pub _re_episode_pattern: Option<regex::Regex>,
    pub _re_filename: Option<regex::Regex>,
    pub _re_remove_filename_ending: Option<regex::Regex>,
}

#[derive(Debug, Clone)]
pub struct VideoConfig {
    pub extensions: Vec<String>,
    pub download: Option<VideoDownloadConfig>,
    pub web_search: Option<String>,
}

/// A download section is acceptable when its episode pattern, if any
/// and non-empty, compiles.
pub open spec fn video_prepare_ok(v: VideoConfig) -> bool {
    match v.download {
        Option::Some(d) => match d.episode_pattern {
            Option::Some(p) => p@.len() == 0 || regex_ok(p@),
            Option::None => true,
        },
        Option::None => true,
    }
}

pub open spec fn string_pairs_view(ps: Seq<(String, String)>) -> Seq<(Seq<char>, Seq<char>)> {
    Seq::new(ps.len(), |i: int| (ps[i].0@, ps[i].1@))
}

impl VideoConfig {
    pub fn prepare(&mut self) -> (r: Result<(), M3uFilterError>)
        ensures
            match r {
                Result::Ok(u) => {
                    &&& video_prepare_ok(*old(self))
                    &&& crate::text_util::strings_view(final(self).extensions@)
                        == seq!["mkv"@, "avi"@, "mp4"@]
                },
                Result::Err(e) => {
                    &&& !video_prepare_ok(*old(self))
                    &&& e.kind == M3uFilterErrorKind::Info
                },
            },
    {
        let mut exts: Vec<String> = Vec::new();
        exts.push(String::from_str("mkv"));
        exts.push(String::from_str("avi"));
        exts.push(String::from_str("mp4"));
        proof {
            assert(crate::text_util::strings_view(exts@) =~= seq![
                "mkv"@,
                "avi"@,
                "mp4"@,
            ]);
        }
        self.extensions = exts;
        match &mut self.download {
            None => {},
            Some(downl) => {
                if downl.headers.is_empty() {
                    downl.headers.push(
                        (String::from_str("Accept"), String::from_str("video/*")),
                    );
                    downl.headers.push(
                        (String::from_str("User-Agent"), String::from_str("AppleTV/tvOS/9.1.1.")),
                    );
                }
                let pattern_to_compile: Option<String> = match &downl.episode_pattern {
                    Some(p) => if p.as_str().is_empty() {
                        None
                    } else {
                        Some(p.clone())
                    },
                    None => None,
                };
                match pattern_to_compile {
                    Some(p) => {
                        match compile_pattern(p.as_str()) {
                            Some(re) => {
                                downl._re_episode_pattern = Some(re);
                            },
                            None => {
                                return Err(pattern_error(p.as_str()));
                            },
                        }
                    },
                    None => {},
                }
                downl._re_filename = compile_pattern("[^A-Za-z0-9_.-]");
                downl._re_remove_filename_ending = compile_pattern("[_.\\s-]$");
            },
        }
        Ok(())
    }
}

#[derive(Debug, Clone)]
pub struct ConfigDto {
    pub threads: u8,
    pub api: ConfigApi,
    pub working_dir: String,
    pub backup_dir: Option<String>,
    pub video: Option<VideoConfig>,
    pub schedule: Option<String>,
    pub messaging: Option<MessagingConfig>,
}

/// A configuration snapshot is valid when it names an API host and its
/// video episode pattern, if any and non-empty, compiles.
pub open spec fn dto_valid(d: ConfigDto) -> bool {
    &&& d.api.host@.len() > 0
    &&& match d.video {
        Option::Some(v) => video_prepare_ok(v),
        Option::None => true,
    }
}

impl ConfigDto {
    pub fn is_valid(&self) -> (r: bool)
        ensures
            r == dto_valid(*self),
    {
        if self.api.host.as_str().is_empty() {
            return false;
        }
        match &self.video {
            Some(video) => match &video.download {
                Some(download) => match &download.episode_pattern {
                    Some(episode_pattern) => {
                        if episode_pattern.as_str().is_empty() {
                            true
                        } else {
                            match compile_pattern(episode_pattern.as_str()) {
                                Some(re) => true,
                                None => false,
                            }
                        }
                    },
                    None => true,
                },
                None => true,
            },
            None => true,
        }
    }
}

// ---------------------------------------------------------------------------
// The whole configuration
// ---------------------------------------------------------------------------

/// The first target whose name matches, ignoring ASCII case.
pub open spec fn find_target_in(ts: Seq<ConfigTarget>, name: Seq<char>) -> Option<ConfigTarget>
    decreases ts.len(),
{
    if ts.len() == 0 {
        Option::None
    } else if seq_eq_ignore_ascii_case(name, ts[0].name@) {
        Option::Some(ts[0])
    } else {
        find_target_in(ts.subrange(1, ts.len() as int), name)
    }
}

pub open spec fn find_target(ss: Seq<ConfigSource>, name: Seq<char>) -> Option<ConfigTarget>
    decreases ss.len(),
{
    if ss.len() == 0 {
        Option::None
    } else {
        match find_target_in(ss[0].targets@, name) {
            Option::Some(t) => Option::Some(t),
            Option::None => find_target(ss.subrange(1, ss.len() as int), name),
        }
    }
}

fn find_target_in_source<'a>(ts: &'a Vec<ConfigTarget>, name: &str) -> (r: Option<
    &'a ConfigTarget,
>)
    ensures
        match r {
            Option::Some(t) => find_target_in(ts@, name@) == Option::Some(*t),
            Option::None => find_target_in(ts@, name@) is None,
        },
{
    let n = ts.len();
    let mut i: usize = 0;
    proof {
        assert(ts@.subrange(0, n as int) =~= ts@);
    }
    while i < n
        invariant
            i <= n,
            n == ts@.len(),
            find_target_in(ts@, name@) == find_target_in(
                ts@.subrange(i as int, n as int),
                name@,
            ),
        decreases n - i,
    {
        proof {
            let rest = ts@.subrange(i as int, n as int);
            assert(rest.subrange(1, rest.len() as int) =~= ts@.subrange(i + 1, n as int));
        }
        if str_eq_ignore_ascii_case(name, ts[i].name.as_str()) {
            return Some(&ts[i]);
        }
        i += 1;
    }
    None
}

/// The first input with the given id over all sources.
pub open spec fn find_input_in(ins: Seq<ConfigInput>, id: u16) -> Option<ConfigInput>
    decreases ins.len(),
{
    if ins.len() == 0 {
        Option::None
    } else if ins[0].id == id {
        Option::Some(ins[0])
    } else {
        find_input_in(ins.subrange(1, ins.len() as int), id)
    }
}

pub open spec fn find_input_by_id(ss: Seq<ConfigSource>, id: u16) -> Option<ConfigInput>
    decreases ss.len(),
{
    if ss.len() == 0 {
        Option::None
    } else {
        match find_input_in(ss[0].inputs@, id) {
            Option::Some(inp) => Option::Some(inp),
            Option::None => find_input_by_id(ss.subrange(1, ss.len() as int), id),
        }
    }
}

pub open spec fn affix_view_eq(a: Option<InputAffix>, b: Option<InputAffix>) -> bool {
    match (a, b) {
        (Option::Some(x), Option::Some(y)) => x.field@ == y.field@ && x.value@ == y.value@,
        (Option::None, Option::None) => true,
        _ => false,
    }
}

/// Two inputs carrying the same content.
pub open spec fn input_view_eq(a: ConfigInput, b: ConfigInput) -> bool {
    &&& a.id == b.id
    &&& a.input_type == b.input_type
    &&& string_pairs_view(a.headers@) == string_pairs_view(b.headers@)
    &&& a.url@ == b.url@
    &&& opt_string_view(a.epg_url) == opt_string_view(b.epg_url)
    &&& opt_string_view(a.username) == opt_string_view(b.username)
    &&& opt_string_view(a.password) == opt_string_view(b.password)
    &&& opt_string_view(a.persist) == opt_string_view(b.persist)
    &&& affix_view_eq(a.prefix, b.prefix)
    &&& affix_view_eq(a.suffix, b.suffix)
    &&& opt_string_view(a.name) == opt_string_view(b.name)
    &&& a.enabled == b.enabled
    &&& a.options == b.options
}

fn clone_opt_string(o: &Option<String>) -> (r: Option<String>)
    ensures
        opt_string_view(r) == opt_string_view(*o),
{
    match o {
        Some(s) => Some(s.clone()),
        None => None,
    }
}

fn clone_affix(o: &Option<InputAffix>) -> (r: Option<InputAffix>)
    ensures
        affix_view_eq(r, *o),
{
    match o {
        Some(a) => Some(
            InputAffix { field: a.field.clone(), value: a.value.clone() },
        ),
        None => None,
    }
}

impl ConfigInput {
    /// An owned copy with the same content.
    pub fn duplicate(&self) -> (r: ConfigInput)
        ensures
            input_view_eq(r, *self),
    {
        let mut headers: Vec<(String, String)> = Vec::new();
        let n = self.headers.len();
        let mut i: usize = 0;
        while i < n
            invariant
                i <= n,
                n == self.headers@.len(),
                headers@.len() == i,
                forall|k: int|
                    0 <= k < i ==> (#[trigger] headers@[k]).0@ == self.headers@[k].0@
                        && headers@[k].1@ == self.headers@[k].1@,
            decreases n - i,
        {
            headers.push((self.headers[i].0.clone(), self.headers[i].1.clone()));
            i += 1;
        }
        proof {
            assert(string_pairs_view(headers@) =~= string_pairs_view(self.headers@));
        }
        ConfigInput {
            id: self.id,
            input_type: self.input_type,
            headers,
            url: self.url.clone(),
            epg_url: clone_opt_string(&self.epg_url),
            username: clone_opt_string(&self.username),
            password: clone_opt_string(&self.password),
            persist: clone_opt_string(&self.persist),
            prefix: clone_affix(&self.prefix),
            suffix: clone_affix(&self.suffix),
            name: clone_opt_string(&self.name),
            enabled: self.enabled,
            options: match &self.options {
                Some(o) => Some(*o),
                None => None,
            },
        }
    }
}

/// The whole loaded configuration. The resolved-target state set at
/// run time lives in `_api_proxy`; callers guard shared access to the
/// configuration as a whole.
#[derive(Debug, Clone)]
pub struct Config {
    pub threads: u8,
    pub api: ConfigApi,
    pub sources: Vec<ConfigSource>,
    pub working_dir: String,
    pub backup_dir: Option<String>,
    pub video: Option<VideoConfig>,
    pub schedule: Option<String>,
    pub messaging: Option<MessagingConfig>,
    pub _api_proxy: Option<ApiProxyConfig>,
    pub _config_path: String,
    pub _config_file_path: String,
    pub _sources_file_path: String,
}

impl Config {
    pub fn set_api_proxy(&mut self, api_proxy: Option<ApiProxyConfig>)
        ensures
            final(self)._api_proxy == api_proxy,
            final(self).sources == old(self).sources,
            final(self).api == old(self).api,
    {
        self._api_proxy = api_proxy;
    }

    fn _get_target_for_user(&self, user_target: Option<(UserCredentials, String)>) -> (r: Option<
        (UserCredentials, &ConfigTarget),
    >)
        ensures
            match r {
                Option::Some(p) => {
                    &&& user_target is Some
                    &&& p.0 == user_target->Some_0.0
                    &&& find_target(self.sources@, user_target->Some_0.1@) == Option::Some(*p.1)
                },
                Option::None => user_target is None || find_target(
                    self.sources@,
                    user_target->Some_0.1@,
                ) is None,
            },
    {
        match user_target {
            Some((user, target_name)) => {
                let n = self.sources.len();
                let mut s: usize = 0;
                proof {
                    assert(self.sources@.subrange(0, n as int) =~= self.sources@);
                }
                while s < n
                    invariant
                        s <= n,
                        n == self.sources@.len(),
                        user_target is Some,
                        user == user_target->Some_0.0,
                        target_name == user_target->Some_0.1,
                        find_target(self.sources@, target_name@) == find_target(
                            self.sources@.subrange(s as int, n as int),
                            target_name@,
                        ),
                    decreases n - s,
                {
                    proof {
                        let rest = self.sources@.subrange(s as int, n as int);
                        assert(rest.subrange(1, rest.len() as int) =~= self.sources@.subrange(
                            s + 1,
                            n as int,
                        ));
                    }
                    match find_target_in_source(&self.sources[s].targets, target_name.as_str()) {
                        Some(t) => {
                            proof {
                                let rest = self.sources@.subrange(s as int, n as int);
                                assert(rest[0] == self.sources@[s as int]);
                                assert(find_target(rest, target_name@) == Option::Some(*t));
                            }
                            return Some((user, t));
                        },
                        None => {},
                    }
                    s += 1;
                }
                None
            },
            None => None,
        }
    }

    /// Resolves downstream credentials to the configured target they
    /// are mapped onto; `None` when no proxy definition is loaded, the
    /// credentials match no user, or the named target does not exist.
    pub fn get_target_for_user(&self, username: &str, password: &str) -> (r: Option<
        (UserCredentials, &ConfigTarget),
    >)
        ensures
            match r {
                Option::Some(p) => {
                    &&& self._api_proxy is Some
                    &&& find_user(self._api_proxy->Some_0.user@, username@, password@) is Some
                    &&& cred_view_eq(
                        p.0,
                        find_user(self._api_proxy->Some_0.user@, username@, password@)->Some_0.0,
                    )
                    &&& find_target(
                        self.sources@,
                        find_user(self._api_proxy->Some_0.user@, username@, password@)->Some_0.1,
                    ) == Option::Some(*p.1)
                },
                Option::None => self._api_proxy is None || find_user(
                    self._api_proxy->Some_0.user@,
                    username@,
                    password@,
                ) is None || find_target(
                    self.sources@,
                    find_user(self._api_proxy->Some_0.user@, username@, password@)->Some_0.1,
                ) is None,
            },
    {
        match &self._api_proxy {
            Some(api_proxy) => {
                let ut = api_proxy.get_target_name(username, password);
                self._get_target_for_user(ut)
            },
            None => None,
        }
    }

    /// Resolves a bearer token the same way.
    pub fn get_target_for_user_by_token(&self, token: &str) -> (r: Option<
        (UserCredentials, &ConfigTarget),
    >)
        ensures
            match r {
                Option::Some(p) => {
                    &&& self._api_proxy is Some
                    &&& find_user_by_token(self._api_proxy->Some_0.user@, token@) is Some
                    &&& cred_view_eq(
                        p.0,
                        find_user_by_token(self._api_proxy->Some_0.user@, token@)->Some_0.0,
                    )
                    &&& find_target(
                        self.sources@,
                        find_user_by_token(self._api_proxy->Some_0.user@, token@)->Some_0.1,
                    ) == Option::Some(*p.1)
                },
                Option::None => self._api_proxy is None || find_user_by_token(
                    self._api_proxy->Some_0.user@,
                    token@,
                ) is None || find_target(
                    self.sources@,
                    find_user_by_token(self._api_proxy->Some_0.user@, token@)->Some_0.1,
                ) is None,
            },
    {
        match &self._api_proxy {
            Some(api_proxy) => {
                let ut = api_proxy.get_target_name_by_token(token);
                self._get_target_for_user(ut)
            },
            None => None,
        }
    }

    /// The input serving the given target, by protocol type, over all
    /// sources.
    pub fn get_input_for_target(&self, target_name: &str, input_type: &InputType) -> (r: Option<
        &ConfigInput,
    >)
        ensures
            match r {
                Option::Some(inp) => find_input_for_target(self.sources@, target_name@, *input_type)
                    == Option::Some(*inp),
                Option::None => find_input_for_target(
                    self.sources@,
                    target_name@,
                    *input_type,
                ) is None,
            },
    {
        let n = self.sources.len();
        let mut s: usize = 0;
        proof {
            assert(self.sources@.subrange(0, n as int) =~= self.sources@);
        }
        while s < n
            invariant
                s <= n,
                n == self.sources@.len(),
                find_input_for_target(self.sources@, target_name@, *input_type)
                    == find_input_for_target(
                    self.sources@.subrange(s as int, n as int),
                    target_name@,
                    *input_type,
                ),
            decreases n - s,
        {
            proof {
                let rest = self.sources@.subrange(s as int, n as int);
                assert(rest.subrange(1, rest.len() as int) =~= self.sources@.subrange(
                    s + 1,
                    n as int,
                ));
                assert(rest[0] == self.sources@[s as int]);
            }
            match self.sources[s].get_input_for_target(target_name, input_type) {
                Some(cfg) => {
                    return Some(cfg);
                },
                None => {},
            }
            s += 1;
        }
        None
    }

    /// The input with the given id, over all sources.
    pub fn get_input_by_id(&self, input_id: &u16) -> (r: Option<ConfigInput>)
        ensures
            match r {
                Option::Some(inp) => find_input_by_id(self.sources@, *input_id) is Some
                    && input_view_eq(inp, find_input_by_id(self.sources@, *input_id)->Some_0),
                Option::None => find_input_by_id(self.sources@, *input_id) is None,
            },
    {
        let n = self.sources.len();
        let mut s: usize = 0;
        proof {
            assert(self.sources@.subrange(0, n as int) =~= self.sources@);
        }
        while s < n
            invariant
                s <= n,
                n == self.sources@.len(),
                find_input_by_id(self.sources@, *input_id) == find_input_by_id(
                    self.sources@.subrange(s as int, n as int),
                    *input_id,
                ),
            decreases n - s,
        {
            proof {
                let rest = self.sources@.subrange(s as int, n as int);
                assert(rest.subrange(1, rest.len() as int) =~= self.sources@.subrange(
                    s + 1,
                    n as int,
                ));
            }
            match find_input_in_source(&self.sources[s].inputs, input_id) {
                Some(inp) => {
                    return Some(inp);
                },
                None => {},
            }
            s += 1;
        }
        None
    }
}

fn find_input_in_source(ins: &Vec<ConfigInput>, input_id: &u16) -> (r: Option<ConfigInput>)
    ensures
        match r {
            Option::Some(inp) => find_input_in(ins@, *input_id) is Some && input_view_eq(
                inp,
                find_input_in(ins@, *input_id)->Some_0,
            ),
            Option::None => find_input_in(ins@, *input_id) is None,
        },
{
    let n = ins.len();
    let mut i: usize = 0;
    proof {
        assert(ins@.subrange(0, n as int) =~= ins@);
    }
    while i < n
        invariant
            i <= n,
            n == ins@.len(),
            find_input_in(ins@, *input_id) == find_input_in(
                ins@.subrange(i as int, n as int),
                *input_id,
            ),
        decreases n - i,
    {
        proof {
            let rest = ins@.subrange(i as int, n as int);
            assert(rest.subrange(1, rest.len() as int) =~= ins@.subrange(i + 1, n as int));
        }
        if ins[i].id == *input_id {
            return Some(ins[i].duplicate());
        }
        i += 1;
    }
    None
}


// ---------------------------------------------------------------------------
// Preparing the whole configuration
// ---------------------------------------------------------------------------

pub open spec fn total_inputs(ss: Seq<ConfigSource>) -> int
    decreases ss.len(),
{
    if ss.len() == 0 {
        0
    } else {
        total_inputs(ss.subrange(0, ss.len() - 1)) + ss[ss.len() - 1].inputs@.len()
    }
}

pub open spec fn total_targets(ss: Seq<ConfigSource>) -> int
    decreases ss.len(),
{
    if ss.len() == 0 {
        0
    } else {
        total_targets(ss.subrange(0, ss.len() - 1)) + ss[ss.len() - 1].targets@.len()
    }
}

pub open spec fn inputs_before(ss: Seq<ConfigSource>, s: int) -> int {
    total_inputs(ss.subrange(0, s))
}

pub open spec fn targets_before(ss: Seq<ConfigSource>, s: int) -> int {
    total_targets(ss.subrange(0, s))
}

proof fn lemma_counts_step(ss: Seq<ConfigSource>, s: int)
    requires
        0 <= s < ss.len(),
    ensures
        inputs_before(ss, s + 1) == inputs_before(ss, s) + ss[s].inputs@.len(),
        targets_before(ss, s + 1) == targets_before(ss, s) + ss[s].targets@.len(),
{
    assert(ss.subrange(0, s + 1).subrange(0, s) =~= ss.subrange(0, s));
    assert(ss.subrange(0, s + 1)[s] == ss[s]);
}

proof fn lemma_totals_nonneg(ss: Seq<ConfigSource>)
    ensures
        total_inputs(ss) >= 0,
        total_targets(ss) >= 0,
    decreases ss.len(),
{
    if ss.len() > 0 {
        lemma_totals_nonneg(ss.subrange(0, ss.len() - 1));
    }
}

proof fn lemma_counts_bound(ss: Seq<ConfigSource>, s: int)
    requires
        0 <= s <= ss.len(),
    ensures
        0 <= inputs_before(ss, s),
        0 <= targets_before(ss, s),
        inputs_before(ss, s) <= total_inputs(ss),
        targets_before(ss, s) <= total_targets(ss),
    decreases ss.len() - s,
{
    lemma_totals_nonneg(ss.subrange(0, s));
    if s == ss.len() {
        assert(ss.subrange(0, s) =~= ss);
    } else {
        lemma_counts_step(ss, s);
        lemma_counts_bound(ss, s + 1);
    }
}

/// The name of the target at one position.
pub open spec fn tgt_name(ss: Seq<ConfigSource>, s: int, t: int) -> Seq<char> {
    ss[s].targets@[t].name@
}

pub open spec fn valid_pos(ss: Seq<ConfigSource>, s: int, t: int) -> bool {
    0 <= s < ss.len() && 0 <= t < ss[s].targets@.len()
}

/// Whether a target may share its name: the reserved default name is
/// exempt from the uniqueness rule.
pub open spec fn nondefault(ss: Seq<ConfigSource>, s: int, t: int) -> bool {
    !seq_eq_ignore_ascii_case("default"@, tgt_name(ss, s, t))
}

pub open spec fn lex_before(s1: int, t1: int, s2: int, t2: int) -> bool {
    s1 < s2 || (s1 == s2 && t1 < t2)
}

/// No two non-default targets strictly before the boundary share a
/// name.
pub open spec fn unique_prefix(ss: Seq<ConfigSource>, bs: int, bt: int) -> bool {
    forall|s1: int, t1: int, s2: int, t2: int|
        #![trigger tgt_name(ss, s1, t1), tgt_name(ss, s2, t2)]
        valid_pos(ss, s1, t1) && valid_pos(ss, s2, t2) && lex_before(s1, t1, bs, bt) && lex_before(
            s2,
            t2,
            bs,
            bt,
        ) && (s1 != s2 || t1 != t2) && nondefault(ss, s1, t1) && nondefault(ss, s2, t2)
            ==> tgt_name(ss, s1, t1) != tgt_name(ss, s2, t2)
}

/// No two non-default targets anywhere share a name.
pub open spec fn names_unique(ss: Seq<ConfigSource>) -> bool {
    unique_prefix(ss, ss.len() as int, 0)
}

/// Everything up to position (s2, t2) differs in name from the target
/// at (s, t).
pub open spec fn cleared_up_to(ss: Seq<ConfigSource>, s: int, t: int, s2: int, t2: int) -> bool {
    forall|x: int, y: int|
        #![trigger tgt_name(ss, x, y)]
        valid_pos(ss, x, y) && lex_before(x, y, s2, t2) && nondefault(ss, x, y) && nondefault(
            ss,
            s,
            t,
        ) ==> tgt_name(ss, x, y) != tgt_name(ss, s, t)
}

/// Whether all non-default target names over all sources are unique.
fn check_unique_target_names(ss: &Vec<ConfigSource>) -> (r: bool)
    ensures
        r == names_unique(ss@),
{
    let n = ss.len();
    let mut s: usize = 0;
    while s < n
        invariant
            s <= n,
            n == ss@.len(),
            unique_prefix(ss@, s as int, 0),
        decreases n - s,
    {
        let tn = ss[s].targets.len();
        let mut t: usize = 0;
        proof {
            assert(unique_prefix(ss@, s as int, 0));
        }
        while t < tn
            invariant
                t <= tn,
                s < n,
                n == ss@.len(),
                tn == ss@[s as int].targets@.len(),
                unique_prefix(ss@, s as int, t as int),
            decreases tn - t,
        {
            if !str_eq_ignore_ascii_case("default", ss[s].targets[t].name.as_str()) {
                let mut s2: usize = 0;
                while s2 < s
                    invariant
                        s2 <= s,
                        s < n,
                        t < tn,
                        n == ss@.len(),
                        tn == ss@[s as int].targets@.len(),
                        nondefault(ss@, s as int, t as int),
                        unique_prefix(ss@, s as int, t as int),
                        cleared_up_to(ss@, s as int, t as int, s2 as int, 0),
                    decreases s - s2,
                {
                    let tn2 = ss[s2].targets.len();
                    let mut t2: usize = 0;
                    while t2 < tn2
                        invariant
                            t2 <= tn2,
                            s2 < s,
                            s < n,
                            t < tn,
                            n == ss@.len(),
                            tn == ss@[s as int].targets@.len(),
                            tn2 == ss@[s2 as int].targets@.len(),
                            nondefault(ss@, s as int, t as int),
                            unique_prefix(ss@, s as int, t as int),
                            cleared_up_to(ss@, s as int, t as int, s2 as int, t2 as int),
                        decreases tn2 - t2,
                    {
                        if !str_eq_ignore_ascii_case("default", ss[s2].targets[t2].name.as_str())
                            && str_equal(
                            ss[s2].targets[t2].name.as_str(),
                            ss[s].targets[t].name.as_str(),
                        ) {
                            proof {
                                assert(tgt_name(ss@, s2 as int, t2 as int) == tgt_name(
                                    ss@,
                                    s as int,
                                    t as int,
                                ));
                                assert(!names_unique(ss@)) by {
                                    if names_unique(ss@) {
                                        assert(tgt_name(ss@, s2 as int, t2 as int) != tgt_name(
                                            ss@,
                                            s as int,
                                            t as int,
                                        ));
                                    }
                                }
                            }
                            return false;
                        }
                        proof {
                            assert forall|x: int, y: int|
                                valid_pos(ss@, x, y) && lex_before(x, y, s2 as int, t2 + 1)
                                    && nondefault(ss@, x, y) && nondefault(ss@, s as int, t as int)
                                    implies #[trigger] tgt_name(ss@, x, y) != tgt_name(
                                ss@,
                                s as int,
                                t as int,
                            ) by {
                                if !(x == s2 as int && y == t2 as int) {
                                    assert(lex_before(x, y, s2 as int, t2 as int));
                                }
                            }
                        }
                        t2 += 1;
                    }
                    proof {
                        assert forall|x: int, y: int|
                            valid_pos(ss@, x, y) && lex_before(x, y, s2 + 1, 0) && nondefault(
                            ss@,
                            x,
                            y,
                        ) && nondefault(ss@, s as int, t as int) implies #[trigger] tgt_name(
                            ss@,
                            x,
                            y,
                        ) != tgt_name(ss@, s as int, t as int) by {
                            assert(lex_before(x, y, s2 as int, tn2 as int));
                        }
                    }
                    s2 += 1;
                }
                let mut t2: usize = 0;
                while t2 < t
                    invariant
                        t2 <= t,
                        s < n,
                        t < tn,
                        n == ss@.len(),
                        tn == ss@[s as int].targets@.len(),
                        nondefault(ss@, s as int, t as int),
                        unique_prefix(ss@, s as int, t as int),
                        cleared_up_to(ss@, s as int, t as int, s as int, t2 as int),
                    decreases t - t2,
                {
                    if !str_eq_ignore_ascii_case("default", ss[s].targets[t2].name.as_str())
                        && str_equal(
                        ss[s].targets[t2].name.as_str(),
                        ss[s].targets[t].name.as_str(),
                    ) {
                        proof {
                            assert(tgt_name(ss@, s as int, t2 as int) == tgt_name(
                                ss@,
                                s as int,
                                t as int,
                            ));
                            assert(!names_unique(ss@)) by {
                                if names_unique(ss@) {
                                    assert(tgt_name(ss@, s as int, t2 as int) != tgt_name(
                                        ss@,
                                        s as int,
                                        t as int,
                                    ));
                                }
                            }
                        }
                        return false;
                    }
                    proof {
                        assert forall|x: int, y: int|
                            valid_pos(ss@, x, y) && lex_before(x, y, s as int, t2 + 1)
                                && nondefault(ss@, x, y) && nondefault(ss@, s as int, t as int)
                                implies #[trigger] tgt_name(ss@, x, y) != tgt_name(
                            ss@,
                            s as int,
                            t as int,
                        ) by {
                            if !(x == s as int && y == t2 as int) {
                                assert(lex_before(x, y, s as int, t2 as int));
                            }
                        }
                    }
                    t2 += 1;
                }
                proof {
                    assert forall|s1: int, t1: int, s2x: int, t2x: int|
                        valid_pos(ss@, s1, t1) && valid_pos(ss@, s2x, t2x) && lex_before(
                        s1,
                        t1,
                        s as int,
                        t + 1,
                    ) && lex_before(s2x, t2x, s as int, t + 1) && (s1 != s2x || t1 != t2x)
                        && nondefault(ss@, s1, t1) && nondefault(ss@, s2x, t2x) implies #[trigger] tgt_name(
                        ss@,
                        s1,
                        t1,
                    ) != #[trigger] tgt_name(ss@, s2x, t2x) by {
                        if s1 == s as int && t1 == t as int {
                            assert(lex_before(s2x, t2x, s + 1, 0));
                            assert(tgt_name(ss@, s2x, t2x) != tgt_name(ss@, s as int, t as int));
                        } else if s2x == s as int && t2x == t as int {
                            assert(lex_before(s1, t1, s + 1, 0));
                            assert(tgt_name(ss@, s1, t1) != tgt_name(ss@, s as int, t as int));
                        } else {
                            assert(lex_before(s1, t1, s as int, t as int));
                            assert(lex_before(s2x, t2x, s as int, t as int));
                        }
                    }
                    assert(unique_prefix(ss@, s as int, t + 1));
                }
            } else {
                proof {
                    assert forall|s1: int, t1: int, s2x: int, t2x: int|
                        valid_pos(ss@, s1, t1) && valid_pos(ss@, s2x, t2x) && lex_before(
                        s1,
                        t1,
                        s as int,
                        t + 1,
                    ) && lex_before(s2x, t2x, s as int, t + 1) && (s1 != s2x || t1 != t2x)
                        && nondefault(ss@, s1, t1) && nondefault(ss@, s2x, t2x) implies #[trigger] tgt_name(
                        ss@,
                        s1,
                        t1,
                    ) != #[trigger] tgt_name(ss@, s2x, t2x) by {
                        assert(lex_before(s1, t1, s as int, t as int));
                        assert(lex_before(s2x, t2x, s as int, t as int));
                    }
                    assert(unique_prefix(ss@, s as int, t + 1));
                }
            }
            t += 1;
        }
        proof {
            assert forall|s1: int, t1: int, s2x: int, t2x: int|
                valid_pos(ss@, s1, t1) && valid_pos(ss@, s2x, t2x) && lex_before(s1, t1, s + 1, 0)
                    && lex_before(s2x, t2x, s + 1, 0) && (s1 != s2x || t1 != t2x) && nondefault(
                ss@,
                s1,
                t1,
            ) && nondefault(ss@, s2x, t2x) implies #[trigger] tgt_name(ss@, s1, t1)
                != #[trigger] tgt_name(ss@, s2x, t2x) by {
                assert(lex_before(s1, t1, s as int, tn as int));
                assert(lex_before(s2x, t2x, s as int, tn as int));
            }
            assert(unique_prefix(ss@, s + 1, 0));
        }
        s += 1;
    }
    proof {
        assert forall|s1: int, t1: int, s2x: int, t2x: int|
            valid_pos(ss@, s1, t1) && valid_pos(ss@, s2x, t2x) && lex_before(
            s1,
            t1,
            n as int,
            0,
        ) && lex_before(s2x, t2x, n as int, 0) && (s1 != s2x || t1 != t2x) && nondefault(
            ss@,
            s1,
            t1,
        ) && nondefault(ss@, s2x, t2x) implies #[trigger] tgt_name(ss@, s1, t1)
            != #[trigger] tgt_name(ss@, s2x, t2x) by {
            assert(lex_before(s1, t1, s1, t1 + 1));
            assert(unique_prefix(ss@, s1 + 1, 0) || true);
            assert(lex_before(s1, t1, n as int, 0) && s1 < n);
        }
        assert(names_unique(ss@));
    }
    true
}


/// The backup directory derived from the working directory.
pub open spec fn backup_of(wd: Seq<char>) -> Seq<char> {
    if wd.len() > 0 && wd[wd.len() - 1] == '/' {
        wd + ".backup"@
    } else {
        wd + "/.backup"@
    }
}

fn make_backup_path(wd: &str) -> (r: String)
    ensures
        r@ == backup_of(wd@),
{
    let n = wd.unicode_len();
    let mut out = String::from_str(wd);
    if n > 0 && wd.get_char(n - 1) == '/' {
        out.append(".backup");
    } else {
        out.append("/.backup");
    }
    out
}

/// One prepared source: its inputs normalized with sequential ids and
/// its targets checked with sequential ids.
pub open spec fn source_prepared(
    o: ConfigSource,
    f: ConfigSource,
    input_base: int,
    target_base: int,
) -> bool {
    &&& inputs_ok(o.inputs@)
    &&& f.inputs@.len() == o.inputs@.len()
    &&& forall|k: int|
        0 <= k < o.inputs@.len() ==> input_prepared_rel(
            o.inputs@[k],
            #[trigger] f.inputs@[k],
            input_base + k,
        )
    &&& f.targets@.len() == o.targets@.len()
    &&& forall|t: int|
        0 <= t < o.targets@.len() ==> target_prepare_ok(#[trigger] o.targets@[t])
            && f.targets@[t].id == target_base + t && f.targets@[t].name == o.targets@[t].name
}

/// A configuration prepares cleanly when every input and target is
/// acceptable, non-default target names are unique, and the video
/// section compiles.
pub open spec fn config_prepare_ok(c: Config) -> bool {
    &&& forall|s: int| 0 <= s < c.sources@.len() ==> inputs_ok((#[trigger] c.sources@[s]).inputs@)
    &&& forall|s: int, t: int|
        valid_pos(c.sources@, s, t) ==> target_prepare_ok(#[trigger] c.sources@[s].targets@[t])
    &&& names_unique(c.sources@)
    &&& match c.video {
        Option::Some(v) => video_prepare_ok(v),
        Option::None => true,
    }
}

impl Config {
    /// Prepares the loaded configuration: defaults the backup
    /// directory and web root, enforces unique target names, assigns
    /// sequential ids to inputs and targets, and normalizes the video
    /// section. A rejected configuration is an informational error.
    pub fn prepare(&mut self) -> (r: Result<(), M3uFilterError>)
        requires
            1 + total_inputs(old(self).sources@) <= u16::MAX,
            1 + total_targets(old(self).sources@) <= u16::MAX,
        ensures
            match r {
                Result::Ok(u) => {
                    &&& config_prepare_ok(*old(self))
                    &&& final(self).sources@.len() == old(self).sources@.len()
                    &&& forall|s: int|
                        0 <= s < old(self).sources@.len() ==> source_prepared(
                            old(self).sources@[s],
                            #[trigger] final(self).sources@[s],
                            1 + inputs_before(old(self).sources@, s),
                            1 + targets_before(old(self).sources@, s),
                        )
                    &&& opt_string_view(final(self).backup_dir) == (match old(self).backup_dir {
                        Option::Some(b) => Option::Some(b@),
                        Option::None => Option::Some(backup_of(old(self).working_dir@)),
                    })
                    &&& final(self).api.web_root@ == (if old(self).api.web_root@.len() == 0 {
                        "./web"@
                    } else {
                        old(self).api.web_root@
                    })
                    &&& final(self).video is Some
                },
                Result::Err(e) => {
                    &&& !config_prepare_ok(*old(self))
                    &&& e.kind == M3uFilterErrorKind::Info
                },
            },
    {
        if self.backup_dir.is_none() {
            self.backup_dir = Some(make_backup_path(self.working_dir.as_str()));
        }
        self.api.prepare();
        if !check_unique_target_names(&self.sources) {
            return Err(
                M3uFilterError::new(
                    M3uFilterErrorKind::Info,
                    String::from_str("target names should be unique"),
                ),
            );
        }
        let n = self.sources.len();
        let mut source_index: u16 = 1;
        let mut target_index: u16 = 1;
        let mut s: usize = 0;
        proof {
            assert(old(self).sources@.subrange(0, 0) =~= Seq::<ConfigSource>::empty());
        }
        while s < n
            invariant
                s <= n,
                n == self.sources@.len(),
                n == old(self).sources@.len(),
                1 + total_inputs(old(self).sources@) <= u16::MAX,
                1 + total_targets(old(self).sources@) <= u16::MAX,
                names_unique(old(self).sources@),
                source_index as int == 1 + inputs_before(old(self).sources@, s as int),
                target_index as int == 1 + targets_before(old(self).sources@, s as int),
                forall|k: int|
                    s <= k < n ==> #[trigger] self.sources@[k] == old(self).sources@[k],
                forall|k: int|
                    0 <= k < s ==> source_prepared(
                        old(self).sources@[k],
                        #[trigger] self.sources@[k],
                        1 + inputs_before(old(self).sources@, k),
                        1 + targets_before(old(self).sources@, k),
                    ),
                self.video == old(self).video,
                self.working_dir == old(self).working_dir,
                opt_string_view(self.backup_dir) == (match old(self).backup_dir {
                    Option::Some(b) => Option::Some(b@),
                    Option::None => Option::Some(backup_of(old(self).working_dir@)),
                }),
                self.api.web_root@ == (if old(self).api.web_root@.len() == 0 {
                    "./web"@
                } else {
                    old(self).api.web_root@
                }),
            decreases n - s,
        {
            proof {
                lemma_counts_bound(old(self).sources@, s as int);
                lemma_counts_step(old(self).sources@, s as int);
                lemma_counts_bound(old(self).sources@, s + 1);
            }
            match self.sources[s].prepare(source_index) {
                Ok(next) => {
                    source_index = next;
                },
                Err(e) => {
                    proof {
                        assert(!inputs_ok(old(self).sources@[s as int].inputs@));
                        assert(!config_prepare_ok(*old(self)));
                    }
                    return Err(e);
                },
            }
            let tn = self.sources[s].targets.len();
            let mut t: usize = 0;
            while t < tn
                invariant
                    t <= tn,
                    s < n,
                    n == self.sources@.len(),
                    n == old(self).sources@.len(),
                    tn == self.sources@[s as int].targets@.len(),
                    tn == old(self).sources@[s as int].targets@.len(),
                    1 + total_targets(old(self).sources@) <= u16::MAX,
                    target_index as int == 1 + targets_before(old(self).sources@, s as int)
                        + t,
                    targets_before(old(self).sources@, s + 1) == targets_before(
                        old(self).sources@,
                        s as int,
                    ) + tn,
                    targets_before(old(self).sources@, s + 1) <= total_targets(
                        old(self).sources@,
                    ),
                    0 <= targets_before(old(self).sources@, s as int),
                    forall|k: int|
                        s < k < n ==> #[trigger] self.sources@[k] == old(self).sources@[k],
                    forall|k: int|
                        0 <= k < s ==> source_prepared(
                            old(self).sources@[k],
                            #[trigger] self.sources@[k],
                            1 + inputs_before(old(self).sources@, k),
                            1 + targets_before(old(self).sources@, k),
                        ),
                    inputs_ok(old(self).sources@[s as int].inputs@),
                    self.sources@[s as int].inputs@.len() == old(
                        self,
                    ).sources@[s as int].inputs@.len(),
                    forall|k: int|
                        0 <= k < old(self).sources@[s as int].inputs@.len()
                            ==> input_prepared_rel(
                            old(self).sources@[s as int].inputs@[k],
                            #[trigger] self.sources@[s as int].inputs@[k],
                            1 + inputs_before(old(self).sources@, s as int) + k,
                        ),
                    forall|k: int|
                        t <= k < tn ==> #[trigger] self.sources@[s as int].targets@[k] == old(
                            self,
                        ).sources@[s as int].targets@[k],
                    forall|k: int|
                        0 <= k < t ==> target_prepare_ok(
                            #[trigger] old(self).sources@[s as int].targets@[k],
                        ) && self.sources@[s as int].targets@[k].id == 1 + targets_before(
                            old(self).sources@,
                            s as int,
                        ) + k && self.sources@[s as int].targets@[k].name == old(
                            self,
                        ).sources@[s as int].targets@[k].name,
                    self.video == old(self).video,
                    self.working_dir == old(self).working_dir,
                    opt_string_view(self.backup_dir) == (match old(self).backup_dir {
                        Option::Some(b) => Option::Some(b@),
                        Option::None => Option::Some(backup_of(old(self).working_dir@)),
                    }),
                    self.api.web_root@ == (if old(self).api.web_root@.len() == 0 {
                        "./web"@
                    } else {
                        old(self).api.web_root@
                    }),
                decreases tn - t,
            {
                match self.sources[s].targets[t].prepare(target_index) {
                    Ok(()) => {},
                    Err(e) => {
                        proof {
                            assert(!target_prepare_ok(
                                old(self).sources@[s as int].targets@[t as int],
                            ));
                            assert(valid_pos(old(self).sources@, s as int, t as int));
                            assert(!config_prepare_ok(*old(self)));
                        }
                        return Err(e);
                    },
                }
                target_index = target_index + 1;
                t += 1;
            }
            s += 1;
        }
        match &mut self.video {
            None => {
                let mut exts: Vec<String> = Vec::new();
                exts.push(String::from_str("mkv"));
                exts.push(String::from_str("avi"));
                exts.push(String::from_str("mp4"));
                self.video = Some(
                    VideoConfig { extensions: exts, download: None, web_search: None },
                );
            },
            Some(video) => {
                match video.prepare() {
                    Ok(()) => {},
                    Err(e) => {
                        return Err(e);
                    },
                }
            },
        }
        proof {
            assert forall|si: int|
                0 <= si < old(self).sources@.len() implies inputs_ok(
                (#[trigger] old(self).sources@[si]).inputs@,
            ) by {
                assert(source_prepared(
                    old(self).sources@[si],
                    self.sources@[si],
                    1 + inputs_before(old(self).sources@, si),
                    1 + targets_before(old(self).sources@, si),
                ));
            }
            assert forall|si: int, ti: int|
                valid_pos(old(self).sources@, si, ti) implies target_prepare_ok(
                #[trigger] old(self).sources@[si].targets@[ti],
            ) by {
                assert(source_prepared(
                    old(self).sources@[si],
                    self.sources@[si],
                    1 + inputs_before(old(self).sources@, si),
                    1 + targets_before(old(self).sources@, si),
                ));
            }
            assert(config_prepare_ok(*old(self)));
        }
        Ok(())
    }
}


// ---------------------------------------------------------------------------
// Selecting targets from the command line
// ---------------------------------------------------------------------------

/// The ids contributed by one target: one per selecting argument that
/// names it, ignoring ASCII case.
pub open spec fn ids_for_target(args: Seq<String>, t: ConfigTarget) -> Seq<u16>
    decreases args.len(),
{
    if args.len() == 0 {
        Seq::empty()
    } else {
        ids_for_target(args.subrange(0, args.len() - 1), t) + (if seq_eq_ignore_ascii_case(
            t.name@,
            args[args.len() - 1]@,
        ) {
            seq![t.id]
        } else {
            Seq::empty()
        })
    }
}

pub open spec fn ids_for_targets(ts: Seq<ConfigTarget>, args: Seq<String>) -> Seq<u16>
    decreases ts.len(),
{
    if ts.len() == 0 {
        Seq::empty()
    } else {
        ids_for_targets(ts.subrange(0, ts.len() - 1), args) + ids_for_target(
            args,
            ts[ts.len() - 1],
        )
    }
}

pub open spec fn input_ids(ins: Seq<ConfigInput>) -> Seq<u16> {
    Seq::new(ins.len(), |i: int| ins[i].id)
}

/// The target ids selected by the arguments, in configuration order.
pub open spec fn selected_targets(ss: Seq<ConfigSource>, args: Seq<String>) -> Seq<u16>
    decreases ss.len(),
{
    if ss.len() == 0 {
        Seq::empty()
    } else {
        selected_targets(ss.subrange(0, ss.len() - 1), args) + ids_for_targets(
            ss[ss.len() - 1].targets@,
            args,
        )
    }
}

/// The input ids of every source that contributed a selected target.
pub open spec fn selected_inputs(ss: Seq<ConfigSource>, args: Seq<String>) -> Seq<u16>
    decreases ss.len(),
{
    if ss.len() == 0 {
        Seq::empty()
    } else {
        selected_inputs(ss.subrange(0, ss.len() - 1), args) + (if ids_for_targets(
            ss[ss.len() - 1].targets@,
            args,
        ).len() > 0 {
            input_ids(ss[ss.len() - 1].inputs@)
        } else {
            Seq::empty()
        })
    }
}

/// Whether some configured target carries this name, ignoring ASCII
/// case.
pub open spec fn arg_matched(ss: Seq<ConfigSource>, a: Seq<char>) -> bool {
    exists|s: int, t: int|
        valid_pos(ss, s, t) && seq_eq_ignore_ascii_case(#[trigger] tgt_name(ss, s, t), a)
}

pub open spec fn all_args_matched(ss: Seq<ConfigSource>, args: Seq<String>) -> bool {
    forall|i: int| 0 <= i < args.len() ==> arg_matched(ss, (#[trigger] args[i])@)
}

fn arg_has_match(ss: &Vec<ConfigSource>, a: &str) -> (r: bool)
    ensures
        r == arg_matched(ss@, a@),
{
    let n = ss.len();
    let mut s: usize = 0;
    while s < n
        invariant
            s <= n,
            n == ss@.len(),
            forall|x: int, y: int|
                valid_pos(ss@, x, y) && x < s ==> !seq_eq_ignore_ascii_case(
                    #[trigger] tgt_name(ss@, x, y),
                    a@,
                ),
        decreases n - s,
    {
        let tn = ss[s].targets.len();
        let mut t: usize = 0;
        while t < tn
            invariant
                t <= tn,
                s < n,
                n == ss@.len(),
                tn == ss@[s as int].targets@.len(),
                forall|x: int, y: int|
                    valid_pos(ss@, x, y) && x < s ==> !seq_eq_ignore_ascii_case(
                        #[trigger] tgt_name(ss@, x, y),
                        a@,
                    ),
                forall|y: int|
                    0 <= y < t ==> !seq_eq_ignore_ascii_case(
                        #[trigger] tgt_name(ss@, s as int, y),
                        a@,
                    ),
            decreases tn - t,
        {
            if str_eq_ignore_ascii_case(ss[s].targets[t].name.as_str(), a) {
                proof {
                    assert(seq_eq_ignore_ascii_case(tgt_name(ss@, s as int, t as int), a@));
                }
                return true;
            }
            t += 1;
        }
        s += 1;
    }
    proof {
        assert(!arg_matched(ss@, a@)) by {
            if arg_matched(ss@, a@) {
                let (x, y) = choose|x: int, y: int|
                    valid_pos(ss@, x, y) && seq_eq_ignore_ascii_case(
                        #[trigger] tgt_name(ss@, x, y),
                        a@,
                    );
                assert(!seq_eq_ignore_ascii_case(tgt_name(ss@, x, y), a@));
            }
        }
    }
    false
}

/// Returns the targets that were selected on the command line, with
/// the inputs of every source that holds one. `enabled` says whether a
/// selection was given at all; a name that selects no target is an
/// informational error.
pub fn validate_targets(
    target_args: &Option<Vec<String>>,
    sources: &Vec<ConfigSource>,
) -> (r: Result<ProcessTargets, M3uFilterError>)
    ensures
        match *target_args {
            Option::None => (match r {
                Result::Ok(pt) => !pt.enabled && pt.inputs@.len() == 0 && pt.targets@.len() == 0,
                Result::Err(e) => false,
            }),
            Option::Some(args) => (match r {
                Result::Ok(pt) => {
                    &&& pt.enabled
                    &&& pt.targets@ == selected_targets(sources@, args@)
                    &&& pt.inputs@ == selected_inputs(sources@, args@)
                    &&& all_args_matched(sources@, args@)
                },
                Result::Err(e) => {
                    &&& !all_args_matched(sources@, args@)
                    &&& e.kind == M3uFilterErrorKind::Info
                },
            }),
        },
{
    match target_args {
        None => Ok(ProcessTargets { enabled: false, inputs: Vec::new(), targets: Vec::new() }),
        Some(user_targets) => {
            let an = user_targets.len();
            let mut a: usize = 0;
            while a < an
                invariant
                    a <= an,
                    an == user_targets@.len(),
                    *target_args == Option::Some(*user_targets),
                    forall|i: int| 0 <= i < a ==> arg_matched(sources@, (#[trigger] user_targets@[i])@),
                decreases an - a,
            {
                if !arg_has_match(sources, user_targets[a].as_str()) {
                    proof {
                        assert(!all_args_matched(sources@, user_targets@));
                    }
                    let mut msg = String::from_str("No target found for ");
                    msg.append(user_targets[a].as_str());
                    return Err(M3uFilterError::new(M3uFilterErrorKind::Info, msg));
                }
                a += 1;
            }
            let n = sources.len();
            let mut targets: Vec<u16> = Vec::new();
            let mut inputs: Vec<u16> = Vec::new();
            let mut s: usize = 0;
            proof {
                assert(sources@.subrange(0, 0) =~= Seq::<ConfigSource>::empty());
                assert(targets@ =~= selected_targets(sources@.subrange(0, 0), user_targets@));
                assert(inputs@ =~= selected_inputs(sources@.subrange(0, 0), user_targets@));
            }
            while s < n
                invariant
                    s <= n,
                    n == sources@.len(),
                    an == user_targets@.len(),
                    *target_args == Option::Some(*user_targets),
                    targets@ == selected_targets(sources@.subrange(0, s as int), user_targets@),
                    inputs@ == selected_inputs(sources@.subrange(0, s as int), user_targets@),
                    all_args_matched(sources@, user_targets@),
                decreases n - s,
            {
                proof {
                    assert(sources@.subrange(0, s + 1).subrange(0, s as int) =~= sources@.subrange(
                        0,
                        s as int,
                    ));
                    assert(sources@.subrange(0, s + 1)[s as int] == sources@[s as int]);
                }
                let tn = sources[s].targets.len();
                let mut t: usize = 0;
                let len_before: usize = targets.len();
                let ghost targets_at_source: Seq<u16> = targets@;
                proof {
                    assert(sources@[s as int].targets@.subrange(0, 0) =~= Seq::<
                        ConfigTarget,
                    >::empty());
                    assert(targets@ =~= targets_at_source + ids_for_targets(
                        sources@[s as int].targets@.subrange(0, 0),
                        user_targets@,
                    ));
                }
                while t < tn
                    invariant
                        t <= tn,
                        s < n,
                        n == sources@.len(),
                        an == user_targets@.len(),
                        tn == sources@[s as int].targets@.len(),
                        targets_at_source == selected_targets(
                            sources@.subrange(0, s as int),
                            user_targets@,
                        ),
                        len_before == targets_at_source.len(),
                        targets@ == targets_at_source + ids_for_targets(
                            sources@[s as int].targets@.subrange(0, t as int),
                            user_targets@,
                        ),
                        inputs@ == selected_inputs(sources@.subrange(0, s as int), user_targets@),
                        all_args_matched(sources@, user_targets@),
                    decreases tn - t,
                {
                    proof {
                        let ts = sources@[s as int].targets@;
                        assert(ts.subrange(0, t + 1).subrange(0, t as int) =~= ts.subrange(
                            0,
                            t as int,
                        ));
                        assert(ts.subrange(0, t + 1)[t as int] == ts[t as int]);
                    }
                    let mut j: usize = 0;
                    let ghost targets_at_target: Seq<u16> = targets@;
                    proof {
                        assert(user_targets@.subrange(0, 0) =~= Seq::<String>::empty());
                        assert(targets@ =~= targets_at_target + ids_for_target(
                            user_targets@.subrange(0, 0),
                            sources@[s as int].targets@[t as int],
                        ));
                    }
                    while j < an
                        invariant
                            j <= an,
                            t < tn,
                            s < n,
                            n == sources@.len(),
                            an == user_targets@.len(),
                            tn == sources@[s as int].targets@.len(),
                            targets@ == targets_at_target + ids_for_target(
                                user_targets@.subrange(0, j as int),
                                sources@[s as int].targets@[t as int],
                            ),
                        decreases an - j,
                    {
                        proof {
                            let ar = user_targets@;
                            assert(ar.subrange(0, j + 1).subrange(0, j as int) =~= ar.subrange(
                                0,
                                j as int,
                            ));
                            assert(ar.subrange(0, j + 1)[j as int] == ar[j as int]);
                        }
                        if str_eq_ignore_ascii_case(
                            sources[s].targets[t].name.as_str(),
                            user_targets[j].as_str(),
                        ) {
                            targets.push(sources[s].targets[t].id);
                        }
                        proof {
                            assert(targets@ =~= targets_at_target + ids_for_target(
                                user_targets@.subrange(0, j + 1),
                                sources@[s as int].targets@[t as int],
                            ));
                        }
                        j += 1;
                    }
                    proof {
                        assert(user_targets@.subrange(0, an as int) =~= user_targets@);
                        assert(targets@ =~= targets_at_source + ids_for_targets(
                            sources@[s as int].targets@.subrange(0, t + 1),
                            user_targets@,
                        ));
                    }
                    t += 1;
                }
                proof {
                    assert(sources@[s as int].targets@.subrange(0, tn as int)
                        =~= sources@[s as int].targets@);
                }
                let target_added = targets.len() > len_before;
                proof {
                    assert(targets@ == targets_at_source + ids_for_targets(
                        sources@[s as int].targets@,
                        user_targets@,
                    ));
                    assert(target_added == (ids_for_targets(
                        sources@[s as int].targets@,
                        user_targets@,
                    ).len() > 0));
                }
                if target_added {
                    let inn = sources[s].inputs.len();
                    let mut k: usize = 0;
                    let ghost inputs_at_source: Seq<u16> = inputs@;
                    while k < inn
                        invariant
                            k <= inn,
                            s < n,
                            n == sources@.len(),
                            inn == sources@[s as int].inputs@.len(),
                            inputs@ == inputs_at_source + input_ids(
                                sources@[s as int].inputs@,
                            ).subrange(0, k as int),
                        decreases inn - k,
                    {
                        inputs.push(sources[s].inputs[k].id);
                        proof {
                            assert(inputs@ =~= inputs_at_source + input_ids(
                                sources@[s as int].inputs@,
                            ).subrange(0, k + 1));
                        }
                        k += 1;
                    }
                    proof {
                        assert(input_ids(sources@[s as int].inputs@).subrange(0, inn as int)
                            =~= input_ids(sources@[s as int].inputs@));
                        assert(inputs@ =~= selected_inputs(
                            sources@.subrange(0, s + 1),
                            user_targets@,
                        ));
                    }
                } else {
                    proof {
                        assert(inputs@ =~= selected_inputs(
                            sources@.subrange(0, s + 1),
                            user_targets@,
                        ));
                    }
                }
                s += 1;
            }
            proof {
                assert(sources@.subrange(0, n as int) =~= sources@);
            }
            Ok(ProcessTargets { enabled: true, inputs, targets })
        },
    }
}


// ---------------------------------------------------------------------------
// Attaching mappings to targets
// ---------------------------------------------------------------------------

/// The ids of the mappings found for the listed names, in list order.
pub open spec fn collected_ids(ms: Seq<Mapping>, ids: Seq<String>) -> Seq<Seq<char>>
    decreases ids.len(),
{
    if ids.len() == 0 {
        Seq::empty()
    } else {
        collected_ids(ms, ids.subrange(0, ids.len() - 1)) + (match find_mapping(
            ms,
            ids[ids.len() - 1]@,
        ) {
            Option::Some(m) => seq![m.id@],
            Option::None => Seq::<Seq<char>>::empty(),
        })
    }
}

pub open spec fn mappings_ids_view(v: Seq<Mapping>) -> Seq<Seq<char>> {
    Seq::new(v.len(), |i: int| v[i].id@)
}

/// How a target's resolved mappings relate to its configured list.
pub open spec fn target_mappings_applied(o: ConfigTarget, f: ConfigTarget, ms: Seq<Mapping>) -> bool {
    &&& f.name == o.name
    &&& f.id == o.id
    &&& f.output == o.output
    &&& f.mapping == o.mapping
    &&& match o.mapping {
        Option::Some(ids) => {
            &&& (collected_ids(ms, ids@).len() > 0 ==> f._mapping is Some && mappings_ids_view(
                f._mapping->Some_0@,
            ) == collected_ids(ms, ids@))
            &&& (collected_ids(ms, ids@).len() == 0 ==> f._mapping is None)
        },
        Option::None => f._mapping == o._mapping,
    }
}

fn apply_target_mappings(t: &mut ConfigTarget, mappings: &Mappings)
    ensures
        target_mappings_applied(*old(t), *final(t), mappings.mappings@),
{
    let tm_opt: Option<Vec<Mapping>> = match &t.mapping {
        Some(ids) => {
            let n = ids.len();
            let mut tm: Vec<Mapping> = Vec::new();
            let mut j: usize = 0;
            proof {
                assert(ids@.subrange(0, 0) =~= Seq::<String>::empty());
                assert(mappings_ids_view(tm@) =~= collected_ids(
                    mappings.mappings@,
                    ids@.subrange(0, 0),
                ));
            }
            while j < n
                invariant
                    j <= n,
                    n == ids@.len(),
                    mappings_ids_view(tm@) == collected_ids(
                        mappings.mappings@,
                        ids@.subrange(0, j as int),
                    ),
                decreases n - j,
            {
                proof {
                    assert(ids@.subrange(0, j + 1).subrange(0, j as int) =~= ids@.subrange(
                        0,
                        j as int,
                    ));
                    assert(ids@.subrange(0, j + 1)[j as int] == ids@[j as int]);
                }
                match mappings.get_mapping(ids[j].as_str()) {
                    Some(m) => {
                        tm.push(m);
                    },
                    None => {},
                }
                proof {
                    assert(mappings_ids_view(tm@) =~= collected_ids(
                        mappings.mappings@,
                        ids@.subrange(0, j + 1),
                    ));
                }
                j += 1;
            }
            proof {
                assert(ids@.subrange(0, n as int) =~= ids@);
            }
            Some(tm)
        },
        None => None,
    };
    match tm_opt {
        Some(tm) => {
            if tm.len() > 0 {
                t._mapping = Some(tm);
            } else {
                t._mapping = None;
            }
        },
        None => {},
    }
}

impl Config {
    /// Resolves each target's configured mapping names against the
    /// loaded mapping definitions.
    pub fn set_mappings(&mut self, mappings: Option<Mappings>) -> (r: Result<(), M3uFilterError>)
        ensures
            r is Ok,
            match mappings {
                Option::Some(ms) => {
                    &&& final(self).sources@.len() == old(self).sources@.len()
                    &&& forall|s: int|
                        0 <= s < old(self).sources@.len()
                            ==> (#[trigger] final(self).sources@[s]).targets@.len() == old(
                            self,
                        ).sources@[s].targets@.len() && final(self).sources@[s].inputs == old(
                            self,
                        ).sources@[s].inputs
                    &&& forall|s: int, t: int|
                        valid_pos(old(self).sources@, s, t) ==> target_mappings_applied(
                            old(self).sources@[s].targets@[t],
                            #[trigger] final(self).sources@[s].targets@[t],
                            ms.mappings@,
                        )
                },
                Option::None => final(self).sources == old(self).sources,
            },
    {
        match &mappings {
            Some(mapping_list) => {
                let n = self.sources.len();
                let mut s: usize = 0;
                while s < n
                    invariant
                        s <= n,
                        n == self.sources@.len(),
                        n == old(self).sources@.len(),
                        mappings is Some,
                        *mapping_list == mappings->Some_0,
                        forall|k: int|
                            s <= k < n ==> #[trigger] self.sources@[k] == old(self).sources@[k],
                        forall|k: int|
                            0 <= k < s ==> (#[trigger] self.sources@[k]).targets@.len() == old(
                                self,
                            ).sources@[k].targets@.len() && self.sources@[k].inputs == old(
                                self,
                            ).sources@[k].inputs,
                        forall|k: int, t: int|
                            0 <= k < s && 0 <= t < old(self).sources@[k].targets@.len()
                                ==> target_mappings_applied(
                                old(self).sources@[k].targets@[t],
                                #[trigger] self.sources@[k].targets@[t],
                                mapping_list.mappings@,
                            ),
                    decreases n - s,
                {
                    let tn = self.sources[s].targets.len();
                    let mut t: usize = 0;
                    while t < tn
                        invariant
                            t <= tn,
                            s < n,
                            n == self.sources@.len(),
                            n == old(self).sources@.len(),
                            mappings is Some,
                            *mapping_list == mappings->Some_0,
                            tn == self.sources@[s as int].targets@.len(),
                            tn == old(self).sources@[s as int].targets@.len(),
                            self.sources@[s as int].inputs == old(
                                self,
                            ).sources@[s as int].inputs,
                            forall|k: int|
                                s < k < n ==> #[trigger] self.sources@[k] == old(
                                    self,
                                ).sources@[k],
                            forall|k: int|
                                0 <= k < s ==> (#[trigger] self.sources@[k]).targets@.len()
                                    == old(self).sources@[k].targets@.len()
                                    && self.sources@[k].inputs == old(self).sources@[k].inputs,
                            forall|k: int, u: int|
                                0 <= k < s && 0 <= u < old(self).sources@[k].targets@.len()
                                    ==> target_mappings_applied(
                                    old(self).sources@[k].targets@[u],
                                    #[trigger] self.sources@[k].targets@[u],
                                    mapping_list.mappings@,
                                ),
                            forall|u: int|
                                t <= u < tn ==> #[trigger] self.sources@[s as int].targets@[u]
                                    == old(self).sources@[s as int].targets@[u],
                            forall|u: int|
                                0 <= u < t ==> target_mappings_applied(
                                    old(self).sources@[s as int].targets@[u],
                                    #[trigger] self.sources@[s as int].targets@[u],
                                    mapping_list.mappings@,
                                ),
                        decreases tn - t,
                    {
                        apply_target_mappings(&mut self.sources[s].targets[t], mapping_list);
                        t += 1;
                    }
                    s += 1;
                }
            },
            None => {},
        }
        Ok(())
    }
}

} // verus!
