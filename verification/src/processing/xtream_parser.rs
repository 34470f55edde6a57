use vstd::prelude::*;

use crate::m3u_filter_error::{M3uFilterError, M3uFilterErrorKind};
use crate::model::model_m3u::{
    group_view_eq_except_id, group_well_formed, header_view_eq, item_view_eq, opt_props_view,
    props_view, PlaylistGroup, PlaylistItem, PlaylistItemHeader, PlaylistItemType, PropertyValue,
    PropertyValueView, XtreamCluster,
};
use crate::processing::raw_json::{
    field_i32, field_i32_spec, field_num_text, field_num_text_spec, field_opt_string,
    field_opt_string_spec, field_string, field_string_array, field_string_array_spec,
    field_string_spec, rec_get, JsonField, JsonPayload, JsonRecord, SeriesInfoPayload,
};
use crate::text_util::{i32_to_string, int_str, opt_string_view, str_equal, strings_view};

verus! {

pub fn default_as_empty_list() -> (r: Vec<PlaylistItem>)
    ensures
        r@.len() == 0,
{
    vec![]
}

/// One upstream category record while streams are attached to it.
#[derive(Debug, Clone, PartialEq)]
pub struct XtreamCategory {
    pub category_id: String,
    pub category_name: String,
    pub channels: Vec<PlaylistItem>,
}

impl XtreamCategory {
    pub fn add(&mut self, item: PlaylistItem)
        ensures
            final(self).channels@ == old(self).channels@.push(item),
            final(self).category_id == old(self).category_id,
            final(self).category_name == old(self).category_name,
    {
        self.channels.push(item);
    }
}

/// One upstream stream record; every descriptive field is tolerated to
/// be absent. Numeric ratings keep their decimal rendering.
#[derive(Debug, Clone, PartialEq)]
pub struct XtreamStream {
    pub name: String,
    pub category_id: String,
    pub stream_id: Option<i32>,
    pub series_id: Option<i32>,
    pub stream_icon: String,
    pub direct_source: String,
    pub backdrop_path: Option<Vec<String>>,
    pub added: Option<String>,
    pub cast: Option<String>,
    pub container_extension: Option<String>,
    pub cover: Option<String>,
    pub director: Option<String>,
    pub episode_run_time: Option<String>,
    pub genre: Option<String>,
    pub last_modified: Option<String>,
    pub plot: Option<String>,
    pub rating: Option<String>,
    pub rating_5based: Option<String>,
    pub release_date: Option<String>,
    pub stream_type: Option<String>,
    pub title: Option<String>,
    pub year: Option<String>,
    pub youtube_trailer: Option<String>,
    pub epg_channel_id: Option<String>,
    pub tv_archive: Option<i32>,
    pub tv_archive_duration: Option<i32>,
}

/// The stable id derived for a stream: its own id first, the series id
/// as fallback, the empty string when both are absent.
pub open spec fn stream_id_str(s: XtreamStream) -> Seq<char> {
    match s.stream_id {
        Option::Some(v) => int_str(v as int),
        Option::None => match s.series_id {
            Option::Some(v) => int_str(v as int),
            Option::None => Seq::empty(),
        },
    }
}

impl XtreamStream {
    pub fn get_stream_id(&self) -> (r: String)
        ensures
            r@ == stream_id_str(*self),
    {
        match self.stream_id {
            Some(sid) => i32_to_string(sid),
            None => match self.series_id {
                Some(seid) => i32_to_string(seid),
                None => String::new(),
            },
        }
    }
}

// ---------------------------------------------------------------------------
// Decoding records
// ---------------------------------------------------------------------------

/// A category record decodes when both of its mandatory fields are
/// present.
pub open spec fn category_record_ok(rec: Seq<(String, JsonField)>) -> bool {
    &&& rec_get(rec, "category_id"@) is Some
    &&& rec_get(rec, "category_name"@) is Some
}

pub open spec fn category_from_record(c: XtreamCategory, rec: Seq<(String, JsonField)>) -> bool {
    &&& c.category_id@ == field_string_spec(rec, "category_id"@)
    &&& c.category_name@ == field_string_spec(rec, "category_name"@)
    &&& c.channels@.len() == 0
}

fn decode_category(rec: &JsonRecord) -> (r: Result<XtreamCategory, ()>)
    ensures
        match r {
            Result::Ok(c) => category_record_ok(rec.fields@) && category_from_record(
                c,
                rec.fields@,
            ),
            Result::Err(e) => !category_record_ok(rec.fields@),
        },
{
    match crate::processing::raw_json::get_field(rec, "category_id") {
        None => Err(()),
        Some(_) => match crate::processing::raw_json::get_field(rec, "category_name") {
            None => Err(()),
            Some(_) => Ok(
                XtreamCategory {
                    category_id: field_string(rec, "category_id"),
                    category_name: field_string(rec, "category_name"),
                    channels: Vec::new(),
                },
            ),
        },
    }
}

/// A stream record decodes when none of its numeric fields is of an
/// impossible shape.
pub open spec fn stream_record_ok(rec: Seq<(String, JsonField)>) -> bool {
    &&& field_i32_spec(rec, "stream_id"@) is Ok
    &&& field_i32_spec(rec, "series_id"@) is Ok
    &&& field_num_text_spec(rec, "rating"@) is Ok
    &&& field_num_text_spec(rec, "rating_5based"@) is Ok
    &&& field_i32_spec(rec, "tv_archive"@) is Ok
    &&& field_i32_spec(rec, "tv_archive_duration"@) is Ok
}

pub open spec fn opt_strings_view(o: Option<Vec<String>>) -> Option<Seq<Seq<char>>> {
    match o {
        Option::Some(v) => Option::Some(strings_view(v@)),
        Option::None => Option::None,
    }
}

pub open spec fn stream_from_record(s: XtreamStream, rec: Seq<(String, JsonField)>) -> bool {
    &&& s.name@ == field_string_spec(rec, "name"@)
    &&& s.category_id@ == field_string_spec(rec, "category_id"@)
    &&& field_i32_spec(rec, "stream_id"@) == Result::Ok::<Option<i32>, ()>(s.stream_id)
    &&& field_i32_spec(rec, "series_id"@) == Result::Ok::<Option<i32>, ()>(s.series_id)
    &&& s.stream_icon@ == field_string_spec(rec, "stream_icon"@)
    &&& s.direct_source@ == field_string_spec(rec, "direct_source"@)
    &&& opt_strings_view(s.backdrop_path) == field_string_array_spec(rec, "backdrop_path"@)
    &&& opt_string_view(s.added) == field_opt_string_spec(rec, "added"@)
    &&& opt_string_view(s.cast) == field_opt_string_spec(rec, "cast"@)
    &&& opt_string_view(s.container_extension) == field_opt_string_spec(
        rec,
        "container_extension"@,
    )
    &&& opt_string_view(s.cover) == field_opt_string_spec(rec, "cover"@)
    &&& opt_string_view(s.director) == field_opt_string_spec(rec, "director"@)
    &&& opt_string_view(s.episode_run_time) == field_opt_string_spec(rec, "episode_run_time"@)
    &&& opt_string_view(s.genre) == field_opt_string_spec(rec, "genre"@)
    &&& opt_string_view(s.last_modified) == field_opt_string_spec(rec, "last_modified"@)
    &&& opt_string_view(s.plot) == field_opt_string_spec(rec, "plot"@)
    &&& field_num_text_spec(rec, "rating"@) == Result::Ok::<Option<Seq<char>>, ()>(
        opt_string_view(s.rating),
    )
    &&& field_num_text_spec(rec, "rating_5based"@) == Result::Ok::<Option<Seq<char>>, ()>(
        opt_string_view(s.rating_5based),
    )
    &&& opt_string_view(s.release_date) == field_opt_string_spec(rec, "release_date"@)
    &&& opt_string_view(s.stream_type) == field_opt_string_spec(rec, "stream_type"@)
    &&& opt_string_view(s.title) == field_opt_string_spec(rec, "title"@)
    &&& opt_string_view(s.year) == field_opt_string_spec(rec, "year"@)
    &&& opt_string_view(s.youtube_trailer) == field_opt_string_spec(rec, "youtube_trailer"@)
    &&& opt_string_view(s.epg_channel_id) == field_opt_string_spec(rec, "epg_channel_id"@)
    &&& field_i32_spec(rec, "tv_archive"@) == Result::Ok::<Option<i32>, ()>(s.tv_archive)
    &&& field_i32_spec(rec, "tv_archive_duration"@) == Result::Ok::<Option<i32>, ()>(
        s.tv_archive_duration,
    )
}

fn decode_stream(rec: &JsonRecord) -> (r: Result<XtreamStream, ()>)
    ensures
        match r {
            Result::Ok(s) => stream_record_ok(rec.fields@) && stream_from_record(s, rec.fields@),
            Result::Err(e) => !stream_record_ok(rec.fields@),
        },
{
    let stream_id = match field_i32(rec, "stream_id") {
        Ok(v) => v,
        Err(()) => {
            return Err(());
        },
    };
    let series_id = match field_i32(rec, "series_id") {
        Ok(v) => v,
        Err(()) => {
            return Err(());
        },
    };
    let rating = match field_num_text(rec, "rating") {
        Ok(v) => v,
        Err(()) => {
            return Err(());
        },
    };
    let rating_5based = match field_num_text(rec, "rating_5based") {
        Ok(v) => v,
        Err(()) => {
            return Err(());
        },
    };
    let tv_archive = match field_i32(rec, "tv_archive") {
        Ok(v) => v,
        Err(()) => {
            return Err(());
        },
    };
    let tv_archive_duration = match field_i32(rec, "tv_archive_duration") {
        Ok(v) => v,
        Err(()) => {
            return Err(());
        },
    };
    Ok(
        XtreamStream {
            name: field_string(rec, "name"),
            category_id: field_string(rec, "category_id"),
            stream_id,
            series_id,
            stream_icon: field_string(rec, "stream_icon"),
            direct_source: field_string(rec, "direct_source"),
            backdrop_path: field_string_array(rec, "backdrop_path"),
            added: field_opt_string(rec, "added"),
            cast: field_opt_string(rec, "cast"),
            container_extension: field_opt_string(rec, "container_extension"),
            cover: field_opt_string(rec, "cover"),
            director: field_opt_string(rec, "director"),
            episode_run_time: field_opt_string(rec, "episode_run_time"),
            genre: field_opt_string(rec, "genre"),
            last_modified: field_opt_string(rec, "last_modified"),
            plot: field_opt_string(rec, "plot"),
            rating,
            rating_5based,
            release_date: field_opt_string(rec, "release_date"),
            stream_type: field_opt_string(rec, "stream_type"),
            title: field_opt_string(rec, "title"),
            year: field_opt_string(rec, "year"),
            youtube_trailer: field_opt_string(rec, "youtube_trailer"),
            epg_channel_id: field_opt_string(rec, "epg_channel_id"),
            tv_archive,
            tv_archive_duration,
        },
    )
}

// ---------------------------------------------------------------------------
// Decoding payloads
// ---------------------------------------------------------------------------

/// Every record of a category payload has its mandatory fields.
pub open spec fn category_records_ok(rs: Seq<JsonRecord>) -> bool {
    forall|i: int| 0 <= i < rs.len() ==> category_record_ok(#[trigger] rs[i].fields@)
}

pub open spec fn category_records_decoded(rs: Seq<JsonRecord>, cs: Seq<XtreamCategory>) -> bool {
    cs.len() == rs.len() && forall|i: int|
        0 <= i < rs.len() ==> category_from_record(#[trigger] cs[i], rs[i].fields@)
}

/// A category payload decodes when it is an array of objects and every
/// record has its mandatory fields.
pub open spec fn categories_payload_ok(p: JsonPayload) -> bool {
    match p {
        JsonPayload::Records(rs) => category_records_ok(rs@),
        JsonPayload::Other => false,
    }
}

pub open spec fn categories_decoded(p: JsonPayload, cs: Seq<XtreamCategory>) -> bool {
    match p {
        JsonPayload::Records(rs) => category_records_decoded(rs@, cs),
        JsonPayload::Other => false,
    }
}

/// Every record of a stream payload has well-shaped numeric fields.
pub open spec fn stream_records_ok(rs: Seq<JsonRecord>) -> bool {
    forall|i: int| 0 <= i < rs.len() ==> stream_record_ok(#[trigger] rs[i].fields@)
}

pub open spec fn stream_records_decoded(rs: Seq<JsonRecord>, ss: Seq<XtreamStream>) -> bool {
    ss.len() == rs.len() && forall|i: int|
        0 <= i < rs.len() ==> stream_from_record(#[trigger] ss[i], rs[i].fields@)
}

pub open spec fn streams_payload_ok(p: JsonPayload) -> bool {
    match p {
        JsonPayload::Records(rs) => stream_records_ok(rs@),
        JsonPayload::Other => false,
    }
}

pub open spec fn streams_decoded(p: JsonPayload, ss: Seq<XtreamStream>) -> bool {
    match p {
        JsonPayload::Records(rs) => stream_records_decoded(rs@, ss),
        JsonPayload::Other => false,
    }
}

/// Decodes the category payload; a malformed payload is a recoverable,
/// notify-worthy error.
pub fn process_category(category: &JsonPayload) -> (r: Result<Vec<XtreamCategory>, M3uFilterError>)
    ensures
        match r {
            Result::Ok(cs) => categories_payload_ok(*category) && categories_decoded(
                *category,
                cs@,
            ),
            Result::Err(e) => !categories_payload_ok(*category) && e.kind
                == M3uFilterErrorKind::Notify,
        },
{
    match category {
        JsonPayload::Other => Err(
            M3uFilterError::new(
                M3uFilterErrorKind::Notify,
                String::from_str("Failed to process categories: payload is not a list of objects"),
            ),
        ),
        JsonPayload::Records(rs) => {
            let mut out: Vec<XtreamCategory> = Vec::new();
            let n = rs.len();
            let mut i: usize = 0;
            while i < n
                invariant
                    i <= n,
                    n == rs@.len(),
                    out@.len() == i,
                    *category == JsonPayload::Records(*rs),
                    forall|k: int|
                        0 <= k < i ==> category_record_ok(#[trigger] rs@[k].fields@)
                            && category_from_record(out@[k], rs@[k].fields@),
                decreases n - i,
            {
                match decode_category(&rs[i]) {
                    Ok(c) => {
                        out.push(c);
                    },
                    Err(()) => {
                        proof {
                            assert(*category == JsonPayload::Records(*rs));
                            assert(!category_record_ok(rs@[i as int].fields@));
                            assert(!category_records_ok(rs@));
                            assert(!categories_payload_ok(*category));
                        }
                        return Err(
                            M3uFilterError::new(
                                M3uFilterErrorKind::Notify,
                                String::from_str("Failed to process categories: malformed record"),
                            ),
                        );
                    },
                }
                i += 1;
            }
            Ok(out)
        },
    }
}

/// The cluster's name, for error reporting.
pub open spec fn cluster_str(c: XtreamCluster) -> Seq<char> {
    match c {
        XtreamCluster::Live => "live"@,
        XtreamCluster::Video => "video"@,
        XtreamCluster::Series => "series"@,
    }
}

fn cluster_name(c: &XtreamCluster) -> (r: &'static str)
    ensures
        r@ == cluster_str(*c),
{
    match c {
        XtreamCluster::Live => "live",
        XtreamCluster::Video => "video",
        XtreamCluster::Series => "series",
    }
}

fn stream_error(c: &XtreamCluster) -> (r: String) {
    let mut msg = String::from_str("Failed to process streams ");
    msg.append(cluster_name(c));
    msg
}

/// Decodes the stream payload under the same recoverable-error policy.
pub fn process_streams(xtream_cluster: &XtreamCluster, streams: &JsonPayload) -> (r: Result<
    Vec<XtreamStream>,
    M3uFilterError,
>)
    ensures
        match r {
            Result::Ok(ss) => streams_payload_ok(*streams) && streams_decoded(*streams, ss@),
            Result::Err(e) => !streams_payload_ok(*streams) && e.kind
                == M3uFilterErrorKind::Notify,
        },
{
    match streams {
        JsonPayload::Other => Err(
            M3uFilterError::new(M3uFilterErrorKind::Notify, stream_error(xtream_cluster)),
        ),
        JsonPayload::Records(rs) => {
            let mut out: Vec<XtreamStream> = Vec::new();
            let n = rs.len();
            let mut i: usize = 0;
            while i < n
                invariant
                    i <= n,
                    n == rs@.len(),
                    out@.len() == i,
                    *streams == JsonPayload::Records(*rs),
                    forall|k: int|
                        0 <= k < i ==> stream_record_ok(#[trigger] rs@[k].fields@)
                            && stream_from_record(out@[k], rs@[k].fields@),
                decreases n - i,
            {
                match decode_stream(&rs[i]) {
                    Ok(s) => {
                        out.push(s);
                    },
                    Err(()) => {
                        proof {
                            assert(*streams == JsonPayload::Records(*rs));
                            assert(!stream_record_ok(rs@[i as int].fields@));
                            assert(!stream_records_ok(rs@));
                            assert(!streams_payload_ok(*streams));
                        }
                        return Err(
                            M3uFilterError::new(
                                M3uFilterErrorKind::Notify,
                                stream_error(xtream_cluster),
                            ),
                        );
                    },
                }
                i += 1;
            }
            Ok(out)
        },
    }
}

// ---------------------------------------------------------------------------
// Additional properties
// ---------------------------------------------------------------------------

/// The property-list contribution of one optional text field.
pub open spec fn text_entry(name: Seq<char>, o: Option<String>) -> Seq<
    (Seq<char>, PropertyValueView),
> {
    match o {
        Option::Some(v) => seq![(name, PropertyValueView::Text(v@))],
        Option::None => Seq::empty(),
    }
}

/// The contribution of one optional numeric field, kept as rendering.
pub open spec fn num_entry(name: Seq<char>, o: Option<String>) -> Seq<
    (Seq<char>, PropertyValueView),
> {
    match o {
        Option::Some(v) => seq![(name, PropertyValueView::Num(v@))],
        Option::None => Seq::empty(),
    }
}

/// The contribution of one optional integer field.
pub open spec fn int_entry(name: Seq<char>, o: Option<i32>) -> Seq<
    (Seq<char>, PropertyValueView),
> {
    match o {
        Option::Some(v) => seq![(name, PropertyValueView::Int(v as int))],
        Option::None => Seq::empty(),
    }
}

/// The contribution of the backdrop list: its first entry alone, and
/// nothing when the list is absent or empty.
pub open spec fn backdrop_entry(o: Option<Vec<String>>) -> Seq<(Seq<char>, PropertyValueView)> {
    match o {
        Option::Some(b) => if b@.len() > 0 {
            seq![("backdrop_path"@, PropertyValueView::List(seq![b@[0]@]))]
        } else {
            Seq::empty()
        },
        Option::None => Seq::empty(),
    }
}

/// Every optional descriptive field present upstream, projected in a
/// fixed order; absent fields are left out entirely.
pub open spec fn expected_props(s: XtreamStream) -> Seq<(Seq<char>, PropertyValueView)> {
    backdrop_entry(s.backdrop_path) + text_entry("added"@, s.added) + text_entry("cast"@, s.cast)
        + text_entry("container_extension"@, s.container_extension) + text_entry(
        "cover"@,
        s.cover,
    ) + text_entry("director"@, s.director) + text_entry("episode_run_time"@, s.episode_run_time)
        + text_entry("genre"@, s.genre) + text_entry("last_modified"@, s.last_modified)
        + text_entry("plot"@, s.plot) + num_entry("rating"@, s.rating) + num_entry(
        "rating_5based"@,
        s.rating_5based,
    ) + text_entry("release_date"@, s.release_date) + text_entry("stream_type"@, s.stream_type)
        + text_entry("title"@, s.title) + text_entry("year"@, s.year) + text_entry(
        "youtube_trailer"@,
        s.youtube_trailer,
    ) + int_entry("tv_archive"@, s.tv_archive) + int_entry(
        "tv_archive_duration"@,
        s.tv_archive_duration,
    )
}

/// How a produced property list relates to its stream record: present
/// exactly when at least one optional field was, and then carrying the
/// projections in order.
pub open spec fn props_match(r: Option<Vec<(String, PropertyValue)>>, s: XtreamStream) -> bool {
    match r {
        Option::Some(v) => expected_props(s).len() > 0 && props_view(v@) == expected_props(s),
        Option::None => expected_props(s).len() == 0,
    }
}

fn push_text_prop(out: &mut Vec<(String, PropertyValue)>, name: &str, o: &Option<String>)
    ensures
        props_view(final(out)@) == props_view(old(out)@) + text_entry(name@, *o),
{
    match o {
        Some(v) => {
            out.push((String::from_str(name), PropertyValue::Text(v.clone())));
            proof {
                assert(out@.subrange(0, out@.len() - 1) =~= old(out)@);
                assert(props_view(out@) =~= props_view(old(out)@) + text_entry(name@, *o));
            }
        },
        None => {
            proof {
                assert(props_view(out@) =~= props_view(old(out)@) + text_entry(name@, *o));
            }
        },
    }
}

fn push_num_prop(out: &mut Vec<(String, PropertyValue)>, name: &str, o: &Option<String>)
    ensures
        props_view(final(out)@) == props_view(old(out)@) + num_entry(name@, *o),
{
    match o {
        Some(v) => {
            out.push((String::from_str(name), PropertyValue::Num(v.clone())));
            proof {
                assert(out@.subrange(0, out@.len() - 1) =~= old(out)@);
                assert(props_view(out@) =~= props_view(old(out)@) + num_entry(name@, *o));
            }
        },
        None => {
            proof {
                assert(props_view(out@) =~= props_view(old(out)@) + num_entry(name@, *o));
            }
        },
    }
}

fn push_int_prop(out: &mut Vec<(String, PropertyValue)>, name: &str, o: &Option<i32>)
    ensures
        props_view(final(out)@) == props_view(old(out)@) + int_entry(name@, *o),
{
    match o {
        Some(v) => {
            out.push((String::from_str(name), PropertyValue::Int(*v as i64)));
            proof {
                assert(out@.subrange(0, out@.len() - 1) =~= old(out)@);
                assert(props_view(out@) =~= props_view(old(out)@) + int_entry(name@, *o));
            }
        },
        None => {
            proof {
                assert(props_view(out@) =~= props_view(old(out)@) + int_entry(name@, *o));
            }
        },
    }
}

/// The length of a property list's view is the list's length.
pub proof fn lemma_props_view_len(ps: Seq<(String, PropertyValue)>)
    ensures
        props_view(ps).len() == ps.len(),
    decreases ps.len(),
{
    if ps.len() > 0 {
        lemma_props_view_len(ps.subrange(0, ps.len() - 1));
    }
}

impl XtreamStream {
    /// Collects the optional upstream fields that are present into
    /// uniform `(name, value)` pairs, `None` when there are none.
    pub fn get_additional_properties(&self) -> (r: Option<Vec<(String, PropertyValue)>>)
        ensures
            props_match(r, *self),
    {
        let mut result: Vec<(String, PropertyValue)> = Vec::new();
        proof {
            assert(props_view(result@) =~= Seq::<(Seq<char>, PropertyValueView)>::empty());
        }
        match &self.backdrop_path {
            Some(bdpath) => {
                if bdpath.len() > 0 {
                    let mut lst: Vec<String> = Vec::new();
                    lst.push(bdpath[0].clone());
                    result.push(
                        (String::from_str("backdrop_path"), PropertyValue::List(lst)),
                    );
                    proof {
                        assert(result@.subrange(0, result@.len() - 1) =~= Seq::<
                            (String, PropertyValue),
                        >::empty());
                        assert(Seq::new(lst@.len(), |i: int| lst@[i]@) =~= seq![
                            self.backdrop_path->Some_0@[0]@,
                        ]);
                        assert(props_view(result@) =~~= backdrop_entry(self.backdrop_path));
                    }
                } else {
                    proof {
                        assert(props_view(result@) =~= backdrop_entry(self.backdrop_path));
                    }
                }
            },
            None => {
                proof {
                    assert(props_view(result@) =~= backdrop_entry(self.backdrop_path));
                }
            },
        }
        push_text_prop(&mut result, "added", &self.added);
        push_text_prop(&mut result, "cast", &self.cast);
        push_text_prop(&mut result, "container_extension", &self.container_extension);
        push_text_prop(&mut result, "cover", &self.cover);
        push_text_prop(&mut result, "director", &self.director);
        push_text_prop(&mut result, "episode_run_time", &self.episode_run_time);
        push_text_prop(&mut result, "genre", &self.genre);
        push_text_prop(&mut result, "last_modified", &self.last_modified);
        push_text_prop(&mut result, "plot", &self.plot);
        push_num_prop(&mut result, "rating", &self.rating);
        push_num_prop(&mut result, "rating_5based", &self.rating_5based);
        push_text_prop(&mut result, "release_date", &self.release_date);
        push_text_prop(&mut result, "stream_type", &self.stream_type);
        push_text_prop(&mut result, "title", &self.title);
        push_text_prop(&mut result, "year", &self.year);
        push_text_prop(&mut result, "youtube_trailer", &self.youtube_trailer);
        push_int_prop(&mut result, "tv_archive", &self.tv_archive);
        push_int_prop(&mut result, "tv_archive_duration", &self.tv_archive_duration);
        proof {
            assert(props_view(result@) =~~= expected_props(*self));
            lemma_props_view_len(result@);
        }
        if result.is_empty() {
            None
        } else {
            Some(result)
        }
    }
}

// ---------------------------------------------------------------------------
// URL synthesis and item construction
// ---------------------------------------------------------------------------

/// The container extension used for a video item, `mp4` when the
/// upstream record omits one.
pub open spec fn container_ext(s: XtreamStream) -> Seq<char> {
    match s.container_extension {
        Option::Some(e) => e@,
        Option::None => "mp4"@,
    }
}

/// The playback URL of one item: the upstream direct source verbatim
/// when one is present, otherwise synthesized per cluster from the
/// upstream connection parameters.
pub open spec fn synth_url(
    cluster: XtreamCluster,
    base: Seq<char>,
    user: Seq<char>,
    pass: Seq<char>,
    s: XtreamStream,
) -> Seq<char> {
    if s.direct_source@.len() > 0 {
        s.direct_source@
    } else {
        match cluster {
            XtreamCluster::Live => base + "/live/"@ + user + "/"@ + pass + "/"@ + stream_id_str(s)
                + ".ts"@,
            XtreamCluster::Video => base + "/movie/"@ + user + "/"@ + pass + "/"@ + stream_id_str(
                s,
            ) + "."@ + container_ext(s),
            XtreamCluster::Series => base + "/player_api.php?username="@ + user + "&password="@
                + pass + "&action=get_series_info&series_id="@ + stream_id_str(s),
        }
    }
}

/// The item-type tag derived from the cluster alone.
pub open spec fn item_type_of(c: XtreamCluster) -> PlaylistItemType {
    match c {
        XtreamCluster::Live => PlaylistItemType::Live,
        XtreamCluster::Video => PlaylistItemType::Movie,
        XtreamCluster::Series => PlaylistItemType::SeriesInfo,
    }
}

fn make_url(
    cluster: XtreamCluster,
    base: &str,
    username: &str,
    password: &str,
    stream: &XtreamStream,
) -> (r: String)
    ensures
        r@ == synth_url(cluster, base@, username@, password@, *stream),
{
    if !stream.direct_source.as_str().is_empty() {
        stream.direct_source.clone()
    } else {
        match cluster {
            XtreamCluster::Live => {
                let mut u = String::from_str(base);
                u.append("/live/");
                u.append(username);
                u.append("/");
                u.append(password);
                u.append("/");
                let sid = stream.get_stream_id();
                u.append(sid.as_str());
                u.append(".ts");
                proof {
                    assert(u@ =~= synth_url(cluster, base@, username@, password@, *stream));
                }
                u
            },
            XtreamCluster::Video => {
                let mut u = String::from_str(base);
                u.append("/movie/");
                u.append(username);
                u.append("/");
                u.append(password);
                u.append("/");
                let sid = stream.get_stream_id();
                u.append(sid.as_str());
                u.append(".");
                match &stream.container_extension {
                    Some(e) => u.append(e.as_str()),
                    None => u.append("mp4"),
                }
                proof {
                    assert(u@ =~= synth_url(cluster, base@, username@, password@, *stream));
                }
                u
            },
            XtreamCluster::Series => {
                let mut u = String::from_str(base);
                u.append("/player_api.php?username=");
                u.append(username);
                u.append("&password=");
                u.append(password);
                u.append("&action=get_series_info&series_id=");
                let sid = stream.get_stream_id();
                u.append(sid.as_str());
                proof {
                    assert(u@ =~= synth_url(cluster, base@, username@, password@, *stream));
                }
                u
            },
        }
    }
}

fn item_type_from_cluster(c: XtreamCluster) -> (r: PlaylistItemType)
    ensures
        r == item_type_of(c),
{
    match c {
        XtreamCluster::Live => PlaylistItemType::Live,
        XtreamCluster::Video => PlaylistItemType::Movie,
        XtreamCluster::Series => PlaylistItemType::SeriesInfo,
    }
}

/// How a synthesized item header relates to the stream record it came
/// from and the group that holds it.
pub open spec fn header_from_stream(
    h: PlaylistItemHeader,
    s: XtreamStream,
    group_title: Seq<char>,
    cluster: XtreamCluster,
    base: Seq<char>,
    user: Seq<char>,
    pass: Seq<char>,
) -> bool {
    &&& h.id@ == stream_id_str(s)
    &&& h.name@ == s.name@
    &&& h.logo@ == s.stream_icon@
    &&& h.logo_small@.len() == 0
    &&& h.group@ == group_title
    &&& h.title@ == s.name@
    &&& h.parent_code@.len() == 0
    &&& h.audio_track@.len() == 0
    &&& h.time_shift@.len() == 0
    &&& h.rec@.len() == 0
    &&& h.source@.len() == 0
    &&& h.url@ == synth_url(cluster, base, user, pass, s)
    &&& opt_string_view(h.epg_channel_id) == opt_string_view(s.epg_channel_id)
    &&& h.xtream_cluster == cluster
    &&& h.item_type == item_type_of(cluster)
    &&& h.series_fetched == false
    &&& props_match(h.additional_properties, s)
}

fn build_header(
    stream: &XtreamStream,
    group_title: &String,
    cluster: XtreamCluster,
    base: &str,
    username: &str,
    password: &str,
) -> (r: PlaylistItemHeader)
    ensures
        header_from_stream(r, *stream, group_title@, cluster, base@, username@, password@),
{
    PlaylistItemHeader {
        id: stream.get_stream_id(),
        name: stream.name.clone(),
        logo: stream.stream_icon.clone(),
        logo_small: String::new(),
        group: group_title.clone(),
        title: stream.name.clone(),
        parent_code: String::new(),
        audio_track: String::new(),
        time_shift: String::new(),
        rec: String::new(),
        source: String::new(),
        url: make_url(cluster, base, username, password, stream),
        epg_channel_id: match &stream.epg_channel_id {
            Some(s) => Some(s.clone()),
            None => None,
        },
        xtream_cluster: cluster,
        item_type: item_type_from_cluster(cluster),
        series_fetched: false,
        additional_properties: stream.get_additional_properties(),
    }
}

// ---------------------------------------------------------------------------
// Attaching streams to categories
// ---------------------------------------------------------------------------

/// The index of the first category with the given id, `-1` when none
/// matches.
pub open spec fn cat_index(cats: Seq<XtreamCategory>, cid: Seq<char>) -> int
    decreases cats.len(),
{
    if cats.len() == 0 {
        -1
    } else if cats[0].category_id@ == cid {
        0
    } else {
        let r = cat_index(cats.subrange(1, cats.len() as int), cid);
        if r < 0 {
            -1
        } else {
            1 + r
        }
    }
}

/// Shifts a match found after skipping `base` categories back to an
/// absolute index.
pub open spec fn shift_index(base: int, r: int) -> int {
    if r >= 0 {
        base + r
    } else {
        -1
    }
}

fn find_category(cats: &Vec<XtreamCategory>, cid: &str) -> (r: Option<usize>)
    ensures
        match r {
            Option::Some(i) => 0 <= i < cats@.len() && cat_index(cats@, cid@) == i as int,
            Option::None => cat_index(cats@, cid@) == -1,
        },
{
    let n = cats.len();
    let mut i: usize = 0;
    proof {
        assert(cats@.subrange(0, n as int) =~= cats@);
    }
    while i < n
        invariant
            i <= n,
            n == cats@.len(),
            cat_index(cats@, cid@) == shift_index(
                i as int,
                cat_index(cats@.subrange(i as int, n as int), cid@),
            ),
        decreases n - i,
    {
        proof {
            let rest = cats@.subrange(i as int, n as int);
            assert(rest.subrange(1, rest.len() as int) =~= cats@.subrange(i + 1, n as int));
        }
        if str_equal(cats[i].category_id.as_str(), cid) {
            return Some(i);
        }
        i += 1;
    }
    None
}

/// The streams attached to category `i`: those whose category id first
/// matches there, in upstream order.
pub open spec fn matched_streams(
    strs: Seq<XtreamStream>,
    cats: Seq<XtreamCategory>,
    i: int,
) -> Seq<XtreamStream>
    decreases strs.len(),
{
    if strs.len() == 0 {
        Seq::empty()
    } else {
        let pre = matched_streams(strs.subrange(0, strs.len() - 1), cats, i);
        if cat_index(cats, strs[strs.len() - 1].category_id@) == i {
            pre.push(strs[strs.len() - 1])
        } else {
            pre
        }
    }
}

/// A channel list that carries exactly the items synthesized from the
/// given streams, in order.
pub open spec fn channels_match(
    channels: Seq<PlaylistItem>,
    ms: Seq<XtreamStream>,
    title: Seq<char>,
    cluster: XtreamCluster,
    base: Seq<char>,
    user: Seq<char>,
    pass: Seq<char>,
) -> bool {
    &&& channels.len() == ms.len()
    &&& forall|j: int|
        0 <= j < channels.len() ==> header_from_stream(
            (#[trigger] channels[j]).header,
            ms[j],
            title,
            cluster,
            base,
            user,
            pass,
        )
}

pub open spec fn group_matches(
    g: PlaylistGroup,
    cats: Seq<XtreamCategory>,
    strs: Seq<XtreamStream>,
    cluster: XtreamCluster,
    base: Seq<char>,
    user: Seq<char>,
    pass: Seq<char>,
    start: int,
    i: int,
) -> bool {
    &&& g.id == start + 1 + i
    &&& g.title@ == cats[i].category_name@
    &&& g.xtream_cluster == cluster
    &&& channels_match(
        g.channels@,
        matched_streams(strs, cats, i),
        cats[i].category_name@,
        cluster,
        base,
        user,
        pass,
    )
}

/// What one normalization pass produces: one group per category in
/// order (empty categories included), ids assigned from a fresh
/// counter, and every attached stream synthesized per the URL and
/// tagging policy.
pub open spec fn normalized(
    cats: Seq<XtreamCategory>,
    strs: Seq<XtreamStream>,
    cluster: XtreamCluster,
    base: Seq<char>,
    user: Seq<char>,
    pass: Seq<char>,
    start: int,
    groups: Seq<PlaylistGroup>,
) -> bool {
    &&& groups.len() == cats.len()
    &&& forall|i: int|
        0 <= i < groups.len() ==> group_matches(
            #[trigger] groups[i],
            cats,
            strs,
            cluster,
            base,
            user,
            pass,
            start,
            i,
        )
}

/// Builds the output groups from decoded records; the counter assigns
/// each group's id.
pub fn build_groups(
    cat_id_cnt: &mut i32,
    cluster: XtreamCluster,
    categories: &Vec<XtreamCategory>,
    streams: &Vec<XtreamStream>,
    base: &str,
    username: &str,
    password: &str,
) -> (r: Vec<PlaylistGroup>)
    requires
        *old(cat_id_cnt) + categories@.len() <= i32::MAX,
    ensures
        *final(cat_id_cnt) == *old(cat_id_cnt) + categories@.len(),
        normalized(
            categories@,
            streams@,
            cluster,
            base@,
            username@,
            password@,
            *old(cat_id_cnt) as int,
            r@,
        ),
        forall|i: int| 0 <= i < r@.len() ==> group_well_formed(#[trigger] r@[i]),
{
    let mut groups: Vec<PlaylistGroup> = Vec::new();
    let ncats = categories.len();
    let nstr = streams.len();
    let mut i: usize = 0;
    while i < ncats
        invariant
            i <= ncats,
            ncats == categories@.len(),
            nstr == streams@.len(),
            *old(cat_id_cnt) + ncats <= i32::MAX,
            *cat_id_cnt as int == *old(cat_id_cnt) + i,
            groups@.len() == i,
            forall|k: int|
                0 <= k < i ==> group_matches(
                    #[trigger] groups@[k],
                    categories@,
                    streams@,
                    cluster,
                    base@,
                    username@,
                    password@,
                    *old(cat_id_cnt) as int,
                    k,
                ),
            forall|k: int| 0 <= k < i ==> group_well_formed(#[trigger] groups@[k]),
        decreases ncats - i,
    {
        let mut channels: Vec<PlaylistItem> = Vec::new();
        let mut j: usize = 0;
        proof {
            assert(streams@.subrange(0, 0) =~= Seq::<XtreamStream>::empty());
        }
        while j < nstr
            invariant
                j <= nstr,
                i < ncats,
                ncats == categories@.len(),
                nstr == streams@.len(),
                channels_match(
                    channels@,
                    matched_streams(streams@.subrange(0, j as int), categories@, i as int),
                    categories@[i as int].category_name@,
                    cluster,
                    base@,
                    username@,
                    password@,
                ),
            decreases nstr - j,
        {
            proof {
                assert(streams@.subrange(0, j + 1).subrange(0, j as int) =~= streams@.subrange(
                    0,
                    j as int,
                ));
                assert(streams@.subrange(0, j + 1)[j as int] == streams@[j as int]);
            }
            let is_match = match find_category(categories, streams[j].category_id.as_str()) {
                Some(idx) => idx == i,
                None => false,
            };
            if is_match {
                let item = PlaylistItem {
                    header: build_header(
                        &streams[j],
                        &categories[i].category_name,
                        cluster,
                        base,
                        username,
                        password,
                    ),
                };
                channels.push(item);
            }
            j += 1;
        }
        proof {
            assert(streams@.subrange(0, nstr as int) =~= streams@);
        }
        *cat_id_cnt = *cat_id_cnt + 1;
        let g = PlaylistGroup {
            id: *cat_id_cnt,
            title: categories[i].category_name.clone(),
            xtream_cluster: cluster,
            channels,
        };
        proof {
            assert(group_well_formed(g)) by {
                assert forall|k: int|
                    0 <= k < g.channels@.len() implies (#[trigger] g.channels@[k]).header.xtream_cluster
                    == g.xtream_cluster by {
                    assert(header_from_stream(
                        g.channels@[k].header,
                        matched_streams(streams@, categories@, i as int)[k],
                        categories@[i as int].category_name@,
                        cluster,
                        base@,
                        username@,
                        password@,
                    ));
                }
            }
        }
        groups.push(g);
        i += 1;
    }
    groups
}


// ---------------------------------------------------------------------------
// Series episodes
// ---------------------------------------------------------------------------

/// All episode records of a series-info payload, season order first,
/// in-season order second.
pub open spec fn episodes_flat(seasons: Seq<(String, Vec<JsonRecord>)>) -> Seq<JsonRecord>
    decreases seasons.len(),
{
    if seasons.len() == 0 {
        Seq::empty()
    } else {
        episodes_flat(seasons.subrange(0, seasons.len() - 1)) + seasons[seasons.len() - 1].1@
    }
}

/// The container extension of an episode, `mp4` when absent.
pub open spec fn episode_ext(rec: Seq<(String, JsonField)>) -> Seq<char> {
    match field_opt_string_spec(rec, "container_extension"@) {
        Option::Some(e) => e,
        Option::None => "mp4"@,
    }
}

/// The playback URL of one episode: its direct source verbatim when
/// present, otherwise the series endpoint of the upstream input.
pub open spec fn episode_url(
    base: Seq<char>,
    user: Seq<char>,
    pass: Seq<char>,
    rec: Seq<(String, JsonField)>,
) -> Seq<char> {
    if field_string_spec(rec, "direct_source"@).len() > 0 {
        field_string_spec(rec, "direct_source"@)
    } else {
        base + "/series/"@ + user + "/"@ + pass + "/"@ + field_string_spec(rec, "id"@) + "."@
            + episode_ext(rec)
    }
}

/// How one episode item relates to its record: a resolved series leaf
/// tagged `Series` in the `Series` cluster.
pub open spec fn episode_from_record(
    h: PlaylistItemHeader,
    rec: Seq<(String, JsonField)>,
    group_title: Seq<char>,
    base: Seq<char>,
    user: Seq<char>,
    pass: Seq<char>,
) -> bool {
    &&& h.id@ == field_string_spec(rec, "id"@)
    &&& h.name@ == field_string_spec(rec, "title"@)
    &&& h.logo@ == field_string_spec(rec, "movie_image"@)
    &&& h.logo_small@.len() == 0
    &&& h.group@ == group_title
    &&& h.title@ == field_string_spec(rec, "title"@)
    &&& h.parent_code@.len() == 0
    &&& h.audio_track@.len() == 0
    &&& h.time_shift@.len() == 0
    &&& h.rec@.len() == 0
    &&& h.source@.len() == 0
    &&& h.url@ == episode_url(base, user, pass, rec)
    &&& h.epg_channel_id is None
    &&& h.xtream_cluster == XtreamCluster::Series
    &&& h.item_type == PlaylistItemType::Series
    &&& h.series_fetched == false
    &&& h.additional_properties is None
}

pub open spec fn episode_items_match(
    items: Seq<PlaylistItem>,
    eps: Seq<JsonRecord>,
    group_title: Seq<char>,
    base: Seq<char>,
    user: Seq<char>,
    pass: Seq<char>,
) -> bool {
    &&& items.len() == eps.len()
    &&& forall|j: int|
        0 <= j < items.len() ==> episode_from_record(
            (#[trigger] items[j]).header,
            eps[j].fields@,
            group_title,
            base,
            user,
            pass,
        )
}

fn build_episode_header(
    rec: &JsonRecord,
    group_title: &str,
    base: &str,
    username: &str,
    password: &str,
) -> (r: PlaylistItemHeader)
    ensures
        episode_from_record(r, rec.fields@, group_title@, base@, username@, password@),
{
    let direct_source = field_string(rec, "direct_source");
    let id = field_string(rec, "id");
    let url = if !direct_source.as_str().is_empty() {
        direct_source.clone()
    } else {
        let mut u = String::from_str(base);
        u.append("/series/");
        u.append(username);
        u.append("/");
        u.append(password);
        u.append("/");
        u.append(id.as_str());
        u.append(".");
        match field_opt_string(rec, "container_extension") {
            Some(e) => u.append(e.as_str()),
            None => u.append("mp4"),
        }
        proof {
            assert(u@ =~= episode_url(base@, username@, password@, rec.fields@));
        }
        u
    };
    let title = field_string(rec, "title");
    PlaylistItemHeader {
        id,
        name: title.clone(),
        logo: field_string(rec, "movie_image"),
        logo_small: String::new(),
        group: String::from_str(group_title),
        title,
        parent_code: String::new(),
        audio_track: String::new(),
        time_shift: String::new(),
        rec: String::new(),
        source: String::new(),
        url,
        epg_channel_id: None,
        xtream_cluster: XtreamCluster::Series,
        item_type: PlaylistItemType::Series,
        series_fetched: false,
        additional_properties: None,
    }
}

/// Normalizes one raw series-info payload into episode items, one per
/// episode across all seasons in order; `None` when no episode
/// resulted, a notify-worthy error on a malformed payload.
pub fn parse_series_info(
    info: &SeriesInfoPayload,
    group_title: &str,
    url: &str,
    username: &str,
    password: &str,
) -> (r: Result<Option<Vec<PlaylistItem>>, M3uFilterError>)
    ensures
        match r {
            Result::Ok(o) => info is Seasons && match o {
                Option::Some(items) => episodes_flat(info->Seasons_0@).len() > 0
                    && episode_items_match(
                    items@,
                    episodes_flat(info->Seasons_0@),
                    group_title@,
                    url@,
                    username@,
                    password@,
                ),
                Option::None => episodes_flat(info->Seasons_0@).len() == 0,
            },
            Result::Err(e) => info is Other && e.kind == M3uFilterErrorKind::Notify,
        },
{
    match info {
        SeriesInfoPayload::Other => Err(
            M3uFilterError::new(
                M3uFilterErrorKind::Notify,
                String::from_str("Failed to process series info: payload is not a season map"),
            ),
        ),
        SeriesInfoPayload::Seasons(seasons) => {
            let mut items: Vec<PlaylistItem> = Vec::new();
            let n = seasons.len();
            let mut s: usize = 0;
            proof {
                assert(seasons@.subrange(0, 0) =~= Seq::<(String, Vec<JsonRecord>)>::empty());
                assert(items@ =~= Seq::<PlaylistItem>::empty());
            }
            while s < n
                invariant
                    s <= n,
                    n == seasons@.len(),
                    *info == SeriesInfoPayload::Seasons(*seasons),
                    episode_items_match(
                        items@,
                        episodes_flat(seasons@.subrange(0, s as int)),
                        group_title@,
                        url@,
                        username@,
                        password@,
                    ),
                decreases n - s,
            {
                proof {
                    assert(seasons@.subrange(0, s + 1).subrange(0, s as int) =~= seasons@.subrange(
                        0,
                        s as int,
                    ));
                    assert(seasons@.subrange(0, s + 1)[s as int] == seasons@[s as int]);
                }
                let eps = &seasons[s].1;
                let en = eps.len();
                let mut e: usize = 0;
                let ghost flat_before: Seq<JsonRecord> = episodes_flat(
                    seasons@.subrange(0, s as int),
                );
                while e < en
                    invariant
                        e <= en,
                        s < n,
                        n == seasons@.len(),
                        en == seasons@[s as int].1@.len(),
                        eps@ == seasons@[s as int].1@,
                        flat_before == episodes_flat(seasons@.subrange(0, s as int)),
                        episode_items_match(
                            items@,
                            flat_before + seasons@[s as int].1@.subrange(0, e as int),
                            group_title@,
                            url@,
                            username@,
                            password@,
                        ),
                    decreases en - e,
                {
                    proof {
                        let season = seasons@[s as int].1@;
                        assert(season.subrange(0, e + 1).subrange(0, e as int) =~= season.subrange(
                            0,
                            e as int,
                        ));
                        assert(season.subrange(0, e + 1)[e as int] == season[e as int]);
                    }
                    let item = PlaylistItem {
                        header: build_episode_header(&eps[e], group_title, url, username, password),
                    };
                    items.push(item);
                    proof {
                        let combined = flat_before + seasons@[s as int].1@.subrange(0, e + 1);
                        assert((flat_before + seasons@[s as int].1@.subrange(0, e as int)).push(
                            seasons@[s as int].1@[e as int],
                        ) =~= combined);
                    }
                    e += 1;
                }
                proof {
                    assert(seasons@[s as int].1@.subrange(0, en as int) =~= seasons@[s as int].1@);
                    assert(flat_before + seasons@[s as int].1@ =~= episodes_flat(
                        seasons@.subrange(0, s + 1),
                    ));
                }
                s += 1;
            }
            proof {
                assert(seasons@.subrange(0, n as int) =~= seasons@);
            }
            if items.is_empty() {
                Ok(None)
            } else {
                Ok(Some(items))
            }
        },
    }
}

// ---------------------------------------------------------------------------
// The normalization pass
// ---------------------------------------------------------------------------

/// How many records an upstream payload holds.
pub open spec fn payload_record_count(p: JsonPayload) -> int {
    match p {
        JsonPayload::Records(rs) => rs@.len() as int,
        JsonPayload::Other => 0,
    }
}

/// One normalization pass over one (input, cluster) pair: decodes the
/// category and stream payloads, attaches each stream to its category,
/// synthesizes headers and URLs, and emits one group per category with
/// fresh ids from the counter. A malformed payload is a recoverable,
/// notify-worthy error that leaves the counter untouched.
pub fn parse_xtream(
    cat_id_cnt: &mut i32,
    xtream_cluster: XtreamCluster,
    category: &JsonPayload,
    url: &str,
    username: &str,
    password: &str,
    streams: &JsonPayload,
) -> (r: Result<Option<Vec<PlaylistGroup>>, M3uFilterError>)
    requires
        *old(cat_id_cnt) + payload_record_count(*category) <= i32::MAX,
    ensures
        match r {
            Result::Ok(o) => categories_payload_ok(*category) && streams_payload_ok(*streams)
                && match o {
                Option::Some(groups) => exists|cs: Seq<XtreamCategory>, ss: Seq<XtreamStream>|
                    {
                        &&& #[trigger] categories_decoded(*category, cs)
                        &&& #[trigger] streams_decoded(*streams, ss)
                        &&& normalized(
                            cs,
                            ss,
                            xtream_cluster,
                            url@,
                            username@,
                            password@,
                            *old(cat_id_cnt) as int,
                            groups@,
                        )
                        &&& *final(cat_id_cnt) == *old(cat_id_cnt) + cs.len()
                    },
                Option::None => false,
            },
            Result::Err(e) => {
                &&& !categories_payload_ok(*category) || !streams_payload_ok(*streams)
                &&& e.kind == M3uFilterErrorKind::Notify
                &&& *final(cat_id_cnt) == *old(cat_id_cnt)
            },
        },
{
    let cats = match process_category(category) {
        Ok(c) => c,
        Err(err) => {
            return Err(err);
        },
    };
    let strs = match process_streams(&xtream_cluster, streams) {
        Ok(ss) => ss,
        Err(err) => {
            return Err(err);
        },
    };
    let groups = build_groups(
        cat_id_cnt,
        xtream_cluster,
        &cats,
        &strs,
        url,
        username,
        password,
    );
    proof {
        assert(categories_decoded(*category, cats@));
        assert(streams_decoded(*streams, strs@));
    }
    Ok(Some(groups))
}

// ---------------------------------------------------------------------------
// Laws of the normalization pass
// ---------------------------------------------------------------------------

/// Every stream attached to category `i` is one whose category id
/// first matches there.
pub proof fn lemma_matched_streams_membership(
    strs: Seq<XtreamStream>,
    cats: Seq<XtreamCategory>,
    i: int,
)
    ensures
        forall|j: int|
            0 <= j < matched_streams(strs, cats, i).len() ==> cat_index(
                cats,
                (#[trigger] matched_streams(strs, cats, i)[j]).category_id@,
            ) == i,
    decreases strs.len(),
{
    if strs.len() > 0 {
        let pre = strs.subrange(0, strs.len() - 1);
        lemma_matched_streams_membership(pre, cats, i);
        let ms = matched_streams(strs, cats, i);
        let msp = matched_streams(pre, cats, i);
        assert forall|j: int|
            0 <= j < ms.len() implies cat_index(
            cats,
            (#[trigger] ms[j]).category_id@,
        ) == i by {
            if j < msp.len() {
                assert(ms[j] == msp[j]);
            } else {
                assert(ms[j] == strs[strs.len() - 1]);
            }
        }
    }
}

/// A stream record whose category id matches no upstream category is
/// dropped: it is attached to none of the emitted groups.
pub proof fn lemma_unmatched_stream_dropped(
    cats: Seq<XtreamCategory>,
    strs: Seq<XtreamStream>,
    cluster: XtreamCluster,
    base: Seq<char>,
    user: Seq<char>,
    pass: Seq<char>,
    start: int,
    groups: Seq<PlaylistGroup>,
    k: int,
)
    requires
        normalized(cats, strs, cluster, base, user, pass, start, groups),
        0 <= k < strs.len(),
        cat_index(cats, strs[k].category_id@) == -1,
    ensures
        forall|i: int| 0 <= i < groups.len() ==> !matched_streams(strs, cats, i).contains(strs[k]),
        forall|i: int|
            0 <= i < groups.len() ==> (#[trigger] groups[i]).channels@.len() == matched_streams(
                strs,
                cats,
                i,
            ).len(),
{
    assert forall|i: int|
        0 <= i < groups.len() implies !matched_streams(strs, cats, i).contains(strs[k]) by {
        lemma_matched_streams_membership(strs, cats, i);
        if matched_streams(strs, cats, i).contains(strs[k]) {
            let j = choose|j: int|
                0 <= j < matched_streams(strs, cats, i).len() && matched_streams(strs, cats, i)[j]
                    == strs[k];
            assert(cat_index(cats, matched_streams(strs, cats, i)[j].category_id@) == i);
        }
    }
}

/// For all categories present upstream, an equal-cardinality set of
/// groups is emitted, categories with zero matched streams included.
pub proof fn lemma_group_per_category(
    cats: Seq<XtreamCategory>,
    strs: Seq<XtreamStream>,
    cluster: XtreamCluster,
    base: Seq<char>,
    user: Seq<char>,
    pass: Seq<char>,
    start: int,
    groups: Seq<PlaylistGroup>,
)
    requires
        normalized(cats, strs, cluster, base, user, pass, start, groups),
    ensures
        groups.len() == cats.len(),
        forall|i: int| 0 <= i < groups.len() ==> (#[trigger] groups[i]).title@ == cats[i].category_name@,
{
}

/// Two headers synthesized from the same stream under the same
/// connection parameters carry the same content.
proof fn lemma_header_from_stream_unique(
    h1: PlaylistItemHeader,
    h2: PlaylistItemHeader,
    s: XtreamStream,
    title: Seq<char>,
    cluster: XtreamCluster,
    base: Seq<char>,
    user: Seq<char>,
    pass: Seq<char>,
)
    requires
        header_from_stream(h1, s, title, cluster, base, user, pass),
        header_from_stream(h2, s, title, cluster, base, user, pass),
    ensures
        header_view_eq(h1, h2),
{
    assert(h1.logo_small@ =~= h2.logo_small@);
    assert(h1.parent_code@ =~= h2.parent_code@);
    assert(h1.audio_track@ =~= h2.audio_track@);
    assert(h1.time_shift@ =~= h2.time_shift@);
    assert(h1.rec@ =~= h2.rec@);
    assert(h1.source@ =~= h2.source@);
    if expected_props(s).len() > 0 {
        assert(h1.additional_properties is Some);
        assert(h2.additional_properties is Some);
    } else {
        assert(h1.additional_properties is None);
        assert(h2.additional_properties is None);
    }
}

/// Normalizing the same decoded records twice with fresh counters
/// yields the same groups and items except for the group id values,
/// which are pass-local.
pub proof fn lemma_normalize_idempotent(
    cats: Seq<XtreamCategory>,
    strs: Seq<XtreamStream>,
    cluster: XtreamCluster,
    base: Seq<char>,
    user: Seq<char>,
    pass: Seq<char>,
    start1: int,
    start2: int,
    groups1: Seq<PlaylistGroup>,
    groups2: Seq<PlaylistGroup>,
)
    requires
        normalized(cats, strs, cluster, base, user, pass, start1, groups1),
        normalized(cats, strs, cluster, base, user, pass, start2, groups2),
    ensures
        groups1.len() == groups2.len(),
        forall|i: int|
            0 <= i < groups1.len() ==> group_view_eq_except_id(
                #[trigger] groups1[i],
                groups2[i],
            ),
        forall|i: int| 0 <= i < groups1.len() ==> (#[trigger] groups1[i]).id == start1 + 1 + i,
        forall|i: int| 0 <= i < groups2.len() ==> (#[trigger] groups2[i]).id == start2 + 1 + i,
{
    assert forall|i: int|
        0 <= i < groups1.len() implies group_view_eq_except_id(
        #[trigger] groups1[i],
        groups2[i],
    ) by {
        let g1 = groups1[i];
        let g2 = groups2[i];
        let ms = matched_streams(strs, cats, i);
        let title = cats[i].category_name@;
        assert(group_matches(g1, cats, strs, cluster, base, user, pass, start1, i));
        assert(group_matches(g2, cats, strs, cluster, base, user, pass, start2, i));
        assert forall|j: int|
            0 <= j < g1.channels@.len() implies item_view_eq(
            #[trigger] g1.channels@[j],
            g2.channels@[j],
        ) by {
            assert(header_from_stream(
                g1.channels@[j].header,
                ms[j],
                title,
                cluster,
                base,
                user,
                pass,
            ));
            assert(header_from_stream(
                g2.channels@[j].header,
                ms[j],
                title,
                cluster,
                base,
                user,
                pass,
            ));
            lemma_header_from_stream_unique(
                g1.channels@[j].header,
                g2.channels@[j].header,
                ms[j],
                title,
                cluster,
                base,
                user,
                pass,
            );
        }
    }
}

} // verus!
