use vstd::prelude::*;

use crate::text_util::opt_string_view;

verus! {

/// Which of the three upstream endpoints a stream came from.
#[derive(Debug, Clone, Copy, PartialEq, Eq, Structural)]
pub enum XtreamCluster {
    Live,
    Video,
    Series,
}

/// The finer downstream-facing tag of one playlist entry. `SeriesInfo`
/// marks a series placeholder whose episodes have not been resolved
/// yet; `Series` marks a resolved episode.
#[derive(Debug, Clone, Copy, PartialEq, Eq, Structural)]
pub enum PlaylistItemType {
    Live,
    Movie,
    Series,
    SeriesInfo,
}

/// The typed value of one additional property taken over from the
/// upstream record. Numeric values keep their decimal rendering, so no
/// floating point runs through the model.
#[derive(Debug, Clone, PartialEq)]
pub enum PropertyValue {
    Text(String),
    Num(String),
    Int(i64),
    List(Vec<String>),
}

/// The spec-level shape of a `PropertyValue`.
#[verifier::ext_equal]
pub enum PropertyValueView {
    Text(Seq<char>),
    Num(Seq<char>),
    Int(int),
    List(Seq<Seq<char>>),
}

pub open spec fn property_value_view(v: PropertyValue) -> PropertyValueView {
    match v {
        PropertyValue::Text(s) => PropertyValueView::Text(s@),
        PropertyValue::Num(s) => PropertyValueView::Num(s@),
        PropertyValue::Int(i) => PropertyValueView::Int(i as int),
        PropertyValue::List(l) => PropertyValueView::List(
            Seq::new(l@.len(), |i: int| l@[i]@),
        ),
    }
}

/// The spec-level shape of a property list, one `(name, value)` view
/// per entry, defined by recursion on the last entry so that pushes
/// unfold directly.
pub open spec fn props_view(ps: Seq<(String, PropertyValue)>) -> Seq<(Seq<char>, PropertyValueView)>
    decreases ps.len(),
{
    if ps.len() == 0 {
        Seq::empty()
    } else {
        props_view(ps.subrange(0, ps.len() - 1)).push(
            (ps[ps.len() - 1].0@, property_value_view(ps[ps.len() - 1].1)),
        )
    }
}

/// One playable entry's mutable record. Interned upstream strings are
/// modeled as owned values; mutation happens through explicit state
/// transitions on the owning item.
#[derive(Debug, Clone, PartialEq)]
pub struct PlaylistItemHeader {
    pub id: String,
    pub name: String,
    pub logo: String,
    pub logo_small: String,
    pub group: String,
    pub title: String,
    pub parent_code: String,
    pub audio_track: String,
    pub time_shift: String,
    pub rec: String,
    pub source: String,
    pub url: String,
    pub epg_channel_id: Option<String>,
    pub xtream_cluster: XtreamCluster,
    pub item_type: PlaylistItemType,
    pub series_fetched: bool,
    pub additional_properties: Option<Vec<(String, PropertyValue)>>,
}

/// One playable entry.
#[derive(Debug, Clone, PartialEq)]
pub struct PlaylistItem {
    pub header: PlaylistItemHeader,
}

/// One output category with its ordered entries.
#[derive(Debug, Clone, PartialEq)]
pub struct PlaylistGroup {
    pub id: i32,
    pub title: String,
    pub xtream_cluster: XtreamCluster,
    pub channels: Vec<PlaylistItem>,
}

/// Every item of a group carries the group's own cluster tag.
pub open spec fn group_well_formed(g: PlaylistGroup) -> bool {
    forall|i: int|
        0 <= i < g.channels@.len() ==> (#[trigger] g.channels@[i]).header.xtream_cluster
            == g.xtream_cluster
}

pub open spec fn opt_props_view(o: Option<Vec<(String, PropertyValue)>>) -> Option<
    Seq<(Seq<char>, PropertyValueView)>,
> {
    match o {
        Option::Some(v) => Option::Some(props_view(v@)),
        Option::None => Option::None,
    }
}

/// Two headers that carry the same content, compared at the level of
/// views: what two normalization passes over one payload must agree on.
pub open spec fn header_view_eq(a: PlaylistItemHeader, b: PlaylistItemHeader) -> bool {
    &&& a.id@ == b.id@
    &&& a.name@ == b.name@
    &&& a.logo@ == b.logo@
    &&& a.logo_small@ == b.logo_small@
    &&& a.group@ == b.group@
    &&& a.title@ == b.title@
    &&& a.parent_code@ == b.parent_code@
    &&& a.audio_track@ == b.audio_track@
    &&& a.time_shift@ == b.time_shift@
    &&& a.rec@ == b.rec@
    &&& a.source@ == b.source@
    &&& a.url@ == b.url@
    &&& opt_string_view(a.epg_channel_id) == opt_string_view(b.epg_channel_id)
    &&& a.xtream_cluster == b.xtream_cluster
    &&& a.item_type == b.item_type
    &&& a.series_fetched == b.series_fetched
    &&& opt_props_view(a.additional_properties) == opt_props_view(b.additional_properties)
}

pub open spec fn item_view_eq(a: PlaylistItem, b: PlaylistItem) -> bool {
    header_view_eq(a.header, b.header)
}

/// Two groups with the same content; only the pass-local numeric id may
/// differ.
pub open spec fn group_view_eq_except_id(a: PlaylistGroup, b: PlaylistGroup) -> bool {
    &&& a.title@ == b.title@
    &&& a.xtream_cluster == b.xtream_cluster
    &&& a.channels@.len() == b.channels@.len()
    &&& forall|i: int|
        0 <= i < a.channels@.len() ==> item_view_eq(
            #[trigger] a.channels@[i],
            b.channels@[i],
        )
}

impl PlaylistItem {
    /// The explicit state transition that marks a series placeholder as
    /// resolved once its episodes have been fetched.
    pub fn mark_series_fetched(&mut self)
        ensures
            final(self).header.series_fetched == true,
            final(self).header.item_type == PlaylistItemType::Series,
            final(self).header.id == old(self).header.id,
            final(self).header.name == old(self).header.name,
            final(self).header.logo == old(self).header.logo,
            final(self).header.logo_small == old(self).header.logo_small,
            final(self).header.group == old(self).header.group,
            final(self).header.title == old(self).header.title,
            final(self).header.parent_code == old(self).header.parent_code,
            final(self).header.audio_track == old(self).header.audio_track,
            final(self).header.time_shift == old(self).header.time_shift,
            final(self).header.rec == old(self).header.rec,
            final(self).header.source == old(self).header.source,
            final(self).header.url == old(self).header.url,
            final(self).header.epg_channel_id == old(self).header.epg_channel_id,
            final(self).header.xtream_cluster == old(self).header.xtream_cluster,
            final(self).header.additional_properties == old(
                self,
            ).header.additional_properties,
    {
        self.header.series_fetched = true;
        self.header.item_type = PlaylistItemType::Series;
    }
}

} // verus!
