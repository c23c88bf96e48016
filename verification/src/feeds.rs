//! The subscribed-feed record and the per-feed refresh plan.
//!
//! A feed is created with its URL only; the cached-XML path, the display
//! title and the thumbnail path are filled in as refreshes and syncs make
//! them available. Refreshing writes the fetched document to the feed's
//! recorded cache path, or to the deterministic default `./shows/{id}.xml`
//! when none is recorded yet, in which case the chosen path must be
//! persisted back to the feed row.
use crate::text::{append_chars, append_str_chars, chars_to_string, spec_digits, u32_to_chars};
use vstd::prelude::*;
use vstd::string::*;

verus! {

/// One subscribed source.
#[derive(Debug, Clone)]
pub struct FeedMeta {
    pub id: i32,
    pub feed_url: String,
    pub xml_file_path: Option<String>,
    pub feed_title: Option<String>,
    pub image_file_path: Option<String>,
}

/// The mathematical value of a `FeedMeta`.
pub struct FeedMetaView {
    pub id: int,
    pub feed_url: Seq<char>,
    pub xml_file_path: Option<Seq<char>>,
    pub feed_title: Option<Seq<char>>,
    pub image_file_path: Option<Seq<char>>,
}

impl View for FeedMeta {
    type V = FeedMetaView;

    open spec fn view(&self) -> FeedMetaView {
        FeedMetaView {
            id: self.id as int,
            feed_url: self.feed_url@,
            xml_file_path: self.xml_file_path.deep_view(),
            feed_title: self.feed_title.deep_view(),
            image_file_path: self.image_file_path.deep_view(),
        }
    }
}

impl DeepView for FeedMeta {
    type V = FeedMetaView;

    open spec fn deep_view(&self) -> FeedMetaView {
        self.view()
    }
}

/// The default cache path for a feed's document: `./shows/{id}.xml`.
pub open spec fn spec_feed_xml_path(id: int) -> Seq<char>
    recommends
        id >= 0,
{
    "./shows/"@ + spec_digits(id) + ".xml"@
}

/// The deterministic cache path `./shows/{feed_id}.xml`.
pub fn feed_xml_path(feed_id: i32) -> (r: String)
    requires
        feed_id >= 0,
    ensures
        r@ == spec_feed_xml_path(feed_id as int),
{
    let mut v: Vec<char> = Vec::new();
    append_str_chars(&mut v, "./shows/");
    let digits = u32_to_chars(feed_id as u32);
    append_chars(&mut v, &digits);
    append_str_chars(&mut v, ".xml");
    chars_to_string(&v)
}

/// Where one refresh of a feed must write the fetched document, and
/// whether that path is new and must be persisted back to the feed row.
pub struct RefreshPlan {
    pub xml_path: String,
    pub record_path: bool,
}

/// The refresh plan for `feed`: reuse the recorded cache path when there
/// is one; otherwise write to `./shows/{id}.xml` and record that choice.
pub fn plan_feed_refresh(feed: &FeedMeta) -> (r: RefreshPlan)
    requires
        feed.id >= 0,
    ensures
        match feed@.xml_file_path {
            Some(p) => r.xml_path@ == p && !r.record_path,
            None => r.xml_path@ == spec_feed_xml_path(feed@.id) && r.record_path,
        },
{
    match &feed.xml_file_path {
        Some(p) => RefreshPlan { xml_path: p.clone(), record_path: false },
        None => RefreshPlan { xml_path: feed_xml_path(feed.id), record_path: true },
    }
}

} // verus!
