//! The feed parser: turns a feed document's tokenized events into channel
//! metadata and episode records.
//!
//! The document must tokenize and its tags must nest properly; otherwise
//! the whole parse fails, and the caller is expected to isolate that
//! failure per feed. Within a well-formed document, every `item` element
//! is read (not just the first): an item without a guid is skipped with a
//! warning, as is one without an enclosure URL; a missing title or date
//! becomes the empty string. The derived local filename is
//! `{guid}.{ext}` with the extension mapped from the enclosure's declared
//! MIME type.
use crate::episodes::{Episode, EpisodeView};
use crate::errors::CustomError;
use crate::text::{chars_eq_str, chars_to_string, clone_chars, str_eq, str_to_chars};
use crate::xml::{sp_tokens, tokenize, Attr, AttrView, EventView, XmlEvent};
use vstd::prelude::*;

verus! {

/// Whether the events from `events[0]` on close every element they open,
/// innermost first, given the names of the elements already open.
pub open spec fn sp_balanced(events: Seq<EventView>, stack: Seq<Seq<char>>) -> bool
    decreases events.len(),
{
    if events.len() == 0 {
        stack.len() == 0
    } else {
        match events[0] {
            EventView::Open { name, attrs, self_closing } => if self_closing {
                sp_balanced(events.skip(1), stack)
            } else {
                sp_balanced(events.skip(1), stack.push(name))
            },
            EventView::Close { name } => stack.len() > 0 && stack.last() == name && sp_balanced(
                events.skip(1),
                stack.drop_last(),
            ),
            EventView::Text { content } => sp_balanced(events.skip(1), stack),
        }
    }
}

/// Whether every tag of the document closes properly.
pub fn check_nesting(events: &Vec<XmlEvent>) -> (r: bool)
    ensures
        r == sp_balanced(events.deep_view(), Seq::empty()),
{
    let ghost evs = events.deep_view();
    let mut stack: Vec<Vec<char>> = Vec::new();
    let mut i: usize = 0;
    proof {
        assert(evs.skip(0) =~= evs);
        assert(stack.deep_view() =~~= Seq::<Seq<char>>::empty());
    }
    while i < events.len()
        invariant
            evs == events.deep_view(),
            evs.len() == events@.len(),
            i <= events@.len(),
            sp_balanced(evs, Seq::empty()) == sp_balanced(evs.skip(i as int), stack.deep_view()),
        decreases events@.len() - i,
    {
        proof {
            assert(evs[i as int] == events@[i as int]@);
            assert(evs.skip(i as int)[0] == evs[i as int]);
            assert(evs.skip(i as int).skip(1) =~= evs.skip(i as int + 1));
        }
        let ghost st = stack.deep_view();
        match &events[i] {
            XmlEvent::Open { name, attrs, self_closing } => {
                if !*self_closing {
                    stack.push(clone_chars(name));
                    proof {
                        assert(stack.deep_view() =~~= st.push(name@));
                    }
                }
            },
            XmlEvent::Close { name } => {
                if stack.len() == 0 {
                    proof {
                        assert(!sp_balanced(evs.skip(i as int), st));
                    }
                    return false;
                }
                let top = stack.pop();
                match top {
                    Some(t) => {
                        if !crate::text::chars_eq(&t, name) {
                            proof {
                                assert(st.last() =~= t@);
                                assert(!sp_balanced(evs.skip(i as int), st));
                            }
                            return false;
                        }
                        proof {
                            assert(st.last() =~= t@);
                            assert(stack.deep_view() =~~= st.drop_last());
                        }
                    },
                    None => {
                        proof {
                            assert(false);
                        }
                    },
                }
            },
            XmlEvent::Text { content } => {},
        }
        i = i + 1;
    }
    proof {
        assert(evs.skip(evs.len() as int).len() == 0);
    }
    stack.len() == 0
}

/// The nesting depth change an event causes.
pub open spec fn ev_delta(e: EventView) -> int {
    match e {
        EventView::Open { name, attrs, self_closing } => if self_closing {
            0
        } else {
            1
        },
        EventView::Close { name } => -1,
        EventView::Text { content } => 0,
    }
}

/// The position where the running nesting depth, starting from `depth`
/// before `events[i]`, first drops to zero (or the end of the events).
pub open spec fn scan_end(events: Seq<EventView>, i: int, depth: int) -> int
    recommends
        0 <= i <= events.len(),
    decreases events.len() - i,
{
    if i < 0 || i >= events.len() {
        events.len() as int
    } else {
        let d = depth + ev_delta(events[i]);
        if d <= 0 {
            i
        } else {
            scan_end(events, i + 1, d)
        }
    }
}

/// `scan_end` lands between `i` and the end.
pub proof fn lemma_scan_end(events: Seq<EventView>, i: int, depth: int)
    requires
        0 <= i <= events.len(),
    ensures
        i <= scan_end(events, i, depth) <= events.len(),
    decreases events.len() - i,
{
    if i < events.len() {
        let d = depth + ev_delta(events[i]);
        if d > 0 {
            lemma_scan_end(events, i + 1, d);
        }
    }
}

/// `scan_end`, executably.
fn scan_end_e(events: &Vec<XmlEvent>, i: usize, depth: u128) -> (r: usize)
    requires
        i <= events@.len(),
        1 <= depth <= i + 1,
    ensures
        r as int == scan_end(events.deep_view(), i as int, depth as int),
        i <= r <= events@.len(),
    decreases events@.len() - i,
{
    proof {
        assert(events.deep_view().len() == events@.len());
    }
    if i >= events.len() {
        events.len()
    } else {
        proof {
            assert(events.deep_view()[i as int] == events@[i as int]@);
        }
        match &events[i] {
            XmlEvent::Open { name, attrs, self_closing } => {
                if *self_closing {
                    scan_end_e(events, i + 1, depth)
                } else {
                    scan_end_e(events, i + 1, depth + 1)
                }
            },
            XmlEvent::Close { name } => {
                if depth == 1 {
                    i
                } else {
                    scan_end_e(events, i + 1, depth - 1)
                }
            },
            XmlEvent::Text { content } => { scan_end_e(events, i + 1, depth) },
        }
    }
}

/// The end (exclusive) of the content of the element opened at `p`: the
/// position of its closing tag, or `p + 1` for a self-closing element.
pub open spec fn content_end(events: Seq<EventView>, p: int) -> int
    recommends
        0 <= p < events.len(),
{
    match events[p] {
        EventView::Open { name, attrs, self_closing } => if self_closing {
            p + 1
        } else {
            scan_end(events, p + 1, 1)
        },
        EventView::Close { name } => p + 1,
        EventView::Text { content } => p + 1,
    }
}

/// `content_end`, executably.
fn content_end_e(events: &Vec<XmlEvent>, p: usize) -> (r: usize)
    requires
        p < events@.len(),
    ensures
        r as int == content_end(events.deep_view(), p as int),
        p + 1 <= r <= events@.len(),
{
    let n = events.len();
    proof {
        assert(events.deep_view()[p as int] == events@[p as int]@);
    }
    match &events[p] {
        XmlEvent::Open { name, attrs, self_closing } => {
            if *self_closing {
                p + 1
            } else {
                scan_end_e(events, p + 1, 1)
            }
        },
        XmlEvent::Close { name } => p + 1,
        XmlEvent::Text { content } => p + 1,
    }
}

/// Whether the event opens an element with the given name.
pub open spec fn is_open_named(e: EventView, name: Seq<char>) -> bool {
    match e {
        EventView::Open { name: n, attrs, self_closing } => n == name,
        _ => false,
    }
}

/// The first position in `[lo, hi)` opening an element named `name`.
pub open spec fn find_open(events: Seq<EventView>, lo: int, hi: int, name: Seq<char>) -> Option<
    int,
>
    recommends
        0 <= lo,
        hi <= events.len(),
    decreases hi - lo,
{
    if lo < 0 || lo >= hi || lo >= events.len() {
        None
    } else if is_open_named(events[lo], name) {
        Some(lo)
    } else {
        find_open(events, lo + 1, hi, name)
    }
}

/// A found open tag lies in the range and opens the named element.
pub proof fn lemma_find_open(events: Seq<EventView>, lo: int, hi: int, name: Seq<char>)
    requires
        0 <= lo,
    ensures
        find_open(events, lo, hi, name) matches Some(j) ==> lo <= j < hi && j < events.len()
            && is_open_named(events[j], name),
    decreases hi - lo,
{
    if 0 <= lo && lo < hi && lo < events.len() && !is_open_named(events[lo], name) {
        lemma_find_open(events, lo + 1, hi, name);
    }
}

/// `find_open`, executably.
fn find_open_e(events: &Vec<XmlEvent>, lo: usize, hi: usize, name: &str) -> (r: Option<usize>)
    requires
        hi <= events@.len(),
    ensures
        match r {
            Some(j) => find_open(events.deep_view(), lo as int, hi as int, name@) == Some(
                j as int,
            ) && lo <= j < hi,
            None => find_open(events.deep_view(), lo as int, hi as int, name@) is None,
        },
    decreases hi - lo,
{
    if lo >= hi {
        None
    } else {
        proof {
            assert(events.deep_view()[lo as int] == events@[lo as int]@);
        }
        let hit = match &events[lo] {
            XmlEvent::Open { name: n, attrs, self_closing } => chars_eq_str(n, name),
            _ => false,
        };
        if hit {
            Some(lo)
        } else {
            find_open_e(events, lo + 1, hi, name)
        }
    }
}

/// The text directly inside the element opened at `p`: the content of a
/// text event immediately after the open tag, or the empty sequence for
/// a self-closing or otherwise empty element.
pub open spec fn elem_text(events: Seq<EventView>, p: int) -> Seq<char>
    recommends
        0 <= p < events.len(),
{
    match events[p] {
        EventView::Open { name, attrs, self_closing } => if self_closing {
            Seq::empty()
        } else if p + 1 < events.len() {
            match events[p + 1] {
                EventView::Text { content } => content,
                _ => Seq::empty(),
            }
        } else {
            Seq::empty()
        },
        _ => Seq::empty(),
    }
}

/// `elem_text`, executably.
fn elem_text_e(events: &Vec<XmlEvent>, p: usize) -> (r: Vec<char>)
    requires
        p < events@.len(),
    ensures
        r@ == elem_text(events.deep_view(), p as int),
{
    proof {
        assert(events.deep_view()[p as int] == events@[p as int]@);
    }
    let empty: Vec<char> = Vec::new();
    proof {
        assert(empty@ =~= Seq::<char>::empty());
    }
    let n = events.len();
    let self_closing = match &events[p] {
        XmlEvent::Open { name, attrs, self_closing } => Some(*self_closing),
        _ => None,
    };
    match self_closing {
        None => empty,
        Some(true) => empty,
        Some(false) => {
            if p + 1 < n {
                proof {
                    assert(events.deep_view()[p as int + 1] == events@[p as int + 1]@);
                }
                match &events[p + 1] {
                    XmlEvent::Text { content } => clone_chars(content),
                    _ => empty,
                }
            } else {
                empty
            }
        },
    }
}

/// The value of the first attribute named `name` at or after index `i`.
pub open spec fn sp_find_attr(attrs: Seq<AttrView>, i: int, name: Seq<char>) -> Option<Seq<char>>
    recommends
        0 <= i <= attrs.len(),
    decreases attrs.len() - i,
{
    if i < 0 || i >= attrs.len() {
        None
    } else if attrs[i].name == name {
        Some(attrs[i].value)
    } else {
        sp_find_attr(attrs, i + 1, name)
    }
}

/// One episode record parsed from an `item` element.
#[derive(Debug, Clone)]
pub struct EpisodeRecord {
    pub guid: String,
    pub title: String,
    pub date: String,
    pub url: String,
    pub mime_type: Option<String>,
}

/// The mathematical value of an `EpisodeRecord`.
pub struct RecordView {
    pub guid: Seq<char>,
    pub title: Seq<char>,
    pub date: Seq<char>,
    pub url: Seq<char>,
    pub mime_type: Option<Seq<char>>,
}

impl View for EpisodeRecord {
    type V = RecordView;

    open spec fn view(&self) -> RecordView {
        RecordView {
            guid: self.guid@,
            title: self.title@,
            date: self.date@,
            url: self.url@,
            mime_type: self.mime_type.deep_view(),
        }
    }
}

impl DeepView for EpisodeRecord {
    type V = RecordView;

    open spec fn deep_view(&self) -> RecordView {
        self.view()
    }
}

/// Why an `item` element yielded no record.
#[derive(Debug, Clone)]
pub enum ParseWarning {
    MissingGuid,
    MissingEnclosure { guid: String },
    MissingEnclosureUrl { guid: String },
}

/// The mathematical value of a `ParseWarning`.
pub enum WarningView {
    MissingGuid,
    MissingEnclosure { guid: Seq<char> },
    MissingEnclosureUrl { guid: Seq<char> },
}

impl View for ParseWarning {
    type V = WarningView;

    open spec fn view(&self) -> WarningView {
        match self {
            ParseWarning::MissingGuid => WarningView::MissingGuid,
            ParseWarning::MissingEnclosure { guid } => WarningView::MissingEnclosure {
                guid: guid@,
            },
            ParseWarning::MissingEnclosureUrl { guid } => WarningView::MissingEnclosureUrl {
                guid: guid@,
            },
        }
    }
}

impl DeepView for ParseWarning {
    type V = WarningView;

    open spec fn deep_view(&self) -> WarningView {
        self.view()
    }
}

/// What reading one `item` element yields: a record, or a warning.
pub enum ItemView {
    Record(RecordView),
    Warn(WarningView),
}

/// What reading the `item` element opened at `p` yields. The guid, title
/// and date are the texts of the first elements of those names inside the
/// item (title and date default to empty; an empty or missing guid skips
/// the item); the enclosure's `url` attribute is required, its `type`
/// attribute optional.
pub open spec fn sp_item(events: Seq<EventView>, p: int) -> ItemView
    recommends
        0 <= p < events.len(),
{
    let lo = p + 1;
    let hi = content_end(events, p);
    let title = match find_open(events, lo, hi, "title"@) {
        Some(t) => elem_text(events, t),
        None => Seq::empty(),
    };
    let date = match find_open(events, lo, hi, "pubDate"@) {
        Some(d) => elem_text(events, d),
        None => Seq::empty(),
    };
    let guid = match find_open(events, lo, hi, "guid"@) {
        Some(g) => elem_text(events, g),
        None => Seq::empty(),
    };
    if guid.len() == 0 {
        ItemView::Warn(WarningView::MissingGuid)
    } else {
        match find_open(events, lo, hi, "enclosure"@) {
            None => ItemView::Warn(WarningView::MissingEnclosure { guid }),
            Some(e) => {
                let attrs = match events[e] {
                    EventView::Open { name, attrs, self_closing } => attrs,
                    _ => Seq::empty(),
                };
                match sp_find_attr(attrs, 0, "url"@) {
                    None => ItemView::Warn(WarningView::MissingEnclosureUrl { guid }),
                    Some(u) => ItemView::Record(
                        RecordView {
                            guid,
                            title,
                            date,
                            url: u,
                            mime_type: sp_find_attr(attrs, 0, "type"@),
                        },
                    ),
                }
            },
        }
    }
}

/// What reading one `item` element yields, executably.
pub enum ItemOutcome {
    Record(EpisodeRecord),
    Warn(ParseWarning),
}

impl View for ItemOutcome {
    type V = ItemView;

    open spec fn view(&self) -> ItemView {
        match self {
            ItemOutcome::Record(r) => ItemView::Record(r@),
            ItemOutcome::Warn(w) => ItemView::Warn(w@),
        }
    }
}

/// `sp_item`, executably.
fn item_e(events: &Vec<XmlEvent>, p: usize) -> (r: ItemOutcome)
    requires
        p < events@.len(),
    ensures
        r@ == sp_item(events.deep_view(), p as int),
{
    let ghost evs = events.deep_view();
    let n = events.len();
    let lo = p + 1;
    let hi = content_end_e(events, p);
    let title = match find_open_e(events, lo, hi, "title") {
        Some(t) => chars_to_string(&elem_text_e(events, t)),
        None => String::new(),
    };
    let date = match find_open_e(events, lo, hi, "pubDate") {
        Some(d) => chars_to_string(&elem_text_e(events, d)),
        None => String::new(),
    };
    let guid = match find_open_e(events, lo, hi, "guid") {
        Some(g) => chars_to_string(&elem_text_e(events, g)),
        None => String::new(),
    };
    if guid.unicode_len() == 0 {
        ItemOutcome::Warn(ParseWarning::MissingGuid)
    } else {
        match find_open_e(events, lo, hi, "enclosure") {
            None => ItemOutcome::Warn(ParseWarning::MissingEnclosure { guid }),
            Some(e) => {
                proof {
                    lemma_find_open(evs, lo as int, hi as int, "enclosure"@);
                    assert(evs[e as int] == events@[e as int]@);
                }
                let empty_attrs: Vec<Attr> = Vec::new();
                proof {
                    assert(empty_attrs.deep_view() =~= Seq::<AttrView>::empty());
                }
                let attrs: &Vec<Attr> = match &events[e] {
                    XmlEvent::Open { name, attrs, self_closing } => attrs,
                    _ => &empty_attrs,
                };
                match find_attr_e(attrs, 0, "url") {
                    None => ItemOutcome::Warn(ParseWarning::MissingEnclosureUrl { guid }),
                    Some(u) => {
                        let mime_type = match find_attr_e(attrs, 0, "type") {
                            Some(t) => Some(chars_to_string(&t)),
                            None => None,
                        };
                        ItemOutcome::Record(
                            EpisodeRecord {
                                guid,
                                title,
                                date,
                                url: chars_to_string(&u),
                                mime_type,
                            },
                        )
                    },
                }
            },
        }
    }
}

/// The records of the items opened before position `i`, in order.
pub open spec fn sp_records(events: Seq<EventView>, i: int) -> Seq<RecordView>
    recommends
        i <= events.len(),
    decreases i,
{
    if i <= 0 {
        Seq::empty()
    } else {
        sp_records(events, i - 1) + (if is_open_named(events[i - 1], "item"@) {
            match sp_item(events, i - 1) {
                ItemView::Record(r) => seq![r],
                ItemView::Warn(w) => Seq::empty(),
            }
        } else {
            Seq::empty()
        })
    }
}

/// The warnings of the items opened before position `i`, in order.
pub open spec fn sp_warnings(events: Seq<EventView>, i: int) -> Seq<WarningView>
    recommends
        i <= events.len(),
    decreases i,
{
    if i <= 0 {
        Seq::empty()
    } else {
        sp_warnings(events, i - 1) + (if is_open_named(events[i - 1], "item"@) {
            match sp_item(events, i - 1) {
                ItemView::Record(r) => Seq::empty(),
                ItemView::Warn(w) => seq![w],
            }
        } else {
            Seq::empty()
        })
    }
}

/// The number of `item` elements opened before position `i`.
pub open spec fn sp_item_count(events: Seq<EventView>, i: int) -> int
    recommends
        i <= events.len(),
    decreases i,
{
    if i <= 0 {
        0
    } else {
        sp_item_count(events, i - 1) + (if is_open_named(events[i - 1], "item"@) {
            1int
        } else {
            0int
        })
    }
}

/// Parser completeness: every `item` element of the document is
/// accounted for — it yields exactly one episode record or exactly one
/// warning, so records and warnings together number the items, and a
/// document whose items all parse yields one record per item.
pub proof fn lemma_every_item_accounted(events: Seq<EventView>, i: int)
    requires
        0 <= i <= events.len(),
    ensures
        sp_records(events, i).len() + sp_warnings(events, i).len() == sp_item_count(events, i),
    decreases i,
{
    if i > 0 {
        lemma_every_item_accounted(events, i - 1);
    }
}

/// Reads every `item` element of the document (at any depth), in
/// document order, yielding its record or its warning.
fn extract_items_e(events: &Vec<XmlEvent>) -> (r: (Vec<EpisodeRecord>, Vec<ParseWarning>))
    ensures
        r.0.deep_view() == sp_records(events.deep_view(), events@.len() as int),
        r.1.deep_view() == sp_warnings(events.deep_view(), events@.len() as int),
{
    let ghost evs = events.deep_view();
    let mut records: Vec<EpisodeRecord> = Vec::new();
    let mut warnings: Vec<ParseWarning> = Vec::new();
    let mut i: usize = 0;
    proof {
        assert(records.deep_view() =~= sp_records(evs, 0));
        assert(warnings.deep_view() =~= sp_warnings(evs, 0));
    }
    while i < events.len()
        invariant
            evs == events.deep_view(),
            evs.len() == events@.len(),
            i <= events@.len(),
            records.deep_view() == sp_records(evs, i as int),
            warnings.deep_view() == sp_warnings(evs, i as int),
        decreases events@.len() - i,
    {
        proof {
            assert(evs[i as int] == events@[i as int]@);
        }
        let is_item = match &events[i] {
            XmlEvent::Open { name, attrs, self_closing } => chars_eq_str(name, "item"),
            _ => false,
        };
        if is_item {
            match item_e(events, i) {
                ItemOutcome::Record(rec) => {
                    records.push(rec);
                },
                ItemOutcome::Warn(w) => {
                    warnings.push(w);
                },
            }
        }
        i = i + 1;
        proof {
            assert(records.deep_view() =~= sp_records(evs, i as int));
            assert(warnings.deep_view() =~= sp_warnings(evs, i as int));
        }
    }
    (records, warnings)
}

/// The channel's display title: the text of the first `title` element
/// inside the first `channel` element.
pub open spec fn sp_channel_title(events: Seq<EventView>) -> Option<Seq<char>> {
    match find_open(events, 0, events.len() as int, "channel"@) {
        None => None,
        Some(c) => match find_open(events, c + 1, content_end(events, c), "title"@) {
            Some(t) => Some(elem_text(events, t)),
            None => None,
        },
    }
}

/// The channel's artwork URL: the text of the first `url` element inside
/// the first `image` element inside the channel.
pub open spec fn sp_image_url(events: Seq<EventView>) -> Option<Seq<char>> {
    match find_open(events, 0, events.len() as int, "channel"@) {
        None => None,
        Some(c) => match find_open(events, c + 1, content_end(events, c), "image"@) {
            None => None,
            Some(im) => match find_open(events, im + 1, content_end(events, im), "url"@) {
                Some(u) => Some(elem_text(events, u)),
                None => None,
            },
        },
    }
}

/// `sp_channel_title` and `sp_image_url`, executably.
fn extract_channel_e(events: &Vec<XmlEvent>) -> (r: (Option<String>, Option<String>))
    ensures
        r.0.deep_view() == sp_channel_title(events.deep_view()),
        r.1.deep_view() == sp_image_url(events.deep_view()),
{
    let ghost evs = events.deep_view();
    let n = events.len();
    match find_open_e(events, 0, n, "channel") {
        None => (None, None),
        Some(c) => {
            let hi = content_end_e(events, c);
            let title = match find_open_e(events, c + 1, hi, "title") {
                Some(t) => Some(chars_to_string(&elem_text_e(events, t))),
                None => None,
            };
            let image = match find_open_e(events, c + 1, hi, "image") {
                None => None,
                Some(im) => {
                    let ihi = content_end_e(events, im);
                    match find_open_e(events, im + 1, ihi, "url") {
                        Some(u) => Some(chars_to_string(&elem_text_e(events, u))),
                        None => None,
                    }
                },
            };
            (title, image)
        },
    }
}

/// Everything one parse of a feed document yields.
pub struct ParsedFeed {
    pub feed_title: Option<String>,
    pub image_url: Option<String>,
    pub episodes: Vec<EpisodeRecord>,
    pub warnings: Vec<ParseWarning>,
}

/// The mathematical value of a `ParsedFeed`.
pub struct ParsedFeedView {
    pub feed_title: Option<Seq<char>>,
    pub image_url: Option<Seq<char>>,
    pub episodes: Seq<RecordView>,
    pub warnings: Seq<WarningView>,
}

impl View for ParsedFeed {
    type V = ParsedFeedView;

    open spec fn view(&self) -> ParsedFeedView {
        ParsedFeedView {
            feed_title: self.feed_title.deep_view(),
            image_url: self.image_url.deep_view(),
            episodes: self.episodes.deep_view(),
            warnings: self.warnings.deep_view(),
        }
    }
}

/// What extracting from a well-formed event sequence yields.
pub open spec fn sp_extract(events: Seq<EventView>) -> ParsedFeedView {
    ParsedFeedView {
        feed_title: sp_channel_title(events),
        image_url: sp_image_url(events),
        episodes: sp_records(events, events.len() as int),
        warnings: sp_warnings(events, events.len() as int),
    }
}

/// What parsing a feed document's text yields: `None` when the document
/// does not tokenize or its tags do not nest; otherwise the channel
/// metadata and the outcome of every `item` element.
pub open spec fn sp_parse_feed(s: Seq<char>) -> Option<ParsedFeedView> {
    match sp_tokens(s, 0) {
        None => None,
        Some(evs) => if sp_balanced(evs, Seq::empty()) {
            Some(sp_extract(evs))
        } else {
            None
        },
    }
}

/// Parses a feed document: its channel title and artwork URL, one record
/// per readable `item` element (all of them, not only the first), and a
/// warning for every item skipped for a missing guid or enclosure URL.
/// Fails with `CustomError::XmlError` exactly when the document is
/// malformed as a whole.
pub fn parse_feed(doc: &str) -> (r: Result<ParsedFeed, CustomError>)
    ensures
        match r {
            Ok(p) => sp_parse_feed(doc@) == Some(p@),
            Err(e) => sp_parse_feed(doc@) is None && e == CustomError::XmlError,
        },
{
    let chars = str_to_chars(doc);
    match tokenize(&chars) {
        None => Err(CustomError::XmlError),
        Some(events) => {
            if !check_nesting(&events) {
                Err(CustomError::XmlError)
            } else {
                let (feed_title, image_url) = extract_channel_e(&events);
                let (episodes, warnings) = extract_items_e(&events);
                Ok(ParsedFeed { feed_title, image_url, episodes, warnings })
            }
        },
    }
}

/// The audio file extension for an enclosure's declared MIME type: the
/// fixed table aac, mpeg, ogg, opus, wav, webm; anything else, and a
/// missing type, defaults to mp3.
pub open spec fn spec_extension_for(mime_type: Option<Seq<char>>) -> Seq<char> {
    match mime_type {
        None => "mp3"@,
        Some(t) => if t == "audio/aac"@ {
            "aac"@
        } else if t == "audio/mpeg"@ {
            "mp3"@
        } else if t == "audio/ogg"@ {
            "oga"@
        } else if t == "audio/opus"@ {
            "opus"@
        } else if t == "audio/wav"@ {
            "wav"@
        } else if t == "audio/webm"@ {
            "weba"@
        } else {
            "mp3"@
        },
    }
}

/// The stable local filename of an episode: `{guid}.{ext}`.
pub open spec fn spec_file_name(guid: Seq<char>, mime_type: Option<Seq<char>>) -> Seq<char> {
    guid + "."@ + spec_extension_for(mime_type)
}

/// The stable local filename `{guid}.{ext}` for an episode, with the
/// extension mapped from the enclosure's declared MIME type.
pub fn derive_file_name(guid: &str, mime_type: Option<&str>) -> (r: String)
    ensures
        r@ == spec_file_name(
            guid@,
            match mime_type {
                Some(t) => Some(t@),
                None => None,
            },
        ),
{
    let ext: &str = match mime_type {
        None => "mp3",
        Some(t) => {
            if str_eq(t, "audio/aac") {
                "aac"
            } else if str_eq(t, "audio/mpeg") {
                "mp3"
            } else if str_eq(t, "audio/ogg") {
                "oga"
            } else if str_eq(t, "audio/opus") {
                "opus"
            } else if str_eq(t, "audio/wav") {
                "wav"
            } else if str_eq(t, "audio/webm") {
                "weba"
            } else {
                "mp3"
            }
        },
    };
    let mut v = str_to_chars(guid);
    crate::text::append_str_chars(&mut v, ".");
    crate::text::append_str_chars(&mut v, ext);
    chars_to_string(&v)
}

/// The persisted episode a parsed record stands for: unplayed, not
/// downloaded, no id yet, owned by `feed_id`, with the derived filename.
pub open spec fn spec_record_episode(r: RecordView, feed_id: int) -> EpisodeView {
    EpisodeView {
        id: 0,
        guid: r.guid,
        title: r.title,
        date: r.date,
        played: false,
        played_seconds: 0,
        file_name: spec_file_name(r.guid, r.mime_type),
        url: r.url,
        feed_id: feed_id,
        downloaded: false,
    }
}

/// Turns one parsed record into the episode row to reconcile for the
/// feed `feed_id`.
pub fn record_to_episode(rec: &EpisodeRecord, feed_id: i32) -> (e: Episode)
    ensures
        e@ == spec_record_episode(rec@, feed_id as int),
{
    let mime: Option<&str> = match &rec.mime_type {
        Some(t) => Some(t.as_str()),
        None => None,
    };
    Episode {
        id: 0,
        guid: rec.guid.clone(),
        title: rec.title.clone(),
        date: rec.date.clone(),
        played: false,
        played_seconds: 0,
        file_name: derive_file_name(rec.guid.as_str(), mime),
        url: rec.url.clone(),
        feed_id,
        downloaded: false,
    }
}

/// `sp_find_attr`, executably.
fn find_attr_e(attrs: &Vec<Attr>, i: usize, name: &str) -> (r: Option<Vec<char>>)
    requires
        i <= attrs@.len(),
    ensures
        match r {
            Some(v) => sp_find_attr(attrs.deep_view(), i as int, name@) == Some(v@),
            None => sp_find_attr(attrs.deep_view(), i as int, name@) is None,
        },
    decreases attrs@.len() - i,
{
    if i >= attrs.len() {
        None
    } else {
        proof {
            assert(attrs.deep_view()[i as int] == attrs@[i as int]@);
        }
        if chars_eq_str(&attrs[i].name, name) {
            Some(clone_chars(&attrs[i].value))
        } else {
            find_attr_e(attrs, i + 1, name)
        }
    }
}

} // verus!
