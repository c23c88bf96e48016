//! The sync pass, as decisions over data: given every subscribed feed and
//! the document its refresh produced (or `None` where fetching or loading
//! the cache failed), compute what one sync pass does — the feed title
//! updates, the artwork URLs worth fetching, the candidate episode rows
//! to reconcile, and which feeds contributed nothing this round.
//!
//! Each feed's contribution is a function of that feed and its own
//! document alone, so one feed's failure can never disturb another's
//! episodes; the caller that does the fetching is expected to catch
//! per-feed errors and hand in `None`, not to abort the pass.
use crate::episodes::{Episode, EpisodeView};
use crate::feeds::{FeedMeta, FeedMetaView};
use crate::parser::{
    parse_feed,
    sp_parse_feed,
    spec_record_episode,
    record_to_episode,
    EpisodeRecord,
    ParseWarning,
    WarningView,
};
use vstd::prelude::*;

verus! {

/// The episode rows one feed contributes to the pass: none when its
/// document is missing or malformed, else one row per parsed record.
pub open spec fn sp_feed_episodes(feed: FeedMetaView, doc: Option<Seq<char>>) -> Seq<EpisodeView> {
    match doc {
        None => Seq::empty(),
        Some(s) => match sp_parse_feed(s) {
            None => Seq::empty(),
            Some(p) => Seq::new(p.episodes.len(), |k: int| spec_record_episode(p.episodes[k], feed.id)),
        },
    }
}

/// The episode rows of the first `i` feeds, in feed order.
pub open spec fn sp_sync_episodes(
    feeds: Seq<FeedMetaView>,
    docs: Seq<Option<Seq<char>>>,
    i: int,
) -> Seq<EpisodeView>
    recommends
        feeds.len() == docs.len(),
        i <= feeds.len(),
    decreases i,
{
    if i <= 0 {
        Seq::empty()
    } else {
        sp_sync_episodes(feeds, docs, i - 1) + sp_feed_episodes(feeds[i - 1], docs[i - 1])
    }
}

/// The feed-title updates of the first `i` feeds: `(feed id, title)` for
/// each feed whose document parsed and carried a channel title.
pub open spec fn sp_title_updates(
    feeds: Seq<FeedMetaView>,
    docs: Seq<Option<Seq<char>>>,
    i: int,
) -> Seq<(int, Seq<char>)>
    recommends
        feeds.len() == docs.len(),
        i <= feeds.len(),
    decreases i,
{
    if i <= 0 {
        Seq::empty()
    } else {
        sp_title_updates(feeds, docs, i - 1) + (match docs[i - 1] {
            Some(s) => match sp_parse_feed(s) {
                Some(p) => match p.feed_title {
                    Some(t) => seq![(feeds[i - 1].id, t)],
                    None => Seq::empty(),
                },
                None => Seq::empty(),
            },
            None => Seq::empty(),
        })
    }
}

/// The artwork candidates of the first `i` feeds: `(feed id, image URL)`
/// for each feed whose document parsed and carried one.
pub open spec fn sp_images(
    feeds: Seq<FeedMetaView>,
    docs: Seq<Option<Seq<char>>>,
    i: int,
) -> Seq<(int, Seq<char>)>
    recommends
        feeds.len() == docs.len(),
        i <= feeds.len(),
    decreases i,
{
    if i <= 0 {
        Seq::empty()
    } else {
        sp_images(feeds, docs, i - 1) + (match docs[i - 1] {
            Some(s) => match sp_parse_feed(s) {
                Some(p) => match p.image_url {
                    Some(u) => seq![(feeds[i - 1].id, u)],
                    None => Seq::empty(),
                },
                None => Seq::empty(),
            },
            None => Seq::empty(),
        })
    }
}

/// The feeds among the first `i` that contributed nothing this round:
/// their document was missing or malformed.
pub open spec fn sp_failed_feeds(
    feeds: Seq<FeedMetaView>,
    docs: Seq<Option<Seq<char>>>,
    i: int,
) -> Seq<int>
    recommends
        feeds.len() == docs.len(),
        i <= feeds.len(),
    decreases i,
{
    if i <= 0 {
        Seq::empty()
    } else {
        sp_failed_feeds(feeds, docs, i - 1) + (match docs[i - 1] {
            Some(s) => if sp_parse_feed(s) is None {
                seq![feeds[i - 1].id]
            } else {
                Seq::empty()
            },
            None => seq![feeds[i - 1].id],
        })
    }
}

/// The per-item warnings of the first `i` feeds, in feed order.
pub open spec fn sp_sync_warnings(
    feeds: Seq<FeedMetaView>,
    docs: Seq<Option<Seq<char>>>,
    i: int,
) -> Seq<WarningView>
    recommends
        feeds.len() == docs.len(),
        i <= feeds.len(),
    decreases i,
{
    if i <= 0 {
        Seq::empty()
    } else {
        sp_sync_warnings(feeds, docs, i - 1) + (match docs[i - 1] {
            Some(s) => match sp_parse_feed(s) {
                Some(p) => p.warnings,
                None => Seq::empty(),
            },
            None => Seq::empty(),
        })
    }
}

/// A feed without a document this round contributes no episode rows.
pub proof fn lemma_missing_doc_contributes_nothing(feed: FeedMetaView, doc: Option<Seq<char>>)
    requires
        doc is None,
    ensures
        sp_feed_episodes(feed, doc) == Seq::<EpisodeView>::empty(),
{
}

proof fn lemma_isolation_step(
    feeds: Seq<FeedMetaView>,
    docs: Seq<Option<Seq<char>>>,
    k: int,
    i: int,
)
    requires
        feeds.len() == docs.len(),
        0 <= k < feeds.len(),
        sp_feed_episodes(feeds[k], docs[k]) == Seq::<EpisodeView>::empty(),
        0 <= i <= feeds.len(),
    ensures
        i <= k ==> sp_sync_episodes(feeds, docs, i) == sp_sync_episodes(
            feeds.remove(k),
            docs.remove(k),
            i,
        ),
        i > k ==> sp_sync_episodes(feeds, docs, i) == sp_sync_episodes(
            feeds.remove(k),
            docs.remove(k),
            i - 1,
        ),
    decreases i,
{
    if i > 0 {
        lemma_isolation_step(feeds, docs, k, i - 1);
        if i <= k {
            assert(feeds.remove(k)[i - 1] == feeds[i - 1]);
            assert(docs.remove(k)[i - 1] == docs[i - 1]);
        } else if i - 1 == k {
            assert(sp_feed_episodes(feeds[i - 1], docs[i - 1]) =~= Seq::<EpisodeView>::empty());
            assert(sp_sync_episodes(feeds, docs, i) =~= sp_sync_episodes(feeds, docs, i - 1));
        } else {
            assert(feeds.remove(k)[i - 2] == feeds[i - 1]);
            assert(docs.remove(k)[i - 2] == docs[i - 1]);
        }
    }
}

/// Per-feed failure isolation: a feed whose document could not be
/// fetched or parsed contributes zero episode rows, and the pass yields
/// exactly the episodes of a pass run without that feed — the other
/// feeds' contributions are untouched.
pub proof fn lemma_per_feed_failure_isolated(
    feeds: Seq<FeedMetaView>,
    docs: Seq<Option<Seq<char>>>,
    k: int,
)
    requires
        feeds.len() == docs.len(),
        0 <= k < feeds.len(),
        sp_feed_episodes(feeds[k], docs[k]) == Seq::<EpisodeView>::empty(),
    ensures
        sp_sync_episodes(feeds, docs, feeds.len() as int) == sp_sync_episodes(
            feeds.remove(k),
            docs.remove(k),
            feeds.len() - 1,
        ),
{
    lemma_isolation_step(feeds, docs, k, feeds.len() as int);
}

/// Everything one sync pass decides, before any storage write.
pub struct SyncPlan {
    pub episodes: Vec<Episode>,
    pub title_updates: Vec<(i32, String)>,
    pub images: Vec<(i32, String)>,
    pub failed_feeds: Vec<i32>,
    pub warnings: Vec<ParseWarning>,
}

/// The episode rows of all the records of one feed.
fn episodes_from_records(records: &Vec<EpisodeRecord>, feed_id: i32) -> (r: Vec<Episode>)
    ensures
        r.deep_view() == Seq::new(
            records.deep_view().len(),
            |k: int| spec_record_episode(records.deep_view()[k], feed_id as int),
        ),
{
    let ghost rv = records.deep_view();
    let mut r: Vec<Episode> = Vec::new();
    let mut i: usize = 0;
    while i < records.len()
        invariant
            rv == records.deep_view(),
            rv.len() == records@.len(),
            i <= records@.len(),
            r@.len() == i,
            forall|j: int|
                0 <= j < i ==> #[trigger] r@[j]@ == spec_record_episode(rv[j], feed_id as int),
        decreases records@.len() - i,
    {
        proof {
            assert(rv[i as int] == records@[i as int]@);
        }
        r.push(record_to_episode(&records[i], feed_id));
        i = i + 1;
    }
    proof {
        assert forall|j: int| 0 <= j < rv.len() implies #[trigger] r.deep_view()[j]
            == spec_record_episode(rv[j], feed_id as int) by {
            assert(r.deep_view()[j] == r@[j]@);
        }
        assert(r.deep_view() =~= Seq::new(
            rv.len(),
            |k: int| spec_record_episode(rv[k], feed_id as int),
        ));
    }
    r
}

/// One sync pass over every subscribed feed and the document its refresh
/// produced (`None` where fetching or loading failed): each feed's title
/// update, artwork candidate and episode rows come from its own document
/// alone; a feed with a missing or malformed document lands in
/// `failed_feeds` and contributes nothing, and never disturbs the rest.
pub fn plan_sync(feeds: &Vec<FeedMeta>, docs: &Vec<Option<String>>) -> (r: SyncPlan)
    requires
        feeds@.len() == docs@.len(),
    ensures
        r.episodes.deep_view() == sp_sync_episodes(
            feeds.deep_view(),
            docs.deep_view(),
            feeds@.len() as int,
        ),
        r.warnings.deep_view() == sp_sync_warnings(
            feeds.deep_view(),
            docs.deep_view(),
            feeds@.len() as int,
        ),
        r.title_updates@.len() == sp_title_updates(
            feeds.deep_view(),
            docs.deep_view(),
            feeds@.len() as int,
        ).len(),
        forall|j: int|
            0 <= j < r.title_updates@.len() ==> (#[trigger] r.title_updates@[j].0 as int,
            r.title_updates@[j].1@) == sp_title_updates(
                feeds.deep_view(),
                docs.deep_view(),
                feeds@.len() as int,
            )[j],
        r.images@.len() == sp_images(feeds.deep_view(), docs.deep_view(), feeds@.len() as int).len(),
        forall|j: int|
            0 <= j < r.images@.len() ==> (#[trigger] r.images@[j].0 as int, r.images@[j].1@)
                == sp_images(feeds.deep_view(), docs.deep_view(), feeds@.len() as int)[j],
        r.failed_feeds@.len() == sp_failed_feeds(
            feeds.deep_view(),
            docs.deep_view(),
            feeds@.len() as int,
        ).len(),
        forall|j: int|
            0 <= j < r.failed_feeds@.len() ==> #[trigger] r.failed_feeds@[j] as int
                == sp_failed_feeds(feeds.deep_view(), docs.deep_view(), feeds@.len() as int)[j],
{
    let ghost fv = feeds.deep_view();
    let ghost dv = docs.deep_view();
    let mut episodes: Vec<Episode> = Vec::new();
    let mut title_updates: Vec<(i32, String)> = Vec::new();
    let mut images: Vec<(i32, String)> = Vec::new();
    let mut failed_feeds: Vec<i32> = Vec::new();
    let mut warnings: Vec<ParseWarning> = Vec::new();
    let mut i: usize = 0;
    proof {
        assert(episodes.deep_view() =~= sp_sync_episodes(fv, dv, 0));
        assert(warnings.deep_view() =~= sp_sync_warnings(fv, dv, 0));
    }
    while i < feeds.len()
        invariant
            fv == feeds.deep_view(),
            dv == docs.deep_view(),
            fv.len() == feeds@.len(),
            dv.len() == docs@.len(),
            feeds@.len() == docs@.len(),
            i <= feeds@.len(),
            episodes.deep_view() == sp_sync_episodes(fv, dv, i as int),
            warnings.deep_view() == sp_sync_warnings(fv, dv, i as int),
            title_updates@.len() == sp_title_updates(fv, dv, i as int).len(),
            forall|j: int|
                0 <= j < title_updates@.len() ==> (#[trigger] title_updates@[j].0 as int,
                title_updates@[j].1@) == sp_title_updates(fv, dv, i as int)[j],
            images@.len() == sp_images(fv, dv, i as int).len(),
            forall|j: int|
                0 <= j < images@.len() ==> (#[trigger] images@[j].0 as int, images@[j].1@)
                    == sp_images(fv, dv, i as int)[j],
            failed_feeds@.len() == sp_failed_feeds(fv, dv, i as int).len(),
            forall|j: int|
                0 <= j < failed_feeds@.len() ==> #[trigger] failed_feeds@[j] as int
                    == sp_failed_feeds(fv, dv, i as int)[j],
        decreases feeds@.len() - i,
    {
        proof {
            assert(fv[i as int] == feeds@[i as int]@);
            assert(dv[i as int] == docs@[i as int].deep_view());
        }
        let feed_id = feeds[i].id;
        let ghost pre_eps = episodes.deep_view();
        let ghost pre_warn = warnings.deep_view();
        match &docs[i] {
            None => {
                failed_feeds.push(feed_id);
            },
            Some(doc) => {
                match parse_feed(doc.as_str()) {
                    Err(_) => {
                        failed_feeds.push(feed_id);
                    },
                    Ok(parsed) => {
                        match parsed.feed_title {
                            Some(t) => {
                                title_updates.push((feed_id, t));
                            },
                            None => {},
                        }
                        match parsed.image_url {
                            Some(u) => {
                                images.push((feed_id, u));
                            },
                            None => {},
                        }
                        let mut eps = episodes_from_records(&parsed.episodes, feed_id);
                        let ghost epsv = eps.deep_view();
                        episodes.append(&mut eps);
                        let mut warns = parsed.warnings;
                        let ghost warnsv = warns.deep_view();
                        warnings.append(&mut warns);
                        proof {
                            assert(episodes.deep_view() =~= pre_eps + epsv);
                            assert(warnings.deep_view() =~= pre_warn + warnsv);
                        }
                    },
                }
            },
        }
        i = i + 1;
        proof {
            assert(episodes.deep_view() =~= sp_sync_episodes(fv, dv, i as int));
            assert(warnings.deep_view() =~= sp_sync_warnings(fv, dv, i as int));
        }
    }
    SyncPlan { episodes, title_updates, images, failed_feeds, warnings }
}

} // verus!
