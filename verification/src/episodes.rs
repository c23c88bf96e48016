//! The episode record and the download-liveness reconciliation pass.
//!
//! An episode row carries a feed-scoped natural key `(guid, feed_id)`; the
//! `downloaded` flag is meant to mirror whether the episode's audio file is
//! actually on disk. The liveness pass takes the observed file presence and
//! corrects the flag in whichever direction disagrees, reporting exactly the
//! rows that need a storage write.
use vstd::prelude::*;

verus! {

/// One entry parsed from a feed's item list, as persisted.
#[derive(Debug, Clone)]
pub struct Episode {
    pub id: i32,
    pub guid: String,
    pub title: String,
    pub date: String,
    pub played: bool,
    pub played_seconds: i32,
    pub file_name: String,
    pub url: String,
    pub feed_id: i32,
    pub downloaded: bool,
}

/// The mathematical value of an `Episode`.
pub struct EpisodeView {
    pub id: int,
    pub guid: Seq<char>,
    pub title: Seq<char>,
    pub date: Seq<char>,
    pub played: bool,
    pub played_seconds: int,
    pub file_name: Seq<char>,
    pub url: Seq<char>,
    pub feed_id: int,
    pub downloaded: bool,
}

impl View for Episode {
    type V = EpisodeView;

    open spec fn view(&self) -> EpisodeView {
        EpisodeView {
            id: self.id as int,
            guid: self.guid@,
            title: self.title@,
            date: self.date@,
            played: self.played,
            played_seconds: self.played_seconds as int,
            file_name: self.file_name@,
            url: self.url@,
            feed_id: self.feed_id as int,
            downloaded: self.downloaded,
        }
    }
}

impl DeepView for Episode {
    type V = EpisodeView;

    open spec fn deep_view(&self) -> EpisodeView {
        self.view()
    }
}

/// `e` with its `downloaded` flag replaced by `d`, all other fields kept.
pub open spec fn spec_set_downloaded(e: EpisodeView, d: bool) -> EpisodeView {
    EpisodeView { downloaded: d, ..e }
}

/// The episode list after one liveness pass: each episode's flag matches
/// the observed presence of its file.
pub open spec fn spec_apply_liveness(eps: Seq<EpisodeView>, present: Seq<bool>) -> Seq<
    EpisodeView,
>
    recommends
        eps.len() == present.len(),
{
    Seq::new(eps.len(), |i: int| spec_set_downloaded(eps[i], present[i]))
}

/// The storage writes one liveness pass issues: `(episode id, new flag)`
/// for exactly the episodes whose stored flag disagrees with the observed
/// file presence, in list order.
pub open spec fn spec_liveness_updates(eps: Seq<EpisodeView>, present: Seq<bool>) -> Seq<
    (i32, bool),
>
    recommends
        eps.len() == present.len(),
    decreases eps.len(),
{
    if eps.len() == 0 {
        Seq::empty()
    } else {
        let prefix = spec_liveness_updates(eps.drop_last(), present.drop_last());
        if eps.last().downloaded != present.last() {
            prefix.push((eps.last().id as i32, present.last()))
        } else {
            prefix
        }
    }
}

/// A consistent list yields no writes.
pub proof fn lemma_consistent_no_updates(eps: Seq<EpisodeView>, present: Seq<bool>)
    requires
        eps.len() == present.len(),
        forall|i: int| 0 <= i < eps.len() ==> eps[i].downloaded == present[i],
    ensures
        spec_liveness_updates(eps, present) == Seq::<(i32, bool)>::empty(),
    decreases eps.len(),
{
    if eps.len() > 0 {
        lemma_consistent_no_updates(eps.drop_last(), present.drop_last());
    }
}

/// Liveness reconciliation converges after a single pass: the corrected
/// list agrees with the observed presence, so running the pass again over
/// it issues no write at all; and a pass over an already consistent list
/// is a no-op in both directions.
pub proof fn lemma_liveness_convergence(eps: Seq<EpisodeView>, present: Seq<bool>)
    requires
        eps.len() == present.len(),
    ensures
        forall|i: int|
            0 <= i < eps.len() ==> #[trigger] spec_apply_liveness(eps, present)[i].downloaded
                == present[i],
        spec_liveness_updates(spec_apply_liveness(eps, present), present) == Seq::<(i32,
            bool,
        )>::empty(),
        (forall|i: int| 0 <= i < eps.len() ==> eps[i].downloaded == present[i])
            ==> spec_apply_liveness(eps, present) == eps && spec_liveness_updates(eps, present)
            == Seq::<(i32, bool)>::empty(),
{
    let corrected = spec_apply_liveness(eps, present);
    lemma_consistent_no_updates(corrected, present);
    if forall|i: int| 0 <= i < eps.len() ==> eps[i].downloaded == present[i] {
        assert(corrected =~= eps);
        lemma_consistent_no_updates(eps, present);
    }
}

impl Episode {
    /// A field-for-field copy of the episode.
    pub fn duplicate(&self) -> (r: Episode)
        ensures
            r@ == self@,
    {
        Episode {
            id: self.id,
            guid: self.guid.clone(),
            title: self.title.clone(),
            date: self.date.clone(),
            played: self.played,
            played_seconds: self.played_seconds,
            file_name: self.file_name.clone(),
            url: self.url.clone(),
            feed_id: self.feed_id,
            downloaded: self.downloaded,
        }
    }

    /// A copy of the episode with the `downloaded` flag set to `d`.
    pub fn with_downloaded(&self, d: bool) -> (r: Episode)
        ensures
            r@ == spec_set_downloaded(self@, d),
    {
        Episode {
            id: self.id,
            guid: self.guid.clone(),
            title: self.title.clone(),
            date: self.date.clone(),
            played: self.played,
            played_seconds: self.played_seconds,
            file_name: self.file_name.clone(),
            url: self.url.clone(),
            feed_id: self.feed_id,
            downloaded: d,
        }
    }
}

/// One liveness pass over the episode list (the filesystem-versus-database
/// drift correction run before episodes are surfaced).
///
/// `present[i]` says whether episode `i`'s audio file was observed on disk.
/// Returns the corrected episode list together with the `(id, new flag)`
/// writes the store must apply; a consistent list yields no writes.
pub fn mark_episodes_deleted_if_file_nonexistent(episodes: &Vec<Episode>, present: &Vec<bool>) -> (r:
    (Vec<Episode>, Vec<(i32, bool)>))
    requires
        episodes@.len() == present@.len(),
    ensures
        r.0.deep_view() == spec_apply_liveness(episodes.deep_view(), present@),
        r.1@ == spec_liveness_updates(episodes.deep_view(), present@),
{
    let ghost evs = episodes.deep_view();
    let mut corrected: Vec<Episode> = Vec::new();
    let mut updates: Vec<(i32, bool)> = Vec::new();
    let mut i: usize = 0;
    while i < episodes.len()
        invariant
            evs == episodes.deep_view(),
            evs.len() == episodes@.len(),
            episodes@.len() == present@.len(),
            i <= episodes@.len(),
            forall|j: int| 0 <= j < evs.len() ==> #[trigger] evs[j] == episodes@[j]@,
            corrected@.len() == i,
            forall|j: int|
                0 <= j < i ==> #[trigger] corrected@[j]@ == spec_set_downloaded(
                    evs[j],
                    present@[j],
                ),
            updates@ == spec_liveness_updates(
                evs.subrange(0, i as int),
                present@.subrange(0, i as int),
            ),
        decreases episodes@.len() - i,
    {
        let e = &episodes[i];
        let p = present[i];
        corrected.push(e.with_downloaded(p));
        if e.downloaded != p {
            updates.push((e.id, p));
        }
        i = i + 1;
        proof {
            let pe = evs.subrange(0, i as int);
            let pp = present@.subrange(0, i as int);
            assert(pe.drop_last() =~= evs.subrange(0, i as int - 1));
            assert(pp.drop_last() =~= present@.subrange(0, i as int - 1));
            assert(pe.last() == evs[i as int - 1]);
            assert(updates@ == spec_liveness_updates(pe, pp));
        }
    }
    proof {
        assert(present@.subrange(0, present@.len() as int) =~= present@);
        assert(evs.subrange(0, evs.len() as int) =~= evs);
        assert forall|j: int| 0 <= j < evs.len() implies #[trigger] corrected.deep_view()[j]
            == spec_apply_liveness(evs, present@)[j] by {
            assert(corrected.deep_view()[j] == corrected@[j]@);
        }
        assert(corrected.deep_view() =~= spec_apply_liveness(evs, present@));
    }
    (corrected, updates)
}

} // verus!
