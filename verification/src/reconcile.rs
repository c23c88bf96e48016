//! The episode reconciler: merges parsed episode records into the
//! persisted episode set without creating duplicates.
//!
//! Episodes are keyed by `(guid, feed_id)`. The policy is insert-if-absent,
//! ignore-if-present: re-parsing the same item must not reset play progress
//! or download state. A record whose publish date is not valid RFC 2822 is
//! skipped with a warning instead of failing the batch; an inserted row
//! carries the normalized date.
use crate::dates::{normalize_publish_date, spec_rfc2822_normalized};
use crate::episodes::{Episode, EpisodeView};
use vstd::prelude::*;

verus! {

/// Whether an episode with key `(guid, feed_id)` is in the list.
pub open spec fn spec_has_key(eps: Seq<EpisodeView>, guid: Seq<char>, feed_id: int) -> bool {
    exists|i: int|
        0 <= i < eps.len() && #[trigger] eps[i].guid == guid && eps[i].feed_id == feed_id
}

/// No two episodes of the list share a `(guid, feed_id)` key.
pub open spec fn spec_keys_unique(eps: Seq<EpisodeView>) -> bool {
    forall|i: int, j: int|
        0 <= i < j < eps.len() ==> !(#[trigger] eps[i].guid == #[trigger] eps[j].guid
            && eps[i].feed_id == eps[j].feed_id)
}

/// `e` with its `date` field replaced by `d`.
pub open spec fn spec_with_date(e: EpisodeView, d: Seq<char>) -> EpisodeView {
    EpisodeView { date: d, ..e }
}

/// One upsert: a record with an invalid date is dropped; a record whose
/// key is already present is ignored; otherwise the record is appended
/// with its date normalized.
pub open spec fn spec_upsert(db: Seq<EpisodeView>, e: EpisodeView) -> Seq<EpisodeView> {
    match spec_rfc2822_normalized(e.date) {
        Some(d) => if spec_has_key(db, e.guid, e.feed_id) {
            db
        } else {
            db.push(spec_with_date(e, d))
        },
        None => db,
    }
}

/// The episode set after reconciling `incoming` into `db`, record by
/// record, in order.
pub open spec fn spec_reconcile(db: Seq<EpisodeView>, incoming: Seq<EpisodeView>) -> Seq<
    EpisodeView,
>
    decreases incoming.len(),
{
    if incoming.len() == 0 {
        db
    } else {
        spec_upsert(spec_reconcile(db, incoming.drop_last()), incoming.last())
    }
}

/// The guids of the records skipped for an invalid publish date, in order.
pub open spec fn spec_invalid_guids(incoming: Seq<EpisodeView>) -> Seq<Seq<char>>
    decreases incoming.len(),
{
    if incoming.len() == 0 {
        Seq::empty()
    } else {
        let prefix = spec_invalid_guids(incoming.drop_last());
        if spec_rfc2822_normalized(incoming.last().date) is None {
            prefix.push(incoming.last().guid)
        } else {
            prefix
        }
    }
}

/// Reconciliation only ever appends: the persisted rows keep their place
/// and their fields (in particular played/downloaded state).
pub proof fn lemma_reconcile_preserves_existing(db: Seq<EpisodeView>, incoming: Seq<EpisodeView>)
    ensures
        spec_reconcile(db, incoming).len() >= db.len(),
        forall|i: int| 0 <= i < db.len() ==> #[trigger] spec_reconcile(db, incoming)[i] == db[i],
    decreases incoming.len(),
{
    if incoming.len() > 0 {
        lemma_reconcile_preserves_existing(db, incoming.drop_last());
    }
}

/// After one reconciliation, every incoming record either has an invalid
/// date or its key is present in the result.
proof fn lemma_reconcile_covers_incoming(
    db: Seq<EpisodeView>,
    incoming: Seq<EpisodeView>,
    k: int,
)
    requires
        0 <= k < incoming.len(),
        spec_rfc2822_normalized(incoming[k].date) is Some,
    ensures
        spec_has_key(spec_reconcile(db, incoming), incoming[k].guid, incoming[k].feed_id),
    decreases incoming.len(),
{
    let prev = spec_reconcile(db, incoming.drop_last());
    let e = incoming.last();
    if k == incoming.len() - 1 {
        if spec_has_key(prev, e.guid, e.feed_id) {
            assert(spec_reconcile(db, incoming) == prev);
        } else {
            let r = prev.push(spec_with_date(e, spec_rfc2822_normalized(e.date)->Some_0));
            assert(r[r.len() - 1].guid == e.guid && r[r.len() - 1].feed_id == e.feed_id);
        }
    } else {
        lemma_reconcile_covers_incoming(db, incoming.drop_last(), k);
        let guid = incoming[k].guid;
        let feed_id = incoming[k].feed_id;
        let w = choose|i: int|
            0 <= i < prev.len() && #[trigger] prev[i].guid == guid && prev[i].feed_id == feed_id;
        assert(spec_upsert(prev, e).len() >= prev.len());
        assert(spec_reconcile(db, incoming)[w] == prev[w]);
    }
}

/// Reconciling a set whose records are all either invalid or already
/// keyed in the database changes nothing.
proof fn lemma_reconcile_noop(db: Seq<EpisodeView>, incoming: Seq<EpisodeView>)
    requires
        forall|k: int|
            0 <= k < incoming.len() ==> (#[trigger] spec_rfc2822_normalized(incoming[k].date)
                is None || spec_has_key(db, incoming[k].guid, incoming[k].feed_id)),
    ensures
        spec_reconcile(db, incoming) == db,
    decreases incoming.len(),
{
    if incoming.len() > 0 {
        let prefix = incoming.drop_last();
        assert forall|k: int|
            0 <= k < prefix.len() implies (#[trigger] spec_rfc2822_normalized(prefix[k].date)
            is None || spec_has_key(db, prefix[k].guid, prefix[k].feed_id)) by {
            assert(prefix[k] == incoming[k]);
            assert(spec_rfc2822_normalized(incoming[k].date) is None || spec_has_key(
                db,
                incoming[k].guid,
                incoming[k].feed_id,
            ));
        }
        lemma_reconcile_noop(db, prefix);
        let e = incoming.last();
        assert(e == incoming[incoming.len() - 1]);
    }
}

/// Reconciliation is idempotent: running the reconciler twice with the
/// same record set yields exactly the state the first run produced — one
/// row per `(guid, feed_id)`, with the rows of the first run (and so all
/// pre-existing played/downloaded state) untouched by the second run.
pub proof fn lemma_reconcile_idempotent(db: Seq<EpisodeView>, incoming: Seq<EpisodeView>)
    ensures
        spec_reconcile(spec_reconcile(db, incoming), incoming) == spec_reconcile(db, incoming),
{
    let once = spec_reconcile(db, incoming);
    assert forall|k: int|
        0 <= k < incoming.len() implies (#[trigger] spec_rfc2822_normalized(incoming[k].date)
        is None || spec_has_key(once, incoming[k].guid, incoming[k].feed_id)) by {
        if spec_rfc2822_normalized(incoming[k].date) is Some {
            lemma_reconcile_covers_incoming(db, incoming, k);
        }
    }
    lemma_reconcile_noop(once, incoming);
}

/// Reconciliation never creates a duplicate key: a database with unique
/// `(guid, feed_id)` keys still has unique keys after any reconciliation.
pub proof fn lemma_reconcile_keys_unique(db: Seq<EpisodeView>, incoming: Seq<EpisodeView>)
    requires
        spec_keys_unique(db),
    ensures
        spec_keys_unique(spec_reconcile(db, incoming)),
    decreases incoming.len(),
{
    if incoming.len() > 0 {
        lemma_reconcile_keys_unique(db, incoming.drop_last());
        let prev = spec_reconcile(db, incoming.drop_last());
        let e = incoming.last();
        match spec_rfc2822_normalized(e.date) {
            Some(d) => {
                if !spec_has_key(prev, e.guid, e.feed_id) {
                    let r = prev.push(spec_with_date(e, d));
                    assert forall|i: int, j: int| 0 <= i < j < r.len() implies !(#[trigger] r[i].guid
                        == #[trigger] r[j].guid && r[i].feed_id == r[j].feed_id) by {
                        if j == r.len() - 1 {
                            assert(r[i] == prev[i]);
                            assert(!(prev[i].guid == e.guid && prev[i].feed_id == e.feed_id));
                        }
                    }
                }
            },
            None => {},
        }
    }
}

/// What one character of feed-controlled text becomes under defensive
/// escaping: each quoting character a string-interpolating store is
/// sensitive to is doubled.
pub open spec fn spec_escape_char(c: char) -> Seq<char> {
    if c == '\'' {
        seq!['\'', '\'']
    } else if c == '"' {
        seq!['"', '"']
    } else {
        seq![c]
    }
}

/// `s` with every single and double quote doubled.
pub open spec fn spec_sanitize(s: Seq<char>) -> Seq<char>
    decreases s.len(),
{
    if s.len() == 0 {
        Seq::empty()
    } else {
        spec_sanitize(s.drop_last()) + spec_escape_char(s.last())
    }
}

/// Defensively escapes feed-controlled text for a storage layer that
/// interpolates it into query text: every `'` becomes `''` and every
/// `"` becomes `""`. A store driven through bound parameters does not
/// need this.
pub fn sanitize_title(title: &str) -> (r: String)
    ensures
        r@ == spec_sanitize(title@),
{
    let chars = crate::text::str_to_chars(title);
    let mut out: Vec<char> = Vec::new();
    let mut i: usize = 0;
    proof {
        assert(out@ =~= spec_sanitize(chars@.subrange(0, 0)));
    }
    while i < chars.len()
        invariant
            i <= chars@.len(),
            out@ == spec_sanitize(chars@.subrange(0, i as int)),
        decreases chars@.len() - i,
    {
        let c = chars[i];
        if c == '\'' {
            out.push('\'');
            out.push('\'');
        } else if c == '"' {
            out.push('"');
            out.push('"');
        } else {
            out.push(c);
        }
        i = i + 1;
        proof {
            let pfx = chars@.subrange(0, i as int);
            assert(pfx.drop_last() =~= chars@.subrange(0, i as int - 1));
            assert(pfx.last() == chars@[i as int - 1]);
            assert(out@ =~= spec_sanitize(pfx));
        }
    }
    proof {
        assert(chars@.subrange(0, chars@.len() as int) =~= chars@);
    }
    crate::text::chars_to_string(&out)
}

/// Whether an episode with key `(guid, feed_id)` is in the list.
pub fn has_key(eps: &Vec<Episode>, guid: &String, feed_id: i32) -> (r: bool)
    ensures
        r == spec_has_key(eps.deep_view(), guid@, feed_id as int),
{
    let mut i: usize = 0;
    while i < eps.len()
        invariant
            i <= eps@.len(),
            forall|j: int|
                0 <= j < i ==> !(#[trigger] eps@[j]@.guid == guid@ && eps@[j]@.feed_id
                    == feed_id as int),
        decreases eps@.len() - i,
    {
        if eps[i].guid.eq(guid) && eps[i].feed_id == feed_id {
            proof {
                assert(eps.deep_view()[i as int].guid == guid@);
            }
            return true;
        }
        i = i + 1;
    }
    proof {
        assert forall|j: int| 0 <= j < eps.deep_view().len() implies !(#[trigger] eps.deep_view()[j].guid
            == guid@ && eps.deep_view()[j].feed_id == feed_id as int) by {
            assert(eps.deep_view()[j] == eps@[j]@);
        }
    }
    false
}

/// What one reconciliation run produced: the new episode set, the rows
/// that must be inserted into the store, and the guids skipped for an
/// invalid publish date.
pub struct ReconcileOutcome {
    pub episodes: Vec<Episode>,
    pub inserted: Vec<Episode>,
    pub warnings: Vec<String>,
}

impl Episode {
    /// A copy of the episode with the `date` field replaced by `d`.
    fn with_date(&self, d: String) -> (r: Episode)
        ensures
            r@ == spec_with_date(self@, d@),
    {
        Episode {
            id: self.id,
            guid: self.guid.clone(),
            title: self.title.clone(),
            date: d,
            played: self.played,
            played_seconds: self.played_seconds,
            file_name: self.file_name.clone(),
            url: self.url.clone(),
            feed_id: self.feed_id,
            downloaded: self.downloaded,
        }
    }
}

/// Reconciles the parsed records `incoming` into the persisted set `db`:
/// insert-if-absent on the `(guid, feed_id)` key, records with an invalid
/// publish date skipped with a warning, everything already persisted left
/// untouched. `inserted` holds exactly the appended rows.
pub fn reconcile_episodes(db: &Vec<Episode>, incoming: &Vec<Episode>) -> (r: ReconcileOutcome)
    ensures
        r.episodes.deep_view() == spec_reconcile(db.deep_view(), incoming.deep_view()),
        r.episodes.deep_view() == db.deep_view() + r.inserted.deep_view(),
        r.warnings.deep_view() == spec_invalid_guids(incoming.deep_view()),
{
    let ghost dbv = db.deep_view();
    let ghost inv = incoming.deep_view();
    let mut episodes: Vec<Episode> = Vec::new();
    let mut inserted: Vec<Episode> = Vec::new();
    let mut warnings: Vec<String> = Vec::new();
    let mut i: usize = 0;
    // start from a copy of the persisted set
    while i < db.len()
        invariant
            dbv == db.deep_view(),
            i <= db@.len(),
            dbv.len() == db@.len(),
            episodes@.len() == i,
            forall|j: int| 0 <= j < i ==> #[trigger] episodes@[j]@ == dbv[j],
        decreases db@.len() - i,
    {
        proof {
            assert(dbv[i as int] == db@[i as int]@);
        }
        episodes.push(db[i].duplicate());
        i = i + 1;
    }
    proof {
        assert(episodes.deep_view() =~= dbv);
        assert(inv.subrange(0, 0) =~= Seq::<EpisodeView>::empty());
    }
    let mut k: usize = 0;
    while k < incoming.len()
        invariant
            dbv == db.deep_view(),
            inv == incoming.deep_view(),
            inv.len() == incoming@.len(),
            k <= incoming@.len(),
            episodes.deep_view() == spec_reconcile(dbv, inv.subrange(0, k as int)),
            episodes.deep_view() == dbv + inserted.deep_view(),
            warnings.deep_view() == spec_invalid_guids(inv.subrange(0, k as int)),
        decreases incoming@.len() - k,
    {
        proof {
            assert(inv[k as int] == incoming@[k as int]@);
        }
        let e = &incoming[k];
        let ghost pre = episodes.deep_view();
        let ghost prew = warnings.deep_view();
        let ghost prei = inserted.deep_view();
        match normalize_publish_date(e.date.as_str()) {
            Some(d) => {
                if !has_key(&episodes, &e.guid, e.feed_id) {
                    let row = e.with_date(d);
                    inserted.push(row.duplicate());
                    episodes.push(row);
                }
            },
            None => {
                warnings.push(e.guid.clone());
            },
        }
        k = k + 1;
        proof {
            let pfx = inv.subrange(0, k as int);
            assert(pfx.drop_last() =~= inv.subrange(0, k as int - 1));
            assert(pfx.last() == inv[k as int - 1]);
            assert(episodes.deep_view() =~= spec_upsert(pre, inv[k as int - 1]));
            assert(warnings.deep_view() =~= spec_invalid_guids(pfx));
            assert(episodes.deep_view() =~= dbv + inserted.deep_view());
        }
    }
    proof {
        assert(inv.subrange(0, inv.len() as int) =~= inv);
    }
    ReconcileOutcome { episodes, inserted, warnings }
}

} // verus!
