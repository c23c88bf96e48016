//! The play queue: an ordered list of episode ids, mutated by user
//! actions during a session and persisted as a single serialized unit.
//!
//! Serialization writes the ids as comma-separated decimal numbers;
//! parsing reads them back, and round-trips exactly. An id whose episode
//! has since been deleted is tolerated on reload: it is dropped, not a
//! failure.
use crate::episodes::{Episode, EpisodeView};
use crate::text::{
    all_digits,
    chars_to_string,
    digits_val,
    is_digit,
    lemma_digits_roundtrip,
    lemma_digits_val_nonneg,
    spec_digits,
    str_to_chars,
    u32_to_chars,
};
use vstd::prelude::*;

verus! {

/// The serialization of every queue entry after the first: a comma
/// before each id's decimal digits.
pub open spec fn spec_serialize_rest(ids: Seq<i32>) -> Seq<char>
    recommends
        forall|i: int| 0 <= i < ids.len() ==> ids[i] >= 0,
    decreases ids.len(),
{
    if ids.len() == 0 {
        Seq::empty()
    } else {
        seq![','] + spec_digits(ids[0] as int) + spec_serialize_rest(ids.skip(1))
    }
}

/// The persisted form of the queue: the ids as decimal numbers, joined
/// by commas; the empty queue serializes to the empty string.
pub open spec fn spec_serialize_queue(ids: Seq<i32>) -> Seq<char>
    recommends
        forall|i: int| 0 <= i < ids.len() ==> ids[i] >= 0,
{
    if ids.len() == 0 {
        Seq::empty()
    } else {
        spec_digits(ids[0] as int) + spec_serialize_rest(ids.skip(1))
    }
}

/// The first position at or after `i` holding a non-digit (or the end).
pub open spec fn take_digits(s: Seq<char>, i: int) -> int
    recommends
        0 <= i <= s.len(),
    decreases s.len() - i,
{
    if i < 0 || i >= s.len() || !is_digit(s[i]) {
        i
    } else {
        take_digits(s, i + 1)
    }
}

/// `take_digits` lands between `i` and the end, skips digits only, and
/// stops at a non-digit.
pub proof fn lemma_take_digits(s: Seq<char>, i: int)
    requires
        0 <= i <= s.len(),
    ensures
        i <= take_digits(s, i) <= s.len(),
        forall|m: int| i <= m < take_digits(s, i) ==> is_digit(s[m]),
        take_digits(s, i) < s.len() ==> !is_digit(s[take_digits(s, i)]),
    decreases s.len() - i,
{
    if i < s.len() && is_digit(s[i]) {
        lemma_take_digits(s, i + 1);
    }
}

/// A digit run bounded by a non-digit (or the end) is exactly what
/// `take_digits` takes.
proof fn lemma_take_digits_exact(s: Seq<char>, i: int, m: int)
    requires
        0 <= i <= m <= s.len(),
        forall|j: int| i <= j < m ==> is_digit(s[j]),
        m < s.len() ==> !is_digit(s[m]),
    ensures
        take_digits(s, i) == m,
    decreases m - i,
{
    if i < m {
        lemma_take_digits_exact(s, i + 1, m);
    }
}

/// The queue read back from position `i` of the serialized text: a
/// non-empty digit run, then either the end or a comma and the rest.
/// `None` when the text from `i` on is not of that shape or a number
/// does not fit an `i32`.
pub open spec fn spec_parse_queue_from(s: Seq<char>, i: int) -> Option<Seq<i32>>
    recommends
        0 <= i <= s.len(),
    decreases s.len() - i,
    when 0 <= i <= s.len()
    via spec_parse_queue_from_dec
{
    let j = take_digits(s, i);
    if j == i {
        None
    } else {
        let v = digits_val(s.subrange(i, j));
        if v > i32::MAX as int {
            None
        } else if j >= s.len() {
            Some(seq![v as i32])
        } else if s[j] == ',' {
            match spec_parse_queue_from(s, j + 1) {
                Some(rest) => Some(seq![v as i32] + rest),
                None => None,
            }
        } else {
            None
        }
    }
}

#[via_fn]
proof fn spec_parse_queue_from_dec(s: Seq<char>, i: int) {
    lemma_take_digits(s, i);
}

/// The queue read back from the serialized text; the empty string is the
/// empty queue.
pub open spec fn spec_parse_queue(s: Seq<char>) -> Option<Seq<i32>> {
    if s.len() == 0 {
        Some(Seq::empty())
    } else {
        spec_parse_queue_from(s, 0)
    }
}

/// Parsing a serialized non-empty queue embedded as the suffix of `s`
/// starting at `i` yields exactly the queue.
proof fn lemma_queue_roundtrip_from(ids: Seq<i32>, s: Seq<char>, i: int)
    requires
        0 <= i <= s.len(),
        ids.len() >= 1,
        forall|k: int| 0 <= k < ids.len() ==> ids[k] >= 0,
        s.subrange(i, s.len() as int) == spec_serialize_queue(ids),
    ensures
        spec_parse_queue_from(s, i) == Some(ids),
    decreases ids.len(),
{
    let d = spec_digits(ids[0] as int);
    lemma_digits_roundtrip(ids[0] as int);
    let suffix = s.subrange(i, s.len() as int);
    assert(suffix == d + spec_serialize_rest(ids.skip(1)));
    assert forall|m: int| i <= m < i + d.len() implies is_digit(s[m]) by {
        assert(s[m] == suffix[m - i]);
        assert(suffix[m - i] == d[m - i]);
    }
    if ids.len() == 1 {
        assert(ids.skip(1).len() == 0);
        assert(spec_serialize_rest(ids.skip(1)) == Seq::<char>::empty());
        assert(suffix =~= d);
        assert(i + d.len() == s.len());
        lemma_take_digits_exact(s, i, i + d.len());
        let j = take_digits(s, i);
        assert(j == i + d.len());
        assert(s.subrange(i, j) =~= d);
        assert(digits_val(s.subrange(i, j)) == ids[0] as int);
        assert(spec_parse_queue_from(s, i) == Some(seq![ids[0]]));
        assert(seq![ids[0]] =~= ids);
    } else {
        let rest = ids.skip(1);
        assert(rest.len() >= 1);
        assert(spec_serialize_rest(rest) == seq![','] + spec_digits(rest[0] as int)
            + spec_serialize_rest(rest.skip(1)));
        let m = i + d.len();
        assert(m < s.len()) by {
            assert(suffix.len() == d.len() + spec_serialize_rest(rest).len());
            assert(spec_serialize_rest(rest).len() >= 1);
        }
        assert(s[m] == suffix[m - i]);
        assert(suffix[d.len() as int] == spec_serialize_rest(rest)[0]);
        assert(spec_serialize_rest(rest)[0] == ',');
        assert(!is_digit(','));
        lemma_take_digits_exact(s, i, m);
        let j = take_digits(s, i);
        assert(j == m);
        assert(s.subrange(i, j) =~= d);
        assert(digits_val(s.subrange(i, j)) == ids[0] as int);
        assert(s.subrange(j + 1, s.len() as int) =~= spec_serialize_queue(rest)) by {
            assert(spec_serialize_queue(rest) == spec_digits(rest[0] as int)
                + spec_serialize_rest(rest.skip(1)));
            assert forall|p: int| j + 1 <= p < s.len() implies s[p] == spec_serialize_queue(
                rest,
            )[p - (j + 1)] by {
                assert(s[p] == suffix[p - i]);
                assert(suffix[p - i] == spec_serialize_rest(rest)[p - i - d.len()]);
            }
            assert(suffix.len() == d.len() + 1 + spec_serialize_queue(rest).len());
        }
        lemma_queue_roundtrip_from(rest, s, j + 1);
        assert(spec_parse_queue_from(s, i) == Some(seq![ids[0]] + rest));
        assert(seq![ids[0]] + rest =~= ids);
    }
}

/// Queue persistence round-trips: parsing the serialized form of any
/// queue of non-negative ids yields the identical ordered sequence.
pub proof fn lemma_queue_roundtrip(ids: Seq<i32>)
    requires
        forall|k: int| 0 <= k < ids.len() ==> ids[k] >= 0,
    ensures
        spec_parse_queue(spec_serialize_queue(ids)) == Some(ids),
{
    let s = spec_serialize_queue(ids);
    if ids.len() == 0 {
        assert(s.len() == 0);
        assert(Seq::<i32>::empty() =~= ids);
    } else {
        lemma_digits_roundtrip(ids[0] as int);
        assert(s.len() >= 1);
        assert(s.subrange(0, s.len() as int) =~= s);
        lemma_queue_roundtrip_from(ids, s, 0);
    }
}

/// The persisted form of the queue: the ids as decimal numbers joined by
/// commas (the empty queue gives the empty string).
pub fn serialize_queue(ids: &Vec<i32>) -> (r: String)
    requires
        forall|k: int| 0 <= k < ids@.len() ==> ids@[k] >= 0,
    ensures
        r@ == spec_serialize_queue(ids@),
{
    let mut v: Vec<char> = Vec::new();
    if ids.len() == 0 {
        return chars_to_string(&v);
    }
    let first = u32_to_chars(ids[0] as u32);
    crate::text::append_chars(&mut v, &first);
    let mut i: usize = 1;
    while i < ids.len()
        invariant
            1 <= i <= ids@.len(),
            forall|k: int| 0 <= k < ids@.len() ==> ids@[k] >= 0,
            v@ + spec_serialize_rest(ids@.skip(i as int)) == spec_serialize_queue(ids@),
        decreases ids@.len() - i,
    {
        let ghost pre = v@;
        v.push(',');
        let digits = u32_to_chars(ids[i] as u32);
        crate::text::append_chars(&mut v, &digits);
        i = i + 1;
        proof {
            let tail = ids@.skip(i as int - 1);
            assert(tail[0] == ids@[i as int - 1]);
            assert(tail.skip(1) =~= ids@.skip(i as int));
            assert(spec_serialize_rest(tail) == seq![','] + spec_digits(ids@[i as int - 1] as int)
                + spec_serialize_rest(ids@.skip(i as int)));
            assert(v@ =~= pre + seq![','] + spec_digits(ids@[i as int - 1] as int));
            assert(v@ + spec_serialize_rest(ids@.skip(i as int)) =~= pre + spec_serialize_rest(
                tail,
            ));
        }
    }
    proof {
        assert(ids@.skip(ids@.len() as int).len() == 0);
        assert(v@ + Seq::<char>::empty() =~= v@);
    }
    chars_to_string(&v)
}

/// Reads one id and the rest of the queue from position `i` on.
fn parse_queue_chars_from(s: &Vec<char>, i: usize) -> (r: Option<Vec<i32>>)
    requires
        i <= s@.len(),
    ensures
        r.deep_view() == spec_parse_queue_from(s@, i as int),
    decreases s@.len() - i,
{
    let mut j: usize = i;
    let mut val: u64 = 0;
    let mut ovf: bool = false;
    proof {
        assert(s@.subrange(i as int, i as int) =~= Seq::<char>::empty());
    }
    while j < s.len() && s[j] >= '0' && s[j] <= '9'
        invariant
            i <= j <= s@.len(),
            forall|m: int| i <= m < j ==> is_digit(s@[m]),
            all_digits(s@.subrange(i as int, j as int)),
            !ovf ==> val as int == digits_val(s@.subrange(i as int, j as int)) && val
                <= i32::MAX as u64,
            ovf ==> digits_val(s@.subrange(i as int, j as int)) > i32::MAX as int,
        decreases s@.len() - j,
    {
        let c = s[j];
        let d: u32 = (c as u32) - 48;
        j = j + 1;
        proof {
            let sub = s@.subrange(i as int, j as int);
            assert(sub.drop_last() =~= s@.subrange(i as int, j as int - 1));
            assert(sub.last() == s@[j as int - 1]);
            assert(digits_val(sub) == digits_val(sub.drop_last()) * 10 + (c as int - 48));
            lemma_digits_val_nonneg(sub.drop_last());
        }
        if !ovf {
            let next: u64 = val * 10 + (d as u64);
            if next > 2147483647u64 {
                ovf = true;
                proof {
                    assert(digits_val(s@.subrange(i as int, j as int)) > i32::MAX as int);
                }
            } else {
                val = next;
            }
        } else {
            proof {
                let sub = s@.subrange(i as int, j as int);
                assert(digits_val(sub.drop_last()) > i32::MAX as int);
                assert(digits_val(sub) > i32::MAX as int) by (nonlinear_arith)
                    requires
                        digits_val(sub) == digits_val(sub.drop_last()) * 10 + (c as int - 48),
                        digits_val(sub.drop_last()) > i32::MAX as int,
                        c as int - 48 >= 0,
                ;
            }
        }
    }
    proof {
        lemma_take_digits_exact(s@, i as int, j as int);
    }
    if j == i {
        return None;
    }
    if ovf {
        return None;
    }
    let v: i32 = val as i32;
    if j >= s.len() {
        let mut one: Vec<i32> = Vec::new();
        one.push(v);
        proof {
            assert(one.deep_view() =~= seq![v]);
        }
        return Some(one);
    }
    if s[j] == ',' {
        match parse_queue_chars_from(s, j + 1) {
            Some(mut rest) => {
                rest.insert(0, v);
                proof {
                    let spec_rest = spec_parse_queue_from(s@, j as int + 1)->Some_0;
                    assert(rest.deep_view() =~= seq![v] + spec_rest);
                }
                Some(rest)
            },
            None => None,
        }
    } else {
        None
    }
}

/// The queue read back from its persisted text: `None` when the text is
/// not comma-separated decimal numbers each fitting an `i32`; the empty
/// string is the empty queue.
pub fn parse_queue(s: &str) -> (r: Option<Vec<i32>>)
    ensures
        r.deep_view() == spec_parse_queue(s@),
{
    let chars = str_to_chars(s);
    if chars.len() == 0 {
        let empty: Vec<i32> = Vec::new();
        proof {
            assert(empty.deep_view() =~= Seq::<i32>::empty());
        }
        return Some(empty);
    }
    parse_queue_chars_from(&chars, 0)
}

/// A queue mutation requested by the user.
#[derive(Debug, Clone, PartialEq, Eq, Structural)]
pub enum PodQueueMessage {
    RemoveFromQueue(i32),
    AddToQueue(i32),
    MoveToPosition(usize, usize),
}

/// Applies one user action to the queue of episode ids: add appends,
/// remove drops every entry with the id, and move-to-position takes the
/// entry at `from` out and reinserts it at `to` (out-of-range positions
/// leave the queue unchanged).
pub fn update_queue(queue: &mut Vec<i32>, message: &PodQueueMessage)
    ensures
        match *message {
            PodQueueMessage::AddToQueue(id) => final(queue)@ == old(queue)@.push(id),
            PodQueueMessage::RemoveFromQueue(id) => final(queue)@ == old(queue)@.filter(
                |x: i32| x != id,
            ),
            PodQueueMessage::MoveToPosition(from, to) => if from < old(queue)@.len() && to < old(
                queue,
            )@.len() {
                final(queue)@ == old(queue)@.remove(from as int).insert(
                    to as int,
                    old(queue)@[from as int],
                )
            } else {
                final(queue)@ == old(queue)@
            },
        },
{
    match message {
        PodQueueMessage::AddToQueue(id) => {
            queue.push(*id);
        },
        PodQueueMessage::RemoveFromQueue(id) => {
            let mut kept: Vec<i32> = Vec::new();
            let mut i: usize = 0;
            proof {
                reveal(Seq::filter);
                assert(old(queue)@.subrange(0, 0).filter(|x: i32| x != *id) =~= kept@);
            }
            while i < queue.len()
                invariant
                    queue@ == old(queue)@,
                    i <= queue@.len(),
                    kept@ == queue@.subrange(0, i as int).filter(|x: i32| x != *id),
                decreases queue@.len() - i,
            {
                let ghost pfx = queue@.subrange(0, i as int);
                let x = queue[i];
                if x != *id {
                    kept.push(x);
                }
                i = i + 1;
                proof {
                    reveal(Seq::filter);
                    let pfx2 = queue@.subrange(0, i as int);
                    assert(pfx2.drop_last() =~= pfx);
                    assert(pfx2.last() == queue@[i as int - 1]);
                    assert(kept@ =~= pfx2.filter(|x: i32| x != *id));
                }
            }
            proof {
                assert(queue@.subrange(0, queue@.len() as int) =~= queue@);
            }
            *queue = kept;
        },
        PodQueueMessage::MoveToPosition(from, to) => {
            if *from < queue.len() && *to < queue.len() {
                let x = queue[*from];
                queue.remove(*from);
                queue.insert(*to, x);
            }
        },
    }
}

/// The first episode of the list with the given id.
pub open spec fn spec_find_episode(eps: Seq<EpisodeView>, id: int) -> Option<EpisodeView>
    decreases eps.len(),
{
    if eps.len() == 0 {
        None
    } else if eps[0].id == id {
        Some(eps[0])
    } else {
        spec_find_episode(eps.skip(1), id)
    }
}

/// The live episodes of the queue, in queue order: each id resolved
/// against the current episode list, ids of deleted episodes dropped.
pub open spec fn spec_refresh_queue(ids: Seq<i32>, eps: Seq<EpisodeView>) -> Seq<EpisodeView>
    decreases ids.len(),
{
    if ids.len() == 0 {
        Seq::empty()
    } else {
        spec_refresh_queue(ids.drop_last(), eps) + (match spec_find_episode(
            eps,
            ids.last() as int,
        ) {
            Some(e) => seq![e],
            None => Seq::empty(),
        })
    }
}

/// The first episode of `eps` whose id is `id`, if any.
pub fn find_episode_by_id(eps: &Vec<Episode>, id: i32) -> (r: Option<Episode>)
    ensures
        r.deep_view() == spec_find_episode(eps.deep_view(), id as int),
{
    let ghost evs = eps.deep_view();
    let mut i: usize = 0;
    proof {
        assert(evs.skip(0) =~= evs);
    }
    while i < eps.len()
        invariant
            evs == eps.deep_view(),
            evs.len() == eps@.len(),
            i <= eps@.len(),
            spec_find_episode(evs, id as int) == spec_find_episode(
                evs.skip(i as int),
                id as int,
            ),
        decreases eps@.len() - i,
    {
        proof {
            assert(evs[i as int] == eps@[i as int]@);
            assert(evs.skip(i as int)[0] == evs[i as int]);
        }
        if eps[i].id == id {
            let found = eps[i].duplicate();
            proof {
                assert(spec_find_episode(evs.skip(i as int), id as int) == Some(evs[i as int]));
            }
            return Some(found);
        }
        i = i + 1;
        proof {
            assert(evs.skip(i as int - 1).skip(1) =~= evs.skip(i as int));
        }
    }
    proof {
        assert(evs.skip(evs.len() as int).len() == 0);
    }
    None
}

/// Resolves every queued id against the current episode list, in queue
/// order, dropping the ids whose episode no longer exists.
pub fn refresh_queue(ids: &Vec<i32>, eps: &Vec<Episode>) -> (r: Vec<Episode>)
    ensures
        r.deep_view() == spec_refresh_queue(ids@, eps.deep_view()),
{
    let ghost evs = eps.deep_view();
    let mut r: Vec<Episode> = Vec::new();
    let mut i: usize = 0;
    proof {
        assert(r.deep_view() =~= spec_refresh_queue(ids@.subrange(0, 0), evs));
    }
    while i < ids.len()
        invariant
            evs == eps.deep_view(),
            i <= ids@.len(),
            r.deep_view() == spec_refresh_queue(ids@.subrange(0, i as int), evs),
        decreases ids@.len() - i,
    {
        let ghost pre = r.deep_view();
        match find_episode_by_id(eps, ids[i]) {
            Some(e) => {
                r.push(e);
            },
            None => {},
        }
        i = i + 1;
        proof {
            let pfx = ids@.subrange(0, i as int);
            assert(pfx.drop_last() =~= ids@.subrange(0, i as int - 1));
            assert(pfx.last() == ids@[i as int - 1]);
            assert(r.deep_view() =~= spec_refresh_queue(pfx, evs));
        }
    }
    proof {
        assert(ids@.subrange(0, ids@.len() as int) =~= ids@);
    }
    r
}

} // verus!
