//! Countdown records as the engine sees them: an identifier, a local date,
//! a pinned flag, and a payload the engine carries without reading.

use vstd::prelude::*;
use crate::badge::{
    badge_label, days_remaining, days_remaining_spec, label_text, minute_parse, target_instant_ms,
    within_offset_of,
};

verus! {

/// One countdown. `payload` holds whatever else the record stores.
#[derive(Debug)]
pub struct CountdownRecord<P> {
    pub id: Option<String>,
    pub date: Option<String>,
    pub pinned: bool,
    pub payload: P,
}

/// Whether `r` carries the identifier `id`.
pub open spec fn has_id<P>(r: CountdownRecord<P>, id: Seq<char>) -> bool {
    r.id matches Some(s) && s@ == id
}

/// Whether `i` is the first position of `s` whose record carries `id`.
pub open spec fn is_first_with_id<P>(s: Seq<CountdownRecord<P>>, i: int, id: Seq<char>) -> bool {
    &&& 0 <= i < s.len()
    &&& has_id(s[i], id)
    &&& forall|j: int| 0 <= j < i ==> !has_id(#[trigger] s[j], id)
}

/// `s` with only the first record carrying `id` pinned.
pub open spec fn pin_spec<P>(s: Seq<CountdownRecord<P>>, id: Seq<char>) -> Seq<
    CountdownRecord<P>,
> {
    Seq::new(s.len(), |i: int| CountdownRecord { pinned: is_first_with_id(s, i, id), ..s[i] })
}

/// `s` without the records that carry `id`, in order.
pub open spec fn without_id<P>(s: Seq<CountdownRecord<P>>, id: Seq<char>) -> Seq<
    CountdownRecord<P>,
>
    decreases s.len(),
{
    if s.len() == 0 {
        s
    } else {
        let rest = without_id(s.drop_last(), id);
        if has_id(s.last(), id) {
            rest
        } else {
            rest.push(s.last())
        }
    }
}

/// Position of the first record that carries `id`, if any.
pub fn find_by_id<P>(records: &Vec<CountdownRecord<P>>, id: &String) -> (r: Option<usize>)
    ensures
        r matches Some(i) ==> is_first_with_id(records@, i as int, id@),
        r is None ==> forall|j: int| 0 <= j < records@.len() ==> !has_id(#[trigger] records@[j], id@),
{
    let mut i: usize = 0;
    while i < records.len()
        invariant
            i <= records@.len(),
            forall|j: int| 0 <= j < i ==> !has_id(#[trigger] records@[j], id@),
        decreases records@.len() - i,
    {
        let found = match &records[i].id {
            Some(s) => *s == *id,
            None => false,
        };
        if found {
            return Some(i);
        }
        i = i + 1;
    }
    None
}

/// Position of the first pinned record, if any.
pub fn first_pinned<P>(records: &Vec<CountdownRecord<P>>) -> (r: Option<usize>)
    ensures
        r matches Some(i) ==> i < records@.len() && records@[i as int].pinned && forall|j: int|
            0 <= j < i ==> !(#[trigger] records@[j]).pinned,
        r is None ==> forall|j: int| 0 <= j < records@.len() ==> !(#[trigger] records@[j]).pinned,
{
    let mut i: usize = 0;
    while i < records.len()
        invariant
            i <= records@.len(),
            forall|j: int| 0 <= j < i ==> !(#[trigger] records@[j]).pinned,
        decreases records@.len() - i,
    {
        if records[i].pinned {
            return Some(i);
        }
        i = i + 1;
    }
    None
}

/// Unpins every record, then pins the first one that carries `id`.
pub fn pin<P>(records: &mut Vec<CountdownRecord<P>>, id: &String)
    ensures
        final(records)@ == pin_spec(old(records)@, id@),
{
    let ghost before = records@;
    let found = find_by_id(records, id);
    let mut i: usize = 0;
    while i < records.len()
        invariant
            records@.len() == before.len(),
            i <= before.len(),
            found matches Some(f) ==> is_first_with_id(before, f as int, id@),
            found is None ==> forall|j: int| 0 <= j < before.len() ==> !has_id(#[trigger] before[j], id@),
            forall|j: int| 0 <= j < i ==> #[trigger] records@[j] == pin_spec(before, id@)[j],
            forall|j: int| i <= j < before.len() ==> #[trigger] records@[j] == before[j],
        decreases before.len() - i,
    {
        let now_pinned = match found {
            Some(f) => f == i,
            None => false,
        };
        proof {
            if now_pinned != is_first_with_id(before, i as int, id@) {
                let f = found->Some_0;
                if (f as int) < i {
                    assert(has_id(before[f as int], id@));
                } else {
                    assert(has_id(before[i as int], id@));
                }
            }
        }
        records[i].pinned = now_pinned;
        i = i + 1;
    }
    assert(records@ =~= pin_spec(before, id@));
}

/// Stores `record`: it replaces the first record with the same identifier,
/// or is appended when there is none. A record without an identifier is
/// dropped and the list left as it was.
pub fn upsert<P>(records: &mut Vec<CountdownRecord<P>>, record: CountdownRecord<P>)
    ensures
        record.id is None ==> final(records)@ == old(records)@,
        record.id matches Some(id) ==> (exists|i: int| is_first_with_id(old(records)@, i, id@))
            ==> (exists|i: int|
            is_first_with_id(old(records)@, i, id@) && final(records)@ == old(records)@.update(
                i,
                record,
            )),
        record.id matches Some(id) ==> (forall|j: int|
            0 <= j < old(records)@.len() ==> !has_id(#[trigger] old(records)@[j], id@))
            ==> final(records)@ == old(records)@.push(record),
{
    let pos = match &record.id {
        Some(id) => Some(find_by_id(records, id)),
        None => None,
    };
    match pos {
        None => {},
        Some(None) => {
            records.push(record);
        },
        Some(Some(i)) => {
            records[i] = record;
        },
    }
}

/// Removes every record that carries `id`, keeping the others in order.
pub fn remove_id<P>(records: &mut Vec<CountdownRecord<P>>, id: &String)
    ensures
        final(records)@ == without_id(old(records)@, id@),
{
    let ghost before = records@;
    let mut kept: Vec<CountdownRecord<P>> = Vec::new();
    let ghost mut k: int = 0;
    while records.len() > 0
        invariant
            0 <= k <= before.len(),
            records@ == before.subrange(k, before.len() as int),
            kept@ == without_id(before.subrange(0, k), id@),
        decreases records@.len(),
    {
        let r = records.remove(0);
        let matches_id = match &r.id {
            Some(s) => *s == *id,
            None => false,
        };
        proof {
            let prefix = before.subrange(0, k + 1);
            assert(prefix.drop_last() =~= before.subrange(0, k));
            assert(prefix.last() == r);
        }
        if !matches_id {
            kept.push(r);
        }
        proof {
            k = k + 1;
        }
        assert(records@ =~= before.subrange(k, before.len() as int));
    }
    assert(before.subrange(0, k) =~= before);
    *records = kept;
}

/// The badge title at `now_ms`: `None` when no record is pinned or the first
/// pinned one has no date; otherwise the label of the days remaining until
/// that date, which counts as 0 when it does not parse.
pub fn badge_title_at<P>(records: &Vec<CountdownRecord<P>>, now_ms: i64) -> (title: Option<String>)
    ensures
        title is None <==> (forall|j: int| 0 <= j < records@.len() ==> !(#[trigger] records@[j]).pinned)
            || (exists|i: int| 0 <= i < records@.len() && records@[i].pinned && records@[i].date is None
                && forall|j: int| 0 <= j < i ==> !(#[trigger] records@[j]).pinned),
        title matches Some(t) ==> forall|i: int|
            0 <= i < records@.len() && (#[trigger] records@[i]).pinned && (forall|j: int|
                0 <= j < i ==> !(#[trigger] records@[j]).pinned) && records@[i].date is Some
                ==> exists|target: Option<i64>|
                t@ == label_text(days_remaining_spec(target, now_ms as int)) && (target matches Some(
                    at,
                ) ==> (minute_parse(records@[i].date->Some_0@) matches Some(m) && within_offset_of(
                    at as int,
                    m,
                ))),
        title matches Some(t) ==> forall|i: int|
            0 <= i < records@.len() && (#[trigger] records@[i]).pinned && (forall|j: int|
                0 <= j < i ==> !(#[trigger] records@[j]).pinned) && (records@[i].date matches Some(
                d,
            ) && minute_parse(d@) is None) ==> t@ == label_text(0),
{
    match first_pinned(records) {
        None => None,
        Some(i) => match &records[i].date {
            None => None,
            Some(date) => {
                let target = target_instant_ms(date.as_str());
                let label = badge_label(days_remaining(target, now_ms));
                assert(label@ == label_text(days_remaining_spec(target, now_ms as int)));
                Some(label)
            },
        },
    }
}

/// Pinning an identifier that some record carries leaves exactly one record
/// pinned, and that record carries the identifier.
pub proof fn lemma_pin_exactly_one<P>(s: Seq<CountdownRecord<P>>, id: Seq<char>, w: int)
    requires
        0 <= w < s.len(),
        has_id(s[w], id),
    ensures
        exists|k: int|
            0 <= k < s.len() && (#[trigger] pin_spec(s, id)[k]).pinned && has_id(
                pin_spec(s, id)[k],
                id,
            ) && forall|j: int|
                0 <= j < s.len() && j != k ==> !(#[trigger] pin_spec(s, id)[j]).pinned,
{
    let f = lemma_first_with_id(s, id, 0, w);
    assert forall|j: int| 0 <= j < s.len() && j != f implies !(#[trigger] pin_spec(s, id)[j]).pinned by {
        if j > f {
            assert(has_id(s[f], id));
        }
    }
    assert(pin_spec(s, id)[f].pinned);
}

/// Searching from `k`, below which no record carries `id`, finds a first
/// position that does, no later than the known one `w`.
proof fn lemma_first_with_id<P>(s: Seq<CountdownRecord<P>>, id: Seq<char>, k: int, w: int) -> (f: int)
    requires
        0 <= k <= w < s.len(),
        has_id(s[w], id),
        forall|j: int| 0 <= j < k ==> !has_id(#[trigger] s[j], id),
    ensures
        is_first_with_id(s, f, id),
    decreases w - k,
{
    if has_id(s[k], id) {
        k
    } else {
        assert forall|j: int| 0 <= j < k + 1 implies !has_id(#[trigger] s[j], id) by {
            if j == k {
            }
        }
        lemma_first_with_id(s, id, k + 1, w)
    }
}

} // verus!
