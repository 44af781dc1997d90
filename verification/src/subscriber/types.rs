//! The computation behind the discovery event producer: on every poll
//! of the API-group discovery document it compares the freshly listed
//! group-resources against the set delivered so far, emitting upserts
//! for newly seen group-resources and removals for ones that
//! disappeared between polls — a set difference in each direction.
//! The polling itself talks to a live cluster and lives with the
//! unverified shell, which hands the listing here as plain values.

use vstd::prelude::*;

use crate::subscriber::Event;
use crate::subscriber::EventKey;
use crate::subscriber::GroupResource;
use crate::subscriber::GroupResourceView;

verus! {

/// Whether some key in the sequence has this view.
pub open spec fn has_group(keys: Seq<GroupResource>, kv: GroupResourceView) -> bool {
    exists|i: int| 0 <= i < keys.len() && (#[trigger] keys[i])@ == kv
}

/// Whether some listed pair's key has this view.
pub open spec fn has_listed<Entry>(
    listing: Seq<(GroupResource, Entry)>,
    kv: GroupResourceView,
) -> bool {
    exists|i: int| 0 <= i < listing.len() && (#[trigger] listing[i]).0@ == kv
}

/// The upsert events one poll emits: one per listed group-resource not
/// yet delivered, in listing order, carrying its entry.
pub open spec fn spec_upserts<Entry>(
    listing: Seq<(GroupResource, Entry)>,
    delivered: Seq<GroupResource>,
) -> Seq<Event<GroupResource, Entry>>
    decreases listing.len(),
{
    if listing.len() == 0 {
        Seq::empty()
    } else {
        let rest = spec_upserts(listing.drop_last(), delivered);
        let p = listing.last();
        if has_group(delivered, p.0@) {
            rest
        } else {
            rest.push(Event { key: p.0, entry: Some(p.1), known: false })
        }
    }
}

/// The removal events one poll emits: one per previously delivered
/// group-resource that is no longer listed, in delivered order.
pub open spec fn spec_removals<Entry>(
    delivered: Seq<GroupResource>,
    listing: Seq<(GroupResource, Entry)>,
) -> Seq<Event<GroupResource, Entry>>
    decreases delivered.len(),
{
    if delivered.len() == 0 {
        Seq::empty()
    } else {
        let rest = spec_removals(delivered.drop_last(), listing);
        let g = delivered.last();
        if has_listed(listing, g@) {
            rest
        } else {
            rest.push(Event { key: g, entry: None, known: true })
        }
    }
}

/// What the upserts are: each one carries a listed key that was not
/// yet delivered, with that key's listed entry; and every listed key
/// not yet delivered is carried by one of them.
pub proof fn lemma_upserts_exact<Entry>(
    listing: Seq<(GroupResource, Entry)>,
    delivered: Seq<GroupResource>,
)
    ensures
        forall|j: int|
            0 <= j < spec_upserts(listing, delivered).len() ==> {
                let ev = #[trigger] spec_upserts(listing, delivered)[j];
                &&& ev.entry is Some
                &&& !has_group(delivered, ev.key@)
                &&& exists|i: int|
                    0 <= i < listing.len() && #[trigger] listing[i] == (ev.key, ev.entry->Some_0)
            },
        forall|i: int|
            0 <= i < listing.len() && !has_group(delivered, (#[trigger] listing[i]).0@)
                ==> exists|j: int|
                0 <= j < spec_upserts(listing, delivered).len() && (#[trigger] spec_upserts(
                    listing,
                    delivered,
                )[j]).key == listing[i].0,
    decreases listing.len(),
{
    if listing.len() > 0 {
        lemma_upserts_exact(listing.drop_last(), delivered);
        let rest = spec_upserts(listing.drop_last(), delivered);
        let whole = spec_upserts(listing, delivered);
        let p = listing.last();
        assert forall|j: int| #![trigger whole[j]] 0 <= j < whole.len() implies {
            let ev = whole[j];
            &&& ev.entry is Some
            &&& !has_group(delivered, ev.key@)
            &&& exists|i: int|
                0 <= i < listing.len() && #[trigger] listing[i] == (ev.key, ev.entry->Some_0)
        } by {
            let ev = whole[j];
            if j < rest.len() {
                assert(ev == rest[j]);
                let i = choose|i: int|
                    0 <= i < listing.drop_last().len() && #[trigger] listing.drop_last()[i] == (
                    ev.key,
                    ev.entry->Some_0,
                );
                assert(listing[i] == (ev.key, ev.entry->Some_0));
            } else {
                assert(ev == (Event { key: p.0, entry: Some(p.1), known: false }));
                assert(listing[listing.len() - 1] == (ev.key, ev.entry->Some_0));
            }
        }
        assert forall|i: int|
            0 <= i < listing.len() && !has_group(
                delivered,
                (#[trigger] listing[i]).0@,
            ) implies exists|j: int|
            0 <= j < whole.len() && (#[trigger] whole[j]).key == listing[i].0 by {
            if i < listing.len() - 1 {
                let j = choose|j: int|
                    0 <= j < rest.len() && (#[trigger] rest[j]).key == listing.drop_last()[i].0;
                assert(whole[j].key == listing[i].0);
            } else {
                assert(whole[whole.len() - 1].key == listing[i].0);
            }
        }
    }
}

/// What the removals are: each one carries a delivered key that is no
/// longer listed; and every delivered key no longer listed is carried
/// by one of them.
pub proof fn lemma_removals_exact<Entry>(
    delivered: Seq<GroupResource>,
    listing: Seq<(GroupResource, Entry)>,
)
    ensures
        forall|j: int|
            0 <= j < spec_removals::<Entry>(delivered, listing).len() ==> {
                let ev = #[trigger] spec_removals::<Entry>(delivered, listing)[j];
                &&& ev.entry is None
                &&& has_group(delivered, ev.key@)
                &&& !has_listed(listing, ev.key@)
            },
        forall|i: int|
            0 <= i < delivered.len() && !has_listed(listing, (#[trigger] delivered[i])@)
                ==> exists|j: int|
                0 <= j < spec_removals::<Entry>(delivered, listing).len() && (
                #[trigger] spec_removals::<Entry>(delivered, listing)[j]).key == delivered[i],
    decreases delivered.len(),
{
    if delivered.len() > 0 {
        lemma_removals_exact::<Entry>(delivered.drop_last(), listing);
        let rest = spec_removals::<Entry>(delivered.drop_last(), listing);
        let whole = spec_removals::<Entry>(delivered, listing);
        let g = delivered.last();
        assert forall|j: int| #![trigger whole[j]] 0 <= j < whole.len() implies {
            let ev = whole[j];
            &&& ev.entry is None
            &&& has_group(delivered, ev.key@)
            &&& !has_listed(listing, ev.key@)
        } by {
            let ev = whole[j];
            if j < rest.len() {
                assert(ev == rest[j]);
                assert(has_group(delivered.drop_last(), ev.key@));
                let i = choose|i: int|
                    0 <= i < delivered.drop_last().len() && (#[trigger] delivered.drop_last()[i])@
                        == ev.key@;
                assert(delivered[i]@ == ev.key@);
            } else {
                assert(ev == (Event { key: g, entry: None::<Entry>, known: true }));
                assert(delivered[delivered.len() - 1]@ == ev.key@);
            }
        }
        assert forall|i: int|
            0 <= i < delivered.len() && !has_listed(
                listing,
                (#[trigger] delivered[i])@,
            ) implies exists|j: int|
            0 <= j < whole.len() && (#[trigger] whole[j]).key == delivered[i] by {
            if i < delivered.len() - 1 {
                let j = choose|j: int|
                    0 <= j < rest.len() && (#[trigger] rest[j]).key == delivered.drop_last()[i];
                assert(whole[j].key == delivered[i]);
            } else {
                assert(whole[whole.len() - 1].key == delivered[i]);
            }
        }
    }
}

impl GroupResource {
    /// An owned copy of this group-resource identity.
    pub fn dup(&self) -> (r: Self)
        ensures
            r == *self,
    {
        GroupResource { group: self.group.clone(), resource: self.resource.clone() }
    }
}

/// Whether this key is among those already delivered.
fn contains_group(keys: &Vec<GroupResource>, key: &GroupResource) -> (r: bool)
    ensures
        r == has_group(keys@, key@),
{
    let mut i: usize = 0;
    while i < keys.len()
        invariant
            i <= keys@.len(),
            forall|j: int| 0 <= j < i ==> (#[trigger] keys@[j])@ != key@,
        decreases keys@.len() - i,
    {
        if keys[i].key_eq(key) {
            return true;
        }
        i += 1;
    }
    false
}

/// Compare one poll's listing of group-resources (with their entries)
/// against the group-resources delivered so far: the events to emit —
/// all upserts for newly listed ones, in listing order, then all
/// removals for delivered ones that disappeared, in delivered order —
/// and the new delivered set, which is exactly the listing's keys.
#[verifier::loop_isolation(false)]
pub fn diff_groups<Entry>(delivered: Vec<GroupResource>, listing: Vec<(GroupResource, Entry)>) -> (r:
    (Vec<Event<GroupResource, Entry>>, Vec<GroupResource>))
    ensures
        r.0@ == spec_upserts(listing@, delivered@) + spec_removals(delivered@, listing@),
        r.1@.len() == listing@.len(),
        forall|i: int| 0 <= i < listing@.len() ==> (#[trigger] r.1@[i]) == listing@[i].0,
{
    let ghost listing0 = listing@;
    let ghost delivered0 = delivered@;
    let mut events: Vec<Event<GroupResource, Entry>> = Vec::new();
    let mut new_delivered: Vec<GroupResource> = Vec::new();
    let mut rest = listing;
    let mut i: usize = 0;
    let n = rest.len();
    while i < n
        invariant
            n == listing0.len(),
            rest@ == listing0.subrange(i as int, n as int),
            i <= n,
            events@ == spec_upserts(listing0.subrange(0, i as int), delivered0),
            new_delivered@.len() == i,
            forall|j: int| 0 <= j < i ==> (#[trigger] new_delivered@[j]) == listing0[j].0,
            delivered@ == delivered0,
        decreases n - i,
    {
        let (gr, entry) = rest.remove(0);
        proof {
            assert((gr, entry) == listing0[i as int]);
            assert(rest@ =~= listing0.subrange(i as int + 1, n as int));
            assert(listing0.subrange(0, i as int + 1).drop_last() =~= listing0.subrange(
                0,
                i as int,
            ));
            assert(listing0.subrange(0, i as int + 1).last() == listing0[i as int]);
        }
        if contains_group(&delivered, &gr) {
            new_delivered.push(gr);
        } else {
            let key = gr.dup();
            new_delivered.push(gr);
            events.push(Event { key, entry: Some(entry), known: false });
        }
        i += 1;
    }
    proof {
        assert(listing0.subrange(0, n as int) =~= listing0);
    }
    let ghost upserts = events@;
    let mut old_delivered = delivered;
    let mut d: usize = 0;
    let m = old_delivered.len();
    while d < m
        invariant
            m == delivered0.len(),
            old_delivered@ == delivered0.subrange(d as int, m as int),
            d <= m,
            events@ == upserts + spec_removals(delivered0.subrange(0, d as int), listing0),
            new_delivered@.len() == listing0.len(),
            forall|j: int| 0 <= j < listing0.len() ==> (#[trigger] new_delivered@[j])
                == listing0[j].0,
        decreases m - d,
    {
        let gr = old_delivered.remove(0);
        proof {
            assert(gr == delivered0[d as int]);
            assert(old_delivered@ =~= delivered0.subrange(d as int + 1, m as int));
            assert(delivered0.subrange(0, d as int + 1).drop_last() =~= delivered0.subrange(
                0,
                d as int,
            ));
            assert(delivered0.subrange(0, d as int + 1).last() == delivered0[d as int]);
            assert forall|kv: GroupResourceView| has_group(new_delivered@, kv) == has_listed(
                listing0,
                kv,
            ) by {
                if has_group(new_delivered@, kv) {
                    let j = choose|j: int|
                        0 <= j < new_delivered@.len() && (#[trigger] new_delivered@[j])@ == kv;
                    assert(listing0[j].0@ == kv);
                }
                if has_listed(listing0, kv) {
                    let j = choose|j: int|
                        0 <= j < listing0.len() && (#[trigger] listing0[j]).0@ == kv;
                    assert(new_delivered@[j]@ == kv);
                }
            }
        }
        if !contains_group(&new_delivered, &gr) {
            events.push(Event { key: gr, entry: None, known: true });
        }
        d += 1;
    }
    proof {
        assert(delivered0.subrange(0, m as int) =~= delivered0);
    }
    (events, new_delivered)
}

} // verus!
