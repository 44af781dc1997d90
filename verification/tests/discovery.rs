//! Scenarios for the discovery producer's set-difference computation.

use kube_subcontroller::subscriber::types::diff_groups;
use kube_subcontroller::subscriber::GroupResource;

fn gr(group: &str, resource: &str) -> GroupResource {
    GroupResource::new(group.to_string(), resource.to_string())
}

/// On the first poll nothing was delivered yet: every listed
/// group-resource is an upsert, in listing order, and the delivered
/// set becomes the listing's keys.
#[test]
fn first_poll_upserts_everything() {
    let listing = vec![(gr("apps", "deployments"), 1u64), (gr("", "pods"), 2u64)];
    let (events, delivered) = diff_groups(Vec::new(), listing);
    assert_eq!(events.len(), 2);
    assert_eq!(events[0].key, gr("apps", "deployments"));
    assert_eq!(events[0].entry, Some(1));
    assert!(!events[0].known);
    assert_eq!(events[1].key, gr("", "pods"));
    assert_eq!(events[1].entry, Some(2));
    assert_eq!(delivered, vec![gr("apps", "deployments"), gr("", "pods")]);
}

/// A group-resource already delivered is not re-emitted; only the
/// newly seen one is an upsert.
#[test]
fn only_new_groups_are_upserts() {
    let delivered = vec![gr("", "pods")];
    let listing = vec![(gr("", "pods"), 10u64), (gr("batch", "jobs"), 20u64)];
    let (events, new_delivered) = diff_groups(delivered, listing);
    assert_eq!(events.len(), 1);
    assert_eq!(events[0].key, gr("batch", "jobs"));
    assert_eq!(events[0].entry, Some(20));
    assert_eq!(new_delivered, vec![gr("", "pods"), gr("batch", "jobs")]);
}

/// A delivered group-resource that disappeared from the listing is a
/// removal, emitted after all upserts.
#[test]
fn disappeared_groups_are_removals() {
    let delivered = vec![gr("", "pods"), gr("batch", "jobs")];
    let listing = vec![(gr("", "pods"), 1u64), (gr("apps", "daemonsets"), 2u64)];
    let (events, new_delivered) = diff_groups(delivered, listing);
    assert_eq!(events.len(), 2);
    // Upserts first, then removals.
    assert_eq!(events[0].key, gr("apps", "daemonsets"));
    assert_eq!(events[0].entry, Some(2));
    assert_eq!(events[1].key, gr("batch", "jobs"));
    assert_eq!(events[1].entry, None);
    assert!(events[1].known);
    assert_eq!(new_delivered, vec![gr("", "pods"), gr("apps", "daemonsets")]);
}

/// An unchanged listing emits nothing.
#[test]
fn unchanged_listing_is_silent() {
    let delivered = vec![gr("", "pods")];
    let listing = vec![(gr("", "pods"), 5u64)];
    let (events, new_delivered) = diff_groups(delivered, listing);
    assert!(events.is_empty());
    assert_eq!(new_delivered, vec![gr("", "pods")]);
}

/// An empty listing tears everything down.
#[test]
fn empty_listing_removes_everything() {
    let delivered = vec![gr("", "pods"), gr("batch", "jobs")];
    let listing: Vec<(GroupResource, u64)> = Vec::new();
    let (events, new_delivered) = diff_groups(delivered, listing);
    assert_eq!(events.len(), 2);
    assert_eq!(events[0].key, gr("", "pods"));
    assert_eq!(events[0].entry, None);
    assert_eq!(events[1].key, gr("batch", "jobs"));
    assert_eq!(events[1].entry, None);
    assert!(new_delivered.is_empty());
}

/// Two successive polls chain: the second poll's difference is taken
/// against what the first poll delivered.
#[test]
fn successive_polls_chain() {
    let (first_events, delivered) =
        diff_groups(Vec::new(), vec![(gr("", "pods"), 1u64)]);
    assert_eq!(first_events.len(), 1);
    let (second_events, delivered) =
        diff_groups(delivered, vec![(gr("batch", "jobs"), 2u64)]);
    assert_eq!(second_events.len(), 2);
    assert_eq!(second_events[0].key, gr("batch", "jobs"));
    assert_eq!(second_events[0].entry, Some(2));
    assert_eq!(second_events[1].key, gr("", "pods"));
    assert_eq!(second_events[1].entry, None);
    assert_eq!(delivered, vec![gr("batch", "jobs")]);
}
