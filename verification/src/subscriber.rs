//! The value types flowing from event producers into the dispatch
//! loop: keyed configuration events, and the two key types the
//! producers use — the qualified name of a live object, and the
//! group/plural identity of a resource type.
//!
//! The producers themselves watch a live cluster and are asynchronous;
//! they live with the unverified shell. What is verified here is their
//! data model, and (in [`types`]) the set-difference computation behind
//! the discovery producer.

use vstd::prelude::*;

pub mod types;

verus! {

/// A keyed configuration event, constructed by an event producer and
/// consumed once by the dispatch loop.
pub struct Event<Key, Entry> {
    /// Stable identity for a unit of work.
    pub key: Key,
    /// `Some` means "this is the current desired configuration for
    /// `key`"; `None` means "this key should be torn down".
    pub entry: Option<Entry>,
    /// Producer-supplied hint of whether the key was already known to
    /// the producer's own cache; informational only.
    pub known: bool,
}

/// A key the dispatch loop can track: it can be compared, and the
/// comparison agrees with the key's mathematical view.
pub trait EventKey: View + Sized {
    /// Whether two keys identify the same unit of work.
    fn key_eq(&self, other: &Self) -> (r: bool)
        ensures
            r == (self@ == other@),
    ;
}

/// The mathematical view of a [`QualifiedName`].
#[verifier::ext_equal]
pub struct QualifiedNameView {
    /// The object namespace, if any.
    pub namespace: Option<Seq<char>>,
    /// The object name.
    pub name: Seq<char>,
}

/// Uniquely identifies an object of a known type by namespace and name.
#[derive(Debug, Clone, PartialEq, Eq, PartialOrd, Ord, Hash)]
pub struct QualifiedName {
    /// The object namespace, if any.
    pub namespace: Option<String>,
    /// The object name.
    pub name: String,
}

impl View for QualifiedName {
    type V = QualifiedNameView;

    open spec fn view(&self) -> QualifiedNameView {
        QualifiedNameView {
            namespace: match self.namespace {
                Some(ns) => Some(ns@),
                None => None,
            },
            name: self.name@,
        }
    }
}

impl QualifiedName {
    /// A qualified name from its parts.
    pub fn new(namespace: Option<String>, name: String) -> (q: Self)
        ensures
            q.namespace == namespace,
            q.name == name,
    {
        QualifiedName { namespace, name }
    }
}

impl EventKey for QualifiedName {
    fn key_eq(&self, other: &Self) -> (r: bool) {
        let namespace_eq = match (&self.namespace, &other.namespace) {
            (Some(a), Some(b)) => *a == *b,
            (None, None) => true,
            _ => false,
        };
        let r = namespace_eq && self.name == other.name;
        proof {
            if r {
                assert(self@ =~= other@);
            }
        }
        r
    }
}

/// The mathematical view of a [`GroupResource`].
#[verifier::ext_equal]
pub struct GroupResourceView {
    /// The group of the resource type.
    pub group: Seq<char>,
    /// The plural name of the resource type.
    pub resource: Seq<char>,
}

/// Uniquely identifies a type of resources in a cluster.
#[derive(Debug, Clone, PartialEq, Eq, PartialOrd, Ord, Hash)]
pub struct GroupResource {
    /// The group of the resource type, or empty string for the core
    /// group.
    pub group: String,
    /// The plural name of the resource type.
    pub resource: String,
}

impl View for GroupResource {
    type V = GroupResourceView;

    open spec fn view(&self) -> GroupResourceView {
        GroupResourceView { group: self.group@, resource: self.resource@ }
    }
}

impl GroupResource {
    /// A group-resource identity from its parts.
    pub fn new(group: String, resource: String) -> (gr: Self)
        ensures
            gr.group == group,
            gr.resource == resource,
    {
        GroupResource { group, resource }
    }
}

impl EventKey for GroupResource {
    fn key_eq(&self, other: &Self) -> (r: bool) {
        let r = self.group == other.group && self.resource == other.resource;
        proof {
            if r {
                assert(self@ =~= other@);
            }
        }
        r
    }
}

} // verus!
