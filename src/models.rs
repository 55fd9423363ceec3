//! Rows of the relational store: items without their child lists, and the
//! ordered parent-to-child edges derived from those lists.

use vstd::prelude::*;

use crate::firebase_listener;

verus! {

/// A stored item row. `id` is the natural key; every other field is
/// overwritten in place by a later write of the same id.
#[derive(Debug, Clone, PartialEq)]
pub struct Item {
    pub id: i64,
    pub deleted: Option<bool>,
    pub type_: Option<String>,
    pub by: Option<String>,
    pub time: Option<i64>,
    pub text: Option<String>,
    pub dead: Option<bool>,
    pub parent: Option<i64>,
    pub poll: Option<i64>,
    pub url: Option<String>,
    pub score: Option<i64>,
    pub title: Option<String>,
    pub parts: Option<String>,
    pub descendants: Option<i64>,
}

/// One ordered parent-to-child edge. `(item, kid)` is the natural key;
/// `display_order` is the child's position at the last observation.
#[derive(Debug, Clone, Copy, PartialEq, Eq)]
pub struct Kid {
    pub item: i64,
    pub kid: i64,
    pub display_order: i64,
}

/// The row stored for a fetched item: all of its fields but the child list.
pub open spec fn row_of(item: firebase_listener::Item) -> Item {
    Item {
        id: item.id,
        deleted: item.deleted,
        type_: item.type_,
        by: item.by,
        time: item.time,
        text: item.text,
        dead: item.dead,
        parent: item.parent,
        poll: item.poll,
        url: item.url,
        score: item.score,
        title: item.title,
        parts: item.parts,
        descendants: item.descendants,
    }
}

/// The child ids of an item, in the order the source lists them.
pub open spec fn child_ids(item: firebase_listener::Item) -> Seq<i64> {
    match item.kids {
        Some(kids) => kids@,
        None => Seq::empty(),
    }
}

/// The edges derived from an item: one per child, numbered by position.
pub open spec fn kids_of(item: firebase_listener::Item) -> Seq<Kid> {
    Seq::new(
        child_ids(item).len(),
        |k: int| Kid { item: item.id, kid: child_ids(item)[k], display_order: k as i64 },
    )
}

impl Item {
    /// Splits a fetched item into the row to store and the edges to its
    /// children; the `k`-th child gets `display_order` `k`.
    pub fn from_remote(item: firebase_listener::Item) -> (res: (Item, Vec<Kid>))
        ensures
            res.0 == row_of(item),
            res.1@ == kids_of(item),
    {
        let ghost original = item;
        let firebase_listener::Item {
            id,
            deleted,
            type_,
            by,
            time,
            text,
            dead,
            parent,
            poll,
            url,
            score,
            title,
            parts,
            descendants,
            kids,
        } = item;
        let mut edges: Vec<Kid> = Vec::new();
        if let Some(children) = kids {
            let mut k: usize = 0;
            while k < children.len()
                invariant
                    children@ == child_ids(original),
                    id == original.id,
                    0 <= k <= children.len(),
                    edges@.len() == k,
                    forall|j: int| 0 <= j < k ==> #[trigger] edges@[j] == kids_of(original)[j],
                decreases children.len() - k,
            {
                edges.push(Kid { item: id, kid: children[k], display_order: k as i64 });
                k = k + 1;
            }
        }
        assert(edges@ =~= kids_of(original));
        let row = Item {
            id,
            deleted,
            type_,
            by,
            time,
            text,
            dead,
            parent,
            poll,
            url,
            score,
            title,
            parts,
            descendants,
        };
        (row, edges)
    }
}

} // verus!
