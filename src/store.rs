//! An in-memory store with the upsert semantics the ingestion path relies on:
//! rows are keyed, and a write of an existing key overwrites every other field.

use std::collections::BTreeMap;

use vstd::prelude::*;

use crate::models::{Item, Kid};

verus! {

broadcast use vstd::std_specs::btree::group_btree_axioms, vstd::laws_cmp::group_laws_cmp;

/// The item table after upserting `batch` in order: each row replaces any
/// earlier row with the same id.
pub open spec fn upsert_rows(table: Map<i64, Item>, batch: Seq<Item>) -> Map<i64, Item>
    decreases batch.len(),
{
    if batch.len() == 0 {
        table
    } else {
        upsert_rows(table, batch.drop_last()).insert(batch.last().id, batch.last())
    }
}

/// Key of an edge row.
pub open spec fn kid_key(kid: Kid) -> (i64, i64) {
    (kid.item, kid.kid)
}

/// The edge table (key to display order) after upserting `batch` in order.
pub open spec fn upsert_kid_rows(table: Map<(i64, i64), i64>, batch: Seq<Kid>) -> Map<
    (i64, i64),
    i64,
>
    decreases batch.len(),
{
    if batch.len() == 0 {
        table
    } else {
        upsert_kid_rows(table, batch.drop_last()).insert(
            kid_key(batch.last()),
            batch.last().display_order,
        )
    }
}

/// Every row of the item table sits under its own id, so each id has at
/// most one row.
pub open spec fn rows_keyed_by_id(table: Map<i64, Item>) -> bool {
    forall|id: i64| #[trigger] table.contains_key(id) ==> table[id].id == id
}

/// Whether `m` is the largest id of a table with key set `keys`.
pub open spec fn is_max_key(keys: Set<i64>, m: Option<i64>) -> bool {
    match m {
        None => keys.is_empty(),
        Some(x) => keys.contains(x) && forall|k: i64| keys.contains(k) ==> k <= x,
    }
}

proof fn lemma_upsert_rows_union(table: Map<i64, Item>, batch: Seq<Item>)
    ensures
        upsert_rows(table, batch) == table.union_prefer_right(
            upsert_rows(Map::empty(), batch),
        ),
    decreases batch.len(),
{
    if batch.len() == 0 {
        assert(table.union_prefer_right(Map::<i64, Item>::empty()) =~= table);
    } else {
        lemma_upsert_rows_union(table, batch.drop_last());
        lemma_upsert_rows_union(Map::empty(), batch.drop_last());
        assert(upsert_rows(table, batch) =~= table.union_prefer_right(
            upsert_rows(Map::empty(), batch),
        ));
    }
}

proof fn lemma_upsert_kid_rows_union(table: Map<(i64, i64), i64>, batch: Seq<Kid>)
    ensures
        upsert_kid_rows(table, batch) == table.union_prefer_right(
            upsert_kid_rows(Map::empty(), batch),
        ),
    decreases batch.len(),
{
    if batch.len() == 0 {
        assert(table.union_prefer_right(Map::<(i64, i64), i64>::empty()) =~= table);
    } else {
        lemma_upsert_kid_rows_union(table, batch.drop_last());
        lemma_upsert_kid_rows_union(Map::empty(), batch.drop_last());
        assert(upsert_kid_rows(table, batch) =~= table.union_prefer_right(
            upsert_kid_rows(Map::empty(), batch),
        ));
    }
}

/// Upserting is idempotent: writing the same item rows and edge rows a second
/// time leaves both tables as the first write left them, one row per key.
pub proof fn lemma_upsert_idempotent(
    items: Map<i64, Item>,
    kids: Map<(i64, i64), i64>,
    item_batch: Seq<Item>,
    kid_batch: Seq<Kid>,
)
    ensures
        upsert_rows(upsert_rows(items, item_batch), item_batch) == upsert_rows(
            items,
            item_batch,
        ),
        upsert_kid_rows(upsert_kid_rows(kids, kid_batch), kid_batch) == upsert_kid_rows(
            kids,
            kid_batch,
        ),
{
    lemma_upsert_rows_union(items, item_batch);
    lemma_upsert_rows_union(upsert_rows(items, item_batch), item_batch);
    let m = upsert_rows(Map::empty(), item_batch);
    assert(items.union_prefer_right(m).union_prefer_right(m) =~= items.union_prefer_right(m));
    lemma_upsert_kid_rows_union(kids, kid_batch);
    lemma_upsert_kid_rows_union(upsert_kid_rows(kids, kid_batch), kid_batch);
    let e = upsert_kid_rows(Map::empty(), kid_batch);
    assert(kids.union_prefer_right(e).union_prefer_right(e) =~= kids.union_prefer_right(e));
}

/// Last write wins: after writing `first` and then `second` with the same id,
/// the table holds `second` under that id and is otherwise unchanged.
pub proof fn lemma_last_write_wins(items: Map<i64, Item>, first: Item, second: Item)
    requires
        first.id == second.id,
    ensures
        upsert_rows(upsert_rows(items, seq![first]), seq![second]) == items.insert(
            second.id,
            second,
        ),
{
    assert(seq![first].drop_last() =~= Seq::<Item>::empty());
    assert(seq![second].drop_last() =~= Seq::<Item>::empty());
    assert(upsert_rows(items, Seq::<Item>::empty()) == items);
    let once = upsert_rows(items, seq![first]);
    assert(once == items.insert(first.id, first));
    assert(upsert_rows(once, Seq::<Item>::empty()) == once);
    assert(upsert_rows(once, seq![second]) == once.insert(second.id, second));
    assert(upsert_rows(upsert_rows(items, seq![first]), seq![second]) =~= items.insert(
        second.id,
        second,
    ));
}

proof fn lemma_rows_compose(items: Map<i64, Item>, first: Seq<Item>, second: Seq<Item>)
    ensures
        upsert_rows(upsert_rows(items, first), second) == upsert_rows(items, first + second),
    decreases second.len(),
{
    if second.len() == 0 {
        assert(first + second =~= first);
    } else {
        assert((first + second).drop_last() =~= first + second.drop_last());
        assert((first + second).last() == second.last());
        lemma_rows_compose(items, first, second.drop_last());
    }
}

proof fn lemma_kid_rows_compose(kids: Map<(i64, i64), i64>, first: Seq<Kid>, second: Seq<Kid>)
    ensures
        upsert_kid_rows(upsert_kid_rows(kids, first), second) == upsert_kid_rows(
            kids,
            first + second,
        ),
    decreases second.len(),
{
    if second.len() == 0 {
        assert(first + second =~= first);
    } else {
        assert((first + second).drop_last() =~= first + second.drop_last());
        assert((first + second).last() == second.last());
        lemma_kid_rows_compose(kids, first, second.drop_last());
    }
}

/// Batching does not change the outcome: writing `first` and then `second`
/// leaves the tables as writing `first + second` in one batch does.
pub proof fn lemma_upsert_batches_compose(
    items: Map<i64, Item>,
    kids: Map<(i64, i64), i64>,
    first: Seq<Item>,
    second: Seq<Item>,
    first_kids: Seq<Kid>,
    second_kids: Seq<Kid>,
)
    ensures
        upsert_rows(upsert_rows(items, first), second) == upsert_rows(items, first + second),
        upsert_kid_rows(upsert_kid_rows(kids, first_kids), second_kids) == upsert_kid_rows(
            kids,
            first_kids + second_kids,
        ),
{
    lemma_rows_compose(items, first, second);
    lemma_kid_rows_compose(kids, first_kids, second_kids);
}

/// Writes never remove rows: whatever a store held before a batch it still
/// holds after it, together with a row for every id in the batch. So the
/// rows written by one worker stay present whatever other workers do or fail
/// to do.
pub proof fn lemma_upsert_keeps_and_adds(items: Map<i64, Item>, batch: Seq<Item>)
    ensures
        forall|id: i64| items.contains_key(id) ==> #[trigger] upsert_rows(items, batch).contains_key(id),
        forall|k: int| 0 <= k < batch.len() ==> upsert_rows(items, batch).contains_key(#[trigger] batch[k].id),
    decreases batch.len(),
{
    if batch.len() > 0 {
        lemma_upsert_keeps_and_adds(items, batch.drop_last());
        assert forall|id: i64| items.contains_key(id) implies #[trigger] upsert_rows(
            items,
            batch,
        ).contains_key(id) by {
            assert(upsert_rows(items, batch.drop_last()).contains_key(id));
        }
        assert forall|k: int| 0 <= k < batch.len() implies upsert_rows(items, batch).contains_key(
            #[trigger] batch[k].id,
        ) by {
            if k < batch.len() - 1 {
                assert(batch.drop_last()[k] == batch[k]);
            }
        }
    }
}

proof fn lemma_batch_keys_come_from_batch(batch: Seq<Item>, id: i64)
    requires
        upsert_rows(Map::empty(), batch).contains_key(id),
    ensures
        exists|j: int| 0 <= j < batch.len() && #[trigger] batch[j].id == id,
    decreases batch.len(),
{
    if batch.last().id != id {
        lemma_batch_keys_come_from_batch(batch.drop_last(), id);
        let j = choose|j: int| 0 <= j < batch.drop_last().len() && #[trigger] batch.drop_last()[j].id == id;
        assert(batch[j].id == id);
    } else {
        assert(batch[batch.len() - 1].id == id);
    }
}

/// Upserting keeps one row per id: a table whose rows sit under their own
/// ids still has that shape after any batch.
pub proof fn lemma_upsert_keeps_rows_keyed(items: Map<i64, Item>, batch: Seq<Item>)
    requires
        rows_keyed_by_id(items),
    ensures
        rows_keyed_by_id(upsert_rows(items, batch)),
    decreases batch.len(),
{
    if batch.len() > 0 {
        lemma_upsert_keeps_rows_keyed(items, batch.drop_last());
    }
}

/// Writes of disjoint id sets do not interfere: when no row of `others`
/// shares an id with a row of `mine`, each id of `mine` ends up with the last
/// row `mine` wrote for it, whether `others` was written before or after, and
/// whatever part of its work another writer got done.
pub proof fn lemma_disjoint_writes_isolated(
    items: Map<i64, Item>,
    mine: Seq<Item>,
    others: Seq<Item>,
)
    requires
        forall|i: int, j: int|
            0 <= i < mine.len() && 0 <= j < others.len() ==> #[trigger] mine[i].id
                != #[trigger] others[j].id,
    ensures
        forall|k: int|
            0 <= k < mine.len() ==> {
                let id = #[trigger] mine[k].id;
                let written = upsert_rows(Map::empty(), mine);
                &&& written.contains_key(id)
                &&& upsert_rows(upsert_rows(items, mine), others).contains_key(id)
                &&& upsert_rows(upsert_rows(items, mine), others)[id] == written[id]
                &&& upsert_rows(upsert_rows(items, others), mine).contains_key(id)
                &&& upsert_rows(upsert_rows(items, others), mine)[id] == written[id]
            },
{
    let written = upsert_rows(Map::empty(), mine);
    let theirs = upsert_rows(Map::empty(), others);
    lemma_upsert_keeps_and_adds(Map::empty(), mine);
    lemma_upsert_rows_union(items, mine);
    lemma_upsert_rows_union(upsert_rows(items, mine), others);
    lemma_upsert_rows_union(items, others);
    lemma_upsert_rows_union(upsert_rows(items, others), mine);
    assert forall|k: int| 0 <= k < mine.len() implies !theirs.contains_key(#[trigger] mine[k].id) by {
        if theirs.contains_key(mine[k].id) {
            lemma_batch_keys_come_from_batch(others, mine[k].id);
        }
    }
}

/// Item rows keyed by id and edge rows keyed by `(item, kid)`.
pub struct MemoryStore {
    items: BTreeMap<i64, Item>,
    kids: BTreeMap<(i64, i64), i64>,
    max_id: Option<i64>,
}

impl MemoryStore {
    /// The item table.
    pub closed spec fn items_view(&self) -> Map<i64, Item> {
        self.items@
    }

    /// The edge table, from `(item, kid)` to display order.
    pub closed spec fn kids_view(&self) -> Map<(i64, i64), i64> {
        self.kids@
    }

    pub closed spec fn wf(&self) -> bool {
        is_max_key(self.items@.dom(), self.max_id) && rows_keyed_by_id(self.items@)
    }

    /// An empty store.
    pub fn new() -> (s: MemoryStore)
        ensures
            s.wf(),
            rows_keyed_by_id(s.items_view()),
            s.items_view() == Map::<i64, Item>::empty(),
            s.kids_view() == Map::<(i64, i64), i64>::empty(),
    {
        let s = MemoryStore { items: BTreeMap::new(), kids: BTreeMap::new(), max_id: None };
        assert(s.items@.dom() =~= Set::<i64>::empty());
        s
    }

    /// Inserts each row of `batch` in order, overwriting the row of the same
    /// id where there is one.
    pub fn upsert_items(&mut self, batch: Vec<Item>)
        requires
            old(self).wf(),
        ensures
            final(self).wf(),
            rows_keyed_by_id(final(self).items_view()),
            final(self).items_view() == upsert_rows(old(self).items_view(), batch@),
            final(self).kids_view() == old(self).kids_view(),
    {
        let ghost rows = batch@;
        let ghost start = self.items@;
        for row in it: batch.into_iter()
            invariant
                it.seq() == rows,
                self.wf(),
                self.items@ == upsert_rows(start, rows.take(it.index() as int)),
                self.kids@ == old(self).kids@,
        {
            proof {
                assert(rows.take(it.index() + 1).drop_last() =~= rows.take(it.index() as int));
            }
            let id = row.id;
            self.items.insert(id, row);
            let new_max = match self.max_id {
                Some(m) => if id > m {
                    id
                } else {
                    m
                },
                None => id,
            };
            self.max_id = Some(new_max);
        }
        proof {
            assert(rows.take(rows.len() as int) =~= rows);
        }
    }

    /// Inserts each edge of `batch` in order, overwriting the display order
    /// of an edge with the same `(item, kid)` key.
    pub fn upsert_kids(&mut self, batch: Vec<Kid>)
        requires
            old(self).wf(),
        ensures
            final(self).wf(),
            final(self).items_view() == old(self).items_view(),
            final(self).kids_view() == upsert_kid_rows(old(self).kids_view(), batch@),
    {
        let ghost rows = batch@;
        let ghost start = self.kids@;
        for edge in it: batch.into_iter()
            invariant
                it.seq() == rows,
                self.wf(),
                self.kids@ == upsert_kid_rows(start, rows.take(it.index() as int)),
                self.items@ == old(self).items@,
        {
            proof {
                assert(rows.take(it.index() + 1).drop_last() =~= rows.take(it.index() as int));
            }
            self.kids.insert((edge.item, edge.kid), edge.display_order);
        }
        proof {
            assert(rows.take(rows.len() as int) =~= rows);
        }
    }

    /// The largest stored item id, or `None` for an empty item table.
    pub fn max_stored_id(&self) -> (r: Option<i64>)
        requires
            self.wf(),
        ensures
            is_max_key(self.items_view().dom(), r),
    {
        self.max_id
    }

    /// The stored row of `id`, if any.
    pub fn get_item(&self, id: i64) -> (r: Option<&Item>)
        ensures
            match r {
                Some(row) => self.items_view().contains_key(id) && self.items_view()[id] == *row,
                None => !self.items_view().contains_key(id),
            },
    {
        self.items.get(&id)
    }

    /// The stored display order of the edge `(item, kid)`, if any.
    pub fn get_kid(&self, item: i64, kid: i64) -> (r: Option<i64>)
        ensures
            match r {
                Some(order) => self.kids_view().contains_key((item, kid)) && self.kids_view()[(
                    item,
                    kid,
                )] == order,
                None => !self.kids_view().contains_key((item, kid)),
            },
    {
        match self.kids.get(&(item, kid)) {
            Some(order) => Some(*order),
            None => None,
        }
    }

    /// Number of stored item rows.
    pub fn item_count(&self) -> (n: usize)
        ensures
            n == self.items_view().len(),
    {
        self.items.len()
    }

    /// Number of stored edge rows.
    pub fn kid_count(&self) -> (n: usize)
        ensures
            n == self.kids_view().len(),
    {
        self.kids.len()
    }
}

} // verus!
