//! A row store in memory, and the meaning of each statement.
//!
//! [`TableView`] says what a store holds and [`TableView::effect`] and
//! [`TableView::answers`] say what a statement does to it. [`Table`] is a store
//! that does exactly that, one statement at a time. It can be told to fail a
//! statement, so that the paths taken after a failure can be run.
use crate::decimal::DecimalView;
use crate::instant::StorageInstant;
use crate::storage::{Reply, ReplyView, Statement, StatementView, StoredRow, StoredRowView};
use vstd::prelude::*;

verus! {

/// The highest key that a store gives. When it is used up, the store adds no
/// further row.
pub const MAX_ID: i32 = 2_147_483_647;

/// What a row store holds.
pub struct TableView {
    /// The rows, each under its key.
    pub rows: Map<i32, StoredRowView>,
    /// The key that the next new row gets.
    pub next_id: int,
    /// While a transaction is open: the rows as they were when it was opened.
    pub saved: Option<Map<i32, StoredRowView>>,
    /// How many statements the store carries out before it fails one; `None`
    /// where it fails none.
    pub fault: Option<nat>,
}

/// Every row stands under its own key, and every key has been given already.
pub open spec fn keys_given(rows: Map<i32, StoredRowView>, next_id: int) -> bool {
    forall|id: i32| #[trigger] rows.contains_key(id) ==> rows[id].id == id && 1 <= id < next_id
}

/// The row with the key `id`, if it belongs to `user_id`.
pub open spec fn owned_row(rows: Map<i32, StoredRowView>, id: i32, user_id: i32) -> Option<
    StoredRowView,
> {
    if rows.contains_key(id) && rows[id].user_id == user_id {
        Some(rows[id])
    } else {
        None
    }
}

/// `row` with a new mass, and with a new instant of measurement where one is
/// given.
pub open spec fn revised(
    row: StoredRowView,
    mass_kg: DecimalView,
    measurement_timestamp: Option<StorageInstant>,
) -> StoredRowView {
    StoredRowView {
        id: row.id,
        user_id: row.user_id,
        mass_kg,
        measurement_timestamp: match measurement_timestamp {
            Some(instant) => instant,
            None => row.measurement_timestamp,
        },
        created_at: row.created_at,
    }
}

/// No row of `listed` was measured later than one that stands before it.
pub open spec fn latest_first(listed: Seq<StoredRowView>) -> bool {
    forall|i: int, j: int|
        0 <= i < j < listed.len() ==> (#[trigger] listed[i]).measurement_timestamp.unix_nanos >= (
        #[trigger] listed[j]).measurement_timestamp.unix_nanos
}

/// `listed` holds the rows of `user_id` and no others, each once, the latest
/// measurement first. Nothing is said of the order of two rows that were
/// measured at the same instant.
pub open spec fn lists(
    rows: Map<i32, StoredRowView>,
    user_id: i32,
    listed: Seq<StoredRowView>,
) -> bool {
    &&& forall|i: int|
        0 <= i < listed.len() ==> owned_row(rows, (#[trigger] listed[i]).id, user_id) == Some(
            listed[i],
        )
    &&& forall|id: i32|
        owned_row(rows, id, user_id) is Some ==> exists|i: int|
            0 <= i < listed.len() && (#[trigger] listed[i]).id == id
    &&& forall|i: int, j: int|
        0 <= i < j < listed.len() ==> (#[trigger] listed[i]).id != (#[trigger] listed[j]).id
    &&& latest_first(listed)
}

impl TableView {
    /// A store without rows, which fails no statement.
    pub open spec fn empty() -> TableView {
        TableView { rows: Map::empty(), next_id: 1, saved: None, fault: None }
    }

    /// The state is one that a store can reach.
    pub open spec fn well_formed(self) -> bool {
        &&& 1 <= self.next_id <= MAX_ID + 1
        &&& keys_given(self.rows, self.next_id)
        &&& self.saved matches Some(saved) ==> keys_given(saved, self.next_id)
    }

    /// A transaction is open.
    pub open spec fn in_transaction(self) -> bool {
        self.saved is Some
    }

    /// The store fails the next statement.
    pub open spec fn fails_next(self) -> bool {
        self.fault == Some(0nat)
    }

    /// The store has a key left for a new row.
    pub open spec fn has_key_left(self) -> bool {
        self.next_id <= MAX_ID
    }

    /// The fault that is left once the store has taken one more statement.
    pub open spec fn fault_left(self) -> Option<nat> {
        match self.fault {
            Some(count) if count > 0 => Some((count - 1) as nat),
            _ => None,
        }
    }

    /// The row that the store adds for a measurement that brings no instant of
    /// its recording.
    pub open spec fn stamped_row(
        self,
        user_id: i32,
        mass_kg: DecimalView,
        measurement_timestamp: Option<StorageInstant>,
        now: StorageInstant,
    ) -> StoredRowView {
        StoredRowView {
            id: self.next_id as i32,
            user_id,
            mass_kg,
            measurement_timestamp: match measurement_timestamp {
                Some(instant) => instant,
                None => now,
            },
            created_at: now,
        }
    }

    /// The row that the store adds for a measurement that brings both instants.
    pub open spec fn dated_row(
        self,
        user_id: i32,
        mass_kg: DecimalView,
        measurement_timestamp: StorageInstant,
        created_at: StorageInstant,
    ) -> StoredRowView {
        StoredRowView {
            id: self.next_id as i32,
            user_id,
            mass_kg,
            measurement_timestamp,
            created_at,
        }
    }

    /// The rows after `statement`, where the store carries it out.
    pub open spec fn rows_after(self, statement: StatementView, now: StorageInstant) -> Map<
        i32,
        StoredRowView,
    > {
        match statement {
            StatementView::Rollback => match self.saved {
                Some(saved) => saved,
                None => self.rows,
            },
            StatementView::Insert { user_id, mass_kg, measurement_timestamp } => {
                if self.has_key_left() {
                    let row = self.stamped_row(user_id, mass_kg, measurement_timestamp, now);
                    self.rows.insert(row.id, row)
                } else {
                    self.rows
                }
            },
            StatementView::InsertDated { user_id, mass_kg, measurement_timestamp, created_at } => {
                if self.has_key_left() {
                    let row = self.dated_row(user_id, mass_kg, measurement_timestamp, created_at);
                    self.rows.insert(row.id, row)
                } else {
                    self.rows
                }
            },
            StatementView::Update { id, user_id, mass_kg, measurement_timestamp } => {
                match owned_row(self.rows, id, user_id) {
                    Some(row) => self.rows.insert(id, revised(row, mass_kg, measurement_timestamp)),
                    None => self.rows,
                }
            },
            StatementView::Delete { id, user_id } => {
                if owned_row(self.rows, id, user_id) is Some {
                    self.rows.remove(id)
                } else {
                    self.rows
                }
            },
            _ => self.rows,
        }
    }

    /// The store after `statement`.
    ///
    /// A statement that the store fails changes no row. Failing to commit or to
    /// roll back ends the transaction all the same, and undoes its work.
    pub open spec fn effect(self, statement: StatementView, now: StorageInstant) -> TableView {
        let ends = statement is Commit || statement is Rollback;
        if self.fails_next() {
            TableView {
                rows: match self.saved {
                    Some(saved) if ends => saved,
                    _ => self.rows,
                },
                next_id: self.next_id,
                saved: if ends {
                    None
                } else {
                    self.saved
                },
                fault: None,
            }
        } else {
            let adds = statement is Insert || statement is InsertDated;
            TableView {
                rows: self.rows_after(statement, now),
                next_id: if adds && self.has_key_left() {
                    self.next_id + 1
                } else {
                    self.next_id
                },
                saved: if ends {
                    None
                } else if statement is Begin && self.saved is None {
                    Some(self.rows)
                } else {
                    self.saved
                },
                fault: self.fault_left(),
            }
        }
    }

    /// `reply` is an answer of the store to `statement`.
    ///
    /// Every statement but [`Statement::SelectOwned`] has one answer. The rows
    /// of a user may be listed in more than one order where two of them were
    /// measured at the same instant.
    pub open spec fn answers(
        self,
        statement: StatementView,
        now: StorageInstant,
        reply: ReplyView,
    ) -> bool {
        if self.fails_next() {
            reply is Failed
        } else {
            match statement {
                StatementView::Begin => reply == if self.saved is None {
                    ReplyView::Done
                } else {
                    ReplyView::Failed
                },
                StatementView::Commit | StatementView::Rollback => reply
                    == if self.saved is Some {
                    ReplyView::Done
                } else {
                    ReplyView::Failed
                },
                StatementView::SelectOwned { user_id } => reply matches ReplyView::Rows(listed)
                    && lists(self.rows, user_id, listed),
                StatementView::SelectOne { id, user_id } => reply == ReplyView::Row(
                    owned_row(self.rows, id, user_id),
                ),
                StatementView::Insert { user_id, mass_kg, measurement_timestamp } => reply
                    == if self.has_key_left() {
                    ReplyView::Row(
                        Some(self.stamped_row(user_id, mass_kg, measurement_timestamp, now)),
                    )
                } else {
                    ReplyView::Failed
                },
                StatementView::InsertDated { .. } => reply == if self.has_key_left() {
                    ReplyView::Affected(1)
                } else {
                    ReplyView::Failed
                },
                StatementView::Update { id, user_id, mass_kg, measurement_timestamp } => reply
                    == ReplyView::Row(
                    match owned_row(self.rows, id, user_id) {
                        Some(row) => Some(revised(row, mass_kg, measurement_timestamp)),
                        None => None,
                    },
                ),
                StatementView::Delete { id, user_id } => reply == ReplyView::Affected(
                    if owned_row(self.rows, id, user_id) is Some {
                        1
                    } else {
                        0
                    },
                ),
            }
        }
    }
}

/// A statement leaves a store in a state that a store can reach. Keys are
/// given in turn: the next key never goes back, and a row that a statement
/// adds stands under it.
pub proof fn effect_is_well_formed(table: TableView, statement: StatementView, now: StorageInstant)
    requires
        table.well_formed(),
    ensures
        table.effect(statement, now).well_formed(),
        table.effect(statement, now).next_id >= table.next_id,
        forall|id: i32| #[trigger]
            table.effect(statement, now).rows.contains_key(id) && !table.rows.contains_key(id)
                && !(statement is Rollback || statement is Commit) ==> id == table.next_id,
{
}

/// The keys of `rows` differ from one another.
spec fn distinct_ids(rows: Seq<StoredRowView>) -> bool {
    forall|i: int, j: int|
        0 <= i < j < rows.len() ==> (#[trigger] rows[i]).id != (#[trigger] rows[j]).id
}

/// The keys of `rows` have been given already.
spec fn ids_given(rows: Seq<StoredRowView>, next_id: int) -> bool {
    forall|i: int| 0 <= i < rows.len() ==> 1 <= (#[trigger] rows[i]).id < next_id
}

/// The rows of `rows`, each under its key.
spec fn keyed(rows: Seq<StoredRowView>) -> Map<i32, StoredRowView> {
    Map::new(
        |id: i32| exists|i: int| 0 <= i < rows.len() && (#[trigger] rows[i]).id == id,
        |id: i32| rows[choose|i: int| 0 <= i < rows.len() && (#[trigger] rows[i]).id == id],
    )
}

proof fn lemma_keyed_at(rows: Seq<StoredRowView>, i: int)
    requires
        distinct_ids(rows),
        0 <= i < rows.len(),
    ensures
        keyed(rows).contains_key(rows[i].id),
        keyed(rows)[rows[i].id] == rows[i],
{
    let id = rows[i].id;
    let found = choose|k: int| 0 <= k < rows.len() && (#[trigger] rows[k]).id == id;
    assert(found == i);
}

proof fn lemma_keyed_given(rows: Seq<StoredRowView>, next_id: int)
    requires
        distinct_ids(rows),
        ids_given(rows, next_id),
    ensures
        keys_given(keyed(rows), next_id),
{
    assert forall|id: i32| #[trigger] keyed(rows).contains_key(id) implies keyed(rows)[id].id == id
        && 1 <= id < next_id by {
        let found = choose|k: int| 0 <= k < rows.len() && (#[trigger] rows[k]).id == id;
        lemma_keyed_at(rows, found);
    }
}

proof fn lemma_keyed_push(rows: Seq<StoredRowView>, row: StoredRowView)
    requires
        distinct_ids(rows),
        forall|i: int| 0 <= i < rows.len() ==> (#[trigger] rows[i]).id != row.id,
    ensures
        distinct_ids(rows.push(row)),
        keyed(rows.push(row)) == keyed(rows).insert(row.id, row),
{
    let longer = rows.push(row);
    assert(distinct_ids(longer));
    assert forall|id: i32| #[trigger]
        keyed(longer).contains_key(id) == keyed(rows).insert(row.id, row).contains_key(id) by {
        if keyed(longer).contains_key(id) {
            let k = choose|k: int| 0 <= k < longer.len() && (#[trigger] longer[k]).id == id;
            if k < rows.len() {
                assert(rows[k].id == id);
            }
        }
        if keyed(rows).contains_key(id) {
            let k = choose|k: int| 0 <= k < rows.len() && (#[trigger] rows[k]).id == id;
            assert(longer[k].id == id);
        }
        if id == row.id {
            assert(longer[rows.len() as int].id == id);
        }
    }
    assert forall|id: i32| #[trigger] keyed(longer).contains_key(id) implies keyed(longer)[id]
        == keyed(rows).insert(row.id, row)[id] by {
        let k = choose|k: int| 0 <= k < longer.len() && (#[trigger] longer[k]).id == id;
        lemma_keyed_at(longer, k);
        if k < rows.len() {
            lemma_keyed_at(rows, k);
        }
    }
    assert(keyed(longer) =~= keyed(rows).insert(row.id, row));
}

proof fn lemma_keyed_update(rows: Seq<StoredRowView>, at: int, row: StoredRowView)
    requires
        distinct_ids(rows),
        0 <= at < rows.len(),
        rows[at].id == row.id,
    ensures
        distinct_ids(rows.update(at, row)),
        keyed(rows.update(at, row)) == keyed(rows).insert(row.id, row),
{
    let changed = rows.update(at, row);
    assert(distinct_ids(changed)) by {
        assert forall|i: int, j: int| 0 <= i < j < changed.len() implies (#[trigger] changed[i]).id
            != (#[trigger] changed[j]).id by {
            assert(changed[i].id == rows[i].id);
            assert(changed[j].id == rows[j].id);
        }
    }
    assert forall|id: i32| #[trigger]
        keyed(changed).contains_key(id) == keyed(rows).insert(row.id, row).contains_key(id) by {
        if keyed(changed).contains_key(id) {
            let k = choose|k: int| 0 <= k < changed.len() && (#[trigger] changed[k]).id == id;
            assert(rows[k].id == id);
        }
        if keyed(rows).contains_key(id) {
            let k = choose|k: int| 0 <= k < rows.len() && (#[trigger] rows[k]).id == id;
            assert(changed[k].id == id);
        }
        if id == row.id {
            assert(changed[at].id == id);
        }
    }
    assert forall|id: i32| #[trigger] keyed(changed).contains_key(id) implies keyed(changed)[id]
        == keyed(rows).insert(row.id, row)[id] by {
        let k = choose|k: int| 0 <= k < changed.len() && (#[trigger] changed[k]).id == id;
        lemma_keyed_at(changed, k);
        assert(rows[k].id == id);
        lemma_keyed_at(rows, k);
    }
    assert(keyed(changed) =~= keyed(rows).insert(row.id, row));
}

proof fn lemma_keyed_remove(rows: Seq<StoredRowView>, at: int)
    requires
        distinct_ids(rows),
        0 <= at < rows.len(),
    ensures
        distinct_ids(rows.remove(at)),
        keyed(rows.remove(at)) == keyed(rows).remove(rows[at].id),
{
    let shorter = rows.remove(at);
    assert forall|k: int| 0 <= k < shorter.len() implies #[trigger] shorter[k] == rows[if k < at {
        k
    } else {
        k + 1
    }] by {}
    assert(distinct_ids(shorter)) by {
        assert forall|i: int, j: int| 0 <= i < j < shorter.len() implies (#[trigger] shorter[i]).id
            != (#[trigger] shorter[j]).id by {
            let from_i = if i < at { i } else { i + 1 };
            let from_j = if j < at { j } else { j + 1 };
            assert(shorter[i] == rows[from_i]);
            assert(shorter[j] == rows[from_j]);
        }
    }
    assert forall|id: i32| #[trigger]
        keyed(shorter).contains_key(id) == keyed(rows).remove(rows[at].id).contains_key(id) by {
        if keyed(shorter).contains_key(id) {
            let k = choose|k: int| 0 <= k < shorter.len() && (#[trigger] shorter[k]).id == id;
            let from_k = if k < at { k } else { k + 1 };
            assert(shorter[k] == rows[from_k]);
            assert(rows[from_k].id == id);
        }
        if keyed(rows).contains_key(id) && id != rows[at].id {
            let k = choose|k: int| 0 <= k < rows.len() && (#[trigger] rows[k]).id == id;
            let to_k = if k < at { k } else { k - 1 };
            assert(shorter[to_k] == rows[k]);
            assert(shorter[to_k].id == id);
        }
    }
    assert forall|id: i32| #[trigger] keyed(shorter).contains_key(id) implies keyed(shorter)[id]
        == keyed(rows).remove(rows[at].id)[id] by {
        let k = choose|k: int| 0 <= k < shorter.len() && (#[trigger] shorter[k]).id == id;
        let from_k = if k < at { k } else { k + 1 };
        assert(shorter[k] == rows[from_k]);
        lemma_keyed_at(shorter, k);
        lemma_keyed_at(rows, from_k);
    }
    assert(keyed(shorter) =~= keyed(rows).remove(rows[at].id));
}

/// A copy of `rows`.
fn copy_rows(rows: &Vec<StoredRow>) -> (copy: Vec<StoredRow>)
    ensures
        copy.deep_view() == rows.deep_view(),
{
    let mut copy: Vec<StoredRow> = Vec::new();
    let mut k: usize = 0;
    while k < rows.len()
        invariant
            k <= rows.len(),
            copy.len() == k,
            forall|i: int| 0 <= i < k ==> (#[trigger] copy[i])@ == rows[i]@,
        decreases rows.len() - k,
    {
        copy.push(rows[k].clone());
        k += 1;
    }
    assert(copy.deep_view() =~= rows.deep_view());
    copy
}

/// Where in `rows` the row with the key `id` stands, if it belongs to
/// `user_id`.
fn find_row(rows: &Vec<StoredRow>, id: i32, user_id: i32) -> (found: Option<usize>)
    requires
        distinct_ids(rows.deep_view()),
    ensures
        match found {
            Some(at) => at < rows.len() && owned_row(keyed(rows.deep_view()), id, user_id) == Some(
                rows[at as int]@,
            ) && rows[at as int].id == id,
            None => owned_row(keyed(rows.deep_view()), id, user_id) is None,
        },
{
    let ghost held = rows.deep_view();
    let mut k: usize = 0;
    while k < rows.len()
        invariant
            k <= rows.len(),
            held == rows.deep_view(),
            distinct_ids(held),
            forall|i: int| 0 <= i < k ==> (#[trigger] held[i]).id != id,
        decreases rows.len() - k,
    {
        if rows[k].id == id {
            proof {
                assert(held[k as int] == rows[k as int]@);
                lemma_keyed_at(held, k as int);
            }
            if rows[k].user_id == user_id {
                return Some(k);
            } else {
                return None;
            }
        }
        assert(held[k as int] == rows[k as int]@);
        k += 1;
    }
    None
}

/// Where a row measured at `unix_nanos` goes in `listed`, which holds the
/// latest measurement first: behind every row that was not measured earlier.
fn find_place(listed: &Vec<StoredRow>, unix_nanos: i128) -> (at: usize)
    requires
        latest_first(listed.deep_view()),
    ensures
        at <= listed.len(),
        forall|i: int|
            0 <= i < at ==> (#[trigger] listed.deep_view()[i]).measurement_timestamp.unix_nanos
                >= unix_nanos,
        forall|i: int|
            at <= i < listed.len() ==> (
            #[trigger] listed.deep_view()[i]).measurement_timestamp.unix_nanos < unix_nanos,
{
    let ghost shown = listed.deep_view();
    let mut at: usize = 0;
    while at < listed.len() && listed[at].measurement_timestamp.unix_nanos >= unix_nanos
        invariant
            at <= listed.len(),
            shown == listed.deep_view(),
            forall|i: int|
                0 <= i < at ==> (#[trigger] shown[i]).measurement_timestamp.unix_nanos
                    >= unix_nanos,
        decreases listed.len() - at,
    {
        assert(shown[at as int] == listed[at as int]@);
        at += 1;
    }
    proof {
        if at < listed.len() {
            assert(shown[at as int] == listed[at as int]@);
            assert forall|i: int| at <= i < listed.len() implies (
            #[trigger] shown[i]).measurement_timestamp.unix_nanos < unix_nanos by {
                if i > at {
                    assert(shown[at as int].measurement_timestamp.unix_nanos
                        >= shown[i].measurement_timestamp.unix_nanos);
                }
            }
        }
    }
    at
}

/// `listed` holds what a listing for `user_id` holds of the first `count` rows
/// of `held`.
spec fn lists_first(
    held: Seq<StoredRowView>,
    count: int,
    user_id: i32,
    listed: Seq<StoredRowView>,
) -> bool {
    &&& forall|i: int|
        0 <= i < listed.len() ==> (#[trigger] listed[i]).user_id == user_id && held.take(
            count,
        ).contains(listed[i])
    &&& forall|j: int|
        0 <= j < count && (#[trigger] held[j]).user_id == user_id ==> listed.contains(held[j])
    &&& distinct_ids(listed)
    &&& latest_first(listed)
}

proof fn lemma_lists_first_skip(
    held: Seq<StoredRowView>,
    count: int,
    user_id: i32,
    listed: Seq<StoredRowView>,
)
    requires
        0 <= count < held.len(),
        held[count].user_id != user_id,
        lists_first(held, count, user_id, listed),
    ensures
        lists_first(held, count + 1, user_id, listed),
{
    assert forall|i: int| 0 <= i < listed.len() implies held.take(count + 1).contains(
        #[trigger] listed[i],
    ) by {
        let j = choose|j: int| 0 <= j < count && held.take(count)[j] == listed[i];
        assert(held.take(count + 1)[j] == listed[i]);
    }
}

proof fn lemma_lists_first_insert(
    held: Seq<StoredRowView>,
    count: int,
    user_id: i32,
    listed: Seq<StoredRowView>,
    at: int,
)
    requires
        0 <= count < held.len(),
        distinct_ids(held),
        held[count].user_id == user_id,
        lists_first(held, count, user_id, listed),
        0 <= at <= listed.len(),
        forall|i: int|
            0 <= i < at ==> (#[trigger] listed[i]).measurement_timestamp.unix_nanos
                >= held[count].measurement_timestamp.unix_nanos,
        forall|i: int|
            at <= i < listed.len() ==> (#[trigger] listed[i]).measurement_timestamp.unix_nanos
                < held[count].measurement_timestamp.unix_nanos,
    ensures
        lists_first(held, count + 1, user_id, listed.insert(at, held[count])),
{
    let added = held[count];
    let longer = listed.insert(at, added);
    assert(longer.len() == listed.len() + 1);
    assert(longer[at] == added);
    assert forall|i: int| 0 <= i < at implies #[trigger] longer[i] == listed[i] by {}
    assert forall|i: int| at < i < longer.len() implies #[trigger] longer[i] == listed[i - 1] by {}
    assert forall|i: int| 0 <= i < listed.len() implies (#[trigger] listed[i]).id != added.id by {
        let j = choose|j: int| 0 <= j < count && held.take(count)[j] == listed[i];
        assert(held[j] == listed[i]);
    }
    assert forall|i: int| 0 <= i < longer.len() implies (#[trigger] longer[i]).user_id == user_id
        && held.take(count + 1).contains(longer[i]) by {
        if i == at {
            assert(held.take(count + 1)[count] == added);
        } else {
            let from = if i < at { i } else { i - 1 };
            assert(longer[i] == listed[from]);
            let j = choose|j: int| 0 <= j < count && held.take(count)[j] == listed[from];
            assert(held.take(count + 1)[j] == longer[i]);
        }
    }
    assert forall|j: int| 0 <= j < count + 1 && (#[trigger] held[j]).user_id
        == user_id implies longer.contains(held[j]) by {
        if j == count {
            assert(longer[at] == held[j]);
        } else {
            let i = choose|i: int| 0 <= i < listed.len() && listed[i] == held[j];
            let to = if i < at { i } else { i + 1 };
            assert(longer[to] == held[j]);
        }
    }
    assert(distinct_ids(longer)) by {
        assert forall|i: int, j: int| 0 <= i < j < longer.len() implies (#[trigger] longer[i]).id
            != (#[trigger] longer[j]).id by {
            if i != at && j != at {
                let from_i = if i < at { i } else { i - 1 };
                let from_j = if j < at { j } else { j - 1 };
                assert(longer[i] == listed[from_i]);
                assert(longer[j] == listed[from_j]);
            } else if i == at {
                assert(longer[j] == listed[j - 1]);
            } else {
                assert(longer[i] == listed[i]);
            }
        }
    }
    assert(latest_first(longer)) by {
        assert forall|i: int, j: int| 0 <= i < j < longer.len() implies (
        #[trigger] longer[i]).measurement_timestamp.unix_nanos >= (
        #[trigger] longer[j]).measurement_timestamp.unix_nanos by {
            if i != at && j != at {
                let from_i = if i < at { i } else { i - 1 };
                let from_j = if j < at { j } else { j - 1 };
                assert(longer[i] == listed[from_i]);
                assert(longer[j] == listed[from_j]);
            } else if i == at {
                assert(longer[j] == listed[j - 1]);
            } else {
                assert(longer[i] == listed[i]);
            }
        }
    }
}

proof fn lemma_lists_first_all(held: Seq<StoredRowView>, user_id: i32, listed: Seq<StoredRowView>)
    requires
        distinct_ids(held),
        lists_first(held, held.len() as int, user_id, listed),
    ensures
        lists(keyed(held), user_id, listed),
{
    let stored = keyed(held);
    assert(held.take(held.len() as int) =~= held);
    assert forall|i: int| 0 <= i < listed.len() implies owned_row(
        stored,
        (#[trigger] listed[i]).id,
        user_id,
    ) == Some(listed[i]) by {
        let j = choose|j: int| 0 <= j < held.len() && held[j] == listed[i];
        lemma_keyed_at(held, j);
    }
    assert forall|id: i32| owned_row(stored, id, user_id) is Some implies exists|i: int|
        0 <= i < listed.len() && (#[trigger] listed[i]).id == id by {
        let j = choose|j: int| 0 <= j < held.len() && (#[trigger] held[j]).id == id;
        lemma_keyed_at(held, j);
        let i = choose|i: int| 0 <= i < listed.len() && listed[i] == held[j];
        assert(listed[i].id == id);
    }
}

/// The rows of `user_id` among `rows`, the latest measurement first. Rows
/// measured at the same instant keep the order in which they stand in `rows`.
fn list_rows(rows: &Vec<StoredRow>, user_id: i32) -> (listed: Vec<StoredRow>)
    requires
        distinct_ids(rows.deep_view()),
    ensures
        lists(keyed(rows.deep_view()), user_id, listed.deep_view()),
{
    let ghost held = rows.deep_view();
    let mut listed: Vec<StoredRow> = Vec::new();
    let mut k: usize = 0;
    while k < rows.len()
        invariant
            k <= rows.len(),
            held == rows.deep_view(),
            distinct_ids(held),
            lists_first(held, k as int, user_id, listed.deep_view()),
        decreases rows.len() - k,
    {
        assert(held[k as int] == rows[k as int]@);
        if rows[k].user_id == user_id {
            let ghost before = listed.deep_view();
            let at = find_place(&listed, rows[k].measurement_timestamp.unix_nanos);
            let row = rows[k].clone();
            listed.insert(at, row);
            proof {
                assert(listed.deep_view() =~= before.insert(at as int, held[k as int]));
                lemma_lists_first_insert(held, k as int, user_id, before, at as int);
            }
        } else {
            proof {
                lemma_lists_first_skip(held, k as int, user_id, listed.deep_view());
            }
        }
        k += 1;
    }
    proof {
        lemma_lists_first_all(held, user_id, listed.deep_view());
    }
    listed
}

/// A row store in memory. It holds its rows in the order in which they came.
pub struct Table {
    rows: Vec<StoredRow>,
    next_id: i64,
    saved: Option<Vec<StoredRow>>,
    fault: Option<u64>,
}

impl View for Table {
    type V = TableView;

    closed spec fn view(&self) -> TableView {
        view_of(self.rows, self.next_id, self.saved, self.fault)
    }
}

impl Table {
    /// What holds of every store: its rows stand under keys that differ and
    /// that were given in turn.
    #[verifier::type_invariant]
    pub closed spec fn consistent(&self) -> bool {
        &&& 1 <= self.next_id <= MAX_ID + 1
        &&& rows_fit(self.rows.deep_view(), self.next_id as int)
        &&& self.saved matches Some(saved) ==> rows_fit(saved.deep_view(), self.next_id as int)
    }

    /// A store holds a state that a store can reach.
    pub proof fn consistent_is_well_formed(&self)
        requires
            self.consistent(),
        ensures
            self@.well_formed(),
    {
        lemma_keyed_given(self.rows.deep_view(), self.next_id as int);
        if self.saved is Some {
            lemma_keyed_given(self.saved->0.deep_view(), self.next_id as int);
        }
    }

    /// A store without rows, which fails no statement.
    pub fn new() -> (table: Table)
        ensures
            table@ == TableView::empty(),
            table@.well_formed(),
    {
        let table = Table { rows: Vec::new(), next_id: 1, saved: None, fault: None };
        assert(table@.rows =~= Map::empty());
        table
    }

    /// Makes the store carry out `count` statements and fail the one after
    /// them. That one failure spent, the store fails no further statement.
    pub fn fail_after(&mut self, count: u64)
        ensures
            old(self)@.well_formed(),
            final(self)@.well_formed(),
            final(self)@ == (TableView { fault: Some(count as nat), ..old(self)@ }),
    {
        proof {
            use_type_invariant(&*self);
            self.consistent_is_well_formed();
        }
        self.fault = Some(count);
    }

    /// Carries out one statement, at the instant `now` of the store's clock.
    ///
    /// The store was in a state that a store can reach, and it is in one
    /// afterwards.
    pub fn execute(&mut self, statement: Statement, now: StorageInstant) -> (reply: Reply)
        ensures
            old(self)@.well_formed(),
            final(self)@.well_formed(),
            final(self)@ == old(self)@.effect(statement@, now),
            old(self)@.answers(statement@, now, reply@),
    {
        proof {
            use_type_invariant(&*self);
            self.consistent_is_well_formed();
        }
        let mut taken = Table::new();
        core::mem::swap(self, &mut taken);
        let Table { rows, next_id, saved, fault } = taken;
        let (rows, next_id, saved, fault, reply) = carry_out(
            rows,
            next_id,
            saved,
            fault,
            statement,
            now,
        );
        proof {
            lemma_keyed_given(rows.deep_view(), next_id as int);
            if saved is Some {
                lemma_keyed_given(saved->0.deep_view(), next_id as int);
            }
        }
        *self = Table { rows, next_id, saved, fault };
        reply
    }
}

/// The rows are those of a store that comes to `next_id` as its next key.
spec fn rows_fit(rows: Seq<StoredRowView>, next_id: int) -> bool {
    distinct_ids(rows) && ids_given(rows, next_id)
}

/// The view of a store with these parts.
spec fn view_of(
    rows: Vec<StoredRow>,
    next_id: i64,
    saved: Option<Vec<StoredRow>>,
    fault: Option<u64>,
) -> TableView {
    TableView {
        rows: keyed(rows.deep_view()),
        next_id: next_id as int,
        saved: match saved {
            Some(saved) => Some(keyed(saved.deep_view())),
            None => None,
        },
        fault: match fault {
            Some(count) => Some(count as nat),
            None => None,
        },
    }
}

/// Carries out one statement on the parts of a store, and hands back the parts
/// as they are afterwards.
fn carry_out(
    rows: Vec<StoredRow>,
    next_id: i64,
    saved: Option<Vec<StoredRow>>,
    fault: Option<u64>,
    statement: Statement,
    now: StorageInstant,
) -> (after: (Vec<StoredRow>, i64, Option<Vec<StoredRow>>, Option<u64>, Reply))
    requires
        1 <= next_id <= MAX_ID + 1,
        rows_fit(rows.deep_view(), next_id as int),
        saved matches Some(kept) ==> rows_fit(kept.deep_view(), next_id as int),
    ensures
        1 <= after.1 <= MAX_ID + 1,
        rows_fit(after.0.deep_view(), after.1 as int),
        after.2 matches Some(kept) ==> rows_fit(kept.deep_view(), after.1 as int),
        view_of(after.0, after.1, after.2, after.3) == view_of(rows, next_id, saved, fault).effect(
            statement@,
            now,
        ),
        view_of(rows, next_id, saved, fault).answers(statement@, now, after.4@),
{
    let mut rows = rows;
    let mut next_id = next_id;
    let mut saved = saved;
    let mut fault = fault;
    let ends = match statement {
        Statement::Commit | Statement::Rollback => true,
        _ => false,
    };
    match fault {
        Some(count) => {
            if count == 0 {
                if ends {
                    match saved {
                        Some(kept) => {
                            rows = kept;
                        },
                        None => {},
                    }
                    saved = None;
                }
                return (rows, next_id, saved, None, Reply::Failed);
            }
            fault = Some(count - 1);
        },
        None => {},
    }
    let ghost held = rows.deep_view();
    let reply = match statement {
        Statement::Begin => {
            if saved.is_none() {
                saved = Some(copy_rows(&rows));
                Reply::Done
            } else {
                Reply::Failed
            }
        },
        Statement::Commit => {
            match saved {
                Some(_) => {
                    saved = None;
                    Reply::Done
                },
                None => Reply::Failed,
            }
        },
        Statement::Rollback => {
            match saved {
                Some(kept) => {
                    rows = kept;
                    saved = None;
                    Reply::Done
                },
                None => Reply::Failed,
            }
        },
        Statement::SelectOwned { user_id } => Reply::Rows(list_rows(&rows, user_id)),
        Statement::SelectOne { id, user_id } => {
            match find_row(&rows, id, user_id) {
                Some(at) => Reply::Row(Some(rows[at].clone())),
                None => Reply::Row(None),
            }
        },
        Statement::Insert { user_id, mass_kg, measurement_timestamp } => {
            if next_id <= MAX_ID as i64 {
                let row = StoredRow {
                    id: next_id as i32,
                    user_id,
                    mass_kg,
                    measurement_timestamp: match measurement_timestamp {
                        Some(instant) => instant,
                        None => now,
                    },
                    created_at: now,
                };
                let added = row.clone();
                proof {
                    lemma_keyed_push(held, row@);
                }
                rows.push(row);
                assert(rows.deep_view() =~= held.push(added@));
                next_id = next_id + 1;
                Reply::Row(Some(added))
            } else {
                Reply::Failed
            }
        },
        Statement::InsertDated { user_id, mass_kg, measurement_timestamp, created_at } => {
            if next_id <= MAX_ID as i64 {
                let row = StoredRow {
                    id: next_id as i32,
                    user_id,
                    mass_kg,
                    measurement_timestamp,
                    created_at,
                };
                proof {
                    lemma_keyed_push(held, row@);
                }
                let ghost added = row@;
                rows.push(row);
                assert(rows.deep_view() =~= held.push(added));
                next_id = next_id + 1;
                Reply::Affected(1)
            } else {
                Reply::Failed
            }
        },
        Statement::Update { id, user_id, mass_kg, measurement_timestamp } => {
            match find_row(&rows, id, user_id) {
                Some(at) => {
                    let row = StoredRow {
                        id,
                        user_id,
                        mass_kg,
                        measurement_timestamp: match measurement_timestamp {
                            Some(instant) => instant,
                            None => rows[at].measurement_timestamp,
                        },
                        created_at: rows[at].created_at,
                    };
                    let changed = row.clone();
                    proof {
                        assert(held[at as int] == rows[at as int]@);
                        lemma_keyed_update(held, at as int, row@);
                    }
                    rows.set(at, row);
                    assert(rows.deep_view() =~= held.update(at as int, changed@));
                    Reply::Row(Some(changed))
                },
                None => Reply::Row(None),
            }
        },
        Statement::Delete { id, user_id } => {
            match find_row(&rows, id, user_id) {
                Some(at) => {
                    proof {
                        assert(held[at as int] == rows[at as int]@);
                        lemma_keyed_remove(held, at as int);
                    }
                    rows.remove(at);
                    assert(rows.deep_view() =~= held.remove(at as int));
                    Reply::Affected(1)
                },
                None => Reply::Affected(0),
            }
        },
    };
    (rows, next_id, saved, fault, reply)
}

} // verus!
