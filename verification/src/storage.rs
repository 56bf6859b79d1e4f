//! What passes between the service and the row store: the rows, the statements
//! that the service sends, and the replies that come back.
use crate::decimal::{Decimal, DecimalView};
use crate::instant::StorageInstant;
use vstd::prelude::*;

verus! {

/// A measurement as the row store holds it.
#[derive(Debug, PartialEq, Eq)]
pub struct StoredRow {
    /// The primary key, given by the store.
    pub id: i32,
    /// The user who owns the row.
    pub user_id: i32,
    /// The mass in kilograms.
    pub mass_kg: Decimal,
    /// When the mass was measured.
    pub measurement_timestamp: StorageInstant,
    /// When the row was recorded.
    pub created_at: StorageInstant,
}

/// A [`StoredRow`] with its mass as a number.
pub struct StoredRowView {
    pub id: i32,
    pub user_id: i32,
    pub mass_kg: DecimalView,
    pub measurement_timestamp: StorageInstant,
    pub created_at: StorageInstant,
}

impl View for StoredRow {
    type V = StoredRowView;

    open spec fn view(&self) -> StoredRowView {
        StoredRowView {
            id: self.id,
            user_id: self.user_id,
            mass_kg: self.mass_kg@,
            measurement_timestamp: self.measurement_timestamp,
            created_at: self.created_at,
        }
    }
}

impl DeepView for StoredRow {
    type V = StoredRowView;

    open spec fn deep_view(&self) -> StoredRowView {
        self@
    }
}

impl Clone for StoredRow {
    fn clone(&self) -> (result: StoredRow)
        ensures
            result@ == self@,
    {
        StoredRow {
            id: self.id,
            user_id: self.user_id,
            mass_kg: self.mass_kg.clone(),
            measurement_timestamp: self.measurement_timestamp,
            created_at: self.created_at,
        }
    }
}

/// A statement for the row store. Each one but the three that frame a
/// transaction names the user whose rows it may touch.
#[derive(Debug, PartialEq, Eq)]
#[allow(inconsistent_fields)]
pub enum Statement {
    /// Opens a transaction.
    Begin,
    /// Makes the work of the open transaction lasting.
    Commit,
    /// Undoes the work of the open transaction.
    Rollback,
    /// Reads the rows of one user, the latest measurement first.
    SelectOwned { user_id: i32 },
    /// Reads the row with the key `id`, if it belongs to the user.
    SelectOne { id: i32, user_id: i32 },
    /// Adds a row for the user. The store gives the key and stamps the
    /// recording; it stamps the measurement too where no instant is given.
    Insert { user_id: i32, mass_kg: Decimal, measurement_timestamp: Option<StorageInstant> },
    /// Adds a row for the user with both instants as given. The store gives
    /// the key.
    InsertDated {
        user_id: i32,
        mass_kg: Decimal,
        measurement_timestamp: StorageInstant,
        created_at: StorageInstant,
    },
    /// Replaces the mass of the row with the key `id`, if it belongs to the
    /// user, and the instant of its measurement where one is given.
    Update {
        id: i32,
        user_id: i32,
        mass_kg: Decimal,
        measurement_timestamp: Option<StorageInstant>,
    },
    /// Removes the row with the key `id`, if it belongs to the user.
    Delete { id: i32, user_id: i32 },
}

/// A [`Statement`] with its mass as a number.
#[allow(inconsistent_fields)]
pub enum StatementView {
    Begin,
    Commit,
    Rollback,
    SelectOwned { user_id: i32 },
    SelectOne { id: i32, user_id: i32 },
    Insert { user_id: i32, mass_kg: DecimalView, measurement_timestamp: Option<StorageInstant> },
    InsertDated {
        user_id: i32,
        mass_kg: DecimalView,
        measurement_timestamp: StorageInstant,
        created_at: StorageInstant,
    },
    Update {
        id: i32,
        user_id: i32,
        mass_kg: DecimalView,
        measurement_timestamp: Option<StorageInstant>,
    },
    Delete { id: i32, user_id: i32 },
}

impl View for Statement {
    type V = StatementView;

    open spec fn view(&self) -> StatementView {
        match *self {
            Statement::Begin => StatementView::Begin,
            Statement::Commit => StatementView::Commit,
            Statement::Rollback => StatementView::Rollback,
            Statement::SelectOwned { user_id } => StatementView::SelectOwned { user_id },
            Statement::SelectOne { id, user_id } => StatementView::SelectOne { id, user_id },
            Statement::Insert { user_id, mass_kg, measurement_timestamp } => StatementView::Insert {
                user_id,
                mass_kg: mass_kg@,
                measurement_timestamp,
            },
            Statement::InsertDated {
                user_id,
                mass_kg,
                measurement_timestamp,
                created_at,
            } => StatementView::InsertDated {
                user_id,
                mass_kg: mass_kg@,
                measurement_timestamp,
                created_at,
            },
            Statement::Update {
                id,
                user_id,
                mass_kg,
                measurement_timestamp,
            } => StatementView::Update { id, user_id, mass_kg: mass_kg@, measurement_timestamp },
            Statement::Delete { id, user_id } => StatementView::Delete { id, user_id },
        }
    }
}

impl StatementView {
    /// The user whose rows the statement may touch; `None` for the statements
    /// that frame a transaction.
    pub open spec fn scope(self) -> Option<i32> {
        match self {
            StatementView::Begin | StatementView::Commit | StatementView::Rollback => None,
            StatementView::SelectOwned { user_id } => Some(user_id),
            StatementView::SelectOne { user_id, .. } => Some(user_id),
            StatementView::Insert { user_id, .. } => Some(user_id),
            StatementView::InsertDated { user_id, .. } => Some(user_id),
            StatementView::Update { user_id, .. } => Some(user_id),
            StatementView::Delete { user_id, .. } => Some(user_id),
        }
    }
}

/// What the row store answers to a statement.
#[derive(Debug, PartialEq, Eq)]
pub enum Reply {
    /// A transaction was opened, committed or rolled back.
    Done,
    /// The rows that were read, in the order asked for.
    Rows(Vec<StoredRow>),
    /// The row that was read, added or replaced; `None` where no row of the
    /// user has the key.
    Row(Option<StoredRow>),
    /// How many rows were added or removed.
    Affected(u64),
    /// The statement failed and changed nothing.
    Failed,
}

/// A [`Reply`] with its masses as numbers.
pub enum ReplyView {
    Done,
    Rows(Seq<StoredRowView>),
    Row(Option<StoredRowView>),
    Affected(u64),
    Failed,
}

impl View for Reply {
    type V = ReplyView;

    open spec fn view(&self) -> ReplyView {
        match *self {
            Reply::Done => ReplyView::Done,
            Reply::Rows(rows) => ReplyView::Rows(rows.deep_view()),
            Reply::Row(row) => ReplyView::Row(row.deep_view()),
            Reply::Affected(count) => ReplyView::Affected(count),
            Reply::Failed => ReplyView::Failed,
        }
    }
}

impl DeepView for Reply {
    type V = ReplyView;

    open spec fn deep_view(&self) -> ReplyView {
        self@
    }
}

} // verus!
