use mass_store::decimal::Decimal;
use mass_store::instant::StorageInstant;
use mass_store::storage::{Reply, Statement, StoredRow};
use mass_store::table::Table;

fn at(unix_nanos: i128) -> StorageInstant {
    StorageInstant { unix_nanos }
}

fn kilos(tenths: u8) -> Decimal {
    Decimal { negative: false, magnitude: vec![tenths], scale: 1 }
}

fn row(id: i32, user_id: i32, tenths: u8, measured: i128, created: i128) -> StoredRow {
    StoredRow {
        id,
        user_id,
        mass_kg: kilos(tenths),
        measurement_timestamp: at(measured),
        created_at: at(created),
    }
}

fn insert(table: &mut Table, user_id: i32, tenths: u8, measured: Option<i128>, now: i128) -> Reply {
    table.execute(
        Statement::Insert {
            user_id,
            mass_kg: kilos(tenths),
            measurement_timestamp: measured.map(at),
        },
        at(now),
    )
}

fn list(table: &mut Table, user_id: i32) -> Vec<StoredRow> {
    match table.execute(Statement::SelectOwned { user_id }, at(0)) {
        Reply::Rows(rows) => rows,
        other => panic!("no rows: {:?}", other),
    }
}

#[test]
fn a_new_store_holds_nothing() {
    let mut table = Table::new();
    assert_eq!(list(&mut table, 1), vec![]);
    assert_eq!(
        table.execute(Statement::SelectOne { id: 1, user_id: 1 }, at(0)),
        Reply::Row(None)
    );
}

#[test]
fn insert_gives_the_keys_in_turn_and_stamps_the_row() {
    let mut table = Table::new();
    assert_eq!(insert(&mut table, 7, 10, None, 500), Reply::Row(Some(row(1, 7, 10, 500, 500))));
    assert_eq!(
        insert(&mut table, 8, 20, Some(100), 600),
        Reply::Row(Some(row(2, 8, 20, 100, 600)))
    );
    assert_eq!(
        insert(&mut table, 7, 30, Some(900), 700),
        Reply::Row(Some(row(3, 7, 30, 900, 700)))
    );
}

#[test]
fn insert_dated_takes_both_instants_as_given() {
    let mut table = Table::new();
    let reply = table.execute(
        Statement::InsertDated {
            user_id: 7,
            mass_kg: kilos(10),
            measurement_timestamp: at(100),
            created_at: at(200),
        },
        at(999),
    );
    assert_eq!(reply, Reply::Affected(1));
    assert_eq!(list(&mut table, 7), vec![row(1, 7, 10, 100, 200)]);
}

#[test]
fn select_one_finds_the_row_of_its_owner_only() {
    let mut table = Table::new();
    insert(&mut table, 7, 10, Some(100), 500);
    assert_eq!(
        table.execute(Statement::SelectOne { id: 1, user_id: 7 }, at(0)),
        Reply::Row(Some(row(1, 7, 10, 100, 500)))
    );
    assert_eq!(
        table.execute(Statement::SelectOne { id: 1, user_id: 8 }, at(0)),
        Reply::Row(None)
    );
    assert_eq!(
        table.execute(Statement::SelectOne { id: 2, user_id: 7 }, at(0)),
        Reply::Row(None)
    );
}

#[test]
fn select_owned_lists_the_latest_measurement_first() {
    let mut table = Table::new();
    insert(&mut table, 7, 10, Some(100), 1);
    insert(&mut table, 7, 20, Some(300), 2);
    insert(&mut table, 8, 30, Some(250), 3);
    insert(&mut table, 7, 40, Some(200), 4);
    insert(&mut table, 7, 50, Some(-50), 5);
    assert_eq!(
        list(&mut table, 7),
        vec![
            row(2, 7, 20, 300, 2),
            row(4, 7, 40, 200, 4),
            row(1, 7, 10, 100, 1),
            row(5, 7, 50, -50, 5),
        ]
    );
    assert_eq!(list(&mut table, 8), vec![row(3, 8, 30, 250, 3)]);
    assert_eq!(list(&mut table, 9), vec![]);
}

#[test]
fn select_owned_keeps_rows_of_one_instant_together() {
    let mut table = Table::new();
    insert(&mut table, 7, 10, Some(100), 1);
    insert(&mut table, 7, 20, Some(200), 2);
    insert(&mut table, 7, 30, Some(100), 3);
    insert(&mut table, 7, 40, Some(200), 4);
    insert(&mut table, 7, 50, Some(100), 5);
    let listed = list(&mut table, 7);
    let instants: Vec<i128> = listed.iter().map(|r| r.measurement_timestamp.unix_nanos).collect();
    assert_eq!(instants, vec![200, 200, 100, 100, 100]);
    let mut keys: Vec<i32> = listed.iter().map(|r| r.id).collect();
    assert_eq!(keys, vec![2, 4, 1, 3, 5]);
    keys.sort();
    assert_eq!(keys, vec![1, 2, 3, 4, 5]);
}

#[test]
fn update_replaces_the_mass_and_keeps_an_instant_not_given() {
    let mut table = Table::new();
    insert(&mut table, 7, 10, Some(100), 500);
    let reply = table.execute(
        Statement::Update { id: 1, user_id: 7, mass_kg: kilos(99), measurement_timestamp: None },
        at(800),
    );
    assert_eq!(reply, Reply::Row(Some(row(1, 7, 99, 100, 500))));
    assert_eq!(list(&mut table, 7), vec![row(1, 7, 99, 100, 500)]);
}

#[test]
fn update_replaces_the_instant_that_is_given() {
    let mut table = Table::new();
    insert(&mut table, 7, 10, Some(100), 500);
    let reply = table.execute(
        Statement::Update {
            id: 1,
            user_id: 7,
            mass_kg: kilos(99),
            measurement_timestamp: Some(at(250)),
        },
        at(800),
    );
    assert_eq!(reply, Reply::Row(Some(row(1, 7, 99, 250, 500))));
}

#[test]
fn update_leaves_the_rows_of_others_alone() {
    let mut table = Table::new();
    insert(&mut table, 7, 10, Some(100), 500);
    insert(&mut table, 8, 20, Some(200), 600);
    let reply = table.execute(
        Statement::Update {
            id: 1,
            user_id: 8,
            mass_kg: kilos(99),
            measurement_timestamp: Some(at(1)),
        },
        at(800),
    );
    assert_eq!(reply, Reply::Row(None));
    let missing = table.execute(
        Statement::Update { id: 5, user_id: 8, mass_kg: kilos(99), measurement_timestamp: None },
        at(800),
    );
    assert_eq!(missing, Reply::Row(None));
    assert_eq!(list(&mut table, 7), vec![row(1, 7, 10, 100, 500)]);
    assert_eq!(list(&mut table, 8), vec![row(2, 8, 20, 200, 600)]);
}

#[test]
fn delete_removes_the_row_of_its_owner_only() {
    let mut table = Table::new();
    insert(&mut table, 7, 10, Some(100), 500);
    insert(&mut table, 7, 20, Some(200), 600);
    assert_eq!(table.execute(Statement::Delete { id: 1, user_id: 8 }, at(0)), Reply::Affected(0));
    assert_eq!(table.execute(Statement::Delete { id: 9, user_id: 7 }, at(0)), Reply::Affected(0));
    assert_eq!(list(&mut table, 7).len(), 2);
    assert_eq!(table.execute(Statement::Delete { id: 1, user_id: 7 }, at(0)), Reply::Affected(1));
    assert_eq!(list(&mut table, 7), vec![row(2, 7, 20, 200, 600)]);
    assert_eq!(table.execute(Statement::Delete { id: 1, user_id: 7 }, at(0)), Reply::Affected(0));
}

#[test]
fn a_key_is_not_given_twice() {
    let mut table = Table::new();
    insert(&mut table, 7, 10, None, 1);
    insert(&mut table, 7, 20, None, 2);
    table.execute(Statement::Delete { id: 2, user_id: 7 }, at(0));
    assert_eq!(insert(&mut table, 7, 30, None, 3), Reply::Row(Some(row(3, 7, 30, 3, 3))));
}

#[test]
fn commit_keeps_the_work_of_the_transaction() {
    let mut table = Table::new();
    insert(&mut table, 7, 10, Some(100), 1);
    assert_eq!(table.execute(Statement::Begin, at(0)), Reply::Done);
    insert(&mut table, 7, 20, Some(200), 2);
    assert_eq!(table.execute(Statement::Commit, at(0)), Reply::Done);
    assert_eq!(list(&mut table, 7), vec![row(2, 7, 20, 200, 2), row(1, 7, 10, 100, 1)]);
}

#[test]
fn rollback_undoes_the_work_of_the_transaction() {
    let mut table = Table::new();
    insert(&mut table, 7, 10, Some(100), 1);
    assert_eq!(table.execute(Statement::Begin, at(0)), Reply::Done);
    insert(&mut table, 7, 20, Some(200), 2);
    table.execute(Statement::Delete { id: 1, user_id: 7 }, at(0));
    table.execute(
        Statement::Update { id: 2, user_id: 7, mass_kg: kilos(1), measurement_timestamp: None },
        at(0),
    );
    assert_eq!(table.execute(Statement::Rollback, at(0)), Reply::Done);
    assert_eq!(list(&mut table, 7), vec![row(1, 7, 10, 100, 1)]);
    assert_eq!(insert(&mut table, 7, 30, Some(300), 3), Reply::Row(Some(row(3, 7, 30, 300, 3))));
}

#[test]
fn a_transaction_is_opened_once_and_closed_once() {
    let mut table = Table::new();
    assert_eq!(table.execute(Statement::Commit, at(0)), Reply::Failed);
    assert_eq!(table.execute(Statement::Rollback, at(0)), Reply::Failed);
    assert_eq!(table.execute(Statement::Begin, at(0)), Reply::Done);
    assert_eq!(table.execute(Statement::Begin, at(0)), Reply::Failed);
    assert_eq!(table.execute(Statement::Commit, at(0)), Reply::Done);
    assert_eq!(table.execute(Statement::Commit, at(0)), Reply::Failed);
    assert_eq!(table.execute(Statement::Begin, at(0)), Reply::Done);
    assert_eq!(table.execute(Statement::Rollback, at(0)), Reply::Done);
    assert_eq!(table.execute(Statement::Rollback, at(0)), Reply::Failed);
}

#[test]
fn a_store_fails_the_statement_it_was_told_to_fail() {
    let mut table = Table::new();
    table.fail_after(2);
    assert_eq!(insert(&mut table, 7, 10, Some(100), 1), Reply::Row(Some(row(1, 7, 10, 100, 1))));
    assert_eq!(list(&mut table, 7).len(), 1);
    assert_eq!(insert(&mut table, 7, 20, Some(200), 2), Reply::Failed);
    assert_eq!(list(&mut table, 7), vec![row(1, 7, 10, 100, 1)]);
    assert_eq!(insert(&mut table, 7, 30, Some(300), 3), Reply::Row(Some(row(2, 7, 30, 300, 3))));
}

#[test]
fn a_failed_statement_changes_no_row() {
    let mut table = Table::new();
    insert(&mut table, 7, 10, Some(100), 1);
    table.fail_after(0);
    assert_eq!(table.execute(Statement::Delete { id: 1, user_id: 7 }, at(0)), Reply::Failed);
    table.fail_after(0);
    assert_eq!(
        table.execute(
            Statement::Update { id: 1, user_id: 7, mass_kg: kilos(1), measurement_timestamp: None },
            at(0)
        ),
        Reply::Failed
    );
    table.fail_after(0);
    assert_eq!(table.execute(Statement::SelectOwned { user_id: 7 }, at(0)), Reply::Failed);
    table.fail_after(0);
    assert_eq!(table.execute(Statement::SelectOne { id: 1, user_id: 7 }, at(0)), Reply::Failed);
    assert_eq!(list(&mut table, 7), vec![row(1, 7, 10, 100, 1)]);
}

#[test]
fn a_commit_that_fails_undoes_the_transaction() {
    let mut table = Table::new();
    insert(&mut table, 7, 10, Some(100), 1);
    assert_eq!(table.execute(Statement::Begin, at(0)), Reply::Done);
    insert(&mut table, 7, 20, Some(200), 2);
    table.fail_after(0);
    assert_eq!(table.execute(Statement::Commit, at(0)), Reply::Failed);
    assert_eq!(list(&mut table, 7), vec![row(1, 7, 10, 100, 1)]);
    assert_eq!(table.execute(Statement::Begin, at(0)), Reply::Done);
}

#[test]
fn a_begin_that_fails_opens_nothing() {
    let mut table = Table::new();
    table.fail_after(0);
    assert_eq!(table.execute(Statement::Begin, at(0)), Reply::Failed);
    assert_eq!(table.execute(Statement::Rollback, at(0)), Reply::Failed);
}
