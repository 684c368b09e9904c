use aleo_pool::shares::{DbConfigError, DbSettings, ShareAction, ShareOutcome, ShareRow, Shares, SharesRequest};

fn s(t: &str) -> Option<String> {
    Some(t.to_string())
}

#[test]
fn block_count_grows_only_on_saved_blocks() {
    let mut shares = Shares::new();
    assert_eq!(shares.status(), "block count 0");
    shares.record_outcome(ShareOutcome::BlockSaved(Some(12)));
    shares.record_outcome(ShareOutcome::BlockSaved(None));
    shares.record_outcome(ShareOutcome::WorkerSaved(Some(3)));
    shares.record_outcome(ShareOutcome::WorkerSaved(None));
    assert_eq!(shares.block_count(), 1);
    shares.record_outcome(ShareOutcome::BlockSaved(Some(13)));
    assert_eq!(shares.status(), "block count 2");
}

#[test]
fn update_plans_the_rows() {
    let shares = Shares::new();
    match shares.update(SharesRequest::NewBlock(7, "ab01".to_string(), "w".to_string(), "k".to_string())) {
        ShareAction::SaveBlock(row, w, k) => {
            assert_eq!((row.height, row.block_hash.as_str(), row.reward), (7i64, "ab01", 82));
            assert_eq!((w.as_str(), k.as_str()), ("w", "k"));
        },
        _ => panic!("expected a block"),
    }
    match shares.update(SharesRequest::Connect("w".to_string(), "k".to_string(), false)) {
        ShareAction::SaveWorker(row) => {
            assert_eq!((row.name.as_str(), row.status.as_str(), row.api_key.as_str()), ("w", "offline", "k"));
        },
        _ => panic!("expected a worker"),
    }
    let row = Shares::block_row(u32::MAX, "h".to_string());
    assert_eq!(row.height, 4294967295i64);
}

#[test]
fn share_row_defaults_to_zero_ids() {
    assert_eq!(Shares::share_row(Some(5), Some(9)), ShareRow { block_id: 5, worker_id: 9, share: 1 });
    assert_eq!(Shares::share_row(None, None), ShareRow { block_id: 0, worker_id: 0, share: 1 });
    assert_eq!(Shares::worker_status(true), "online");
    assert_eq!(Shares::worker_row("n".to_string(), true, "a".to_string()).status, "online");
}

#[test]
fn db_settings_from_values() {
    let ok = DbSettings::from_values(s("db"), None, s("pool"), s("u"), s("p"), None).ok().unwrap();
    assert_eq!(ok.host, "db");
    assert_eq!(ok.port, 5432);
    assert_eq!((ok.dbname.as_str(), ok.user.as_str(), ok.password.as_str()), ("pool", "u", "p"));
    assert_eq!(ok.schema, "public");
    assert_eq!(ok.search_path_statement(), "set search_path = public");

    let ok = DbSettings::from_values(s("db"), s("6000"), s("d"), s("u"), s("p"), s("pool")).ok().unwrap();
    assert_eq!(ok.port, 6000);
    assert_eq!(ok.search_path_statement(), "set search_path = pool");
}

#[test]
fn db_settings_errors_in_order() {
    let e = |r: Result<DbSettings, DbConfigError>| r.err().unwrap();
    assert_eq!(e(DbSettings::from_values(None, s("x"), None, None, None, None)), DbConfigError::NoHost);
    assert_eq!(e(DbSettings::from_values(s("h"), s("x"), None, None, None, None)), DbConfigError::InvalidPort);
    assert_eq!(e(DbSettings::from_values(s("h"), s("70000"), s("d"), s("u"), s("p"), None)), DbConfigError::InvalidPort);
    assert_eq!(e(DbSettings::from_values(s("h"), None, None, None, None, None)), DbConfigError::NoDatabase);
    assert_eq!(e(DbSettings::from_values(s("h"), None, s("d"), None, None, None)), DbConfigError::NoUser);
    assert_eq!(e(DbSettings::from_values(s("h"), None, s("d"), s("u"), None, None)), DbConfigError::NoPassword);
    assert_eq!(DbConfigError::NoHost.message(), "No database host defined");
    assert_eq!(DbConfigError::InvalidPort.message(), "Invalid database port");
    assert_eq!(DbConfigError::NoDatabase.message(), "No database name defined");
    assert_eq!(DbConfigError::NoUser.message(), "No database user defined");
    assert_eq!(DbConfigError::NoPassword.message(), "No database password defined");
}

#[test]
fn block_count_over_a_run_of_answers() {
    let mut shares = Shares::new();
    let answers = vec![
        ShareOutcome::WorkerSaved(Some(1)),
        ShareOutcome::BlockSaved(Some(1)),
        ShareOutcome::BlockSaved(None),
        ShareOutcome::BlockSaved(Some(0)),
        ShareOutcome::WorkerSaved(None),
        ShareOutcome::BlockSaved(Some(7)),
    ];
    for a in answers {
        shares.record_outcome(a);
    }
    assert_eq!(shares.block_count(), 3);
}
