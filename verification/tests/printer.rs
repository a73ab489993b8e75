use vialo::printer::{
    account_dedup_key, after_set_password, delete_succeeded, job_status_after, page_limit,
    partition_jobs, plan_full_sync, refresh_due, restore_source, restored_limits, settle,
    sync_action, DeviceReply, JobData, JobStatus, MirrorRow, MissingStep, PrinterRequestError,
    RestoreSource, SyncAction,
};

#[test]
fn page_limits_follow_balance_and_price() {
    assert_eq!(page_limit(Some(10), 5, Some(100)), Some(15));
    assert_eq!(page_limit(Some(10), 5, Some(-50)), Some(5));
    assert_eq!(page_limit(None, 5, Some(100)), None);
    assert_eq!(page_limit(Some(0), 5, Some(100)), None);
    assert_eq!(page_limit(Some(10), 5, None), None);
    assert_eq!(page_limit(Some(1), 60000, Some(10000)), Some(65535));
    assert_eq!(page_limit(Some(3), 0, Some(10)), Some(3));
    assert_eq!(restored_limits(Some(30), Some(10), Some(100)), (Some(3), Some(10)));
}

#[test]
fn settlement_compares_counters_with_ledger() {
    let s = settle(4, 2, &[Some(3), None, Some(7)]);
    assert_eq!(s.printer_credit_sum, 10);
    assert_eq!(s.ledger_credit_sum, 10);
    assert!(!s.is_mismatch());
    let s = settle(1, 0, &[]);
    assert!(s.is_mismatch());
}

#[test]
fn full_sync_plan() {
    let rows = [
        MirrorRow { account_id: Some(1), printer_id: 10 },
        MirrorRow { account_id: None, printer_id: 11 },
        MirrorRow { account_id: Some(2), printer_id: 12 },
    ];
    let plan = plan_full_sync(&rows, &[10, 11]);
    assert_eq!(plan.settle.len(), 2);
    assert!(plan.settle[0].clear_device_counter);
    assert!(!plan.settle[1].clear_device_counter);
    assert_eq!(plan.missing, vec![MissingStep::Resync { account_id: 2, printer_id: 12 }]);
    let plan = plan_full_sync(&rows, &[10, 12]);
    assert_eq!(plan.missing, vec![MissingStep::DeleteMirror { printer_id: 11 }]);
}

#[test]
fn refresh_every_five_minutes() {
    assert!(refresh_due(None, 0));
    assert!(!refresh_due(Some(100), 400));
    assert!(refresh_due(Some(100), 401));
    assert_eq!(job_status_after(true), JobStatus::Done);
    assert_eq!(job_status_after(false), JobStatus::Error);
}

#[test]
fn job_kinds_and_messages() {
    assert_eq!(JobData::FullSync.kind(), "full_sync");
    assert_eq!(JobData::SyncAccount { account_id: 1 }.kind(), "sync_account");
    assert_eq!(JobData::DeleteAccount { printer_id: 3 }.kind(), "delete_account");
    assert_eq!(
        PrinterRequestError::Failure(Some("E12".into())).message(),
        "Request returned an error code: E12"
    );
    assert_eq!(
        PrinterRequestError::Failure(None).message(),
        "Request returned an error code: <unknown>"
    );
    assert_eq!(PrinterRequestError::AccountNotFound.message(), "Printer account not found");
}

#[test]
fn unfinished_jobs_split_by_status() {
    let jobs = vec![
        ("sync_account".to_string(), JobStatus::Error),
        ("refresh".to_string(), JobStatus::Pending),
        ("full_sync".to_string(), JobStatus::Processing),
    ];
    let (errors, pending) = partition_jobs(&jobs);
    assert_eq!(errors, vec!["sync_account".to_string()]);
    assert_eq!(pending, vec!["refresh".to_string(), "full_sync".to_string()]);
}

#[test]
fn restoring_lost_accounts() {
    assert!(matches!(restore_source(None), RestoreSource::AccountDeleted));
    assert!(matches!(
        restore_source(Some((Some("a@b".into()), None, Some("pin".into())))),
        RestoreSource::MissingCredentials
    ));
    match restore_source(Some((Some("a@b".into()), Some("u".into()), Some("pin".into())))) {
        RestoreSource::Restore { email, username, pin_encrypted } => {
            assert_eq!((email.as_str(), username.as_str(), pin_encrypted.as_str()), ("a@b", "u", "pin"));
        }
        other => panic!("unexpected {other:?}"),
    }
    assert_eq!(RestoreSource::AccountDeleted.failure_reason(), "account_deleted");
    assert_eq!(RestoreSource::MissingCredentials.failure_reason(), "missing_credentials");
    assert_eq!(
        account_dedup_key("cannot_restore_", 0x67e5_5044_10b1_426f_9247_bb68_0e5f_e0c8),
        "cannot_restore_67e55044-10b1-426f-9247-bb680e5fe0c8"
    );
    assert!(delete_succeeded(DeviceReply::AccountNotFound));
    assert!(!delete_succeeded(DeviceReply::Failed));
    assert_eq!(sync_action(None), SyncAction::Create);
    assert_eq!(sync_action(Some(5)), SyncAction::SetPassword { printer_id: 5 });
    assert_eq!(after_set_password(DeviceReply::Done), Ok(true));
    assert_eq!(after_set_password(DeviceReply::AccountNotFound), Ok(false));
    assert!(after_set_password(DeviceReply::Failed).is_err());
}

#[test]
fn more_credit_never_lowers_the_limit() {
    let mut last = page_limit(Some(7), 3, Some(-10)).unwrap();
    for balance in [-10, 0, 6, 7, 13, 14, 700, i32::MAX] {
        let l = page_limit(Some(7), 3, Some(balance)).unwrap();
        assert!(l >= last);
        last = l;
    }
}
