use vialo::http::errors::VialoError;
use vialo::people::{
    added_member_role, capabilities, check_group_members_visible, check_self_or_account_manager,
    group_listed, person_lease_change, printer_link, refund_row, role_changes, undo_plan,
    LeaseChange, LedgerRow, LinkOrCreate, PrinterLink, UndoTransactionSchema,
};
use vialo::permissions::{AppRole, BoardPerm, GroupRole};

#[test]
fn role_changes_turn_current_into_new() {
    let current = [AppRole::AccountManager, AppRole::BoardManager, AppRole::HealthViewer];
    let new = [AppRole::BoardManager, AppRole::NetworkManager];
    let (removed, added) = role_changes(&current, &new);
    assert_eq!(removed, vec![AppRole::AccountManager, AppRole::HealthViewer]);
    assert_eq!(added, vec![AppRole::NetworkManager]);
    let (removed, added) = role_changes(&new, &new);
    assert!(removed.is_empty() && added.is_empty());
}

#[test]
fn capabilities_follow_groups() {
    let c = capabilities(vec![AppRole::HistoryViewer], true, &[BoardPerm::View, BoardPerm::Moderate]);
    assert_eq!(c.roles, vec![AppRole::HistoryViewer]);
    assert!(c.can_manage_some_bookables);
    assert!(c.can_interact_with_some_boards);
    let c = capabilities(vec![], false, &[BoardPerm::Post]);
    assert!(!c.can_interact_with_some_boards);
}

#[test]
fn group_visibility_rules() {
    assert!(check_group_members_visible(false, true, false).is_ok());
    assert!(check_group_members_visible(false, false, true).is_ok());
    assert!(check_group_members_visible(true, false, false).is_ok());
    assert!(matches!(check_group_members_visible(false, false, false), Err(VialoError::Forbidden)));
    assert!(group_listed(true, false));
    assert!(!group_listed(false, false));
    assert_eq!(added_member_role(None), GroupRole::Member);
    assert_eq!(added_member_role(Some(GroupRole::Manager)), GroupRole::Manager);
    assert!(check_self_or_account_manager(3, 3, false).is_ok());
    assert!(check_self_or_account_manager(3, 4, false).is_err());
    assert!(check_self_or_account_manager(3, 4, true).is_ok());
}

#[test]
fn undoing_a_booking_needs_a_decision() {
    assert_eq!(undo_plan(false, None).unwrap(), false);
    let keep = UndoTransactionSchema { cancel_associated_product: Some(false) };
    let cancel = UndoTransactionSchema { cancel_associated_product: Some(true) };
    assert_eq!(undo_plan(true, Some(keep)).unwrap(), false);
    assert_eq!(undo_plan(true, Some(cancel)).unwrap(), true);
    match undo_plan(true, None) {
        Err(VialoError::AppError(400, code)) => assert_eq!(code, "has_associated_product"),
        other => panic!("unexpected {other:?}"),
    }
    let undecided = UndoTransactionSchema { cancel_associated_product: None };
    assert!(undo_plan(true, Some(undecided)).is_err());
}

#[test]
fn refund_returns_credits_to_the_payer() {
    let row = LedgerRow { id: 1, from_account: Some(10), to_account: Some(20), credits: 7, refund_of: None };
    let r = refund_row(row, 2);
    assert_eq!(r, LedgerRow { id: 2, from_account: None, to_account: Some(10), credits: 7, refund_of: Some(1) });
}

#[test]
fn lease_changes_of_a_person() {
    assert_eq!(person_lease_change(false, None).unwrap(), LeaseChange::Remove { status: 201 });
    assert_eq!(person_lease_change(true, Some(9)).unwrap(), LeaseChange::Upsert { room: 9, status: 200 });
    match person_lease_change(true, None) {
        Err(VialoError::AppError(400, code)) => assert_eq!(code, "unknown_room"),
        other => panic!("unexpected {other:?}"),
    }
}

#[test]
fn printer_linking() {
    assert_eq!(
        printer_link(LinkOrCreate { printer_id: Some(4) }, None).unwrap(),
        PrinterLink::Link { printer_id: 4 }
    );
    assert_eq!(printer_link(LinkOrCreate { printer_id: None }, Some(true)).unwrap(), PrinterLink::QueueSync);
    assert_eq!(printer_link(LinkOrCreate { printer_id: None }, Some(false)).unwrap(), PrinterLink::GenerateLogin);
    assert!(matches!(printer_link(LinkOrCreate { printer_id: None }, None), Err(VialoError::NotFound)));
}

#[test]
fn merging_an_identity() {
    assert_eq!(vialo::people::merge_outcome(Some(5), 5, None).unwrap(), 5);
    match vialo::people::merge_outcome(None, 0x1, Some(0x2)) {
        Err(VialoError::AppErrorWithDetails(409, code, details)) => {
            assert_eq!(code, "identity_already_bound");
            assert_eq!(
                details,
                "{\"account_id\":\"00000000-0000-0000-0000-000000000001\",\"auth_id\":\"00000000-0000-0000-0000-000000000002\"}"
            );
        }
        other => panic!("unexpected {other:?}"),
    }
    match vialo::people::merge_outcome(None, 0x1, None) {
        Err(VialoError::AppErrorWithDetails(_, _, details)) => {
            assert_eq!(details, "{\"account_id\":\"00000000-0000-0000-0000-000000000001\",\"auth_id\":null}");
        }
        other => panic!("unexpected {other:?}"),
    }
}

#[test]
fn applying_role_changes_gives_the_new_roles() {
    let current = vec![AppRole::CreditManager, AppRole::HomeManager];
    let new = vec![AppRole::HomeManager, AppRole::BookableManager, AppRole::HealthViewer];
    let (removed, added) = role_changes(&current, &new);
    let mut result: Vec<AppRole> = current.iter().copied().filter(|r| !removed.contains(r)).collect();
    result.extend(added.iter().copied());
    assert_eq!(result.len(), new.len());
    assert!(new.iter().all(|r| result.contains(r)));
    assert!(removed.iter().all(|r| !added.contains(r)));
}
