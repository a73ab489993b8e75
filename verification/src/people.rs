//! People, groups and the ledger: the rules the people handlers apply.
use crate::http::errors::VialoError;
use crate::http::models::{uuid_chars, uuid_text};
use crate::permissions::{AppRole, BoardPerm, GroupRole, grants_reach};
use crate::printer::JobStatus;
use vstd::prelude::*;
use vstd::string::StringExecFns;

verus! {

/// State of a ledger row.
#[derive(Clone, Copy, Debug, PartialEq, Eq, Structural)]
pub enum TransactionStatus {
    Pending,
    Done,
    Refunded,
}

/// What a person may do beyond their roles, derived from their groups.
#[derive(Debug)]
pub struct AccountCapabilities {
    pub roles: Vec<AppRole>,
    /// One of their groups owns a bookable asset type.
    pub can_manage_some_bookables: bool,
    /// One of their groups may moderate some board.
    pub can_interact_with_some_boards: bool,
}

/// A person's capabilities: their roles, whether a group of theirs owns a
/// bookable asset type, and whether one of their board grants reaches
/// moderation.
pub fn capabilities(roles: Vec<AppRole>, owns_bookable_type: bool, board_grants: &[BoardPerm]) -> (c: AccountCapabilities)
    ensures
        c.roles@ == roles@,
        c.can_manage_some_bookables == owns_bookable_type,
        c.can_interact_with_some_boards == grants_reach(board_grants@, BoardPerm::Moderate),
{
    let mut reach = false;
    let mut i: usize = 0;
    while i < board_grants.len()
        invariant
            0 <= i <= board_grants@.len(),
            reach == (exists|k: int|
                0 <= k < i && crate::permissions::perm_rank(#[trigger] board_grants@[k]) >= crate::permissions::perm_rank(
                    BoardPerm::Moderate,
                )),
        decreases board_grants@.len() - i,
    {
        if board_grants[i].at_least(BoardPerm::Moderate) {
            reach = true;
        }
        i = i + 1;
    }
    AccountCapabilities { roles, can_manage_some_bookables: owns_bookable_type, can_interact_with_some_boards: reach }
}

/// A room as it is created.
#[derive(Debug)]
pub struct CreateRoomSchema {
    pub label: String,
    pub capacity: i32,
    pub floor: Option<i32>,
}

/// Options of undoing a ledger row.
#[derive(Clone, Copy, Debug, PartialEq, Eq, Structural)]
pub struct UndoTransactionSchema {
    pub cancel_associated_product: Option<bool>,
}

/// A translated start-page banner.
#[derive(Debug)]
pub struct JumboModelTranslated {
    pub id: Option<i32>,
    pub img: Option<String>,
    pub headline: Option<String>,
    pub title: Option<String>,
    pub content: Option<String>,
    pub link: Option<String>,
}

/// A group as it is created or replaced.
#[derive(Debug)]
pub struct CreateGroupSchema {
    pub label: String,
    pub email: Option<String>,
    pub icon: Option<String>,
    pub public: bool,
    pub app_roles: Option<Vec<AppRole>>,
}

/// A member's new role in a group.
#[derive(Clone, Copy, Debug, PartialEq, Eq, Structural)]
pub struct PatchUserInGroupSchema {
    pub role: GroupRole,
}

/// An unfinished printer job of a person.
#[derive(Debug)]
pub struct JobWithStatus {
    /// The job's type tag.
    pub kind: String,
    pub status: JobStatus,
}

/// Query options of the printer account listing.
#[derive(Debug)]
pub struct PrinterFilterOptions {
    pub search: Option<String>,
    pub page: Option<i64>,
    pub limit: Option<i64>,
    pub account_id_is_null: Option<bool>,
}

/// Link a person to an existing device account, or create one.
#[derive(Clone, Copy, Debug, PartialEq, Eq, Structural)]
pub struct LinkOrCreate {
    pub printer_id: Option<i32>,
}

/// A person's amenities login; the password as stored, encrypted.
#[derive(Debug)]
pub struct AmenitiesLoginModel {
    pub username: String,
    pub password: String,
}

pub open spec fn not_in(t: Seq<AppRole>) -> spec_fn(AppRole) -> bool {
    |r: AppRole| !t.contains(r)
}

/// The roles of `s` that `t` lacks, in the order of `s`.
pub open spec fn without(s: Seq<AppRole>, t: Seq<AppRole>) -> Seq<AppRole> {
    s.filter(not_in(t))
}

proof fn lemma_without_contains(s: Seq<AppRole>, t: Seq<AppRole>, x: AppRole)
    ensures
        without(s, t).contains(x) <==> (s.contains(x) && !t.contains(x)),
{
    if without(s, t).contains(x) {
        let k = choose|k: int| 0 <= k < without(s, t).len() && without(s, t)[k] == x;
        s.lemma_filter_pred(not_in(t), k);
        s.lemma_filter_contains_rev(not_in(t), x);
    }
    if s.contains(x) && !t.contains(x) {
        let k = choose|k: int| 0 <= k < s.len() && s[k] == x;
        s.lemma_filter_contains(not_in(t), k);
    }
}

fn contains_role(roles: &[AppRole], r: AppRole) -> (b: bool)
    ensures
        b == roles@.contains(r),
{
    let mut i: usize = 0;
    while i < roles.len()
        invariant
            0 <= i <= roles@.len(),
            forall|k: int| 0 <= k < i ==> roles@[k] != r,
        decreases roles@.len() - i,
    {
        if roles[i] == r {
            return true;
        }
        i = i + 1;
    }
    false
}

fn roles_without(s: &[AppRole], t: &[AppRole]) -> (r: Vec<AppRole>)
    ensures
        r@ == without(s@, t@),
{
    let mut out: Vec<AppRole> = Vec::new();
    let mut i: usize = 0;
    while i < s.len()
        invariant
            0 <= i <= s@.len(),
            out@ == without(s@.take(i as int), t@),
        decreases s@.len() - i,
    {
        proof {
            assert(s@.take(i + 1).drop_last() =~= s@.take(i as int));
            reveal_with_fuel(Seq::filter, 1);
        }
        if !contains_role(t, s[i]) {
            out.push(s[i]);
        }
        i = i + 1;
    }
    assert(s@.take(s@.len() as int) =~= s@);
    out
}

/// The changes that turn a group's roles into the new ones: the roles to
/// take away and the roles to grant, each in the order given.
pub fn role_changes(current: &[AppRole], new: &[AppRole]) -> (r: (Vec<AppRole>, Vec<AppRole>))
    ensures
        r.0@ == without(current@, new@),
        r.1@ == without(new@, current@),
{
    (roles_without(current, new), roles_without(new, current))
}

/// Taking away the removed roles and granting the added ones leaves a group
/// with exactly the new roles, and no role is both taken away and granted.
pub proof fn law_role_changes_reach_new_roles(current: Seq<AppRole>, new: Seq<AppRole>)
    ensures
        current.to_set().difference(without(current, new).to_set()).union(without(new, current).to_set())
            == new.to_set(),
        without(current, new).to_set().disjoint(without(new, current).to_set()),
{
    let removed = without(current, new);
    let added = without(new, current);
    assert forall|x: AppRole| removed.to_set().contains(x) <==> (current.contains(x) && !new.contains(x)) by {
        lemma_without_contains(current, new, x);
    }
    assert forall|x: AppRole| added.to_set().contains(x) <==> (new.contains(x) && !current.contains(x)) by {
        lemma_without_contains(new, current, x);
    }
    assert(current.to_set().difference(removed.to_set()).union(added.to_set()) =~= new.to_set());
    assert(removed.to_set().disjoint(added.to_set()));
}

/// A group's members are visible to account managers, to everybody for
/// public groups, and to the group's own members.
pub fn check_group_members_visible(is_account_manager: bool, is_public: bool, is_member: bool) -> (r: Result<
    (),
    VialoError,
>)
    ensures
        r is Ok <==> (is_account_manager || is_public || is_member),
        r matches Err(e) ==> e is Forbidden,
{
    if is_account_manager || is_public || is_member {
        Ok(())
    } else {
        Err(VialoError::Forbidden)
    }
}

/// Account managers see every group; everybody else the public ones.
pub fn group_listed(public: bool, is_account_manager: bool) -> (b: bool)
    ensures
        b == (public || is_account_manager),
{
    public || is_account_manager
}

/// The role of a member added without one.
pub fn added_member_role(role: Option<GroupRole>) -> (r: GroupRole)
    ensures
        r == match role {
            Some(g) => g,
            None => GroupRole::Member,
        },
{
    match role {
        Some(g) => g,
        None => GroupRole::Member,
    }
}

/// A person's own printer and amenities details are theirs to see; anyone
/// else's need the account manager role.
pub fn check_self_or_account_manager(target: u128, user_id: u128, is_account_manager: bool) -> (r: Result<
    (),
    VialoError,
>)
    ensures
        r is Ok <==> (target == user_id || is_account_manager),
        r matches Err(e) ==> e is Forbidden,
{
    if target == user_id || is_account_manager {
        Ok(())
    } else {
        Err(VialoError::Forbidden)
    }
}

/// Undoing a ledger row whose product is a booking needs a decision on the
/// booking: cancel it, or keep it. The result says whether to cancel.
pub fn undo_plan(has_associated_product: bool, body: Option<UndoTransactionSchema>) -> (r: Result<bool, VialoError>)
    ensures
        !has_associated_product ==> r == Ok::<bool, VialoError>(false),
        has_associated_product ==> match body {
            Some(UndoTransactionSchema { cancel_associated_product: Some(c) }) => r == Ok::<bool, VialoError>(c),
            _ => (r matches Err(VialoError::AppError(status, code)) && status == 400 && code@
                == "has_associated_product"@),
        },
{
    if !has_associated_product {
        return Ok(false);
    }
    match body {
        Some(UndoTransactionSchema { cancel_associated_product: Some(c) }) => Ok(c),
        _ => {
            proof {
                reveal_strlit("has_associated_product");
            }
            Err(VialoError::AppError(400, String::from_str("has_associated_product")))
        },
    }
}

/// A ledger row: credits moved from one account to another.
#[derive(Clone, Copy, Debug, PartialEq, Eq, Structural)]
pub struct LedgerRow {
    pub id: u128,
    pub from_account: Option<u128>,
    pub to_account: Option<u128>,
    pub credits: i32,
    pub refund_of: Option<u128>,
}

/// The row that undoes `row`: its credits go back to the account they came
/// from, marked as the refund of `row`.
pub fn refund_row(row: LedgerRow, new_id: u128) -> (r: LedgerRow)
    ensures
        r == (LedgerRow {
            id: new_id,
            from_account: None,
            to_account: row.from_account,
            credits: row.credits,
            refund_of: Some(row.id),
        }),
{
    LedgerRow { id: new_id, from_account: None, to_account: row.from_account, credits: row.credits, refund_of: Some(row.id) }
}

/// What changing a person does to their lease.
#[derive(Clone, Copy, Debug, PartialEq, Eq, Structural)]
pub enum LeaseChange {
    /// Set the lease to the room found, answering with this status.
    Upsert { room: u128, status: u16 },
    /// Remove the lease, answering with this status.
    Remove { status: u16 },
}

/// A person saved with a contract gets its lease set, if the room exists;
/// one saved without loses any lease.
pub fn person_lease_change(contract_given: bool, room: Option<u128>) -> (r: Result<LeaseChange, VialoError>)
    ensures
        !contract_given ==> r == Ok::<LeaseChange, VialoError>(LeaseChange::Remove { status: 201 }),
        contract_given && room is Some ==> r == Ok::<LeaseChange, VialoError>(
            LeaseChange::Upsert { room: room->0, status: 200 },
        ),
        contract_given && room is None ==> (r matches Err(VialoError::AppError(status, code)) && status
            == 400 && code@ == "unknown_room"@),
{
    if !contract_given {
        return Ok(LeaseChange::Remove { status: 201 });
    }
    match room {
        Some(id) => Ok(LeaseChange::Upsert { room: id, status: 200 }),
        None => {
            proof {
                reveal_strlit("unknown_room");
            }
            Err(VialoError::AppError(400, String::from_str("unknown_room")))
        },
    }
}

/// What linking a person to the printer does.
#[derive(Clone, Copy, Debug, PartialEq, Eq, Structural)]
pub enum PrinterLink {
    /// Point the existing device account at the person.
    Link { printer_id: i32 },
    /// The person already has an amenities login: queue a sync of it.
    QueueSync,
    /// Make an amenities login for the person (the sync follows from it).
    GenerateLogin,
}

/// Links a person to a device account: the one given, else through their
/// amenities login, made where they have none. `provisioned` is `None` for
/// an unknown person.
pub fn printer_link(body: LinkOrCreate, provisioned: Option<bool>) -> (r: Result<PrinterLink, VialoError>)
    ensures
        body.printer_id matches Some(p) ==> r == Ok::<PrinterLink, VialoError>(PrinterLink::Link { printer_id: p }),
        body.printer_id is None ==> match provisioned {
            None => r matches Err(e) && e is NotFound,
            Some(true) => r == Ok::<PrinterLink, VialoError>(PrinterLink::QueueSync),
            Some(false) => r == Ok::<PrinterLink, VialoError>(PrinterLink::GenerateLogin),
        },
{
    match body.printer_id {
        Some(p) => Ok(PrinterLink::Link { printer_id: p }),
        None => match provisioned {
            None => Err(VialoError::NotFound),
            Some(true) => Ok(PrinterLink::QueueSync),
            Some(false) => Ok(PrinterLink::GenerateLogin),
        },
    }
}

/// The details of a refused identity merge, as the API writes them:
/// `{"account_id":"<id>","auth_id":"<id>"}`, with `null` for a person
/// without an identity.
pub open spec fn merge_details(account_id: u128, auth_id: Option<u128>) -> Seq<char> {
    "{\"account_id\":\""@ + uuid_chars(account_id) + "\",\"auth_id\":"@ + match auth_id {
        Some(a) => "\""@ + uuid_chars(a) + "\"}"@,
        None => "null}"@,
    }
}

/// Binding an identity to a person: done where the person had none
/// (`bound` is the person then bound); else refused as a conflict naming the
/// person and the identity they already have.
pub fn merge_outcome(bound: Option<u128>, account_id: u128, auth_id: Option<u128>) -> (r: Result<u128, VialoError>)
    ensures
        bound matches Some(b) ==> r == Ok::<u128, VialoError>(b),
        bound is None ==> (r matches Err(VialoError::AppErrorWithDetails(status, code, details))
            && status == 409 && code@ == "identity_already_bound"@ && details@ == merge_details(
            account_id,
            auth_id,
        )),
{
    match bound {
        Some(b) => Ok(b),
        None => {
            let mut d = String::from_str("{\"account_id\":\"");
            let a = uuid_text(account_id);
            d.append(a.as_str());
            d.append("\",\"auth_id\":");
            match auth_id {
                Some(x) => {
                    d.append("\"");
                    let t = uuid_text(x);
                    d.append(t.as_str());
                    d.append("\"}");
                },
                None => {
                    d.append("null}");
                },
            }
            proof {
                reveal_strlit("identity_already_bound");
            }
            Err(VialoError::AppErrorWithDetails(409, String::from_str("identity_already_bound"), d))
        },
    }
}

} // verus!
