//! Access rules: app roles held through group memberships, group roles, and
//! the per-board permissions that govern posting, editing and moderation.
//!
//! The facts come from the database (which roles and grants a person holds);
//! the rules that turn them into a decision live here.
use crate::http::errors::VialoError;
use vstd::prelude::*;

verus! {

/// A person's role inside one group.
#[derive(Clone, Copy, Debug, PartialEq, Eq, Structural)]
pub enum GroupRole {
    Member,
    Manager,
}

/// A site-wide role, granted to every member of a group that holds it.
#[derive(Clone, Copy, Debug, PartialEq, Eq, Structural)]
pub enum AppRole {
    AccountManager,
    CreditManager,
    BookableManager,
    BoardManager,
    HomeManager,
    NetworkManager,
    HistoryViewer,
    HealthViewer,
}

/// A group's permission on a board; each level includes the ones before it.
#[derive(Clone, Copy, Debug, PartialEq, Eq, Structural)]
pub enum BoardPerm {
    View,
    Post,
    Moderate,
    Admin,
}

/// One group membership of a person.
#[derive(Clone, Copy, Debug, PartialEq, Eq, Structural)]
pub struct Membership {
    pub group_id: u128,
    pub role: GroupRole,
}

pub open spec fn app_role_name(r: AppRole) -> Seq<char> {
    match r {
        AppRole::AccountManager => "account_manager"@,
        AppRole::CreditManager => "credit_manager"@,
        AppRole::BookableManager => "bookable_manager"@,
        AppRole::BoardManager => "board_manager"@,
        AppRole::HomeManager => "home_manager"@,
        AppRole::NetworkManager => "network_manager"@,
        AppRole::HistoryViewer => "history_viewer"@,
        AppRole::HealthViewer => "health_viewer"@,
    }
}

impl AppRole {
    /// The role's name as the database and clients spell it.
    pub fn name(&self) -> (s: &'static str)
        ensures
            s@ == app_role_name(*self),
    {
        proof {
            reveal_strlit("account_manager");
            reveal_strlit("credit_manager");
            reveal_strlit("bookable_manager");
            reveal_strlit("board_manager");
            reveal_strlit("home_manager");
            reveal_strlit("network_manager");
            reveal_strlit("history_viewer");
            reveal_strlit("health_viewer");
        }
        match self {
            AppRole::AccountManager => "account_manager",
            AppRole::CreditManager => "credit_manager",
            AppRole::BookableManager => "bookable_manager",
            AppRole::BoardManager => "board_manager",
            AppRole::HomeManager => "home_manager",
            AppRole::NetworkManager => "network_manager",
            AppRole::HistoryViewer => "history_viewer",
            AppRole::HealthViewer => "health_viewer",
        }
    }
}

/// The role a name spells, if any.
pub fn app_role_named(name: &str) -> (r: Option<AppRole>)
    ensures
        r matches Some(role) ==> app_role_name(role) == name@,
        r is None ==> forall|role: AppRole| app_role_name(role) != name@,
{
    let all = [
        AppRole::AccountManager,
        AppRole::CreditManager,
        AppRole::BookableManager,
        AppRole::BoardManager,
        AppRole::HomeManager,
        AppRole::NetworkManager,
        AppRole::HistoryViewer,
        AppRole::HealthViewer,
    ];
    let mut i: usize = 0;
    while i < 8
        invariant
            0 <= i <= 8,
            all@ == seq![
                AppRole::AccountManager,
                AppRole::CreditManager,
                AppRole::BookableManager,
                AppRole::BoardManager,
                AppRole::HomeManager,
                AppRole::NetworkManager,
                AppRole::HistoryViewer,
                AppRole::HealthViewer,
            ],
            forall|k: int| 0 <= k < i ==> app_role_name(#[trigger] all@[k]) != name@,
        decreases 8 - i,
    {
        let role = all[i];
        if crate::text::same_text(role.name(), name) {
            return Some(role);
        }
        i = i + 1;
    }
    proof {
        assert forall|role: AppRole| app_role_name(role) != name@ by {
            match role {
                AppRole::AccountManager => assert(app_role_name(all@[0]) != name@),
                AppRole::CreditManager => assert(app_role_name(all@[1]) != name@),
                AppRole::BookableManager => assert(app_role_name(all@[2]) != name@),
                AppRole::BoardManager => assert(app_role_name(all@[3]) != name@),
                AppRole::HomeManager => assert(app_role_name(all@[4]) != name@),
                AppRole::NetworkManager => assert(app_role_name(all@[5]) != name@),
                AppRole::HistoryViewer => assert(app_role_name(all@[6]) != name@),
                AppRole::HealthViewer => assert(app_role_name(all@[7]) != name@),
            }
        }
    }
    None
}

/// A role held by a group: every member of the group holds it.
#[derive(Clone, Copy, Debug, PartialEq, Eq, Structural)]
pub struct RoleGrant {
    pub group_id: u128,
    pub role: AppRole,
}

/// The account holds `role`: it is a member (an `(account, group)` row) of
/// a group that holds the role.
pub open spec fn holds_app_role(memberships: Seq<(u128, u128)>, grants: Seq<RoleGrant>, account: u128, role: AppRole) -> bool {
    exists|i: int, j: int|
        0 <= i < memberships.len() && 0 <= j < grants.len() && (#[trigger] memberships[i]).0 == account
            && (#[trigger] grants[j]).group_id == memberships[i].1 && grants[j].role == role
}

/// The account holds `role` through one of the first `n` membership rows.
spec fn held_through_first(memberships: Seq<(u128, u128)>, grants: Seq<RoleGrant>, account: u128, role: AppRole, n: int) -> bool {
    exists|i: int, j: int|
        0 <= i < n && 0 <= j < grants.len() && (#[trigger] memberships[i]).0 == account
            && (#[trigger] grants[j]).group_id == memberships[i].1 && grants[j].role == role
}

/// One of the first `n` grants gives `role` to `group`.
spec fn granted_in_first(grants: Seq<RoleGrant>, group: u128, role: AppRole, n: int) -> bool {
    exists|k: int| 0 <= k < n && (#[trigger] grants[k]).group_id == group && grants[k].role == role
}

/// The app roles an account holds through its group memberships, from the
/// membership rows and the groups' role rows.
pub fn roles_held(memberships: &[(u128, u128)], grants: &[RoleGrant], account: u128) -> (held: Vec<AppRole>)
    ensures
        forall|role: AppRole| held@.contains(role) <==> holds_app_role(memberships@, grants@, account, role),
{
    let mut held: Vec<AppRole> = Vec::new();
    let mut i: usize = 0;
    while i < memberships.len()
        invariant
            0 <= i <= memberships@.len(),
            forall|role: AppRole|
                held@.contains(role) <==> held_through_first(memberships@, grants@, account, role, i as int),
        decreases memberships@.len() - i,
    {
        let (acc, group) = memberships[i];
        let mut j: usize = 0;
        while j < grants.len()
            invariant
                0 <= i < memberships@.len(),
                (acc, group) == memberships@[i as int],
                0 <= j <= grants@.len(),
                forall|role: AppRole|
                    held@.contains(role) <==> (held_through_first(memberships@, grants@, account, role, i as int)
                        || (acc == account && granted_in_first(grants@, group, role, j as int))),
            decreases grants@.len() - j,
        {
            let ghost before = held@;
            if acc == account && grants[j].group_id == group {
                held.push(grants[j].role);
            }
            proof {
                assert forall|role: AppRole| held@.contains(role) <==> (held_through_first(
                    memberships@,
                    grants@,
                    account,
                    role,
                    i as int,
                ) || (acc == account && granted_in_first(grants@, group, role, j + 1))) by {
                    if held@.contains(role) && held@ != before {
                        let x = choose|x: int| 0 <= x < held@.len() && held@[x] == role;
                        if x < before.len() {
                            assert(before[x] == role);
                        }
                    }
                    if before.contains(role) {
                        let x = choose|x: int| 0 <= x < before.len() && before[x] == role;
                        assert(held@[x] == role);
                    }
                    if acc == account && grants@[j as int].group_id == group && grants@[j as int].role == role {
                        assert(held@[before.len() as int] == role);
                    }
                    if acc == account && granted_in_first(grants@, group, role, j + 1) {
                        let k = choose|k: int|
                            0 <= k < j + 1 && (#[trigger] grants@[k]).group_id == group && grants@[k].role == role;
                        if k < j {
                            assert(granted_in_first(grants@, group, role, j as int));
                        }
                    }
                }
            }
            j = j + 1;
        }
        proof {
            assert forall|role: AppRole| held@.contains(role) <==> held_through_first(
                memberships@,
                grants@,
                account,
                role,
                i + 1,
            ) by {
                if held_through_first(memberships@, grants@, account, role, i + 1) {
                    let (a, k) = choose|a: int, k: int|
                        0 <= a < i + 1 && 0 <= k < grants@.len() && (#[trigger] memberships@[a]).0 == account
                            && (#[trigger] grants@[k]).group_id == memberships@[a].1 && grants@[k].role == role;
                    if a < i {
                        assert(held_through_first(memberships@, grants@, account, role, i as int));
                    } else {
                        assert(granted_in_first(grants@, group, role, grants@.len() as int));
                    }
                }
                if acc == account && granted_in_first(grants@, group, role, grants@.len() as int) {
                    let k = choose|k: int|
                        0 <= k < grants@.len() && (#[trigger] grants@[k]).group_id == group && grants@[k].role
                            == role;
                    assert(memberships@[i as int].0 == account);
                }
            }
        }
        i = i + 1;
    }
    held
}

/// The rank of a board permission: `view < post < moderate < admin`.
pub open spec fn perm_rank(p: BoardPerm) -> int {
    match p {
        BoardPerm::View => 0,
        BoardPerm::Post => 1,
        BoardPerm::Moderate => 2,
        BoardPerm::Admin => 3,
    }
}

impl BoardPerm {
    /// Whether this permission includes `min`.
    pub fn at_least(&self, min: BoardPerm) -> (b: bool)
        ensures
            b == (perm_rank(*self) >= perm_rank(min)),
    {
        let r: u8 = match self {
            BoardPerm::View => 0,
            BoardPerm::Post => 1,
            BoardPerm::Moderate => 2,
            BoardPerm::Admin => 3,
        };
        let m: u8 = match min {
            BoardPerm::View => 0,
            BoardPerm::Post => 1,
            BoardPerm::Moderate => 2,
            BoardPerm::Admin => 3,
        };
        r >= m
    }
}

/// Some grant of the person's groups on the board includes `min`.
pub open spec fn grants_reach(grants: Seq<BoardPerm>, min: BoardPerm) -> bool {
    exists|i: int| 0 <= i < grants.len() && perm_rank(#[trigger] grants[i]) >= perm_rank(min)
}

fn any_grant_reaches(grants: &[BoardPerm], min: BoardPerm) -> (b: bool)
    ensures
        b == grants_reach(grants@, min),
{
    let mut i: usize = 0;
    while i < grants.len()
        invariant
            0 <= i <= grants@.len(),
            forall|k: int| 0 <= k < i ==> perm_rank(#[trigger] grants@[k]) < perm_rank(min),
        decreases grants@.len() - i,
    {
        if grants[i].at_least(min) {
            return true;
        }
        i = i + 1;
    }
    false
}

/// The person holds `role` through one of their groups.
pub fn check_app_role(held: &[AppRole], role: AppRole) -> (r: Result<(), VialoError>)
    ensures
        r is Ok <==> held@.contains(role),
        r matches Err(e) ==> e is Forbidden,
{
    let mut i: usize = 0;
    while i < held.len()
        invariant
            0 <= i <= held@.len(),
            forall|k: int| 0 <= k < i ==> held@[k] != role,
        decreases held@.len() - i,
    {
        if held[i] == role {
            return Ok(());
        }
        i = i + 1;
    }
    Err(VialoError::Forbidden)
}

pub open spec fn is_member(memberships: Seq<Membership>, group_id: u128) -> bool {
    exists|i: int| 0 <= i < memberships.len() && (#[trigger] memberships[i]).group_id == group_id
}

pub open spec fn is_manager(memberships: Seq<Membership>, group_id: u128) -> bool {
    exists|i: int|
        0 <= i < memberships.len() && (#[trigger] memberships[i]).group_id == group_id
            && memberships[i].role == GroupRole::Manager
}

fn find_membership(memberships: &[Membership], group_id: u128, manager_only: bool) -> (b: bool)
    ensures
        b == (if manager_only {
            is_manager(memberships@, group_id)
        } else {
            is_member(memberships@, group_id)
        }),
{
    let mut i: usize = 0;
    while i < memberships.len()
        invariant
            0 <= i <= memberships@.len(),
            forall|k: int|
                0 <= k < i ==> !((#[trigger] memberships@[k]).group_id == group_id && (!manager_only
                    || memberships@[k].role == GroupRole::Manager)),
        decreases memberships@.len() - i,
    {
        let m = memberships[i];
        if m.group_id == group_id && (!manager_only || m.role == GroupRole::Manager) {
            return true;
        }
        i = i + 1;
    }
    false
}

/// The person is a manager of the group.
pub fn check_manager_of_group(memberships: &[Membership], group_id: u128) -> (r: Result<(), VialoError>)
    ensures
        r is Ok <==> is_manager(memberships@, group_id),
        r matches Err(e) ==> e is Forbidden,
{
    if find_membership(memberships, group_id, true) {
        Ok(())
    } else {
        Err(VialoError::Forbidden)
    }
}

/// The person is a member of the group, in any role.
pub fn check_member_of_group(memberships: &[Membership], group_id: u128) -> (r: Result<(), VialoError>)
    ensures
        r is Ok <==> is_member(memberships@, group_id),
        r matches Err(e) ==> e is Forbidden,
{
    if find_membership(memberships, group_id, false) {
        Ok(())
    } else {
        Err(VialoError::Forbidden)
    }
}

/// The person is a member of the group, or holds the app role.
pub fn check_member_of_group_or_app_role(
    memberships: &[Membership],
    held: &[AppRole],
    group_id: u128,
    role: AppRole,
) -> (r: Result<(), VialoError>)
    ensures
        r is Ok <==> (is_member(memberships@, group_id) || held@.contains(role)),
        r matches Err(e) ==> e is Forbidden,
{
    if find_membership(memberships, group_id, false) {
        return Ok(());
    }
    check_app_role(held, role)
}

/// The person manages the group, or holds the app role.
pub fn check_manager_of_group_or_app_role(
    memberships: &[Membership],
    held: &[AppRole],
    group_id: u128,
    role: AppRole,
) -> (r: Result<(), VialoError>)
    ensures
        r is Ok <==> (is_manager(memberships@, group_id) || held@.contains(role)),
        r matches Err(e) ==> e is Forbidden,
{
    if find_membership(memberships, group_id, true) {
        return Ok(());
    }
    check_app_role(held, role)
}

/// A board action needing `required` is allowed to board managers and to
/// anyone whose group grant on the board includes it.
pub open spec fn board_access(is_board_manager: bool, grants: Seq<BoardPerm>, required: BoardPerm) -> bool {
    is_board_manager || grants_reach(grants, required)
}

/// Checks a board action (`grants` are the person's group grants on the board).
pub fn check_board_perm(is_board_manager: bool, grants: &[BoardPerm], required: BoardPerm) -> (r: Result<
    (),
    VialoError,
>)
    ensures
        r is Ok <==> board_access(is_board_manager, grants@, required),
        r matches Err(e) ==> e is Forbidden,
{
    if is_board_manager || any_grant_reaches(grants, required) {
        Ok(())
    } else {
        Err(VialoError::Forbidden)
    }
}

/// Posting to a board needs the `post` permission there.
pub fn check_can_post_to_board(is_board_manager: bool, grants: &[BoardPerm]) -> (r: Result<
    (),
    VialoError,
>)
    ensures
        r is Ok <==> board_access(is_board_manager, grants@, BoardPerm::Post),
        r matches Err(e) ==> e is Forbidden,
{
    check_board_perm(is_board_manager, grants, BoardPerm::Post)
}

/// Editing a post: board managers; the author, with `post` on the board the
/// post is moved to; moderators of the board the post is on.
pub open spec fn update_allowed(
    is_board_manager: bool,
    is_author: bool,
    target_grants: Seq<BoardPerm>,
    post_board_grants: Seq<BoardPerm>,
) -> bool {
    ||| is_board_manager
    ||| is_author && grants_reach(target_grants, BoardPerm::Post)
    ||| grants_reach(post_board_grants, BoardPerm::Moderate)
}

/// Deleting a post: board managers, the author, and moderators of its board.
pub open spec fn delete_allowed(is_board_manager: bool, is_author: bool, post_board_grants: Seq<BoardPerm>) -> bool {
    is_board_manager || is_author || grants_reach(post_board_grants, BoardPerm::Moderate)
}

/// Decides whether the person may edit the post.
pub fn check_update_post(
    is_board_manager: bool,
    is_author: bool,
    target_grants: &[BoardPerm],
    post_board_grants: &[BoardPerm],
) -> (r: Result<(), VialoError>)
    ensures
        r is Ok <==> update_allowed(is_board_manager, is_author, target_grants@, post_board_grants@),
        r matches Err(e) ==> e is Forbidden,
{
    if is_board_manager {
        return Ok(());
    }
    let author_may = is_author && any_grant_reaches(target_grants, BoardPerm::Post);
    if author_may || any_grant_reaches(post_board_grants, BoardPerm::Moderate) {
        Ok(())
    } else {
        Err(VialoError::Forbidden)
    }
}

/// Decides whether the person may delete the post.
pub fn check_delete_post(is_board_manager: bool, is_author: bool, post_board_grants: &[BoardPerm]) -> (r:
    Result<(), VialoError>)
    ensures
        r is Ok <==> delete_allowed(is_board_manager, is_author, post_board_grants@),
        r matches Err(e) ==> e is Forbidden,
{
    if is_board_manager || is_author || any_grant_reaches(post_board_grants, BoardPerm::Moderate) {
        Ok(())
    } else {
        Err(VialoError::Forbidden)
    }
}

/// Changing a board: board managers, or managers of both the group the
/// board is linked to and the group it is to be linked to.
pub fn check_put_board(is_board_manager: bool, manages_new_group: bool, manages_current_group: bool) -> (r:
    Result<(), VialoError>)
    ensures
        r is Ok <==> (is_board_manager || (manages_new_group && manages_current_group)),
        r matches Err(e) ==> e is Forbidden,
{
    if is_board_manager || (manages_new_group && manages_current_group) {
        Ok(())
    } else {
        Err(VialoError::Forbidden)
    }
}

/// Board managers pass every board check.
pub proof fn law_board_manager_passes(
    is_author: bool,
    grants: Seq<BoardPerm>,
    other: Seq<BoardPerm>,
    required: BoardPerm,
)
    ensures
        board_access(true, grants, required),
        update_allowed(true, is_author, grants, other),
        delete_allowed(true, is_author, other),
{
}

/// A higher grant, or a lower requirement, never takes access away.
pub proof fn law_board_access_monotone(
    is_board_manager: bool,
    grants: Seq<BoardPerm>,
    more: Seq<BoardPerm>,
    required: BoardPerm,
    lower: BoardPerm,
)
    requires
        forall|i: int| 0 <= i < grants.len() ==> #[trigger] more.contains(grants[i]),
        perm_rank(lower) <= perm_rank(required),
    ensures
        board_access(is_board_manager, grants, required) ==> board_access(is_board_manager, more, required),
        board_access(is_board_manager, grants, required) ==> board_access(is_board_manager, grants, lower),
{
    if grants_reach(grants, required) {
        let i = choose|i: int| 0 <= i < grants.len() && perm_rank(#[trigger] grants[i]) >= perm_rank(required);
        assert(more.contains(grants[i]));
        let j = choose|j: int| 0 <= j < more.len() && more[j] == grants[i];
        assert(perm_rank(more[j]) >= perm_rank(required));
        assert(perm_rank(grants[i]) >= perm_rank(lower));
    }
}

/// Whoever may edit a post may also delete it.
pub proof fn law_editors_may_delete(
    is_board_manager: bool,
    is_author: bool,
    target_grants: Seq<BoardPerm>,
    post_board_grants: Seq<BoardPerm>,
)
    ensures
        update_allowed(is_board_manager, is_author, target_grants, post_board_grants) ==> delete_allowed(
            is_board_manager,
            is_author,
            post_board_grants,
        ),
{
}

} // verus!
