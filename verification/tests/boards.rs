use vialo::http::i18n::Translations;
use vialo::permissions::{app_role_named, roles_held, RoleGrant};
use vialo::permissions::{
    check_app_role, check_board_perm, check_can_post_to_board, check_delete_post,
    check_manager_of_group, check_manager_of_group_or_app_role, check_member_of_group,
    check_member_of_group_or_app_role, check_put_board, check_update_post, AppRole, BoardPerm,
    GroupRole, Membership,
};
use vialo::posts::{
    board_selector, content_selection, BoardSelector, page_window, plan_get_post, plan_list_posts, post_visible, render_post,
    requested_langs, visibility_filter, wants_all_langs, ContentSelection, PostContentFormat,
    PostFilterOptions, PostVisibility, VisibilityFilter,
};

fn opts() -> PostFilterOptions {
    PostFilterOptions {
        lang: None,
        page: None,
        limit: None,
        search: None,
        current_only: None,
        board_id: None,
        pinned_on: None,
        content_format: vec![],
    }
}

#[test]
fn board_permissions_are_ordered() {
    assert!(BoardPerm::Admin.at_least(BoardPerm::Moderate));
    assert!(BoardPerm::Post.at_least(BoardPerm::Post));
    assert!(!BoardPerm::View.at_least(BoardPerm::Post));
    assert!(check_board_perm(false, &[BoardPerm::View, BoardPerm::Moderate], BoardPerm::Moderate).is_ok());
    assert!(check_board_perm(false, &[BoardPerm::Post], BoardPerm::Admin).is_err());
    assert!(check_board_perm(true, &[], BoardPerm::Admin).is_ok());
    assert!(check_can_post_to_board(false, &[BoardPerm::Post]).is_ok());
    assert!(check_can_post_to_board(false, &[BoardPerm::View]).is_err());
}

#[test]
fn post_edit_and_delete_rules() {
    // the author needs post permission on the target board
    assert!(check_update_post(false, true, &[BoardPerm::Post], &[]).is_ok());
    assert!(check_update_post(false, true, &[BoardPerm::View], &[]).is_err());
    // a moderator of the post's board may edit
    assert!(check_update_post(false, false, &[], &[BoardPerm::Moderate]).is_ok());
    assert!(check_update_post(false, false, &[BoardPerm::Admin], &[BoardPerm::Post]).is_err());
    // the author may always delete
    assert!(check_delete_post(false, true, &[]).is_ok());
    assert!(check_delete_post(false, false, &[BoardPerm::Post]).is_err());
    assert!(check_delete_post(true, false, &[]).is_ok());
    assert!(check_put_board(false, true, true).is_ok());
    assert!(check_put_board(false, true, false).is_err());
    assert!(check_put_board(true, false, false).is_ok());
}

#[test]
fn roles_and_memberships() {
    let held = [AppRole::NetworkManager, AppRole::HistoryViewer];
    assert!(check_app_role(&held, AppRole::NetworkManager).is_ok());
    assert!(check_app_role(&held, AppRole::BoardManager).is_err());
    let m = [
        Membership { group_id: 1, role: GroupRole::Member },
        Membership { group_id: 2, role: GroupRole::Manager },
    ];
    assert!(check_member_of_group(&m, 1).is_ok());
    assert!(check_manager_of_group(&m, 1).is_err());
    assert!(check_manager_of_group(&m, 2).is_ok());
    assert!(check_member_of_group(&m, 3).is_err());
    assert!(check_member_of_group_or_app_role(&m, &held, 3, AppRole::HistoryViewer).is_ok());
    assert!(check_manager_of_group_or_app_role(&m, &held, 1, AppRole::AccountManager).is_err());
    assert_eq!(AppRole::BoardManager.name(), "board_manager");
}

#[test]
fn post_visibility() {
    let anon = visibility_filter(true, None);
    assert_eq!(anon, VisibilityFilter::PublicOnly);
    assert!(post_visible(anon, PostVisibility::Public, &[], false));
    assert!(!post_visible(anon, PostVisibility::LoggedIn, &[], false));
    let reader = visibility_filter(false, Some(7));
    assert_eq!(reader, VisibilityFilter::Reader { account_id: 7 });
    assert!(post_visible(reader, PostVisibility::LoggedIn, &[], false));
    assert!(!post_visible(reader, PostVisibility::Board, &[], false));
    assert!(post_visible(reader, PostVisibility::Board, &[BoardPerm::View], false));
    assert_eq!(visibility_filter(true, Some(7)), VisibilityFilter::Everything);
}

#[test]
fn content_formats_default_to_markdown() {
    assert_eq!(
        content_selection(&[]),
        ContentSelection { markdown: true, html: false, plain: false }
    );
    assert_eq!(
        content_selection(&[PostContentFormat::Html, PostContentFormat::Plain]),
        ContentSelection { markdown: false, html: true, plain: true }
    );
}

#[test]
fn languages_default_to_english_then_german() {
    assert_eq!(requested_langs(None), vec!["en".to_string(), "de".to_string()]);
    assert_eq!(requested_langs(Some(vec!["fr".into()])), vec!["fr".to_string()]);
    assert!(wants_all_langs(&["all".to_string()]));
    assert!(!wants_all_langs(&["all".to_string(), "en".to_string()]));
    assert!(!wants_all_langs(&["en".to_string()]));
}

#[test]
fn pages_count_from_one() {
    assert_eq!(page_window(None, None), (10, 0));
    assert_eq!(page_window(Some(3), Some(20)), (20, 40));
    assert_eq!(page_window(Some(0), None), (10, -10));
}

#[test]
fn list_plan() {
    let mut o = opts();
    o.page = Some(2);
    o.pinned_on = Some(true);
    o.search = Some("party".into());
    let p = plan_list_posts(o, None);
    assert_eq!((p.limit, p.offset), (10, 10));
    assert!(p.current_only);
    assert!(p.with_pinned_on);
    assert_eq!(p.search.as_deref(), Some("party"));
    assert_eq!(p.visibility, VisibilityFilter::PublicOnly);
    let mut o = opts();
    o.current_only = Some(false);
    let p = plan_list_posts(o, Some(4));
    assert!(!p.current_only);
    assert_eq!(p.visibility, VisibilityFilter::Reader { account_id: 4 });
}

#[test]
fn read_plan() {
    let mut o = opts();
    o.lang = Some(vec!["all".into()]);
    o.content_format = vec![PostContentFormat::Plain];
    let p = plan_get_post(o, Some(1), true);
    assert!(p.all_langs);
    assert_eq!(p.content, ContentSelection { markdown: false, html: false, plain: true });
    assert_eq!(p.visibility, VisibilityFilter::Everything);
}

#[test]
fn markdown_is_rendered_and_sanitised() {
    let mut t = Translations::new();
    t.insert("en".into(), "**bold** <script>alert(1)</script>".into());
    let (html, plain) = render_post(&Some(t));
    let html = html.unwrap();
    let plain = plain.unwrap();
    let (lang, h) = &html.entries()[0];
    assert_eq!(lang, "en");
    assert!(h.contains("<strong>bold</strong>"));
    assert!(!h.contains("<script>"));
    let (_, p) = &plain.entries()[0];
    assert!(p.contains("bold"));
    assert!(!p.contains("<strong>"));
    let (h, p) = render_post(&None);
    assert!(h.is_none() && p.is_none());
}

#[test]
fn page_arithmetic_range() {
    assert!(vialo::posts::pagination_in_range(None, None));
    assert!(vialo::posts::pagination_in_range(Some(3), Some(20)));
    assert!(!vialo::posts::pagination_in_range(Some(i64::MIN), Some(1)));
    assert!(!vialo::posts::pagination_in_range(Some(i64::MAX), Some(i64::MAX)));
    assert!(vialo::posts::pagination_in_range(Some(i64::MAX), Some(1)));
}

#[test]
fn editors_may_delete() {
    let cases = [
        (false, true, vec![BoardPerm::Post], vec![]),
        (false, false, vec![], vec![BoardPerm::Moderate]),
        (true, false, vec![], vec![]),
    ];
    for (mgr, author, target, post_board) in cases {
        assert!(check_update_post(mgr, author, &target, &post_board).is_ok());
        assert!(check_delete_post(mgr, author, &post_board).is_ok());
    }
}

#[test]
fn boards_are_named_by_id_or_slug() {
    assert_eq!(board_selector("12"), BoardSelector::Id(12));
    assert_eq!(board_selector("-3"), BoardSelector::Id(-3));
    assert_eq!(board_selector("news"), BoardSelector::Slug);
    assert_eq!(board_selector("99999999999"), BoardSelector::Slug);
    assert_eq!(board_selector("12-news"), BoardSelector::Slug);
}

#[test]
fn roles_come_from_group_rows() {
    let memberships = [(1u128, 10u128), (1, 11), (2, 12)];
    let grants = [
        RoleGrant { group_id: 10, role: AppRole::BoardManager },
        RoleGrant { group_id: 12, role: AppRole::NetworkManager },
        RoleGrant { group_id: 11, role: AppRole::HealthViewer },
    ];
    let held = roles_held(&memberships, &grants, 1);
    assert!(held.contains(&AppRole::BoardManager));
    assert!(held.contains(&AppRole::HealthViewer));
    assert!(!held.contains(&AppRole::NetworkManager));
    assert!(check_app_role(&held, AppRole::BoardManager).is_ok());
    assert!(check_app_role(&held, AppRole::NetworkManager).is_err());
    assert!(roles_held(&memberships, &grants, 3).is_empty());
    assert_eq!(app_role_named("network_manager"), Some(AppRole::NetworkManager));
    assert_eq!(app_role_named("health_viewer"), Some(AppRole::HealthViewer));
    assert_eq!(app_role_named("admin"), None);
}
