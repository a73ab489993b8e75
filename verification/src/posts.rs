//! Board posts: who sees which post, which content formats and languages a
//! read returns, how listing pages are cut, and how Markdown content is
//! rendered to sanitised HTML and plain text.
use crate::http::i18n::{Translations, distinct_langs, entry_views};
use crate::permissions::BoardPerm;
use crate::text::fields::{parse_i32, signed_value};
use vstd::prelude::*;
use vstd::string::StringExecFns;

verus! {

/// Who may see a post.
#[derive(Clone, Copy, Debug, PartialEq, Eq, Structural)]
pub enum PostVisibility {
    /// Everybody, also without logging in.
    Public,
    /// Everybody who is logged in.
    LoggedIn,
    /// Members of a group with a grant on the post's board.
    Board,
}

/// A form in which a post's content can be returned.
#[derive(Clone, Copy, Debug, PartialEq, Eq, Structural)]
pub enum PostContentFormat {
    Markdown,
    Html,
    Plain,
}

/// Query options of the post and board listings.
#[derive(Debug)]
pub struct PostFilterOptions {
    pub lang: Option<Vec<String>>,
    pub page: Option<i64>,
    pub limit: Option<i64>,
    pub search: Option<String>,
    pub current_only: Option<bool>,
    pub board_id: Option<Vec<i32>>,
    pub pinned_on: Option<bool>,
    pub content_format: Vec<PostContentFormat>,
}

/// The id of a created or changed post or board.
#[derive(Clone, Copy, Debug, PartialEq, Eq, Structural)]
pub struct BoardPostIdModel {
    pub id: i32,
}

/// One stored translation.
#[derive(Debug)]
pub struct I18nStringModel {
    pub id: i32,
    pub lang: String,
    pub content: String,
}

/// A group's permission on a board, as it is set.
#[derive(Clone, Copy, Debug, PartialEq, Eq, Structural)]
pub struct PermSchema {
    pub perm: BoardPerm,
}

/// The visibility filter a post query applies for its reader.
#[derive(Clone, Copy, Debug, PartialEq, Eq, Structural)]
pub enum VisibilityFilter {
    /// Board managers see every post.
    Everything,
    /// A logged-in reader: public and logged-in posts, board posts of
    /// boards their groups have a grant on, everything for board managers.
    Reader { account_id: u128 },
    /// Readers who are not logged in see public posts only.
    PublicOnly,
}

/// Whether the filter lets a post through, given whether the reader's groups
/// hold a grant on the post's board and whether the reader manages boards.
pub open spec fn filter_admits(f: VisibilityFilter, vis: PostVisibility, has_grant: bool, is_board_manager: bool) -> bool {
    match f {
        VisibilityFilter::Everything => true,
        VisibilityFilter::Reader { .. } => vis != PostVisibility::Board || has_grant || is_board_manager,
        VisibilityFilter::PublicOnly => vis == PostVisibility::Public,
    }
}

/// Who sees a post: anonymous readers the public ones; logged-in readers
/// also those for logged-in users, and board posts where their groups hold a
/// grant on the board or they manage boards.
pub open spec fn visible_to(reader: Option<u128>, vis: PostVisibility, has_grant: bool, is_board_manager: bool) -> bool {
    match reader {
        None => vis == PostVisibility::Public,
        Some(_) => vis != PostVisibility::Board || has_grant || is_board_manager,
    }
}

/// The filter a post query uses (`is_board_manager` is only known for
/// logged-in readers).
pub fn visibility_filter(is_board_manager: bool, reader: Option<u128>) -> (f: VisibilityFilter)
    ensures
        is_board_manager && reader is Some ==> f == VisibilityFilter::Everything,
        !is_board_manager && reader is Some ==> f == (VisibilityFilter::Reader { account_id: reader->0 }),
        reader is None ==> f == VisibilityFilter::PublicOnly,
{
    match reader {
        Some(uid) => {
            if is_board_manager {
                VisibilityFilter::Everything
            } else {
                VisibilityFilter::Reader { account_id: uid }
            }
        },
        None => VisibilityFilter::PublicOnly,
    }
}

/// Applies a visibility filter to one post (`grants` are the reader's group
/// grants on the post's board).
pub fn post_visible(f: VisibilityFilter, vis: PostVisibility, grants: &[BoardPerm], is_board_manager: bool) -> (b:
    bool)
    ensures
        b == filter_admits(f, vis, grants@.len() > 0, is_board_manager),
{
    match f {
        VisibilityFilter::Everything => true,
        VisibilityFilter::Reader { .. } => vis != PostVisibility::Board || grants.len() > 0
            || is_board_manager,
        VisibilityFilter::PublicOnly => vis == PostVisibility::Public,
    }
}

/// The filter chosen for a reader admits exactly the posts the reader may see.
pub proof fn law_filter_matches_visibility(
    reader: Option<u128>,
    vis: PostVisibility,
    has_grant: bool,
    is_board_manager: bool,
)
    requires
        reader is None ==> !is_board_manager,
    ensures
        ({
            let f = match reader {
                Some(uid) => if is_board_manager {
                    VisibilityFilter::Everything
                } else {
                    VisibilityFilter::Reader { account_id: uid }
                },
                None => VisibilityFilter::PublicOnly,
            };
            filter_admits(f, vis, has_grant, is_board_manager) == visible_to(
                reader,
                vis,
                has_grant,
                is_board_manager,
            )
        }),
{
}

/// Public posts are visible to every reader, and a logged-in reader sees
/// everything an anonymous one sees.
pub proof fn law_public_posts_visible(reader: Option<u128>, vis: PostVisibility, has_grant: bool, is_board_manager: bool)
    ensures
        visible_to(reader, PostVisibility::Public, has_grant, is_board_manager),
        visible_to(None, vis, has_grant, is_board_manager) ==> visible_to(
            Some(0),
            vis,
            has_grant,
            is_board_manager,
        ),
{
}

/// Which content forms a post read returns.
#[derive(Clone, Copy, Debug, PartialEq, Eq, Structural)]
pub struct ContentSelection {
    pub markdown: bool,
    pub html: bool,
    pub plain: bool,
}

/// The forms requested; with none requested, Markdown.
pub open spec fn selection_of(formats: Seq<PostContentFormat>) -> ContentSelection {
    ContentSelection {
        markdown: formats.len() == 0 || formats.contains(PostContentFormat::Markdown),
        html: formats.contains(PostContentFormat::Html),
        plain: formats.contains(PostContentFormat::Plain),
    }
}

/// Whether a selection includes the form `f`.
pub open spec fn selects(sel: ContentSelection, f: PostContentFormat) -> bool {
    match f {
        PostContentFormat::Markdown => sel.markdown,
        PostContentFormat::Html => sel.html,
        PostContentFormat::Plain => sel.plain,
    }
}

/// Every form a read asks for is returned, and no other, except Markdown,
/// which a read that asks for none gets.
pub proof fn law_requested_formats_selected(formats: Seq<PostContentFormat>, f: PostContentFormat)
    ensures
        formats.contains(f) ==> selects(selection_of(formats), f),
        formats.len() == 0 ==> selects(selection_of(formats), PostContentFormat::Markdown),
        selects(selection_of(formats), f) ==> formats.contains(f) || (formats.len() == 0 && f
            == PostContentFormat::Markdown),
{
}

fn contains_format(formats: &[PostContentFormat], f: PostContentFormat) -> (b: bool)
    ensures
        b == formats@.contains(f),
{
    let mut i: usize = 0;
    while i < formats.len()
        invariant
            0 <= i <= formats@.len(),
            forall|k: int| 0 <= k < i ==> formats@[k] != f,
        decreases formats@.len() - i,
    {
        if formats[i] == f {
            return true;
        }
        i = i + 1;
    }
    false
}

/// The content forms a read returns for the requested formats.
pub fn content_selection(formats: &[PostContentFormat]) -> (s: ContentSelection)
    ensures
        s == selection_of(formats@),
{
    let markdown = formats.len() == 0 || contains_format(formats, PostContentFormat::Markdown);
    let html = contains_format(formats, PostContentFormat::Html);
    let plain = contains_format(formats, PostContentFormat::Plain);
    ContentSelection { markdown, html, plain }
}

/// The languages a read asks for; without any, English then German.
pub open spec fn langs_of(lang: Option<Seq<Seq<char>>>) -> Seq<Seq<char>> {
    match lang {
        Some(l) => l,
        None => seq!["en"@, "de"@],
    }
}

pub open spec fn string_views(v: Seq<String>) -> Seq<Seq<char>> {
    v.map_values(|s: String| s@)
}

/// The requested languages, defaulting to English then German.
pub fn requested_langs(lang: Option<Vec<String>>) -> (langs: Vec<String>)
    ensures
        string_views(langs@) == langs_of(
            match lang {
                Some(l) => Some(string_views(l@)),
                None => None,
            },
        ),
{
    match lang {
        Some(l) => l,
        None => {
            let mut v: Vec<String> = Vec::new();
            v.push(String::from_str("en"));
            v.push(String::from_str("de"));
            proof {
                reveal_strlit("en");
                reveal_strlit("de");
            }
            assert(string_views(v@) =~= seq!["en"@, "de"@]);
            v
        },
    }
}

/// Whether the languages ask for every translation: exactly `["all"]`.
pub fn wants_all_langs(langs: &[String]) -> (b: bool)
    ensures
        b == (langs@.len() == 1 && langs@[0]@ == "all"@),
{
    if langs.len() != 1 {
        return false;
    }
    let all = String::from_str("all");
    langs[0] == all
}

/// How a board is named in a path: by number, or else by slug.
#[derive(Clone, Copy, Debug, PartialEq, Eq, Structural)]
pub enum BoardSelector {
    Id(i32),
    Slug,
}

/// A path segment that reads as an `i32` names a board by id; any other
/// names it by slug.
pub fn board_selector(id_or_slug: &str) -> (b: BoardSelector)
    ensures
        match signed_value(id_or_slug@) {
            Some(v) => if i32::MIN <= v <= i32::MAX {
                b == BoardSelector::Id(v as i32)
            } else {
                b == BoardSelector::Slug
            },
            None => b == BoardSelector::Slug,
        },
{
    match parse_i32(id_or_slug) {
        Some(v) => BoardSelector::Id(v),
        None => BoardSelector::Slug,
    }
}

/// The page size asked for, ten by default.
pub open spec fn page_limit_of(limit: Option<i64>) -> int {
    match limit {
        Some(l) => l as int,
        None => 10,
    }
}

/// The rows skipped before the page: pages count from one.
pub open spec fn page_offset_of(page: Option<i64>, limit: Option<i64>) -> int {
    (match page {
        Some(p) => p as int,
        None => 1,
    } - 1) * page_limit_of(limit)
}

/// The page arithmetic stays within 64 bits.
pub open spec fn pagination_fits(page: Option<i64>, limit: Option<i64>) -> bool {
    &&& page matches Some(p) ==> p > i64::MIN
    &&& i64::MIN <= page_offset_of(page, limit) <= i64::MAX
}

/// Whether the page arithmetic of `page` and `limit` stays within 64 bits.
pub fn pagination_in_range(page: Option<i64>, limit: Option<i64>) -> (b: bool)
    ensures
        b == pagination_fits(page, limit),
{
    let l: i128 = match limit {
        Some(l) => l as i128,
        None => 10,
    };
    let p: i128 = match page {
        Some(p) => p as i128,
        None => 1,
    };
    if p == i64::MIN as i128 {
        return false;
    }
    let before: i128 = p - 1;
    assert(-0x8000_0000_0000_0001 <= before <= 0x7fff_ffff_ffff_fffe);
    assert(before * l == page_offset_of(page, limit));
    let lo: i128 = i64::MIN as i128;
    let hi: i128 = i64::MAX as i128;
    proof {
        assert(-0x8000_0000_0000_0001 * 0x8000_0000_0000_0000 <= before * l <= 0x8000_0000_0000_0001 * 0x8000_0000_0000_0000) by (nonlinear_arith)
            requires
                -0x8000_0000_0000_0001 <= before <= 0x7fff_ffff_ffff_fffe,
                -0x8000_0000_0000_0000 <= l <= 0x7fff_ffff_ffff_ffff,
        ;
    }
    let off: i128 = before * l;
    lo <= off && off <= hi
}

/// The `(limit, offset)` of a listing page.
pub fn page_window(page: Option<i64>, limit: Option<i64>) -> (r: (i64, i64))
    requires
        pagination_fits(page, limit),
    ensures
        r.0 == page_limit_of(limit),
        r.1 == page_offset_of(page, limit),
{
    let l: i64 = match limit {
        Some(l) => l,
        None => 10,
    };
    let p: i64 = match page {
        Some(p) => p,
        None => 1,
    };
    let before: i64 = p - 1;
    assert(before * l == page_offset_of(page, limit));
    (l, before * l)
}

/// What a post listing fetches.
#[derive(Debug)]
pub struct PostListPlan {
    pub limit: i64,
    pub offset: i64,
    pub langs: Vec<String>,
    pub search: Option<String>,
    /// Only posts whose event has not long ended, or that are recent.
    pub current_only: bool,
    pub boards: Option<Vec<i32>>,
    /// Whether each post lists the boards it is pinned on.
    pub with_pinned_on: bool,
    pub visibility: VisibilityFilter,
}

/// Plans a post listing: the page window, the languages, current posts
/// unless asked otherwise, and the reader's visibility filter.
pub fn plan_list_posts(opts: PostFilterOptions, reader: Option<u128>) -> (p: PostListPlan)
    requires
        pagination_fits(opts.page, opts.limit),
    ensures
        p.limit == page_limit_of(opts.limit),
        p.offset == page_offset_of(opts.page, opts.limit),
        string_views(p.langs@) == langs_of(
            match opts.lang {
                Some(l) => Some(string_views(l@)),
                None => None,
            },
        ),
        p.search == opts.search,
        p.current_only == (opts.current_only != Some(false)),
        p.boards == opts.board_id,
        p.with_pinned_on == (opts.pinned_on == Some(true)),
        reader is None ==> p.visibility == VisibilityFilter::PublicOnly,
        reader is Some ==> p.visibility == (VisibilityFilter::Reader { account_id: reader->0 }),
{
    let (limit, offset) = page_window(opts.page, opts.limit);
    let current_only = match opts.current_only {
        Some(false) => false,
        _ => true,
    };
    let with_pinned_on = match opts.pinned_on {
        Some(true) => true,
        _ => false,
    };
    let visibility = visibility_filter(false, reader);
    PostListPlan {
        limit,
        offset,
        langs: requested_langs(opts.lang),
        search: opts.search,
        current_only,
        boards: opts.board_id,
        with_pinned_on,
        visibility,
    }
}

/// What a single post read fetches.
#[derive(Debug)]
pub struct PostReadPlan {
    /// Every translation, rather than the best one for `langs`.
    pub all_langs: bool,
    pub langs: Vec<String>,
    pub content: ContentSelection,
    pub visibility: VisibilityFilter,
}

/// Plans a post read: which translations, which content forms, and the
/// reader's visibility filter.
pub fn plan_get_post(opts: PostFilterOptions, reader: Option<u128>, is_board_manager: bool) -> (p: PostReadPlan)
    ensures
        string_views(p.langs@) == langs_of(
            match opts.lang {
                Some(l) => Some(string_views(l@)),
                None => None,
            },
        ),
        p.all_langs == (p.langs@.len() == 1 && p.langs@[0]@ == "all"@),
        p.content == selection_of(opts.content_format@),
        is_board_manager && reader is Some ==> p.visibility == VisibilityFilter::Everything,
        !is_board_manager && reader is Some ==> p.visibility == (VisibilityFilter::Reader {
            account_id: reader->0,
        }),
        reader is None ==> p.visibility == VisibilityFilter::PublicOnly,
{
    let content = content_selection(opts.content_format.as_slice());
    let langs = requested_langs(opts.lang);
    let all_langs = wants_all_langs(langs.as_slice());
    let visibility = visibility_filter(is_board_manager, reader);
    PostReadPlan { all_langs, langs, content, visibility }
}

/// HTML that pulldown-cmark renders from a Markdown text.
pub uninterp spec fn markdown_html(md: Seq<char>) -> Seq<char>;

/// What ammonia's default cleaner keeps of an HTML text.
pub uninterp spec fn sanitized_html(html: Seq<char>) -> Seq<char>;

/// What ammonia keeps of an HTML text when no tag is allowed.
pub uninterp spec fn stripped_text(html: Seq<char>) -> Seq<char>;

/// Renders Markdown to HTML with `pulldown_cmark::html::push_html` over a
/// `pulldown_cmark::Parser` of the text; claims the result is the rendering
/// of exactly this text.
#[verifier::external_body]
fn render_markdown(md: &str) -> (h: String)
    ensures
        h@ == markdown_html(md@),
{
    let mut buf = String::new();
    pulldown_cmark::html::push_html(&mut buf, pulldown_cmark::Parser::new(md));
    buf
}

/// `ammonia::clean`: claims the result is the default cleaning of exactly
/// this text.
#[verifier::external_body]
fn sanitize(html: &str) -> (s: String)
    ensures
        s@ == sanitized_html(html@),
{
    ammonia::clean(html)
}

/// `ammonia::Builder::empty().clean(..)`, as a string: claims the result is
/// the tag-free cleaning of exactly this text.
#[verifier::external_body]
fn strip_tags(html: &str) -> (s: String)
    ensures
        s@ == stripped_text(html@),
{
    ammonia::Builder::empty().clean(html).to_string()
}

/// Each language's text rendered to sanitised HTML.
pub open spec fn html_entries(s: Seq<(Seq<char>, Seq<char>)>) -> Seq<(Seq<char>, Seq<char>)> {
    s.map_values(|e: (Seq<char>, Seq<char>)| (e.0, sanitized_html(markdown_html(e.1))))
}

/// Each language's HTML stripped to plain text.
pub open spec fn plain_entries(s: Seq<(Seq<char>, Seq<char>)>) -> Seq<(Seq<char>, Seq<char>)> {
    s.map_values(|e: (Seq<char>, Seq<char>)| (e.0, stripped_text(e.1)))
}

/// Renders a post's Markdown content, per language, to sanitised HTML and to
/// plain text; no content gives neither.
pub fn render_post(content: &Option<Translations>) -> (r: (Option<Translations>, Option<Translations>))
    ensures
        content is None ==> r.0 is None && r.1 is None,
        content matches Some(t) ==> r.0 matches Some(h) && r.1 matches Some(p) && h@ == html_entries(t@)
            && p@ == plain_entries(html_entries(t@)),
{
    match content {
        None => (None, None),
        Some(t) => {
            let entries = t.entries();
            let mut html: Vec<(String, String)> = Vec::new();
            let mut plain: Vec<(String, String)> = Vec::new();
            let mut i: usize = 0;
            while i < entries.len()
                invariant
                    0 <= i <= entries@.len(),
                    entry_views(entries@) == t@,
                    distinct_langs(t@),
                    entry_views(html@) =~= html_entries(t@).take(i as int),
                    entry_views(plain@) =~= plain_entries(html_entries(t@)).take(i as int),
                decreases entries@.len() - i,
            {
                assert(t@[i as int] == (entries@[i as int].0@, entries@[i as int].1@));
                let lang = &entries[i].0;
                let rendered = render_markdown(entries[i].1.as_str());
                let h = sanitize(rendered.as_str());
                let p = strip_tags(h.as_str());
                let ghost hv = h@;
                let ghost pv = p@;
                let ghost old_html = html@;
                let ghost old_plain = plain@;
                html.push((lang.clone(), h));
                plain.push((lang.clone(), p));
                proof {
                    let e = t@[i as int];
                    assert(html_entries(t@)[i as int] == (e.0, sanitized_html(markdown_html(e.1))));
                    assert(html_entries(t@).take(i + 1) =~= html_entries(t@).take(i as int).push((e.0, hv)));
                    assert(entry_views(html@) =~= entry_views(old_html).push((e.0, hv)));
                    let pe = plain_entries(html_entries(t@));
                    assert(pe[i as int] == (e.0, stripped_text(hv)));
                    assert(pe.take(i + 1) =~= pe.take(i as int).push((e.0, pv)));
                    assert(entry_views(plain@) =~= entry_views(old_plain).push((e.0, pv)));
                }
                i = i + 1;
            }
            proof {
                assert(html_entries(t@).take(t@.len() as int) =~= html_entries(t@));
                assert(plain_entries(html_entries(t@)).take(t@.len() as int) =~= plain_entries(
                    html_entries(t@),
                ));
                assert(distinct_langs(entry_views(html@)));
                assert(distinct_langs(entry_views(plain@)));
            }
            (Some(Translations::from_distinct(html)), Some(Translations::from_distinct(plain)))
        },
    }
}

} // verus!
