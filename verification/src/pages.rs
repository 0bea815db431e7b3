//! The content of the blog's pages and the addresses it redirects to.
use crate::blog::{info_text, Article};
use crate::text::{decimal, push_decimal, texts};
use vstd::prelude::*;

verus! {

// ---------------------------------------------------------------------------
// Fixed pages
// ---------------------------------------------------------------------------

/// The body of the front page.
pub fn index_text() -> (r: &'static str)
    ensures
        r@ == "Hello! This is a blog.<br><a href=\"/user\">User page</a><br><a href=\"/admin\">Go to admin page</a>"@,
{
    "Hello! This is a blog.<br><a href=\"/user\">User page</a><br><a href=\"/admin\">Go to admin page</a>"
}

/// The body of the page that lists all articles.
pub fn all_articles_text() -> (r: &'static str)
    ensures
        r@ == "You are viewing all of the articles."@,
{
    "You are viewing all of the articles."
}

/// The body of the page for an article request that names no article.
pub fn article_not_found_text() -> (r: &'static str)
    ensures
        r@ == "The article you have specified does not exist."@,
{
    "The article you have specified does not exist."
}

// ---------------------------------------------------------------------------
// Greetings
// ---------------------------------------------------------------------------

/// The greeting on the administrator page.
pub fn admin_greeting(user: &str) -> (r: String)
    ensures
        r@ == "Welcome "@ + user@ + "! You have reach the administrator page."@,
{
    let mut r = String::new();
    r.append("Welcome ");
    assert(r@ =~= "Welcome "@);
    r.append(user);
    r.append("! You have reach the administrator page.");
    r
}

/// The greeting on the user page.
pub fn user_greeting(user: &str) -> (r: String)
    ensures
        r@ == "Welcome "@ + user@ + "! You are at the user page."@,
{
    let mut r = String::new();
    r.append("Welcome ");
    assert(r@ =~= "Welcome "@);
    r.append(user);
    r.append("! You are at the user page.");
    r
}

// ---------------------------------------------------------------------------
// Failed logins
// ---------------------------------------------------------------------------

/// Whether a login failure message says anything: it is neither empty nor
/// a single space.
pub open spec fn says_something(msg: Seq<char>) -> bool {
    msg != Seq::<char>::empty() && msg != seq![' ']
}

/// Where a failed login is sent back to: the login page, with the user and
/// the failure message as query parameters when the message says anything.
pub open spec fn fail_url_text(base: Seq<char>, user: Seq<char>, msg: Seq<char>) -> Seq<char> {
    if says_something(msg) {
        base + "?user="@ + user + "&msg="@ + msg
    } else {
        base
    }
}

/// The address that a failed login on the page at `base` is sent back to.
pub fn fail_url(base: &str, user: &str, msg: &str) -> (r: String)
    ensures
        r@ == fail_url_text(base@, user@, msg@),
{
    let mut r = String::new();
    r.append(base);
    assert(r@ =~= base@);
    let m = crate::text::chars_of(msg);
    let empty = m.len() == 0;
    let space = m.len() == 1 && m[0] == ' ';
    assert(empty == (msg@ == Seq::<char>::empty())) by {
        if m@.len() == 0 {
            assert(m@ =~= Seq::<char>::empty());
        }
    }
    assert(space == (msg@ == seq![' '])) by {
        if m@.len() == 1 && m@[0] == ' ' {
            assert(m@ =~= seq![' ']);
        }
    }
    if !empty && !space {
        r.append("?user=");
        r.append(user);
        r.append("&msg=");
        r.append(msg);
    }
    r
}

/// The address of the administrator login page, for a failed login.
pub fn admin_fail_url(user: &str, msg: &str) -> (r: String)
    ensures
        r@ == fail_url_text("http://localhost:8000/admin"@, user@, msg@),
{
    fail_url("http://localhost:8000/admin", user, msg)
}

/// The address of the user login page, for a failed login.
pub fn user_fail_url(user: &str, msg: &str) -> (r: String)
    ensures
        r@ == fail_url_text("http://localhost:8000/user"@, user@, msg@),
{
    fail_url("http://localhost:8000/user", user, msg)
}

// ---------------------------------------------------------------------------
// Article pages
// ---------------------------------------------------------------------------

/// The body of the page for article number `aid`, given what the lookup
/// found.
pub open spec fn article_page_text(aid: u32, found: Option<Seq<char>>) -> Seq<char> {
    "You have reached the article page.<br>\n"@ + match found {
        Some(info) => "You are viewing article #"@ + decimal(aid as nat) + ".<br>\nInfo:<br>\n"@
            + info,
        None => "Article #"@ + decimal(aid as nat) + " could not be retrieved."@,
    }
}

/// The body of the page for article number `aid`: its description when the
/// lookup found it, or a note that it could not be retrieved.
pub fn article_page(aid: u32, article: Option<&Article>) -> (r: String)
    requires
        article matches Some(a) ==> a.wf(),
    ensures
        r@ == article_page_text(
            aid,
            match article {
                Some(a) => Some(info_text(a.aid, a.title@, a.posted, a.body@, texts(a.tags@))),
                None => None,
            },
        ),
{
    let mut r = String::new();
    r.append("You have reached the article page.<br>\n");
    let ghost head = r@;
    assert(head =~= "You have reached the article page.<br>\n"@);
    match article {
        Some(a) => {
            r.append("You are viewing article #");
            push_decimal(&mut r, aid as u64);
            r.append(".<br>\nInfo:<br>\n");
            let info = a.info();
            r.append(info.as_str());
            assert(r@ =~= head + ("You are viewing article #"@ + decimal(aid as nat)
                + ".<br>\nInfo:<br>\n"@ + info@));
        },
        None => {
            r.append("Article #");
            push_decimal(&mut r, aid as u64);
            r.append(" could not be retrieved.");
            assert(r@ =~= head + ("Article #"@ + decimal(aid as nat) + " could not be retrieved."@));
        },
    }
    r
}

/// What the page for a submitted article shows.
#[derive(Debug)]
pub enum PostView {
    /// The article was stored; it is shown with who posted it.
    Posted { article: Article, is_admin: bool, is_user: bool, username: Option<String> },
    /// The article was not stored, for the reason given.
    Failed(String),
}

/// The text shown when an article could not be posted.
pub open spec fn post_failure_text(why: Seq<char>) -> Seq<char> {
    "Could not post the blog article.  Reason: "@ + why
}

/// What the page for a submitted article shows, given the outcome of
/// saving it and the names of the logged in user and administrator, if
/// any. The poster's name is the user's where there is one, else the
/// administrator's.
pub fn post_view(result: Result<Article, String>, user: Option<String>, admin: Option<String>) -> (r:
    PostView)
    ensures
        match result {
            Ok(a) => r matches PostView::Posted { article, is_admin, is_user, username } && {
                &&& article == a
                &&& is_admin == admin is Some
                &&& is_user == user is Some
                &&& username == match user {
                    Some(u) => Some(u),
                    None => admin,
                }
            },
            Err(why) => r matches PostView::Failed(m) && m@ == post_failure_text(why@),
        },
{
    match result {
        Ok(article) => {
            let is_admin = admin.is_some();
            let is_user = user.is_some();
            let username = match user {
                Some(u) => Some(u),
                None => admin,
            };
            PostView::Posted { article, is_admin, is_user, username }
        },
        Err(why) => {
            let mut m = String::new();
            m.append("Could not post the blog article.  Reason: ");
            assert(m@ =~= "Could not post the blog article.  Reason: "@);
            m.append(why.as_str());
            PostView::Failed(m)
        },
    }
}

} // verus!
