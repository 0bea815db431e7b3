use rocket_blog::blog::Article;
use rocket_blog::pages::{
    admin_fail_url, admin_greeting, all_articles_text, article_not_found_text, article_page,
    fail_url, index_text, post_view, user_fail_url, user_greeting, PostView,
};
use rocket_blog::posted::Posted;

fn sample() -> Article {
    Article {
        aid: 5,
        title: "T".to_string(),
        posted: Posted::new(2018, 1, 2, 3, 4, 5, 0).unwrap(),
        body: "B".to_string(),
        tags: vec!["x".to_string()],
    }
}

#[test]
fn fixed_pages() {
    assert_eq!(
        index_text(),
        r#"Hello! This is a blog.<br><a href="/user">User page</a><br><a href="/admin">Go to admin page</a>"#
    );
    assert_eq!(all_articles_text(), "You are viewing all of the articles.");
    assert_eq!(article_not_found_text(), "The article you have specified does not exist.");
}

#[test]
fn greetings() {
    assert_eq!(admin_greeting("root"), "Welcome root! You have reach the administrator page.");
    assert_eq!(user_greeting("ann"), "Welcome ann! You are at the user page.");
}

#[test]
fn fail_url_adds_parameters_only_with_a_message() {
    assert_eq!(fail_url("http://h/a", "u", ""), "http://h/a");
    assert_eq!(fail_url("http://h/a", "u", " "), "http://h/a");
    assert_eq!(fail_url("http://h/a", "u", "  "), "http://h/a?user=u&msg=  ");
    assert_eq!(fail_url("http://h/a", "u", "bad"), "http://h/a?user=u&msg=bad");
    assert_eq!(
        admin_fail_url("bob", "Wrong password"),
        "http://localhost:8000/admin?user=bob&msg=Wrong password"
    );
    assert_eq!(user_fail_url("bob", ""), "http://localhost:8000/user");
    assert_eq!(user_fail_url("bob", "x"), "http://localhost:8000/user?user=bob&msg=x");
}

#[test]
fn article_page_found_and_missing() {
    let a = sample();
    let expected = format!(
        "You have reached the article page.<br>\nYou are viewing article #{id}.<br>\nInfo:<br>\n{info}",
        id = 9,
        info = a.info()
    );
    assert_eq!(article_page(9, Some(&a)), expected);
    assert_eq!(
        article_page(12, None),
        "You have reached the article page.<br>\nArticle #12 could not be retrieved."
    );
}

#[test]
fn post_view_picks_the_poster() {
    match post_view(Ok(sample()), Some("ann".to_string()), Some("root".to_string())) {
        PostView::Posted { article, is_admin, is_user, username } => {
            assert_eq!(article.aid, 5);
            assert!(is_admin);
            assert!(is_user);
            assert_eq!(username, Some("ann".to_string()));
        }
        PostView::Failed(_) => panic!("expected a post"),
    }
    match post_view(Ok(sample()), None, Some("root".to_string())) {
        PostView::Posted { is_admin, is_user, username, .. } => {
            assert!(is_admin);
            assert!(!is_user);
            assert_eq!(username, Some("root".to_string()));
        }
        PostView::Failed(_) => panic!("expected a post"),
    }
    match post_view(Ok(sample()), None, None) {
        PostView::Posted { is_admin, is_user, username, .. } => {
            assert!(!is_admin);
            assert!(!is_user);
            assert_eq!(username, None);
        }
        PostView::Failed(_) => panic!("expected a post"),
    }
    match post_view(Err("no db".to_string()), None, None) {
        PostView::Failed(m) => assert_eq!(m, "Could not post the blog article.  Reason: no db"),
        PostView::Posted { .. } => panic!("expected a failure"),
    }
}
