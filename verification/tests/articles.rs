use chrono::NaiveDate;
use rocket_blog::blog::{
    sanitize_body, sanitize_tags, sanitize_title, select_query, Article, ArticleForm, ArticleId,
    ArticleRow, User,
};
use rocket_blog::posted::Posted;

fn strings(v: &[&str]) -> Vec<String> {
    v.iter().map(|s| s.to_string()).collect()
}

fn pairs(v: &[(&str, &str)]) -> Vec<(String, String)> {
    v.iter().map(|(a, b)| (a.to_string(), b.to_string())).collect()
}

fn posted(y: i32, mo: u32, d: u32, h: u32, mi: u32, s: u32, n: u32) -> Posted {
    Posted::new(y, mo, d, h, mi, s, n).expect("valid date")
}

fn chrono_text(p: &Posted) -> String {
    NaiveDate::from_ymd_opt(p.year, p.month, p.day)
        .unwrap()
        .and_hms_nano_opt(p.hour, p.minute, p.second, p.nanosecond)
        .unwrap()
        .to_string()
}

fn article(aid: u32, tags: &[&str], p: Posted) -> Article {
    Article {
        aid,
        title: "Title".to_string(),
        posted: p,
        body: "Body text".to_string(),
        tags: strings(tags),
    }
}

#[test]
fn sanitizers_keep_text() {
    assert_eq!(sanitize_body("<b>x</b>".to_string()), "<b>x</b>");
    assert_eq!(sanitize_title("t".to_string()), "t");
    assert_eq!(sanitize_tags("a,b".to_string()), "a,b");
}

#[test]
fn posted_new_checks_calendar() {
    assert!(Posted::new(2024, 2, 29, 0, 0, 0, 0).is_some());
    assert!(Posted::new(2023, 2, 29, 0, 0, 0, 0).is_none());
    assert!(Posted::new(1900, 2, 29, 0, 0, 0, 0).is_none());
    assert!(Posted::new(2000, 2, 29, 0, 0, 0, 0).is_some());
    assert!(Posted::new(-4, 2, 29, 0, 0, 0, 0).is_some());
    assert!(Posted::new(2024, 13, 1, 0, 0, 0, 0).is_none());
    assert!(Posted::new(2024, 4, 31, 0, 0, 0, 0).is_none());
    assert!(Posted::new(2024, 1, 0, 0, 0, 0, 0).is_none());
    assert!(Posted::new(2024, 1, 1, 24, 0, 0, 0).is_none());
    assert!(Posted::new(2024, 1, 1, 23, 60, 0, 0).is_none());
    assert!(Posted::new(2024, 1, 1, 23, 59, 60, 0).is_none());
    assert!(Posted::new(2015, 6, 30, 23, 59, 59, 1_500_000_000).is_some());
    assert!(Posted::new(2015, 6, 30, 23, 59, 58, 1_500_000_000).is_none());
    assert!(Posted::new(2015, 6, 30, 23, 59, 59, 2_000_000_000).is_none());
    assert!(Posted::new(262142, 12, 31, 0, 0, 0, 0).is_some());
    assert!(Posted::new(262143, 1, 1, 0, 0, 0, 0).is_none());
    assert!(Posted::new(-262143, 1, 1, 0, 0, 0, 0).is_some());
    assert!(Posted::new(-262144, 1, 1, 0, 0, 0, 0).is_none());
}

#[test]
fn posted_new_agrees_with_chrono() {
    let cases = [
        (2024, 2, 29, 1, 2, 3, 4),
        (2023, 2, 29, 1, 2, 3, 4),
        (-100, 2, 29, 0, 0, 0, 0),
        (-400, 2, 29, 0, 0, 0, 0),
        (2015, 6, 30, 23, 59, 59, 1_999_999_999),
        (262142, 12, 31, 23, 59, 59, 0),
        (262143, 1, 1, 0, 0, 0, 0),
        (-262144, 12, 31, 0, 0, 0, 0),
    ];
    for (y, mo, d, h, mi, s, n) in cases.iter() {
        let chrono = NaiveDate::from_ymd_opt(*y, *mo, *d).and_then(|x| x.and_hms_nano_opt(*h, *mi, *s, *n));
        assert_eq!(Posted::new(*y, *mo, *d, *h, *mi, *s, *n).is_some(), chrono.is_some());
    }
}

#[test]
fn info_matches_std_and_chrono_format() {
    let p = posted(2018, 3, 4, 5, 6, 7, 0);
    let a = article(7, &["a", "b\"c"], p);
    let expected = format!(
        "Aid: {aid}, Title: {title}, Posted on: {posted}, Body:<br>\n{body}<br>\ntags: {tags:#?}",
        aid = a.aid,
        title = a.title,
        posted = chrono_text(&p),
        body = a.body,
        tags = a.tags
    );
    assert_eq!(a.info(), expected);
    assert_eq!(
        a.info(),
        "Aid: 7, Title: Title, Posted on: 2018-03-04 05:06:07, Body:<br>\nBody text<br>\ntags: [\n    \"a\",\n    \"b\\\"c\",\n]"
    );
}

#[test]
fn info_with_no_tags_and_fractions() {
    let p = posted(2020, 12, 31, 23, 59, 59, 123_000_000);
    let a = article(4294967295, &[], p);
    assert_eq!(
        a.info(),
        "Aid: 4294967295, Title: Title, Posted on: 2020-12-31 23:59:59.123, Body:<br>\nBody text<br>\ntags: []"
    );
    let q = posted(2020, 1, 2, 3, 4, 5, 6);
    let b = article(0, &["x\ny", "é"], q);
    let expected = format!(
        "Aid: 0, Title: Title, Posted on: {}, Body:<br>\nBody text<br>\ntags: {:#?}",
        chrono_text(&q),
        b.tags
    );
    assert_eq!(b.info(), expected);
}

#[test]
fn select_query_names_the_article() {
    assert_eq!(
        select_query(42),
        "SELECT aid, title, posted, body, tags FROM articles WHERE aid = 42"
    );
    assert_eq!(
        ArticleId { aid: 0 }.select_query(),
        "SELECT aid, title, posted, body, tags FROM articles WHERE aid = 0"
    );
}

#[test]
fn from_rows_needs_exactly_one_row() {
    let p = posted(2019, 5, 6, 7, 8, 9, 0);
    let row = ArticleRow {
        aid: 3,
        title: "T".to_string(),
        posted: p,
        body: "B".to_string(),
        tags: " x , y ,,".to_string(),
    };
    assert!(Article::from_rows(None).is_none());
    assert!(Article::from_rows(Some(vec![])).is_none());
    assert!(Article::from_rows(Some(vec![row.clone(), row.clone()])).is_none());
    let a = Article::from_rows(Some(vec![row])).expect("one row");
    assert_eq!(a.aid, 3);
    assert_eq!(a.title, "T");
    assert_eq!(a.body, "B");
    assert_eq!(a.posted, p);
    assert_eq!(a.tags, strings(&["x", "y"]));
}

#[test]
fn new_form_keeps_fields() {
    let f = ArticleForm::new("t".to_string(), "b".to_string(), "x,y".to_string());
    assert_eq!(f.title, "t");
    assert_eq!(f.body, "b");
    assert_eq!(f.tags, "x,y");
}

#[test]
fn to_article_is_unnumbered_and_posted_now() {
    let f = ArticleForm::new("t".to_string(), "b".to_string(), " x ,,y".to_string());
    let a = f.to_article();
    assert_eq!(a.aid, 0);
    assert_eq!(a.title, "t");
    assert_eq!(a.body, "b");
    assert_eq!(a.tags, strings(&[" x ", "y"]));
    let p = a.posted;
    assert!(Posted::new(p.year, p.month, p.day, p.hour, p.minute, p.second, p.nanosecond).is_some());
    assert!(p.year >= 2024);
}

#[test]
fn insert_query_matches_format_macro() {
    let f = ArticleForm::new("My title".to_string(), "My body".to_string(), "a,b".to_string());
    let now = posted(2021, 7, 8, 9, 10, 11, 500_000);
    let expected = format!(
        "INSERT INTO articles (title, posted, body, tags) VALUES ('{title}', '{posted}', '{body}', '{tags}') RETURNING aid",
        title = f.title,
        posted = chrono_text(&now),
        body = f.body,
        tags = f.tags
    );
    assert_eq!(f.insert_query(&now), expected);
    assert_eq!(
        f.insert_query(&now),
        "INSERT INTO articles (title, posted, body, tags) VALUES ('My title', '2021-07-08 09:10:11.000500', 'My body', 'a,b') RETURNING aid"
    );
}

#[test]
fn prepare_save_uses_its_moment() {
    let f = ArticleForm::new("T".to_string(), "B".to_string(), "".to_string());
    let (now, q) = f.prepare_save();
    assert_eq!(q, f.insert_query(&now));
    assert!(q.starts_with("INSERT INTO articles (title, posted, body, tags) VALUES ('T', '"));
}

#[test]
fn saved_article_outcomes() {
    let f = ArticleForm::new("T".to_string(), "B".to_string(), " a, b ,".to_string());
    let now = posted(2022, 1, 1, 0, 0, 0, 0);
    match f.saved_article(now, Err("boom".to_string())) {
        Err(m) => assert_eq!(m, "Could not insert article. Error: boom"),
        Ok(_) => panic!("expected an error"),
    }
    match f.saved_article(now, Ok(vec![])) {
        Err(m) => assert_eq!(m, "Error inserting article, result is empty."),
        Ok(_) => panic!("expected an error"),
    }
    match f.saved_article(now, Ok(vec![1, 2])) {
        Err(m) => assert_eq!(m, "Error inserting article, returned 2 rows."),
        Ok(_) => panic!("expected an error"),
    }
    match f.saved_article(now, Ok(vec![9])) {
        Ok(a) => {
            assert_eq!(a.aid, 9);
            assert_eq!(a.title, "T");
            assert_eq!(a.body, "B");
            assert_eq!(a.posted, now);
            assert_eq!(a.tags, strings(&["a", "b"]));
        }
        Err(m) => panic!("unexpected error {}", m),
    }
}

#[test]
fn article_id_from_form() {
    assert_eq!(ArticleId::from_form(&pairs(&[("aid", "12")])).unwrap().aid, 12);
    assert_eq!(
        ArticleId::from_form(&pairs(&[("aid", "5"), ("other", "1")])).unwrap().aid,
        5
    );
    assert_eq!(
        ArticleId::from_form(&pairs(&[("aid", "5"), ("aid", "8")])).unwrap().aid,
        8
    );
    assert_eq!(
        ArticleId::from_form(&pairs(&[("aid", "x")])).unwrap_err(),
        "Invalid user id specified"
    );
    assert_eq!(
        ArticleId::from_form(&pairs(&[("aid", "5"), ("aid", "0")])).unwrap_err(),
        "Invalid user id specified"
    );
    assert_eq!(ArticleId::from_form(&pairs(&[])).unwrap_err(), "Invalid user id specified");
    assert_eq!(
        ArticleId::from_form(&pairs(&[("AID", "3")])).unwrap_err(),
        "Invalid user id specified"
    );
}

#[test]
fn form_names_written_number_concrete() {
    for n in [1u32, 42, 4294967295].iter() {
        let items = vec![("aid".to_string(), n.to_string())];
        assert_eq!(ArticleId::from_form(&items).unwrap().aid, *n);
    }
}

#[test]
fn article_form_from_form() {
    let f = ArticleForm::from_form(&pairs(&[
        ("title", "T"),
        ("body", "B"),
        ("tags", "a,b"),
        ("extra", "z"),
    ]))
    .unwrap();
    assert_eq!(f.title, "T");
    assert_eq!(f.body, "B");
    assert_eq!(f.tags, "a,b");
    let g = ArticleForm::from_form(&pairs(&[("title", "T1"), ("body", "B"), ("title", "T2")])).unwrap();
    assert_eq!(g.title, "T2");
    assert_eq!(g.tags, "");
    assert_eq!(
        ArticleForm::from_form(&pairs(&[("title", "T")])).unwrap_err(),
        "Missing a required field."
    );
    assert_eq!(
        ArticleForm::from_form(&pairs(&[("title", "T"), ("body", "")])).unwrap_err(),
        "Missing a required field."
    );
    assert_eq!(
        ArticleForm::from_form(&pairs(&[("body", "B"), ("tags", "x")])).unwrap_err(),
        "Missing a required field."
    );
}

#[test]
fn user_holds_its_fields() {
    let u = User {
        userid: 1,
        username: "ann".to_string(),
        display: None,
        email: Some("a@example.org".to_string()),
        password: "pw".to_string(),
        is_admin: false,
    };
    let v = u.clone();
    assert_eq!(v.username, "ann");
    assert!(!v.is_admin);
}

#[test]
fn to_article_at_uses_the_given_moment() {
    let f = ArticleForm::new("t".to_string(), "b".to_string(), "x,,y ".to_string());
    let now = posted(2017, 11, 12, 13, 14, 15, 16);
    let a = f.to_article_at(now);
    assert_eq!(a.aid, 0);
    assert_eq!(a.posted, now);
    assert_eq!(a.title, "t");
    assert_eq!(a.body, "b");
    assert_eq!(a.tags, strings(&["x", "y "]));
}

#[test]
fn posted_text_matches_chrono_on_edge_dates() {
    let cases = [
        (2018, 3, 4, 5, 6, 7, 0),
        (0, 1, 1, 0, 0, 0, 0),
        (9999, 12, 31, 23, 59, 59, 999_999_999),
        (10000, 1, 1, 0, 0, 0, 0),
        (-1, 6, 15, 12, 0, 0, 0),
        (-262143, 1, 1, 0, 0, 0, 0),
        (262142, 12, 31, 23, 59, 59, 0),
        (2016, 12, 31, 23, 59, 59, 1_000_000_000),
        (2016, 12, 31, 23, 59, 59, 1_250_000_000),
        (2020, 2, 29, 1, 2, 3, 120_000),
        (2020, 2, 29, 1, 2, 3, 7),
        (2020, 2, 29, 1, 2, 3, 500_000_000),
    ];
    for (y, mo, d, h, mi, s, n) in cases.iter() {
        let p = posted(*y, *mo, *d, *h, *mi, *s, *n);
        let a = article(1, &[], p);
        let expected = format!(
            "Aid: 1, Title: Title, Posted on: {}, Body:<br>\nBody text<br>\ntags: []",
            chrono_text(&p)
        );
        assert_eq!(a.info(), expected);
    }
    let leap = article(1, &[], posted(2016, 12, 31, 23, 59, 59, 1_250_000_000));
    assert!(leap.info().contains("Posted on: 2016-12-31 23:59:60.250,"));
    let old = article(1, &[], posted(-1, 6, 15, 12, 0, 0, 0));
    assert!(old.info().contains("Posted on: -0001-06-15 12:00:00,"));
    let far = article(1, &[], posted(10000, 1, 1, 0, 0, 0, 0));
    assert!(far.info().contains("Posted on: +10000-01-01 00:00:00,"));
}
