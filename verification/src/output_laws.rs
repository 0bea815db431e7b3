//! What the blog's queries, pages, forms and dates say, for every input:
//! the number a query or page names reads back as the number asked for,
//! every field a text carries is there whole, a form is read from the last
//! value submitted for each field, and the parts of a date and time read
//! back from its text.
use crate::blog::{
    debug_list, field_or_empty, field_texts, form_aid, info_text, insert_text, last_value,
    select_text,
};
use crate::laws::decimal_reads_back;
use crate::pages::{article_page_text, fail_url_text, post_failure_text};
use crate::posted::{fraction_text, posted_text, year_text, zero_padded, Posted};
use crate::text::{
    all_digits, char_pieces, debug_quoted, decimal, digits_value, is_digit, parse_u32_spec, texts,
    unsigned_digits,
};
use vstd::prelude::*;

verus! {

proof fn lemma_decimal_nonempty(n: nat)
    ensures
        decimal(n).len() > 0,
    decreases n,
{
    if n >= 10 {
        lemma_decimal_nonempty(n / 10);
    }
}

// ---------------------------------------------------------------------------
// Looking an article up
// ---------------------------------------------------------------------------

/// The lookup query for article `aid` is the fixed `SELECT` text followed
/// by a number, and that number reads back as `aid`: the query asks for the
/// article that was asked for, and for no other.
pub proof fn select_query_names_the_article(aid: u32)
    ensures
        ({
            let prefix = "SELECT aid, title, posted, body, tags FROM articles WHERE aid = "@;
            let q = select_text(aid);
            &&& q.len() > prefix.len()
            &&& q.take(prefix.len() as int) == prefix
            &&& parse_u32_spec(q.skip(prefix.len() as int)) == Some(aid)
        }),
{
    let prefix = "SELECT aid, title, posted, body, tags FROM articles WHERE aid = "@;
    let q = select_text(aid);
    lemma_decimal_nonempty(aid as nat);
    assert(q.take(prefix.len() as int) =~= prefix);
    assert(q.skip(prefix.len() as int) =~= decimal(aid as nat));
    decimal_reads_back(aid);
}

/// Two different article numbers give two different lookup queries.
pub proof fn select_queries_differ(a: u32, b: u32)
    requires
        a != b,
    ensures
        select_text(a) != select_text(b),
{
    select_query_names_the_article(a);
    select_query_names_the_article(b);
}

// ---------------------------------------------------------------------------
// The article page
// ---------------------------------------------------------------------------

/// When the lookup found an article, its page is the page for an empty
/// description followed by the whole description: nothing of it is cut,
/// changed or left out.
pub proof fn found_page_ends_with_description(aid: u32, info: Seq<char>)
    ensures
        article_page_text(aid, Some(info)) == article_page_text(aid, Some(Seq::<char>::empty()))
            + info,
{
    assert(article_page_text(aid, Some(info)) =~= article_page_text(
        aid,
        Some(Seq::<char>::empty()),
    ) + info);
}

/// When the lookup found an article, its page says that the article is
/// being viewed, under the number that was asked for.
pub proof fn found_page_views_the_article(aid: u32)
    ensures
        ({
            let head = "You have reached the article page.<br>\n"@ + "You are viewing article #"@;
            let tail = ".<br>\nInfo:<br>\n"@;
            let p = article_page_text(aid, Some(Seq::<char>::empty()));
            &&& p.len() > head.len() + tail.len()
            &&& p.take(head.len() as int) == head
            &&& p.skip(p.len() - tail.len()) == tail
            &&& parse_u32_spec(p.subrange(head.len() as int, p.len() - tail.len())) == Some(aid)
        }),
{
    let head = "You have reached the article page.<br>\n"@ + "You are viewing article #"@;
    let tail = ".<br>\nInfo:<br>\n"@;
    let p = article_page_text(aid, Some(Seq::<char>::empty()));
    let d = decimal(aid as nat);
    lemma_decimal_nonempty(aid as nat);
    assert(p =~= head + d + tail);
    assert(p.take(head.len() as int) =~= head);
    assert(p.skip(p.len() - tail.len()) =~= tail);
    assert(p.subrange(head.len() as int, p.len() - tail.len()) =~= d);
    decimal_reads_back(aid);
}

/// When the lookup found nothing, the page says that the article with the
/// number asked for could not be retrieved.
pub proof fn missing_page_says_not_retrieved(aid: u32)
    ensures
        ({
            let head = "You have reached the article page.<br>\n"@ + "Article #"@;
            let tail = " could not be retrieved."@;
            let p = article_page_text(aid, None);
            &&& p.len() > head.len() + tail.len()
            &&& p.take(head.len() as int) == head
            &&& p.skip(p.len() - tail.len()) == tail
            &&& parse_u32_spec(p.subrange(head.len() as int, p.len() - tail.len())) == Some(aid)
        }),
{
    let head = "You have reached the article page.<br>\n"@ + "Article #"@;
    let tail = " could not be retrieved."@;
    let p = article_page_text(aid, None);
    let d = decimal(aid as nat);
    lemma_decimal_nonempty(aid as nat);
    assert(p =~= head + d + tail);
    assert(p.take(head.len() as int) =~= head);
    assert(p.skip(p.len() - tail.len()) =~= tail);
    assert(p.subrange(head.len() as int, p.len() - tail.len()) =~= d);
    decimal_reads_back(aid);
}

/// A page for an article that was found never reads as the page for one
/// that was not, whatever the description.
pub proof fn found_and_missing_pages_differ(aid: u32, info: Seq<char>)
    ensures
        article_page_text(aid, Some(info)) != article_page_text(aid, None),
{
    reveal_strlit("You are viewing article #");
    reveal_strlit("Article #");
    reveal_strlit("You have reached the article page.<br>\n");
    let h = "You have reached the article page.<br>\n"@;
    let p = article_page_text(aid, Some(info));
    let q = article_page_text(aid, None);
    found_page_ends_with_description(aid, info);
    found_page_views_the_article(aid);
    missing_page_says_not_retrieved(aid);
    assert(p[h.len() as int] == 'Y');
    assert(q[h.len() as int] == 'A');
}

// ---------------------------------------------------------------------------
// Forms
// ---------------------------------------------------------------------------

/// The submitted fields, as text, are the submitted strings one for one, in
/// the order given.
pub proof fn form_fields_are_the_submitted_strings(items: Seq<(String, String)>)
    ensures
        field_texts(items).len() == items.len(),
        forall|i: int|
            0 <= i < items.len() ==> #[trigger] field_texts(items)[i] == (items[i].0@, items[i].1@),
{
}

/// The characters of a list of strings are those of each string, one for
/// one, in order.
pub proof fn texts_are_the_strings(v: Seq<String>)
    ensures
        texts(v).len() == v.len(),
        forall|i: int| 0 <= i < v.len() ==> #[trigger] texts(v)[i] == v[i]@,
{
}

/// The characters of a list of character vectors are those of each vector,
/// one for one, in order.
pub proof fn char_pieces_are_the_vectors(v: Seq<Vec<char>>)
    ensures
        char_pieces(v).len() == v.len(),
        forall|i: int| 0 <= i < v.len() ==> #[trigger] char_pieces(v)[i] == v[i]@,
{
}

/// A field with no value submitted reads as the empty text.
pub proof fn unsubmitted_field_is_empty(name: Seq<char>)
    ensures
        field_or_empty(Seq::<(Seq<char>, Seq<char>)>::empty(), name) == Seq::<char>::empty(),
{
}

/// The value a field reads as is the last value submitted for it, whole
/// and unchanged.
pub proof fn last_submitted_value_counts(
    fs: Seq<(Seq<char>, Seq<char>)>,
    name: Seq<char>,
    value: Seq<char>,
)
    ensures
        field_or_empty(fs.push((name, value)), name) == value,
        last_value(fs.push((name, value)), name) == Some(value),
{
    assert(fs.push((name, value)).last() == (name, value));
}

/// A field submitted under another name leaves the value read for `name`
/// as it was.
pub proof fn other_fields_are_ignored(
    fs: Seq<(Seq<char>, Seq<char>)>,
    name: Seq<char>,
    other: Seq<char>,
    value: Seq<char>,
)
    requires
        other != name,
    ensures
        field_or_empty(fs.push((other, value)), name) == field_or_empty(fs, name),
        last_value(fs.push((other, value)), name) == last_value(fs, name),
{
    assert(fs.push((other, value)).drop_last() =~= fs);
}

/// The article number a form names is the last `aid` value submitted, read
/// as a number, or 0 when it does not read as one.
pub proof fn last_aid_counts(fs: Seq<(Seq<char>, Seq<char>)>, value: Seq<char>)
    ensures
        form_aid(fs.push(("aid"@, value))) == match parse_u32_spec(value) {
            Some(n) => n,
            None => 0u32,
        },
{
    last_submitted_value_counts(fs, "aid"@, value);
}

/// A field other than `aid` leaves the article number a form names as it
/// was.
pub proof fn other_fields_leave_the_aid(
    fs: Seq<(Seq<char>, Seq<char>)>,
    other: Seq<char>,
    value: Seq<char>,
)
    requires
        other != "aid"@,
    ensures
        form_aid(fs.push((other, value))) == form_aid(fs),
{
    other_fields_are_ignored(fs, "aid"@, other, value);
}

// ---------------------------------------------------------------------------
// The description of an article
// ---------------------------------------------------------------------------

/// One more tag adds one more entry to the written list: four spaces, the
/// tag in `Debug` notation and a comma, on a line of its own before the
/// closing bracket. So every tag is written, in order, and none is lost.
pub proof fn tag_list_grows_by_one_entry(ts: Seq<Seq<char>>, t: Seq<char>)
    requires
        ts.len() > 0,
    ensures
        debug_list(ts.push(t)) == debug_list(ts).drop_last() + "    "@ + debug_quoted(t) + ",\n"@
            + "]"@,
{
    reveal_strlit("]");
    assert(ts.push(t).drop_last() =~= ts);
    assert(debug_list(ts).drop_last() =~= "[\n"@ + crate::blog::debug_entries(ts));
    assert(debug_list(ts.push(t)) =~= debug_list(ts).drop_last() + "    "@ + debug_quoted(t)
        + ",\n"@ + "]"@);
}

/// A list of one tag is written as an opening bracket, the tag's entry and
/// a closing bracket; a list of none as `[]`.
pub proof fn tag_list_of_one_or_none(t: Seq<char>)
    ensures
        debug_list(seq![t]) == "[\n"@ + "    "@ + debug_quoted(t) + ",\n"@ + "]"@,
        debug_list(Seq::<Seq<char>>::empty()) == "[]"@,
{
    assert(seq![t].drop_last() =~= Seq::<Seq<char>>::empty());
    assert(seq![t].last() == t);
    assert(crate::blog::debug_entries(Seq::<Seq<char>>::empty()) == Seq::<char>::empty());
    assert(crate::blog::debug_entries(seq![t]) =~= Seq::<char>::empty() + "    "@ + debug_quoted(t)
        + ",\n"@);
    assert(debug_list(seq![t]) =~= "[\n"@ + "    "@ + debug_quoted(t) + ",\n"@ + "]"@);
}

/// The same holds of an article's whole description: one more tag adds
/// exactly one entry before the closing bracket, and nothing else changes.
pub proof fn description_grows_by_one_tag(
    aid: u32,
    title: Seq<char>,
    posted: Posted,
    body: Seq<char>,
    ts: Seq<Seq<char>>,
    t: Seq<char>,
)
    requires
        ts.len() > 0,
    ensures
        info_text(aid, title, posted, body, ts.push(t)) == info_text(
            aid,
            title,
            posted,
            body,
            ts,
        ).drop_last() + "    "@ + debug_quoted(t) + ",\n"@ + "]"@,
{
    reveal_strlit("]");
    tag_list_grows_by_one_entry(ts, t);
    let head = "Aid: "@ + decimal(aid as nat) + ", Title: "@ + title + ", Posted on: "@
        + posted_text(posted) + ", Body:<br>\n"@ + body + "<br>\ntags: "@;
    assert(info_text(aid, title, posted, body, ts.push(t)) =~= head + debug_list(ts.push(t)));
    assert(info_text(aid, title, posted, body, ts) =~= head + debug_list(ts));
    assert((head + debug_list(ts)).drop_last() =~= head + debug_list(ts).drop_last());
    assert(info_text(aid, title, posted, body, ts.push(t)) =~= info_text(
        aid,
        title,
        posted,
        body,
        ts,
    ).drop_last() + "    "@ + debug_quoted(t) + ",\n"@ + "]"@);
}

/// An article's description starts with `Aid: ` and its number, which reads
/// back as the article's number, followed by `, Title: `.
pub proof fn description_names_the_article(
    aid: u32,
    title: Seq<char>,
    posted: Posted,
    body: Seq<char>,
    ts: Seq<Seq<char>>,
)
    ensures
        ({
            let d = info_text(aid, title, posted, body, ts);
            exists|k: int|
                #![trigger d.subrange(5, 5 + k)]
                0 < k && 5 + k + 9 <= d.len() && d.take(5) == "Aid: "@ && parse_u32_spec(
                    d.subrange(5, 5 + k),
                ) == Some(aid) && d.subrange(5 + k, 5 + k + 9) == ", Title: "@
        }),
{
    reveal_strlit("Aid: ");
    reveal_strlit(", Title: ");
    let d = info_text(aid, title, posted, body, ts);
    let n = decimal(aid as nat);
    let k = n.len() as int;
    lemma_decimal_nonempty(aid as nat);
    decimal_reads_back(aid);
    let rest = ", Title: "@ + title + ", Posted on: "@ + posted_text(posted) + ", Body:<br>\n"@
        + body + "<br>\ntags: "@ + debug_list(ts);
    assert(d =~= "Aid: "@ + n + rest);
    assert(d.take(5) =~= "Aid: "@);
    assert(d.subrange(5, 5 + k) =~= n);
    assert(d.subrange(5 + k, 5 + k + 9) =~= ", Title: "@);
}

/// The title is in the description whole: the description of an article
/// is that of the same article with an empty title, with the title put in
/// right after `, Title: `.
pub proof fn description_holds_the_title(
    aid: u32,
    title: Seq<char>,
    posted: Posted,
    body: Seq<char>,
    ts: Seq<Seq<char>>,
)
    ensures
        ({
            let x = info_text(aid, Seq::<char>::empty(), posted, body, ts);
            let at: int = 14 + decimal(aid as nat).len() as int;
            info_text(aid, title, posted, body, ts) == x.take(at) + title + x.skip(at)
        }),
{
    reveal_strlit("Aid: ");
    reveal_strlit(", Title: ");
    let x = info_text(aid, Seq::<char>::empty(), posted, body, ts);
    let at: int = 14 + decimal(aid as nat).len() as int;
    let a = "Aid: "@ + decimal(aid as nat) + ", Title: "@;
    let b = ", Posted on: "@ + posted_text(posted) + ", Body:<br>\n"@ + body + "<br>\ntags: "@
        + debug_list(ts);
    assert(x =~= a + b);
    assert(a.len() == at);
    assert(x.take(at) =~= a);
    assert(x.skip(at) =~= b);
    assert(info_text(aid, title, posted, body, ts) =~= a + title + b);
}

/// The body is in the description whole: the description of an article is
/// that of the same article with an empty body, with the body put in right
/// before `<br>\ntags: ` and the tags.
pub proof fn description_holds_the_body(
    aid: u32,
    title: Seq<char>,
    posted: Posted,
    body: Seq<char>,
    ts: Seq<Seq<char>>,
)
    ensures
        ({
            let x = info_text(aid, title, posted, Seq::<char>::empty(), ts);
            let at: int = x.len() - 11 - debug_list(ts).len();
            info_text(aid, title, posted, body, ts) == x.take(at) + body + x.skip(at)
        }),
{
    reveal_strlit("<br>\ntags: ");
    let x = info_text(aid, title, posted, Seq::<char>::empty(), ts);
    let at: int = x.len() - 11 - debug_list(ts).len();
    let a = "Aid: "@ + decimal(aid as nat) + ", Title: "@ + title + ", Posted on: "@ + posted_text(
        posted,
    ) + ", Body:<br>\n"@;
    let b = "<br>\ntags: "@ + debug_list(ts);
    assert(x =~= a + b);
    assert(a.len() == at);
    assert(x.take(at) =~= a);
    assert(x.skip(at) =~= b);
    assert(info_text(aid, title, posted, body, ts) =~= a + body + b);
}

/// The posting time is in the description as chrono writes it, right after
/// the title and `, Posted on: `.
pub proof fn description_holds_the_posting_time(
    aid: u32,
    title: Seq<char>,
    posted: Posted,
    body: Seq<char>,
    ts: Seq<Seq<char>>,
)
    ensures
        ({
            let d = info_text(aid, title, posted, body, ts);
            let at: int = 14 + decimal(aid as nat).len() as int + title.len() as int;
            &&& d.subrange(at, at + 13) == ", Posted on: "@
            &&& d.subrange(at + 13, at + 13 + posted_text(posted).len()) == posted_text(posted)
        }),
{
    reveal_strlit("Aid: ");
    reveal_strlit(", Title: ");
    reveal_strlit(", Posted on: ");
    let d = info_text(aid, title, posted, body, ts);
    let at: int = 14 + decimal(aid as nat).len() as int + title.len() as int;
    let a = "Aid: "@ + decimal(aid as nat) + ", Title: "@ + title;
    let b = ", Body:<br>\n"@ + body + "<br>\ntags: "@ + debug_list(ts);
    assert(d =~= a + ", Posted on: "@ + posted_text(posted) + b);
    assert(a.len() == at);
    assert(d.subrange(at, at + 13) =~= ", Posted on: "@);
    assert(d.subrange(at + 13, at + 13 + posted_text(posted).len()) =~= posted_text(posted));
}

// ---------------------------------------------------------------------------
// Storing an article
// ---------------------------------------------------------------------------

/// The insert query starts with the fixed `INSERT` text and ends with
/// `') RETURNING aid`.
pub proof fn insert_query_shape(title: Seq<char>, posted: Posted, body: Seq<char>, tags: Seq<char>)
    ensures
        ({
            let q = insert_text(title, posted, body, tags);
            let head = "INSERT INTO articles (title, posted, body, tags) VALUES ('"@;
            let tail = "') RETURNING aid"@;
            &&& q.len() >= head.len() + tail.len()
            &&& q.take(head.len() as int) == head
            &&& q.skip(q.len() - tail.len()) == tail
        }),
{
    let q = insert_text(title, posted, body, tags);
    let head = "INSERT INTO articles (title, posted, body, tags) VALUES ('"@;
    let tail = "') RETURNING aid"@;
    let mid = title + "', '"@ + posted_text(posted) + "', '"@ + body + "', '"@ + tags;
    assert(q =~= head + mid + tail);
    assert(q.take(head.len() as int) =~= head);
    assert(q.skip(q.len() - tail.len()) =~= tail);
}

/// The title is stored whole: the query is the query with an empty title,
/// with the title put in right after the opening `('`.
pub proof fn insert_query_holds_the_title(
    title: Seq<char>,
    posted: Posted,
    body: Seq<char>,
    tags: Seq<char>,
)
    ensures
        ({
            let x = insert_text(Seq::<char>::empty(), posted, body, tags);
            insert_text(title, posted, body, tags) == x.take(58) + title + x.skip(58)
        }),
{
    reveal_strlit("INSERT INTO articles (title, posted, body, tags) VALUES ('");
    let x = insert_text(Seq::<char>::empty(), posted, body, tags);
    let a = "INSERT INTO articles (title, posted, body, tags) VALUES ('"@;
    let b = "', '"@ + posted_text(posted) + "', '"@ + body + "', '"@ + tags + "') RETURNING aid"@;
    assert(x =~= a + b);
    assert(x.take(58) =~= a);
    assert(x.skip(58) =~= b);
    assert(insert_text(title, posted, body, tags) =~= a + title + b);
}

/// The posting time is stored as chrono writes it, right after the title
/// and `', '`.
pub proof fn insert_query_holds_the_posting_time(
    title: Seq<char>,
    posted: Posted,
    body: Seq<char>,
    tags: Seq<char>,
)
    ensures
        ({
            let q = insert_text(title, posted, body, tags);
            let at: int = 58 + title.len() as int + 4;
            q.subrange(at, at + posted_text(posted).len()) == posted_text(posted)
        }),
{
    reveal_strlit("INSERT INTO articles (title, posted, body, tags) VALUES ('");
    reveal_strlit("', '");
    let q = insert_text(title, posted, body, tags);
    let at: int = 58 + title.len() as int + 4;
    let a = "INSERT INTO articles (title, posted, body, tags) VALUES ('"@ + title + "', '"@;
    let b = "', '"@ + body + "', '"@ + tags + "') RETURNING aid"@;
    assert(q =~= a + posted_text(posted) + b);
    assert(a.len() == at);
    assert(q.subrange(at, at + posted_text(posted).len()) =~= posted_text(posted));
}

/// The body is stored whole: the query is the query with an empty body,
/// with the body put in right before `', '`, the tags and `') RETURNING aid`.
pub proof fn insert_query_holds_the_body(
    title: Seq<char>,
    posted: Posted,
    body: Seq<char>,
    tags: Seq<char>,
)
    ensures
        ({
            let x = insert_text(title, posted, Seq::<char>::empty(), tags);
            let at: int = x.len() - tags.len() - 20;
            insert_text(title, posted, body, tags) == x.take(at) + body + x.skip(at)
        }),
{
    reveal_strlit("', '");
    reveal_strlit("') RETURNING aid");
    let x = insert_text(title, posted, Seq::<char>::empty(), tags);
    let at: int = x.len() - tags.len() - 20;
    let a = "INSERT INTO articles (title, posted, body, tags) VALUES ('"@ + title + "', '"@
        + posted_text(posted) + "', '"@;
    let b = "', '"@ + tags + "') RETURNING aid"@;
    assert(x =~= a + b);
    assert(a.len() == at);
    assert(x.take(at) =~= a);
    assert(x.skip(at) =~= b);
    assert(insert_text(title, posted, body, tags) =~= a + body + b);
}

/// The tags are stored whole, as submitted: the query is the query with no
/// tags, with the tags put in right before `') RETURNING aid`.
pub proof fn insert_query_holds_the_tags(
    title: Seq<char>,
    posted: Posted,
    body: Seq<char>,
    tags: Seq<char>,
)
    ensures
        ({
            let x = insert_text(title, posted, body, Seq::<char>::empty());
            let at: int = x.len() - 16;
            insert_text(title, posted, body, tags) == x.take(at) + tags + x.skip(at)
        }),
{
    reveal_strlit("') RETURNING aid");
    let x = insert_text(title, posted, body, Seq::<char>::empty());
    let at: int = x.len() - 16;
    let a = "INSERT INTO articles (title, posted, body, tags) VALUES ('"@ + title + "', '"@
        + posted_text(posted) + "', '"@ + body + "', '"@;
    let b = "') RETURNING aid"@;
    assert(x =~= a + b);
    assert(a.len() == at);
    assert(x.take(at) =~= a);
    assert(x.skip(at) =~= b);
    assert(insert_text(title, posted, body, tags) =~= a + tags + b);
}

// ---------------------------------------------------------------------------
// Failed logins and posts
// ---------------------------------------------------------------------------

/// A failure message that is empty or a single space sends the login back
/// to the bare login page.
pub proof fn silent_failure_keeps_the_address(base: Seq<char>, user: Seq<char>, msg: Seq<char>)
    requires
        msg.len() == 0 || msg == seq![' '],
    ensures
        fail_url_text(base, user, msg) == base,
{
    if msg.len() == 0 {
        assert(msg =~= Seq::<char>::empty());
    }
}

/// Any other failure message sends the login back to the login page with
/// `?user=`, the user whole, `&msg=` and the message whole at the end.
pub proof fn failure_address_carries_user_and_message(
    base: Seq<char>,
    user: Seq<char>,
    msg: Seq<char>,
)
    requires
        msg.len() > 0,
        msg != seq![' '],
    ensures
        ({
            let u = fail_url_text(base, user, msg);
            let x = fail_url_text(base, Seq::<char>::empty(), msg);
            &&& u.take(base.len() as int) == base
            &&& u.subrange(base.len() as int, base.len() as int + 6) == "?user="@
            &&& u == x.take(base.len() as int + 6) + user + x.skip(base.len() as int + 6)
            &&& u.subrange(u.len() - msg.len() - 5, u.len() - msg.len()) == "&msg="@
            &&& u.skip(u.len() - msg.len()) == msg
        }),
{
    reveal_strlit("?user=");
    reveal_strlit("&msg=");
    assert(msg != Seq::<char>::empty());
    let u = fail_url_text(base, user, msg);
    let x = fail_url_text(base, Seq::<char>::empty(), msg);
    let a = base + "?user="@;
    let b = "&msg="@ + msg;
    assert(u =~= a + user + b);
    assert(x =~= a + b);
    assert(u.take(base.len() as int) =~= base);
    assert(u.subrange(base.len() as int, base.len() as int + 6) =~= "?user="@);
    assert(x.take(base.len() as int + 6) =~= a);
    assert(x.skip(base.len() as int + 6) =~= b);
    assert(u.subrange(u.len() - msg.len() - 5, u.len() - msg.len()) =~= "&msg="@);
    assert(u.skip(u.len() - msg.len()) =~= msg);
}

/// The reason a post failed is shown whole, after the fixed sentence.
pub proof fn post_failure_shows_the_reason(why: Seq<char>)
    ensures
        post_failure_text(why) == post_failure_text(Seq::<char>::empty()) + why,
        post_failure_text(Seq::<char>::empty()) == "Could not post the blog article.  Reason: "@,
{
    assert(post_failure_text(why) =~= post_failure_text(Seq::<char>::empty()) + why);
    assert(post_failure_text(Seq::<char>::empty()) =~= "Could not post the blog article.  Reason: "@);
}

// ---------------------------------------------------------------------------
// The text of a date and time
// ---------------------------------------------------------------------------

/// Ten to the power `w`.
pub open spec fn pow10(w: nat) -> nat
    decreases w,
{
    if w == 0 {
        1
    } else {
        10 * pow10((w - 1) as nat)
    }
}

proof fn lemma_decimal_len(n: nat, w: nat)
    requires
        w >= 1,
        n < pow10(w),
    ensures
        decimal(n).len() <= w,
    decreases n,
{
    if n >= 10 {
        assert(w >= 2) by {
            if w == 1 {
                assert(pow10(1) == 10 * pow10(0));
            }
        }
        let p = pow10((w - 1) as nat);
        assert(pow10(w) == 10 * p);
        assert(n / 10 < p) by (nonlinear_arith)
            requires
                n < 10 * p,
        ;
        lemma_decimal_len(n / 10, (w - 1) as nat);
    }
}

proof fn lemma_zeros_value(k: nat)
    ensures
        digits_value(Seq::new(k, |i: int| '0')) == 0,
        all_digits(Seq::new(k, |i: int| '0')),
    decreases k,
{
    if k > 0 {
        lemma_zeros_value((k - 1) as nat);
        assert(Seq::new(k, |i: int| '0').drop_last() =~= Seq::new((k - 1) as nat, |i: int| '0'));
    }
}

proof fn lemma_zeros_prefix_value(k: nat, d: Seq<char>)
    ensures
        digits_value(Seq::new(k, |i: int| '0') + d) == digits_value(d),
    decreases d.len(),
{
    let z = Seq::new(k, |i: int| '0');
    if d.len() == 0 {
        lemma_zeros_value(k);
        assert(z + d =~= z);
    } else {
        lemma_zeros_prefix_value(k, d.drop_last());
        assert((z + d).drop_last() =~= z + d.drop_last());
        assert((z + d).last() == d.last());
    }
}

/// A number below `10^w` written with `w` digits, zeros in front, takes
/// exactly `w` characters and reads back as the number.
proof fn lemma_zero_padded_reads_back(n: nat, w: nat)
    requires
        w >= 1,
        n < pow10(w),
        n <= u32::MAX,
    ensures
        zero_padded(n, w).len() == w,
        parse_u32_spec(zero_padded(n, w)) == Some(n as u32),
{
    lemma_decimal_len(n, w);
    crate::laws::lemma_decimal_digits(n);
    let d = decimal(n);
    let t = zero_padded(n, w);
    if d.len() < w {
        let z = Seq::new((w - d.len()) as nat, |i: int| '0');
        lemma_zeros_value((w - d.len()) as nat);
        lemma_zeros_prefix_value((w - d.len()) as nat, d);
        assert(t == z + d);
        assert forall|i: int| 0 <= i < t.len() implies is_digit(#[trigger] t[i]) by {
            if i < z.len() {
                assert(t[i] == z[i]);
            } else {
                assert(t[i] == d[i - z.len()]);
            }
        }
        assert(t[0] == '0');
    }
    assert(unsigned_digits(t) == t);
}

/// For a year from 0 to 9999, the text of a date and time reads back: the
/// year, month, day, hour, minute and second stand at fixed places as
/// numbers that read back as themselves (a leap second as second 60), with
/// `-`, `-`, ` `, `:` and `:` between them, followed by nothing for a whole
/// second or else by a point and 3, 6 or 9 digits, the fewest that hold the
/// fraction, which read back as the fraction.
pub proof fn date_text_reads_back(p: Posted)
    requires
        p.wf(),
        0 <= p.year <= 9999,
    ensures
        ({
            let t = posted_text(p);
            let sec: int = if p.nanosecond >= 1_000_000_000 {
                p.second + 1
            } else {
                p.second as int
            };
            let f: int = (p.nanosecond % 1_000_000_000) as int;
            &&& t.len() == 19 || t.len() == 23 || t.len() == 26 || t.len() == 29
            &&& parse_u32_spec(t.subrange(0, 4)) == Some(p.year as u32)
            &&& t[4] == '-' && t[7] == '-' && t[10] == ' ' && t[13] == ':' && t[16] == ':'
            &&& parse_u32_spec(t.subrange(5, 7)) == Some(p.month)
            &&& parse_u32_spec(t.subrange(8, 10)) == Some(p.day)
            &&& parse_u32_spec(t.subrange(11, 13)) == Some(p.hour)
            &&& parse_u32_spec(t.subrange(14, 16)) == Some(p.minute)
            &&& parse_u32_spec(t.subrange(17, 19)) == Some(sec as u32)
            &&& (t.len() == 19) == (f == 0)
            &&& t.len() > 19 ==> t[19] == '.'
            &&& t.len() == 23 ==> (parse_u32_spec(t.skip(20)) matches Some(v) && v * 1_000_000 == f)
            &&& t.len() == 26 ==> (parse_u32_spec(t.skip(20)) matches Some(v) && v * 1_000 == f
                && f % 1_000_000 != 0)
            &&& t.len() == 29 ==> (parse_u32_spec(t.skip(20)) matches Some(v) && v == f && f % 1_000
                != 0)
        }),
{
    reveal_with_fuel(pow10, 10);
    let t = posted_text(p);
    let sec: nat = if p.nanosecond >= 1_000_000_000 {
        (p.second + 1) as nat
    } else {
        p.second as nat
    };
    let f: nat = if p.nanosecond >= 1_000_000_000 {
        (p.nanosecond - 1_000_000_000) as nat
    } else {
        p.nanosecond as nat
    };
    assert(f == p.nanosecond % 1_000_000_000);
    let y = zero_padded(p.year as nat, 4);
    let mo = zero_padded(p.month as nat, 2);
    let d = zero_padded(p.day as nat, 2);
    let h = zero_padded(p.hour as nat, 2);
    let mi = zero_padded(p.minute as nat, 2);
    let s = zero_padded(sec, 2);
    lemma_zero_padded_reads_back(p.year as nat, 4);
    lemma_zero_padded_reads_back(p.month as nat, 2);
    lemma_zero_padded_reads_back(p.day as nat, 2);
    lemma_zero_padded_reads_back(p.hour as nat, 2);
    lemma_zero_padded_reads_back(p.minute as nat, 2);
    lemma_zero_padded_reads_back(sec, 2);
    assert(year_text(p.year as int) == y);
    let fr = fraction_text(f);
    let head = y + seq!['-'] + mo + seq!['-'] + d + seq![' '] + h + seq![':'] + mi + seq![':'] + s;
    assert(t =~= head + fr);
    assert(head.len() == 19);
    assert(t.subrange(0, 4) =~= y);
    assert(t.subrange(5, 7) =~= mo);
    assert(t.subrange(8, 10) =~= d);
    assert(t.subrange(11, 13) =~= h);
    assert(t.subrange(14, 16) =~= mi);
    assert(t.subrange(17, 19) =~= s);
    assert(t[4] == head[4]);
    assert(t[7] == head[7]);
    assert(t[10] == head[10]);
    assert(t[13] == head[13]);
    assert(t[16] == head[16]);
    if f == 0 {
        assert(fr.len() == 0);
    } else if f % 1_000_000 == 0 {
        let v = f / 1_000_000;
        assert(v < 1000);
        lemma_zero_padded_reads_back(v, 3);
        assert(fr == seq!['.'] + zero_padded(v, 3));
        assert(t.skip(20) =~= zero_padded(v, 3));
        assert(t[19] == fr[0]);
    } else if f % 1_000 == 0 {
        let v = f / 1_000;
        assert(v < 1_000_000);
        lemma_zero_padded_reads_back(v, 6);
        assert(fr == seq!['.'] + zero_padded(v, 6));
        assert(t.skip(20) =~= zero_padded(v, 6));
        assert(t[19] == fr[0]);
    } else {
        lemma_zero_padded_reads_back(f, 9);
        assert(fr == seq!['.'] + zero_padded(f, 9));
        assert(t.skip(20) =~= zero_padded(f, 9));
        assert(t[19] == fr[0]);
    }
}

/// A year outside 0 to 9999 is written with its sign, `-` before the
/// years before 0 and `+` after 9999, followed by digits that read back as
/// the year's size.
pub proof fn far_year_text_reads_back(y: i32)
    requires
        y < 0 || y > 9999,
        -262143 <= y <= 262142,
    ensures
        year_text(y as int)[0] == (if y < 0 {
            '-'
        } else {
            '+'
        }),
        parse_u32_spec(year_text(y as int).skip(1)) == Some(
            (if y < 0 {
                -y
            } else {
                y as int
            }) as u32,
        ),
{
    reveal_with_fuel(pow10, 10);
    let a: nat = (if y < 0 {
        -y
    } else {
        y as int
    }) as nat;
    lemma_zero_padded_reads_back(a, 6);
    lemma_decimal_len(a, 6);
    crate::laws::lemma_decimal_digits(a);
    let z = zero_padded(a, 4);
    let d = decimal(a);
    if d.len() < 4 {
        lemma_zeros_prefix_value((4 - d.len()) as nat, d);
        lemma_zeros_value((4 - d.len()) as nat);
        assert forall|i: int| 0 <= i < z.len() implies is_digit(#[trigger] z[i]) by {
            if i < 4 - d.len() {
                assert(z[i] == '0');
            } else {
                assert(z[i] == d[i - (4 - d.len())]);
            }
        }
        assert(z[0] == '0');
    }
    assert(unsigned_digits(z) == z);
    if y < 0 {
        assert((seq!['-'] + z).skip(1) =~= z);
    } else {
        assert((seq!['+'] + z).skip(1) =~= z);
    }
}

/// The text of a date and time is its year followed by a part that does not
/// depend on the year: the same as for any other year on the same day and
/// at the same time.
pub proof fn date_text_after_the_year(p: Posted, year: i32)
    ensures
        ({
            let q = Posted { year, ..p };
            posted_text(p) == year_text(p.year as int) + posted_text(q).skip(
                year_text(year as int).len() as int,
            )
        }),
{
    let q = Posted { year, ..p };
    assert(posted_text(q) =~= year_text(year as int) + posted_text(q).skip(
        year_text(year as int).len() as int,
    ));
    assert(posted_text(p).skip(year_text(p.year as int).len() as int) =~= posted_text(q).skip(
        year_text(year as int).len() as int,
    ));
    assert(posted_text(p) =~= year_text(p.year as int) + posted_text(p).skip(
        year_text(p.year as int).len() as int,
    ));
}

} // verus!
