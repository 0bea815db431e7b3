//! Articles, the forms that create them, and the rules by which their text
//! is read and written.
use crate::posted::{local_now, posted_text, posted_to_text, Posted};
use crate::text::{
    char_pieces, debug_quoted, debug_text, decimal, parse_u32, parse_u32_spec, push_decimal,
    split_on, split_pieces, string_of, text_is, texts, trim, trim_chars,
};
use vstd::prelude::*;

verus! {

// ---------------------------------------------------------------------------
// Data
// ---------------------------------------------------------------------------

/// The number by which an article is known.
#[derive(Debug, Clone)]
pub struct ArticleId {
    pub aid: u32,
}

/// A blog article.
#[derive(Debug, Clone)]
pub struct Article {
    pub aid: u32,
    pub title: String,
    pub posted: Posted,
    pub body: String,
    pub tags: Vec<String>,
}

/// The fields of a new article as a user submits them.
#[derive(Debug, Clone)]
pub struct ArticleForm {
    pub title: String,
    pub body: String,
    pub tags: String,
}

/// A registered user of the blog.
#[derive(Debug, Clone)]
pub struct User {
    pub userid: u32,
    pub username: String,
    pub display: Option<String>,
    pub email: Option<String>,
    pub password: String,
    pub is_admin: bool,
}

impl Article {
    /// An article's posting time is a moment that a `NaiveDateTime` can hold.
    pub open spec fn wf(&self) -> bool {
        self.posted.wf()
    }
}

// ---------------------------------------------------------------------------
// Sanitising
// ---------------------------------------------------------------------------

/// The body as it is stored: unchanged.
pub fn sanitize_body(string: String) -> (r: String)
    ensures
        r@ == string@,
{
    string
}

/// The title as it is stored: unchanged.
pub fn sanitize_title(string: String) -> (r: String)
    ensures
        r@ == string@,
{
    string
}

/// The tags as they are stored: unchanged.
pub fn sanitize_tags(string: String) -> (r: String)
    ensures
        r@ == string@,
{
    string
}

// ---------------------------------------------------------------------------
// Tags
// ---------------------------------------------------------------------------

/// Whether a piece of text is not empty.
pub open spec fn is_nonempty() -> spec_fn(Seq<char>) -> bool {
    |t: Seq<char>| t.len() > 0
}

/// Whether a trimmed piece is kept as a tag: it is neither empty nor a
/// single space.
pub open spec fn is_kept_tag() -> spec_fn(Seq<char>) -> bool {
    |t: Seq<char>| t != Seq::<char>::empty() && t != seq![' ']
}

/// Each piece without whitespace at either end.
pub open spec fn trim_each(ps: Seq<Seq<char>>) -> Seq<Seq<char>> {
    ps.map_values(|t: Seq<char>| trim(t))
}

/// The tags of a comma separated list, as a new article reads them: the
/// non-empty pieces between commas, in order.
pub open spec fn tag_list(s: Seq<char>) -> Seq<Seq<char>> {
    split_pieces(s, ',').filter(is_nonempty())
}

/// The tags of a comma separated list, as a stored article reads them: the
/// pieces between commas with whitespace trimmed, in order, leaving out
/// those that are empty or a single space.
pub open spec fn trimmed_tag_list(s: Seq<char>) -> Seq<Seq<char>> {
    trim_each(split_pieces(s, ',')).filter(is_kept_tag())
}

/// Splits a comma separated list into its non-empty pieces.
pub fn split_tags(string: String) -> (tags: Vec<String>)
    ensures
        texts(tags@) == tag_list(string@),
{
    let pieces = split_on(string.as_str(), ',');
    let ghost all = char_pieces(pieces@);
    let mut tags: Vec<String> = Vec::new();
    let mut j: usize = 0;
    assert(all.take(0) =~= Seq::<Seq<char>>::empty());
    proof {
        reveal_with_fuel(Seq::<_>::filter, 1);
    }
    assert(texts(tags@) =~= all.take(0).filter(is_nonempty()));
    while j < pieces.len()
        invariant
            j <= pieces.len(),
            all == char_pieces(pieces@),
            texts(tags@) == all.take(j as int).filter(is_nonempty()),
        decreases pieces.len() - j,
    {
        let ghost old_tags = tags@;
        assert(all.take(j + 1) =~= all.take(j as int).push(all[j as int]));
        proof {
            all.take(j as int).lemma_filter_push(all[j as int], is_nonempty());
        }
        if pieces[j].len() > 0 {
            let t = string_of(&pieces[j]);
            tags.push(t);
            assert(texts(tags@) =~= texts(old_tags).push(all[j as int]));
        }
        j = j + 1;
    }
    assert(all.take(pieces.len() as int) =~= all);
    tags
}

impl Article {
    /// Splits a comma separated list into its pieces, trims each, and keeps
    /// those that are neither empty nor a single space.
    pub fn split_tags(string: String) -> (tags: Vec<String>)
        ensures
            texts(tags@) == trimmed_tag_list(string@),
    {
        let pieces = split_on(string.as_str(), ',');
        let ghost all = char_pieces(pieces@);
        let ghost trimmed = trim_each(all);
        let mut tags: Vec<String> = Vec::new();
        let mut j: usize = 0;
        assert(trimmed.take(0) =~= Seq::<Seq<char>>::empty());
        proof {
            reveal_with_fuel(Seq::<_>::filter, 1);
        }
        assert(texts(tags@) =~= trimmed.take(0).filter(is_kept_tag()));
        while j < pieces.len()
            invariant
                j <= pieces.len(),
                all == char_pieces(pieces@),
                trimmed == trim_each(all),
                texts(tags@) == trimmed.take(j as int).filter(is_kept_tag()),
            decreases pieces.len() - j,
        {
            let ghost old_tags = tags@;
            assert(trimmed.take(j + 1) =~= trimmed.take(j as int).push(trimmed[j as int]));
            proof {
                trimmed.take(j as int).lemma_filter_push(trimmed[j as int], is_kept_tag());
            }
            let t = trim_chars(&pieces[j]);
            assert(t@ == trimmed[j as int]);
            let single_space = t.len() == 1 && t[0] == ' ';
            assert(single_space == (t@ == seq![' '])) by {
                if t@.len() == 1 && t@[0] == ' ' {
                    assert(t@ =~= seq![' ']);
                }
            }
            assert((t.len() > 0) == (t@ != Seq::<char>::empty())) by {
                if t@.len() == 0 {
                    assert(t@ =~= Seq::<char>::empty());
                }
            }
            if t.len() > 0 && !single_space {
                let s = string_of(&t);
                tags.push(s);
                assert(texts(tags@) =~= texts(old_tags).push(trimmed[j as int]));
            }
            j = j + 1;
        }
        assert(trimmed.take(pieces.len() as int) =~= trimmed);
        tags
    }
}


// ---------------------------------------------------------------------------
// New articles
// ---------------------------------------------------------------------------

impl ArticleForm {
    /// A form with the given fields.
    pub fn new(title: String, body: String, tags: String) -> (f: ArticleForm)
        ensures
            f.title@ == title@,
            f.body@ == body@,
            f.tags@ == tags@,
    {
        ArticleForm { title, body, tags }
    }

    /// The article that this form describes, not yet numbered (its number
    /// is 0) and posted at `now`.
    pub fn to_article_at(&self, now: Posted) -> (a: Article)
        ensures
            a.aid == 0,
            a.title@ == self.title@,
            a.posted == now,
            a.body@ == self.body@,
            texts(a.tags@) == tag_list(self.tags@),
    {
        let next_aid: u32 = 0;
        Article {
            aid: next_aid,
            title: sanitize_title(self.title.clone()),
            posted: now,
            body: sanitize_body(self.body.clone()),
            tags: split_tags(sanitize_tags(self.tags.clone())),
        }
    }

    /// The article that this form describes, not yet numbered (its number
    /// is 0) and posted now: at a moment read from the local clock.
    pub fn to_article(&self) -> (a: Article)
        ensures
            a.aid == 0,
            a.title@ == self.title@,
            a.body@ == self.body@,
            texts(a.tags@) == tag_list(self.tags@),
            a.wf(),
    {
        self.to_article_at(local_now())
    }
}

// ---------------------------------------------------------------------------
// The text of an article
// ---------------------------------------------------------------------------

/// The entries of a list of strings as pretty `Debug` writes them: each on a
/// line of its own, indented by four spaces and followed by a comma.
pub open spec fn debug_entries(ts: Seq<Seq<char>>) -> Seq<char>
    decreases ts.len(),
{
    if ts.len() == 0 {
        Seq::<char>::empty()
    } else {
        debug_entries(ts.drop_last()) + "    "@ + debug_quoted(ts.last()) + ",\n"@
    }
}

/// A list of strings as pretty `Debug` (`{:#?}`) writes it.
pub open spec fn debug_list(ts: Seq<Seq<char>>) -> Seq<char> {
    if ts.len() == 0 {
        "[]"@
    } else {
        "[\n"@ + debug_entries(ts) + "]"@
    }
}

/// The description of an article shown on its page.
pub open spec fn info_text(
    aid: u32,
    title: Seq<char>,
    posted: Posted,
    body: Seq<char>,
    tags: Seq<Seq<char>>,
) -> Seq<char> {
    "Aid: "@ + decimal(aid as nat) + ", Title: "@ + title + ", Posted on: "@ + posted_text(posted)
        + ", Body:<br>\n"@ + body + "<br>\ntags: "@ + debug_list(tags)
}

/// The tags written as pretty `Debug` writes a list of strings.
fn debug_tag_list(tags: &Vec<String>) -> (r: String)
    ensures
        r@ == debug_list(texts(tags@)),
{
    let ghost ts = texts(tags@);
    let mut r = String::new();
    if tags.len() == 0 {
        r.append("[]");
        assert(r@ =~= "[]"@);
        return r;
    }
    r.append("[\n");
    assert(ts.take(0) =~= Seq::<Seq<char>>::empty());
    assert(r@ =~= "[\n"@ + debug_entries(ts.take(0)));
    let mut i: usize = 0;
    while i < tags.len()
        invariant
            i <= tags.len(),
            ts == texts(tags@),
            r@ == "[\n"@ + debug_entries(ts.take(i as int)),
        decreases tags.len() - i,
    {
        assert(ts.take(i + 1).drop_last() =~= ts.take(i as int));
        assert(ts.take(i + 1).last() == tags@[i as int]@);
        r.append("    ");
        let quoted = debug_text(tags[i].as_str());
        r.append(quoted.as_str());
        r.append(",\n");
        i = i + 1;
    }
    assert(ts.take(tags.len() as int) =~= ts);
    r.append("]");
    r
}

impl Article {
    /// The description of the article shown on its page.
    pub fn info(&self) -> (r: String)
        requires
            self.wf(),
        ensures
            r@ == info_text(self.aid, self.title@, self.posted, self.body@, texts(self.tags@)),
    {
        let mut r = String::new();
        r.append("Aid: ");
        assert(r@ =~= "Aid: "@);
        push_decimal(&mut r, self.aid as u64);
        r.append(", Title: ");
        r.append(self.title.as_str());
        r.append(", Posted on: ");
        let posted = posted_to_text(&self.posted);
        r.append(posted.as_str());
        r.append(", Body:<br>\n");
        r.append(self.body.as_str());
        r.append("<br>\ntags: ");
        let tags = debug_tag_list(&self.tags);
        r.append(tags.as_str());
        r
    }
}


// ---------------------------------------------------------------------------
// Stored articles
// ---------------------------------------------------------------------------

/// The query that looks an article up by its number.
pub open spec fn select_text(aid: u32) -> Seq<char> {
    "SELECT aid, title, posted, body, tags FROM articles WHERE aid = "@ + decimal(aid as nat)
}

/// The query that looks up the article numbered `aid`.
pub fn select_query(aid: u32) -> (q: String)
    ensures
        q@ == select_text(aid),
{
    let mut q = String::new();
    q.append("SELECT aid, title, posted, body, tags FROM articles WHERE aid = ");
    assert(q@ =~= "SELECT aid, title, posted, body, tags FROM articles WHERE aid = "@);
    push_decimal(&mut q, aid as u64);
    q
}

/// One row of the articles table, with the tags as stored: one comma
/// separated string.
#[derive(Debug, Clone)]
pub struct ArticleRow {
    pub aid: u32,
    pub title: String,
    pub posted: Posted,
    pub body: String,
    pub tags: String,
}

impl Article {
    /// The article that a lookup found: there is one exactly when the query
    /// succeeded (`rows` is `Some`) and returned a single row.
    pub fn from_rows(rows: Option<Vec<ArticleRow>>) -> (r: Option<Article>)
        ensures
            r is Some <==> (rows matches Some(v) && v.len() == 1),
            r matches Some(a) ==> rows matches Some(v) && {
                &&& a.aid == v[0].aid
                &&& a.title@ == v[0].title@
                &&& a.posted == v[0].posted
                &&& a.body@ == v[0].body@
                &&& texts(a.tags@) == trimmed_tag_list(v[0].tags@)
            },
    {
        match rows {
            Some(v) => {
                if v.len() == 1 {
                    let row = &v[0];
                    Some(
                        Article {
                            aid: row.aid,
                            title: row.title.clone(),
                            posted: row.posted,
                            body: row.body.clone(),
                            tags: Article::split_tags(row.tags.clone()),
                        },
                    )
                } else {
                    None
                }
            },
            None => None,
        }
    }
}

impl ArticleId {
    /// The query that looks up the article with this number.
    pub fn select_query(&self) -> (q: String)
        ensures
            q@ == select_text(self.aid),
    {
        select_query(self.aid)
    }
}

// ---------------------------------------------------------------------------
// Saving
// ---------------------------------------------------------------------------

/// The query that stores a new article and returns its number.
pub open spec fn insert_text(
    title: Seq<char>,
    posted: Posted,
    body: Seq<char>,
    tags: Seq<char>,
) -> Seq<char> {
    "INSERT INTO articles (title, posted, body, tags) VALUES ('"@ + title + "', '"@ + posted_text(
        posted,
    ) + "', '"@ + body + "', '"@ + tags + "') RETURNING aid"@
}

impl ArticleForm {
    /// The query that stores this form as an article posted at `now`.
    pub fn insert_query(&self, now: &Posted) -> (q: String)
        requires
            now.wf(),
        ensures
            q@ == insert_text(self.title@, *now, self.body@, self.tags@),
    {
        let mut q = String::new();
        q.append("INSERT INTO articles (title, posted, body, tags) VALUES ('");
        assert(q@ =~= "INSERT INTO articles (title, posted, body, tags) VALUES ('"@);
        q.append(self.title.as_str());
        q.append("', '");
        let posted = posted_to_text(now);
        q.append(posted.as_str());
        q.append("', '");
        q.append(self.body.as_str());
        q.append("', '");
        q.append(self.tags.as_str());
        q.append("') RETURNING aid");
        q
    }

    /// The first half of saving: the moment of posting, which is now, and
    /// the query that stores the article with it.
    pub fn prepare_save(&self) -> (r: (Posted, String))
        ensures
            r.0.wf(),
            r.1@ == insert_text(self.title@, r.0, self.body@, self.tags@),
    {
        let now = local_now();
        let q = self.insert_query(&now);
        (now, q)
    }

    /// The second half of saving: what the insert query answered, as the
    /// article stored or the reason it was not. `result` holds the error
    /// message of a failed query, or the numbers in the rows it returned.
    pub fn saved_article(&self, now: Posted, result: Result<Vec<u32>, String>) -> (r: Result<
        Article,
        String,
    >)
        ensures
            match result {
                Err(e) => r matches Err(m) && m@ == "Could not insert article. Error: "@ + e@,
                Ok(ids) => if ids.len() == 1 {
                    r matches Ok(a) && {
                        &&& a.aid == ids[0]
                        &&& a.title@ == self.title@
                        &&& a.posted == now
                        &&& a.body@ == self.body@
                        &&& texts(a.tags@) == trimmed_tag_list(self.tags@)
                    }
                } else if ids.len() == 0 {
                    r matches Err(m) && m@ == "Error inserting article, result is empty."@
                } else {
                    r matches Err(m) && m@ == "Error inserting article, returned "@ + decimal(
                        ids.len() as nat,
                    ) + " rows."@
                },
            },
    {
        match result {
            Err(e) => {
                let mut m = String::new();
                m.append("Could not insert article. Error: ");
                assert(m@ =~= "Could not insert article. Error: "@);
                m.append(e.as_str());
                Err(m)
            },
            Ok(ids) => {
                if ids.len() == 1 {
                    Ok(
                        Article {
                            aid: ids[0],
                            title: self.title.clone(),
                            posted: now,
                            body: self.body.clone(),
                            tags: Article::split_tags(self.tags.clone()),
                        },
                    )
                } else if ids.len() == 0 {
                    let mut m = String::new();
                    m.append("Error inserting article, result is empty.");
                    assert(m@ =~= "Error inserting article, result is empty."@);
                    Err(m)
                } else {
                    let mut m = String::new();
                    m.append("Error inserting article, returned ");
                    assert(m@ =~= "Error inserting article, returned "@);
                    push_decimal(&mut m, ids.len() as u64);
                    m.append(" rows.");
                    Err(m)
                }
            },
        }
    }
}

// ---------------------------------------------------------------------------
// Forms
// ---------------------------------------------------------------------------

/// The names and values of submitted form fields.
pub open spec fn field_texts(items: Seq<(String, String)>) -> Seq<(Seq<char>, Seq<char>)> {
    items.map_values(|p: (String, String)| (p.0@, p.1@))
}

/// The value of the last field called `name`, if there is one.
pub open spec fn last_value(items: Seq<(Seq<char>, Seq<char>)>, name: Seq<char>) -> Option<
    Seq<char>,
>
    decreases items.len(),
{
    if items.len() == 0 {
        None
    } else if items.last().0 == name {
        Some(items.last().1)
    } else {
        last_value(items.drop_last(), name)
    }
}

/// The value of the last field called `name`, or the empty text.
pub open spec fn field_or_empty(items: Seq<(Seq<char>, Seq<char>)>, name: Seq<char>) -> Seq<char> {
    match last_value(items, name) {
        Some(v) => v,
        None => Seq::<char>::empty(),
    }
}

/// The article number that a form names: the value of its last `aid` field
/// read as a `u32`, or 0 where there is none or it does not read as one.
pub open spec fn form_aid(items: Seq<(Seq<char>, Seq<char>)>) -> u32 {
    match last_value(items, "aid"@) {
        Some(v) => match parse_u32_spec(v) {
            Some(n) => n,
            None => 0,
        },
        None => 0,
    }
}

proof fn lemma_last_value_step(
    items: Seq<(Seq<char>, Seq<char>)>,
    i: int,
    name: Seq<char>,
)
    requires
        0 <= i < items.len(),
    ensures
        last_value(items.take(i + 1), name) == if items[i].0 == name {
            Some(items[i].1)
        } else {
            last_value(items.take(i), name)
        },
{
    assert(items.take(i + 1).drop_last() =~= items.take(i));
}

impl ArticleId {
    /// Reads an article number from submitted form fields: the last `aid`
    /// field counts, and a number of 0, or none at all, is refused.
    pub fn from_form(items: &Vec<(String, String)>) -> (r: Result<ArticleId, &'static str>)
        ensures
            r is Ok <==> form_aid(field_texts(items@)) != 0,
            r matches Ok(id) ==> id.aid == form_aid(field_texts(items@)),
            r matches Err(e) ==> e@ == "Invalid user id specified"@,
    {
        let ghost fs = field_texts(items@);
        let mut aid: u32 = 0;
        let mut i: usize = 0;
        assert(fs.take(0) =~= Seq::<(Seq<char>, Seq<char>)>::empty());
        while i < items.len()
            invariant
                i <= items.len(),
                fs == field_texts(items@),
                aid == form_aid(fs.take(i as int)),
            decreases items.len() - i,
        {
            proof {
                lemma_last_value_step(fs, i as int, "aid"@);
            }
            if text_is(items[i].0.as_str(), "aid") {
                aid = match parse_u32(items[i].1.as_str()) {
                    Some(n) => n,
                    None => 0,
                };
            }
            i = i + 1;
        }
        assert(fs.take(items.len() as int) =~= fs);
        if aid == 0 {
            Err("Invalid user id specified")
        } else {
            Ok(ArticleId { aid })
        }
    }
}

impl ArticleForm {
    /// Reads a new article from submitted form fields: the last `title`,
    /// `body` and `tags` fields count, others are ignored, and a form whose
    /// title or body is missing or empty is refused.
    pub fn from_form(items: &Vec<(String, String)>) -> (r: Result<ArticleForm, &'static str>)
        ensures
            ({
                let fs = field_texts(items@);
                &&& r is Ok <==> (field_or_empty(fs, "title"@).len() > 0 && field_or_empty(
                    fs,
                    "body"@,
                ).len() > 0)
                &&& r matches Ok(f) ==> {
                    &&& f.title@ == field_or_empty(fs, "title"@)
                    &&& f.body@ == field_or_empty(fs, "body"@)
                    &&& f.tags@ == field_or_empty(fs, "tags"@)
                }
                &&& r matches Err(e) ==> e@ == "Missing a required field."@
            }),
    {
        let ghost fs = field_texts(items@);
        let mut title = String::new();
        let mut body = String::new();
        let mut tags = String::new();
        let mut i: usize = 0;
        assert(fs.take(0) =~= Seq::<(Seq<char>, Seq<char>)>::empty());
        while i < items.len()
            invariant
                i <= items.len(),
                fs == field_texts(items@),
                title@ == field_or_empty(fs.take(i as int), "title"@),
                body@ == field_or_empty(fs.take(i as int), "body"@),
                tags@ == field_or_empty(fs.take(i as int), "tags"@),
            decreases items.len() - i,
        {
            proof {
                lemma_last_value_step(fs, i as int, "title"@);
                lemma_last_value_step(fs, i as int, "body"@);
                lemma_last_value_step(fs, i as int, "tags"@);
                reveal_strlit("title");
                reveal_strlit("body");
                reveal_strlit("tags");
                assert("title"@.len() != "body"@.len());
                assert("title"@.len() != "tags"@.len());
                assert("body"@[0] != "tags"@[0]);
            }
            let field = items[i].0.as_str();
            if text_is(field, "title") {
                title = sanitize_title(items[i].1.clone());
            } else if text_is(field, "body") {
                body = sanitize_body(items[i].1.clone());
            } else if text_is(field, "tags") {
                tags = sanitize_tags(items[i].1.clone());
            }
            i = i + 1;
        }
        assert(fs.take(items.len() as int) =~= fs);
        if title.as_str().is_empty() || body.as_str().is_empty() {
            Err("Missing a required field.")
        } else {
            Ok(ArticleForm::new(title, body, tags))
        }
    }
}

} // verus!
