//! What holds of the blog's text formats for every input: tags never hold a
//! separator, a list of tags written with commas reads back as itself, and
//! an article number written in decimal reads back as itself.
use crate::blog::{form_aid, is_kept_tag, is_nonempty, tag_list, trim_each, trimmed_tag_list};
use crate::text::{
    all_digits, decimal, digit_char, digits_value, is_digit, lemma_split_pieces_nonempty,
    parse_u32_spec, split_pieces, trim, trim_end, trim_start, unsigned_digits,
};
use vstd::prelude::*;

verus! {

/// Tags written one after another with a comma between each two.
pub open spec fn join_tags(ts: Seq<Seq<char>>) -> Seq<char>
    decreases ts.len(),
{
    if ts.len() == 0 {
        Seq::<char>::empty()
    } else if ts.len() == 1 {
        ts[0]
    } else {
        join_tags(ts.drop_last()).push(',') + ts.last()
    }
}

// ---------------------------------------------------------------------------
// Splitting
// ---------------------------------------------------------------------------

proof fn lemma_split_append_free(x: Seq<char>, t: Seq<char>, sep: char)
    requires
        !t.contains(sep),
    ensures
        split_pieces(x + t, sep) == split_pieces(x, sep).update(
            split_pieces(x, sep).len() - 1,
            split_pieces(x, sep).last() + t,
        ),
    decreases t.len(),
{
    lemma_split_pieces_nonempty(x, sep);
    let s = split_pieces(x, sep);
    if t.len() == 0 {
        assert(x + t =~= x);
        assert(s.last() + t =~= s.last());
        assert(s.update(s.len() - 1, s.last()) =~= s);
    } else {
        let t2 = t.drop_last();
        let c = t.last();
        assert(t[t.len() - 1] == c);
        assert(!t2.contains(sep)) by {
            if t2.contains(sep) {
                let k = choose|k: int| 0 <= k < t2.len() && t2[k] == sep;
                assert(t[k] == sep);
            }
        }
        lemma_split_append_free(x, t2, sep);
        assert((x + t).drop_last() =~= x + t2);
        assert((x + t).last() == c);
        assert((s.last() + t2).push(c) =~= s.last() + t);
        let r2 = split_pieces(x + t2, sep);
        assert(split_pieces(x + t, sep) == r2.update(r2.len() - 1, r2.last().push(c)));
        assert(r2.update(r2.len() - 1, r2.last().push(c)) =~= s.update(
            s.len() - 1,
            s.last() + t,
        ));
    }
}

proof fn lemma_split_push_sep(x: Seq<char>, sep: char)
    ensures
        split_pieces(x.push(sep), sep) == split_pieces(x, sep).push(Seq::<char>::empty()),
{
    assert(x.push(sep).drop_last() =~= x);
}

proof fn lemma_split_join(ts: Seq<Seq<char>>)
    requires
        ts.len() >= 1,
        forall|i: int| 0 <= i < ts.len() ==> !(#[trigger] ts[i]).contains(','),
    ensures
        split_pieces(join_tags(ts), ',') == ts,
    decreases ts.len(),
{
    let e = Seq::<char>::empty();
    if ts.len() == 1 {
        lemma_split_append_free(e, ts[0], ',');
        assert(e + ts[0] =~= ts[0]);
        assert(split_pieces(e, ',') =~= seq![e]);
        assert(seq![e].update(0, e + ts[0]) =~= ts);
    } else {
        let rest = ts.drop_last();
        assert forall|i: int| 0 <= i < rest.len() implies !(#[trigger] rest[i]).contains(',') by {
            assert(rest[i] == ts[i]);
        }
        lemma_split_join(rest);
        let j = join_tags(rest);
        assert(!ts.last().contains(',')) by {
            assert(ts[ts.len() - 1] == ts.last());
        }
        lemma_split_push_sep(j, ',');
        lemma_split_append_free(j.push(','), ts.last(), ',');
        let s = rest.push(e);
        assert(e + ts.last() =~= ts.last());
        assert(s.update(s.len() - 1, s.last() + ts.last()) =~= ts);
    }
}

proof fn lemma_pieces_free(s: Seq<char>, sep: char)
    ensures
        forall|i: int|
            0 <= i < split_pieces(s, sep).len() ==> !(#[trigger] split_pieces(s, sep)[i]).contains(
                sep,
            ),
    decreases s.len(),
{
    if s.len() > 0 {
        lemma_pieces_free(s.drop_last(), sep);
        lemma_split_pieces_nonempty(s.drop_last(), sep);
        let rest = split_pieces(s.drop_last(), sep);
        let ps = split_pieces(s, sep);
        if s.last() == sep {
            assert forall|i: int| 0 <= i < ps.len() implies !(#[trigger] ps[i]).contains(sep) by {
                if i < rest.len() {
                    assert(ps[i] == rest[i]);
                } else {
                    assert(ps[i] == Seq::<char>::empty());
                }
            }
        } else {
            assert forall|i: int| 0 <= i < ps.len() implies !(#[trigger] ps[i]).contains(sep) by {
                if i < rest.len() - 1 {
                    assert(ps[i] == rest[i]);
                } else {
                    let p = rest[rest.len() - 1];
                    assert(!p.contains(sep));
                    assert(ps[i] == p.push(s.last()));
                    if ps[i].contains(sep) {
                        let k = choose|k: int| 0 <= k < ps[i].len() && ps[i][k] == sep;
                        if k < p.len() {
                            assert(p[k] == sep);
                        }
                    }
                }
            }
        }
    }
}

proof fn lemma_filter_all(ts: Seq<Seq<char>>, pred: spec_fn(Seq<char>) -> bool)
    requires
        forall|i: int| 0 <= i < ts.len() ==> pred(#[trigger] ts[i]),
    ensures
        ts.filter(pred) == ts,
    decreases ts.len(),
{
    reveal_with_fuel(Seq::<_>::filter, 1);
    if ts.len() > 0 {
        let rest = ts.drop_last();
        assert forall|i: int| 0 <= i < rest.len() implies pred(#[trigger] rest[i]) by {
            assert(rest[i] == ts[i]);
        }
        lemma_filter_all(rest, pred);
        assert(pred(ts[ts.len() - 1]));
        assert(rest.push(ts.last()) =~= ts);
    }
}

proof fn lemma_filter_agree(
    ts: Seq<Seq<char>>,
    p: spec_fn(Seq<char>) -> bool,
    q: spec_fn(Seq<char>) -> bool,
)
    requires
        forall|i: int| 0 <= i < ts.len() ==> p(#[trigger] ts[i]) == q(ts[i]),
    ensures
        ts.filter(p) == ts.filter(q),
    decreases ts.len(),
{
    reveal_with_fuel(Seq::<_>::filter, 1);
    if ts.len() > 0 {
        let rest = ts.drop_last();
        assert forall|i: int| 0 <= i < rest.len() implies p(#[trigger] rest[i]) == q(rest[i]) by {
            assert(rest[i] == ts[i]);
        }
        lemma_filter_agree(rest, p, q);
        assert(p(ts[ts.len() - 1]) == q(ts[ts.len() - 1]));
    }
}

// ---------------------------------------------------------------------------
// Trimming
// ---------------------------------------------------------------------------

proof fn lemma_trim_start_within(s: Seq<char>, c: char)
    ensures
        trim_start(s).contains(c) ==> s.contains(c),
    decreases s.len(),
{
    if s.len() > 0 && crate::text::white_space(s[0]) {
        lemma_trim_start_within(s.drop_first(), c);
        if s.drop_first().contains(c) {
            let k = choose|k: int| 0 <= k < s.drop_first().len() && s.drop_first()[k] == c;
            assert(s[k + 1] == c);
        }
    }
}

proof fn lemma_trim_end_within(s: Seq<char>, c: char)
    ensures
        trim_end(s).contains(c) ==> s.contains(c),
    decreases s.len(),
{
    if s.len() > 0 && crate::text::white_space(s.last()) {
        lemma_trim_end_within(s.drop_last(), c);
        if s.drop_last().contains(c) {
            let k = choose|k: int| 0 <= k < s.drop_last().len() && s.drop_last()[k] == c;
            assert(s[k] == c);
        }
    }
}

proof fn lemma_trim_start_first(x: Seq<char>)
    ensures
        trim_start(x).len() > 0 ==> !crate::text::white_space(trim_start(x)[0]),
        trim_start(trim_start(x)) == trim_start(x),
    decreases x.len(),
{
    if x.len() > 0 && crate::text::white_space(x[0]) {
        lemma_trim_start_first(x.drop_first());
    }
}

proof fn lemma_trim_end_shape(x: Seq<char>)
    ensures
        trim_end(x).len() <= x.len(),
        trim_end(x) =~= x.take(trim_end(x).len() as int),
        trim_end(x).len() > 0 ==> !crate::text::white_space(trim_end(x).last()),
        trim_end(trim_end(x)) == trim_end(x),
    decreases x.len(),
{
    if x.len() > 0 && crate::text::white_space(x.last()) {
        lemma_trim_end_shape(x.drop_last());
        let y = trim_end(x.drop_last());
        assert(x.drop_last().take(y.len() as int) =~= x.take(y.len() as int));
    } else {
        assert(x.take(x.len() as int) =~= x);
    }
}

/// Trimmed text has no whitespace at either end, so trimming it again
/// leaves it as it is, and it is never a single space.
proof fn lemma_trim_trimmed(x: Seq<char>)
    ensures
        trim(trim(x)) == trim(x),
        trim(x).len() > 0 ==> !crate::text::white_space(trim(x)[0]),
        trim(x) != seq![' '],
{
    let z = trim_start(x);
    let y = trim_end(z);
    lemma_trim_start_first(x);
    lemma_trim_end_shape(z);
    if y.len() > 0 {
        assert(y[0] == z[0]);
        assert(trim_start(y) == y);
    } else {
        assert(trim_start(y) == y);
    }
    assert(trim(y) == trim_end(y));
    if y == seq![' '] {
        assert(crate::text::white_space(y[0]));
    }
}

/// Trimming nothing gives nothing.
proof fn lemma_trim_empty()
    ensures
        trim(Seq::<char>::empty()) == Seq::<char>::empty(),
{
}

proof fn lemma_trimmed_filter(ps: Seq<Seq<char>>)
    ensures
        trim_each(ps).filter(is_kept_tag()) == trim_each(ps.filter(is_nonempty())).filter(
            is_nonempty(),
        ),
    decreases ps.len(),
{
    reveal_with_fuel(Seq::<_>::filter, 1);
    if ps.len() == 0 {
        assert(trim_each(ps) =~= Seq::<Seq<char>>::empty());
        assert(ps.filter(is_nonempty()) =~= Seq::<Seq<char>>::empty());
        assert(trim_each(Seq::<Seq<char>>::empty()) =~= Seq::<Seq<char>>::empty());
    } else {
        let q = ps.drop_last();
        let p = ps.last();
        lemma_trimmed_filter(q);
        assert(q.push(p) =~= ps);
        assert(trim_each(ps) =~= trim_each(q).push(trim(p)));
        trim_each(q).lemma_filter_push(trim(p), is_kept_tag());
        q.lemma_filter_push(p, is_nonempty());
        let fq = q.filter(is_nonempty());
        assert(trim_each(fq.push(p)) =~= trim_each(fq).push(trim(p)));
        trim_each(fq).lemma_filter_push(trim(p), is_nonempty());
        lemma_trim_trimmed(p);
        lemma_trim_empty();
        if p.len() == 0 {
            assert(p =~= Seq::<char>::empty());
        }
        if trim(p).len() == 0 {
            assert(trim(p) =~= Seq::<char>::empty());
        }
    }
}

// ---------------------------------------------------------------------------
// Laws of tags
// ---------------------------------------------------------------------------

/// Every tag that a new article reads from a comma separated list is
/// non-empty and holds no comma.
pub proof fn tags_are_nonempty_and_comma_free(s: Seq<char>)
    ensures
        forall|i: int|
            0 <= i < tag_list(s).len() ==> (#[trigger] tag_list(s)[i]).len() > 0 && !tag_list(
                s,
            )[i].contains(','),
{
    let ps = split_pieces(s, ',');
    lemma_pieces_free(s, ',');
    assert forall|i: int| 0 <= i < tag_list(s).len() implies (#[trigger] tag_list(s)[i]).len() > 0
        && !tag_list(s)[i].contains(',') by {
        ps.lemma_filter_pred(is_nonempty(), i);
        let t = ps.filter(is_nonempty())[i];
        assert(ps.filter(is_nonempty()).contains(t));
        ps.lemma_filter_contains_rev(is_nonempty(), t);
        let k = choose|k: int| 0 <= k < ps.len() && ps[k] == t;
        assert(!ps[k].contains(','));
    }
}

/// Every tag that a stored article reads from a comma separated list holds
/// no comma, and is neither empty nor a single space.
pub proof fn stored_tags_are_kept_and_comma_free(s: Seq<char>)
    ensures
        forall|i: int|
            0 <= i < trimmed_tag_list(s).len() ==> {
                let t = #[trigger] trimmed_tag_list(s)[i];
                &&& t != Seq::<char>::empty()
                &&& t != seq![' ']
                &&& !t.contains(',')
            },
{
    let ps = split_pieces(s, ',');
    let tr = trim_each(ps);
    lemma_pieces_free(s, ',');
    assert forall|i: int| 0 <= i < trimmed_tag_list(s).len() implies {
        let t = #[trigger] trimmed_tag_list(s)[i];
        &&& t != Seq::<char>::empty()
        &&& t != seq![' ']
        &&& !t.contains(',')
    } by {
        tr.lemma_filter_pred(is_kept_tag(), i);
        let t = tr.filter(is_kept_tag())[i];
        assert(tr.filter(is_kept_tag()).contains(t));
        tr.lemma_filter_contains_rev(is_kept_tag(), t);
        let k = choose|k: int| 0 <= k < tr.len() && tr[k] == t;
        assert(t == trim(ps[k]));
        assert(!ps[k].contains(','));
        lemma_trim_end_within(trim_start(ps[k]), ',');
        lemma_trim_start_within(ps[k], ',');
    }
}

/// A list of tags, each non-empty and without a comma, written with commas
/// between them, is read back by a new article as the same list.
pub proof fn joined_tags_read_back(ts: Seq<Seq<char>>)
    requires
        forall|i: int|
            0 <= i < ts.len() ==> (#[trigger] ts[i]).len() > 0 && !ts[i].contains(','),
    ensures
        tag_list(join_tags(ts)) == ts,
{
    if ts.len() == 0 {
        reveal_with_fuel(Seq::<_>::filter, 2);
        assert(split_pieces(Seq::<char>::empty(), ',') =~= seq![Seq::<char>::empty()]);
        assert(seq![Seq::<char>::empty()].drop_last() =~= Seq::<Seq<char>>::empty());
        assert(tag_list(join_tags(ts)) =~= ts);
    } else {
        lemma_split_join(ts);
        lemma_filter_all(ts, is_nonempty());
    }
}

/// A list of tags, each non-empty, without a comma and without whitespace
/// at either end, written with commas between them, is read back by a
/// stored article as the same list.
pub proof fn joined_tags_read_back_when_stored(ts: Seq<Seq<char>>)
    requires
        forall|i: int|
            0 <= i < ts.len() ==> {
                &&& trim(#[trigger] ts[i]) == ts[i]
                &&& ts[i] != Seq::<char>::empty()
                &&& !ts[i].contains(',')
            },
    ensures
        trimmed_tag_list(join_tags(ts)) == ts,
{
    if ts.len() == 0 {
        reveal_with_fuel(Seq::<_>::filter, 2);
        let e = Seq::<char>::empty();
        assert(split_pieces(e, ',') =~= seq![e]);
        assert(trim_each(seq![e]) =~= seq![trim(e)]);
        assert(trim(e) == e);
        assert(seq![e].drop_last() =~= Seq::<Seq<char>>::empty());
        assert(trimmed_tag_list(join_tags(ts)) =~= ts);
    } else {
        lemma_split_join(ts);
        assert(trim_each(ts) =~= ts);
        assert forall|i: int| 0 <= i < ts.len() implies is_kept_tag()(#[trigger] ts[i]) by {
            lemma_trim_trimmed(ts[i]);
        }
        lemma_filter_all(ts, is_kept_tag());
    }
}

/// Where no piece of a comma separated list has whitespace at either end,
/// a new article and a stored one read the same tags from it.
pub proof fn new_and_stored_tags_agree(s: Seq<char>)
    requires
        forall|i: int|
            0 <= i < split_pieces(s, ',').len() ==> trim(#[trigger] split_pieces(s, ',')[i])
                == split_pieces(s, ',')[i],
    ensures
        tag_list(s) == trimmed_tag_list(s),
{
    let ps = split_pieces(s, ',');
    assert(trim_each(ps) =~= ps);
    assert forall|i: int| 0 <= i < ps.len() implies is_nonempty()(#[trigger] ps[i])
        == is_kept_tag()(ps[i]) by {
        if ps[i].len() == 0 {
            assert(ps[i] =~= Seq::<char>::empty());
        }
        lemma_trim_trimmed(ps[i]);
    }
    lemma_filter_agree(ps, is_nonempty(), is_kept_tag());
}

/// A stored article reads the tags that a new article reads, each trimmed,
/// leaving out those that trimming empties.
pub proof fn stored_tags_are_trimmed_new_tags(s: Seq<char>)
    ensures
        trimmed_tag_list(s) == trim_each(tag_list(s)).filter(is_nonempty()),
{
    lemma_trimmed_filter(split_pieces(s, ','));
}

/// The tags that a stored article reads, written back with commas between
/// them, are read back by a stored article as the same tags.
pub proof fn stored_tags_read_back(s: Seq<char>)
    ensures
        trimmed_tag_list(join_tags(trimmed_tag_list(s))) == trimmed_tag_list(s),
{
    let ts = trimmed_tag_list(s);
    stored_tags_are_kept_and_comma_free(s);
    let ps = split_pieces(s, ',');
    assert forall|i: int| 0 <= i < ts.len() implies {
        &&& trim(#[trigger] ts[i]) == ts[i]
        &&& ts[i] != Seq::<char>::empty()
        &&& !ts[i].contains(',')
    } by {
        let tr = trim_each(ps);
        tr.lemma_filter_pred(is_kept_tag(), i);
        assert(tr.filter(is_kept_tag()).contains(ts[i]));
        tr.lemma_filter_contains_rev(is_kept_tag(), ts[i]);
        let k = choose|k: int| 0 <= k < tr.len() && tr[k] == ts[i];
        lemma_trim_trimmed(ps[k]);
    }
    joined_tags_read_back_when_stored(ts);
}

// ---------------------------------------------------------------------------
// Laws of article numbers
// ---------------------------------------------------------------------------

pub(crate) proof fn lemma_decimal_digits(n: nat)
    ensures
        decimal(n).len() > 0,
        all_digits(decimal(n)),
        digits_value(decimal(n)) == n,
        is_digit(decimal(n)[0]),
    decreases n,
{
    if n < 10 {
        let c = digit_char(n);
        assert(decimal(n) == seq![c]);
        assert(seq![c].drop_last() =~= Seq::<char>::empty());
        assert(c as int == n + 48);
        assert(digits_value(seq![c]) == digits_value(Seq::<char>::empty()) * 10 + crate::text::digit_value(c));
    } else {
        lemma_decimal_digits(n / 10);
        let d = decimal(n / 10);
        let c = digit_char(n % 10);
        assert(decimal(n) == d.push(c));
        assert(d.push(c).drop_last() =~= d);
        assert(d.push(c)[0] == d[0]);
        assert(c as int == n % 10 + 48);
        assert(digits_value(d.push(c)) == digits_value(d) * 10 + crate::text::digit_value(c));
        assert(n == (n / 10) * 10 + n % 10);
        assert forall|i: int| 0 <= i < d.push(c).len() implies is_digit(#[trigger] d.push(c)[i]) by {
            if i < d.len() {
                assert(d.push(c)[i] == d[i]);
            }
        }
    }
}

/// The decimal notation of an article number, as the blog writes it into
/// its pages and queries, reads back as that number.
pub proof fn decimal_reads_back(n: u32)
    ensures
        parse_u32_spec(decimal(n as nat)) == Some(n),
{
    lemma_decimal_digits(n as nat);
    assert(unsigned_digits(decimal(n as nat)) == decimal(n as nat));
}

/// A form whose only field is `aid`, holding the decimal notation of an
/// article number, names that article.
pub proof fn form_names_written_number(n: u32)
    ensures
        form_aid(seq![("aid"@, decimal(n as nat))]) == n,
{
    decimal_reads_back(n);
    let items = seq![("aid"@, decimal(n as nat))];
    assert(items.last() == ("aid"@, decimal(n as nat)));
}

// ---------------------------------------------------------------------------
// Laws of splitting and trimming
// ---------------------------------------------------------------------------

proof fn lemma_join_update_last(ps: Seq<Seq<char>>, x: Seq<char>)
    requires
        ps.len() >= 1,
    ensures
        join_tags(ps.update(ps.len() - 1, x)) == (if ps.len() == 1 {
            x
        } else {
            join_tags(ps.drop_last()).push(',') + x
        }),
{
    let u = ps.update(ps.len() - 1, x);
    assert(u.drop_last() =~= ps.drop_last());
    assert(u.last() == x);
    if ps.len() == 1 {
        assert(u[0] == x);
    }
}

/// Writing the pieces of a text between commas back with commas between
/// them gives the text itself, and no piece holds a comma: splitting loses
/// and adds nothing.
pub proof fn split_then_join_gives_back(s: Seq<char>)
    ensures
        join_tags(split_pieces(s, ',')) == s,
        forall|i: int|
            0 <= i < split_pieces(s, ',').len() ==> !(#[trigger] split_pieces(s, ',')[i]).contains(
                ',',
            ),
    decreases s.len(),
{
    lemma_pieces_free(s, ',');
    if s.len() == 0 {
        assert(split_pieces(s, ',') =~= seq![Seq::<char>::empty()]);
        assert(join_tags(seq![Seq::<char>::empty()]) == Seq::<char>::empty());
        assert(s =~= Seq::<char>::empty());
    } else {
        let rest_s = s.drop_last();
        split_then_join_gives_back(rest_s);
        lemma_split_pieces_nonempty(rest_s, ',');
        let rest = split_pieces(rest_s, ',');
        let c = s.last();
        if c == ',' {
            let ps = rest.push(Seq::<char>::empty());
            assert(ps.drop_last() =~= rest);
            assert(join_tags(ps) == join_tags(rest).push(',') + Seq::<char>::empty());
            assert(rest_s.push(',') + Seq::<char>::empty() =~= s);
        } else {
            let x = rest.last().push(c);
            lemma_join_update_last(rest, x);
            if rest.len() == 1 {
                assert(join_tags(rest) == rest[0]);
                assert(rest[0] == rest.last());
                assert(x =~= s);
            } else {
                assert(join_tags(rest) == join_tags(rest.drop_last()).push(',') + rest.last());
                assert(join_tags(rest.drop_last()).push(',') + x =~= (join_tags(
                    rest.drop_last(),
                ).push(',') + rest.last()).push(c));
                assert(rest_s.push(c) =~= s);
            }
        }
    }
}

/// Trimming removes whitespace from the two ends and nothing else: the
/// result is a run of the text's characters, everything before and after it
/// is whitespace, and it neither starts nor ends with whitespace.
pub proof fn trim_removes_only_outer_whitespace(x: Seq<char>)
    ensures
        exists|i: int, j: int|
            #![trigger x.subrange(i, j)]
            {
                &&& 0 <= i <= j <= x.len()
                &&& trim(x) == x.subrange(i, j)
                &&& forall|k: int| 0 <= k < i ==> crate::text::white_space(#[trigger] x[k])
                &&& forall|k: int| j <= k < x.len() ==> crate::text::white_space(#[trigger] x[k])
                &&& i < j ==> !crate::text::white_space(x[i]) && !crate::text::white_space(x[j - 1])
            },
{
    let (i, z) = lemma_trim_start_run(x);
    lemma_trim_end_shape(z);
    lemma_trim_start_first(x);
    let y = trim_end(z);
    let j = i + y.len();
    assert(z =~= x.subrange(i, x.len() as int));
    assert(y =~= x.subrange(i, j));
    let (m, w) = lemma_trim_end_run(z);
    assert(w == y);
    assert forall|k: int| j <= k < x.len() implies crate::text::white_space(#[trigger] x[k]) by {
        assert(x[k] == z[k - i]);
    }
    if i < j {
        assert(x[i] == y[0]);
        assert(x[j - 1] == y.last());
    }
    assert(x.subrange(i, j) == trim(x));
}

proof fn lemma_trim_start_run(x: Seq<char>) -> (r: (int, Seq<char>))
    ensures
        0 <= r.0 <= x.len(),
        r.1 == trim_start(x),
        r.1 =~= x.subrange(r.0, x.len() as int),
        forall|k: int| 0 <= k < r.0 ==> crate::text::white_space(#[trigger] x[k]),
    decreases x.len(),
{
    if x.len() > 0 && crate::text::white_space(x[0]) {
        let (i, z) = lemma_trim_start_run(x.drop_first());
        assert forall|k: int| 0 <= k < i + 1 implies crate::text::white_space(#[trigger] x[k]) by {
            if k > 0 {
                assert(x[k] == x.drop_first()[k - 1]);
            }
        }
        (i + 1, z)
    } else {
        (0, x)
    }
}

proof fn lemma_trim_end_run(x: Seq<char>) -> (r: (int, Seq<char>))
    ensures
        0 <= r.0 <= x.len(),
        r.1 == trim_end(x),
        r.1 =~= x.subrange(0, r.0),
        forall|k: int| r.0 <= k < x.len() ==> crate::text::white_space(#[trigger] x[k]),
    decreases x.len(),
{
    if x.len() > 0 && crate::text::white_space(x.last()) {
        let (j, z) = lemma_trim_end_run(x.drop_last());
        assert forall|k: int| j <= k < x.len() implies crate::text::white_space(#[trigger] x[k]) by {
            if k < x.len() - 1 {
                assert(x[k] == x.drop_last()[k]);
            }
        }
        (j, z)
    } else {
        (x.len() as int, x)
    }
}

} // verus!
