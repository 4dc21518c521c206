use vstd::prelude::*;

use crate::model::SearchResultItem;
use crate::text::{
    chars_eq, chars_of, has_prefix, has_prefix_range, to_lower, push_str, str_eq,
    str_to_lowercase,
};

verus! {

/// Lexicographic order on texts, character by character (the order of
/// `String`'s `cmp`, since UTF-8 keeps the order of code points).
pub open spec fn text_lt(a: Seq<char>, b: Seq<char>) -> bool
    decreases a.len(),
{
    if a.len() == 0 {
        b.len() > 0
    } else if b.len() == 0 {
        false
    } else if a[0] != b[0] {
        a[0] < b[0]
    } else {
        text_lt(a.drop_first(), b.drop_first())
    }
}

pub proof fn lemma_text_lt_irreflexive(a: Seq<char>)
    ensures
        !text_lt(a, a),
    decreases a.len(),
{
    if a.len() > 0 {
        lemma_text_lt_irreflexive(a.drop_first());
    }
}

pub proof fn lemma_text_lt_total(a: Seq<char>, b: Seq<char>)
    ensures
        text_lt(a, b) || a == b || text_lt(b, a),
    decreases a.len(),
{
    if a.len() > 0 && b.len() > 0 && a[0] == b[0] {
        lemma_text_lt_total(a.drop_first(), b.drop_first());
        if a.drop_first() == b.drop_first() {
            assert(a == seq![a[0]] + a.drop_first());
            assert(b == seq![b[0]] + b.drop_first());
        }
    } else if a.len() == 0 && b.len() == 0 {
        assert(a == b);
    }
}

pub proof fn lemma_text_lt_transitive(a: Seq<char>, b: Seq<char>, c: Seq<char>)
    requires
        text_lt(a, b),
        text_lt(b, c),
    ensures
        text_lt(a, c),
    decreases a.len(),
{
    if a.len() > 0 && a[0] == b[0] && b[0] == c[0] {
        lemma_text_lt_transitive(a.drop_first(), b.drop_first(), c.drop_first());
    }
}

pub proof fn lemma_text_lt_asymmetric(a: Seq<char>, b: Seq<char>)
    requires
        text_lt(a, b),
    ensures
        !text_lt(b, a),
{
    if text_lt(b, a) {
        lemma_text_lt_transitive(a, b, a);
        lemma_text_lt_irreflexive(a);
    }
}

/// The sort key of a search result: its score, the rank of its row, and its
/// lower-case title.
pub struct RankKey {
    pub score: int,
    pub rank: int,
    pub title: Seq<char>,
}

/// Order of sort keys: by score, then rank, then title.
pub open spec fn key_lt(a: RankKey, b: RankKey) -> bool {
    ||| a.score < b.score
    ||| a.score == b.score && a.rank < b.rank
    ||| a.score == b.score && a.rank == b.rank && text_lt(a.title, b.title)
}

pub proof fn lemma_key_lt_irreflexive(a: RankKey)
    ensures
        !key_lt(a, a),
{
    lemma_text_lt_irreflexive(a.title);
}

pub proof fn lemma_key_lt_total(a: RankKey, b: RankKey)
    ensures
        key_lt(a, b) || a == b || key_lt(b, a),
{
    lemma_text_lt_total(a.title, b.title);
}

pub proof fn lemma_key_lt_transitive(a: RankKey, b: RankKey, c: RankKey)
    requires
        key_lt(a, b),
        key_lt(b, c),
    ensures
        key_lt(a, c),
{
    if a.score == b.score && b.score == c.score && a.rank == b.rank && b.rank == c.rank {
        lemma_text_lt_transitive(a.title, b.title, c.title);
    }
}

/// `i` comes before `j` when its key is smaller, or the keys are equal and
/// `i` came first (a stable sort).
pub open spec fn before(keys: Seq<RankKey>, i: int, j: int) -> bool {
    key_lt(keys[i], keys[j]) || (keys[i] == keys[j] && i < j)
}

proof fn lemma_before_transitive(keys: Seq<RankKey>, i: int, j: int, k: int)
    requires
        before(keys, i, j),
        before(keys, j, k),
    ensures
        before(keys, i, k),
{
    if key_lt(keys[i], keys[j]) && key_lt(keys[j], keys[k]) {
        lemma_key_lt_transitive(keys[i], keys[j], keys[k]);
    }
}

/// `p` lists the positions of `keys` in stable sorted order: it holds each
/// position once and orders them by `before`.
pub open spec fn is_stable_order(keys: Seq<RankKey>, p: Seq<usize>) -> bool {
    &&& p.len() == keys.len()
    &&& forall|i: int| 0 <= i < p.len() ==> #[trigger] p[i] < keys.len()
    &&& forall|a: int, b: int|
        0 <= a < b < p.len() ==> before(keys, #[trigger] p[a] as int, #[trigger] p[b] as int)
}

proof fn lemma_before_asymmetric(keys: Seq<RankKey>, i: int, j: int)
    ensures
        !(before(keys, i, j) && before(keys, j, i)),
{
    if before(keys, i, j) && before(keys, j, i) {
        lemma_before_transitive(keys, i, j, i);
        lemma_key_lt_irreflexive(keys[i]);
    }
}

/// Every position of `keys` occurs in a stable order of them.
proof fn lemma_stable_order_covers(keys: Seq<RankKey>, p: Seq<usize>, v: int)
    requires
        is_stable_order(keys, p),
        0 <= v < keys.len(),
    ensures
        exists|i: int| 0 <= i < p.len() && p[i] as int == v,
{
    let pi = p.map_values(|x: usize| x as int);
    assert forall|a: int, b: int| 0 <= a < p.len() && 0 <= b < p.len() && a != b implies pi[a]
        != pi[b] by {
        if pi[a] == pi[b] {
            if a < b {
                assert(before(keys, p[a] as int, p[b] as int));
            } else {
                assert(before(keys, p[b] as int, p[a] as int));
            }
            lemma_key_lt_irreflexive(keys[p[a] as int]);
        }
    }
    assert(pi.no_duplicates());
    pi.unique_seq_to_set();
    let range = vstd::set_lib::set_int_range(0, keys.len() as int);
    vstd::set_lib::lemma_int_range(0, keys.len() as int);
    assert(pi.to_set().subset_of(range)) by {
        assert forall|x: int| pi.to_set().contains(x) implies range.contains(x) by {
            let i = choose|i: int| 0 <= i < pi.len() && pi[i] == x;
            assert(p[i] < keys.len());
        }
    }
    vstd::set_lib::lemma_len_subset(pi.to_set(), range);
    vstd::set_lib::lemma_subset_equality(pi.to_set(), range);
    assert(range.contains(v));
    assert(pi.to_set().contains(v));
    let i = choose|i: int| 0 <= i < pi.len() && pi[i] == v;
    assert(p[i] as int == v);
}

proof fn lemma_stable_orders_agree_upto(keys: Seq<RankKey>, p: Seq<usize>, q: Seq<usize>, i: int)
    requires
        is_stable_order(keys, p),
        is_stable_order(keys, q),
        0 <= i < p.len(),
    ensures
        forall|m: int| 0 <= m <= i ==> p[m] == q[m],
    decreases i,
{
    if i > 0 {
        lemma_stable_orders_agree_upto(keys, p, q, i - 1);
    }
    let x = p[i];
    let y = q[i];
    if x != y {
        lemma_stable_order_covers(keys, q, x as int);
        lemma_stable_order_covers(keys, p, y as int);
        let j = choose|j: int| 0 <= j < q.len() && q[j] as int == x as int;
        let k = choose|k: int| 0 <= k < p.len() && p[k] as int == y as int;
        if j < i {
            assert(p[j] == q[j]);
            assert(before(keys, p[j] as int, p[i] as int));
            lemma_key_lt_irreflexive(keys[x as int]);
        } else if k < i {
            assert(p[k] == q[k]);
            assert(before(keys, q[k] as int, q[i] as int));
            lemma_key_lt_irreflexive(keys[y as int]);
        } else {
            assert(j > i && k > i);
            assert(before(keys, q[i] as int, q[j] as int));
            assert(before(keys, p[i] as int, p[k] as int));
            lemma_before_asymmetric(keys, x as int, y as int);
        }
    }
}

/// The ranking is fully determined: two stable orders of the same keys are
/// the same order. (So the ranking of search rows depends on the rows and
/// the query alone.)
pub proof fn law_stable_order_unique(keys: Seq<RankKey>, p: Seq<usize>, q: Seq<usize>)
    requires
        is_stable_order(keys, p),
        is_stable_order(keys, q),
    ensures
        p == q,
{
    if p.len() > 0 {
        lemma_stable_orders_agree_upto(keys, p, q, p.len() - 1);
    }
    assert(p =~= q);
}

/// The sort keys held by three parallel lists.
pub open spec fn keys_of(scores: Seq<u32>, ranks: Seq<u64>, titles: Seq<Vec<char>>) -> Seq<RankKey> {
    Seq::new(
        scores.len(),
        |i: int| RankKey { score: scores[i] as int, rank: ranks[i] as int, title: titles[i]@ },
    )
}

/// Whether `a` comes before `b` in lexicographic order.
pub fn chars_lt(a: &Vec<char>, b: &Vec<char>) -> (r: bool)
    ensures
        r == text_lt(a@, b@),
{
    let mut i: usize = 0;
    assert(a@.skip(0) == a@ && b@.skip(0) == b@);
    while i < a.len() && i < b.len() && a[i] == b[i]
        invariant
            i <= a.len(),
            i <= b.len(),
            text_lt(a@, b@) == text_lt(a@.skip(i as int), b@.skip(i as int)),
        decreases a.len() - i,
    {
        let ghost x = a@.skip(i as int);
        let ghost y = b@.skip(i as int);
        assert(x.drop_first() == a@.skip(i + 1));
        assert(y.drop_first() == b@.skip(i + 1));
        assert(x[0] == a@[i as int]);
        assert(y[0] == b@[i as int]);
        i = i + 1;
    }
    let ghost x = a@.skip(i as int);
    let ghost y = b@.skip(i as int);
    if i == a.len() {
        assert(x.len() == 0);
        i < b.len()
    } else if i == b.len() {
        assert(y.len() == 0);
        false
    } else {
        assert(x[0] == a@[i as int]);
        assert(y[0] == b@[i as int]);
        a[i] < b[i]
    }
}

fn key_less(
    scores: &Vec<u32>,
    ranks: &Vec<u64>,
    titles: &Vec<Vec<char>>,
    i: usize,
    j: usize,
) -> (r: bool)
    requires
        scores.len() == ranks.len() == titles.len(),
        i < scores.len(),
        j < scores.len(),
    ensures
        r == key_lt(keys_of(scores@, ranks@, titles@)[i as int], keys_of(scores@, ranks@, titles@)[j as int]),
{
    if scores[i] != scores[j] {
        scores[i] < scores[j]
    } else if ranks[i] != ranks[j] {
        ranks[i] < ranks[j]
    } else {
        chars_lt(&titles[i], &titles[j])
    }
}

/// The positions of the keys in stable sorted order (insertion sort).
pub fn stable_order(scores: &Vec<u32>, ranks: &Vec<u64>, titles: &Vec<Vec<char>>) -> (p: Vec<
    usize,
>)
    requires
        scores.len() == ranks.len() == titles.len(),
    ensures
        is_stable_order(keys_of(scores@, ranks@, titles@), p@),
{
    let ghost keys = keys_of(scores@, ranks@, titles@);
    let n = scores.len();
    let mut list: Vec<usize> = Vec::new();
    let mut k: usize = 0;
    while k < n
        invariant
            n == scores.len() == ranks.len() == titles.len(),
            keys == keys_of(scores@, ranks@, titles@),
            k <= n,
            list.len() == k,
            forall|i: int| 0 <= i < list.len() ==> #[trigger] list@[i] < k,
            forall|a: int, b: int|
                0 <= a < b < list.len() ==> before(keys, #[trigger] list@[a] as int, #[trigger] list@[b] as int),
        decreases n - k,
    {
        let mut j: usize = list.len();
        while j > 0 && key_less(scores, ranks, titles, k, list[j - 1])
            invariant
                n == scores.len() == ranks.len() == titles.len(),
                keys == keys_of(scores@, ranks@, titles@),
                k < n,
                j <= list.len(),
                forall|i: int| 0 <= i < list.len() ==> #[trigger] list@[i] < k,
                forall|m: int| j <= m < list.len() ==> key_lt(keys[k as int], keys[#[trigger] list@[m] as int]),
            decreases j,
        {
            j = j - 1;
        }
        let ghost old_list = list@;
        list.insert(j, k);
        proof {
            assert forall|a: int, b: int| 0 <= a < b < list@.len() implies before(
                keys,
                #[trigger] list@[a] as int,
                #[trigger] list@[b] as int,
            ) by {
                if b < j {
                    assert(list@[a] == old_list[a] && list@[b] == old_list[b]);
                } else if b == j {
                    assert(list@[b] == k);
                    let last = old_list[j - 1];
                    lemma_key_lt_total(keys[last as int], keys[k as int]);
                    assert(before(keys, last as int, k as int));
                    if a < j - 1 {
                        assert(list@[a] == old_list[a]);
                        assert(before(keys, old_list[a] as int, last as int));
                        lemma_before_transitive(keys, old_list[a] as int, last as int, k as int);
                    } else {
                        assert(list@[a] == last);
                    }
                } else if a == j {
                    assert(list@[a] == k);
                    assert(list@[b] == old_list[b - 1]);
                } else if a > j {
                    assert(list@[a] == old_list[a - 1] && list@[b] == old_list[b - 1]);
                } else {
                    assert(list@[a] == old_list[a] && list@[b] == old_list[b - 1]);
                }
            }
            assert forall|i: int| 0 <= i < list@.len() implies #[trigger] list@[i] < k + 1 by {
                if i < j {
                    assert(list@[i] == old_list[i]);
                } else if i > j {
                    assert(list@[i] == old_list[i - 1]);
                }
            }
        }
        k = k + 1;
    }
    list
}

/// One row found in the search index, with `rank` standing for its relevance
/// score: rows with smaller `rank` matched better, equal ranks matched equally.
pub struct IndexRow {
    pub path: String,
    pub title: String,
    pub subtitle: String,
    pub category: String,
    pub rank: u64,
}

/// Applications come first, then projects, then files, then the rest.
pub open spec fn category_priority(category: Seq<char>) -> int {
    if category == "app"@ {
        0
    } else if category == "project"@ {
        1
    } else if category == "file"@ {
        2
    } else {
        3
    }
}

/// A title equal to the query comes first, then one that starts with it.
pub open spec fn title_priority(title_lower: Seq<char>, query_lower: Seq<char>) -> int {
    if title_lower == query_lower {
        0
    } else if has_prefix(title_lower, query_lower) {
        1
    } else {
        2
    }
}

/// The sort key of a row for a query (in lower case).
pub open spec fn row_key(row: IndexRow, query_lower: Seq<char>) -> RankKey {
    let title_lower = to_lower(row.title@);
    RankKey {
        score: category_priority(row.category@) * 10 + title_priority(title_lower, query_lower),
        rank: row.rank as int,
        title: title_lower,
    }
}

pub open spec fn row_keys(rows: Seq<IndexRow>, query_lower: Seq<char>) -> Seq<RankKey> {
    Seq::new(rows.len(), |i: int| row_key(rows[i], query_lower))
}

/// Category `a` is listed before category `b`: applications before
/// everything else, projects before files and the rest, files before the rest.
pub open spec fn category_before(a: Seq<char>, b: Seq<char>) -> bool {
    ||| a == "app"@ && b != "app"@
    ||| a == "project"@ && b != "app"@ && b != "project"@
    ||| a == "file"@ && b != "app"@ && b != "project"@ && b != "file"@
}

/// Within a category, title `t` meets the query `q` better than title `u`
/// (both in lower case): `t` is the query and `u` is not, or `t` starts
/// with the query and `u` does not.
pub open spec fn title_matches_better(t: Seq<char>, u: Seq<char>, q: Seq<char>) -> bool {
    (t == q && u != q) || (has_prefix(t, q) && !has_prefix(u, q))
}

/// How the ranking orders two rows found for a query: a row of an earlier
/// category comes first; in the same category a row whose lower-case title
/// is the lower-case query, or starts with it, comes before one whose title
/// does not; and where category and the title's match are alike, the row
/// with the smaller rank comes first.
pub proof fn law_ranking_order(
    rows: Seq<IndexRow>,
    query: Seq<char>,
    p: Seq<usize>,
    x: int,
    y: int,
)
    requires
        is_stable_order(row_keys(rows, to_lower(query)), p),
        0 <= x < p.len(),
        0 <= y < p.len(),
        ({
            let a = rows[p[x] as int];
            let b = rows[p[y] as int];
            let ta = to_lower(a.title@);
            let tb = to_lower(b.title@);
            let q = to_lower(query);
            ||| category_before(a.category@, b.category@)
            ||| a.category@ == b.category@ && title_matches_better(ta, tb, q)
            ||| a.category@ == b.category@ && ta == q && tb == q && a.rank < b.rank
            ||| a.category@ == b.category@ && ta != q && tb != q && has_prefix(ta, q)
                && has_prefix(tb, q) && a.rank < b.rank
            ||| a.category@ == b.category@ && !has_prefix(ta, q) && !has_prefix(tb, q)
                && a.rank < b.rank
        }),
    ensures
        x < y,
{
    let keys = row_keys(rows, to_lower(query));
    let q = to_lower(query);
    let i = p[x] as int;
    let j = p[y] as int;
    assert(p[x] < keys.len() && p[y] < keys.len());
    let a = rows[i];
    let b = rows[j];
    let ta = to_lower(a.title@);
    let tb = to_lower(b.title@);
    reveal_strlit("app");
    reveal_strlit("project");
    reveal_strlit("file");
    assert("app"@[0] != "project"@[0] && "app"@[0] != "file"@[0] && "project"@[0] != "file"@[0]);
    assert(q.take(q.len() as int) =~= q);
    assert(has_prefix(q, q));
    let ca = category_priority(a.category@);
    let cb = category_priority(b.category@);
    let pa = title_priority(ta, q);
    let pb = title_priority(tb, q);
    assert(0 <= pa <= 2 && 0 <= pb <= 2);
    if category_before(a.category@, b.category@) {
        assert(ca < cb);
    } else if a.category@ == b.category@ && title_matches_better(ta, tb, q) {
        assert(pa < pb);
    }
    assert(keys[i] == row_key(a, q));
    assert(keys[j] == row_key(b, q));
    assert(key_lt(keys[i], keys[j]));
    if y < x {
        assert(before(keys, j, i));
        lemma_before_asymmetric(keys, i, j);
    } else if x == y {
        lemma_key_lt_irreflexive(keys[i]);
    }
}

/// The result item shown for a row.
pub open spec fn shows_row(item: SearchResultItem, row: IndexRow) -> bool {
    item.holds(
        row.category@ + ":"@ + row.path@,
        row.title@,
        row.subtitle@,
        row.category@,
        row.path@,
    )
}

/// The most rows shown for a query.
pub open spec fn max_index_results() -> int {
    50
}

fn category_priority_exec(category: &str) -> (r: u32)
    ensures
        r == category_priority(category@),
{
    if str_eq(category, "app") {
        0
    } else if str_eq(category, "project") {
        1
    } else if str_eq(category, "file") {
        2
    } else {
        3
    }
}

fn row_item(row: &IndexRow) -> (r: SearchResultItem)
    ensures
        shows_row(r, *row),
{
    let mut id = row.category.clone();
    push_str(&mut id, ":");
    push_str(&mut id, row.path.as_str());
    SearchResultItem::new(
        id,
        row.title.clone(),
        row.subtitle.clone(),
        row.category.clone(),
        row.path.clone(),
    )
}

/// Orders the rows that the index found for `query` and keeps the first 50:
/// by category (applications, projects, files, the rest), then by how the
/// lower-case title meets the lower-case query (equal, starts with it,
/// other), then by rank, then by lower-case title; rows that tie on all of
/// these keep their order.
pub fn rank_search_rows(query: &str, rows: &Vec<IndexRow>) -> (r: Vec<SearchResultItem>)
    ensures
        exists|p: Seq<usize>|
            {
                &&& is_stable_order(row_keys(rows@, to_lower(query@)), p)
                &&& r@.len() == (if rows@.len() < max_index_results() {
                    rows@.len() as int
                } else {
                    max_index_results()
                })
                &&& forall|i: int| 0 <= i < r@.len() ==> shows_row(#[trigger] r@[i], rows@[p[i] as int])
            },
{
    let ql_string = str_to_lowercase(query);
    let ql = chars_of(ql_string.as_str());
    assert(ql@ == to_lower(query@));
    let ghost keys = row_keys(rows@, ql@);
    let n = rows.len();
    let mut scores: Vec<u32> = Vec::new();
    let mut ranks: Vec<u64> = Vec::new();
    let mut titles: Vec<Vec<char>> = Vec::new();
    let mut i: usize = 0;
    while i < n
        invariant
            n == rows.len(),
            i <= n,
            keys == row_keys(rows@, ql@),
            scores.len() == i && ranks.len() == i && titles.len() == i,
            forall|k: int| 0 <= k < i ==> #[trigger] keys_of(scores@, ranks@, titles@)[k] == keys[k],
        decreases n - i,
    {
        let title_lower = str_to_lowercase(rows[i].title.as_str());
        let tl = chars_of(title_lower.as_str());
        let tp: u32 = if chars_eq(&tl, &ql) {
            0
        } else if has_prefix_range(&tl, 0, tl.len(), &ql) {
            1
        } else {
            2
        };
        assert(tl@.subrange(0, tl@.len() as int) == tl@);
        let cp = category_priority_exec(rows[i].category.as_str());
        let ghost before_scores = scores@;
        let ghost before_ranks = ranks@;
        let ghost before_titles = titles@;
        scores.push(cp * 10 + tp);
        ranks.push(rows[i].rank);
        titles.push(tl);
        proof {
            assert forall|k: int| 0 <= k < i + 1 implies #[trigger] keys_of(
                scores@,
                ranks@,
                titles@,
            )[k] == keys[k] by {
                if k < i {
                    assert(keys_of(scores@, ranks@, titles@)[k] == keys_of(
                        before_scores,
                        before_ranks,
                        before_titles,
                    )[k]);
                }
            }
        }
        i = i + 1;
    }
    assert(keys_of(scores@, ranks@, titles@) =~= keys);
    let order = stable_order(&scores, &ranks, &titles);
    let limit: usize = if n < 50 {
        n
    } else {
        50
    };
    let mut out: Vec<SearchResultItem> = Vec::new();
    let mut j: usize = 0;
    while j < limit
        invariant
            limit <= n == rows.len() == order.len(),
            j <= limit,
            is_stable_order(keys, order@),
            out.len() == j,
            forall|m: int| 0 <= m < j ==> shows_row(#[trigger] out@[m], rows@[order@[m] as int]),
        decreases limit - j,
    {
        let idx = order[j];
        assert(idx < order@.len()) by {
            assert(order@[j as int] < keys.len());
        }
        out.push(row_item(&rows[idx]));
        j = j + 1;
    }
    assert(is_stable_order(row_keys(rows@, to_lower(query@)), order@));
    out
}

} // verus!
