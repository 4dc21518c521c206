use vstd::prelude::*;

use crate::text::{
    is_alnum, char_is_alphanumeric, chars_of, next_word, push_char, push_str, words,
};

verus! {

/// The alphanumeric characters of `w`, in order.
pub open spec fn keep_alphanumeric(w: Seq<char>) -> Seq<char>
    decreases w.len(),
{
    if w.len() == 0 {
        Seq::empty()
    } else if is_alnum(w.last()) {
        keep_alphanumeric(w.drop_last()).push(w.last())
    } else {
        keep_alphanumeric(w.drop_last())
    }
}

/// The prefix terms for a list of words: each word reduced to its
/// alphanumeric characters and followed by `*`; words left empty are dropped.
pub open spec fn prefix_terms(ws: Seq<Seq<char>>) -> Seq<Seq<char>>
    decreases ws.len(),
{
    if ws.len() == 0 {
        Seq::empty()
    } else if keep_alphanumeric(ws[0]).len() == 0 {
        prefix_terms(ws.drop_first())
    } else {
        seq![keep_alphanumeric(ws[0]) + "*"@] + prefix_terms(ws.drop_first())
    }
}

/// The terms joined with `sep` between them.
pub open spec fn join(terms: Seq<Seq<char>>, sep: Seq<char>) -> Seq<char>
    decreases terms.len(),
{
    if terms.len() == 0 {
        Seq::empty()
    } else if terms.len() == 1 {
        terms[0]
    } else {
        join(terms.drop_last(), sep) + sep + terms.last()
    }
}

/// The most terms a full-text query holds.
pub open spec fn max_query_terms() -> int {
    8
}

/// The full-text query for a search: the first 8 prefix terms of its words,
/// joined by ` OR `; `None` when there is no term.
pub open spec fn spec_make_fts_query(query: Seq<char>) -> Option<Seq<char>> {
    let terms = prefix_terms(words(query));
    let kept = if terms.len() > max_query_terms() {
        terms.take(max_query_terms())
    } else {
        terms
    };
    if kept.len() == 0 {
        None
    } else {
        Some(join(kept, " OR "@))
    }
}

proof fn lemma_prefix_terms_cons(w: Seq<char>, rest: Seq<Seq<char>>)
    ensures
        prefix_terms(seq![w] + rest) == (if keep_alphanumeric(w).len() == 0 {
            Seq::empty()
        } else {
            seq![keep_alphanumeric(w) + "*"@]
        }) + prefix_terms(rest),
{
    let ws = seq![w] + rest;
    assert(ws[0] == w);
    assert(ws.drop_first() == rest);
    if keep_alphanumeric(w).len() == 0 {
        assert(Seq::<Seq<char>>::empty() + prefix_terms(rest) == prefix_terms(rest));
    }
}

/// Appends the alphanumeric characters of `v[a..b]` to `out`.
fn push_alphanumeric(out: &mut String, v: &Vec<char>, a: usize, b: usize)
    requires
        a <= b <= v.len(),
    ensures
        final(out)@ == old(out)@ + keep_alphanumeric(v@.subrange(a as int, b as int)),
{
    let mut i: usize = a;
    while i < b
        invariant
            a <= i <= b <= v.len(),
            out@ == old(out)@ + keep_alphanumeric(v@.subrange(a as int, i as int)),
        decreases b - i,
    {
        let ghost w = v@.subrange(a as int, i + 1);
        assert(w.drop_last() == v@.subrange(a as int, i as int));
        assert(w.last() == v@[i as int]);
        if char_is_alphanumeric(v[i]) {
            push_char(out, v[i]);
            assert(out@ == old(out)@ + keep_alphanumeric(w));
        }
        i = i + 1;
    }
}

/// Builds the full-text query for a search (see `spec_make_fts_query`).
pub fn make_fts_query(query: &str) -> (r: Option<String>)
    ensures
        r is Some <==> spec_make_fts_query(query@) is Some,
        r matches Some(q) ==> spec_make_fts_query(query@) == Some(q@),
{
    let v = chars_of(query);
    let ghost all = prefix_terms(words(v@));
    let mut out = String::new();
    let mut count: usize = 0;
    let mut pos: usize = 0;
    let ghost mut done: Seq<Seq<char>> = Seq::empty();
    assert(v@.skip(0) == v@);
    loop
        invariant
            pos <= v.len(),
            all == prefix_terms(words(v@)),
            all == done + prefix_terms(words(v@.skip(pos as int))),
            count == done.len(),
            count <= 8,
            out@ == join(done, " OR "@),
        ensures
            count == done.len(),
            count <= 8,
            out@ == join(done, " OR "@),
            done == (if all.len() > 8 {
                all.take(8)
            } else {
                all
            }),
        decreases v.len() - pos,
    {
        if count == 8 {
            assert(all.take(8) == done);
            break;
        }
        match next_word(&v, pos) {
            None => {
                assert(all == done);
                break;
            },
            Some((a, b)) => {
                let ghost w = v@.subrange(a as int, b as int);
                proof {
                    lemma_prefix_terms_cons(w, words(v@.skip(b as int)));
                }
                let mut term = String::new();
                push_alphanumeric(&mut term, &v, a, b);
                if !term.as_str().is_empty() {
                    let ghost t = term@;
                    push_str(&mut term, "*");
                    let ghost before = out@;
                    if count > 0 {
                        push_str(&mut out, " OR ");
                    }
                    push_str(&mut out, term.as_str());
                    proof {
                        let nd = done.push(term@);
                        assert(nd.drop_last() == done);
                        assert(nd.last() == term@);
                        if count == 0 {
                            assert(join(nd, " OR "@) == term@);
                        }
                        assert(all == nd + prefix_terms(words(v@.skip(b as int)))) by {
                            assert(done + (seq![term@] + prefix_terms(words(v@.skip(b as int))))
                                == nd + prefix_terms(words(v@.skip(b as int))));
                        }
                        done = nd;
                    }
                    count = count + 1;
                } else {
                    proof {
                        assert(Seq::<Seq<char>>::empty() + prefix_terms(words(v@.skip(b as int)))
                            == prefix_terms(words(v@.skip(b as int))));
                    }
                }
                pos = b;
            },
        }
    }
    if count == 0 {
        None
    } else {
        Some(out)
    }
}

} // verus!
