use vstd::prelude::*;

use crate::text::{
    chars_of, copy_range, eq_ignore_ascii_case, eq_ignore_ascii_case_range, has_prefix,
    has_prefix_range, is_whitespace, is_ws, lemma_trim_start_at, next_word, push_range,
    string_from_chars, string_of, trim, trim_bounds, trim_start, trimmed_chars, words,
};

verus! {

/// A query is a command when, after leading white space, it starts with `>`.
pub open spec fn spec_is_command(query: Seq<char>) -> bool {
    let t = trim_start(query);
    t.len() > 0 && t[0] == '>'
}

/// `t` up to (not including) its first `/` (the first piece of `str::split('/')`).
pub open spec fn before_slash(t: Seq<char>) -> Seq<char>
    decreases t.len(),
{
    if t.len() == 0 || t[0] == '/' {
        Seq::empty()
    } else {
        seq![t[0]] + before_slash(t.drop_first())
    }
}

/// The host that `ping` is given for a target: a leading `https://` or else
/// `http://` is dropped, and so is everything from the first `/` on.
pub open spec fn ping_host(target: Seq<char>) -> Seq<char> {
    let rest = if has_prefix(target, "https://"@) {
        target.skip(8)
    } else if has_prefix(target, "http://"@) {
        target.skip(7)
    } else {
        target
    };
    before_slash(rest)
}

/// The command line that a query asks to run, if any: the trimmed text after
/// `>`; for `ping` (in any ASCII case) only the host of its first argument is kept.
pub open spec fn spec_command_text(query: Seq<char>) -> Option<Seq<char>> {
    let t = trim(query);
    if !(t.len() > 0 && t[0] == '>') {
        None
    } else {
        let command = trim(t.drop_first());
        let parts = words(command);
        if command.len() == 0 {
            None
        } else if parts.len() == 0 {
            None
        } else if eq_ignore_ascii_case(parts[0], "ping"@) {
            if parts.len() < 2 {
                None
            } else {
                Some("ping "@ + ping_host(parts[1]))
            }
        } else {
            Some(command)
        }
    }
}

/// Whether the query is a command (starts with `>` after white space).
pub fn is_command(query: &str) -> (r: bool)
    ensures
        r == spec_is_command(query@),
{
    let v = chars_of(query);
    let mut i: usize = 0;
    while i < v.len() && is_whitespace(v[i])
        invariant
            i <= v.len(),
            forall|k: int| 0 <= k < i ==> is_ws(#[trigger] v@[k]),
        decreases v.len() - i,
    {
        i = i + 1;
    }
    proof {
        lemma_trim_start_at(v@, i as int);
    }
    i < v.len() && v[i] == '>'
}

/// Where `t` has no `/` before `n`, and a `/` or its end at `n`, `before_slash`
/// keeps `t[..n]`.
proof fn lemma_before_slash_at(t: Seq<char>, n: int)
    requires
        0 <= n <= t.len(),
        forall|k: int| 0 <= k < n ==> #[trigger] t[k] != '/',
        n == t.len() || t[n] == '/',
    ensures
        before_slash(t) == t.take(n),
    decreases n,
{
    if n > 0 {
        let u = t.drop_first();
        assert forall|k: int| 0 <= k < n - 1 implies #[trigger] u[k] != '/' by {
            assert(u[k] == t[k + 1]);
        }
        lemma_before_slash_at(u, n - 1);
        assert(t.take(n) == seq![t[0]] + u.take(n - 1));
    } else {
        assert(t.take(0) == Seq::<char>::empty());
    }
}

/// End of `before_slash(v[a..b])` inside `v`.
fn before_slash_end(v: &Vec<char>, a: usize, b: usize) -> (j: usize)
    requires
        a <= b <= v.len(),
    ensures
        a <= j <= b,
        v@.subrange(a as int, j as int) == before_slash(v@.subrange(a as int, b as int)),
{
    let mut j: usize = a;
    while j < b && v[j] != '/'
        invariant
            a <= j <= b <= v.len(),
            forall|k: int| a <= k < j ==> #[trigger] v@[k] != '/',
        decreases b - j,
    {
        j = j + 1;
    }
    proof {
        let t = v@.subrange(a as int, b as int);
        assert forall|k: int| 0 <= k < j - a implies #[trigger] t[k] != '/' by {
            assert(t[k] == v@[k + a]);
        }
        if j < b {
            assert(t[j - a] == v@[j as int]);
        }
        lemma_before_slash_at(t, j - a);
        assert(t.take(j - a) == v@.subrange(a as int, j as int));
    }
    j
}

/// The command line that a launcher query asks to run: `None` when the query
/// is not a command, is empty after `>`, or is a `ping` without a target.
pub fn command_text(query: &str) -> (r: Option<String>)
    ensures
        r is Some <==> spec_command_text(query@) is Some,
        r matches Some(c) ==> spec_command_text(query@) == Some(c@),
{
    let q = trimmed_chars(query);
    if !(q.len() > 0 && q[0] == '>') {
        return None;
    }
    let (ca, cb) = trim_bounds(&q, 1, q.len());
    assert(q@.subrange(1, q@.len() as int) == q@.drop_first());
    let command = copy_range(&q, ca, cb);
    if command.len() == 0 {
        return None;
    }
    assert(command@.skip(0) == command@);
    let first = next_word(&command, 0);
    match first {
        None => None,
        Some((a0, b0)) => {
            let ping = chars_of("ping");
            if eq_ignore_ascii_case_range(&command, a0, b0, &ping) {
                let second = next_word(&command, b0);
                match second {
                    None => None,
                    Some((a1, b1)) => {
                        let https = chars_of("https://");
                        let http = chars_of("http://");
                        proof {
                            reveal_strlit("https://");
                            reveal_strlit("http://");
                        }
                        let ghost target = command@.subrange(a1 as int, b1 as int);
                        let start = if has_prefix_range(&command, a1, b1, &https) {
                            assert(target.skip(8) == command@.subrange(a1 + 8, b1 as int));
                            a1 + 8
                        } else if has_prefix_range(&command, a1, b1, &http) {
                            assert(target.skip(7) == command@.subrange(a1 + 7, b1 as int));
                            a1 + 7
                        } else {
                            a1
                        };
                        let end = before_slash_end(&command, start, b1);
                        let mut out = string_of("ping ");
                        push_range(&mut out, &command, start, end);
                        Some(out)
                    },
                }
            } else {
                Some(string_from_chars(&command))
            }
        },
    }
}

/// The command that is run for a request: the trimmed request, or the
/// message `Command cannot be empty` when nothing is left.
pub fn prepare_command(command: &str) -> (r: Result<String, String>)
    ensures
        trim(command@).len() == 0 <==> r is Err,
        r matches Ok(c) ==> c@ == trim(command@),
        r matches Err(e) ==> e@ == "Command cannot be empty"@,
{
    let c = trimmed_chars(command);
    if c.len() == 0 {
        Err(string_of("Command cannot be empty"))
    } else {
        Ok(string_from_chars(&c))
    }
}

/// The host handed to `ping` holds no `/`: whatever path followed the host
/// in the target is dropped.
pub proof fn law_ping_host_has_no_slash(target: Seq<char>)
    ensures
        forall|k: int| 0 <= k < ping_host(target).len() ==> #[trigger] ping_host(target)[k] != '/',
{
    let rest = if has_prefix(target, "https://"@) {
        target.skip(8)
    } else if has_prefix(target, "http://"@) {
        target.skip(7)
    } else {
        target
    };
    lemma_before_slash_no_slash(rest);
}

proof fn lemma_before_slash_no_slash(t: Seq<char>)
    ensures
        forall|k: int| 0 <= k < before_slash(t).len() ==> #[trigger] before_slash(t)[k] != '/',
    decreases t.len(),
{
    if t.len() > 0 && t[0] != '/' {
        lemma_before_slash_no_slash(t.drop_first());
        let b = before_slash(t);
        assert forall|k: int| 0 <= k < b.len() implies #[trigger] b[k] != '/' by {
            if k > 0 {
                assert(b[k] == before_slash(t.drop_first())[k - 1]);
            }
        }
    }
}

} // verus!
