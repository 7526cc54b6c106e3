//! Field references: a flat field name, or a slash-delimited pointer whose
//! segments use the `~1` / `~0` escapes.
use vstd::prelude::*;
use vstd::string::*;

verus! {

/// Rewrites every occurrence of the two characters `a b` into `c`,
/// scanning left to right, occurrences not overlapping.
pub open spec fn replace_pair(s: Seq<char>, a: char, b: char, c: char) -> Seq<char>
    decreases s.len(),
{
    if s.len() < 2 {
        s
    } else if s[0] == a && s[1] == b {
        seq![c] + replace_pair(s.subrange(2, s.len() as int), a, b, c)
    } else {
        seq![s[0]] + replace_pair(s.drop_first(), a, b, c)
    }
}

/// A pointer segment decoded: `~1` becomes `/` first, then `~0` becomes `~`.
pub open spec fn unescape_segment(s: Seq<char>) -> Seq<char> {
    replace_pair(replace_pair(s, '~', '1', '/'), '~', '0', '~')
}

/// The pieces of `cur + s` between slashes, where `cur` is the piece already begun.
pub open spec fn split_from(s: Seq<char>, cur: Seq<char>) -> Seq<Seq<char>>
    decreases s.len(),
{
    if s.len() == 0 {
        seq![cur]
    } else if s[0] == '/' {
        seq![cur] + split_from(s.drop_first(), Seq::empty())
    } else {
        split_from(s.drop_first(), cur.push(s[0]))
    }
}

/// The pieces of `s` between slashes; `s` with no slash is one piece.
pub open spec fn split_slash(s: Seq<char>) -> Seq<Seq<char>> {
    split_from(s, Seq::empty())
}

/// The segments that a field reference names, root first.
pub open spec fn pointer_segments(s: Seq<char>) -> Seq<Seq<char>> {
    if s.len() > 0 && s[0] == '/' {
        split_slash(s.drop_first()).map_values(|g: Seq<char>| unescape_segment(g))
    } else {
        seq![s]
    }
}

/// The character sequences of a list of strings.
pub open spec fn string_views(v: Seq<String>) -> Seq<Seq<char>> {
    v.map_values(|x: String| x@)
}

/// Relies on `String::push`: the character lands at the end.
#[verifier::external_body]
pub(crate) fn push_char(s: &mut String, c: char)
    ensures
        final(s)@ == old(s)@.push(c),
{
    s.push(c)
}

fn chars_to_string(v: &Vec<char>) -> (r: String)
    ensures
        r@ == v@,
{
    let mut r = String::new();
    let mut i: usize = 0;
    while i < v.len()
        invariant
            i <= v.len(),
            r@ == v@.subrange(0, i as int),
        decreases v.len() - i,
    {
        push_char(&mut r, v[i]);
        i = i + 1;
        assert(r@ =~= v@.subrange(0, i as int));
    }
    assert(r@ =~= v@);
    r
}

fn replace_pair_exec(s: &Vec<char>, a: char, b: char, c: char) -> (r: Vec<char>)
    ensures
        r@ == replace_pair(s@, a, b, c),
{
    let mut r: Vec<char> = Vec::new();
    let mut i: usize = 0;
    assert(s@.subrange(0, s@.len() as int) =~= s@);
    while i < s.len()
        invariant
            i <= s.len(),
            r@ + replace_pair(s@.subrange(i as int, s@.len() as int), a, b, c) == replace_pair(
                s@,
                a,
                b,
                c,
            ),
        decreases s.len() - i,
    {
        let ghost rest = s@.subrange(i as int, s@.len() as int);
        if i + 1 < s.len() && s[i] == a && s[i + 1] == b {
            assert(rest.subrange(2, rest.len() as int) =~= s@.subrange(i + 2, s@.len() as int));
            r.push(c);
            i = i + 2;
        } else {
            if i + 1 < s.len() {
                assert(rest.drop_first() =~= s@.subrange(i + 1, s@.len() as int));
            } else {
                assert(rest =~= seq![s@[i as int]]);
                assert(s@.subrange(i + 1, s@.len() as int) =~= Seq::<char>::empty());
            }
            r.push(s[i]);
            i = i + 1;
        }
        assert(r@ + replace_pair(s@.subrange(i as int, s@.len() as int), a, b, c) =~= replace_pair(
            s@,
            a,
            b,
            c,
        ));
    }
    assert(s@.subrange(i as int, s@.len() as int) =~= Seq::<char>::empty());
    assert(r@ + Seq::<char>::empty() =~= r@);
    r
}

fn unescape_exec(s: &Vec<char>) -> (r: String)
    ensures
        r@ == unescape_segment(s@),
{
    let once = replace_pair_exec(s, '~', '1', '/');
    let twice = replace_pair_exec(&once, '~', '0', '~');
    chars_to_string(&twice)
}

/// Parses a field reference into its segments, root first.
///
/// A reference that does not start with `/` is one literal field name.
/// Otherwise the text after the leading `/` is split on every `/`, and each
/// piece is decoded by turning `~1` into `/` and then `~0` into `~`.
pub fn json_pointer(s: &str) -> (r: Vec<String>)
    ensures
        string_views(r@) == pointer_segments(s@),
{
    let n = s.unicode_len();
    let mut r: Vec<String> = Vec::new();
    if n == 0 || s.get_char(0) != '/' {
        let mut whole = String::new();
        let mut i: usize = 0;
        while i < n
            invariant
                i <= n,
                n == s@.len(),
                whole@ == s@.subrange(0, i as int),
            decreases n - i,
        {
            push_char(&mut whole, s.get_char(i));
            i = i + 1;
            assert(whole@ =~= s@.subrange(0, i as int));
        }
        assert(whole@ =~= s@);
        r.push(whole);
        assert(string_views(r@) =~= pointer_segments(s@));
        return r;
    }
    let ghost t = s@.drop_first();
    let ghost done: Seq<Seq<char>> = Seq::empty();
    let mut cur: Vec<char> = Vec::new();
    let mut i: usize = 1;
    assert(s@.subrange(1, n as int) =~= t);
    while i < n
        invariant
            1 <= i <= n,
            n == s@.len(),
            t == s@.drop_first(),
            done + split_from(s@.subrange(i as int, n as int), cur@) == split_slash(t),
            string_views(r@) == done.map_values(|g: Seq<char>| unescape_segment(g)),
        decreases n - i,
    {
        let c = s.get_char(i);
        let ghost rest = s@.subrange(i as int, n as int);
        assert(rest.drop_first() =~= s@.subrange(i + 1, n as int));
        if c == '/' {
            let seg = unescape_exec(&cur);
            let ghost old_r = r@;
            let ghost old_done = done;
            proof {
                done = done.push(cur@);
            }
            r.push(seg);
            assert(string_views(r@) =~= string_views(old_r).push(seg@));
            assert(done.map_values(|g: Seq<char>| unescape_segment(g)) =~= old_done.map_values(
                |g: Seq<char>| unescape_segment(g),
            ).push(unescape_segment(cur@)));
            cur = Vec::new();
            assert(done + split_from(s@.subrange(i + 1, n as int), cur@) =~= split_slash(t));
        } else {
            cur.push(c);
        }
        i = i + 1;
    }
    let seg = unescape_exec(&cur);
    let ghost old_r = r@;
    let ghost old_done = done;
    proof {
        done = done.push(cur@);
    }
    r.push(seg);
    assert(string_views(r@) =~= string_views(old_r).push(seg@));
    assert(done.map_values(|g: Seq<char>| unescape_segment(g)) =~= old_done.map_values(
        |g: Seq<char>| unescape_segment(g),
    ).push(unescape_segment(cur@)));
    assert(done =~= split_slash(t));
    assert(string_views(r@) =~= pointer_segments(s@));
    r
}

} // verus!
