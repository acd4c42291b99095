use vstd::prelude::*;
use vstd::string::StrSliceExecFns;
use crate::model::str_views;

verus! {

/// Whether a character counts as whitespace when a target line is trimmed.
pub uninterp spec fn space_char(c: char) -> bool;

/// Relies on char::is_whitespace: whether `c` has the Unicode whitespace
/// property, a fact of the character alone.
#[verifier::external_body]
fn is_space(c: char) -> (r: bool)
    ensures
        r == space_char(c),
{
    c.is_whitespace()
}

/// `s` with its leading whitespace removed.
pub open spec fn drop_leading(s: Seq<char>) -> Seq<char>
    decreases s.len(),
{
    if s.len() > 0 && space_char(s[0]) {
        drop_leading(s.subrange(1, s.len() as int))
    } else {
        s
    }
}

/// `s` with its trailing whitespace removed.
pub open spec fn drop_trailing(s: Seq<char>) -> Seq<char>
    decreases s.len(),
{
    if s.len() > 0 && space_char(s.last()) {
        drop_trailing(s.drop_last())
    } else {
        s
    }
}

/// `s` with leading and trailing whitespace removed.
pub open spec fn trim_spec(s: Seq<char>) -> Seq<char> {
    drop_trailing(drop_leading(s))
}

/// Dropping leading whitespace skips any all-whitespace prefix.
proof fn lemma_drop_leading_at(s: Seq<char>, i: int)
    requires
        0 <= i <= s.len(),
        forall|k: int| 0 <= k < i ==> space_char(s[k]),
    ensures
        drop_leading(s) == drop_leading(s.subrange(i, s.len() as int)),
    decreases i,
{
    if i == 0 {
        assert(s.subrange(0, s.len() as int) =~= s);
    } else {
        let s1 = s.subrange(1, s.len() as int);
        lemma_drop_leading_at(s1, i - 1);
        assert(s1.subrange(i - 1, s1.len() as int) =~= s.subrange(i, s.len() as int));
    }
}

/// Dropping trailing whitespace drops any all-whitespace suffix.
proof fn lemma_drop_trailing_at(u: Seq<char>, m: int)
    requires
        0 <= m <= u.len(),
        forall|k: int| m <= k < u.len() ==> space_char(u[k]),
    ensures
        drop_trailing(u) == drop_trailing(u.subrange(0, m)),
    decreases u.len() - m,
{
    if m == u.len() {
        assert(u.subrange(0, m) =~= u);
    } else {
        assert(u.drop_last() =~= u.subrange(0, u.len() - 1));
        lemma_drop_trailing_at(u.subrange(0, u.len() - 1), m);
        assert(u.subrange(0, u.len() - 1).subrange(0, m) =~= u.subrange(0, m));
    }
}

/// Trim `s`: remove leading and trailing whitespace.
pub fn trim(s: &str) -> (t: String)
    ensures
        t@ == trim_spec(s@),
{
    let n = s.unicode_len();
    let mut i: usize = 0;
    while i < n && is_space(s.get_char(i))
        invariant
            i <= n,
            n == s@.len(),
            forall|k: int| 0 <= k < i ==> space_char(s@[k]),
        decreases n - i,
    {
        i = i + 1;
    }
    if i == n {
        proof {
            lemma_drop_leading_at(s@, n as int);
            assert(s@.subrange(n as int, n as int) =~= Seq::<char>::empty());
        }
        return String::new();
    }
    let mut j: usize = n;
    while j > i && is_space(s.get_char(j - 1))
        invariant
            i < j <= n,
            n == s@.len(),
            i < n,
            !space_char(s@[i as int]),
            forall|k: int| j <= k < n ==> space_char(s@[k]),
        decreases j,
    {
        j = j - 1;
    }
    let sub = s.substring_char(i, j);
    proof {
        let u = s@.subrange(i as int, n as int);
        lemma_drop_leading_at(s@, i as int);
        assert(drop_leading(u) == u);
        let m = j - i;
        assert(forall|k: int| m <= k < u.len() ==> space_char(u[k]));
        lemma_drop_trailing_at(u, m as int);
        assert(!space_char(u[m - 1]));
        assert(drop_trailing(u.subrange(0, m as int)) == u.subrange(0, m as int));
        assert(u.subrange(0, m as int) =~= s@.subrange(i as int, j as int));
    }
    String::from_str(sub)
}

/// Split into segments at line breaks: the segments of `s`, continuing the
/// partial segment `cur`.
pub open spec fn split_acc(s: Seq<char>, cur: Seq<char>) -> Seq<Seq<char>>
    decreases s.len(),
{
    if s.len() == 0 {
        seq![cur]
    } else if s[0] == '\n' {
        seq![cur] + split_acc(s.subrange(1, s.len() as int), Seq::empty())
    } else {
        split_acc(s.subrange(1, s.len() as int), cur.push(s[0]))
    }
}

/// The line segments of `s`, split at line breaks.
pub open spec fn split_lines(s: Seq<char>) -> Seq<Seq<char>> {
    split_acc(s, Seq::empty())
}

/// Whether a raw line survives filtering: trimmed, it is neither empty nor
/// a comment starting with a number sign.
pub open spec fn keep_line(l: Seq<char>) -> bool {
    trim_spec(l).len() > 0 && trim_spec(l)[0] != '#'
}

/// The surviving lines, each trimmed, in order.
pub open spec fn filter_lines(ls: Seq<Seq<char>>) -> Seq<Seq<char>>
    decreases ls.len(),
{
    if ls.len() == 0 {
        Seq::empty()
    } else {
        let r = filter_lines(ls.drop_last());
        if keep_line(ls.last()) {
            r.push(trim_spec(ls.last()))
        } else {
            r
        }
    }
}

/// Filtering distributes over concatenation of line lists.
proof fn lemma_filter_concat(a: Seq<Seq<char>>, b: Seq<Seq<char>>)
    ensures
        filter_lines(a + b) == filter_lines(a) + filter_lines(b),
    decreases b.len(),
{
    if b.len() == 0 {
        assert(a + b =~= a);
        assert(filter_lines(a) + filter_lines(b) =~= filter_lines(a));
    } else {
        assert((a + b).drop_last() =~= a + b.drop_last());
        assert((a + b).last() == b.last());
        lemma_filter_concat(a, b.drop_last());
        if keep_line(b.last()) {
            assert(filter_lines(a) + filter_lines(b) =~= (filter_lines(a) + filter_lines(
                b.drop_last(),
            )).push(trim_spec(b.last())));
        }
    }
}

/// The target list a run probes: the surviving lines of the loaded file
/// data, then the targets given directly, in order.
pub open spec fn targets_spec(data: Seq<char>, extra: Seq<Seq<char>>) -> Seq<Seq<char>> {
    filter_lines(split_lines(data)) + extra
}

/// Filtering a single line keeps its trimmed form exactly when the line
/// survives.
proof fn lemma_filter_single(x: Seq<char>)
    ensures
        filter_lines(seq![x]) == (if keep_line(x) {
            seq![trim_spec(x)]
        } else {
            Seq::<Seq<char>>::empty()
        }),
{
    assert(seq![x].drop_last() =~= Seq::<Seq<char>>::empty());
    assert(filter_lines(Seq::<Seq<char>>::empty()) == Seq::<Seq<char>>::empty());
    assert(seq![x].last() == x);
    if keep_line(x) {
        assert(filter_lines(seq![x]) =~= seq![trim_spec(x)]);
    } else {
        assert(filter_lines(seq![x]) =~= Seq::<Seq<char>>::empty());
    }
}

/// Trim one raw line and keep it if it is neither blank nor a comment.
fn push_kept(out: &mut Vec<String>, line: &str)
    ensures
        str_views(final(out)@) == str_views(old(out)@) + filter_lines(seq![line@]),
{
    proof {
        lemma_filter_single(line@);
    }
    let t = trim(line);
    let keep = t.as_str().unicode_len() > 0 && t.as_str().get_char(0) != '#';
    proof {
        assert(keep == keep_line(line@));
    }
    if keep {
        let ghost before = str_views(out@);
        out.push(t);
        proof {
            assert(str_views(out@) =~= before.push(trim_spec(line@)));
            assert(str_views(out@) =~= before + filter_lines(seq![line@]));
        }
    } else {
        proof {
            assert(str_views(out@) =~= str_views(out@) + filter_lines(seq![line@]));
        }
    }
}

/// Build the target list: keep each line of `data` that, trimmed, is neither
/// blank nor a comment, then append the targets given directly.
pub fn filter_targets(data: &str, extra: &Vec<String>) -> (v: Vec<String>)
    ensures
        str_views(v@) == targets_spec(data@, str_views(extra@)),
{
    let n = data.unicode_len();
    let mut out: Vec<String> = Vec::new();
    let mut start: usize = 0;
    let mut i: usize = 0;
    proof {
        assert(data@.subrange(0, n as int) =~= data@);
        assert(data@.subrange(0, 0) =~= Seq::<char>::empty());
        assert(str_views(out@) =~= Seq::<Seq<char>>::empty());
    }
    while i < n
        invariant
            start <= i <= n,
            n == data@.len(),
            forall|k: int| start <= k < i ==> data@[k] != '\n',
            filter_lines(split_lines(data@)) == str_views(out@) + filter_lines(
                split_acc(data@.subrange(i as int, n as int), data@.subrange(start as int, i as int)),
            ),
        decreases n - i,
    {
        let ghost rest = data@.subrange(i as int, n as int);
        let ghost cur = data@.subrange(start as int, i as int);
        proof {
            assert(rest[0] == data@[i as int]);
            assert(rest.subrange(1, rest.len() as int) =~= data@.subrange(i + 1, n as int));
        }
        let c = data.get_char(i);
        if c == '\n' {
            let line = data.substring_char(start, i);
            proof {
                assert(split_acc(rest, cur) == seq![cur] + split_acc(
                    data@.subrange(i + 1, n as int),
                    Seq::empty(),
                ));
                lemma_filter_concat(seq![cur], split_acc(data@.subrange(i + 1, n as int), Seq::empty()));
            }
            push_kept(&mut out, line);
            proof {
                assert(data@.subrange(i + 1, i + 1) =~= Seq::<char>::empty());
            }
            start = i + 1;
        } else {
            proof {
                assert(cur.push(data@[i as int]) =~= data@.subrange(start as int, i + 1));
            }
        }
        i = i + 1;
    }
    let line = data.substring_char(start, n);
    proof {
        let cur = data@.subrange(start as int, n as int);
        assert(data@.subrange(n as int, n as int) =~= Seq::<char>::empty());
        assert(split_acc(Seq::<char>::empty(), cur) == seq![cur]);
    }
    push_kept(&mut out, line);
    let ghost base = str_views(out@);
    let mut e: usize = 0;
    proof {
        assert(str_views(extra@).take(0) =~= Seq::<Seq<char>>::empty());
        assert(base =~= base + str_views(extra@).take(0));
    }
    while e < extra.len()
        invariant
            e <= extra.len(),
            str_views(extra@).len() == extra.len(),
            str_views(out@) == base + str_views(extra@).take(e as int),
        decreases extra.len() - e,
    {
        let ghost before = str_views(out@);
        out.push(extra[e].clone());
        proof {
            assert(str_views(out@) =~= before.push(extra@[e as int]@));
            assert(str_views(extra@).take(e + 1).drop_last() =~= str_views(extra@).take(e as int));
            assert(str_views(extra@).take(e + 1).last() == extra@[e as int]@);
            assert(str_views(out@) =~= base + str_views(extra@).take(e + 1));
        }
        e = e + 1;
    }
    proof {
        assert(str_views(extra@).take(extra.len() as int) =~= str_views(extra@));
    }
    out
}

} // verus!
