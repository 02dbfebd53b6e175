use vstd::prelude::*;
use vstd::string::*;

verus! {

/// `s` with every non-overlapping occurrence of `p`, scanned left to right,
/// replaced by `w`.
pub open spec fn replaced(s: Seq<char>, p: Seq<char>, w: Seq<char>) -> Seq<char>
    decreases s.len(),
{
    if s.len() == 0 {
        Seq::empty()
    } else if 0 < p.len() <= s.len() && s.subrange(0, p.len() as int) == p {
        w + replaced(s.subrange(p.len() as int, s.len() as int), p, w)
    } else {
        seq![s[0]] + replaced(s.subrange(1, s.len() as int), p, w)
    }
}

/// Applies each `(placeholder, value)` pair in turn, first to last.
pub open spec fn substituted(s: Seq<char>, pairs: Seq<(Seq<char>, Seq<char>)>) -> Seq<char>
    decreases pairs.len(),
{
    if pairs.len() == 0 {
        s
    } else {
        substituted(replaced(s, pairs[0].0, pairs[0].1), pairs.subrange(1, pairs.len() as int))
    }
}

pub open spec fn pairs_view(v: Seq<(String, String)>) -> Seq<(Seq<char>, Seq<char>)> {
    v.map_values(|p: (String, String)| (p.0@, p.1@))
}

/// The characters of `s`, one per element.
pub fn chars_of(s: &str) -> (r: Vec<char>)
    ensures
        r@ == s@,
{
    let n = s.unicode_len();
    let mut r: Vec<char> = Vec::new();
    let mut i: usize = 0;
    while i < n
        invariant
            n == s@.len(),
            i <= n,
            r@ == s@.subrange(0, i as int),
        decreases n - i,
    {
        r.push(s.get_char(i));
        i = i + 1;
    }
    assert(r@ =~= s@);
    r
}

/// Whether `a` and `b` hold the same characters.
pub fn str_eq(a: &str, b: &str) -> (r: bool)
    ensures
        r == (a@ == b@),
{
    let n = a.unicode_len();
    if n != b.unicode_len() {
        return false;
    }
    let mut i: usize = 0;
    while i < n
        invariant
            n == a@.len(),
            n == b@.len(),
            i <= n,
            a@.subrange(0, i as int) == b@.subrange(0, i as int),
        decreases n - i,
    {
        if a.get_char(i) != b.get_char(i) {
            return false;
        }
        assert(a@.subrange(0, i + 1) =~= a@.subrange(0, i as int).push(a@[i as int]));
        assert(b@.subrange(0, i + 1) =~= b@.subrange(0, i as int).push(b@[i as int]));
        i = i + 1;
    }
    assert(a@ =~= a@.subrange(0, n as int));
    assert(b@ =~= b@.subrange(0, n as int));
    true
}

fn matches_at(s: &Vec<char>, i: usize, p: &Vec<char>) -> (r: bool)
    requires
        i <= s@.len(),
    ensures
        r == (p@.len() <= s@.len() - i && s@.subrange(i as int, i + p@.len()) == p@),
{
    if p.len() > s.len() - i {
        return false;
    }
    let sl = s.len();
    let mut j: usize = 0;
    while j < p.len()
        invariant
            sl == s@.len(),
            i <= s@.len(),
            p@.len() <= s@.len() - i,
            j <= p@.len(),
            s@.subrange(i as int, i + j) == p@.subrange(0, j as int),
        decreases p@.len() - j,
    {
        if s[i + j] != p[j] {
            assert(s@.subrange(i as int, i + p@.len())[j as int] != p@[j as int]);
            return false;
        }
        assert(s@.subrange(i as int, i + j + 1) =~= s@.subrange(i as int, i + j).push(s@[i + j]));
        assert(p@.subrange(0, j + 1) =~= p@.subrange(0, j as int).push(p@[j as int]));
        j = j + 1;
    }
    assert(p@ =~= p@.subrange(0, p@.len() as int));
    true
}

/// `s` with each occurrence of the non-empty pattern `p` replaced by `w`.
pub fn replace_all(s: &str, p: &str, w: &str) -> (r: String)
    requires
        p@.len() > 0,
    ensures
        r@ == replaced(s@, p@, w@),
{
    let sc = chars_of(s);
    let pc = chars_of(p);
    let n = sc.len();
    let m = pc.len();
    let mut out = String::new();
    let mut i: usize = 0;
    assert(s@.subrange(0, n as int) =~= s@);
    while i < n
        invariant
            sc@ == s@,
            pc@ == p@,
            n == s@.len(),
            m == p@.len(),
            m > 0,
            i <= n,
            out@ + replaced(s@.subrange(i as int, n as int), p@, w@) == replaced(s@, p@, w@),
        decreases n - i,
    {
        let ghost rest = s@.subrange(i as int, n as int);
        let ghost before = out@;
        if matches_at(&sc, i, &pc) {
            assert(rest.subrange(0, m as int) =~= p@);
            assert(rest.subrange(m as int, rest.len() as int) =~= s@.subrange(i + m, n as int));
            out.append(w);
            assert(before + (w@ + replaced(s@.subrange(i + m, n as int), p@, w@)) =~= out@
                + replaced(s@.subrange(i + m, n as int), p@, w@));
            i = i + m;
        } else {
            assert(m <= rest.len() ==> rest.subrange(0, m as int) =~= s@.subrange(i as int, i + m));
            let c = s.substring_char(i, i + 1);
            assert(c@ =~= seq![rest[0]]);
            assert(rest.subrange(1, rest.len() as int) =~= s@.subrange(i + 1, n as int));
            out.append(c);
            assert(before + (c@ + replaced(s@.subrange(i + 1, n as int), p@, w@)) =~= out@
                + replaced(s@.subrange(i + 1, n as int), p@, w@));
            i = i + 1;
        }
    }
    assert(s@.subrange(n as int, n as int) =~= Seq::<char>::empty());
    assert(out@ + Seq::<char>::empty() =~= out@);
    out
}

/// `s` after each `(placeholder, value)` pair of `pairs` has been applied in turn.
pub fn substitute_all(s: &str, pairs: &Vec<(String, String)>) -> (r: String)
    requires
        forall|k: int| 0 <= k < pairs@.len() ==> (#[trigger] pairs@[k]).0@.len() > 0,
    ensures
        r@ == substituted(s@, pairs_view(pairs@)),
{
    let mut cur = String::from_str(s);
    let mut k: usize = 0;
    let ghost all = pairs_view(pairs@);
    assert(all.subrange(0, all.len() as int) =~= all);
    while k < pairs.len()
        invariant
            all == pairs_view(pairs@),
            k <= pairs@.len(),
            forall|k: int| 0 <= k < pairs@.len() ==> (#[trigger] pairs@[k]).0@.len() > 0,
            substituted(cur@, all.subrange(k as int, all.len() as int)) == substituted(s@, all),
        decreases pairs@.len() - k,
    {
        let ghost rest = all.subrange(k as int, all.len() as int);
        assert(rest[0] == (pairs@[k as int].0@, pairs@[k as int].1@));
        assert(rest.subrange(1, rest.len() as int) =~= all.subrange(k + 1, all.len() as int));
        let next = replace_all(cur.as_str(), pairs[k].0.as_str(), pairs[k].1.as_str());
        cur = next;
        k = k + 1;
    }
    assert(all.subrange(k as int, all.len() as int) =~= Seq::<(Seq<char>, Seq<char>)>::empty());
    cur
}

pub open spec fn views(v: Seq<String>) -> Seq<Seq<char>> {
    v.map_values(|t: String| t@)
}

/// Each template of `ts` after the pairs of `pairs` have been applied to it.
pub open spec fn substituted_each(ts: Seq<String>, pairs: Seq<(Seq<char>, Seq<char>)>) -> Seq<Seq<char>> {
    ts.map_values(|t: String| substituted(t@, pairs))
}

/// Applies `substitute_all` to each template, keeping their order.
pub fn substitute_each(ts: &Vec<String>, pairs: &Vec<(String, String)>) -> (r: Vec<String>)
    requires
        forall|k: int| 0 <= k < pairs@.len() ==> (#[trigger] pairs@[k]).0@.len() > 0,
    ensures
        views(r@) == substituted_each(ts@, pairs_view(pairs@)),
{
    let mut r: Vec<String> = Vec::new();
    let mut i: usize = 0;
    while i < ts.len()
        invariant
            i <= ts@.len(),
            forall|k: int| 0 <= k < pairs@.len() ==> (#[trigger] pairs@[k]).0@.len() > 0,
            views(r@) == substituted_each(ts@.subrange(0, i as int), pairs_view(pairs@)),
        decreases ts@.len() - i,
    {
        let t = substitute_all(ts[i].as_str(), pairs);
        let ghost tv = t;
        let ghost before = r@;
        assert(views(before).len() == i);
        assert(before.len() == i);
        r.push(t);
        let ghost pv = pairs_view(pairs@);
        assert forall|j: int| 0 <= j < i + 1 implies #[trigger] views(r@)[j] == substituted_each(
            ts@.subrange(0, i + 1),
            pv,
        )[j] by {
            assert(views(before).len() == i);
            if j < i {
                assert(r@[j] == before[j]);
                assert(views(before)[j] == substituted_each(ts@.subrange(0, i as int), pv)[j]);
            } else {
                assert(r@[j] == tv);
                assert(ts@.subrange(0, i + 1)[j] == ts@[j]);
            }
        }
        assert(views(r@).len() == i + 1);
        assert(substituted_each(ts@.subrange(0, i + 1), pv).len() == i + 1);
        assert(views(r@) =~= substituted_each(ts@.subrange(0, i + 1), pv));
        i = i + 1;
    }
    assert(ts@.subrange(0, i as int) =~= ts@);
    r
}

/// The words of `s`, split at whitespace, as `str::split_whitespace` gives them.
pub uninterp spec fn whitespace_words(s: Seq<char>) -> Seq<Seq<char>>;

/// Relies on `str::split_whitespace`: the words of `s` in order, a function of its characters.
#[verifier::external_body]
pub(crate) fn split_words(s: &str) -> (r: Vec<String>)
    ensures
        views(r@) == whitespace_words(s@),
{
    s.split_whitespace().map(|w| w.to_string()).collect()
}

} // verus!
