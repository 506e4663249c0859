//! Unix paths as sequences of components, and relative paths between them.
//!
//! A path is modelled as it is split into components: an optional root, a leading `.`
//! for a relative path that starts with `./` (or is `.`), and the non-empty segments
//! between separators other than `.`.  Results are written with single separators.
use crate::text::{is_first_occurrence, split_char, split_spec, starts_with, starts_with_spec, str_eq, views};
use vstd::prelude::*;

verus! {

/// A segment that names something (not empty, not `.`).
pub open spec fn is_named_segment(seg: Seq<char>) -> bool {
    seg.len() > 0 && seg != "."@
}

/// The named segments of `segs`, in order.
pub open spec fn named_segments(segs: Seq<Seq<char>>) -> Seq<Seq<char>>
    decreases segs.len(),
{
    if segs.len() == 0 {
        Seq::empty()
    } else if is_named_segment(segs.last()) {
        named_segments(segs.drop_last()).push(segs.last())
    } else {
        named_segments(segs.drop_last())
    }
}

/// The path starts at the root.
pub open spec fn has_root_spec(s: Seq<char>) -> bool {
    starts_with_spec(s, "/"@)
}

/// A relative path that starts with a current-directory component.
pub open spec fn has_cur_dir_spec(s: Seq<char>) -> bool {
    !has_root_spec(s) && (s == "."@ || starts_with_spec(s, "./"@))
}

/// The components of a path, not counting the root.
pub open spec fn components_spec(s: Seq<char>) -> Seq<Seq<char>> {
    let named = named_segments(split_spec(s, '/'));
    if has_cur_dir_spec(s) {
        seq!["."@] + named
    } else {
        named
    }
}

/// The length of the longest common prefix of two sequences.
pub open spec fn common_prefix_len(a: Seq<Seq<char>>, b: Seq<Seq<char>>) -> nat
    decreases a.len(),
{
    if a.len() == 0 || b.len() == 0 || a[0] != b[0] {
        0
    } else {
        1 + common_prefix_len(a.drop_first(), b.drop_first())
    }
}

/// `n` parent-directory components.
pub open spec fn parents(n: nat) -> Seq<Seq<char>>
    decreases n,
{
    if n == 0 {
        Seq::empty()
    } else {
        parents((n - 1) as nat).push(".."@)
    }
}

/// Components joined by single separators.
pub open spec fn join_components(comps: Seq<Seq<char>>) -> Seq<char>
    decreases comps.len(),
{
    if comps.len() == 0 {
        Seq::empty()
    } else if comps.len() == 1 {
        comps[0]
    } else {
        join_components(comps.drop_last()) + "/"@ + comps.last()
    }
}

/// The path from `from` to `to`, if there is one: when both are rooted or both are
/// relative, climb out of `from` to the deepest directory it shares with `to`, then
/// descend to `to`; otherwise `to` must lie under `from`.
pub open spec fn relative_path_spec(from: Seq<char>, to: Seq<char>) -> Option<Seq<char>> {
    let fc = components_spec(from);
    let tc = components_spec(to);
    if has_root_spec(from) == has_root_spec(to) {
        let k = common_prefix_len(fc, tc);
        Some(join_components(parents((fc.len() - k) as nat) + tc.skip(k as int)))
    } else if !has_root_spec(from) && fc.len() == 0 {
        Some("/"@ + join_components(tc))
    } else {
        None
    }
}

/// `relative_path` found no path between the two.
#[derive(Debug, PartialEq, Eq)]
pub struct StripPrefixError;

proof fn lemma_named_step(segs: Seq<Seq<char>>, i: int)
    requires
        0 <= i < segs.len(),
    ensures
        named_segments(segs.take(i + 1)) == if is_named_segment(segs[i]) {
            named_segments(segs.take(i)).push(segs[i])
        } else {
            named_segments(segs.take(i))
        },
{
    assert(segs.take(i + 1).drop_last() =~= segs.take(i));
}

/// The components of a path, not counting the root.
pub fn components(s: &str) -> (r: Vec<String>)
    ensures
        views_of_strings(r@) == components_spec(s@),
{
    let segs = split_char(s, '/');
    let mut r: Vec<String> = Vec::new();
    let cur = !starts_with(s, "/") && (str_eq(s, ".") || starts_with(s, "./"));
    if cur {
        r.push(String::from_str("."));
    }
    let ghost head = views_of_strings(r@);
    proof {
        assert(views_of_strings(r@) =~= if cur { seq!["."@] } else { Seq::<Seq<char>>::empty() });
    }
    let mut i: usize = 0;
    while i < segs.len()
        invariant
            i <= segs@.len(),
            views(segs@) == split_spec(s@, '/'),
            views_of_strings(r@) == head + named_segments(views(segs@).take(i as int)),
        decreases segs@.len() - i,
    {
        let seg = segs[i];
        proof {
            lemma_named_step(views(segs@), i as int);
            assert(views(segs@)[i as int] == seg@);
        }
        if seg.unicode_len() > 0 && !str_eq(seg, ".") {
            let owned = seg.to_owned();
            proof {
                assert(views_of_strings(r@.push(owned)) =~= views_of_strings(r@).push(owned@));
            }
            r.push(owned);
        }
        i = i + 1;
    }
    proof {
        assert(views(segs@).take(segs@.len() as int) =~= views(segs@));
        assert(views_of_strings(r@) =~= components_spec(s@));
    }
    r
}

/// The views of a sequence of strings.
pub open spec fn views_of_strings(v: Seq<String>) -> Seq<Seq<char>> {
    v.map_values(|x: String| x@)
}

proof fn lemma_prefix_step(a: Seq<Seq<char>>, b: Seq<Seq<char>>, i: int)
    requires
        0 <= i < a.len(),
        i < b.len(),
        a[i] == b[i],
    ensures
        common_prefix_len(a.skip(i), b.skip(i)) == 1 + common_prefix_len(a.skip(i + 1), b.skip(i + 1)),
{
    assert(a.skip(i).drop_first() =~= a.skip(i + 1));
    assert(b.skip(i).drop_first() =~= b.skip(i + 1));
}

/// The length of the longest common prefix of two component lists.
fn common_prefix(a: &Vec<String>, b: &Vec<String>) -> (k: usize)
    ensures
        k == common_prefix_len(views_of_strings(a@), views_of_strings(b@)),
        k <= a@.len(),
        k <= b@.len(),
{
    let ghost va = views_of_strings(a@);
    let ghost vb = views_of_strings(b@);
    let mut i: usize = 0;
    proof {
        assert(va.skip(0) =~= va);
        assert(vb.skip(0) =~= vb);
    }
    while i < a.len() && i < b.len() && str_eq(a[i].as_str(), b[i].as_str())
        invariant
            i <= a@.len(),
            i <= b@.len(),
            va == views_of_strings(a@),
            vb == views_of_strings(b@),
            common_prefix_len(va, vb) == i + common_prefix_len(va.skip(i as int), vb.skip(i as int)),
        decreases a@.len() - i,
    {
        proof {
            assert(va[i as int] == a@[i as int]@);
            assert(vb[i as int] == b@[i as int]@);
            lemma_prefix_step(va, vb, i as int);
        }
        i = i + 1;
    }
    proof {
        if i < a@.len() && i < b@.len() {
            assert(va.skip(i as int)[0] == va[i as int]);
            assert(vb.skip(i as int)[0] == vb[i as int]);
        }
    }
    i
}

/// Components joined by single separators.
fn join_all(comps: &Vec<String>) -> (r: String)
    ensures
        r@ == join_components(views_of_strings(comps@)),
{
    let ghost vc = views_of_strings(comps@);
    let mut r = String::new();
    let mut i: usize = 0;
    while i < comps.len()
        invariant
            i <= comps@.len(),
            vc == views_of_strings(comps@),
            r@ == join_components(vc.take(i as int)),
        decreases comps@.len() - i,
    {
        if i != 0 {
            r.append("/");
        }
        r.append(comps[i].as_str());
        proof {
            assert(vc.take(i + 1).drop_last() =~= vc.take(i as int));
            assert(vc.take(i + 1).last() == comps@[i as int]@);
            if i == 0 {
                assert(vc.take(0) =~= Seq::<Seq<char>>::empty());
            }
        }
        i = i + 1;
    }
    proof {
        assert(vc.take(comps@.len() as int) =~= vc);
    }
    r
}

/// The path that leads from `from` to `to`.
pub fn relative_path(from: &str, to: &str) -> (r: Result<String, StripPrefixError>)
    ensures
        match relative_path_spec(from@, to@) {
            Some(p) => r matches Ok(s) && s@ == p,
            None => r is Err,
        },
{
    let fc = components(from);
    let tc = components(to);
    let from_root = starts_with(from, "/");
    let to_root = starts_with(to, "/");
    if from_root == to_root {
        let k = common_prefix(&fc, &tc);
        let mut out: Vec<String> = Vec::new();
        let mut j: usize = k;
        while j < fc.len()
            invariant
                k <= j <= fc@.len(),
                views_of_strings(out@) == parents((j - k) as nat),
            decreases fc@.len() - j,
        {
            let up = String::from_str("..");
            proof {
                assert(views_of_strings(out@.push(up)) =~= views_of_strings(out@).push(up@));
            }
            out.push(up);
            j = j + 1;
        }
        let ghost ups = views_of_strings(out@);
        let mut m: usize = k;
        while m < tc.len()
            invariant
                k <= m <= tc@.len(),
                k <= tc@.len(),
                views_of_strings(out@) == ups + views_of_strings(tc@).skip(k as int).take(
                    (m - k) as int,
                ),
            decreases tc@.len() - m,
        {
            let c = tc[m].clone();
            proof {
                let rest = views_of_strings(tc@).skip(k as int);
                assert(rest.take((m + 1 - k) as int) =~= rest.take((m - k) as int).push(c@));
                assert(views_of_strings(out@.push(c)) =~= views_of_strings(out@).push(c@));
            }
            out.push(c);
            m = m + 1;
        }
        proof {
            let rest = views_of_strings(tc@).skip(k as int);
            assert(rest.take((tc@.len() - k) as int) =~= rest);
        }
        Ok(join_all(&out))
    } else if !from_root && fc.len() == 0 {
        let mut r = String::from_str("/");
        let joined = join_all(&tc);
        r.append(joined.as_str());
        Ok(r)
    } else {
        Err(StripPrefixError)
    }
}


/// A sequence shares all of itself with itself.
proof fn lemma_common_prefix_self(a: Seq<Seq<char>>)
    ensures
        common_prefix_len(a, a) == a.len(),
    decreases a.len(),
{
    if a.len() > 0 {
        lemma_common_prefix_self(a.drop_first());
    }
}

/// The path from a path to itself is empty.
pub proof fn lemma_relative_path_self(p: Seq<char>)
    ensures
        relative_path_spec(p, p) == Some(Seq::<char>::empty()),
{
    let c = components_spec(p);
    lemma_common_prefix_self(c);
    assert(parents(0) + c.skip(c.len() as int) =~= Seq::<Seq<char>>::empty());
}

/// A named segment anywhere among the segments leaves at least one named segment.
proof fn lemma_named_nonempty(segs: Seq<Seq<char>>, j: int)
    requires
        0 <= j < segs.len(),
        is_named_segment(segs[j]),
    ensures
        named_segments(segs).len() > 0,
    decreases segs.len(),
{
    if j < segs.len() - 1 {
        lemma_named_nonempty(segs.drop_last(), j);
    }
}

/// A relative path that is not empty has a component.
proof fn lemma_relative_has_component(s: Seq<char>)
    requires
        s.len() > 0,
        !has_root_spec(s),
    ensures
        components_spec(s).len() > 0,
{
    if has_cur_dir_spec(s) {
        return;
    }
    reveal_strlit("/");
    reveal_strlit("./");
    reveal_strlit(".");
    let segs = split_spec(s, '/');
    if s[0] == '/' {
        assert("/"@.is_prefix_of(s));
    }
    if exists|i: int| is_first_occurrence(s, seq!['/'], i) {
        let i = choose|i: int| is_first_occurrence(s, seq!['/'], i);
        assert(s.subrange(i, i + 1)[0] == s[i]);
        assert(segs[0] == s.take(i));
        assert(i > 0);
        if s.take(i) == "."@ {
            assert(s.take(2) =~= "./"@);
            assert("./"@.is_prefix_of(s));
        }
        assert(s.take(i).len() > 0);
        lemma_named_nonempty(segs, 0);
    } else {
        assert(segs =~= seq![s]);
        lemma_named_nonempty(segs, 0);
    }
}

/// From a path that is not empty, there is a path to another exactly when both are rooted
/// or both are relative.
pub proof fn lemma_relative_path_roots(from: Seq<char>, to: Seq<char>)
    requires
        from.len() > 0,
    ensures
        relative_path_spec(from, to) is None <==> has_root_spec(from) != has_root_spec(to),
{
    if !has_root_spec(from) {
        lemma_relative_has_component(from);
    }
}

} // verus!
