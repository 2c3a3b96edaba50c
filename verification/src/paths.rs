//! Containment of one filesystem path in another, judged the way
//! `std::path::Path::starts_with` judges it on Unix: by whole components.
//! The renderer resolves every file a document asks for against its project
//! root and refuses the ones whose canonical form lies outside that root.
use vstd::prelude::*;
use crate::text::{chars_eq, chars_of, slice_chars};

verus! {

/// The `/`-separated pieces of `s`, empty pieces included, built left to right.
pub open spec fn segments(s: Seq<char>) -> Seq<Seq<char>>
    decreases s.len(),
{
    if s.len() == 0 {
        seq![Seq::<char>::empty()]
    } else {
        let init = segments(s.drop_last());
        if s.last() == '/' {
            init.push(Seq::<char>::empty())
        } else {
            init.update(init.len() - 1, init.last().push(s.last()))
        }
    }
}

/// A piece that names something: neither empty (a doubled or trailing `/`)
/// nor the current directory `.`.
pub open spec fn is_named(piece: Seq<char>) -> bool {
    piece.len() > 0 && piece != seq!['.']
}

/// The naming pieces of `g`, in order.
pub open spec fn named(g: Seq<Seq<char>>) -> Seq<Seq<char>>
    decreases g.len(),
{
    if g.len() == 0 {
        g
    } else {
        let rest = named(g.drop_last());
        if is_named(g.last()) {
            rest.push(g.last())
        } else {
            rest
        }
    }
}

/// The components of a Unix path: a leading root `/`, or a leading `.` when
/// the path starts with the current directory, then every naming piece.
/// A `.` anywhere else, doubled separators and a trailing `/` add nothing.
pub open spec fn components(s: Seq<char>) -> Seq<Seq<char>> {
    let g = segments(s);
    if s.len() > 0 && s[0] == '/' {
        seq![seq!['/']] + named(g)
    } else if g[0] == seq!['.'] {
        seq![seq!['.']] + named(g)
    } else {
        named(g)
    }
}

/// `path` lies within `root`: the components of `root` begin those of `path`.
pub open spec fn within(path: Seq<char>, root: Seq<char>) -> bool {
    components(root).is_prefix_of(components(path))
}

pub proof fn lemma_segments_nonempty(s: Seq<char>)
    ensures
        segments(s).len() >= 1,
    decreases s.len(),
{
    if s.len() > 0 {
        lemma_segments_nonempty(s.drop_last());
    }
}

/// The views of a vector of character vectors.
pub open spec fn views(v: Seq<Vec<char>>) -> Seq<Seq<char>> {
    Seq::new(v.len(), |i: int| v[i]@)
}

proof fn lemma_views_push(v: Seq<Vec<char>>, x: Vec<char>)
    ensures
        views(v.push(x)) == views(v).push(x@),
{
    assert(views(v.push(x)) =~= views(v).push(x@));
}

fn split_segments(s: &[char]) -> (r: Vec<Vec<char>>)
    ensures
        views(r@) == segments(s@),
{
    let mut done: Vec<Vec<char>> = Vec::new();
    let mut cur: Vec<char> = Vec::new();
    let mut i: usize = 0;
    assert(s@.take(0) =~= Seq::<char>::empty());
    assert(views(done@) =~= Seq::<Seq<char>>::empty());
    assert(views(done@).push(cur@) =~= segments(s@.take(0)));
    while i < s.len()
        invariant
            i <= s.len(),
            views(done@).push(cur@) == segments(s@.take(i as int)),
        decreases s.len() - i,
    {
        let ghost before = segments(s@.take(i as int));
        assert(s@.take(i as int + 1).drop_last() =~= s@.take(i as int));
        assert(s@.take(i as int + 1).last() == s@[i as int]);
        if s[i] == '/' {
            proof {
                lemma_views_push(done@, cur);
            }
            done.push(cur);
            cur = Vec::new();
            assert(cur@ =~= Seq::<char>::empty());
        } else {
            let ghost old_cur = cur@;
            cur.push(s[i]);
            assert(before.len() - 1 == views(done@).len());
            assert(before.last() == old_cur);
            assert(views(done@).push(cur@) =~= before.update(before.len() - 1, before.last().push(s@[i as int])));
        }
        i = i + 1;
    }
    assert(s@.take(s@.len() as int) =~= s@);
    proof {
        lemma_views_push(done@, cur);
    }
    done.push(cur);
    done
}

fn is_named_exec(piece: &Vec<char>) -> (b: bool)
    ensures
        b == is_named(piece@),
{
    if piece.len() == 0 {
        return false;
    }
    if piece.len() == 1 && piece[0] == '.' {
        assert(piece@ =~= seq!['.']);
        return false;
    }
    assert(piece@.len() != 1 ==> piece@ != seq!['.']);
    assert(piece@.len() == 1 ==> piece@[0] != '.');
    true
}

fn keep_named(g: &Vec<Vec<char>>) -> (r: Vec<Vec<char>>)
    ensures
        views(r@) == named(views(g@)),
{
    let mut r: Vec<Vec<char>> = Vec::new();
    let ghost gv = views(g@);
    assert(gv.take(0) =~= Seq::<Seq<char>>::empty());
    assert(views(r@) =~= named(gv.take(0)));
    for i in 0..g.len()
        invariant
            gv == views(g@),
            views(r@) == named(gv.take(i as int)),
    {
        assert(gv.take(i as int + 1).drop_last() =~= gv.take(i as int));
        assert(gv.take(i as int + 1).last() == g@[i as int]@);
        if is_named_exec(&g[i]) {
            let piece = slice_chars(g[i].as_slice(), 0, g[i].len());
            assert(piece@ =~= g@[i as int]@);
            proof {
                lemma_views_push(r@, piece);
            }
            r.push(piece);
        }
    }
    assert(gv.take(g@.len() as int) =~= gv);
    r
}

/// The components of `s` (see `components`).
pub fn path_components(s: &str) -> (r: Vec<Vec<char>>)
    ensures
        views(r@) == components(s@),
{
    let chars = chars_of(s);
    let g = split_segments(chars.as_slice());
    proof {
        lemma_segments_nonempty(s@);
    }
    let rest = keep_named(&g);
    let absolute = chars.len() > 0 && chars[0] == '/';
    let here = g[0].len() == 1 && g[0][0] == '.';
    assert(here == (segments(s@)[0] == seq!['.'])) by {
        if segments(s@)[0] == seq!['.'] {
            assert(g@[0]@.len() == 1);
        }
        if here {
            assert(g@[0]@ =~= seq!['.']);
        }
    }
    if absolute || here {
        let mut out: Vec<Vec<char>> = Vec::new();
        let mut lead: Vec<char> = Vec::new();
        if absolute {
            lead.push('/');
        } else {
            lead.push('.');
        }
        out.push(lead);
        for i in 0..rest.len()
            invariant
                out@.len() == i + 1,
                out@[0]@ == lead@,
                forall|j: int| 0 <= j < i ==> #[trigger] out@[j + 1]@ == rest@[j]@,
        {
            let piece = slice_chars(rest[i].as_slice(), 0, rest[i].len());
            assert(piece@ =~= rest@[i as int]@);
            out.push(piece);
        }
        let ghost lead_seq: Seq<char> = if absolute { seq!['/'] } else { seq!['.'] };
        assert(lead@ =~= lead_seq);
        assert(views(out@) =~= seq![lead_seq] + views(rest@)) by {
            assert forall|j: int| 0 <= j < views(out@).len() implies #[trigger] views(out@)[j]
                == (seq![lead_seq] + views(rest@))[j] by {
                if j > 0 {
                    assert(out@[(j - 1) + 1]@ == rest@[j - 1]@);
                }
            }
        }
        out
    } else {
        rest
    }
}

/// Whether `path` lies within `root`, component by component, as
/// `std::path::Path::starts_with` decides it on Unix.
pub fn path_starts_with(path: &str, root: &str) -> (b: bool)
    ensures
        b == within(path@, root@),
{
    let p = path_components(path);
    let q = path_components(root);
    if q.len() > p.len() {
        return false;
    }
    let mut i: usize = 0;
    while i < q.len()
        invariant
            q@.len() <= p@.len(),
            views(p@) == components(path@),
            views(q@) == components(root@),
            i <= q@.len(),
            forall|j: int| 0 <= j < i ==> #[trigger] q@[j]@ == p@[j]@,
        decreases q.len() - i,
    {
        if !chars_eq(q[i].as_slice(), p[i].as_slice()) {
            assert(views(q@)[i as int] != views(p@).subrange(0, q@.len() as int)[i as int]);
            return false;
        }
        i = i + 1;
    }
    assert(views(q@) =~= views(p@).subrange(0, views(q@).len() as int));
    true
}

/// Whether a file may be served: both the file's path and the root must
/// have been canonicalised (`None` where that failed, which refuses the
/// file), and the file's canonical path must lie within the root's.
pub fn path_within(canonical_path: Option<&str>, canonical_root: Option<&str>) -> (b: bool)
    ensures
        b == match (canonical_path, canonical_root) {
            (Some(p), Some(r)) => within(p@, r@),
            _ => false,
        },
{
    match (canonical_path, canonical_root) {
        (Some(p), Some(r)) => path_starts_with(p, r),
        _ => false,
    }
}

/// A path lies within itself.
pub proof fn lemma_within_reflexive(p: Seq<char>)
    ensures
        within(p, p),
{
    assert(components(p) =~= components(p).subrange(0, components(p).len() as int));
}

/// Lying within is transitive: what lies within `mid` lies within every
/// root that `mid` lies within.
pub proof fn lemma_within_transitive(p: Seq<char>, mid: Seq<char>, root: Seq<char>)
    requires
        within(p, mid),
        within(mid, root),
    ensures
        within(p, root),
{
    let a = components(root);
    let b = components(mid);
    let c = components(p);
    assert(a =~= c.subrange(0, a.len() as int)) by {
        assert forall|j: int| 0 <= j < a.len() implies a[j] == c.subrange(0, a.len() as int)[j] by {
            assert(a[j] == b.subrange(0, a.len() as int)[j]);
            assert(b[j] == c.subrange(0, b.len() as int)[j]);
        }
    }
}

} // verus!
