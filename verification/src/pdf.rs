//! Reporting what went wrong when a report was typeset: the diagnostics of a
//! failed compile or PDF export, written as one error message.
use vstd::prelude::*;
use crate::cards::texts;
use crate::text::{append, string_of};

verus! {

/// A diagnostic of the typesetter: its message and the hints that go with it.
pub struct Diagnostic {
    pub message: String,
    pub hints: Vec<String>,
}

/// The hints, each on a line of its own after the message.
pub open spec fn hints_text(h: Seq<Seq<char>>) -> Seq<char>
    decreases h.len(),
{
    if h.len() == 0 {
        Seq::empty()
    } else {
        hints_text(h.drop_last()) + "\n  hint: "@ + h.last()
    }
}

/// The messages with their hints, one after the other; a message starts a
/// new line unless nothing has been written before it.
pub open spec fn diagnostics_text(d: Seq<(Seq<char>, Seq<Seq<char>>)>) -> Seq<char>
    decreases d.len(),
{
    if d.len() == 0 {
        Seq::empty()
    } else {
        let pre = diagnostics_text(d.drop_last());
        let sep: Seq<char> = if pre.len() == 0 { Seq::empty() } else { seq!['\n'] };
        pre + sep + d.last().0 + hints_text(d.last().1)
    }
}

/// The message and hint texts of the diagnostics.
pub open spec fn diagnostic_views(v: Seq<Diagnostic>) -> Seq<(Seq<char>, Seq<Seq<char>>)> {
    Seq::new(v.len(), |i: int| (v[i].message@, texts(v[i].hints@)))
}

/// The error message of a failed typesetting stage: `typst {stage}: ` and
/// then the diagnostics.
pub fn format_diagnostics(stage: &str, errs: &Vec<Diagnostic>) -> (r: String)
    ensures
        r@ == "typst "@ + stage@ + ": "@ + diagnostics_text(diagnostic_views(errs@)),
{
    let ghost d = diagnostic_views(errs@);
    let mut s: Vec<char> = Vec::new();
    assert(d.take(0) =~= Seq::<(Seq<char>, Seq<Seq<char>>)>::empty());
    for i in 0..errs.len()
        invariant
            d == diagnostic_views(errs@),
            s@ == diagnostics_text(d.take(i as int)),
    {
        let ghost pre = s@;
        assert(d.take(i as int + 1).drop_last() =~= d.take(i as int));
        assert(d.take(i as int + 1).last() == d[i as int]);
        if s.len() > 0 {
            s.push('\n');
        }
        let ghost sep_done = s@;
        append(&mut s, errs[i].message.as_str());
        let ghost base = s@;
        let hs = &errs[i].hints;
        let ghost h = texts(hs@);
        assert(h.take(0) =~= Seq::<Seq<char>>::empty());
        assert(s@ =~= base + hints_text(h.take(0)));
        for j in 0..hs.len()
            invariant
                h == texts(hs@),
                s@ == base + hints_text(h.take(j as int)),
        {
            assert(h.take(j as int + 1).drop_last() =~= h.take(j as int));
            assert(h.take(j as int + 1).last() == hs@[j as int]@);
            append(&mut s, "\n  hint: ");
            append(&mut s, hs[j].as_str());
            assert(s@ =~= base + hints_text(h.take(j as int + 1)));
        }
        assert(h.take(hs@.len() as int) =~= h);
        assert(s@ =~= diagnostics_text(d.take(i as int + 1)));
    }
    assert(d.take(errs@.len() as int) =~= d);
    let mut out: Vec<char> = Vec::new();
    append(&mut out, "typst ");
    append(&mut out, stage);
    append(&mut out, ": ");
    let ghost head = out@;
    for k in 0..s.len()
        invariant
            out@ == head + s@.take(k as int),
    {
        out.push(s[k]);
        assert(out@ =~= head + s@.take(k as int + 1));
    }
    assert(s@.take(s@.len() as int) =~= s@);
    assert(out@ =~= "typst "@ + stage@ + ": "@ + diagnostics_text(d));
    string_of(out.as_slice())
}

} // verus!
