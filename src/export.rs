use vstd::prelude::*;

use crate::archlinux::internal::Mirror;
use crate::state::{SelectedCountry, SelectedView};

verus! {

/// The addresses of the mirrors of the selected countries, country after
/// country, each in the order of its country's mirrors.
pub open spec fn export_lines(selected: Seq<SelectedView>) -> Seq<Seq<char>>
    decreases selected.len(),
{
    if selected.len() == 0 {
        Seq::empty()
    } else {
        export_lines(selected.drop_last()) + selected.last().country.mirrors.map_values(|m: Mirror| m.url@)
    }
}

/// The lines of an export: one mirror address per line.
pub fn export_urls(selected: &Vec<SelectedCountry>) -> (r: Vec<String>)
    ensures
        r@.map_values(|s: String| s@) == export_lines(selected@.map_values(|s: SelectedCountry| s@)),
{
    let ghost sel = selected@.map_values(|s: SelectedCountry| s@);
    let mut out: Vec<String> = Vec::new();
    let mut i: usize = 0;
    assert(sel.take(0) =~= Seq::<SelectedView>::empty());
    assert(out@.map_values(|s: String| s@) =~= Seq::<Seq<char>>::empty());
    while i < selected.len()
        invariant
            sel == selected@.map_values(|s: SelectedCountry| s@),
            i <= selected@.len(),
            out@.map_values(|s: String| s@) == export_lines(sel.take(i as int)),
        decreases selected.len() - i,
    {
        let mirrors = &selected[i].country.mirrors;
        let ghost base = export_lines(sel.take(i as int));
        let mut j: usize = 0;
        assert(mirrors@.take(0).map_values(|m: Mirror| m.url@) =~= Seq::<Seq<char>>::empty());
        assert(base + Seq::<Seq<char>>::empty() =~= base);
        while j < mirrors.len()
            invariant
                i < selected@.len(),
                mirrors@ == selected@[i as int].country.mirrors@,
                j <= mirrors@.len(),
                out@.map_values(|s: String| s@) == base + mirrors@.take(j as int).map_values(|m: Mirror| m.url@),
            decreases mirrors.len() - j,
        {
            let ghost before = out@;
            out.push(mirrors[j].url.clone());
            assert(out@.map_values(|s: String| s@) =~= before.map_values(|s: String| s@).push(mirrors@[j as int].url@));
            assert(mirrors@.take(j + 1).map_values(|m: Mirror| m.url@) =~= mirrors@.take(j as int).map_values(
                |m: Mirror| m.url@,
            ).push(mirrors@[j as int].url@));
            j = j + 1;
        }
        proof {
            assert(mirrors@.take(j as int) =~= mirrors@);
            assert(sel.take(i + 1).drop_last() =~= sel.take(i as int));
            assert(sel.take(i + 1).last() == sel[i as int]);
            assert(sel[i as int].country.mirrors == mirrors@);
        }
        i = i + 1;
    }
    assert(sel.take(i as int) =~= sel);
    out
}

} // verus!
