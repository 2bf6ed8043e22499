//! The list of recently opened programs, most recent first.
use vstd::prelude::*;

verus! {

/// Number of entries the list keeps.
pub const MAX_RECENT: usize = 5;

/// The paths held by a list of strings.
pub open spec fn names(v: Seq<String>) -> Seq<Seq<char>> {
    v.map_values(|s: String| s@)
}

/// Holds for every path but `path`.
pub open spec fn other_than(path: Seq<char>) -> spec_fn(Seq<char>) -> bool {
    |p: Seq<char>| p != path
}

/// The list after opening `path`: `path` first, then the earlier entries
/// other than `path` in their order, cut to `MAX_RECENT` entries.
pub open spec fn recent_after(list: Seq<Seq<char>>, path: Seq<char>) -> Seq<Seq<char>> {
    let all = seq![path] + list.filter(other_than(path));
    if all.len() > 5 {
        all.take(5)
    } else {
        all
    }
}

/// The list `roms` after opening `path`.
pub fn remember_rom(roms: &Vec<String>, path: &String) -> (r: Vec<String>)
    ensures
        names(r@) == recent_after(names(roms@), path@),
{
    let ghost list = names(roms@);
    let mut out: Vec<String> = Vec::new();
    out.push(path.clone());
    let mut k: usize = 0;
    while k < roms.len()
        invariant
            k <= roms@.len(),
            list == names(roms@),
            names(out@) == seq![path@] + list.take(k as int).filter(other_than(path@)),
        decreases roms@.len() - k,
    {
        let ghost before = out@;
        let same = roms[k].eq(path);
        if !same {
            out.push(roms[k].clone());
        }
        proof {
            let f = other_than(path@);
            assert(list.take(k + 1).drop_last() =~= list.take(k as int));
            reveal(Seq::filter);
            assert(list.take(k + 1).filter(f) == if f(list[k as int]) {
                list.take(k as int).filter(f).push(list[k as int])
            } else {
                list.take(k as int).filter(f)
            });
            if !same {
                assert(names(out@) =~= names(before).push(list[k as int]));
            } else {
                assert(out@ == before);
            }
            assert(names(out@) =~= seq![path@] + list.take(k + 1).filter(f));
        }
        k += 1;
    }
    proof {
        assert(list.take(roms@.len() as int) =~= list);
    }
    let ghost full = out@;
    out.truncate(MAX_RECENT);
    proof {
        if full.len() > 5 {
            assert(names(out@) =~= names(full).take(5));
        }
    }
    out
}

} // verus!
