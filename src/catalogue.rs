//! The dense stop path as read, checked against the station catalogue.

use crate::align::texts;
use vstd::prelude::*;

verus! {

/// The ids among the first `n` of `sequence` that `known` holds (`keep`), or
/// that it does not hold (`!keep`), in order.
pub open spec fn sift(sequence: Seq<Seq<char>>, known: Seq<Seq<char>>, keep: bool, n: int) -> Seq<Seq<char>>
    decreases n,
{
    if n <= 0 {
        seq![]
    } else {
        let before = sift(sequence, known, keep, n - 1);
        if known.contains(sequence[n - 1]) == keep {
            before.push(sequence[n - 1])
        } else {
            before
        }
    }
}

/// The stop ids of a path sequence split by the catalogue: `stops` keeps those
/// the catalogue knows, `unknown` lists the others, each in sequence order.
pub struct ResolvedPath {
    pub stops: Vec<String>,
    pub unknown: Vec<String>,
}

fn catalogue_has(catalogue: &Vec<String>, id: &String) -> (r: bool)
    ensures
        r == texts(catalogue@).contains(id@),
{
    let mut i: usize = 0;
    while i < catalogue.len()
        invariant
            i <= catalogue.len(),
            forall|j: int| 0 <= j < i ==> (#[trigger] catalogue@[j])@ != id@,
        decreases catalogue.len() - i,
    {
        if catalogue[i] == *id {
            assert(texts(catalogue@)[i as int] == id@);
            return true;
        }
        i = i + 1;
    }
    assert forall|j: int| 0 <= j < texts(catalogue@).len() implies texts(catalogue@)[j] != id@ by {
        assert((catalogue@[j])@ != id@);
    }
    false
}

/// Splits the ids of a stop-path sequence into those that `catalogue` holds,
/// which make the dense path, and those it does not, which are dropped.
pub fn resolve_path(sequence: &Vec<String>, catalogue: &Vec<String>) -> (r: ResolvedPath)
    ensures
        texts(r.stops@) == sift(texts(sequence@), texts(catalogue@), true, sequence.len() as int),
        texts(r.unknown@) == sift(texts(sequence@), texts(catalogue@), false, sequence.len() as int),
{
    let ghost sv = texts(sequence@);
    let ghost cv = texts(catalogue@);
    let mut stops: Vec<String> = Vec::new();
    let mut unknown: Vec<String> = Vec::new();
    let mut i: usize = 0;
    while i < sequence.len()
        invariant
            i <= sequence.len(),
            sv == texts(sequence@),
            cv == texts(catalogue@),
            texts(stops@) == sift(sv, cv, true, i as int),
            texts(unknown@) == sift(sv, cv, false, i as int),
        decreases sequence.len() - i,
    {
        let id = sequence[i].clone();
        if catalogue_has(catalogue, &id) {
            stops.push(id);
            assert(texts(stops@) =~= sift(sv, cv, true, i + 1));
            assert(texts(unknown@) =~= sift(sv, cv, false, i + 1));
        } else {
            unknown.push(id);
            assert(texts(stops@) =~= sift(sv, cv, true, i + 1));
            assert(texts(unknown@) =~= sift(sv, cv, false, i + 1));
        }
        i = i + 1;
    }
    ResolvedPath { stops, unknown }
}

} // verus!
