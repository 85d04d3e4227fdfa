//! Name bindings: lists of (name, value) in which a later binding of a name
//! hides an earlier one.
use vstd::prelude::*;

verus! {

/// The value bound to `name`: the last binding of it.
pub open spec fn lookup<V>(b: Seq<(Seq<char>, V)>, name: Seq<char>) -> Option<V>
    decreases b.len(),
{
    if b.len() == 0 {
        None
    } else if b.last().0 == name {
        Some(b.last().1)
    } else {
        lookup(b.drop_last(), name)
    }
}

/// The view of a list of name bindings to ids.
pub open spec fn ids_scope(v: Seq<(String, u64)>) -> Seq<(Seq<char>, int)> {
    v.map_values(|p: (String, u64)| (p.0@, p.1 as int))
}

/// The view of a list of name bindings to flags.
pub open spec fn flags_scope(v: Seq<(String, bool)>) -> Seq<(Seq<char>, bool)> {
    v.map_values(|p: (String, bool)| (p.0@, p.1))
}

/// Looks `name` up among bindings to ids.
pub fn lookup_id(b: &Vec<(String, u64)>, name: &String) -> (r: Option<u64>)
    ensures
        match r {
            Some(v) => lookup(ids_scope(b@), name@) == Some(v as int),
            None => lookup(ids_scope(b@), name@) is None,
        },
{
    let mut i = b.len();
    assert(ids_scope(b@).take(i as int) =~= ids_scope(b@));
    while i > 0
        invariant
            i <= b.len(),
            lookup(ids_scope(b@), name@) == lookup(ids_scope(b@).take(i as int), name@),
        decreases i,
    {
        let ghost s = ids_scope(b@).take(i as int);
        assert(s.drop_last() =~= ids_scope(b@).take(i - 1));
        if b[i - 1].0 == *name {
            return Some(b[i - 1].1);
        }
        i = i - 1;
    }
    None
}

/// Looks `name` up among bindings to flags.
pub fn lookup_flag(b: &Vec<(String, bool)>, name: &String) -> (r: Option<bool>)
    ensures
        r == lookup(flags_scope(b@), name@),
{
    let mut i = b.len();
    assert(flags_scope(b@).take(i as int) =~= flags_scope(b@));
    while i > 0
        invariant
            i <= b.len(),
            lookup(flags_scope(b@), name@) == lookup(flags_scope(b@).take(i as int), name@),
        decreases i,
    {
        let ghost s = flags_scope(b@).take(i as int);
        assert(s.drop_last() =~= flags_scope(b@).take(i - 1));
        if b[i - 1].0 == *name {
            return Some(b[i - 1].1);
        }
        i = i - 1;
    }
    None
}

} // verus!
