//! Dimension references: the dimension names a thing lists, and how they
//! become references to dimension entities.
use vstd::prelude::*;
use bevy_platform::collections::HashSet;
use crate::collections::{id_set_contents, id_set_new, id_set_insert};

verus! {

/// The dimensions a thing refers to by name; names are never empty.
pub struct MultipleDimensionStringRefs(Vec<String>);

/// The names of `strings` that are not empty, in order.
pub open spec fn nonempty_names(strings: Seq<String>) -> Seq<Seq<char>> {
    strings.map_values(|s: String| s@).filter(|s: Seq<char>| s.len() > 0)
}

impl View for MultipleDimensionStringRefs {
    type V = Seq<Seq<char>>;

    closed spec fn view(&self) -> Seq<Seq<char>> {
        self.0@.map_values(|s: String| s@)
    }
}

impl MultipleDimensionStringRefs {
    /// The references named by `strings`, empty names left out.
    pub fn new(strings: Vec<String>) -> (res: Self)
        ensures
            res@ == nonempty_names(strings@),
    {
        let ghost names = strings@.map_values(|s: String| s@);
        let ghost keep = |s: Seq<char>| s.len() > 0;
        let mut kept: Vec<String> = Vec::new();
        let mut i: usize = 0;
        while i < strings.len()
            invariant
                i <= strings.len(),
                names == strings@.map_values(|s: String| s@),
                keep == (|s: Seq<char>| s.len() > 0),
                kept@.map_values(|s: String| s@) == names.take(i as int).filter(keep),
            decreases strings.len() - i,
        {
            proof {
                reveal(Seq::filter);
                assert(names.take(i + 1).drop_last() == names.take(i as int));
                assert(names.take(i + 1).last() == strings@[i as int]@);
            }
            if strings[i].as_str().unicode_len() > 0 {
                let ghost before = kept@;
                kept.push(strings[i].clone());
                proof {
                    assert(kept@.map_values(|s: String| s@) =~= before.map_values(|s: String| s@).push(strings@[i as int]@));
                }
            }
            i = i + 1;
        }
        proof {
            assert(names.take(strings.len() as int) == names);
        }
        MultipleDimensionStringRefs(kept)
    }

    /// The names, in order.
    pub fn iter(&self) -> (res: std::slice::Iter<'_, String>)
        ensures
            vstd::std_specs::slice::into_iter_elts(res).map_values(|s: String| s@) == self@,
    {
        broadcast use vstd::std_specs::slice::axiom_spec_slice_iter;
        let res = self.0.as_slice().iter();
        proof {
            assert(vstd::std_specs::slice::into_iter_elts(res) =~= self.0@);
        }
        res
    }
}

/// The dimension known under `name` in `known` (pairs of a dimension's name
/// and its hash id, when its entity has one): the first pair with that name.
pub open spec fn lookup_dimension(known: Seq<(String, Option<u64>)>, name: Seq<char>) -> Option<Option<u64>>
    decreases known.len(),
{
    if known.len() == 0 {
        None
    } else if known[0].0@ == name {
        Some(known[0].1)
    } else {
        lookup_dimension(known.drop_first(), name)
    }
}

/// The hash id that the dimension name `name` resolves to, if any.
pub open spec fn resolved_hash(known: Seq<(String, Option<u64>)>, name: Seq<char>) -> Option<u64> {
    match lookup_dimension(known, name) {
        Some(Some(h)) => Some(h),
        _ => None,
    }
}

/// The hash id that the dimension name `name` resolves to, if any.
fn resolve_dimension(known: &Vec<(String, Option<u64>)>, name: &String) -> (res: Option<u64>)
    ensures
        res == resolved_hash(known@, name@),
{
    let mut i: usize = 0;
    assert(known@.skip(0) == known@);
    while i < known.len()
        invariant
            i <= known.len(),
            lookup_dimension(known@, name@) == lookup_dimension(known@.skip(i as int), name@),
        decreases known.len() - i,
    {
        proof {
            assert(known@.skip(i as int).drop_first() == known@.skip(i + 1));
            assert(known@.skip(i as int)[0] == known@[i as int]);
        }
        if known[i].0 == *name {
            return known[i].1;
        }
        i = i + 1;
    }
    None
}

/// The hash ids of the dimensions that the names `refs` resolve to in
/// `known`; a name that resolves to nothing is left out.
pub fn resolve_dimension_refs(refs: &MultipleDimensionStringRefs, known: &Vec<(String, Option<u64>)>) -> (res: HashSet<u64>)
    ensures
        forall|h: u64| #[trigger] id_set_contents(res).contains(h) <==>
            exists|i: int| 0 <= i < refs@.len() && resolved_hash(known@, #[trigger] refs@[i]) == Some(h),
{
    let mut set = id_set_new();
    let mut i: usize = 0;
    while i < refs.0.len()
        invariant
            i <= refs.0.len(),
            refs@ == refs.0@.map_values(|s: String| s@),
            forall|h: u64| #[trigger] id_set_contents(set).contains(h) <==>
                exists|j: int| 0 <= j < i && resolved_hash(known@, #[trigger] refs@[j]) == Some(h),
        decreases refs.0.len() - i,
    {
        let r = resolve_dimension(known, &refs.0[i]);
        match r {
            Some(h) => {
                let _ = id_set_insert(&mut set, h);
            },
            None => {},
        }
        proof {
            assert(refs@[i as int] == refs.0@[i as int]@);
        }
        i = i + 1;
    }
    set
}

/// The keys other than `c`.
pub open spec fn other_key(c: Seq<char>) -> spec_fn(Seq<char>) -> bool {
    |k: Seq<char>| k != c
}

/// The dimensions of the region list in the order shown: the camera's
/// dimension first when it has regions, then the others in their order.
pub open spec fn camera_first_spec(keys: Seq<Seq<char>>, camera: Option<Seq<char>>) -> Seq<Seq<char>> {
    match camera {
        Some(c) => if keys.contains(c) {
            seq![c] + keys.filter(other_key(c))
        } else {
            keys
        },
        None => keys,
    }
}

/// The dimensions of the region list in the order shown (see
/// `camera_first_spec`); `keys` are the dimension keys in their order.
pub fn camera_first(keys: &Vec<String>, camera: Option<&String>) -> (res: Vec<String>)
    ensures
        res@.map_values(|s: String| s@) == camera_first_spec(
            keys@.map_values(|s: String| s@),
            match camera { Some(c) => Some(c@), None => None },
        ),
{
    let ghost names = keys@.map_values(|s: String| s@);
    let c = match camera {
        Some(c) => c,
        None => {
            return camera_first_keep_order(keys);
        },
    };
    let ghost keep = other_key(c@);
    let mut found = false;
    let mut rest: Vec<String> = Vec::new();
    let mut i: usize = 0;
    while i < keys.len()
        invariant
            i <= keys.len(),
            names == keys@.map_values(|s: String| s@),
            keep == other_key(c@),
            rest@.map_values(|s: String| s@) == names.take(i as int).filter(keep),
            found == names.take(i as int).contains(c@),
        decreases keys.len() - i,
    {
        proof {
            reveal(Seq::filter);
            assert(names.take(i + 1).drop_last() == names.take(i as int));
            assert(names.take(i + 1).last() == keys@[i as int]@);
            vstd::seq_lib::lemma_seq_contains_after_push(names.take(i as int), keys@[i as int]@, c@);
            assert(names.take(i + 1) == names.take(i as int).push(keys@[i as int]@));
        }
        if keys[i] == *c {
            found = true;
        } else {
            let ghost before = rest@;
            rest.push(keys[i].clone());
            proof {
                assert(rest@.map_values(|s: String| s@) =~= before.map_values(|s: String| s@).push(keys@[i as int]@));
            }
        }
        i = i + 1;
    }
    proof {
        assert(names.take(keys.len() as int) == names);
    }
    if !found {
        return camera_first_keep_order(keys);
    }
    let mut out: Vec<String> = Vec::new();
    out.push(c.clone());
    let mut k: usize = 0;
    while k < rest.len()
        invariant
            k <= rest.len(),
            out@.len() == k + 1,
            out@[0]@ == c@,
            forall|j: int| 0 <= j < k ==> (#[trigger] out@[j + 1])@ == rest@[j]@,
        decreases rest.len() - k,
    {
        out.push(rest[k].clone());
        k = k + 1;
    }
    proof {
        let lhs = out@.map_values(|s: String| s@);
        let rhs = seq![c@] + rest@.map_values(|s: String| s@);
        assert(lhs.len() == rhs.len());
        assert forall|j: int| 0 <= j < lhs.len() implies lhs[j] == rhs[j] by {
            if j > 0 {
                assert(out@[(j - 1) + 1]@ == rest@[j - 1]@);
            }
        }
        assert(lhs =~= rhs);
    }
    out
}

/// A copy of `keys`, in order.
fn camera_first_keep_order(keys: &Vec<String>) -> (res: Vec<String>)
    ensures
        res@.map_values(|s: String| s@) == keys@.map_values(|s: String| s@),
{
    let mut out: Vec<String> = Vec::new();
    let mut i: usize = 0;
    while i < keys.len()
        invariant
            i <= keys.len(),
            out@.len() == i,
            forall|j: int| 0 <= j < i ==> (#[trigger] out@[j])@ == keys@[j]@,
        decreases keys.len() - i,
    {
        out.push(keys[i].clone());
        i = i + 1;
    }
    proof {
        assert(out@.map_values(|s: String| s@) =~= keys@.map_values(|s: String| s@));
    }
    out
}

/// Whether a thing that refers to a dimension gets that dimension's entity
/// as its parent: when it has no parent, or when its parent is a dimension
/// (the one it referred to before).  `parent_is_dimension` is `None` when
/// the thing has no parent.
pub fn needs_dimension_parent(parent_is_dimension: Option<bool>) -> (res: bool)
    ensures
        res == match parent_is_dimension {
            None => true,
            Some(b) => b,
        },
{
    match parent_is_dimension {
        None => true,
        Some(b) => b,
    }
}

} // verus!
