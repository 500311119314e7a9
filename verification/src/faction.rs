//! Faction logic: the pool of instances spawned from each faction template,
//! how a thing's faction markers follow the groups it joined, and which
//! faction each player belongs to.
use vstd::prelude::*;
use bevy_platform::collections::{HashMap, HashSet};
use crate::collections::{
    str_map_contents, str_map_new, str_map_insert, str_map_remove, empty_str_map,
    id_set_contents, id_set_contains, id_set_insert, id_set_new, id_set_to_vec,
};

verus! {

/// The ids other than `e`.
pub open spec fn other_than(e: u64) -> spec_fn(u64) -> bool {
    |x: u64| x != e
}

/// `s` without the occurrences of `e`, in order.
pub open spec fn without(s: Seq<u64>, e: u64) -> Seq<u64> {
    s.filter(other_than(e))
}

/// The pool after `e` was recorded under template `k`: appended to that
/// template's list, which is created when missing.
pub open spec fn pool_pushed(m: Map<Seq<char>, Seq<u64>>, k: Seq<char>, e: u64) -> Map<Seq<char>, Seq<u64>> {
    m.insert(k, if m.contains_key(k) { m[k].push(e) } else { seq![e] })
}

/// The pool after `e` was forgotten under template `k`: every occurrence
/// leaves that template's list, and a list left empty leaves the pool.
pub open spec fn pool_removed(m: Map<Seq<char>, Seq<u64>>, k: Seq<char>, e: u64) -> Map<Seq<char>, Seq<u64>> {
    if !m.contains_key(k) {
        m
    } else if without(m[k], e).len() == 0 {
        m.remove(k)
    } else {
        m.insert(k, without(m[k], e))
    }
}

/// No template is kept with an empty list of instances.
pub open spec fn pool_lists_nonempty(m: Map<Seq<char>, Seq<u64>>) -> bool {
    forall|k: Seq<char>| m.contains_key(k) ==> #[trigger] m[k].len() > 0
}

/// The instances spawned from each faction template, by template id.
pub struct FactionInstTemplatePool(pub HashMap<String, Vec<u64>>);

impl View for FactionInstTemplatePool {
    type V = Map<Seq<char>, Seq<u64>>;

    open spec fn view(&self) -> Map<Seq<char>, Seq<u64>> {
        str_map_contents(self.0)
    }
}

proof fn lemma_without_push(s: Seq<u64>, x: u64, e: u64)
    ensures
        without(s.push(x), e) == if x != e { without(s, e).push(x) } else { without(s, e) },
{
    reveal(Seq::filter);
    assert(s.push(x).drop_last() == s);
}

proof fn lemma_without_absent(s: Seq<u64>, e: u64)
    requires
        !s.contains(e),
    ensures
        without(s, e) == s,
    decreases s.len(),
{
    if s.len() > 0 {
        let init = s.drop_last();
        assert(init.push(s.last()) == s);
        assert forall|i: int| 0 <= i < init.len() implies init[i] != e by {
            assert(s[i] == init[i]);
        }
        lemma_without_absent(init, e);
        lemma_without_push(init, s.last(), e);
    }
}

proof fn lemma_without_excludes(s: Seq<u64>, e: u64)
    ensures
        !without(s, e).contains(e),
{
    let f = without(s, e);
    assert forall|i: int| 0 <= i < f.len() implies f[i] != e by {
        s.lemma_filter_pred(other_than(e), i);
    }
}

/// `v` without the occurrences of `e`, in order.
fn retain_other(v: &Vec<u64>, e: u64) -> (res: Vec<u64>)
    ensures
        res@ == without(v@, e),
{
    let mut res: Vec<u64> = Vec::new();
    let mut i: usize = 0;
    while i < v.len()
        invariant
            i <= v.len(),
            res@ == without(v@.take(i as int), e),
        decreases v.len() - i,
    {
        proof {
            lemma_without_push(v@.take(i as int), v@[i as int], e);
            assert(v@.take(i as int).push(v@[i as int]) == v@.take(i + 1));
        }
        if v[i] != e {
            res.push(v[i]);
        }
        i = i + 1;
    }
    assert(v@.take(v.len() as int) == v@);
    res
}

impl FactionInstTemplatePool {
    /// An empty pool.
    pub fn new() -> (p: Self)
        ensures
            p@ == empty_str_map(),
    {
        FactionInstTemplatePool(str_map_new())
    }

    /// Records that instance `ent` was spawned from template `template_id`.
    pub fn push(&mut self, template_id: &String, ent: u64)
        ensures
            final(self)@ == pool_pushed(old(self)@, template_id@, ent),
    {
        let taken = str_map_remove(&mut self.0, template_id);
        let mut list = match taken {
            Some(list) => list,
            None => Vec::new(),
        };
        list.push(ent);
        proof {
            if !old(self)@.contains_key(template_id@) {
                assert(list@ == seq![ent]);
            }
            assert(old(self)@.remove(template_id@).insert(template_id@, list@)
                =~= pool_pushed(old(self)@, template_id@, ent));
        }
        let _ = str_map_insert(&mut self.0, template_id.clone(), list);
    }

    /// Forgets instance `ent` of template `template_id`, dropping the
    /// template's entry once no instance is left under it.
    pub fn remove(&mut self, template_id: &String, ent: u64)
        ensures
            final(self)@ == pool_removed(old(self)@, template_id@, ent),
    {
        let taken = str_map_remove(&mut self.0, template_id);
        match taken {
            Some(list) => {
                let rest = retain_other(&list, ent);
                if rest.len() == 0 {
                    assert(old(self)@.remove(template_id@) =~= pool_removed(old(self)@, template_id@, ent));
                } else {
                    assert(old(self)@.remove(template_id@).insert(template_id@, rest@)
                        =~= pool_removed(old(self)@, template_id@, ent));
                    let _ = str_map_insert(&mut self.0, template_id.clone(), rest);
                }
            },
            None => {
                assert(old(self)@.remove(template_id@) =~= old(self)@);
            },
        }
    }
}

/// Recording and forgetting instances never leaves a template with an empty
/// list of instances.
pub proof fn lemma_pool_keeps_lists_nonempty(m: Map<Seq<char>, Seq<u64>>, k: Seq<char>, e: u64)
    requires
        pool_lists_nonempty(m),
    ensures
        pool_lists_nonempty(pool_pushed(m, k, e)),
        pool_lists_nonempty(pool_removed(m, k, e)),
{
}

/// Forgetting an instance right after recording it gives back the pool as it
/// was, when the template did not already list that instance.
pub proof fn lemma_pool_remove_undoes_push(m: Map<Seq<char>, Seq<u64>>, k: Seq<char>, e: u64)
    requires
        pool_lists_nonempty(m),
        m.contains_key(k) ==> !m[k].contains(e),
    ensures
        pool_removed(pool_pushed(m, k, e), k, e) == m,
{
    let p = pool_pushed(m, k, e);
    if m.contains_key(k) {
        lemma_without_push(m[k], e, e);
        lemma_without_absent(m[k], e);
        assert(p.insert(k, m[k]) =~= m);
    } else {
        lemma_without_push(Seq::<u64>::empty(), e, e);
        assert(Seq::<u64>::empty().push(e) == seq![e]);
        reveal(Seq::filter);
        assert(p.remove(k) =~= m);
    }
}

/// After forgetting an instance no template lists it any more under that
/// template, and every other template keeps its list.
pub proof fn lemma_pool_remove_forgets(m: Map<Seq<char>, Seq<u64>>, k: Seq<char>, e: u64)
    ensures
        pool_removed(m, k, e).contains_key(k) ==> !pool_removed(m, k, e)[k].contains(e),
        forall|j: Seq<char>| j != k ==> (#[trigger] pool_removed(m, k, e).contains_key(j) == m.contains_key(j)
            && (m.contains_key(j) ==> pool_removed(m, k, e)[j] == m[j])),
{
    if m.contains_key(k) {
        lemma_without_excludes(m[k], e);
    }
}


// ---------------------------------------------------------------------------
// Faction markers of things that joined groups.
// ---------------------------------------------------------------------------

/// What to do with a marker component on an entity.
#[derive(PartialEq, Eq, Structural, Clone, Copy, Debug)]
pub enum MarkerChange {
    Keep,
    Insert,
    Remove,
}

/// The change that brings a marker that is `present` to `wanted`.
pub open spec fn marker_change_for(present: bool, wanted: bool) -> MarkerChange {
    if wanted && !present {
        MarkerChange::Insert
    } else if !wanted && present {
        MarkerChange::Remove
    } else {
        MarkerChange::Keep
    }
}

/// Whether a marker is present after `change`.
pub open spec fn marker_after(present: bool, change: MarkerChange) -> bool {
    match change {
        MarkerChange::Keep => present,
        MarkerChange::Insert => true,
        MarkerChange::Remove => false,
    }
}

/// Some joined group is a player faction.
pub open spec fn joins_player_faction(joined: Seq<u64>, player_factions: Set<u64>) -> bool {
    exists|i: int| 0 <= i < joined.len() && player_factions.contains(#[trigger] joined[i])
}

/// The changes of a thing's two faction markers: "belongs to a player
/// faction" and "affiliated to my faction".
#[derive(PartialEq, Eq, Structural, Clone, Copy, Debug)]
pub struct AffiliationUpdate {
    pub player_faction_marker: MarkerChange,
    pub my_faction_marker: MarkerChange,
}

fn marker_change(present: bool, wanted: bool) -> (res: MarkerChange)
    ensures
        res == marker_change_for(present, wanted),
{
    if wanted && !present {
        MarkerChange::Insert
    } else if !wanted && present {
        MarkerChange::Remove
    } else {
        MarkerChange::Keep
    }
}

/// The marker changes for a thing that joined the groups `joined`: it belongs
/// to a player faction when one of its groups is one, and it is affiliated to
/// my faction when, besides, my player's faction is among its groups.
pub fn affiliation_update(
    joined: &Vec<u64>,
    player_factions: &HashSet<u64>,
    my_faction: u64,
    has_player_faction_marker: bool,
    has_my_faction_marker: bool,
) -> (res: AffiliationUpdate)
    ensures
        res.player_faction_marker == marker_change_for(
            has_player_faction_marker,
            joins_player_faction(joined@, id_set_contents(*player_factions)),
        ),
        res.my_faction_marker == marker_change_for(
            has_my_faction_marker,
            joins_player_faction(joined@, id_set_contents(*player_factions)) && joined@.contains(my_faction),
        ),
{
    let mut in_player_faction = false;
    let mut in_my_faction = false;
    let mut i: usize = 0;
    while i < joined.len()
        invariant
            i <= joined.len(),
            in_player_faction == exists|j: int| 0 <= j < i && id_set_contents(*player_factions).contains(#[trigger] joined@[j]),
            in_my_faction == exists|j: int| 0 <= j < i && #[trigger] joined@[j] == my_faction,
        decreases joined.len() - i,
    {
        let g = joined[i];
        if id_set_contains(player_factions, &g) {
            in_player_faction = true;
        }
        if g == my_faction {
            in_my_faction = true;
        }
        i = i + 1;
    }
    AffiliationUpdate {
        player_faction_marker: marker_change(has_player_faction_marker, in_player_faction),
        my_faction_marker: marker_change(has_my_faction_marker, in_player_faction && in_my_faction),
    }
}

/// After the markers change as `affiliation_update` says, each marker is
/// present exactly when it is wanted, and a second pass changes nothing.
pub proof fn lemma_affiliation_settles(present: bool, wanted: bool)
    ensures
        marker_after(present, marker_change_for(present, wanted)) == wanted,
        marker_change_for(marker_after(present, marker_change_for(present, wanted)), wanted) == MarkerChange::Keep,
{
}

// ---------------------------------------------------------------------------
// The faction of each player.
// ---------------------------------------------------------------------------

/// `g` is the first group of `joined` that is a faction.
pub open spec fn is_first_faction(joined: Seq<u64>, factions: Set<u64>, g: u64) -> bool {
    exists|i: int| 0 <= i < joined.len() && joined[i] == g && factions.contains(g)
        && forall|j: int| 0 <= j < i ==> !factions.contains(#[trigger] joined[j])
}

/// No group of `joined` is a faction.
pub open spec fn has_no_faction(joined: Seq<u64>, factions: Set<u64>) -> bool {
    forall|i: int| 0 <= i < joined.len() ==> !factions.contains(#[trigger] joined[i])
}

/// The first group of `joined` that is a faction, if any.
pub fn first_faction_group(joined: &Vec<u64>, factions: &HashSet<u64>) -> (res: Option<u64>)
    ensures
        res is None <==> has_no_faction(joined@, id_set_contents(*factions)),
        res is Some ==> is_first_faction(joined@, id_set_contents(*factions), res->0),
{
    let mut i: usize = 0;
    while i < joined.len()
        invariant
            i <= joined.len(),
            forall|j: int| 0 <= j < i ==> !id_set_contents(*factions).contains(#[trigger] joined@[j]),
        decreases joined.len() - i,
    {
        let g = joined[i];
        if id_set_contains(factions, &g) {
            assert(joined@[i as int] == g);
            return Some(g);
        }
        i = i + 1;
    }
    None
}

/// Which faction a player belongs to, and whether its faction reference must
/// go because it points at something that is no faction.
#[derive(PartialEq, Eq, Structural, Clone, Copy, Debug)]
pub struct PlayerFactionResolution {
    pub faction: Option<u64>,
    pub drop_faction_ref: bool,
}

/// `faction` is the faction of a player with groups `joined` and faction
/// reference `faction_ref`: the first faction among its groups; failing
/// that, the faction its reference points at, when that is a faction.
pub open spec fn is_player_faction(joined: Option<Seq<u64>>, faction_ref: Option<u64>, fs: Set<u64>, faction: Option<u64>) -> bool {
    let member = match joined {
        Some(j) => !has_no_faction(j, fs),
        None => false,
    };
    if member {
        faction is Some && is_first_faction(joined->0, fs, faction->0)
    } else {
        faction == (if faction_ref is Some && fs.contains(faction_ref->0) { faction_ref } else { None::<u64> })
    }
}

/// The faction of a player (see `is_player_faction`), and whether its
/// reference must go because it points at something that is no faction.
pub fn resolve_player_faction(
    joined: Option<&Vec<u64>>,
    faction_ref: Option<u64>,
    factions: &HashSet<u64>,
) -> (res: PlayerFactionResolution)
    ensures
        res.drop_faction_ref == (faction_ref is Some && !id_set_contents(*factions).contains(faction_ref->0)),
        is_player_faction(match joined { Some(j) => Some(j@), None => None }, faction_ref, id_set_contents(*factions), res.faction),
{
    let member_faction = match joined {
        Some(j) => first_faction_group(j, factions),
        None => None,
    };
    let ref_is_faction = match faction_ref {
        Some(f) => id_set_contains(factions, &f),
        None => false,
    };
    let faction = match member_faction {
        Some(f) => Some(f),
        None => if ref_is_faction { faction_ref } else { None },
    };
    PlayerFactionResolution { faction, drop_faction_ref: faction_ref.is_some() && !ref_is_faction }
}

/// The groups that stay when a player joins `faction`: `faction` itself and
/// every group that is no faction.
pub open spec fn stays_after_joining(faction: u64, factions: Set<u64>) -> spec_fn(u64) -> bool {
    |g: u64| g == faction || !factions.contains(g)
}

/// The groups of a player once it joined `faction`: every other faction
/// leaves, the other groups stay in order, and `faction` is added at the end
/// when it was missing.
pub open spec fn regrouped(joined: Seq<u64>, faction: u64, factions: Set<u64>) -> Seq<u64> {
    let kept = joined.filter(stays_after_joining(faction, factions));
    if kept.contains(faction) { kept } else { kept.push(faction) }
}

/// The groups of a player once it joined `faction` (see `regrouped`).
pub fn regroup_joined_groups(joined: &Vec<u64>, faction: u64, factions: &HashSet<u64>) -> (res: Vec<u64>)
    ensures
        res@ == regrouped(joined@, faction, id_set_contents(*factions)),
{
    broadcast use vstd::seq_lib::lemma_seq_contains_after_push;
    let ghost keep = stays_after_joining(faction, id_set_contents(*factions));
    let mut kept: Vec<u64> = Vec::new();
    let mut has_faction = false;
    let mut i: usize = 0;
    while i < joined.len()
        invariant
            i <= joined.len(),
            keep == stays_after_joining(faction, id_set_contents(*factions)),
            kept@ == joined@.take(i as int).filter(keep),
            has_faction == kept@.contains(faction),
        decreases joined.len() - i,
    {
        let g = joined[i];
        proof {
            reveal(Seq::filter);
            assert(joined@.take(i + 1).drop_last() == joined@.take(i as int));
            assert(joined@.take(i + 1).last() == g);
        }
        if g == faction || !id_set_contains(factions, &g) {
            let ghost before = kept@;
            kept.push(g);
            proof {
                assert(kept@ == before.push(g));
                vstd::seq_lib::lemma_seq_contains_after_push(before, g, faction);
            }
            if g == faction {
                has_faction = true;
            }
        }
        i = i + 1;
    }
    proof {
        assert(joined@.take(joined.len() as int) == joined@);
    }
    if !has_faction {
        kept.push(faction);
    }
    kept
}

/// After regrouping, `faction` is the one and only faction among the
/// player's groups, and every group that is no faction stays.
pub proof fn lemma_regrouped_single_faction(joined: Seq<u64>, faction: u64, factions: Set<u64>)
    ensures
        regrouped(joined, faction, factions).contains(faction),
        forall|i: int| 0 <= i < regrouped(joined, faction, factions).len()
            && factions.contains(#[trigger] regrouped(joined, faction, factions)[i])
            ==> regrouped(joined, faction, factions)[i] == faction,
        forall|g: u64| #[trigger] joined.contains(g) && !factions.contains(g)
            ==> regrouped(joined, faction, factions).contains(g),
{
    broadcast use vstd::seq_lib::lemma_seq_contains_after_push;
    let keep = stays_after_joining(faction, factions);
    let kept = joined.filter(keep);
    let r = regrouped(joined, faction, factions);
    assert forall|i: int| 0 <= i < kept.len() implies keep(#[trigger] kept[i]) by {
        joined.lemma_filter_pred(keep, i);
    }
    if !kept.contains(faction) {
        assert(r == kept.push(faction));
        assert(r[r.len() - 1] == faction);
        assert forall|i: int| 0 <= i < r.len() && factions.contains(#[trigger] r[i]) implies r[i] == faction by {
            if i < kept.len() {
                assert(r[i] == kept[i]);
            }
        }
    }
    assert forall|g: u64| #[trigger] joined.contains(g) && !factions.contains(g) implies r.contains(g) by {
        let i = choose|i: int| 0 <= i < joined.len() && joined[i] == g;
        assert(kept.contains(g)) by {
            joined.lemma_filter_contains(keep, i);
        }
    }
}

/// What the bookkeeping does for one touched player.
pub struct RegroupActions {
    /// The group whose members lose the player (the one it was in before).
    pub leave: Option<u64>,
    /// The player's faction reference goes: it points at no faction.
    pub drop_faction_ref: bool,
    /// The player's faction.
    pub faction: Option<u64>,
    /// The player's faction reference is set to `faction` (inserted or
    /// replaced).
    pub set_faction_ref: bool,
    /// The player's groups afterwards; none when they stay.
    pub groups: Option<Vec<u64>>,
    /// The faction whose members gain the player.
    pub join: Option<u64>,
    /// The group remembered for the player until the next pass.
    pub remember: Option<u64>,
}

/// `res` is what the bookkeeping does for a touched player (see
/// `player_regroup_step`).
pub open spec fn regroup_actions_ok(
    prev_group: Option<u64>,
    prev_members_present: bool,
    faction_ref: Option<u64>,
    joined: Option<Seq<u64>>,
    fs: Set<u64>,
    res: RegroupActions,
) -> bool {
    &&& res.leave == prev_group
    &&& prev_group is Some && !prev_members_present ==> !res.drop_faction_ref && res.faction is None
        && !res.set_faction_ref && res.groups is None && res.join is None && res.remember is None
    &&& !(prev_group is Some && !prev_members_present) ==> {
        &&& res.drop_faction_ref == (faction_ref is Some && !fs.contains(faction_ref->0))
        &&& is_player_faction(joined, faction_ref, fs, res.faction)
        &&& res.join == res.faction
        &&& res.remember == res.faction
        &&& match res.faction {
            Some(f) => res.set_faction_ref == (faction_ref != Some(f)) && match res.groups {
                Some(g) => g@ == match joined { Some(j) => regrouped(j, f, fs), None => seq![f] },
                None => false,
            },
            None => !res.set_faction_ref && res.groups is None,
        }
    }
}

/// The bookkeeping for a touched player that was in `prev_group` before
/// (whose members are still recorded when `prev_members_present`), with
/// faction reference `faction_ref` and groups `joined`.  The player leaves
/// its previous group; when that group no longer records members the player
/// is left alone.  Otherwise its faction is resolved (see
/// `is_player_faction`); with one, the reference is set to it where it
/// differs, the groups become `regrouped` (or just that faction when the
/// player had no groups), and the faction records the player as a member.
pub fn player_regroup_step(
    prev_group: Option<u64>,
    prev_members_present: bool,
    faction_ref: Option<u64>,
    joined: Option<&Vec<u64>>,
    factions: &HashSet<u64>,
) -> (res: RegroupActions)
    ensures
        regroup_actions_ok(
            prev_group,
            prev_members_present,
            faction_ref,
            match joined { Some(j) => Some(j@), None => None },
            id_set_contents(*factions),
            res,
        ),
{
    if prev_group.is_some() && !prev_members_present {
        return RegroupActions {
            leave: prev_group,
            drop_faction_ref: false,
            faction: None,
            set_faction_ref: false,
            groups: None,
            join: None,
            remember: None,
        };
    }
    let resolution = resolve_player_faction(joined, faction_ref, factions);
    match resolution.faction {
        None => RegroupActions {
            leave: prev_group,
            drop_faction_ref: resolution.drop_faction_ref,
            faction: None,
            set_faction_ref: false,
            groups: None,
            join: None,
            remember: None,
        },
        Some(f) => {
            let groups = match joined {
                Some(j) => regroup_joined_groups(j, f, factions),
                None => {
                    let mut single: Vec<u64> = Vec::new();
                    single.push(f);
                    proof {
                        assert(single@ =~= seq![f]);
                    }
                    single
                },
            };
            let set_ref = match faction_ref {
                Some(r) => r != f,
                None => true,
            };
            RegroupActions {
                leave: prev_group,
                drop_faction_ref: resolution.drop_faction_ref,
                faction: Some(f),
                set_faction_ref: set_ref,
                groups: Some(groups),
                join: Some(f),
                remember: Some(f),
            }
        },
    }
}

/// Every element of `s` passes `p`: filtering keeps `s` whole.
proof fn lemma_filter_keeps_all(s: Seq<u64>, p: spec_fn(u64) -> bool)
    requires
        forall|i: int| 0 <= i < s.len() ==> p(#[trigger] s[i]),
    ensures
        s.filter(p) == s,
    decreases s.len(),
{
    reveal(Seq::filter);
    if s.len() > 0 {
        lemma_filter_keeps_all(s.drop_last(), p);
        assert(p(s[s.len() - 1]));
        assert(s.drop_last().push(s.last()) =~= s);
    }
}

/// A player's faction is found, and its faction stays settled: once its
/// reference points at its faction `f` and its groups are regrouped around
/// `f`, resolving again finds `f`, drops no reference, sets none, and
/// leaves the groups as they are.
pub proof fn lemma_player_faction_settles(joined: Seq<u64>, f: u64, fs: Set<u64>)
    requires
        fs.contains(f),
    ensures
        ({
            let j2 = regrouped(joined, f, fs);
            &&& forall|g: Option<u64>| is_player_faction(Some(j2), Some(f), fs, g) ==> g == Some(f)
            &&& is_player_faction(Some(j2), Some(f), fs, Some(f))
            &&& regrouped(j2, f, fs) == j2
        }),
{
    lemma_regrouped_single_faction(joined, f, fs);
    let j2 = regrouped(joined, f, fs);
    let keep = stays_after_joining(f, fs);
    let kept = joined.filter(keep);
    assert forall|i: int| 0 <= i < kept.len() implies keep(#[trigger] kept[i]) by {
        joined.lemma_filter_pred(keep, i);
    }
    assert forall|i: int| 0 <= i < j2.len() implies keep(#[trigger] j2[i]) by {
        if i < kept.len() {
            assert(j2[i] == kept[i]);
        }
    }
    lemma_filter_keeps_all(j2, keep);
    j2.index_of_first_ensures(f);
    let k = j2.index_of_first(f)->0;
    assert(!has_no_faction(j2, fs)) by {
        assert(fs.contains(j2[k]));
    }
    assert forall|g: Option<u64>| is_player_faction(Some(j2), Some(f), fs, g) implies g == Some(f) by {
        let i = choose|i: int| 0 <= i < j2.len() && j2[i] == g->0 && fs.contains(g->0)
            && forall|j: int| 0 <= j < i ==> !fs.contains(#[trigger] j2[j]);
        assert(fs.contains(j2[i]));
    }
    assert(is_first_faction(j2, fs, f)) by {
        assert forall|i: int| 0 <= i < k implies !fs.contains(#[trigger] j2[i]) by {
            if fs.contains(j2[i]) {
                assert(j2[i] == f);
                assert(j2[i] != f);
            }
        }
        assert(j2[k] == f);
    }
}

/// The members of each faction once `player` left `group` (when it was in
/// one): its first occurrence goes, and a faction left without members
/// records none.
pub open spec fn members_after_leave(members: Map<u64, Seq<u64>>, group: Option<u64>, player: u64) -> Map<u64, Seq<u64>> {
    match group {
        Some(g) => if members.contains_key(g) {
            let rest = members[g].remove_value(player);
            if rest.len() == 0 { members.remove(g) } else { members.insert(g, rest) }
        } else {
            members
        },
        None => members,
    }
}

/// The members of each faction once `player` joined `faction`: added at the
/// end of its members, which are created when the faction had none.
pub open spec fn members_after_join(members: Map<u64, Seq<u64>>, faction: Option<u64>, player: u64) -> Map<u64, Seq<u64>> {
    match faction {
        Some(f) => members.insert(f, if members.contains_key(f) { members[f].push(player) } else { seq![player] }),
        None => members,
    }
}

/// The faction reference of a player once the actions are applied: set to
/// its faction where told, and gone where it pointed at no faction.
pub open spec fn faction_ref_after(faction_ref: Option<u64>, res: RegroupActions) -> Option<u64> {
    if res.drop_faction_ref {
        None
    } else if res.set_faction_ref {
        res.faction
    } else {
        faction_ref
    }
}

/// A player of `s` at most once.
proof fn lemma_remove_value_forgets(s: Seq<u64>, x: u64)
    requires
        s.no_duplicates(),
    ensures
        !s.remove_value(x).contains(x),
{
    s.index_of_first_ensures(x);
    match s.index_of_first(x) {
        Some(i) => {
            let r = s.remove(i);
            assert forall|k: int| 0 <= k < r.len() implies r[k] != x by {
                if k < i {
                    assert(r[k] == s[k]);
                } else {
                    assert(r[k] == s[k + 1]);
                }
            }
        },
        None => {},
    }
}

/// Each touched player ends in exactly one faction: when its faction `f`
/// is found, its reference (valid or none before) points at no faction but
/// `f`; its groups hold `f` and no other faction, with every group that is
/// no faction kept; `f` records it as a member; and the group it was in
/// before (which still recorded members, each once) records it no more,
/// unless that group is `f`.
pub proof fn lemma_player_ends_in_one_faction(
    player: u64,
    prev_group: Option<u64>,
    faction_ref: Option<u64>,
    joined: Option<Seq<u64>>,
    fs: Set<u64>,
    members: Map<u64, Seq<u64>>,
    res: RegroupActions,
    f: u64,
)
    requires
        regroup_actions_ok(prev_group, prev_group is Some, faction_ref, joined, fs, res),
        res.faction == Some(f),
        faction_ref is Some ==> fs.contains(faction_ref->0),
        prev_group is Some ==> members.contains_key(prev_group->0) && members[prev_group->0].no_duplicates(),
    ensures
        faction_ref_after(faction_ref, res) == Some(f),
        fs.contains(f),
        res.groups is Some,
        res.groups->0@.contains(f),
        forall|i: int| 0 <= i < res.groups->0@.len() && fs.contains(#[trigger] res.groups->0@[i])
            ==> res.groups->0@[i] == f,
        joined is Some ==> forall|g: u64| #[trigger] joined->0.contains(g) && !fs.contains(g)
            ==> res.groups->0@.contains(g),
        ({
            let after = members_after_join(members_after_leave(members, res.leave, player), res.join, player);
            &&& after.contains_key(f) && after[f].contains(player)
            &&& prev_group is Some && prev_group->0 != f ==>
                !(after.contains_key(prev_group->0) && after[prev_group->0].contains(player))
        }),
{
    let member = match joined {
        Some(j) => !has_no_faction(j, fs),
        None => false,
    };
    if member {
        let j = joined->0;
        let i = choose|i: int| 0 <= i < j.len() && j[i] == f && fs.contains(f)
            && forall|k: int| 0 <= k < i ==> !fs.contains(#[trigger] j[k]);
        assert(fs.contains(f));
    }
    assert(fs.contains(f));
    match joined {
        Some(j) => {
            lemma_regrouped_single_faction(j, f, fs);
        },
        None => {
            let g = seq![f];
            assert(g[0] == f);
            assert(g.contains(f));
        },
    }
    let left = members_after_leave(members, res.leave, player);
    let after = members_after_join(left, res.join, player);
    assert(after[f].contains(player)) by {
        if left.contains_key(f) {
            assert(after[f] == left[f].push(player));
            assert(after[f][after[f].len() - 1] == player);
        } else {
            assert(after[f][0] == player);
        }
    }
    if prev_group is Some && prev_group->0 != f {
        let g = prev_group->0;
        lemma_remove_value_forgets(members[g], player);
    }
}

/// The faction that a player of mine puts under the "mine" marker: the one
/// its reference points at, else the first faction among its groups; only
/// when that is a faction.
pub fn mine_faction(faction_ref: Option<u64>, joined: Option<&Vec<u64>>, factions: &HashSet<u64>) -> (res: Option<u64>)
    ensures
        ({
            let fs = id_set_contents(*factions);
            match faction_ref {
                Some(f) => res == (if fs.contains(f) { Some(f) } else { None::<u64> }),
                None => match joined {
                    Some(j) => (res is None <==> has_no_faction(j@, fs))
                        && (res is Some ==> is_first_faction(j@, fs, res->0)),
                    None => res is None,
                },
            }
        }),
{
    let candidate = match faction_ref {
        Some(f) => Some(f),
        None => match joined {
            Some(j) => first_faction_group(j, factions),
            None => None,
        },
    };
    match candidate {
        Some(f) => if id_set_contains(factions, &f) { Some(f) } else { None },
        None => None,
    }
}

/// The factions that lose and the factions that gain the "mine" marker when
/// the factions of my players go from `prev` to `current`.
pub fn mine_group_changes(prev: &HashSet<u64>, current: &HashSet<u64>) -> (res: (Vec<u64>, Vec<u64>))
    ensures
        res.0@.to_set() == id_set_contents(*prev).difference(id_set_contents(*current)),
        res.1@.to_set() == id_set_contents(*current).difference(id_set_contents(*prev)),
        res.0@.no_duplicates(),
        res.1@.no_duplicates(),
{
    let prev_list = id_set_to_vec(prev);
    let current_list = id_set_to_vec(current);
    let to_remove = ids_not_in(&prev_list, current);
    let to_add = ids_not_in(&current_list, prev);
    (to_remove, to_add)
}

/// The ids of `ids` that `other` lacks, in order.
fn ids_not_in(ids: &Vec<u64>, other: &HashSet<u64>) -> (res: Vec<u64>)
    requires
        ids@.no_duplicates(),
    ensures
        res@.to_set() == ids@.to_set().difference(id_set_contents(*other)),
        res@.no_duplicates(),
{
    broadcast use vstd::seq_lib::lemma_seq_contains_after_push;
    let ghost os = id_set_contents(*other);
    let mut res: Vec<u64> = Vec::new();
    let mut i: usize = 0;
    while i < ids.len()
        invariant
            i <= ids.len(),
            ids@.no_duplicates(),
            os == id_set_contents(*other),
            res@.no_duplicates(),
            forall|x: u64| #[trigger] res@.contains(x) <==> ids@.take(i as int).contains(x) && !os.contains(x),
        decreases ids.len() - i,
    {
        let x = ids[i];
        proof {
            assert(ids@.take(i + 1) == ids@.take(i as int).push(x));
            assert(!ids@.take(i as int).contains(x)) by {
                if ids@.take(i as int).contains(x) {
                    let j = choose|j: int| 0 <= j < i && ids@.take(i as int)[j] == x;
                    assert(ids@[j] == ids@[i as int]);
                }
            }
        }
        if !id_set_contains(other, &x) {
            let ghost before = res@;
            res.push(x);
            proof {
                assert(res@ == before.push(x));
                assert(!before.contains(x));
                assert forall|a: int, b: int| 0 <= a < b < res@.len() implies res@[a] != res@[b] by {
                    if b == res@.len() - 1 {
                        assert(res@[a] == before[a]);
                    } else {
                        assert(res@[a] == before[a] && res@[b] == before[b]);
                    }
                }
                assert forall|y: u64| #[trigger] res@.contains(y) <==> ids@.take(i + 1).contains(y) && !os.contains(y) by {
                    vstd::seq_lib::lemma_seq_contains_after_push(before, x, y);
                    vstd::seq_lib::lemma_seq_contains_after_push(ids@.take(i as int), x, y);
                }
            }
        } else {
            proof {
                assert forall|y: u64| #[trigger] res@.contains(y) <==> ids@.take(i + 1).contains(y) && !os.contains(y) by {
                    vstd::seq_lib::lemma_seq_contains_after_push(ids@.take(i as int), x, y);
                }
            }
        }
        i = i + 1;
    }
    proof {
        assert(ids@.take(ids.len() as int) == ids@);
        assert(res@.to_set() =~= ids@.to_set().difference(os));
    }
    res
}

/// Applying the changes of `mine_group_changes` to the previous set of
/// factions gives the current one.
pub proof fn lemma_mine_changes_apply(prev: Set<u64>, current: Set<u64>)
    ensures
        prev.difference(prev.difference(current)).union(current.difference(prev)) == current,
{
    assert(prev.difference(prev.difference(current)).union(current.difference(prev)) =~= current);
}

/// The members of a faction once `player` left: its first occurrence is
/// taken out.  True when no member is left.
pub fn leave_members(members: &mut Vec<u64>, player: u64) -> (res: bool)
    ensures
        final(members)@ == old(members)@.remove_value(player),
        res == (final(members)@.len() == 0),
{
    let mut i: usize = 0;
    while i < members.len()
        invariant
            i <= members.len(),
            members@ == old(members)@,
            forall|j: int| 0 <= j < i ==> members@[j] != player,
        decreases members.len() - i,
    {
        if members[i] == player {
            proof {
                old(members)@.index_of_first_ensures(player);
                let k = old(members)@.index_of_first(player)->0;
                assert(k == i as int) by {
                    if k < i {
                    } else if k > i {
                    }
                }
            }
            members.remove(i);
            proof {
                assert(members@ =~= old(members)@.remove(i as int));
            }
            return members.len() == 0;
        }
        i = i + 1;
    }
    proof {
        old(members)@.index_of_first_ensures(player);
    }
    members.len() == 0
}

/// The players whose faction is looked at again: every player on the first
/// run, else those whose faction reference or groups changed; and, always,
/// those that lost their reference, their groups or the "mine" marker.
pub fn touched_players(initialized: bool, players: &Vec<(u64, bool)>, removed: &Vec<u64>) -> (res: HashSet<u64>)
    ensures
        forall|p: u64| #[trigger] id_set_contents(res).contains(p) <==> (removed@.contains(p)
            || exists|i: int| 0 <= i < players@.len() && (#[trigger] players@[i]).0 == p && (!initialized || players@[i].1)),
{
    let mut set = id_set_new();
    let mut i: usize = 0;
    while i < removed.len()
        invariant
            i <= removed.len(),
            forall|p: u64| #[trigger] id_set_contents(set).contains(p) <==> exists|j: int| 0 <= j < i && removed@[j] == p,
        decreases removed.len() - i,
    {
        let _ = id_set_insert(&mut set, removed[i]);
        i = i + 1;
    }
    let mut k: usize = 0;
    while k < players.len()
        invariant
            k <= players.len(),
            forall|p: u64| #[trigger] id_set_contents(set).contains(p) <==> (removed@.contains(p)
                || exists|j: int| 0 <= j < k && (#[trigger] players@[j]).0 == p && (!initialized || players@[j].1)),
        decreases players.len() - k,
    {
        let (p, changed) = players[k];
        if !initialized || changed {
            let _ = id_set_insert(&mut set, p);
        }
        k = k + 1;
    }
    set
}


// ---------------------------------------------------------------------------
// Cultures' opinions of races.
// ---------------------------------------------------------------------------

/// A race that a culture's opinion can name: its id, its entity, and whether
/// the entity carries the race prefix (only those count as races).
pub struct RaceEntry {
    pub id: String,
    pub entity: u64,
    pub is_race: bool,
}

/// The entity of the race with id `id`: the last race with that id, as a
/// map filled in order keeps it.
pub open spec fn race_for_id(races: Seq<RaceEntry>, id: Seq<char>) -> Option<u64>
    decreases races.len(),
{
    if races.len() == 0 {
        None
    } else if races.last().is_race && races.last().id@ == id {
        Some(races.last().entity)
    } else {
        race_for_id(races.drop_last(), id)
    }
}

/// A culture's opinions by race entity: each opinion whose race id names a
/// known race, in order, with that race's entity.
pub open spec fn resolved_opinions<V>(races: Seq<RaceEntry>, opinions: Seq<(String, V)>) -> Seq<(u64, V)>
    decreases opinions.len(),
{
    if opinions.len() == 0 {
        Seq::empty()
    } else {
        let rest = resolved_opinions(races, opinions.drop_last());
        match race_for_id(races, opinions.last().0@) {
            Some(e) => rest.push((e, opinions.last().1)),
            None => rest,
        }
    }
}

/// The entity of the race with id `id` (see `race_for_id`).
fn find_race(races: &Vec<RaceEntry>, id: &String) -> (res: Option<u64>)
    ensures
        res == race_for_id(races@, id@),
{
    let mut i: usize = races.len();
    assert(races@.take(i as int) == races@);
    while i > 0
        invariant
            i <= races.len(),
            race_for_id(races@, id@) == race_for_id(races@.take(i as int), id@),
        decreases i,
    {
        proof {
            assert(races@.take(i as int).drop_last() == races@.take(i - 1));
            assert(races@.take(i as int).last() == races@[i - 1]);
        }
        if races[i - 1].is_race && races[i - 1].id == *id {
            return Some(races[i - 1].entity);
        }
        i = i - 1;
    }
    None
}

/// A culture's opinions by race entity (see `resolved_opinions`): the race
/// ids of its opinions are looked up among the known races, and opinions
/// about unknown races are left out.
pub fn resolve_culture_race_opinions<V: Copy>(races: &Vec<RaceEntry>, opinions: &Vec<(String, V)>) -> (res: Vec<(u64, V)>)
    ensures
        res@ == resolved_opinions(races@, opinions@),
{
    let mut out: Vec<(u64, V)> = Vec::new();
    let mut i: usize = 0;
    while i < opinions.len()
        invariant
            i <= opinions.len(),
            out@ == resolved_opinions(races@, opinions@.take(i as int)),
        decreases opinions.len() - i,
    {
        proof {
            assert(opinions@.take(i + 1).drop_last() == opinions@.take(i as int));
            assert(opinions@.take(i + 1).last() == opinions@[i as int]);
        }
        match find_race(races, &opinions[i].0) {
            Some(e) => out.push((e, opinions[i].1)),
            None => {},
        }
        i = i + 1;
    }
    proof {
        assert(opinions@.take(opinions.len() as int) == opinions@);
    }
    out
}

// ---------------------------------------------------------------------------
// Small faction components.
// ---------------------------------------------------------------------------

/// An event between factions, by its numeric id.
#[derive(PartialEq, Eq, Structural, Clone, Copy, Debug)]
pub struct InterFactionEvent(u32);

impl InterFactionEvent {
    /// The event's numeric id.
    pub closed spec fn nid_spec(self) -> u32 {
        self.0
    }

    /// The event with numeric id `nid`.
    pub fn new(nid: u32) -> (res: Self)
        ensures
            res.nid_spec() == nid,
    {
        InterFactionEvent(nid)
    }

    /// The event's numeric id.
    pub fn nid(&self) -> (res: u32)
        ensures
            res == self.nid_spec(),
    {
        self.0
    }
}

} // verus!
