use bevy_platform::collections::HashSet;
use game_debug::faction::{
    affiliation_update, first_faction_group, leave_members, mine_faction, mine_group_changes,
    regroup_joined_groups, resolve_culture_race_opinions, resolve_player_faction, touched_players,
    AffiliationUpdate, FactionInstTemplatePool, InterFactionEvent, MarkerChange,
    PlayerFactionResolution, RaceEntry,
};

fn set_of(ids: &[u64]) -> HashSet<u64> {
    let mut s = HashSet::default();
    for id in ids {
        s.insert(*id);
    }
    s
}

#[test]
fn pool_push_appends_under_template() {
    let mut pool = FactionInstTemplatePool::new();
    let bandits = "bandits".to_string();
    pool.push(&bandits, 4);
    pool.push(&bandits, 9);
    pool.push(&"guards".to_string(), 2);
    assert_eq!(pool.0.get("bandits"), Some(&vec![4, 9]));
    assert_eq!(pool.0.get("guards"), Some(&vec![2]));
    assert_eq!(pool.0.len(), 2);
}

#[test]
fn pool_remove_drops_empty_template() {
    let mut pool = FactionInstTemplatePool::new();
    let bandits = "bandits".to_string();
    pool.push(&bandits, 4);
    pool.push(&bandits, 9);
    pool.remove(&bandits, 4);
    assert_eq!(pool.0.get("bandits"), Some(&vec![9]));
    pool.remove(&bandits, 9);
    assert!(pool.0.get("bandits").is_none());
    // removing from a missing template changes nothing
    pool.remove(&"nobody".to_string(), 1);
    assert!(pool.0.is_empty());
}

#[test]
fn pool_remove_undoes_push() {
    let mut pool = FactionInstTemplatePool::new();
    let k = "k".to_string();
    pool.push(&k, 1);
    pool.push(&k, 7);
    pool.remove(&k, 7);
    assert_eq!(pool.0.get("k"), Some(&vec![1]));
}

#[test]
fn affiliation_follows_joined_groups() {
    let player_factions = set_of(&[10, 20]);
    // joined a player faction that is mine: both markers come
    assert_eq!(
        affiliation_update(&vec![5, 10], &player_factions, 10, false, false),
        AffiliationUpdate { player_faction_marker: MarkerChange::Insert, my_faction_marker: MarkerChange::Insert }
    );
    // joined a player faction that is not mine: the "mine" marker goes
    assert_eq!(
        affiliation_update(&vec![20], &player_factions, 10, true, true),
        AffiliationUpdate { player_faction_marker: MarkerChange::Keep, my_faction_marker: MarkerChange::Remove }
    );
    // no player faction at all: both markers go
    assert_eq!(
        affiliation_update(&vec![5], &player_factions, 10, true, true),
        AffiliationUpdate { player_faction_marker: MarkerChange::Remove, my_faction_marker: MarkerChange::Remove }
    );
    // my faction among the groups but it is no player faction
    assert_eq!(
        affiliation_update(&vec![7], &player_factions, 7, false, false),
        AffiliationUpdate { player_faction_marker: MarkerChange::Keep, my_faction_marker: MarkerChange::Keep }
    );
}

#[test]
fn affiliation_settles_after_one_pass() {
    let player_factions = set_of(&[10]);
    let first = affiliation_update(&vec![10], &player_factions, 10, false, true);
    assert_eq!(first.player_faction_marker, MarkerChange::Insert);
    assert_eq!(first.my_faction_marker, MarkerChange::Keep);
    let second = affiliation_update(&vec![10], &player_factions, 10, true, true);
    assert_eq!(second, AffiliationUpdate { player_faction_marker: MarkerChange::Keep, my_faction_marker: MarkerChange::Keep });
}

#[test]
fn first_faction_group_is_first_in_order() {
    let factions = set_of(&[3, 8]);
    assert_eq!(first_faction_group(&vec![1, 8, 3], &factions), Some(8));
    assert_eq!(first_faction_group(&vec![1, 2], &factions), None);
    assert_eq!(first_faction_group(&vec![], &factions), None);
}

#[test]
fn player_faction_prefers_joined_groups() {
    let factions = set_of(&[3, 8]);
    let joined = vec![1, 3];
    assert_eq!(
        resolve_player_faction(Some(&joined), Some(8), &factions),
        PlayerFactionResolution { faction: Some(3), drop_faction_ref: false }
    );
    assert_eq!(
        resolve_player_faction(Some(&vec![1]), Some(8), &factions),
        PlayerFactionResolution { faction: Some(8), drop_faction_ref: false }
    );
    assert_eq!(
        resolve_player_faction(None, Some(99), &factions),
        PlayerFactionResolution { faction: None, drop_faction_ref: true }
    );
    assert_eq!(
        resolve_player_faction(None, None, &factions),
        PlayerFactionResolution { faction: None, drop_faction_ref: false }
    );
}

#[test]
fn regrouping_keeps_one_faction() {
    let factions = set_of(&[3, 8, 9]);
    assert_eq!(regroup_joined_groups(&vec![1, 8, 2, 9], 3, &factions), vec![1, 2, 3]);
    assert_eq!(regroup_joined_groups(&vec![3, 1, 8], 3, &factions), vec![3, 1]);
    assert_eq!(regroup_joined_groups(&vec![], 8, &factions), vec![8]);
}

#[test]
fn mine_faction_prefers_reference() {
    let factions = set_of(&[3, 8]);
    let joined = vec![8];
    assert_eq!(mine_faction(Some(3), Some(&joined), &factions), Some(3));
    assert_eq!(mine_faction(Some(4), Some(&joined), &factions), None);
    assert_eq!(mine_faction(None, Some(&joined), &factions), Some(8));
    assert_eq!(mine_faction(None, Some(&vec![1]), &factions), None);
    assert_eq!(mine_faction(None, None, &factions), None);
}

#[test]
fn mine_group_changes_split_removed_and_added() {
    let prev = set_of(&[1, 2, 3]);
    let current = set_of(&[2, 3, 4, 5]);
    let (mut removed, mut added) = mine_group_changes(&prev, &current);
    removed.sort();
    added.sort();
    assert_eq!(removed, vec![1]);
    assert_eq!(added, vec![4, 5]);
    // applying the changes gives the current set
    let mut applied = prev.clone();
    for r in &removed {
        applied.remove(r);
    }
    for a in &added {
        applied.insert(*a);
    }
    assert_eq!(applied, current);
}

#[test]
fn leaving_takes_out_first_occurrence() {
    let mut members = vec![4, 5, 4];
    assert!(!leave_members(&mut members, 4));
    assert_eq!(members, vec![5, 4]);
    assert!(!leave_members(&mut members, 9));
    assert_eq!(members, vec![5, 4]);
    let mut last = vec![6];
    assert!(leave_members(&mut last, 6));
    assert!(last.is_empty());
}

#[test]
fn touched_players_on_first_and_later_runs() {
    let players = vec![(1, false), (2, true), (3, false)];
    let removed = vec![7];
    assert_eq!(touched_players(false, &players, &removed), set_of(&[1, 2, 3, 7]));
    assert_eq!(touched_players(true, &players, &removed), set_of(&[2, 7]));
}

#[test]
fn culture_opinions_name_known_races() {
    let races = vec![
        RaceEntry { id: "human".to_string(), entity: 11, is_race: true },
        RaceEntry { id: "orc".to_string(), entity: 12, is_race: true },
        RaceEntry { id: "rock".to_string(), entity: 13, is_race: false },
        RaceEntry { id: "human".to_string(), entity: 14, is_race: true },
    ];
    let opinions = vec![
        ("orc".to_string(), -5i32),
        ("elf".to_string(), 3),
        ("human".to_string(), 7),
        ("rock".to_string(), 1),
    ];
    assert_eq!(resolve_culture_race_opinions(&races, &opinions), vec![(12, -5), (14, 7)]);
}

#[test]
fn inter_faction_event_keeps_its_id() {
    assert_eq!(InterFactionEvent::new(42).nid(), 42);
}
