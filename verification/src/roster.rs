use std::collections::{HashMap, HashSet};
use vstd::prelude::*;

use crate::api::{HistoryEntry, PlayerInfo};
use crate::role::Role;
use crate::skill::{lemma_map_walk, walks_all_seats};
use vstd::std_specs::hash::spec_hash_map_iter;
use vstd::std_specs::iter::IteratorSpec;

verus! {

broadcast use {
    vstd::std_specs::hash::group_hash_axioms,
    vstd::multiset::group_multiset_axioms,
    vstd::seq_lib::group_to_multiset_ensures,
};

/// `nums` never goes down.
pub open spec fn is_sorted(nums: Seq<i32>) -> bool {
    forall|i: int, j: int| 0 <= i <= j < nums.len() ==> nums[i] <= nums[j]
}

/// The seats of `roles` in increasing order, each with its role's name and
/// side.
pub open spec fn lists_players(players: Seq<PlayerInfo>, roles: Map<i32, Role>) -> bool {
    &&& players.len() == roles.len()
    &&& forall|i: int, j: int|
        0 <= i < j < players.len() ==> players[i].number < players[j].number
    &&& forall|i: int|
        0 <= i < players.len() ==> {
            let p = #[trigger] players[i];
            &&& roles.contains_key(p.number)
            &&& p.role@ == roles[p.number].name_text()
            &&& p.faction@ == roles[p.number].faction_text()
        }
}

/// The seats 1 to `count` that have not readied, in increasing order.
pub open spec fn unready_seats(count: int, ready: Set<i32>) -> Seq<i32>
    decreases count,
{
    if count <= 0 {
        Seq::empty()
    } else {
        let before = unready_seats(count - 1, ready);
        if ready.contains(count as i32) {
            before
        } else {
            before.push(count as i32)
        }
    }
}

/// A sorted copy of `nums`.
pub fn sorted_numbers(nums: &Vec<i32>) -> (out: Vec<i32>)
    ensures
        out@.to_multiset() == nums@.to_multiset(),
        is_sorted(out@),
{
    let mut out: Vec<i32> = Vec::new();
    for k in 0..nums.len()
        invariant
            out@.to_multiset() == nums@.take(k as int).to_multiset(),
            is_sorted(out@),
    {
        let x = nums[k];
        let mut pos: usize = 0;
        while pos < out.len() && out[pos] <= x
            invariant
                pos <= out.len(),
                forall|i: int| 0 <= i < pos ==> out@[i] <= x,
            decreases out.len() - pos,
        {
            pos = pos + 1;
        }
        let ghost before = out@;
        out.insert(pos, x);
        proof {
            before.insert_ensures(pos as int, x);
            assert(nums@.take(k + 1) =~= nums@.take(k as int).push(x));
            assert forall|i: int, j: int| 0 <= i <= j < out@.len() implies out@[i] <= out@[j] by {
                if i < pos && j > pos {
                    assert(out@[i] == before[i]);
                    assert(out@[j] == before[j - 1]);
                } else if i == pos && j > pos {
                    assert(out@[j] == before[j - 1]);
                    assert(before[pos as int] > x);
                } else if i < pos && j == pos {
                } else if i < pos {
                    assert(out@[i] == before[i]);
                    assert(out@[j] == before[j]);
                } else if i > pos {
                    assert(out@[i] == before[i - 1]);
                    assert(out@[j] == before[j - 1]);
                }
            }
        }
    }
    assert(nums@.take(nums@.len() as int) =~= nums@);
    out
}

/// The seats of `role_map`, each once, in the order the map yields them.
fn seat_numbers(role_map: &HashMap<i32, Role>) -> (nums: Vec<i32>)
    ensures
        walks_all_seats(nums@, role_map@),
{
    let mut nums: Vec<i32> = Vec::new();
    let ghost pairs = spec_hash_map_iter(role_map).remaining();
    for entry in it: role_map.iter()
        invariant
            it.seq() == pairs,
            nums.len() == it.index(),
            forall|i: int| 0 <= i < it.index() ==> nums@[i] == *pairs[i].0,
    {
        let (num, _) = entry;
        nums.push(*num);
    }
    proof {
        lemma_map_walk(role_map, nums@);
    }
    nums
}

/// The seats of `role_map` in increasing order, with the name and side of
/// each seat's role.
pub fn sorted_players(role_map: &HashMap<i32, Role>) -> (players: Vec<PlayerInfo>)
    ensures
        lists_players(players@, role_map@),
{
    let nums = seat_numbers(role_map);
    let sorted = sorted_numbers(&nums);
    proof {
        nums@.lemma_multiset_has_no_duplicates();
        sorted@.lemma_multiset_has_no_duplicates_conv();
        nums@.unique_seq_to_set();
        assert(sorted@.len() == sorted@.to_multiset().len());
        assert(nums@.len() == nums@.to_multiset().len());
        assert forall|i: int| 0 <= i < sorted@.len() implies role_map@.contains_key(
            #[trigger] sorted@[i],
        ) by {
            assert(sorted@.to_multiset().count(sorted@[i]) > 0);
            assert(nums@.contains(sorted@[i]));
            assert(nums@.to_set().contains(sorted@[i]));
        }
    }
    let mut players: Vec<PlayerInfo> = Vec::new();
    for k in 0..sorted.len()
        invariant
            players.len() == k,
            sorted@.len() == role_map@.len(),
            is_sorted(sorted@),
            sorted@.no_duplicates(),
            forall|i: int| 0 <= i < sorted@.len() ==> role_map@.contains_key(#[trigger] sorted@[i]),
            forall|i: int|
                0 <= i < k ==> {
                    let p = #[trigger] players@[i];
                    &&& p.number == sorted@[i]
                    &&& p.role@ == role_map@[p.number].name_text()
                    &&& p.faction@ == role_map@[p.number].faction_text()
                },
    {
        let num = sorted[k];
        assert(role_map@.contains_key(sorted@[k as int]));
        match role_map.get(&num) {
            Some(role) => {
                players.push(
                    PlayerInfo {
                        number: num,
                        role: String::from_str(role.name_cn()),
                        faction: String::from_str(role.faction()),
                    },
                );
            },
            None => {
                assert(false);
            },
        }
    }
    assert forall|i: int, j: int| 0 <= i < j < players@.len() implies players@[i].number
        < players@[j].number by {
        assert(players@[i].number == sorted@[i]);
        assert(players@[j].number == sorted@[j]);
    }
    players
}

/// The history record of a finished deal.
pub fn history_entry(role_map: &HashMap<i32, Role>, game_id: i32, timestamp: String) -> (entry:
    HistoryEntry)
    ensures
        entry.id == game_id,
        entry.timestamp@ == timestamp@,
        lists_players(entry.players@, role_map@),
{
    HistoryEntry { id: game_id, timestamp, players: sorted_players(role_map) }
}

/// The seats 1 to `count` of a table that are not in `ready`, in
/// increasing order.
pub fn unready_numbers(count: i32, ready: &HashSet<i32>) -> (unready: Vec<i32>)
    ensures
        unready@ == unready_seats(count as int, ready@),
{
    let mut unready: Vec<i32> = Vec::new();
    let mut n: i64 = 1;
    while n <= count as i64
        invariant
            1 <= n,
            count < n ==> n <= 1 || n - 1 == count,
            unready@ == unready_seats(n - 1, ready@),
        decreases count + 1 - n,
    {
        let seat = n as i32;
        if !ready.contains(&seat) {
            unready.push(seat);
        }
        n = n + 1;
    }
    unready
}

} // verus!
