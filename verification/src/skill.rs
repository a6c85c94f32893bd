use std::collections::HashMap;
use vstd::prelude::*;

use crate::api::PollRoleResp;
use crate::role::Role;
use crate::text::{append_decimal, decimal_text};
use vstd::std_specs::hash::spec_hash_map_iter;
use vstd::std_specs::iter::IteratorSpec;

verus! {

broadcast use vstd::std_specs::hash::group_hash_axioms;

/// Whether the holder of `viewer` is told the seat of the holder of `other`.
pub open spec fn sees(viewer: Role, other: Role) -> bool {
    match viewer {
        Role::Merlin => match other {
            Role::Morgana | Role::Assassin | Role::Oberon | Role::MinionOfMordred(_) => true,
            _ => false,
        },
        Role::Percival => match other {
            Role::Morgana | Role::Merlin => true,
            _ => false,
        },
        Role::Morgana => match other {
            Role::Assassin | Role::Mordred | Role::MinionOfMordred(_) => true,
            _ => false,
        },
        Role::Assassin => match other {
            Role::Morgana | Role::Mordred | Role::MinionOfMordred(_) => true,
            _ => false,
        },
        Role::Mordred => match other {
            Role::Morgana | Role::Assassin | Role::MinionOfMordred(_) => true,
            _ => false,
        },
        Role::MinionOfMordred(_) => match other {
            Role::Morgana | Role::Assassin | Role::Mordred => true,
            _ => false,
        },
        Role::LoyalServant(_) | Role::Oberon => false,
    }
}

/// The opening words of a role's skill text; `None` for the roles that are
/// told nothing.
pub open spec fn skill_heading(viewer: Role) -> Option<Seq<char>> {
    match viewer {
        Role::Merlin => Some("邪恶方玩家有： "@),
        Role::Percival => Some("梅林和莫甘娜是："@),
        Role::Morgana | Role::Assassin | Role::Mordred | Role::MinionOfMordred(_) => Some(
            "邪恶同伴是："@,
        ),
        Role::LoyalServant(_) | Role::Oberon => None,
    }
}

/// " N号" for each seat of `seats`, in that order, whose role `viewer` sees.
pub open spec fn seat_list(viewer: Role, seats: Seq<i32>, roles: Map<i32, Role>) -> Seq<char>
    decreases seats.len(),
{
    if seats.len() == 0 {
        Seq::empty()
    } else {
        let before = seat_list(viewer, seats.drop_last(), roles);
        let n = seats.last();
        if sees(viewer, roles[n]) {
            before + " "@ + decimal_text(n as int) + "号"@
        } else {
            before
        }
    }
}

/// The skill text of `viewer` when the seats are walked in the order `seats`.
pub open spec fn skill_text(viewer: Role, seats: Seq<i32>, roles: Map<i32, Role>) -> Seq<char> {
    match skill_heading(viewer) {
        Some(heading) => heading + seat_list(viewer, seats, roles),
        None => Seq::empty(),
    }
}

/// `seats` names each seat of `roles` exactly once.
pub open spec fn walks_all_seats(seats: Seq<i32>, roles: Map<i32, Role>) -> bool {
    &&& seats.no_duplicates()
    &&& seats.to_set() == roles.dom()
}

/// What a player holding `role` is shown once the deal is complete: the
/// name and card of the role, and, when skill information is shown, the
/// seats it sees in some walk over all seats (the order in which the seats
/// come is that of the map, which no one chooses).
pub open spec fn is_role_resp(
    resp: PollRoleResp,
    role: Role,
    roles: Map<i32, Role>,
    show_skill_info: bool,
) -> bool {
    &&& resp.ready
    &&& resp.role@ == role.name_text()
    &&& resp.role_des@ == role.description_text()
    &&& if show_skill_info {
        exists|seats: Seq<i32>|
            walks_all_seats(seats, roles) && #[trigger] skill_text(role, seats, roles)
                == resp.skill_des@
    } else {
        resp.skill_des@ == Seq::<char>::empty()
    }
}

/// Every finite set of seats can be walked, each seat once.
proof fn lemma_seat_walk_exists(seats: Set<i32>) -> (walk: Seq<i32>)
    requires
        seats.finite(),
    ensures
        walk.no_duplicates(),
        walk.to_set() == seats,
    decreases seats.len(),
{
    if seats.len() == 0 {
        assert(seats =~= Set::empty());
        let walk = Seq::<i32>::empty();
        assert(walk.to_set() =~= seats);
        walk
    } else {
        let x = seats.choose();
        let rest = lemma_seat_walk_exists(seats.remove(x));
        let walk = rest.push(x);
        assert(!rest.contains(x)) by {
            if rest.contains(x) {
                assert(rest.to_set().contains(x));
            }
        }
        assert forall|i: int, j: int| 0 <= i < j < walk.len() implies walk[i] != walk[j] by {
            if j == walk.len() - 1 {
                assert(rest.contains(rest[i]));
            }
        }
        assert(walk.to_set() =~= seats) by {
            assert forall|y: i32| seats.contains(y) implies walk.to_set().contains(y) by {
                if y == x {
                    assert(walk[walk.len() - 1] == x);
                } else {
                    assert(rest.to_set().contains(y));
                    let i = choose|i: int| 0 <= i < rest.len() && rest[i] == y;
                    assert(walk[i] == y);
                }
            }
            assert forall|y: i32| walk.to_set().contains(y) implies seats.contains(y) by {
                let i = choose|i: int| 0 <= i < walk.len() && walk[i] == y;
                if i < rest.len() {
                    assert(rest[i] == y);
                    assert(rest.to_set().contains(y));
                }
            }
        }
        walk
    }
}

/// The keys of `role_map` in the order in which `iter` yields its entries
/// name each seat once.
pub proof fn lemma_map_walk(role_map: &HashMap<i32, Role>, seats: Seq<i32>)
    requires
        spec_hash_map_iter(role_map).remaining().no_duplicates(),
        seats.len() == spec_hash_map_iter(role_map).remaining().len(),
        forall|i: int|
            0 <= i < seats.len() ==> seats[i] == *spec_hash_map_iter(role_map).remaining()[i].0,
    ensures
        walks_all_seats(seats, role_map@),
{
    let pairs = spec_hash_map_iter(role_map).remaining();
    assert forall|i: int, j: int| 0 <= i < seats.len() && 0 <= j < seats.len() && i != j
        implies seats[i] != seats[j] by {
        if seats[i] == seats[j] {
            assert(role_map@.contains_key(*pairs[i].0));
            assert(role_map@.contains_key(*pairs[j].0));
            assert(pairs[i] == pairs[j]);
        }
    }
    assert forall|k: i32| #[trigger] role_map@.contains_key(k) implies seats.contains(k) by {
        assert(pairs.contains((&k, &role_map@[k])));
        let i = choose|i: int| 0 <= i < pairs.len() && pairs[i] == (&k, &role_map@[k]);
        assert(seats[i] == k);
    }
    assert forall|k: i32| seats.contains(k) implies #[trigger] role_map@.contains_key(k) by {
        let i = choose|i: int| 0 <= i < seats.len() && seats[i] == k;
        assert(role_map@.contains_key(*pairs[i].0));
    }
    assert(seats.to_set() =~= role_map@.dom());
}

fn sees_role(viewer: &Role, other: &Role) -> (seen: bool)
    ensures
        seen == sees(*viewer, *other),
{
    match viewer {
        Role::Merlin => match other {
            Role::Morgana | Role::Assassin | Role::Oberon | Role::MinionOfMordred(_) => true,
            _ => false,
        },
        Role::Percival => match other {
            Role::Morgana | Role::Merlin => true,
            _ => false,
        },
        Role::Morgana => match other {
            Role::Assassin | Role::Mordred | Role::MinionOfMordred(_) => true,
            _ => false,
        },
        Role::Assassin => match other {
            Role::Morgana | Role::Mordred | Role::MinionOfMordred(_) => true,
            _ => false,
        },
        Role::Mordred => match other {
            Role::Morgana | Role::Assassin | Role::MinionOfMordred(_) => true,
            _ => false,
        },
        Role::MinionOfMordred(_) => match other {
            Role::Morgana | Role::Assassin | Role::Mordred => true,
            _ => false,
        },
        Role::LoyalServant(_) | Role::Oberon => false,
    }
}

/// Walks the seats of `role_map` and lists, after `heading`, those whose
/// role `viewer` sees.
fn list_seen_seats(viewer: &Role, role_map: &HashMap<i32, Role>, heading: &str) -> (des: String)
    ensures
        exists|seats: Seq<i32>|
            walks_all_seats(seats, role_map@) && des@ == heading@ + #[trigger] seat_list(
                *viewer,
                seats,
                role_map@,
            ),
{
    let mut des = String::from_str(heading);
    let ghost mut seats: Seq<i32> = Seq::empty();
    let ghost pairs = spec_hash_map_iter(role_map).remaining();
    for entry in it: role_map.iter()
        invariant
            des@ == heading@ + seat_list(*viewer, seats, role_map@),
            it.seq() == pairs,
            seats.len() == it.index(),
            forall|i: int| 0 <= i < it.index() ==> seats[i] == *pairs[i].0,
    {
        let (num, p_role) = entry;
        assert(role_map@.contains_key(*num) && role_map@[*num] == *p_role);
        if sees_role(viewer, p_role) {
            des.append(" ");
            append_decimal(&mut des, *num as i64);
            des.append("号");
        }
        proof {
            assert(seats.push(*num).drop_last() =~= seats);
            seats = seats.push(*num);
        }
    }
    proof {
        lemma_map_walk(role_map, seats);
    }
    des
}

} // verus!

verus! {

/// What the holder of `role` is shown once every seat has a role: the
/// role's name and card, and, when `show_skill_info` holds, the seats of
/// `role_map` whose roles this role sees, after the role's heading.
pub fn build_poll_role_resp(role: &Role, role_map: &HashMap<i32, Role>, show_skill_info: bool) -> (resp:
    PollRoleResp)
    ensures
        is_role_resp(resp, *role, role_map@, show_skill_info),
{
    let heading: Option<&str> = match role {
        Role::Merlin => Some("邪恶方玩家有： "),
        Role::Percival => Some("梅林和莫甘娜是："),
        Role::LoyalServant(_) => None,
        Role::Morgana => Some("邪恶同伴是："),
        Role::Assassin => Some("邪恶同伴是："),
        Role::Oberon => None,
        Role::Mordred => Some("邪恶同伴是："),
        Role::MinionOfMordred(_) => Some("邪恶同伴是："),
    };
    let skill_des = match heading {
        Some(h) => list_seen_seats(role, role_map, h),
        None => String::new(),
    };
    proof {
        if show_skill_info {
            match heading {
                Some(h) => {
                    let s = choose|seats: Seq<i32>|
                        walks_all_seats(seats, role_map@) && skill_des@ == h@ + seat_list(
                            *role,
                            seats,
                            role_map@,
                        );
                    assert(skill_text(*role, s, role_map@) == skill_des@);
                },
                None => {
                    let s = lemma_seat_walk_exists(role_map@.dom());
                    assert(walks_all_seats(s, role_map@));
                    assert(skill_text(*role, s, role_map@) == skill_des@);
                },
            }
        }
    }
    PollRoleResp {
        ready: true,
        role: String::from_str(role.name_cn()),
        role_des: String::from_str(role.description()),
        skill_des: if show_skill_info {
            skill_des
        } else {
            String::new()
        },
    }
}

} // verus!
