use vstd::prelude::*;

use crate::model::{roles_of, GameView};
use crate::role::Role;
use crate::skill::{sees, walks_all_seats};

verus! {

broadcast use {vstd::multiset::group_multiset_axioms, vstd::seq_lib::group_to_multiset_ensures};

/// A walk over all seats has as many steps as there are seats.
pub proof fn lemma_walk_len(seats: Seq<i32>, roles: Map<i32, Role>)
    requires
        walks_all_seats(seats, roles),
    ensures
        seats.len() == roles.len(),
{
    seats.unique_seq_to_set();
}

/// Accepting a ready seat and dealing it any undealt card keeps the
/// invariant of the dealer.
pub proof fn lemma_deal_keeps_wf(v: GameView, number: i32, index: int)
    requires
        v.wf(),
        v.ready_refusal(number as int) is None,
        0 <= index < v.unassigned.len(),
    ensures
        v.after_deal(number, index).wf(),
{
    let w = v.after_deal(number, index);
    let seats = choose|seats: Seq<i32>|
        walks_all_seats(seats, v.roles) && #[trigger] roles_of(seats, v.roles).to_multiset().add(
            v.unassigned.to_multiset(),
        ) == Role::pool(v.user_count).to_multiset();
    let card = v.unassigned[index];
    let more = seats.push(number);
    assert(!seats.contains(number)) by {
        if seats.contains(number) {
            assert(seats.to_set().contains(number));
        }
    }
    assert(walks_all_seats(more, w.roles)) by {
        assert forall|i: int, j: int| 0 <= i < j < more.len() implies more[i] != more[j] by {
            if j == more.len() - 1 {
                assert(seats.contains(seats[i]));
            }
        }
        assert forall|n: i32| #[trigger] more.to_set().contains(n) <==> w.roles.dom().contains(n) by {
            if n == number {
                assert(more[more.len() - 1] == n);
            } else {
                if more.to_set().contains(n) {
                    let i = choose|i: int| 0 <= i < more.len() && more[i] == n;
                    assert(seats[i] == n);
                    assert(seats.to_set().contains(n));
                }
                if w.roles.dom().contains(n) {
                    assert(seats.to_set().contains(n));
                    let i = choose|i: int| 0 <= i < seats.len() && seats[i] == n;
                    assert(more[i] == n);
                }
            }
        }
        assert(more.to_set() =~= w.roles.dom());
    }
    assert(roles_of(more, w.roles) =~= roles_of(seats, v.roles).push(card)) by {
        assert forall|i: int| 0 <= i < seats.len() implies w.roles[seats[i]] == v.roles[seats[i]] by {
            assert(seats.contains(seats[i]));
        }
    }
    assert(roles_of(more, w.roles).to_multiset().add(w.unassigned.to_multiset())
        =~= roles_of(seats, v.roles).to_multiset().add(v.unassigned.to_multiset()));
    assert forall|n: i32| #[trigger] w.ready.contains(n) implies 1 <= n <= w.user_count by {
        if n != number {
            assert(v.ready.contains(n));
        }
    }
}

} // verus!

verus! {

/// In a sound dealer the dealt roles and the undealt cards number exactly
/// the seats of the table.
pub proof fn lemma_cards_count_seats(v: GameView)
    requires
        v.wf(),
    ensures
        v.roles.len() + v.unassigned.len() == v.user_count,
{
    if v.user_count == 0 {
        assert(v.roles.dom() =~= Set::empty());
    } else {
        let seats = choose|seats: Seq<i32>|
            walks_all_seats(seats, v.roles) && #[trigger] roles_of(seats, v.roles).to_multiset().add(
                v.unassigned.to_multiset(),
            ) == Role::pool(v.user_count).to_multiset();
        lemma_walk_len(seats, v.roles);
        let dealt = roles_of(seats, v.roles);
        assert(dealt.len() == seats.len());
        assert(dealt.to_multiset().len() == dealt.len());
        assert(v.unassigned.to_multiset().len() == v.unassigned.len());
        assert(Role::pool(v.user_count).to_multiset().len() == Role::pool(v.user_count).len());
        assert(Role::pool(v.user_count).len() == v.user_count);
    }
}

/// A seat the dealer accepts always finds a card left to draw.
pub proof fn lemma_accepted_seat_finds_card(v: GameView, number: int)
    requires
        v.wf(),
        v.ready_refusal(number) is None,
    ensures
        v.unassigned.len() > 0,
{
    lemma_cards_count_seats(v);
}

/// Whatever the dealer held, a new game leaves it sound.
pub proof fn lemma_new_game_wf(v: GameView, count: int)
    ensures
        v.after_new_game(count).wf(),
{
    let w = v.after_new_game(count);
    let seats = Seq::<i32>::empty();
    assert(seats.to_set() =~= w.roles.dom());
    assert(roles_of(seats, w.roles) =~= Seq::<Role>::empty());
    assert(roles_of(seats, w.roles).to_multiset().add(w.unassigned.to_multiset())
        =~= Role::pool(w.user_count).to_multiset());
}

/// The dealer before any game is sound.
pub proof fn lemma_initial_wf()
    ensures
        GameView::initial().wf(),
{
    assert(GameView::initial().roles.dom() =~= Set::empty());
}

} // verus!

verus! {

/// Two walks over the same seats find the same roles, whatever their order.
pub proof fn lemma_walks_find_same_roles(first: Seq<i32>, second: Seq<i32>, roles: Map<i32, Role>)
    requires
        first.no_duplicates(),
        second.no_duplicates(),
        first.to_set() == second.to_set(),
    ensures
        roles_of(first, roles).to_multiset() == roles_of(second, roles).to_multiset(),
    decreases first.len(),
{
    if first.len() == 0 {
        second.lemma_cardinality_of_empty_set_is_0();
        first.lemma_cardinality_of_empty_set_is_0();
        assert(roles_of(first, roles) =~= Seq::<Role>::empty());
        assert(roles_of(second, roles) =~= Seq::<Role>::empty());
    } else {
        let last = first.last();
        let rest = first.drop_last();
        assert(first.to_set().contains(last)) by {
            assert(first[first.len() - 1] == last);
        }
        assert(second.to_set().contains(last));
        let j = choose|j: int| 0 <= j < second.len() && second[j] == last;
        let others = second.remove(j);
        assert(!rest.contains(last)) by {
            if rest.contains(last) {
                let i = choose|i: int| 0 <= i < rest.len() && rest[i] == last;
                assert(first[i] == first[first.len() - 1]);
            }
        }
        assert(others.no_duplicates()) by {
            assert forall|a: int, b: int| 0 <= a < b < others.len() implies others[a] != others[b] by {
                let a2 = if a < j { a } else { a + 1 };
                let b2 = if b < j { b } else { b + 1 };
                assert(others[a] == second[a2]);
                assert(others[b] == second[b2]);
            }
        }
        assert(rest.to_set() =~= others.to_set()) by {
            assert forall|n: i32| rest.to_set().contains(n) implies others.to_set().contains(n) by {
                let i = choose|i: int| 0 <= i < rest.len() && rest[i] == n;
                assert(first[i] == n);
                assert(first.to_set().contains(n));
                assert(second.to_set().contains(n));
                let k = choose|k: int| 0 <= k < second.len() && second[k] == n;
                assert(k != j);
                if k < j {
                    assert(others[k] == n);
                } else {
                    assert(others[k - 1] == n);
                }
            }
            assert forall|n: i32| others.to_set().contains(n) implies rest.to_set().contains(n) by {
                let k = choose|k: int| 0 <= k < others.len() && others[k] == n;
                let k2 = if k < j { k } else { k + 1 };
                assert(second[k2] == n);
                assert(k2 != j);
                assert(second.to_set().contains(n));
                assert(first.to_set().contains(n));
                let i = choose|i: int| 0 <= i < first.len() && first[i] == n;
                assert(i != first.len() - 1);
                assert(rest[i] == n);
            }
        }
        lemma_walks_find_same_roles(rest, others, roles);
        assert(roles_of(first, roles) =~= roles_of(rest, roles).push(roles[last]));
        assert(roles_of(others, roles) =~= roles_of(second, roles).remove(j));
        assert(roles_of(second, roles)[j] == roles[last]);
        assert(roles_of(second, roles).to_multiset() =~= roles_of(others, roles).to_multiset().insert(
            roles[last],
        ));
    }
}

/// The dealt roles and the undealt cards together are always the cards of
/// the table: no card is lost, duplicated or made up by dealing, however the
/// dealt seats are walked.
pub proof fn lemma_roles_accounted(v: GameView, seats: Seq<i32>)
    requires
        v.wf(),
        v.user_count > 0,
        walks_all_seats(seats, v.roles),
    ensures
        roles_of(seats, v.roles).to_multiset().add(v.unassigned.to_multiset()) == Role::pool(
            v.user_count,
        ).to_multiset(),
{
    let witness = choose|seats: Seq<i32>|
        walks_all_seats(seats, v.roles) && #[trigger] roles_of(seats, v.roles).to_multiset().add(
            v.unassigned.to_multiset(),
        ) == Role::pool(v.user_count).to_multiset();
    lemma_walks_find_same_roles(seats, witness, v.roles);
}

/// A table of `count` seats has `count` cards.
pub proof fn lemma_pool_fills_table(count: nat)
    requires
        5 <= count <= 10,
    ensures
        Role::pool(count).len() == count,
{
}

/// A seat that readied is refused as already ready when it asks again.
pub proof fn lemma_second_ready_refused(v: GameView, number: i32, index: int)
    requires
        v.wf(),
        v.ready_refusal(number as int) is None,
        0 <= index < v.unassigned.len(),
    ensures
        v.after_deal(number, index).ready_refusal(number as int) == Some(
            (
                "ALREADY_READY"@,
                "player "@ + crate::text::decimal_text(number as int) + " already ready"@,
            ),
        ),
{
}

/// The seats 1 to `count`.
pub open spec fn table_seats(count: int) -> Set<i32> {
    Set::new(|n: i32| 1 <= n <= count)
}

proof fn lemma_table_seats_len(count: int)
    requires
        0 <= count <= 10,
    ensures
        table_seats(count).finite(),
        table_seats(count).len() == count,
    decreases count,
{
    if count == 0 {
        assert(table_seats(count) =~= Set::empty());
    } else {
        lemma_table_seats_len(count - 1);
        assert(table_seats(count) =~= table_seats(count - 1).insert(count as i32));
    }
}

/// In a sound dealer the game is over exactly when every seat of the table
/// has readied, and exactly when no card is left to deal.
pub proof fn lemma_game_over_when_all_ready(v: GameView)
    requires
        v.wf(),
    ensures
        v.is_over() <==> v.ready == table_seats(v.user_count as int),
        v.is_over() <==> v.unassigned.len() == 0,
{
    lemma_cards_count_seats(v);
    lemma_table_seats_len(v.user_count as int);
    let all = table_seats(v.user_count as int);
    if v.user_count == 0 {
        assert(v.ready =~= all);
    } else {
        assert(v.ready.subset_of(all));
        if v.is_over() {
            if v.ready != all {
                let missing = choose|n: i32| all.contains(n) && !v.ready.contains(n);
                assert(!(v.ready =~= all));
                vstd::set_lib::lemma_len_subset(v.ready, all.remove(missing));
            }
        }
        if v.ready == all {
            assert(v.roles.dom() == all);
        }
    }
}

/// A sound dealer never answers GAME_ALREADY_OVER: once every seat holds a
/// role, any seat of the table is refused as already ready first.
pub proof fn lemma_over_game_refuses_as_already_ready(v: GameView, number: int)
    requires
        v.wf(),
    ensures
        v.ready_refusal(number) matches Some(r) ==> r.0 != "GAME_ALREADY_OVER"@,
{
    lemma_game_over_when_all_ready(v);
    if v.ready_refusal(number) matches Some(r) {
        if v.user_count > 0 && 1 <= number <= v.user_count && !v.ready.contains(number as i32)
            && v.roles.len() >= v.user_count {
            lemma_cards_count_seats(v);
            assert(table_seats(v.user_count as int).contains(number as i32));
        }
        assert("GAME_NOT_STARTED"@ != "GAME_ALREADY_OVER"@) by {
            reveal_strlit("GAME_NOT_STARTED");
            reveal_strlit("GAME_ALREADY_OVER");
            assert("GAME_NOT_STARTED"@.len() != "GAME_ALREADY_OVER"@.len());
        }
        assert("INVALID_PLAYER_NUMBER"@ != "GAME_ALREADY_OVER"@) by {
            reveal_strlit("INVALID_PLAYER_NUMBER");
            reveal_strlit("GAME_ALREADY_OVER");
            assert("INVALID_PLAYER_NUMBER"@.len() != "GAME_ALREADY_OVER"@.len());
        }
        assert("ALREADY_READY"@ != "GAME_ALREADY_OVER"@) by {
            reveal_strlit("ALREADY_READY");
            reveal_strlit("GAME_ALREADY_OVER");
            assert("ALREADY_READY"@.len() != "GAME_ALREADY_OVER"@.len());
        }
    }
}

/// A new game opens a fresh table: nobody is ready, no role is dealt, the
/// cards are those of the table, skills are shown again, the finished deal
/// (if any card was dealt) is the last of the history, and no earlier deal
/// is forgotten.
pub proof fn lemma_new_game_fresh_table(v: GameView, count: int)
    ensures
        ({
            let w = v.after_new_game(count);
            &&& w.ready.is_empty()
            &&& w.roles.dom().is_empty()
            &&& !w.is_over()
            &&& w.unassigned == Role::pool(w.user_count)
            &&& 5 <= w.user_count <= 10
            &&& w.show_skill_info
            &&& v.history.is_prefix_of(w.history)
            &&& !v.roles.dom().is_empty() ==> w.history.last() == v.roles
            &&& !v.roles.dom().is_empty() ==> w.history.len() == v.history.len() + 1
            &&& v.roles.dom().is_empty() ==> w.history == v.history
        }),
{
    let w = v.after_new_game(count);
    assert(w.roles.dom() =~= Set::empty());
    assert(w.history.subrange(0, v.history.len() as int) =~= v.history);
}

/// Dealing a card changes neither the history nor the skill setting.
pub proof fn lemma_deal_keeps_history(v: GameView, number: i32, index: int)
    ensures
        v.after_deal(number, index).history == v.history,
        v.after_deal(number, index).show_skill_info == v.show_skill_info,
{
}

/// Flipping the skill setting twice restores the dealer.
pub proof fn lemma_toggle_twice(v: GameView)
    ensures
        v.toggled().toggled() == v,
{
}

} // verus!

verus! {

/// Two cards of the same kind (two loyal servants, two minions, or the
/// same named role).
pub open spec fn same_card(x: Role, y: Role) -> bool {
    match (x, y) {
        (Role::LoyalServant(_), Role::LoyalServant(_)) => true,
        (Role::MinionOfMordred(_), Role::MinionOfMordred(_)) => true,
        _ => x == y,
    }
}

/// Merlin knows the seats of the evil side, all but Mordred's.
pub proof fn lemma_merlin_sees_evil(other: Role)
    ensures
        sees(Role::Merlin, other) <==> (other.is_evil() && other != Role::Mordred),
{
}

/// Percival knows the seats of Merlin and Morgana, without telling them
/// apart.
pub proof fn lemma_percival_sees_merlin_and_morgana(other: Role)
    ensures
        sees(Role::Percival, other) <==> (other == Role::Merlin || other == Role::Morgana),
{
}

/// The evil roles other than Oberon know each other's seats (not those of
/// cards of their own kind), and no good seat.
pub proof fn lemma_evil_team_knows_itself(viewer: Role, other: Role)
    requires
        viewer.is_evil(),
        viewer != Role::Oberon,
    ensures
        sees(viewer, other) <==> (other.is_evil() && other != Role::Oberon && !same_card(
            viewer,
            other,
        )),
{
}

/// Oberon knows no one, and no evil role knows Oberon.
pub proof fn lemma_oberon_plays_apart(viewer: Role, other: Role)
    ensures
        !sees(Role::Oberon, other),
        viewer.is_evil() ==> !sees(viewer, Role::Oberon),
{
}

/// A loyal servant knows no one.
pub proof fn lemma_servant_knows_no_one(viewer: Role, other: Role)
    requires
        viewer is LoyalServant,
    ensures
        !sees(viewer, other),
{
}

} // verus!

verus! {

/// Flipping the skill setting keeps the dealer sound.
pub proof fn lemma_toggle_keeps_wf(v: GameView)
    requires
        v.wf(),
    ensures
        v.toggled().wf(),
{
    if v.user_count > 0 {
        let seats = choose|seats: Seq<i32>|
            walks_all_seats(seats, v.roles) && #[trigger] roles_of(seats, v.roles).to_multiset().add(
                v.unassigned.to_multiset(),
            ) == Role::pool(v.user_count).to_multiset();
        let w = v.toggled();
        assert(w.roles == v.roles && w.unassigned == v.unassigned && w.user_count == v.user_count);
        assert(walks_all_seats(seats, w.roles));
        assert(roles_of(seats, w.roles).to_multiset().add(w.unassigned.to_multiset()) == Role::pool(
            w.user_count,
        ).to_multiset());
    }
}

} // verus!

verus! {

/// A seat that readies receives the undealt card at the index the random
/// source chose among all the undealt cards: that card leaves the undealt
/// cards, the seat holds it, and no other seat's role changes.
pub proof fn lemma_ready_deals_drawn_card(v: GameView, number: i32, d: crate::chance::Draw)
    requires
        d.range() == v.unassigned.len(),
        d.index() < d.range(),
    ensures
        ({
            let w = v.after_deal(number, d.index() as int);
            &&& w.roles[number] == v.unassigned[d.index() as int]
            &&& w.unassigned.len() + 1 == v.unassigned.len()
            &&& w.unassigned.to_multiset().insert(v.unassigned[d.index() as int])
                == v.unassigned.to_multiset()
            &&& forall|n: i32| n != number ==> #[trigger] w.roles.contains_key(n) == v.roles.contains_key(n)
            &&& forall|n: i32| n != number && v.roles.contains_key(n) ==> #[trigger] w.roles[n] == v.roles[n]
            &&& w.ready == v.ready.insert(number)
        }),
{
    let i = d.index() as int;
    assert(v.unassigned.remove(i).to_multiset() =~= v.unassigned.to_multiset().remove(v.unassigned[i]));
    assert(v.unassigned.to_multiset().count(v.unassigned[i]) > 0) by {
        assert(v.unassigned.contains(v.unassigned[i]));
    }
}

/// The seats of a new game: at least five, at most ten, and otherwise the
/// number asked for.
pub proof fn lemma_new_game_seat_count(v: GameView, count: int)
    ensures
        v.after_new_game(count).user_count == vstd::math::min(vstd::math::max(count, 5), 10),
        v.after_new_game(count).unassigned == Role::pool(v.after_new_game(count).user_count),
{
}

/// The seats listed as not ready are exactly the seats 1 to `count` that
/// have not readied, in increasing order.
pub proof fn lemma_unready_seats_exact(count: int, ready: Set<i32>)
    requires
        0 <= count <= i32::MAX,
    ensures
        forall|n: i32|
            crate::roster::unready_seats(count, ready).contains(n) <==> (1 <= n <= count
                && !ready.contains(n)),
        forall|i: int, j: int|
            0 <= i < j < crate::roster::unready_seats(count, ready).len()
                ==> crate::roster::unready_seats(count, ready)[i]
                < crate::roster::unready_seats(count, ready)[j],
        forall|i: int|
            0 <= i < crate::roster::unready_seats(count, ready).len() ==> 1
                <= #[trigger] crate::roster::unready_seats(count, ready)[i] <= count,
    decreases count,
{
    let s = crate::roster::unready_seats(count, ready);
    if count > 0 {
        lemma_unready_seats_exact(count - 1, ready);
        let before = crate::roster::unready_seats(count - 1, ready);
        assert forall|n: i32| s.contains(n) <==> (1 <= n <= count && !ready.contains(n)) by {
            if s.contains(n) {
                let i = choose|i: int| 0 <= i < s.len() && s[i] == n;
                if i < before.len() {
                    assert(before[i] == n);
                    assert(before.contains(n));
                }
            }
            if 1 <= n <= count && !ready.contains(n) {
                if n < count {
                    assert(before.contains(n));
                    let i = choose|i: int| 0 <= i < before.len() && before[i] == n;
                    assert(s[i] == n);
                } else {
                    assert(s[s.len() - 1] == n);
                }
            }
        }
    }
}

/// The entry of one seat in a skill text: a space, the seat's number and 号.
pub open spec fn seat_entry(n: i32) -> Seq<char> {
    " "@ + crate::text::decimal_text(n as int) + "号"@
}

/// Walking the seats of `seats`, a skill list names, each once, exactly the
/// seats whose roles `viewer` sees, and nothing else; this does not depend
/// on the table's size.
pub proof fn lemma_seat_list_names_seen_seats(
    viewer: Role,
    seats: Seq<i32>,
    roles: Map<i32, Role>,
) -> (listed: Seq<i32>)
    requires
        seats.no_duplicates(),
    ensures
        listed.no_duplicates(),
        forall|n: i32| listed.contains(n) <==> (seats.contains(n) && sees(viewer, roles[n])),
        crate::skill::seat_list(viewer, seats, roles) == listed.map_values(|n: i32| seat_entry(n)).flatten(),
    decreases seats.len(),
{
    broadcast use Seq::lemma_flatten_push;

    if seats.len() == 0 {
        let listed = Seq::<i32>::empty();
        assert(listed.map_values(|n: i32| seat_entry(n)) =~= Seq::<Seq<char>>::empty());
        listed
    } else {
        let rest = seats.drop_last();
        let last = seats.last();
        assert(rest.no_duplicates());
        let prev = lemma_seat_list_names_seen_seats(viewer, rest, roles);
        assert(!rest.contains(last)) by {
            if rest.contains(last) {
                let i = choose|i: int| 0 <= i < rest.len() && rest[i] == last;
                assert(seats[i] == seats[seats.len() - 1]);
            }
        }
        assert forall|n: i32| seats.contains(n) <==> (rest.contains(n) || n == last) by {
            if seats.contains(n) {
                let i = choose|i: int| 0 <= i < seats.len() && seats[i] == n;
                if i < rest.len() {
                    assert(rest[i] == n);
                }
            }
            if rest.contains(n) {
                let i = choose|i: int| 0 <= i < rest.len() && rest[i] == n;
                assert(seats[i] == n);
            }
            if n == last {
                assert(seats[seats.len() - 1] == n);
            }
        }
        if sees(viewer, roles[last]) {
            let listed = prev.push(last);
            assert(listed.no_duplicates()) by {
                assert forall|a: int, b: int| 0 <= a < b < listed.len() implies listed[a] != listed[b] by {
                    if b == listed.len() - 1 {
                        assert(prev.contains(prev[a]));
                    }
                }
            }
            assert forall|n: i32| listed.contains(n) <==> (seats.contains(n) && sees(viewer, roles[n])) by {
                if listed.contains(n) {
                    let i = choose|i: int| 0 <= i < listed.len() && listed[i] == n;
                    if i < prev.len() {
                        assert(prev[i] == n);
                        assert(prev.contains(n));
                    }
                }
                if seats.contains(n) && sees(viewer, roles[n]) {
                    if n == last {
                        assert(listed[listed.len() - 1] == n);
                    } else {
                        assert(prev.contains(n));
                        let i = choose|i: int| 0 <= i < prev.len() && prev[i] == n;
                        assert(listed[i] == n);
                    }
                }
            }
            assert(listed.map_values(|n: i32| seat_entry(n)) =~= prev.map_values(|n: i32| seat_entry(n)).push(
                seat_entry(last),
            ));
            let before = crate::skill::seat_list(viewer, rest, roles);
            assert(before + " "@ + crate::text::decimal_text(last as int) + "号"@ =~= before
                + seat_entry(last));
            listed
        } else {
            assert forall|n: i32| prev.contains(n) <==> (seats.contains(n) && sees(viewer, roles[n])) by {
            }
            prev
        }
    }
}

/// What a role is told once every seat has a role and skills are shown:
/// its heading, then exactly the seats whose roles it sees, each once (in
/// the order the seats were walked); the roles told nothing get no text.
pub proof fn lemma_role_resp_names_seen_seats(
    resp: crate::api::PollRoleResp,
    role: Role,
    roles: Map<i32, Role>,
)
    requires
        crate::skill::is_role_resp(resp, role, roles, true),
    ensures
        exists|listed: Seq<i32>|
            {
                &&& listed.no_duplicates()
                &&& forall|n: i32|
                    #[trigger] listed.contains(n) <==> (roles.contains_key(n) && sees(role, roles[n]))
                &&& resp.skill_des@ == match role {
                    Role::Merlin => "邪恶方玩家有： "@ + listed.map_values(|n: i32| seat_entry(n)).flatten(),
                    Role::Percival => "梅林和莫甘娜是："@ + listed.map_values(|n: i32| seat_entry(n)).flatten(),
                    Role::LoyalServant(_) | Role::Oberon => Seq::<char>::empty(),
                    _ => "邪恶同伴是："@ + listed.map_values(|n: i32| seat_entry(n)).flatten(),
                }
            },
{
    let seats = choose|seats: Seq<i32>|
        walks_all_seats(seats, roles) && #[trigger] crate::skill::skill_text(role, seats, roles)
            == resp.skill_des@;
    let listed = lemma_seat_list_names_seen_seats(role, seats, roles);
    assert forall|n: i32| #[trigger] listed.contains(n) <==> (roles.contains_key(n) && sees(role, roles[n])) by {
        assert(seats.contains(n) <==> seats.to_set().contains(n));
    }
    match role {
        Role::LoyalServant(_) | Role::Oberon => {
            assert(listed.no_duplicates());
        },
        _ => {},
    }
}

} // verus!

verus! {

/// An interface whose address players can reach: its name starts with none
/// of "lo", "docker", "utun", and it has an IPv4 address in 10.0.0.0/8,
/// 172.16.0.0/12 or 192.168.0.0/16.
pub open spec fn is_lan_interface(iface: (Seq<char>, Option<(u8, u8, u8, u8)>)) -> bool {
    &&& !"lo"@.is_prefix_of(iface.0)
    &&& !"docker"@.is_prefix_of(iface.0)
    &&& !"utun"@.is_prefix_of(iface.0)
    &&& iface.1 matches Some(ip) && (ip.0 == 10 || (ip.0 == 172 && 16 <= ip.1 && ip.1 <= 31) || (
    ip.0 == 192 && ip.1 == 168))
}

/// The machine's address is that of the first reachable interface, in
/// dotted decimal; with no reachable interface it is 127.0.0.1.
pub proof fn lemma_local_ip_is_first_lan_address(
    interfaces: Seq<(Seq<char>, Option<(u8, u8, u8, u8)>)>,
)
    ensures
        forall|i: int|
            0 <= i < interfaces.len() && is_lan_interface(#[trigger] interfaces[i]) && (forall|j: int|
                0 <= j < i ==> !is_lan_interface(interfaces[j])) ==> {
                let ip = interfaces[i].1->0;
                crate::net::chosen_ip(interfaces) == crate::text::decimal_text(ip.0 as int) + "."@
                    + crate::text::decimal_text(ip.1 as int) + "."@ + crate::text::decimal_text(
                    ip.2 as int,
                ) + "."@ + crate::text::decimal_text(ip.3 as int)
            },
        (forall|i: int| 0 <= i < interfaces.len() ==> !is_lan_interface(#[trigger] interfaces[i]))
            ==> crate::net::chosen_ip(interfaces) == "127.0.0.1"@,
    decreases interfaces.len(),
{
    if interfaces.len() > 0 {
        let rest = interfaces.drop_first();
        lemma_local_ip_is_first_lan_address(rest);
        assert forall|i: int|
            0 <= i < interfaces.len() && is_lan_interface(#[trigger] interfaces[i]) && (forall|j: int|
                0 <= j < i ==> !is_lan_interface(interfaces[j])) implies {
                let ip = interfaces[i].1->0;
                crate::net::chosen_ip(interfaces) == crate::text::decimal_text(ip.0 as int) + "."@
                    + crate::text::decimal_text(ip.1 as int) + "."@ + crate::text::decimal_text(
                    ip.2 as int,
                ) + "."@ + crate::text::decimal_text(ip.3 as int)
            } by {
            if i > 0 {
                assert(!is_lan_interface(interfaces[0]));
                assert(rest[i - 1] == interfaces[i]);
                assert forall|j: int| 0 <= j < i - 1 implies !is_lan_interface(rest[j]) by {
                    assert(rest[j] == interfaces[j + 1]);
                }
            }
        }
        if forall|i: int| 0 <= i < interfaces.len() ==> !is_lan_interface(#[trigger] interfaces[i]) {
            assert(!is_lan_interface(interfaces[0]));
            assert forall|i: int| 0 <= i < rest.len() implies !is_lan_interface(#[trigger] rest[i]) by {
                assert(rest[i] == interfaces[i + 1]);
            }
        }
    }
}

} // verus!

verus! {

/// The number a string of decimal digits denotes.
pub open spec fn decimal_value(digits: Seq<char>) -> int
    decreases digits.len(),
{
    if digits.len() == 0 {
        0
    } else {
        10 * decimal_value(digits.drop_last()) + (digits.last() as int - '0' as int)
    }
}

proof fn lemma_digit_char_value(k: nat)
    requires
        k < 10,
    ensures
        crate::text::digit_char(k) as int - '0' as int == k,
        '0' <= crate::text::digit_char(k) <= '9',
{
    assert('0' as int == 48);
    assert('9' as int == 57);
    if k == 0 {
    } else if k == 1 {
        assert('1' as int == 49);
    } else if k == 2 {
        assert('2' as int == 50);
    } else if k == 3 {
        assert('3' as int == 51);
    } else if k == 4 {
        assert('4' as int == 52);
    } else if k == 5 {
        assert('5' as int == 53);
    } else if k == 6 {
        assert('6' as int == 54);
    } else if k == 7 {
        assert('7' as int == 55);
    } else if k == 8 {
        assert('8' as int == 56);
    }
}

/// The digits written for a number are decimal digits, start with a
/// non-zero digit unless the number is zero, and read back as the number.
pub proof fn lemma_digits_read_back(n: nat)
    ensures
        crate::text::digits_of(n).len() > 0,
        forall|i: int|
            0 <= i < crate::text::digits_of(n).len() ==> '0' <= #[trigger] crate::text::digits_of(
                n,
            )[i] <= '9',
        crate::text::digits_of(n)[0] != '0' || n == 0,
        decimal_value(crate::text::digits_of(n)) == n,
    decreases n,
{
    let d = crate::text::digits_of(n);
    lemma_digit_char_value(n % 10);
    if n < 10 {
        assert(d.drop_last() =~= Seq::<char>::empty());
        assert(n % 10 == n);
        assert(d.last() == crate::text::digit_char(n));
        assert(decimal_value(d) == 10 * decimal_value(d.drop_last()) + (d.last() as int - '0' as int));
        assert(decimal_value(Seq::<char>::empty()) == 0);
    } else {
        lemma_digits_read_back(n / 10);
        let before = crate::text::digits_of(n / 10);
        assert(d.drop_last() =~= before);
        assert forall|i: int| 0 <= i < d.len() implies '0' <= #[trigger] d[i] <= '9' by {
            if i < before.len() {
                assert(d[i] == before[i]);
            }
        }
        assert(d[0] == before[0]);
        assert(d.last() == crate::text::digit_char(n % 10));
        assert(decimal_value(d) == 10 * decimal_value(before) + (d.last() as int - '0' as int));
        assert(n == 10 * (n / 10) + n % 10);
    }
}

/// A number as text: a minus sign exactly for negative numbers, then the
/// digits of its magnitude.
pub proof fn lemma_decimal_text_reads_back(n: int)
    ensures
        crate::text::decimal_text(n).len() > 0,
        (crate::text::decimal_text(n)[0] == '-') <==> n < 0,
        n >= 0 ==> decimal_value(crate::text::decimal_text(n)) == n,
        n < 0 ==> decimal_value(crate::text::decimal_text(n).drop_first()) == -n,
{
    if n < 0 {
        lemma_digits_read_back((-n) as nat);
        assert(crate::text::decimal_text(n).drop_first() =~= crate::text::digits_of((-n) as nat));
    } else {
        lemma_digits_read_back(n as nat);
    }
}

} // verus!
