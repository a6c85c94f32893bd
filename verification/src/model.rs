use vstd::prelude::*;

use crate::role::Role;
use crate::skill::walks_all_seats;
use crate::text::decimal_text;

verus! {

/// The state of the dealer as mathematics sees it.
pub struct GameView {
    /// Seats at the table; zero before the first game.
    pub user_count: nat,
    /// The role dealt to each seat that has readied.
    pub roles: Map<i32, Role>,
    /// The seats that have readied.
    pub ready: Set<i32>,
    /// The cards not dealt yet.
    pub unassigned: Seq<Role>,
    /// The deals of earlier games, oldest first.
    pub history: Seq<Map<i32, Role>>,
    /// How many games were started.
    pub game_counter: int,
    /// Whether players are told what their role sees.
    pub show_skill_info: bool,
}

/// The roles of the seats of `seats`, in that order.
pub open spec fn roles_of(seats: Seq<i32>, roles: Map<i32, Role>) -> Seq<Role> {
    seats.map_values(|n: i32| roles[n])
}

/// The number of seats of a new game asked for `count` seats: at least
/// five, at most ten.
pub open spec fn clamp_count(count: int) -> nat {
    if count < 5 {
        5
    } else if count > 10 {
        10
    } else {
        count as nat
    }
}

/// A refusal: its code and its message.
pub open spec fn refusal(code: Seq<char>, message: Seq<char>) -> (Seq<char>, Seq<char>) {
    (code, message)
}

impl GameView {
    /// The dealer before the first game.
    pub open spec fn initial() -> GameView {
        GameView {
            user_count: 0,
            roles: Map::empty(),
            ready: Set::empty(),
            unassigned: Seq::empty(),
            history: Seq::empty(),
            game_counter: 0,
            show_skill_info: true,
        }
    }

    /// The invariant of the dealer: each readied seat holds one role and
    /// nothing else does; the seats are those of the table; and the dealt
    /// roles together with the undealt cards are the cards of the table.
    pub open spec fn wf(self) -> bool {
        &&& self.roles.dom().finite()
        &&& self.ready == self.roles.dom()
        &&& if self.user_count == 0 {
            &&& self.roles.dom().is_empty()
            &&& self.unassigned.len() == 0
        } else {
            &&& 5 <= self.user_count <= 10
            &&& forall|n: i32| #[trigger] self.ready.contains(n) ==> 1 <= n <= self.user_count
            &&& exists|seats: Seq<i32>|
                walks_all_seats(seats, self.roles) && #[trigger] roles_of(
                    seats,
                    self.roles,
                ).to_multiset().add(self.unassigned.to_multiset()) == Role::pool(
                    self.user_count,
                ).to_multiset()
        }
    }

    /// Every seat of the table holds a role.
    pub open spec fn is_over(self) -> bool {
        self.roles.len() == self.user_count
    }

    /// The dealer after a new game asked for `count` seats: the finished
    /// deal, if any card was dealt, goes to the history; the table gets the
    /// cards of its size and nobody is ready.
    pub open spec fn after_new_game(self, count: int) -> GameView {
        let seats = clamp_count(count);
        GameView {
            user_count: seats,
            roles: Map::empty(),
            ready: Set::empty(),
            unassigned: Role::pool(seats),
            history: if self.roles.dom().is_empty() {
                self.history
            } else {
                self.history.push(self.roles)
            },
            game_counter: self.game_counter + 1,
            show_skill_info: true,
        }
    }

    /// Why the dealer refuses seat `number` as ready, checked in this order;
    /// `None` when it accepts.
    pub open spec fn ready_refusal(self, number: int) -> Option<(Seq<char>, Seq<char>)> {
        if self.user_count == 0 {
            Some(refusal("GAME_NOT_STARTED"@, "game not started, create a new game first"@))
        } else if number < 1 || number > self.user_count {
            Some(
                refusal(
                    "INVALID_PLAYER_NUMBER"@,
                    "number must be between 1 and "@ + decimal_text(self.user_count as int),
                ),
            )
        } else if self.ready.contains(number as i32) {
            Some(refusal("ALREADY_READY"@, "player "@ + decimal_text(number) + " already ready"@))
        } else if self.roles.len() >= self.user_count {
            Some(refusal("GAME_ALREADY_OVER"@, "game already over, start a new game"@))
        } else {
            None
        }
    }

    /// The dealer after seat `number` drew the undealt card at `index`.
    pub open spec fn after_draw(self, number: i32, index: int) -> GameView {
        GameView {
            roles: self.roles.insert(number, self.unassigned[index]),
            unassigned: self.unassigned.remove(index),
            ..self
        }
    }

    /// The dealer after seat `number` readied and drew the undealt card at
    /// `index`.
    pub open spec fn after_deal(self, number: i32, index: int) -> GameView {
        GameView { ready: self.ready.insert(number), ..self }.after_draw(number, index)
    }

    /// The dealer after the admin flipped whether skills are shown.
    pub open spec fn toggled(self) -> GameView {
        GameView { show_skill_info: !self.show_skill_info, ..self }
    }
}

} // verus!
