use std::collections::{HashMap, HashSet};
use vstd::prelude::*;

use crate::api::{
    AppError, CurrentGameResp, HistoryEntry, NewGameResp, PollRoleResp, ReadyResp,
    SkillInfoStatusResp,
};
use crate::chance::{current_timestamp, draw, Draw};
use crate::laws::{lemma_accepted_seat_finds_card, lemma_deal_keeps_wf, lemma_new_game_wf};
use crate::model::{clamp_count, GameView};
use crate::role::Role;
use crate::roster::{history_entry, lists_players, sorted_players, unready_numbers, unready_seats};
use crate::skill::{build_poll_role_resp, is_role_resp};
use crate::text::{append_decimal, decimal_text};

verus! {

broadcast use vstd::std_specs::hash::group_hash_axioms;

/// The dealer of one table: who readied, which role each readied seat
/// drew, which cards are left, and the deals of earlier games.
pub struct GameState {
    user_count: usize,
    player_role_map: HashMap<i32, Role>,
    player_ready_set: HashSet<i32>,
    unassigned_role: Vec<Role>,
    history_role_map: Vec<HashMap<i32, Role>>,
    game_counter: i32,
    show_skill_info: bool,
    last_draw: Option<Draw>,
}

impl View for GameState {
    type V = GameView;

    closed spec fn view(&self) -> GameView {
        GameView {
            user_count: self.user_count as nat,
            roles: self.player_role_map@,
            ready: self.player_ready_set@,
            unassigned: self.unassigned_role@,
            history: self.history_role_map@.map_values(|m: HashMap<i32, Role>| m@),
            game_counter: self.game_counter as int,
            show_skill_info: self.show_skill_info,
        }
    }
}

/// A refusal with the given code and message.
fn app_error(code: &str, message: String) -> (e: AppError)
    ensures
        e.error@ == code@,
        e.message@ == message@,
{
    AppError { error: String::from_str(code), message }
}

/// Draws a random undealt card for seat `num`; fails, changing nothing,
/// when no card is left.
fn gen_player_role(num: i32, state: &mut GameState) -> (result: Result<i32, String>)
    ensures
        match result {
            Ok(code) => {
                &&& code == 0
                &&& exists|index: int|
                    0 <= index < old(state)@.unassigned.len() && final(state)@ == old(
                        state,
                    )@.after_draw(num, index)
                &&& final(state).last_draw() matches Some(d)
                &&& d.range() == old(state)@.unassigned.len()
                &&& final(state)@ == old(state)@.after_draw(num, d.index() as int)
            },
            Err(message) => {
                &&& old(state)@.unassigned.len() == 0
                &&& message@ == "no roles left to assign"@
                &&& final(state)@ == old(state)@
                &&& final(state).last_draw() == old(state).last_draw()
            },
        },
{
    if state.unassigned_role.len() == 0 {
        return Err(String::from_str("no roles left to assign"));
    }
    let drawn = draw(state.unassigned_role.len());
    state.draw_role(num, drawn.chosen());
    state.last_draw = Some(drawn);
    Ok(0)
}

impl GameState {
    /// The last answer of the random source used to deal a card, if any
    /// card was dealt.
    pub closed spec fn last_draw(&self) -> Option<Draw> {
        self.last_draw
    }

    /// The dealer before the first game: no table, no cards, skills shown.
    pub fn new() -> (state: GameState)
        ensures
            state@ == GameView::initial(),
            state@.wf(),
    {
        let state = GameState {
            user_count: 0,
            player_role_map: HashMap::new(),
            player_ready_set: HashSet::new(),
            unassigned_role: Vec::new(),
            history_role_map: Vec::new(),
            game_counter: 0,
            show_skill_info: true,
            last_draw: None,
        };
        proof {
            assert(state@.history =~= Seq::empty());
            crate::laws::lemma_initial_wf();
        }
        state
    }

    /// Seat `num` takes the undealt card at `index`.
    fn draw_role(&mut self, num: i32, index: usize)
        requires
            index < old(self)@.unassigned.len(),
        ensures
            final(self)@ == old(self)@.after_draw(num, index as int),
    {
        let role = self.unassigned_role.remove(index);
        self.player_role_map.insert(num, role);
        assert(self@.history =~= old(self)@.history);
    }

    /// Starts a new game of `count` seats, clamped to 5..=10: the deal of
    /// the game before, if any card was dealt, goes to the history.
    pub fn new_game(&mut self, count: usize) -> (resp: NewGameResp)
        requires
            old(self)@.wf(),
            old(self)@.game_counter < i32::MAX,
        ensures
            final(self)@ == old(self)@.after_new_game(count as int),
            final(self)@.wf(),
            resp.des@ == "new game with "@ + decimal_text(clamp_count(count as int) as int)
                + " players"@,
    {
        let ghost before = self@;
        if !self.player_role_map.is_empty() {
            let snapshot = self.player_role_map.clone();
            self.history_role_map.push(snapshot);
        }
        let seats = if count < 5 {
            5
        } else if count > 10 {
            10
        } else {
            count
        };
        self.player_ready_set.clear();
        self.player_role_map.clear();
        self.unassigned_role = Role::role_pool(seats);
        self.user_count = seats;
        self.show_skill_info = true;
        self.game_counter = self.game_counter + 1;
        let mut des = String::from_str("new game with ");
        append_decimal(&mut des, seats as i64);
        des.append(" players");
        proof {
            assert(self@.history =~= before.after_new_game(count as int).history);
            assert(self@.roles =~= Map::empty());
            assert(self@.ready =~= Set::empty());
            lemma_new_game_wf(before, count as int);
        }
        NewGameResp { des }
    }

    /// Seat `number` says it is ready. The dealer refuses it (and changes
    /// nothing) before the first game, outside seats 1 to the table's size,
    /// when the seat already readied, and when every card is dealt;
    /// otherwise the seat readies and draws a random undealt card.
    pub fn player_ready(&mut self, number: i32) -> (result: Result<ReadyResp, AppError>)
        requires
            old(self)@.wf(),
        ensures
            final(self)@.wf(),
            match result {
                Ok(resp) => {
                    &&& old(self)@.ready_refusal(number as int) is None
                    &&& resp.number == number
                    &&& resp.ready
                    &&& exists|index: int|
                        0 <= index < old(self)@.unassigned.len() && final(self)@ == old(
                            self,
                        )@.after_deal(number, index)
                    &&& final(self).last_draw() matches Some(d)
                    &&& d.range() == old(self)@.unassigned.len()
                    &&& final(self)@ == old(self)@.after_deal(number, d.index() as int)
                },
                Err(e) => {
                    &&& old(self)@.ready_refusal(number as int) == Some((e.error@, e.message@))
                    &&& final(self)@ == old(self)@
                    &&& final(self).last_draw() == old(self).last_draw()
                },
            },
    {
        let ghost before = self@;
        if self.user_count == 0 {
            return Err(
                app_error(
                    "GAME_NOT_STARTED",
                    String::from_str("game not started, create a new game first"),
                ),
            );
        }
        if number < 1 || number > self.user_count as i32 {
            let mut message = String::from_str("number must be between 1 and ");
            append_decimal(&mut message, self.user_count as i64);
            return Err(app_error("INVALID_PLAYER_NUMBER", message));
        }
        if self.player_ready_set.contains(&number) {
            let mut message = String::from_str("player ");
            append_decimal(&mut message, number as i64);
            message.append(" already ready");
            return Err(app_error("ALREADY_READY", message));
        }
        if self.player_role_map.len() >= self.user_count {
            return Err(
                app_error("GAME_ALREADY_OVER", String::from_str("game already over, start a new game")),
            );
        }
        proof {
            lemma_accepted_seat_finds_card(before, number as int);
        }
        self.player_ready_set.insert(number);
        let dealt = gen_player_role(number, self);
        match dealt {
            Ok(_) => {},
            Err(message) => {
                return Err(app_error("NO_ROLES_LEFT", message));
            },
        }
        proof {
            let index = choose|index: int|
                0 <= index < before.unassigned.len() && self@ == GameView {
                    ready: before.ready.insert(number),
                    ..before
                }.after_draw(number, index);
            assert(self@ == before.after_deal(number, index));
            lemma_deal_keeps_wf(before, number, index);
        }
        Ok(ReadyResp { number, ready: true })
    }

    /// What seat `number` is shown of its role: nothing while seats are
    /// still to ready; once every seat holds a role, its role as
    /// `build_poll_role_resp` shows it, or PLAYER_NOT_FOUND for a seat
    /// that holds none.
    pub fn poll_player_role(&self, number: i32) -> (result: Result<PollRoleResp, AppError>)
        ensures
            self@.roles.len() < self@.user_count ==> (result matches Ok(resp) && !resp.ready
                && resp.role@ == Seq::<char>::empty() && resp.role_des@ == Seq::<char>::empty()
                && resp.skill_des@ == Seq::<char>::empty()),
            self@.roles.len() >= self@.user_count && !self@.roles.contains_key(number) ==> (
            result matches Err(e) && e.error@ == "PLAYER_NOT_FOUND"@ && e.message@
                == "player not found"@),
            self@.roles.len() >= self@.user_count && self@.roles.contains_key(number) ==> (
            result matches Ok(resp) && is_role_resp(
                resp,
                self@.roles[number],
                self@.roles,
                self@.show_skill_info,
            )),
    {
        if self.player_role_map.len() < self.user_count {
            return Ok(
                PollRoleResp {
                    ready: false,
                    role: String::new(),
                    role_des: String::new(),
                    skill_des: String::new(),
                },
            );
        }
        match self.player_role_map.get(&number) {
            Some(role) => Ok(build_poll_role_resp(role, &self.player_role_map, self.show_skill_info)),
            None => Err(app_error("PLAYER_NOT_FOUND", String::from_str("player not found"))),
        }
    }

    /// The role event of seat `number`: once every seat holds a role and
    /// this seat holds one, what the seat is shown; before that, nothing.
    pub fn completed_role(&self, number: i32) -> (event: Option<PollRoleResp>)
        ensures
            event is Some <==> (self@.roles.len() >= self@.user_count
                && self@.roles.contains_key(number)),
            event matches Some(resp) ==> is_role_resp(
                resp,
                self@.roles[number],
                self@.roles,
                self@.show_skill_info,
            ),
    {
        if self.player_role_map.len() >= self.user_count {
            match self.player_role_map.get(&number) {
                Some(role) => Some(
                    build_poll_role_resp(role, &self.player_role_map, self.show_skill_info),
                ),
                None => None,
            }
        } else {
            None
        }
    }

    /// Whether every seat of the table holds a role.
    pub fn is_game_over(&self) -> (over: bool)
        ensures
            over == self@.is_over(),
    {
        self.player_role_map.len() == self.user_count
    }

    /// The admin's view: whether every seat holds a role, the table's size,
    /// the dealt seats in increasing order with their roles, and the seats
    /// not ready yet in increasing order.
    pub fn admin_current_game(&self) -> (resp: CurrentGameResp)
        requires
            self@.wf(),
        ensures
            resp.game_over == self@.is_over(),
            resp.player_count == self@.user_count,
            lists_players(resp.players@, self@.roles),
            resp.unready_numbers@ == unready_seats(self@.user_count as int, self@.ready),
    {
        let game_over = self.player_role_map.len() == self.user_count;
        let players = sorted_players(&self.player_role_map);
        let unready = unready_numbers(self.user_count as i32, &self.player_ready_set);
        CurrentGameResp {
            game_over,
            player_count: self.user_count,
            players,
            unready_numbers: unready,
        }
    }

    /// Whether players are shown what their role sees.
    pub fn admin_skill_info_status(&self) -> (resp: SkillInfoStatusResp)
        ensures
            resp.show_skill_info == self@.show_skill_info,
    {
        SkillInfoStatusResp { show_skill_info: self.show_skill_info }
    }

    /// Flips whether players are shown what their role sees, and answers
    /// with the new setting.
    pub fn admin_toggle_skill_info(&mut self) -> (resp: SkillInfoStatusResp)
        ensures
            final(self)@ == old(self)@.toggled(),
            old(self)@.wf() ==> final(self)@.wf(),
            resp.show_skill_info == final(self)@.show_skill_info,
    {
        self.show_skill_info = !self.show_skill_info;
        assert(self@.history =~= old(self)@.history);
        proof {
            if old(self)@.wf() {
                crate::laws::lemma_toggle_keeps_wf(old(self)@);
            }
        }
        SkillInfoStatusResp { show_skill_info: self.show_skill_info }
    }

    /// The history record of the current deal, numbered by the game
    /// counter and stamped with the current time.
    pub fn finished_game_entry(&self) -> (entry: HistoryEntry)
        ensures
            entry.id == self@.game_counter,
            lists_players(entry.players@, self@.roles),
    {
        history_entry(&self.player_role_map, self.game_counter, current_timestamp())
    }

    /// The number of games started.
    pub fn game_counter(&self) -> (counter: i32)
        ensures
            counter == self@.game_counter,
    {
        self.game_counter
    }

    /// The number of seats of the current table (zero before the first
    /// game).
    pub fn user_count(&self) -> (count: usize)
        ensures
            count == self@.user_count,
    {
        self.user_count
    }

    /// The deals of the earlier games, oldest first.
    pub fn history_role_map(&self) -> (history: &Vec<HashMap<i32, Role>>)
        ensures
            history@.map_values(|m: HashMap<i32, Role>| m@) == self@.history,
    {
        &self.history_role_map
    }
}

} // verus!
