use std::collections::{HashMap, HashSet};

use avalon_dealer::api::PollRoleResp;
use avalon_dealer::game::GameState;
use avalon_dealer::role::Role;
use avalon_dealer::roster::{history_entry, sorted_numbers, sorted_players, unready_numbers};
use avalon_dealer::skill::build_poll_role_resp;

fn seats_listed(skill: &str, heading: &str) -> Vec<i32> {
    assert!(skill.starts_with(heading), "{:?} does not start with {:?}", skill, heading);
    let rest = &skill[heading.len()..];
    let mut seats: Vec<i32> = rest
        .split('号')
        .filter(|s| !s.is_empty())
        .map(|s| {
            assert!(s.starts_with(' '));
            s[1..].parse::<i32>().unwrap()
        })
        .collect();
    seats.sort();
    seats
}

fn full_table(count: usize) -> GameState {
    let mut game = GameState::new();
    game.new_game(count);
    for n in 1..=count as i32 {
        assert!(game.player_ready(n).is_ok());
    }
    game
}

/// The role of each seat as the seat's poll names it; the loyal servants
/// and the minions, which share a name, are all reported as copy 1.
fn dealt_roles(game: &GameState) -> HashMap<i32, Role> {
    let mut roles = HashMap::new();
    let count = game.user_count() as i32;
    let names: HashMap<&str, Role> = vec![
        Role::Merlin,
        Role::Percival,
        Role::LoyalServant(1),
        Role::Morgana,
        Role::Assassin,
        Role::Oberon,
        Role::Mordred,
        Role::MinionOfMordred(1),
    ]
    .into_iter()
    .map(|r| (r.name_cn(), r))
    .collect();
    for n in 1..=count {
        let resp = game.poll_player_role(n).unwrap();
        roles.insert(n, names[resp.role.as_str()].clone());
    }
    roles
}

fn names_of(roles: &HashMap<i32, Role>) -> HashMap<i32, String> {
    roles.iter().map(|(n, r)| (*n, r.name_cn().to_string())).collect()
}

#[test]
fn ready_before_any_game_is_refused() {
    let mut game = GameState::new();
    let e = game.player_ready(1).unwrap_err();
    assert_eq!(e.error, "GAME_NOT_STARTED");
    assert_eq!(e.message, "game not started, create a new game first");
}

#[test]
fn new_game_reports_clamped_count() {
    let mut game = GameState::new();
    assert_eq!(game.new_game(7).des, "new game with 7 players");
    assert_eq!(game.user_count(), 7);
    assert_eq!(game.new_game(3).des, "new game with 5 players");
    assert_eq!(game.user_count(), 5);
    assert_eq!(game.new_game(25).des, "new game with 10 players");
    assert_eq!(game.user_count(), 10);
    assert_eq!(game.game_counter(), 3);
}

#[test]
fn seat_outside_table_is_refused() {
    let mut game = GameState::new();
    game.new_game(7);
    for n in [0, 8, -3] {
        let e = game.player_ready(n).unwrap_err();
        assert_eq!(e.error, "INVALID_PLAYER_NUMBER");
        assert_eq!(e.message, "number must be between 1 and 7");
    }
}

#[test]
fn second_ready_is_refused() {
    let mut game = GameState::new();
    game.new_game(6);
    let ok = game.player_ready(4).unwrap();
    assert_eq!(ok.number, 4);
    assert!(ok.ready);
    let e = game.player_ready(4).unwrap_err();
    assert_eq!(e.error, "ALREADY_READY");
    assert_eq!(e.message, "player 4 already ready");
}

#[test]
fn roles_hidden_until_everyone_is_ready() {
    let mut game = GameState::new();
    game.new_game(5);
    for n in 1..=4 {
        game.player_ready(n).unwrap();
        let resp = game.poll_player_role(n).unwrap();
        assert!(!resp.ready);
        assert_eq!(resp.role, "");
        assert_eq!(resp.role_des, "");
        assert_eq!(resp.skill_des, "");
        assert!(game.completed_role(n).is_none());
        assert!(!game.is_game_over());
    }
    game.player_ready(5).unwrap();
    assert!(game.is_game_over());
    for n in 1..=5 {
        assert!(game.poll_player_role(n).unwrap().ready);
        assert!(game.completed_role(n).is_some());
    }
}

#[test]
fn every_table_deals_exactly_its_pool() {
    for count in 5..=10usize {
        let game = full_table(count);
        let roles = dealt_roles(&game);
        let mut dealt: Vec<&str> = roles.values().map(|r| r.name_cn()).collect();
        let mut pool: Vec<&str> = Role::role_pool(count).iter().map(|r| r.name_cn()).collect();
        dealt.sort();
        pool.sort();
        assert_eq!(dealt, pool);
    }
}

#[test]
fn poll_of_unknown_seat_after_deal() {
    let game = full_table(7);
    let e = game.poll_player_role(9).unwrap_err();
    assert_eq!(e.error, "PLAYER_NOT_FOUND");
    assert_eq!(e.message, "player not found");
    assert!(game.completed_role(9).is_none());
}

#[test]
fn each_role_sees_what_it_should() {
    let game = full_table(10);
    let roles = dealt_roles(&game);
    let seat_of = |wanted: &Role| -> i32 {
        *roles.iter().find(|(_, r)| *r == wanted).unwrap().0
    };
    let seats_where = |pred: &dyn Fn(&Role) -> bool| -> Vec<i32> {
        let mut v: Vec<i32> = roles.iter().filter(|(_, r)| pred(r)).map(|(n, _)| *n).collect();
        v.sort();
        v
    };
    let merlin = game.poll_player_role(seat_of(&Role::Merlin)).unwrap();
    assert_eq!(merlin.role, "梅林");
    assert_eq!(
        seats_listed(&merlin.skill_des, "邪恶方玩家有： "),
        seats_where(&|r| r.faction() == "evil" && *r != Role::Mordred)
    );
    let percival = game.poll_player_role(seat_of(&Role::Percival)).unwrap();
    assert_eq!(
        seats_listed(&percival.skill_des, "梅林和莫甘娜是："),
        seats_where(&|r| *r == Role::Merlin || *r == Role::Morgana)
    );
    let morgana = game.poll_player_role(seat_of(&Role::Morgana)).unwrap();
    assert_eq!(
        seats_listed(&morgana.skill_des, "邪恶同伴是："),
        seats_where(&|r| *r == Role::Assassin || *r == Role::Mordred)
    );
    let assassin = game.poll_player_role(seat_of(&Role::Assassin)).unwrap();
    assert_eq!(
        seats_listed(&assassin.skill_des, "邪恶同伴是："),
        seats_where(&|r| *r == Role::Morgana || *r == Role::Mordred)
    );
    let mordred = game.poll_player_role(seat_of(&Role::Mordred)).unwrap();
    assert_eq!(mordred.role, "莫德雷德");
    assert_eq!(
        seats_listed(&mordred.skill_des, "邪恶同伴是："),
        seats_where(&|r| *r == Role::Morgana || *r == Role::Assassin)
    );
    let oberon = game.poll_player_role(seat_of(&Role::Oberon)).unwrap();
    assert_eq!(oberon.skill_des, "");
    assert_eq!(oberon.role_des, Role::Oberon.description());
    let servant = game.poll_player_role(seat_of(&Role::LoyalServant(1))).unwrap();
    assert_eq!(servant.role, "忠臣");
    assert_eq!(servant.skill_des, "");
}

#[test]
fn toggling_skill_info_hides_and_restores_skills() {
    let mut game = full_table(7);
    assert!(game.admin_skill_info_status().show_skill_info);
    let roles = dealt_roles(&game);
    let merlin_seat = *roles.iter().find(|(_, r)| **r == Role::Merlin).unwrap().0;
    assert!(!game.admin_toggle_skill_info().show_skill_info);
    assert!(!game.admin_skill_info_status().show_skill_info);
    let hidden = game.poll_player_role(merlin_seat).unwrap();
    assert_eq!(hidden.role, "梅林");
    assert_eq!(hidden.skill_des, "");
    assert!(game.admin_toggle_skill_info().show_skill_info);
    let shown = game.poll_player_role(merlin_seat).unwrap();
    assert!(shown.skill_des.starts_with("邪恶方玩家有： "));
    game.admin_toggle_skill_info();
    game.new_game(7);
    assert!(game.admin_skill_info_status().show_skill_info);
}

#[test]
fn new_game_moves_finished_deal_to_history() {
    let mut game = full_table(7);
    let roles = dealt_roles(&game);
    assert_eq!(game.history_role_map().len(), 0);
    game.new_game(5);
    assert_eq!(game.history_role_map().len(), 1);
    assert_eq!(names_of(&game.history_role_map()[0]), names_of(&roles));
    // a game in which nobody readied leaves no record
    game.new_game(5);
    assert_eq!(game.history_role_map().len(), 1);
    let current = game.admin_current_game();
    assert!(!current.game_over);
    assert!(current.players.is_empty());
    assert_eq!(current.unready_numbers, vec![1, 2, 3, 4, 5]);
}

#[test]
fn admin_view_lists_seats_in_order() {
    let mut game = GameState::new();
    game.new_game(6);
    for n in [5, 2, 6] {
        game.player_ready(n).unwrap();
    }
    let view = game.admin_current_game();
    assert!(!view.game_over);
    assert_eq!(view.player_count, 6);
    let numbers: Vec<i32> = view.players.iter().map(|p| p.number).collect();
    assert_eq!(numbers, vec![2, 5, 6]);
    for p in view.players.iter() {
        let resp_side = if ["梅林", "派西维尔", "忠臣"].contains(&p.role.as_str()) { "good" } else { "evil" };
        assert_eq!(p.faction, resp_side);
    }
    assert_eq!(view.unready_numbers, vec![1, 3, 4]);
    let done = full_table(6).admin_current_game();
    assert!(done.game_over);
    assert!(done.unready_numbers.is_empty());
    assert_eq!(done.players.len(), 6);
}

#[test]
fn finished_game_entry_records_the_deal() {
    let mut game = full_table(5);
    game.new_game(5);
    for n in 1..=5 {
        game.player_ready(n).unwrap();
    }
    let entry = game.finished_game_entry();
    assert_eq!(entry.id, 2);
    assert!(entry.timestamp.contains('T'));
    assert!(entry.timestamp.len() >= 20);
    let numbers: Vec<i32> = entry.players.iter().map(|p| p.number).collect();
    assert_eq!(numbers, vec![1, 2, 3, 4, 5]);
}

#[test]
fn build_poll_role_resp_on_a_fixed_table() {
    let mut table = HashMap::new();
    table.insert(1, Role::Merlin);
    table.insert(2, Role::Morgana);
    table.insert(3, Role::Assassin);
    table.insert(4, Role::Oberon);
    table.insert(5, Role::Percival);
    table.insert(6, Role::MinionOfMordred(1));
    table.insert(7, Role::Mordred);
    table.insert(8, Role::MinionOfMordred(2));
    let merlin = build_poll_role_resp(&Role::Merlin, &table, true);
    assert!(merlin.ready);
    assert_eq!(merlin.role, "梅林");
    assert_eq!(merlin.role_des, Role::Merlin.description());
    assert_eq!(seats_listed(&merlin.skill_des, "邪恶方玩家有： "), vec![2, 3, 4, 6, 8]);
    let minion = build_poll_role_resp(&Role::MinionOfMordred(1), &table, true);
    assert_eq!(minion.role, "爪牙");
    assert_eq!(seats_listed(&minion.skill_des, "邪恶同伴是："), vec![2, 3, 7]);
    let percival = build_poll_role_resp(&Role::Percival, &table, true);
    assert_eq!(seats_listed(&percival.skill_des, "梅林和莫甘娜是："), vec![1, 2]);
    let hidden = build_poll_role_resp(&Role::Merlin, &table, false);
    assert_eq!(hidden.skill_des, "");
    let mut small = HashMap::new();
    small.insert(3, Role::Assassin);
    let merlin_one = build_poll_role_resp(&Role::Merlin, &small, true);
    assert_eq!(merlin_one.skill_des, "邪恶方玩家有：  3号");
}

#[test]
fn sort_and_roster_helpers() {
    assert_eq!(sorted_numbers(&vec![5, -1, 3, 3, 0]), vec![-1, 0, 3, 3, 5]);
    assert_eq!(sorted_numbers(&Vec::new()), Vec::<i32>::new());
    let mut table = HashMap::new();
    table.insert(9, Role::Oberon);
    table.insert(2, Role::Percival);
    let players = sorted_players(&table);
    assert_eq!(players.len(), 2);
    assert_eq!((players[0].number, players[0].role.as_str(), players[0].faction.as_str()), (2, "派西维尔", "good"));
    assert_eq!((players[1].number, players[1].role.as_str(), players[1].faction.as_str()), (9, "奥伯伦", "evil"));
    let entry = history_entry(&table, 4, "2025-06-05T10:30:00+08:00".to_string());
    assert_eq!(entry.id, 4);
    assert_eq!(entry.timestamp, "2025-06-05T10:30:00+08:00");
    assert_eq!(entry.players.len(), 2);
    let ready: HashSet<i32> = [2, 4].into_iter().collect();
    assert_eq!(unready_numbers(5, &ready), vec![1, 3, 5]);
    assert_eq!(unready_numbers(0, &ready), Vec::<i32>::new());
}

#[test]
fn unused_response_shape_is_plain_data() {
    let resp = PollRoleResp {
        ready: false,
        role: String::new(),
        role_des: String::new(),
        skill_des: String::new(),
    };
    assert!(!resp.clone().ready);
}
