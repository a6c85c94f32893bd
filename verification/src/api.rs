use vstd::prelude::*;

verus! {

/// Query of a new game: how many seats the table has.
#[derive(Clone, Debug)]
pub struct NewGameReq {
    pub count: usize,
}

/// Answer to a new game.
#[derive(Clone, Debug)]
pub struct NewGameResp {
    pub des: String,
}

/// Query of a player who says they are ready: their seat number.
#[derive(Clone, Debug)]
pub struct ReadyReq {
    pub number: i32,
}

/// Answer to a player who was accepted as ready.
#[derive(Clone, Debug)]
pub struct ReadyResp {
    pub number: i32,
    pub ready: bool,
}

/// Query of a player who asks for their role.
#[derive(Clone, Debug)]
pub struct PollRoleReq {
    pub number: i32,
}

/// What a player is shown of their role: nothing until every seat has
/// readied, then the role's name, its card text and what the role is told
/// about the other seats.
#[derive(Clone, Debug)]
pub struct PollRoleResp {
    pub ready: bool,
    pub role: String,
    pub role_des: String,
    pub skill_des: String,
}

/// The admin's view of the game in progress.
#[derive(Clone, Debug)]
pub struct CurrentGameResp {
    pub game_over: bool,
    pub player_count: usize,
    pub players: Vec<PlayerInfo>,
    pub unready_numbers: Vec<i32>,
}

/// One seat and the role dealt to it.
#[derive(Clone, Debug)]
pub struct PlayerInfo {
    pub number: i32,
    pub role: String,
    pub faction: String,
}

/// A finished game as the history file keeps it.
#[derive(Clone, Debug)]
pub struct HistoryEntry {
    pub id: i32,
    pub timestamp: String,
    pub players: Vec<PlayerInfo>,
}

/// The whole history file.
#[derive(Clone, Debug)]
pub struct HistoryResp {
    pub games: Vec<HistoryEntry>,
}

/// Whether players are told what their role sees of the others.
#[derive(Clone, Debug)]
pub struct SkillInfoStatusResp {
    pub show_skill_info: bool,
}

/// A refused request: a fixed code and a message for people.
#[derive(Clone, Debug)]
pub struct AppError {
    pub error: String,
    pub message: String,
}

} // verus!
