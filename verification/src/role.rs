use vstd::prelude::*;

verus! {

/// A hidden role of the game. The number carried by the two repeatable
/// roles tells copies of the same card apart.
#[derive(Clone, Debug, PartialEq, Eq, Hash, Structural)]
pub enum Role {
    Merlin,
    Percival,
    LoyalServant(i32),
    Morgana,
    Assassin,
    Oberon,
    Mordred,
    MinionOfMordred(i32),
}

impl Role {
    /// True of the roles that play for the evil side.
    pub open spec fn is_evil(self) -> bool {
        match self {
            Role::Merlin | Role::Percival | Role::LoyalServant(_) => false,
            _ => true,
        }
    }

    /// The side a role plays for, as the text the server shows.
    pub open spec fn faction_text(self) -> Seq<char> {
        if self.is_evil() {
            "evil"@
        } else {
            "good"@
        }
    }

    /// The role's name as players read it.
    pub open spec fn name_text(self) -> Seq<char> {
        match self {
            Role::Merlin => "梅林"@,
            Role::Percival => "派西维尔"@,
            Role::LoyalServant(_) => "忠臣"@,
            Role::Morgana => "莫甘娜"@,
            Role::Assassin => "刺客"@,
            Role::Oberon => "奥伯伦"@,
            Role::Mordred => "莫德雷德"@,
            Role::MinionOfMordred(_) => "爪牙"@,
        }
    }

    /// The card text shown to the player who holds the role.
    pub open spec fn description_text(self) -> Seq<char> {
        match self {
            Role::Merlin => "你是梅林，是正义方的首领，知晓邪恶方的号码。注意，请不要暴露自己。"@,
            Role::Percival => "你是派西维尔，知晓梅林和莫甘娜的号码。"@,
            Role::LoyalServant(_) => "你是亚瑟的忠臣。"@,
            Role::Morgana => "你是莫甘娜。"@,
            Role::Assassin => "你是刺客。"@,
            Role::Oberon => "你是奥伯伦，邪恶方闭眼玩家，不与其他邪恶玩家互知。"@,
            Role::Mordred => "你是莫德雷德，邪恶方的首领，梅林不知晓你的号码。"@,
            Role::MinionOfMordred(_) => "你是莫德雷德的爪牙。"@,
        }
    }

    /// The good cards of a table of `count` players: Merlin, Percival and
    /// the loyal servants that fill the good seats.
    pub open spec fn good_pool(count: nat) -> Seq<Role> {
        if count <= 5 {
            seq![Role::Merlin, Role::Percival, Role::LoyalServant(1)]
        } else if count <= 7 {
            seq![Role::Merlin, Role::Percival, Role::LoyalServant(1), Role::LoyalServant(2)]
        } else if count == 8 {
            seq![
                Role::Merlin,
                Role::Percival,
                Role::LoyalServant(1),
                Role::LoyalServant(2),
                Role::LoyalServant(3),
            ]
        } else {
            seq![
                Role::Merlin,
                Role::Percival,
                Role::LoyalServant(1),
                Role::LoyalServant(2),
                Role::LoyalServant(3),
                Role::LoyalServant(4),
            ]
        }
    }

    /// The evil cards of a table of `count` players.
    pub open spec fn evil_pool(count: nat) -> Seq<Role> {
        if count <= 6 {
            seq![Role::Morgana, Role::Assassin]
        } else if count <= 9 {
            seq![Role::Morgana, Role::Assassin, Role::Oberon]
        } else {
            seq![Role::Morgana, Role::Assassin, Role::Oberon, Role::Mordred]
        }
    }

    /// The cards dealt at a table of `count` players (5 to 10).
    pub open spec fn pool(count: nat) -> Seq<Role> {
        Self::good_pool(count) + Self::evil_pool(count)
    }

    /// The cards of a new game for `count` players, good cards first.
    pub fn role_pool(count: usize) -> (pool: Vec<Role>)
        requires
            5 <= count <= 10,
        ensures
            pool@ == Role::pool(count as nat),
    {
        let mut pool = vec![Role::Merlin, Role::Percival, Role::LoyalServant(1)];
        if count >= 6 {
            pool.push(Role::LoyalServant(2));
        }
        if count >= 8 {
            pool.push(Role::LoyalServant(3));
        }
        if count >= 9 {
            pool.push(Role::LoyalServant(4));
        }
        pool.push(Role::Morgana);
        pool.push(Role::Assassin);
        if count >= 7 {
            pool.push(Role::Oberon);
        }
        if count == 10 {
            pool.push(Role::Mordred);
        }
        assert(pool@ =~= Role::pool(count as nat));
        pool
    }

    /// "good" or "evil".
    pub fn faction(&self) -> (text: &'static str)
        ensures
            text@ == self.faction_text(),
    {
        match self {
            Role::Merlin | Role::Percival | Role::LoyalServant(_) => "good",
            Role::Morgana | Role::Assassin | Role::Oberon | Role::Mordred
            | Role::MinionOfMordred(_) => "evil",
        }
    }

    pub fn name_cn(&self) -> (text: &'static str)
        ensures
            text@ == self.name_text(),
    {
        match self {
            Role::Merlin => "梅林",
            Role::Percival => "派西维尔",
            Role::LoyalServant(_) => "忠臣",
            Role::Morgana => "莫甘娜",
            Role::Assassin => "刺客",
            Role::Oberon => "奥伯伦",
            Role::Mordred => "莫德雷德",
            Role::MinionOfMordred(_) => "爪牙",
        }
    }

    pub fn description(&self) -> (text: &'static str)
        ensures
            text@ == self.description_text(),
    {
        match self {
            Role::Merlin => "你是梅林，是正义方的首领，知晓邪恶方的号码。注意，请不要暴露自己。",
            Role::Percival => "你是派西维尔，知晓梅林和莫甘娜的号码。",
            Role::LoyalServant(_) => "你是亚瑟的忠臣。",
            Role::Morgana => "你是莫甘娜。",
            Role::Assassin => "你是刺客。",
            Role::Oberon => "你是奥伯伦，邪恶方闭眼玩家，不与其他邪恶玩家互知。",
            Role::Mordred => "你是莫德雷德，邪恶方的首领，梅林不知晓你的号码。",
            Role::MinionOfMordred(_) => "你是莫德雷德的爪牙。",
        }
    }
}

} // verus!
