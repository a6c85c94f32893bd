use avalon_dealer::role::Role;

fn all_roles() -> Vec<Role> {
    vec![
        Role::Merlin,
        Role::Percival,
        Role::LoyalServant(1),
        Role::Morgana,
        Role::Assassin,
        Role::Oberon,
        Role::Mordred,
        Role::MinionOfMordred(1),
    ]
}

#[test]
fn faction_of_each_role() {
    let expected = ["good", "good", "good", "evil", "evil", "evil", "evil", "evil"];
    for (role, side) in all_roles().iter().zip(expected.iter()) {
        assert_eq!(role.faction(), *side);
    }
}

#[test]
fn chinese_name_of_each_role() {
    let expected = ["梅林", "派西维尔", "忠臣", "莫甘娜", "刺客", "奥伯伦", "莫德雷德", "爪牙"];
    for (role, name) in all_roles().iter().zip(expected.iter()) {
        assert_eq!(role.name_cn(), *name);
    }
}

#[test]
fn description_of_each_role() {
    assert_eq!(
        Role::Merlin.description(),
        "你是梅林，是正义方的首领，知晓邪恶方的号码。注意，请不要暴露自己。"
    );
    assert_eq!(Role::Percival.description(), "你是派西维尔，知晓梅林和莫甘娜的号码。");
    assert_eq!(Role::LoyalServant(2).description(), "你是亚瑟的忠臣。");
    assert_eq!(Role::Morgana.description(), "你是莫甘娜。");
    assert_eq!(Role::Assassin.description(), "你是刺客。");
    assert_eq!(
        Role::Oberon.description(),
        "你是奥伯伦，邪恶方闭眼玩家，不与其他邪恶玩家互知。"
    );
    assert_eq!(
        Role::Mordred.description(),
        "你是莫德雷德，邪恶方的首领，梅林不知晓你的号码。"
    );
    assert_eq!(Role::MinionOfMordred(1).description(), "你是莫德雷德的爪牙。");
}

#[test]
fn seven_player_pool_matches_readme() {
    let pool = Role::role_pool(7);
    assert_eq!(
        pool,
        vec![
            Role::Merlin,
            Role::Percival,
            Role::LoyalServant(1),
            Role::LoyalServant(2),
            Role::Morgana,
            Role::Assassin,
            Role::Oberon,
        ]
    );
}

#[test]
fn pool_size_and_sides_for_each_table() {
    let evil_expected = [(5, 2), (6, 2), (7, 3), (8, 3), (9, 3), (10, 4)];
    for (count, evil) in evil_expected.iter() {
        let pool = Role::role_pool(*count);
        assert_eq!(pool.len(), *count);
        let evil_count = pool.iter().filter(|r| r.faction() == "evil").count();
        assert_eq!(evil_count, *evil);
        assert_eq!(pool.iter().filter(|r| **r == Role::Merlin).count(), 1);
        assert_eq!(pool.iter().filter(|r| **r == Role::Assassin).count(), 1);
    }
}

#[test]
fn ten_player_pool_has_mordred() {
    let pool = Role::role_pool(10);
    assert!(pool.contains(&Role::Mordred));
    assert!(pool.contains(&Role::LoyalServant(4)));
    assert!(!Role::role_pool(9).contains(&Role::Mordred));
}
