use guildbot::mention::{
    apply_replacements, build_replacements, fallback_replacements, ChannelEntry, GuildCache,
    MemberEntry, MentionDirectory, Replacement, RoleEntry,
};

fn rep(pattern: &str, value: &str) -> Replacement {
    Replacement { pattern: pattern.to_string(), value: value.to_string() }
}

#[test]
fn longest_match_precedence() {
    // Cache ordered longest pattern first, as build_replacements guarantees.
    let reps = vec![rep("@Johnny", "<@2>"), rep("@John", "<@1>")];
    let out = apply_replacements("@Johnny", &reps);
    assert_eq!(out, "<@2>");
    let both = apply_replacements("@John and @Johnny", &reps);
    assert_eq!(both, "<@1> and <@2>");
}

#[test]
fn boundary_prevents_prefix_collision() {
    let reps = vec![rep("@John", "<@1>")];
    assert_eq!(apply_replacements("@Johnathan", &reps), "@Johnathan");
    assert_eq!(apply_replacements("@John!", &reps), "<@1>!");
    assert_eq!(apply_replacements("@John", &reps), "<@1>");
}

#[test]
fn substitution_is_case_insensitive() {
    let reps = vec![rep("@John", "<@1>")];
    assert_eq!(apply_replacements("hi @JOHN.", &reps), "hi <@1>.");
    assert_eq!(apply_replacements("hi @john?", &reps), "hi <@1>?");
}

#[test]
fn channel_patterns_substitute_too() {
    let reps = vec![rep("#general", "<#7>")];
    assert_eq!(apply_replacements("go to #General now", &reps), "go to <#7> now");
    assert_eq!(apply_replacements("#generally speaking", &reps), "#generally speaking");
}

#[test]
fn replaced_text_is_not_rescanned() {
    let reps = vec![rep("@a", "@b"), rep("@b", "@c")];
    // The first entry rewrites "@a" to "@b"; the second then rewrites every
    // "@b", including the one the first produced.
    assert_eq!(apply_replacements("@a @b", &reps), "@c @c");
}

#[test]
fn build_replacements_collects_and_sorts() {
    let roles = vec![RoleEntry { role_id: 5, name: "Admin".to_string() }];
    let channels = vec![ChannelEntry { channel_id: 7, name: "general".to_string() }];
    let members = vec![MemberEntry {
        user_id: 9,
        username: "bob".to_string(),
        global_name: Some("Bobby".to_string()),
        nick: Some("B".to_string()),
    }];
    let reps = build_replacements(&roles, &channels, &members);
    assert_eq!(reps.len(), 5);
    // Longest pattern first.
    for w in reps.windows(2) {
        assert!(w[0].pattern.chars().count() >= w[1].pattern.chars().count());
    }
    let mut pairs: Vec<(String, String)> =
        reps.iter().map(|r| (r.pattern.clone(), r.value.clone())).collect();
    pairs.sort();
    let mut expected = vec![
        ("@Admin".to_string(), "<@&5>".to_string()),
        ("#general".to_string(), "<#7>".to_string()),
        ("@bob".to_string(), "<@9>".to_string()),
        ("@Bobby".to_string(), "<@9>".to_string()),
        ("@B".to_string(), "<@9>".to_string()),
    ];
    expected.sort();
    assert_eq!(pairs, expected);
}

#[test]
fn fallback_uses_tagged_users_author_and_roles_only() {
    let roles = vec![RoleEntry { role_id: 3, name: "Mod".to_string() }];
    let tagged = vec![MemberEntry {
        user_id: 11,
        username: "alice".to_string(),
        global_name: None,
        nick: None,
    }];
    let author = MemberEntry {
        user_id: 12,
        username: "carol".to_string(),
        global_name: Some("Caroline".to_string()),
        nick: None,
    };
    let reps = fallback_replacements(&roles, &tagged, author);
    let pats: Vec<&str> = reps.iter().map(|r| r.pattern.as_str()).collect();
    assert!(pats.contains(&"@Mod"));
    assert!(pats.contains(&"@alice"));
    assert!(pats.contains(&"@carol"));
    assert!(pats.contains(&"@Caroline"));
    assert_eq!(reps.len(), 4);
    for w in reps.windows(2) {
        assert!(w[0].pattern.chars().count() >= w[1].pattern.chars().count());
    }
}

#[test]
fn directory_stores_wholesale_and_tolerates_absence() {
    let mut dir = MentionDirectory::new();
    assert!(dir.lookup(1).is_none());
    dir.store(1, GuildCache { replacements: vec![rep("@a", "<@1>")] });
    let got = dir.lookup(1).expect("cache present");
    assert_eq!(got.replacements.len(), 1);
    assert_eq!(got.replacements[0].pattern, "@a");
    // A rebuild replaces the old table wholesale, never merges.
    dir.store(1, GuildCache { replacements: vec![rep("@b", "<@2>"), rep("@c", "<@3>")] });
    let got = dir.lookup(1).expect("cache present");
    assert_eq!(got.replacements.len(), 2);
    assert_eq!(got.replacements[0].pattern, "@b");
    assert!(dir.lookup(2).is_none());
}
