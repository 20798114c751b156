use sync_team::api::RepoPermission;
use sync_team::declared;
use sync_team::diff::{RepoCollaborator, RepoPermissionAssignmentDiff, RepoPermissionDiff};
use sync_team::listmap::ListMap;
use sync_team::permissions::{bot_user_name, calculate_permission_diffs, convert_permission};

fn s(text: &str) -> String {
    text.to_string()
}

fn repo(org: &str) -> declared::Repo {
    declared::Repo {
        org: s(org),
        name: s("tool"),
        description: String::new(),
        homepage: None,
        bots: vec![],
        teams: vec![],
        members: vec![],
        branch_protections: vec![],
        archived: false,
        auto_merge_enabled: false,
    }
}

fn observed(entries: &[(&str, RepoPermission)]) -> ListMap<String, RepoPermission> {
    let mut map = ListMap::new();
    for (name, permission) in entries {
        map.insert(s(name), *permission);
    }
    map
}

fn team(name: &str, diff: RepoPermissionDiff) -> RepoPermissionAssignmentDiff {
    RepoPermissionAssignmentDiff { collaborator: RepoCollaborator::Team(s(name)), diff }
}

fn user(name: &str, diff: RepoPermissionDiff) -> RepoPermissionAssignmentDiff {
    RepoPermissionAssignmentDiff { collaborator: RepoCollaborator::User(s(name)), diff }
}

#[test]
fn permissions_are_converted_one_to_one() {
    assert_eq!(convert_permission(&declared::RepoPermission::Write), RepoPermission::Write);
    assert_eq!(convert_permission(&declared::RepoPermission::Admin), RepoPermission::Admin);
    assert_eq!(convert_permission(&declared::RepoPermission::Maintain), RepoPermission::Maintain);
    assert_eq!(convert_permission(&declared::RepoPermission::Triage), RepoPermission::Triage);
}

#[test]
fn bots_have_fixed_usernames() {
    assert_eq!(bot_user_name(&declared::Bot::Bors), Some("bors"));
    assert_eq!(bot_user_name(&declared::Bot::Highfive), Some("rust-highfive"));
    assert_eq!(bot_user_name(&declared::Bot::RustTimer), Some("rust-timer"));
    assert_eq!(bot_user_name(&declared::Bot::Rustbot), Some("rustbot"));
    assert_eq!(bot_user_name(&declared::Bot::Rfcbot), Some("rfcbot"));
    assert_eq!(bot_user_name(&declared::Bot::Craterbot), Some("craterbot"));
    assert_eq!(bot_user_name(&declared::Bot::Glacierbot), Some("rust-lang-glacier-bot"));
    assert_eq!(bot_user_name(&declared::Bot::LogAnalyzer), Some("rust-log-analyzer"));
    assert_eq!(bot_user_name(&declared::Bot::Renovate), None);
}

#[test]
fn diffs_come_in_their_fixed_order() {
    let mut declared = repo("acme");
    declared.teams = vec![
        declared::RepoTeam { name: s("kept"), permission: declared::RepoPermission::Write },
        declared::RepoTeam { name: s("raised"), permission: declared::RepoPermission::Admin },
        declared::RepoTeam { name: s("new"), permission: declared::RepoPermission::Triage },
    ];
    declared.bots = vec![declared::Bot::Renovate, declared::Bot::Rustbot, declared::Bot::Bors];
    declared.members = vec![
        declared::RepoMember { name: s("alice"), permission: declared::RepoPermission::Maintain },
        declared::RepoMember { name: s("bob"), permission: declared::RepoPermission::Write },
    ];
    let teams = observed(&[
        ("orphan", RepoPermission::Write),
        ("raised", RepoPermission::Write),
        ("kept", RepoPermission::Write),
        ("rustbot", RepoPermission::Admin),
        ("security", RepoPermission::Triage),
    ]);
    let users = observed(&[
        ("mallory", RepoPermission::Admin),
        ("bors", RepoPermission::Write),
        ("bob", RepoPermission::Triage),
    ]);
    let diffs = calculate_permission_diffs(&declared, teams, users);
    assert_eq!(
        diffs,
        vec![
            team("raised", RepoPermissionDiff::Update(RepoPermission::Write, RepoPermission::Admin)),
            team("new", RepoPermissionDiff::Create(RepoPermission::Triage)),
            user("rustbot", RepoPermissionDiff::Create(RepoPermission::Write)),
            user("alice", RepoPermissionDiff::Create(RepoPermission::Maintain)),
            user("bob", RepoPermissionDiff::Update(RepoPermission::Triage, RepoPermission::Write)),
            team("orphan", RepoPermissionDiff::Delete(RepoPermission::Write)),
            team("security", RepoPermissionDiff::Delete(RepoPermission::Triage)),
            user("mallory", RepoPermissionDiff::Delete(RepoPermission::Admin)),
        ]
    );
}

#[test]
fn security_team_of_rust_lang_keeps_its_access() {
    let teams = || observed(&[("security", RepoPermission::Admin), ("other", RepoPermission::Write)]);
    let diffs = calculate_permission_diffs(&repo("rust-lang"), teams(), ListMap::new());
    assert_eq!(diffs, vec![team("other", RepoPermissionDiff::Delete(RepoPermission::Write))]);
    let diffs = calculate_permission_diffs(&repo("rust-lang-nursery"), teams(), ListMap::new());
    assert_eq!(
        diffs,
        vec![
            team("security", RepoPermissionDiff::Delete(RepoPermission::Admin)),
            team("other", RepoPermissionDiff::Delete(RepoPermission::Write)),
        ]
    );
}

#[test]
fn declared_security_team_is_reconciled_like_any_other() {
    let mut declared = repo("rust-lang");
    declared.teams =
        vec![declared::RepoTeam { name: s("security"), permission: declared::RepoPermission::Write }];
    let diffs = calculate_permission_diffs(
        &declared,
        observed(&[("security", RepoPermission::Triage)]),
        ListMap::new(),
    );
    assert_eq!(
        diffs,
        vec![team("security", RepoPermissionDiff::Update(RepoPermission::Triage, RepoPermission::Write))]
    );
}

#[test]
fn a_name_declared_twice_is_created_the_second_time() {
    let mut declared = repo("acme");
    declared.teams = vec![
        declared::RepoTeam { name: s("twice"), permission: declared::RepoPermission::Write },
        declared::RepoTeam { name: s("twice"), permission: declared::RepoPermission::Admin },
    ];
    let diffs = calculate_permission_diffs(
        &declared,
        observed(&[("twice", RepoPermission::Write)]),
        ListMap::new(),
    );
    assert_eq!(diffs, vec![team("twice", RepoPermissionDiff::Create(RepoPermission::Admin))]);
}

#[test]
fn nothing_observed_and_nothing_declared_gives_nothing() {
    assert!(calculate_permission_diffs(&repo("acme"), ListMap::new(), ListMap::new()).is_empty());
}

#[test]
fn granted_access_asks_for_nothing_more() {
    let mut declared = repo("acme");
    declared.teams =
        vec![declared::RepoTeam { name: s("infra"), permission: declared::RepoPermission::Maintain }];
    declared.bots = vec![declared::Bot::Bors];
    declared.members =
        vec![declared::RepoMember { name: s("alice"), permission: declared::RepoPermission::Admin }];
    let diffs = calculate_permission_diffs(
        &declared,
        observed(&[("infra", RepoPermission::Maintain)]),
        observed(&[("bors", RepoPermission::Write), ("alice", RepoPermission::Admin)]),
    );
    assert!(diffs.is_empty());
}
