use sync_team::api::{Team, TeamMember, TeamPrivacy, TeamRole};
use sync_team::declared::GitHubTeam;
use sync_team::diff::{DeleteTeamDiff, MemberDiff, TeamDiff};
use sync_team::listmap::ListMap;
use sync_team::teams::{
    contains_id, create_team, delete_teams, edit_team, expected_role, is_deletable, note_listed,
    UnknownUser, DEFAULT_DESCRIPTION, DEFAULT_PRIVACY,
};

fn s(text: &str) -> String {
    text.to_string()
}

fn usernames() -> ListMap<u64, String> {
    let mut map = ListMap::new();
    map.insert(42, s("alice"));
    map.insert(7, s("bob"));
    map.insert(9, s("carol"));
    map
}

fn owners() -> ListMap<String, Vec<u64>> {
    let mut map = ListMap::new();
    map.insert(s("acme"), vec![42]);
    map
}

fn declared(members: Vec<u64>) -> GitHubTeam {
    GitHubTeam { org: s("acme"), name: s("core"), members }
}

fn observed() -> Team {
    Team {
        name: s("core"),
        slug: s("core"),
        description: Some(s(DEFAULT_DESCRIPTION)),
        privacy: DEFAULT_PRIVACY,
    }
}

fn members(entries: &[(u64, &str, TeamRole)]) -> ListMap<u64, TeamMember> {
    let mut map = ListMap::new();
    for (id, name, role) in entries {
        map.insert(*id, TeamMember { username: s(name), role: *role });
    }
    map
}

#[test]
fn owners_maintain_and_others_are_members() {
    assert_eq!(expected_role(&owners(), &s("acme"), 42), TeamRole::Maintainer);
    assert_eq!(expected_role(&owners(), &s("acme"), 7), TeamRole::Member);
    assert_eq!(expected_role(&owners(), &s("other"), 42), TeamRole::Member);
    assert_eq!(expected_role(&ListMap::new(), &s("acme"), 42), TeamRole::Member);
    assert!(contains_id(&vec![1, 2, 3], 3));
    assert!(!contains_id(&vec![1, 2, 3], 4));
}

#[test]
fn defaults_of_managed_teams() {
    assert_eq!(DEFAULT_DESCRIPTION, "Managed by the rust-lang/team repository.");
    assert_eq!(DEFAULT_PRIVACY, TeamPrivacy::Closed);
}

#[test]
fn creating_a_team_maps_members_to_usernames() {
    let diff = create_team(&declared(vec![7, 42, 7]), &usernames(), &owners()).unwrap();
    assert_eq!(diff.org, "acme");
    assert_eq!(diff.name, "core");
    assert_eq!(diff.description, DEFAULT_DESCRIPTION);
    assert_eq!(diff.privacy, TeamPrivacy::Closed);
    assert_eq!(
        diff.members,
        vec![
            (s("bob"), TeamRole::Member),
            (s("alice"), TeamRole::Maintainer),
            (s("bob"), TeamRole::Member),
        ]
    );
}

#[test]
fn first_unknown_member_is_reported() {
    assert_eq!(
        create_team(&declared(vec![42, 500, 600]), &usernames(), &owners()),
        Err(UnknownUser { id: 500 })
    );
    assert_eq!(
        edit_team(&declared(vec![600, 500]), observed(), ListMap::new(), &vec![], &usernames(), &owners()),
        Err(UnknownUser { id: 600 })
    );
}

#[test]
fn a_team_as_declared_needs_no_edit() {
    let diff = edit_team(
        &declared(vec![42, 7]),
        observed(),
        members(&[(42, "alice", TeamRole::Maintainer), (7, "bob", TeamRole::Member)]),
        &vec![],
        &usernames(),
        &owners(),
    )
    .unwrap();
    assert_eq!(diff.name_diff, None);
    assert_eq!(diff.description_diff, None);
    assert_eq!(diff.privacy_diff, None);
    assert_eq!(diff.member_diffs, vec![(s("alice"), MemberDiff::Noop), (s("bob"), MemberDiff::Noop)]);
    assert!(diff.noop());
}

#[test]
fn members_are_reconciled() {
    let diff = edit_team(
        &declared(vec![42, 7, 9]),
        observed(),
        members(&[
            (1, "zed", TeamRole::Maintainer),
            (42, "alice", TeamRole::Member),
            (2, "yan", TeamRole::Member),
        ]),
        &vec![s("carol")],
        &usernames(),
        &owners(),
    )
    .unwrap();
    assert_eq!(
        diff.member_diffs,
        vec![
            (s("alice"), MemberDiff::ChangeRole((TeamRole::Member, TeamRole::Maintainer))),
            (s("bob"), MemberDiff::Create(TeamRole::Member)),
            (s("carol"), MemberDiff::Noop),
            (s("zed"), MemberDiff::Delete),
            (s("yan"), MemberDiff::Delete),
        ]
    );
}

#[test]
fn a_member_declared_twice_is_added_the_second_time() {
    let diff = edit_team(
        &declared(vec![7, 7]),
        observed(),
        members(&[(7, "bob", TeamRole::Member)]),
        &vec![],
        &usernames(),
        &owners(),
    )
    .unwrap();
    assert_eq!(
        diff.member_diffs,
        vec![(s("bob"), MemberDiff::Noop), (s("bob"), MemberDiff::Create(TeamRole::Member))]
    );
}

#[test]
fn name_description_and_privacy_go_to_the_declaration() {
    let mut seen = observed();
    seen.name = s("Core");
    seen.description = Some(s("hand-written"));
    seen.privacy = TeamPrivacy::Secret;
    let diff = edit_team(&declared(vec![]), seen, ListMap::new(), &vec![], &usernames(), &owners()).unwrap();
    assert_eq!(diff.org, "acme");
    assert_eq!(diff.name, "Core");
    assert_eq!(diff.name_diff, Some(s("core")));
    assert_eq!(diff.description_diff, Some((s("hand-written"), s(DEFAULT_DESCRIPTION))));
    assert_eq!(diff.privacy_diff, Some((TeamPrivacy::Secret, TeamPrivacy::Closed)));
    assert!(!diff.noop());
    let mut bare = observed();
    bare.description = None;
    let diff = edit_team(&declared(vec![]), bare, ListMap::new(), &vec![], &usernames(), &owners()).unwrap();
    assert_eq!(diff.description_diff, Some((String::new(), s(DEFAULT_DESCRIPTION))));
}

#[test]
fn only_undeclared_teams_of_managed_orgs_are_deleted() {
    assert!(is_deletable("rust-lang", "ghost"));
    assert!(is_deletable("rust-lang-nursery", "ghost"));
    assert!(!is_deletable("other", "ghost"));
    assert!(!is_deletable("rust-lang-", "ghost"));
    for bot_team in ["bors", "highfive", "rfcbot", "bots"] {
        assert!(!is_deletable("rust-lang", bot_team));
        assert!(!is_deletable("other", bot_team));
    }
    let mut unseen = ListMap::new();
    unseen.insert((s("rust-lang"), s("ghost")), s("ghost-slug"));
    unseen.insert((s("other"), s("ghost")), s("ghost"));
    unseen.insert((s("rust-lang"), s("bots")), s("bots"));
    unseen.insert((s("rust-lang-nursery"), s("attic")), s("attic"));
    assert_eq!(
        delete_teams(unseen),
        vec![
            TeamDiff::Delete(DeleteTeamDiff { org: s("rust-lang"), name: s("ghost"), slug: s("ghost-slug") }),
            TeamDiff::Delete(DeleteTeamDiff {
                org: s("rust-lang-nursery"),
                name: s("attic"),
                slug: s("attic")
            }),
        ]
    );
    assert!(delete_teams(ListMap::new()).is_empty());
}

#[test]
fn listed_teams_are_noted_by_organization_and_name_with_their_slug() {
    let mut unseen = ListMap::new();
    note_listed(
        &mut unseen,
        "rust-lang",
        &vec![(s("core"), s("core")), (s("bors"), s("bors")), (s("Old Team"), s("old-team"))],
    );
    note_listed(&mut unseen, "other", &vec![(s("core"), s("core-2"))]);
    note_listed(&mut unseen, "empty", &vec![]);
    assert_eq!(unseen.get(&(s("rust-lang"), s("Old Team"))), Some(&s("old-team")));
    assert_eq!(
        unseen.into_entries(),
        vec![
            ((s("rust-lang"), s("core")), s("core")),
            ((s("rust-lang"), s("bors")), s("bors")),
            ((s("rust-lang"), s("Old Team")), s("old-team")),
            ((s("other"), s("core")), s("core-2")),
        ]
    );
}

#[test]
fn of_two_listed_teams_of_one_name_the_later_slug_stays() {
    let mut unseen = ListMap::new();
    note_listed(
        &mut unseen,
        "rust-lang",
        &vec![(s("twin"), s("first")), (s("solo"), s("solo")), (s("twin"), s("second"))],
    );
    assert_eq!(
        unseen.into_entries(),
        vec![((s("rust-lang"), s("twin")), s("second")), ((s("rust-lang"), s("solo")), s("solo"))]
    );
}
