use sync_team::api::{BranchProtection, RepoPermission, RepoSettings, TeamPrivacy, TeamRole};
use sync_team::diff::{
    BranchProtectionDiff, BranchProtectionDiffOperation, CreateRepoDiff, CreateTeamDiff,
    DeleteTeamDiff, Diff, EditTeamDiff, MemberDiff, RepoCollaborator, RepoDiff,
    RepoPermissionAssignmentDiff, RepoPermissionDiff, TeamDiff, UpdateRepoDiff,
};
use sync_team::write::{BranchProtectionOp, RepoId, WriteOp};

fn s(text: &str) -> String {
    text.to_string()
}

fn settings(archived: bool) -> RepoSettings {
    RepoSettings { description: s("words"), homepage: None, archived, auto_merge_enabled: false }
}

fn add_user() -> RepoPermissionAssignmentDiff {
    RepoPermissionAssignmentDiff {
        collaborator: RepoCollaborator::User(s("alice")),
        diff: RepoPermissionDiff::Create(RepoPermission::Write),
    }
}

fn protection() -> BranchProtection {
    BranchProtection {
        pattern: s("main"),
        is_admin_enforced: true,
        dismisses_stale_reviews: false,
        required_approving_review_count: 1,
        required_status_check_contexts: vec![s("ci")],
        push_allowances: vec![],
        requires_approving_reviews: true,
    }
}

fn update(old: RepoSettings, new: RepoSettings) -> UpdateRepoDiff {
    UpdateRepoDiff {
        org: s("acme"),
        name: s("tool"),
        repo_node_id: s("node-1"),
        settings_diff: (old, new),
        permission_diffs: vec![add_user()],
        branch_protection_diffs: vec![],
    }
}

fn add_user_op() -> WriteOp {
    WriteOp::UpdateUserRepoPermissions {
        org: s("acme"),
        repo: s("tool"),
        user: s("alice"),
        permission: RepoPermission::Write,
    }
}

fn edit_op(new: RepoSettings) -> WriteOp {
    WriteOp::EditRepo { org: s("acme"), name: s("tool"), settings: new }
}

#[test]
fn archive_freeze() {
    let mut frozen = update(settings(true), settings(true));
    frozen.settings_diff.1.description = s("other words");
    frozen.branch_protection_diffs = vec![BranchProtectionDiff {
        pattern: s("main"),
        operation: BranchProtectionDiffOperation::Delete(s("id-1")),
    }];
    assert!(!frozen.can_be_modified());
    assert!(frozen.noop());
    assert!(frozen.apply().is_empty());
    assert!(RepoDiff::Update(frozen).apply().is_empty());
}

#[test]
fn unarchive_ordering() {
    let ops = update(settings(true), settings(false)).apply();
    assert_eq!(ops, vec![edit_op(settings(false)), add_user_op()]);
}

#[test]
fn archiving_comes_last() {
    let ops = update(settings(false), settings(true)).apply();
    assert_eq!(ops, vec![add_user_op(), edit_op(settings(true))]);
}

#[test]
fn unchanged_settings_are_not_written() {
    let diff = update(settings(false), settings(false));
    assert!(diff.can_be_modified());
    assert!(!diff.noop());
    assert_eq!(diff.apply(), vec![add_user_op()]);
}

#[test]
fn update_without_changes_is_a_noop() {
    let mut diff = update(settings(false), settings(false));
    diff.permission_diffs = vec![];
    assert!(diff.noop());
    assert!(RepoDiff::Update(diff).noop());
    let mut changed = update(settings(false), settings(false));
    changed.permission_diffs = vec![];
    changed.settings_diff.1.homepage = Some(s("https://example.org"));
    assert!(!changed.noop());
    assert_eq!(changed.apply().len(), 1);
}

#[test]
fn permissions_precede_branch_protections() {
    let mut diff = update(settings(false), settings(false));
    diff.branch_protection_diffs = vec![
        BranchProtectionDiff {
            pattern: s("main"),
            operation: BranchProtectionDiffOperation::Create(protection()),
        },
        BranchProtectionDiff {
            pattern: s("beta"),
            operation: BranchProtectionDiffOperation::Update(s("id-2"), protection(), protection()),
        },
        BranchProtectionDiff {
            pattern: s("old"),
            operation: BranchProtectionDiffOperation::Delete(s("id-3")),
        },
    ];
    assert_eq!(
        diff.apply(),
        vec![
            add_user_op(),
            WriteOp::UpsertBranchProtection {
                op: BranchProtectionOp::CreateForRepo(RepoId::NodeId(s("node-1"))),
                pattern: s("main"),
                branch_protection: protection(),
                org: s("acme"),
            },
            WriteOp::UpsertBranchProtection {
                op: BranchProtectionOp::UpdateBranchProtection(s("id-2")),
                pattern: s("beta"),
                branch_protection: protection(),
                org: s("acme"),
            },
            WriteOp::DeleteBranchProtection { org: s("acme"), repo: s("tool"), id: s("id-3") },
        ]
    );
}

#[test]
fn permission_diffs_pick_their_call() {
    let team = |diff| RepoPermissionAssignmentDiff { collaborator: RepoCollaborator::Team(s("infra")), diff };
    let user = |diff| RepoPermissionAssignmentDiff { collaborator: RepoCollaborator::User(s("alice")), diff };
    assert_eq!(
        team(RepoPermissionDiff::Update(RepoPermission::Write, RepoPermission::Admin)).apply("acme", "tool"),
        WriteOp::UpdateTeamRepoPermissions {
            org: s("acme"),
            repo: s("tool"),
            team: s("infra"),
            permission: RepoPermission::Admin,
        }
    );
    assert_eq!(
        team(RepoPermissionDiff::Delete(RepoPermission::Write)).apply("acme", "tool"),
        WriteOp::RemoveTeamFromRepo { org: s("acme"), repo: s("tool"), team: s("infra") }
    );
    assert_eq!(user(RepoPermissionDiff::Create(RepoPermission::Write)).apply("acme", "tool"), add_user_op());
    assert_eq!(
        user(RepoPermissionDiff::Delete(RepoPermission::Write)).apply("acme", "tool"),
        WriteOp::RemoveCollaboratorFromRepo { org: s("acme"), repo: s("tool"), user: s("alice") }
    );
}

#[test]
fn creating_a_repository() {
    let diff = CreateRepoDiff {
        org: s("acme"),
        name: s("tool"),
        settings: settings(false),
        permissions: vec![add_user()],
        branch_protections: vec![(s("main"), protection())],
    };
    let ops = RepoDiff::Create(diff).apply();
    assert_eq!(
        ops,
        vec![
            WriteOp::CreateRepo { org: s("acme"), name: s("tool"), settings: settings(false) },
            add_user_op(),
            WriteOp::UpsertBranchProtection {
                op: BranchProtectionOp::CreateForRepo(RepoId::CreatedByRun {
                    org: s("acme"),
                    name: s("tool"),
                }),
                pattern: s("main"),
                branch_protection: protection(),
                org: s("acme"),
            },
        ]
    );
}

#[test]
fn member_diffs_pick_their_call() {
    let set = |role| WriteOp::SetTeamMembership { org: s("acme"), team: s("core"), member: s("alice"), role };
    assert_eq!(MemberDiff::Create(TeamRole::Member).apply("acme", "core", "alice"), Some(set(TeamRole::Member)));
    assert_eq!(
        MemberDiff::ChangeRole((TeamRole::Member, TeamRole::Maintainer)).apply("acme", "core", "alice"),
        Some(set(TeamRole::Maintainer))
    );
    assert_eq!(
        MemberDiff::Delete.apply("acme", "core", "alice"),
        Some(WriteOp::RemoveTeamMembership { org: s("acme"), team: s("core"), member: s("alice") })
    );
    assert_eq!(MemberDiff::Noop.apply("acme", "core", "alice"), None);
    assert!(MemberDiff::Noop.is_noop());
    assert!(!MemberDiff::Delete.is_noop());
}

fn edit() -> EditTeamDiff {
    EditTeamDiff {
        org: s("acme"),
        name: s("core"),
        name_diff: None,
        description_diff: None,
        privacy_diff: None,
        member_diffs: vec![(s("alice"), MemberDiff::Noop), (s("bob"), MemberDiff::Noop)],
    }
}

#[test]
fn editing_a_team() {
    assert!(edit().noop());
    assert!(edit().apply().is_empty());
    assert!(TeamDiff::Edit(edit()).noop());
    let mut members = edit();
    members.member_diffs = vec![
        (s("alice"), MemberDiff::Noop),
        (s("bob"), MemberDiff::Create(TeamRole::Member)),
        (s("carol"), MemberDiff::Delete),
    ];
    assert!(!members.noop());
    assert_eq!(
        members.apply(),
        vec![
            WriteOp::SetTeamMembership {
                org: s("acme"),
                team: s("core"),
                member: s("bob"),
                role: TeamRole::Member,
            },
            WriteOp::RemoveTeamMembership { org: s("acme"), team: s("core"), member: s("carol") },
        ]
    );
    let mut meta = edit();
    meta.description_diff = Some((s("old"), s("new")));
    meta.privacy_diff = Some((TeamPrivacy::Secret, TeamPrivacy::Closed));
    assert!(!meta.noop());
    assert_eq!(
        meta.apply(),
        vec![WriteOp::EditTeam {
            org: s("acme"),
            name: s("core"),
            new_name: None,
            new_description: Some(s("new")),
            new_privacy: Some(TeamPrivacy::Closed),
        }]
    );
    let mut renamed = edit();
    renamed.name_diff = Some(s("kernel"));
    assert_eq!(
        renamed.apply(),
        vec![WriteOp::EditTeam {
            org: s("acme"),
            name: s("core"),
            new_name: Some(s("kernel")),
            new_description: None,
            new_privacy: None,
        }]
    );
}

#[test]
fn teams_come_before_repositories() {
    let create = CreateTeamDiff {
        org: s("acme"),
        name: s("core"),
        description: s("A team"),
        privacy: TeamPrivacy::Closed,
        members: vec![(s("alice"), TeamRole::Maintainer), (s("bob"), TeamRole::Member)],
    };
    let delete = DeleteTeamDiff { org: s("acme"), name: s("Old Team"), slug: s("old-team") };
    assert_eq!(delete.apply(), WriteOp::DeleteTeam { org: s("acme"), slug: s("old-team") });
    let diff = Diff {
        team_diffs: vec![TeamDiff::Create(create), TeamDiff::Delete(delete)],
        repo_diffs: vec![RepoDiff::Update(update(settings(false), settings(false)))],
    };
    assert!(!diff.is_empty());
    assert!(!diff.team_diffs[0].noop());
    assert!(!diff.team_diffs[1].noop());
    assert_eq!(
        diff.apply(),
        vec![
            WriteOp::CreateTeam {
                org: s("acme"),
                name: s("core"),
                description: s("A team"),
                privacy: TeamPrivacy::Closed,
            },
            WriteOp::SetTeamMembership {
                org: s("acme"),
                team: s("core"),
                member: s("alice"),
                role: TeamRole::Maintainer,
            },
            WriteOp::SetTeamMembership {
                org: s("acme"),
                team: s("core"),
                member: s("bob"),
                role: TeamRole::Member,
            },
            WriteOp::DeleteTeam { org: s("acme"), slug: s("old-team") },
            add_user_op(),
        ]
    );
    let nothing = Diff { team_diffs: vec![], repo_diffs: vec![] };
    assert!(nothing.is_empty());
    assert!(nothing.apply().is_empty());
}
