use sync_team::api::{
    AppPushAllowanceActor, BranchProtection, Login, PushAllowanceActor, RepoPermission,
    RepoSettings, TeamPrivacy, TeamPushAllowanceActor, TeamRole, UserPushAllowanceActor,
};
use sync_team::diff::{
    BranchProtectionDiff, BranchProtectionDiffOperation, CreateRepoDiff, CreateTeamDiff,
    DeleteTeamDiff, Diff, EditTeamDiff, MemberDiff, RepoCollaborator, RepoDiff,
    RepoPermissionAssignmentDiff, RepoPermissionDiff, TeamDiff, UpdateRepoDiff,
};
use sync_team::render::{
    actor_string, actors_string, app_actor_string, bracketed_string, log_branch_protection,
    log_field, optional_quoted, optional_string, permission_str, privacy_str,
    render_description_change, render_homepage_change, render_member_diff, render_switch,
    role_str, team_actor_string, texts_string, user_actor_string,
};

fn s(text: &str) -> String {
    text.to_string()
}

fn protection() -> BranchProtection {
    BranchProtection {
        pattern: s("main"),
        is_admin_enforced: true,
        dismisses_stale_reviews: false,
        required_approving_review_count: 2,
        required_status_check_contexts: vec![s("a"), s("b \"c\"")],
        push_allowances: vec![
            PushAllowanceActor::Team(TeamPushAllowanceActor {
                organization: Login { login: s("acme") },
                name: s("infra"),
            }),
            PushAllowanceActor::User(UserPushAllowanceActor { login: s("bors") }),
        ],
        requires_approving_reviews: true,
    }
}

const FULL_LOG: &str = "        Dismiss Stale Reviews: false\n        Is admin enforced: true\n        Required Approving Review Count: 2\n        Requires PR: true\n        Required Checks: [\"a\", \"b \\\"c\\\"\"]\n        Allowances: [Team(TeamPushAllowanceActor { organization: Login { login: \"acme\" }, name: \"infra\" }), User(UserPushAllowanceActor { login: \"bors\" })]\n";

#[test]
fn names_of_permissions_roles_and_privacies() {
    assert_eq!(permission_str(RepoPermission::Write), "write");
    assert_eq!(permission_str(RepoPermission::Admin), "admin");
    assert_eq!(permission_str(RepoPermission::Maintain), "maintain");
    assert_eq!(permission_str(RepoPermission::Triage), "triage");
    assert_eq!(role_str(TeamRole::Member), "member");
    assert_eq!(role_str(TeamRole::Maintainer), "maintainer");
    assert_eq!(privacy_str(TeamPrivacy::Secret), "secret");
    assert_eq!(privacy_str(TeamPrivacy::Closed), "closed");
}

#[test]
fn strings_are_quoted_as_the_debug_format_does() {
    assert_eq!(optional_string(&None), "None");
    assert_eq!(optional_string(&Some(s("https://example.org"))), "Some(\"https://example.org\")");
    assert_eq!(optional_string(&Some(s("a\"b\\c\n"))), format!("{:?}", Some("a\"b\\c\n")));
    assert_eq!(texts_string(&vec![]), "[]");
    assert_eq!(texts_string(&vec![s("a")]), "[\"a\"]");
    assert_eq!(texts_string(&vec![s("a"), s("b"), s("tab\t")]), format!("{:?}", vec!["a", "b", "tab\t"]));
    assert_eq!(bracketed_string(&vec![s("x"), s("y"), s("z")]), "[x, y, z]");
    assert_eq!(bracketed_string(&vec![]), "[]");
}

#[test]
fn push_allowances_are_written_like_their_debug_form() {
    let actors = protection().push_allowances;
    assert_eq!(actor_string(&actors[0]), format!("{:?}", actors[0]));
    assert_eq!(actor_string(&actors[1]), format!("{:?}", actors[1]));
    let app = PushAllowanceActor::App(AppPushAllowanceActor { name: s("deployer"), id: s("A_1") });
    assert_eq!(actor_string(&app), "App(AppPushAllowanceActor { name: \"deployer\", id: \"A_1\" })");
    assert_eq!(actor_string(&app), format!("{:?}", app));
    assert_eq!(actors_string(&actors), format!("{:?}", actors));
    assert_eq!(actors_string(&vec![]), "[]");
}

#[test]
fn a_field_is_logged_when_it_is_new_or_differs() {
    assert_eq!(log_field("Requires PR", "true", None, false), "        Requires PR: true\n");
    assert_eq!(log_field("Requires PR", "true", None, true), "        Requires PR: true\n");
    assert_eq!(
        log_field("Requires PR", "true", Some("false"), false),
        "        Requires PR: true => false\n"
    );
    assert_eq!(log_field("Requires PR", "true", Some("true"), true), "");
}

#[test]
fn a_new_protection_is_logged_in_full() {
    let mut out = s(">");
    log_branch_protection(&protection(), None, &mut out);
    assert_eq!(out, format!(">{}", FULL_LOG));
}

#[test]
fn a_changed_protection_is_logged_where_it_differs() {
    let mut same = String::new();
    log_branch_protection(&protection(), Some(&protection()), &mut same);
    assert_eq!(same, "");
    let mut new = protection();
    new.required_approving_review_count = 0;
    new.requires_approving_reviews = false;
    new.required_status_check_contexts = vec![];
    new.push_allowances.pop();
    new.dismisses_stale_reviews = true;
    new.is_admin_enforced = false;
    new.pattern = s("other");
    let mut out = String::new();
    log_branch_protection(&protection(), Some(&new), &mut out);
    assert_eq!(
        out,
        "        Dismiss Stale Reviews: false => true\n        Is admin enforced: true => false\n        Required Approving Review Count: 2 => 0\n        Requires PR: true => false\n        Required Checks: [\"a\", \"b \\\"c\\\"\"] => []\n        Allowances: [Team(TeamPushAllowanceActor { organization: Login { login: \"acme\" }, name: \"infra\" }), User(UserPushAllowanceActor { login: \"bors\" })] => [Team(TeamPushAllowanceActor { organization: Login { login: \"acme\" }, name: \"infra\" })]\n"
    );
}

#[test]
fn permission_diffs_are_one_line_each() {
    let team = |diff| RepoPermissionAssignmentDiff { collaborator: RepoCollaborator::Team(s("infra")), diff };
    let user = |diff| RepoPermissionAssignmentDiff { collaborator: RepoCollaborator::User(s("alice")), diff };
    assert_eq!(
        team(RepoPermissionDiff::Create(RepoPermission::Write)).render(),
        "    Giving team 'infra' write permission\n"
    );
    assert_eq!(
        user(RepoPermissionDiff::Update(RepoPermission::Triage, RepoPermission::Admin)).render(),
        "    Changing user 'alice''s permission from triage to admin\n"
    );
    assert_eq!(
        team(RepoPermissionDiff::Delete(RepoPermission::Maintain)).render(),
        "    Removing team 'infra''s maintain permission \n"
    );
}

#[test]
fn branch_protection_diffs_start_with_their_pattern() {
    let create = BranchProtectionDiff {
        pattern: s("main"),
        operation: BranchProtectionDiffOperation::Create(protection()),
    };
    assert_eq!(create.render(), format!("      main\n{}", FULL_LOG));
    let mut new = protection();
    new.required_approving_review_count = 3;
    let update = BranchProtectionDiff {
        pattern: s("main"),
        operation: BranchProtectionDiffOperation::Update(s("id"), protection(), new),
    };
    assert_eq!(update.render(), "      main\n        Required Approving Review Count: 2 => 3\n");
    let delete = BranchProtectionDiff {
        pattern: s("old-*"),
        operation: BranchProtectionDiffOperation::Delete(s("id")),
    };
    assert_eq!(delete.render(), "      old-*\n        Deleting branch protection\n");
}

#[test]
fn a_new_repository_is_rendered_in_full() {
    let diff = CreateRepoDiff {
        org: s("acme"),
        name: s("tool"),
        settings: RepoSettings {
            description: s("A tool"),
            homepage: Some(s("https://example.org")),
            archived: false,
            auto_merge_enabled: true,
        },
        permissions: vec![RepoPermissionAssignmentDiff {
            collaborator: RepoCollaborator::Team(s("infra")),
            diff: RepoPermissionDiff::Create(RepoPermission::Write),
        }],
        branch_protections: vec![(s("main"), protection())],
    };
    let expected = format!(
        "➕ Creating repo:\n  Org: acme\n  Name: tool\n  Description: A tool\n  Homepage: Some(\"https://example.org\")\n  Auto-merge: true\n  Permissions:\n    Giving team 'infra' write permission\n  Branch Protections:\n    main\n{}",
        FULL_LOG
    );
    assert_eq!(diff.render(), expected);
    assert_eq!(RepoDiff::Create(diff).render(), expected);
    let bare = CreateRepoDiff {
        org: s("acme"),
        name: s("bare"),
        settings: RepoSettings {
            description: String::new(),
            homepage: None,
            archived: false,
            auto_merge_enabled: false,
        },
        permissions: vec![],
        branch_protections: vec![],
    };
    assert_eq!(
        bare.render(),
        "➕ Creating repo:\n  Org: acme\n  Name: bare\n  Description: \n  Homepage: None\n  Auto-merge: false\n  Permissions:\n  Branch Protections:\n"
    );
}

#[test]
fn changed_settings_are_rendered_line_by_line() {
    assert_eq!(render_description_change("", ""), "");
    assert_eq!(render_description_change("", "new"), "  Set description: 'new'\n");
    assert_eq!(render_description_change("old", ""), "  Remove description: 'old'\n");
    assert_eq!(render_description_change("old", "new"), "  New description: 'old' => 'new'\n");
    assert_eq!(render_description_change("same", "same"), "");
    assert_eq!(render_homepage_change(&None, &None), "");
    assert_eq!(render_homepage_change(&None, &Some(s("n"))), "  Set homepage: 'n'\n");
    assert_eq!(render_homepage_change(&Some(s("o")), &None), "  Remove homepage: 'o'\n");
    assert_eq!(render_homepage_change(&Some(s("o")), &Some(s("n"))), "  New homepage: 'o' => 'n'\n");
    assert_eq!(render_homepage_change(&Some(s("o")), &Some(s("o"))), "");
    assert_eq!(render_switch(false, true, "on", "off"), "on");
    assert_eq!(render_switch(true, false, "on", "off"), "off");
    assert_eq!(render_switch(true, true, "on", "off"), "");
    assert_eq!(render_switch(false, false, "on", "off"), "");
}

fn update(old: RepoSettings, new: RepoSettings) -> UpdateRepoDiff {
    UpdateRepoDiff {
        org: s("acme"),
        name: s("tool"),
        repo_node_id: s("node"),
        settings_diff: (old, new),
        permission_diffs: vec![],
        branch_protection_diffs: vec![],
    }
}

fn settings(description: &str, archived: bool, auto_merge_enabled: bool) -> RepoSettings {
    RepoSettings { description: s(description), homepage: None, archived, auto_merge_enabled }
}

#[test]
fn an_update_is_rendered_where_it_changes() {
    assert_eq!(update(settings("a", false, false), settings("a", false, false)).render(), "");
    assert_eq!(update(settings("a", true, false), settings("b", true, true)).render(), "");
    let mut diff = update(settings("a", false, true), settings("b", true, false));
    diff.settings_diff.1.homepage = Some(s("https://example.org"));
    assert_eq!(
        diff.render(),
        "📝 Editing repo 'acme/tool':\n  New description: 'a' => 'b'\n  Set homepage: 'https://example.org'\n  Archive\n  Disable auto-merge\n"
    );
    let mut diff = update(settings("a", true, false), settings("a", false, true));
    diff.permission_diffs = vec![RepoPermissionAssignmentDiff {
        collaborator: RepoCollaborator::User(s("alice")),
        diff: RepoPermissionDiff::Create(RepoPermission::Write),
    }];
    diff.branch_protection_diffs = vec![BranchProtectionDiff {
        pattern: s("old"),
        operation: BranchProtectionDiffOperation::Delete(s("id")),
    }];
    let expected = "📝 Editing repo 'acme/tool':\n  Unarchive\n  Enable auto-merge\n  Permission Changes:\n    Giving user 'alice' write permission\n  Branch Protections:\n      old\n        Deleting branch protection\n";
    assert_eq!(diff.render(), expected);
    assert_eq!(RepoDiff::Update(diff).render(), expected);
}

#[test]
fn a_new_team_is_rendered_with_its_members() {
    let diff = CreateTeamDiff {
        org: s("acme"),
        name: s("core"),
        description: s("Managed by the rust-lang/team repository."),
        privacy: TeamPrivacy::Closed,
        members: vec![(s("alice"), TeamRole::Maintainer), (s("bob"), TeamRole::Member)],
    };
    let expected = "➕ Creating team:\n  Org: acme\n  Name: core\n  Description: Managed by the rust-lang/team repository.\n  Privacy: closed\n  Members:\n    alice: maintainer\n    bob: member\n";
    assert_eq!(diff.render(), expected);
    assert_eq!(TeamDiff::Create(diff).render(), expected);
}

#[test]
fn an_edited_team_is_rendered_where_it_changes() {
    assert_eq!(render_member_diff("bob", &MemberDiff::Noop), "");
    assert_eq!(
        render_member_diff("bob", &MemberDiff::Create(TeamRole::Member)),
        "  Adding member 'bob' with member role\n"
    );
    let noop = EditTeamDiff {
        org: s("acme"),
        name: s("core"),
        name_diff: None,
        description_diff: None,
        privacy_diff: None,
        member_diffs: vec![(s("alice"), MemberDiff::Noop)],
    };
    assert_eq!(noop.render(), "");
    let diff = EditTeamDiff {
        org: s("acme"),
        name: s("Core"),
        name_diff: Some(s("core")),
        description_diff: Some((s("old"), s("new"))),
        privacy_diff: Some((TeamPrivacy::Secret, TeamPrivacy::Closed)),
        member_diffs: vec![
            (s("alice"), MemberDiff::ChangeRole((TeamRole::Member, TeamRole::Maintainer))),
            (s("bob"), MemberDiff::Create(TeamRole::Member)),
            (s("carol"), MemberDiff::Noop),
            (s("dave"), MemberDiff::Delete),
        ],
    };
    let expected = "📝 Editing team 'acme/Core':\n  New name: core\n  New description: 'old' => 'new'\n  New privacy: 'secret' => 'closed'\n  Changing 'alice' role from member to maintainer\n  Adding member 'bob' with member role\n  Deleting member 'dave'\n";
    assert_eq!(diff.render(), expected);
    assert_eq!(TeamDiff::Edit(diff).render(), expected);
}

#[test]
fn the_whole_diff_is_rendered_under_its_headings() {
    let delete = DeleteTeamDiff { org: s("acme"), name: s("old"), slug: s("old-slug") };
    assert_eq!(delete.render(), "❌ Deleting team 'acme/old'\n");
    let teams_only = Diff { team_diffs: vec![TeamDiff::Delete(delete.clone())], repo_diffs: vec![] };
    assert_eq!(teams_only.render(), "💻 Team Diffs:\n❌ Deleting team 'acme/old'\n");
    let both = Diff {
        team_diffs: vec![TeamDiff::Delete(delete.clone()), TeamDiff::Delete(delete)],
        repo_diffs: vec![RepoDiff::Update(update(settings("", false, false), settings("", true, false)))],
    };
    assert_eq!(
        both.render(),
        "💻 Team Diffs:\n❌ Deleting team 'acme/old'\n❌ Deleting team 'acme/old'\n💻 Repo Diffs:\n📝 Editing repo 'acme/tool':\n  Archive\n"
    );
    assert_eq!(Diff { team_diffs: vec![], repo_diffs: vec![] }.render(), "");
}

#[test]
fn quoted_strings_are_framed() {
    assert_eq!(optional_quoted(None), "None");
    assert_eq!(optional_quoted(Some("'x'")), "Some('x')");
    assert_eq!(user_actor_string("<u>"), "User(UserPushAllowanceActor { login: <u> })");
    assert_eq!(
        team_actor_string("<o>", "<n>"),
        "Team(TeamPushAllowanceActor { organization: Login { login: <o> }, name: <n> })"
    );
    assert_eq!(app_actor_string("<n>", "<i>"), "App(AppPushAllowanceActor { name: <n>, id: <i> })");
}
