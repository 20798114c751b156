use sync_team::api::{
    AppPushAllowanceActor, BranchProtection, Login, PushAllowanceActor, Repo, RepoPermission,
    RepoSettings, RepoTeam, RepoUser, Team, TeamMember, TeamPrivacy, TeamPushAllowanceActor,
    TeamRole,
};
use sync_team::declared;
use sync_team::diff::{
    BranchProtectionDiffOperation, CreateTeamDiff, DeleteTeamDiff, Diff, MemberDiff, RepoCollaborator,
    RepoDiff, RepoPermissionDiff, TeamDiff,
};
use sync_team::engine::{can_diff, create_diff, DiffError, GithubRead, SyncGitHub};
use sync_team::listmap::ListMap;
use sync_team::teams::UnknownUser;
use sync_team::write::{BranchProtectionOp, RepoId, WriteOp};

struct ObservedTeam {
    org: String,
    team: Team,
    members: Vec<(u64, TeamMember)>,
    invites: Vec<String>,
}

struct ObservedRepo {
    repo: Repo,
    teams: Vec<RepoTeam>,
    users: Vec<RepoUser>,
    protections: Vec<(String, String, BranchProtection)>,
}

/// A provider that lives in memory: it answers the reads from what it
/// holds and carries out the writes on it.
struct Provider {
    pat: bool,
    users: Vec<(u64, String)>,
    owners: Vec<(String, Vec<u64>)>,
    teams: Vec<ObservedTeam>,
    repos: Vec<ObservedRepo>,
    failing: Option<&'static str>,
    next_id: u64,
}

impl Provider {
    fn new() -> Provider {
        Provider {
            pat: true,
            users: vec![],
            owners: vec![],
            teams: vec![],
            repos: vec![],
            failing: None,
            next_id: 1,
        }
    }

    fn check(&self, read: &'static str) -> Result<(), String> {
        if self.failing == Some(read) {
            Err(format!("{} failed", read))
        } else {
            Ok(())
        }
    }

    fn fresh_id(&mut self, kind: &str) -> String {
        let id = format!("{}-{}", kind, self.next_id);
        self.next_id += 1;
        id
    }

    fn repo_mut(&mut self, org: &str, name: &str) -> &mut ObservedRepo {
        self.repos
            .iter_mut()
            .find(|r| r.repo.org == org && r.repo.name == name)
            .unwrap()
    }

    fn team_mut(&mut self, org: &str, name: &str) -> &mut ObservedTeam {
        self.teams
            .iter_mut()
            .find(|t| t.org == org && t.team.name == name)
            .unwrap()
    }

    fn write_settings(repo: &mut Repo, settings: &RepoSettings) {
        repo.description = settings.description.clone();
        repo.homepage = settings.homepage.clone();
        repo.archived = settings.archived;
        repo.allow_auto_merge = Some(settings.auto_merge_enabled);
    }

    fn execute(&mut self, op: &WriteOp, created: &mut Vec<(String, String, String)>) {
        match op {
            WriteOp::CreateRepo { org, name, settings } => {
                let node_id = self.fresh_id("node");
                let mut repo = Repo {
                    node_id: node_id.clone(),
                    name: name.clone(),
                    org: org.clone(),
                    description: String::new(),
                    homepage: None,
                    archived: false,
                    allow_auto_merge: None,
                };
                Provider::write_settings(&mut repo, settings);
                self.repos.push(ObservedRepo {
                    repo,
                    teams: vec![],
                    users: vec![],
                    protections: vec![],
                });
                created.push((org.clone(), name.clone(), node_id));
            }
            WriteOp::EditRepo { org, name, settings } => {
                Provider::write_settings(&mut self.repo_mut(org, name).repo, settings);
            }
            WriteOp::UpdateTeamRepoPermissions { org, repo, team, permission } => {
                let teams = &mut self.repo_mut(org, repo).teams;
                match teams.iter_mut().find(|t| &t.name == team) {
                    Some(t) => t.permission = *permission,
                    None => teams.push(RepoTeam { name: team.clone(), permission: *permission }),
                }
            }
            WriteOp::UpdateUserRepoPermissions { org, repo, user, permission } => {
                let users = &mut self.repo_mut(org, repo).users;
                match users.iter_mut().find(|u| &u.name == user) {
                    Some(u) => u.permission = *permission,
                    None => users.push(RepoUser { name: user.clone(), permission: *permission }),
                }
            }
            WriteOp::RemoveTeamFromRepo { org, repo, team } => {
                self.repo_mut(org, repo).teams.retain(|t| &t.name != team);
            }
            WriteOp::RemoveCollaboratorFromRepo { org, repo, user } => {
                self.repo_mut(org, repo).users.retain(|u| &u.name != user);
            }
            WriteOp::UpsertBranchProtection { op, pattern, branch_protection, org: _ } => match op {
                BranchProtectionOp::CreateForRepo(repo_id) => {
                    let node_id = match repo_id {
                        RepoId::NodeId(id) => id.clone(),
                        RepoId::CreatedByRun { org, name } => created
                            .iter()
                            .find(|(o, n, _)| o == org && n == name)
                            .unwrap()
                            .2
                            .clone(),
                    };
                    let id = self.fresh_id("protection");
                    let repo = self.repos.iter_mut().find(|r| r.repo.node_id == node_id).unwrap();
                    repo.protections.push((pattern.clone(), id, branch_protection.clone()));
                }
                BranchProtectionOp::UpdateBranchProtection(id) => {
                    for repo in self.repos.iter_mut() {
                        for entry in repo.protections.iter_mut() {
                            if &entry.1 == id {
                                entry.2 = branch_protection.clone();
                            }
                        }
                    }
                }
            },
            WriteOp::DeleteBranchProtection { org, repo, id } => {
                self.repo_mut(org, repo).protections.retain(|p| &p.1 != id);
            }
            WriteOp::CreateTeam { org, name, description, privacy } => {
                self.teams.push(ObservedTeam {
                    org: org.clone(),
                    team: Team {
                        name: name.clone(),
                        slug: name.to_lowercase(),
                        description: Some(description.clone()),
                        privacy: *privacy,
                    },
                    members: vec![],
                    invites: vec![],
                });
            }
            WriteOp::EditTeam { org, name, new_name, new_description, new_privacy } => {
                let team = &mut self.team_mut(org, name).team;
                if let Some(n) = new_name {
                    team.name = n.clone();
                }
                if let Some(d) = new_description {
                    team.description = Some(d.clone());
                }
                if let Some(p) = new_privacy {
                    team.privacy = *p;
                }
            }
            WriteOp::DeleteTeam { org, slug } => {
                self.teams.retain(|t| !(&t.org == org && &t.team.slug == slug));
            }
            WriteOp::SetTeamMembership { org, team, member, role } => {
                let team = self.team_mut(org, team);
                match team.members.iter_mut().find(|m| &m.1.username == member) {
                    Some(m) => m.1.role = *role,
                    None => team.invites.push(member.clone()),
                }
            }
            WriteOp::RemoveTeamMembership { org, team, member } => {
                self.team_mut(org, team).members.retain(|m| &m.1.username != member);
            }
        }
    }

    fn run(&mut self, ops: &Vec<WriteOp>) {
        let mut created = vec![];
        for op in ops {
            self.execute(op, &mut created);
        }
    }
}

impl GithubRead for &Provider {
    type Error = String;

    fn uses_pat(&self) -> bool {
        self.pat
    }

    fn usernames(&self, ids: &Vec<u64>) -> Result<ListMap<u64, String>, String> {
        self.check("usernames")?;
        let mut map = ListMap::new();
        for id in ids {
            if let Some((_, name)) = self.users.iter().find(|(i, _)| i == id) {
                map.insert(*id, name.clone());
            }
        }
        Ok(map)
    }

    fn org_owners(&self, org: &str) -> Result<Vec<u64>, String> {
        self.check("org_owners")?;
        Ok(self.owners.iter().find(|(o, _)| o == org).map(|(_, ids)| ids.clone()).unwrap_or_default())
    }

    fn org_teams(&self, org: &str) -> Result<Vec<(String, String)>, String> {
        self.check("org_teams")?;
        Ok(self
            .teams
            .iter()
            .filter(|t| t.org == org)
            .map(|t| (t.team.name.clone(), t.team.slug.clone()))
            .collect())
    }

    fn team(&self, org: &str, team: &str) -> Result<Option<Team>, String> {
        self.check("team")?;
        Ok(self.teams.iter().find(|t| t.org == org && t.team.name == team).map(|t| t.team.clone()))
    }

    fn team_memberships(&self, team: &Team, org: &str) -> Result<ListMap<u64, TeamMember>, String> {
        self.check("team_memberships")?;
        let mut map = ListMap::new();
        if let Some(t) = self.teams.iter().find(|t| t.org == org && t.team.name == team.name) {
            for (id, member) in &t.members {
                map.insert(*id, member.clone());
            }
        }
        Ok(map)
    }

    fn team_membership_invitations(&self, org: &str, team: &str) -> Result<Vec<String>, String> {
        self.check("team_membership_invitations")?;
        Ok(self
            .teams
            .iter()
            .find(|t| t.org == org && t.team.name == team)
            .map(|t| t.invites.clone())
            .unwrap_or_default())
    }

    fn repo(&self, org: &str, repo: &str) -> Result<Option<Repo>, String> {
        self.check("repo")?;
        Ok(self.repos.iter().find(|r| r.repo.org == org && r.repo.name == repo).map(|r| r.repo.clone()))
    }

    fn repo_teams(&self, org: &str, repo: &str) -> Result<Vec<RepoTeam>, String> {
        self.check("repo_teams")?;
        Ok(self
            .repos
            .iter()
            .find(|r| r.repo.org == org && r.repo.name == repo)
            .map(|r| r.teams.clone())
            .unwrap_or_default())
    }

    fn repo_collaborators(&self, org: &str, repo: &str) -> Result<Vec<RepoUser>, String> {
        self.check("repo_collaborators")?;
        Ok(self
            .repos
            .iter()
            .find(|r| r.repo.org == org && r.repo.name == repo)
            .map(|r| r.users.clone())
            .unwrap_or_default())
    }

    fn branch_protections(
        &self,
        org: &str,
        repo: &str,
    ) -> Result<ListMap<String, (String, BranchProtection)>, String> {
        self.check("branch_protections")?;
        let mut map = ListMap::new();
        if let Some(r) = self.repos.iter().find(|r| r.repo.org == org && r.repo.name == repo) {
            for (pattern, id, bp) in &r.protections {
                map.insert(pattern.clone(), (id.clone(), bp.clone()));
            }
        }
        Ok(map)
    }
}

fn s(text: &str) -> String {
    text.to_string()
}

fn declared_team(org: &str, name: &str, members: Vec<u64>) -> declared::Team {
    declared::Team {
        name: s(name),
        github: Some(declared::TeamGitHub {
            teams: vec![declared::GitHubTeam { org: s(org), name: s(name), members }],
        }),
    }
}

fn declared_repo(org: &str, name: &str) -> declared::Repo {
    declared::Repo {
        org: s(org),
        name: s(name),
        description: s("A repository"),
        homepage: None,
        bots: vec![],
        teams: vec![],
        members: vec![],
        branch_protections: vec![],
        archived: false,
        auto_merge_enabled: true,
    }
}

fn main_rule() -> declared::BranchProtection {
    declared::BranchProtection {
        pattern: s("main"),
        dismiss_stale_review: true,
        mode: declared::BranchProtectionMode::PrRequired {
            ci_checks: vec![s("b"), s("a")],
            required_approvals: 2,
        },
        allowed_merge_teams: vec![s("infra")],
        merge_bots: vec![],
    }
}

fn observed_repo(org: &str, name: &str) -> ObservedRepo {
    ObservedRepo {
        repo: Repo {
            node_id: s("node-0"),
            name: s(name),
            org: s(org),
            description: s("A repository"),
            homepage: None,
            archived: false,
            allow_auto_merge: Some(true),
        },
        teams: vec![],
        users: vec![],
        protections: vec![],
    }
}

fn acme_provider() -> Provider {
    let mut provider = Provider::new();
    provider.users = vec![(42, s("alice")), (7, s("bob")), (9, s("carol"))];
    provider.owners = vec![(s("acme"), vec![42])];
    provider
}

#[test]
fn create_team_from_empty() {
    let provider = acme_provider();
    let diff = create_diff(&provider, vec![declared_team("acme", "core", vec![42, 7])], vec![]).unwrap();
    assert_eq!(
        diff,
        Diff {
            team_diffs: vec![TeamDiff::Create(CreateTeamDiff {
                org: s("acme"),
                name: s("core"),
                description: s("Managed by the rust-lang/team repository."),
                privacy: TeamPrivacy::Closed,
                members: vec![(s("alice"), TeamRole::Maintainer), (s("bob"), TeamRole::Member)],
            })],
            repo_diffs: vec![],
        }
    );
}

#[test]
fn orphan_team_in_unlisted_org() {
    let mut provider = acme_provider();
    provider.teams.push(ObservedTeam {
        org: s("other"),
        team: Team {
            name: s("ghost"),
            slug: s("ghost"),
            description: Some(s("Managed by the rust-lang/team repository.")),
            privacy: TeamPrivacy::Closed,
        },
        members: vec![],
        invites: vec![],
    });
    provider.teams.push(ObservedTeam {
        org: s("other"),
        team: Team {
            name: s("known"),
            slug: s("known"),
            description: Some(s("Managed by the rust-lang/team repository.")),
            privacy: TeamPrivacy::Closed,
        },
        members: vec![],
        invites: vec![],
    });
    let diff = create_diff(&provider, vec![declared_team("other", "known", vec![])], vec![]).unwrap();
    assert!(diff.is_empty());
    assert!(diff.team_diffs.iter().all(|d| !matches!(d, TeamDiff::Delete(_))));
}

#[test]
fn orphan_team_in_managed_org_is_deleted() {
    let mut provider = acme_provider();
    for name in ["known", "ghost", "bors"] {
        provider.teams.push(ObservedTeam {
            org: s("rust-lang"),
            team: Team {
                name: s(name),
                slug: format!("{}-slug", name),
                description: Some(s("Managed by the rust-lang/team repository.")),
                privacy: TeamPrivacy::Closed,
            },
            members: vec![],
            invites: vec![],
        });
    }
    let diff = create_diff(&provider, vec![declared_team("rust-lang", "known", vec![])], vec![]).unwrap();
    assert_eq!(
        diff.team_diffs,
        vec![TeamDiff::Delete(DeleteTeamDiff {
            org: s("rust-lang"),
            name: s("ghost"),
            slug: s("ghost-slug"),
        })]
    );
    assert_eq!(
        diff.apply(),
        vec![WriteOp::DeleteTeam { org: s("rust-lang"), slug: s("ghost-slug") }]
    );
}

#[test]
fn unknown_member_fails_loud() {
    let provider = acme_provider();
    let made = create_diff(&provider, vec![declared_team("acme", "core", vec![42, 1000, 2000])], vec![]);
    match made {
        Err(DiffError::UnknownUser(unknown)) => assert_eq!(unknown, UnknownUser { id: 1000 }),
        _ => panic!("the member without a username has to be reported"),
    }
}

#[test]
fn failed_read_is_handed_on() {
    for read in ["usernames", "org_owners", "org_teams", "team"] {
        let mut provider = acme_provider();
        provider.failing = Some(read);
        let made = create_diff(&provider, vec![declared_team("acme", "core", vec![42])], vec![]);
        match made {
            Err(DiffError::Read(e)) => assert_eq!(e, format!("{} failed", read)),
            _ => panic!("the failure of {} has to be handed on", read),
        }
    }
    for read in ["repo", "repo_teams", "repo_collaborators", "branch_protections"] {
        let mut provider = acme_provider();
        provider.repos.push(observed_repo("acme", "tool"));
        provider.failing = Some(read);
        let made = create_diff(&provider, vec![], vec![declared_repo("acme", "tool")]);
        match made {
            Err(DiffError::Read(e)) => assert_eq!(e, format!("{} failed", read)),
            _ => panic!("the failure of {} has to be handed on", read),
        }
    }
}

#[test]
fn engine_caches_owners_of_declared_orgs() {
    let provider = acme_provider();
    let teams = vec![
        declared_team("acme", "core", vec![42, 7]),
        declared_team("other", "docs", vec![7]),
        declared_team("acme", "infra", vec![7, 9]),
        declared::Team { name: s("unbound"), github: None },
    ];
    let sync = SyncGitHub::new(&provider, teams, vec![]).unwrap();
    let owners = sync.org_owners.into_entries();
    assert_eq!(owners, vec![(s("acme"), vec![42]), (s("other"), vec![])]);
    let names = sync.usernames_cache.into_entries();
    assert_eq!(names, vec![(42, s("alice")), (7, s("bob")), (9, s("carol"))]);
}

#[test]
fn engine_derives_roles_from_owners() {
    let provider = acme_provider();
    let sync = SyncGitHub::new(&provider, vec![declared_team("acme", "core", vec![42, 7])], vec![]).unwrap();
    assert_eq!(sync.expected_role(&s("acme"), 42), TeamRole::Maintainer);
    assert_eq!(sync.expected_role(&s("acme"), 7), TeamRole::Member);
    assert_eq!(sync.expected_role(&s("elsewhere"), 42), TeamRole::Member);
}

#[test]
fn new_repository_is_never_created_archived() {
    let provider = acme_provider();
    let mut repo = declared_repo("acme", "tool");
    repo.archived = true;
    repo.teams = vec![declared::RepoTeam { name: s("infra"), permission: declared::RepoPermission::Maintain }];
    repo.branch_protections = vec![main_rule()];
    let diff = create_diff(&provider, vec![], vec![repo]).unwrap();
    match &diff.repo_diffs[..] {
        [RepoDiff::Create(create)] => {
            assert!(!create.settings.archived);
            assert_eq!(create.settings.description, "A repository");
            assert!(create.settings.auto_merge_enabled);
            assert_eq!(create.permissions.len(), 1);
            assert_eq!(create.permissions[0].collaborator, RepoCollaborator::Team(s("infra")));
            assert_eq!(create.permissions[0].diff, RepoPermissionDiff::Create(RepoPermission::Maintain));
            assert_eq!(create.branch_protections.len(), 1);
            assert_eq!(create.branch_protections[0].0, "main");
            assert_eq!(
                create.branch_protections[0].1.required_status_check_contexts,
                vec![s("a"), s("b")]
            );
        }
        _ => panic!("one creation expected"),
    }
    let ops = diff.apply();
    assert_eq!(ops.len(), 3);
    assert!(matches!(&ops[0], WriteOp::CreateRepo { .. }));
    assert!(matches!(&ops[1], WriteOp::UpdateTeamRepoPermissions { .. }));
    match &ops[2] {
        WriteOp::UpsertBranchProtection { op, pattern, org, .. } => {
            assert_eq!(
                op,
                &BranchProtectionOp::CreateForRepo(RepoId::CreatedByRun {
                    org: s("acme"),
                    name: s("tool")
                })
            );
            assert_eq!(pattern, "main");
            assert_eq!(org, "acme");
        }
        _ => panic!("the protection is created last"),
    }
}

#[test]
fn missing_auto_merge_counts_as_off() {
    let mut provider = acme_provider();
    let mut seen = observed_repo("acme", "tool");
    seen.repo.allow_auto_merge = None;
    provider.repos.push(seen);
    let diff = create_diff(&provider, vec![], vec![declared_repo("acme", "tool")]).unwrap();
    match &diff.repo_diffs[..] {
        [RepoDiff::Update(update)] => {
            assert!(!update.settings_diff.0.auto_merge_enabled);
            assert!(update.settings_diff.1.auto_merge_enabled);
            assert_eq!(update.repo_node_id, "node-0");
        }
        _ => panic!("one update expected"),
    }
}

#[test]
fn protections_of_the_privileged_repo_are_left_alone_without_pat() {
    let mut provider = acme_provider();
    provider.pat = false;
    let mut seen = observed_repo("rust-lang", "rust");
    seen.protections.push((
        s("stray"),
        s("id-1"),
        BranchProtection {
            pattern: s("stray"),
            is_admin_enforced: true,
            dismisses_stale_reviews: false,
            required_approving_review_count: 0,
            required_status_check_contexts: vec![],
            push_allowances: vec![],
            requires_approving_reviews: false,
        },
    ));
    provider.repos.push(seen);
    provider.repos.push(observed_repo("rust-lang", "cargo"));
    provider.repos[1].protections = vec![(
        s("stray"),
        s("id-2"),
        BranchProtection {
            pattern: s("stray"),
            is_admin_enforced: true,
            dismisses_stale_reviews: false,
            required_approving_review_count: 0,
            required_status_check_contexts: vec![],
            push_allowances: vec![],
            requires_approving_reviews: false,
        },
    )];
    let diff = create_diff(
        &provider,
        vec![],
        vec![declared_repo("rust-lang", "rust"), declared_repo("rust-lang", "cargo")],
    )
    .unwrap();
    match &diff.repo_diffs[..] {
        [RepoDiff::Update(update)] => {
            assert_eq!(update.name, "cargo");
            assert_eq!(update.branch_protection_diffs.len(), 1);
            assert_eq!(
                update.branch_protection_diffs[0].operation,
                BranchProtectionDiffOperation::Delete(s("id-2"))
            );
        }
        _ => panic!("only the other repository changes"),
    }
    provider.pat = true;
    let diff = create_diff(&provider, vec![], vec![declared_repo("rust-lang", "rust")]).unwrap();
    assert_eq!(diff.repo_diffs.len(), 1);
}

#[test]
fn can_diff_tells_rules_that_do_not_project() {
    let mut repo = declared_repo("acme", "tool");
    repo.branch_protections = vec![main_rule()];
    assert!(can_diff(&vec![repo.clone()]));
    repo.branch_protections[0].mode = declared::BranchProtectionMode::PrRequired {
        ci_checks: vec![],
        required_approvals: 256,
    };
    assert!(!can_diff(&vec![repo.clone()]));
    repo.branch_protections[0].merge_bots = vec![declared::MergeBot::Homu];
    assert!(can_diff(&vec![repo]));
}

fn drifted_provider() -> Provider {
    let mut provider = acme_provider();
    provider.owners = vec![(s("rust-lang"), vec![42])];
    provider.teams.push(ObservedTeam {
        org: s("rust-lang"),
        team: Team {
            name: s("core"),
            slug: s("core"),
            description: Some(s("The core team")),
            privacy: TeamPrivacy::Secret,
        },
        members: vec![
            (42, TeamMember { username: s("alice"), role: TeamRole::Member }),
            (9, TeamMember { username: s("carol"), role: TeamRole::Member }),
        ],
        invites: vec![],
    });
    provider.teams.push(ObservedTeam {
        org: s("rust-lang"),
        team: Team {
            name: s("stale"),
            slug: s("stale"),
            description: None,
            privacy: TeamPrivacy::Closed,
        },
        members: vec![],
        invites: vec![],
    });
    let mut seen = observed_repo("rust-lang", "tool");
    seen.repo.description = s("Old words");
    seen.repo.homepage = Some(s("https://old.example"));
    seen.teams = vec![
        RepoTeam { name: s("infra"), permission: RepoPermission::Write },
        RepoTeam { name: s("security"), permission: RepoPermission::Triage },
        RepoTeam { name: s("gone"), permission: RepoPermission::Admin },
    ];
    seen.users = vec![
        RepoUser { name: s("bors"), permission: RepoPermission::Admin },
        RepoUser { name: s("mallory"), permission: RepoPermission::Write },
    ];
    seen.protections = vec![
        (
            s("main"),
            s("id-main"),
            BranchProtection {
                pattern: s("main"),
                is_admin_enforced: false,
                dismisses_stale_reviews: false,
                required_approving_review_count: 1,
                required_status_check_contexts: vec![s("a")],
                push_allowances: vec![PushAllowanceActor::App(AppPushAllowanceActor {
                    name: s("deployer"),
                    id: s("app-1"),
                })],
                requires_approving_reviews: true,
            },
        ),
        (
            s("old-*"),
            s("id-old"),
            BranchProtection {
                pattern: s("old-*"),
                is_admin_enforced: true,
                dismisses_stale_reviews: false,
                required_approving_review_count: 0,
                required_status_check_contexts: vec![],
                push_allowances: vec![],
                requires_approving_reviews: false,
            },
        ),
    ];
    provider.repos.push(seen);
    provider
}

fn wanted_state() -> (Vec<declared::Team>, Vec<declared::Repo>) {
    let teams = vec![declared_team("rust-lang", "core", vec![42, 7])];
    let mut tool = declared_repo("rust-lang", "tool");
    tool.teams = vec![declared::RepoTeam { name: s("infra"), permission: declared::RepoPermission::Maintain }];
    tool.members = vec![declared::RepoMember { name: s("dave"), permission: declared::RepoPermission::Triage }];
    tool.bots = vec![declared::Bot::Bors, declared::Bot::Renovate];
    tool.branch_protections = vec![
        main_rule(),
        declared::BranchProtection {
            pattern: s("auto"),
            dismiss_stale_review: false,
            mode: declared::BranchProtectionMode::PrRequired {
                ci_checks: vec![s("ci")],
                required_approvals: 1,
            },
            allowed_merge_teams: vec![],
            merge_bots: vec![declared::MergeBot::Homu],
        },
    ];
    let mut fresh = declared_repo("rust-lang", "fresh");
    fresh.branch_protections = vec![main_rule()];
    (teams, vec![tool, fresh])
}

#[test]
fn applying_a_diff_leaves_nothing_to_do() {
    let mut provider = drifted_provider();
    let (teams, repos) = wanted_state();
    let first = create_diff(&provider, teams.clone(), repos.clone()).unwrap();
    assert_eq!(first.team_diffs.len(), 2);
    assert_eq!(first.repo_diffs.len(), 2);
    let ops = first.apply();
    assert!(!ops.is_empty());
    provider.run(&ops);
    let second = create_diff(&provider, teams, repos).unwrap();
    assert!(second.is_empty(), "left to do: {}", second.render());
    assert!(second.apply().is_empty());
    let tool = &provider.repos[0];
    assert!(tool.teams.iter().any(|t| t.name == "security"));
    assert!(tool
        .protections
        .iter()
        .any(|p| p.2.push_allowances.iter().any(|a| matches!(a, PushAllowanceActor::App(_)))));
}

#[test]
fn team_edit_against_the_provider() {
    let provider = drifted_provider();
    let (teams, _) = wanted_state();
    let diff = create_diff(&provider, teams, vec![]).unwrap();
    match &diff.team_diffs[0] {
        TeamDiff::Edit(edit) => {
            assert_eq!(edit.org, "rust-lang");
            assert_eq!(edit.name, "core");
            assert_eq!(edit.name_diff, None);
            assert_eq!(
                edit.description_diff,
                Some((s("The core team"), s("Managed by the rust-lang/team repository.")))
            );
            assert_eq!(edit.privacy_diff, Some((TeamPrivacy::Secret, TeamPrivacy::Closed)));
            assert_eq!(
                edit.member_diffs,
                vec![
                    (s("alice"), MemberDiff::ChangeRole((TeamRole::Member, TeamRole::Maintainer))),
                    (s("bob"), MemberDiff::Create(TeamRole::Member)),
                    (s("carol"), MemberDiff::Delete),
                ]
            );
        }
        _ => panic!("an edit expected"),
    }
    assert_eq!(
        diff.team_diffs[1],
        TeamDiff::Delete(DeleteTeamDiff { org: s("rust-lang"), name: s("stale"), slug: s("stale") })
    );
}

#[test]
fn allowances_of_teams_name_the_organization() {
    let repo = declared_repo("acme", "tool");
    let projected = sync_team::protection::construct_branch_protection(&repo, &main_rule());
    assert_eq!(
        projected.push_allowances,
        vec![PushAllowanceActor::Team(TeamPushAllowanceActor {
            organization: Login { login: s("acme") },
            name: s("infra"),
        })]
    );
}

#[test]
fn a_repository_declared_archived_is_archived_by_the_next_run() {
    let mut provider = acme_provider();
    let mut repo = declared_repo("acme", "attic");
    repo.archived = true;
    let first = create_diff(&provider, vec![], vec![repo.clone()]).unwrap();
    provider.run(&first.apply());
    assert!(!provider.repos[0].repo.archived);
    let second = create_diff(&provider, vec![], vec![repo.clone()]).unwrap();
    match &second.repo_diffs[..] {
        [RepoDiff::Update(update)] => {
            assert!(!update.settings_diff.0.archived);
            assert!(update.settings_diff.1.archived);
            assert_eq!(update.apply().len(), 1);
        }
        _ => panic!("the repository has to be archived now"),
    }
    provider.run(&second.apply());
    assert!(provider.repos[0].repo.archived);
    assert!(create_diff(&provider, vec![], vec![repo]).unwrap().is_empty());
}

#[test]
fn of_the_listed_teams_only_the_undeclared_one_that_is_no_bot_team_is_deleted() {
    let mut provider = acme_provider();
    for (name, slug) in [("core", "core"), ("bors", "bors"), ("Old Team", "old-team")] {
        provider.teams.push(ObservedTeam {
            org: s("rust-lang"),
            team: Team {
                name: s(name),
                slug: s(slug),
                description: Some(s("Managed by the rust-lang/team repository.")),
                privacy: TeamPrivacy::Closed,
            },
            members: vec![],
            invites: vec![],
        });
    }
    let sync = SyncGitHub::new(&provider, vec![declared_team("rust-lang", "core", vec![])], vec![]).unwrap();
    assert_eq!(
        sync.diff_teams().unwrap(),
        vec![TeamDiff::Delete(DeleteTeamDiff {
            org: s("rust-lang"),
            name: s("Old Team"),
            slug: s("old-team"),
        })]
    );
}

#[test]
fn each_organization_is_listed_once_and_its_orphans_come_in_listing_order() {
    let mut provider = acme_provider();
    for (org, name) in [
        ("rust-lang-nursery", "attic"),
        ("rust-lang", "zeta"),
        ("rust-lang", "core"),
        ("rust-lang", "alpha"),
        ("rust-lang-nursery", "docs"),
    ] {
        provider.teams.push(ObservedTeam {
            org: s(org),
            team: Team {
                name: s(name),
                slug: format!("{}-slug", name),
                description: Some(s("Managed by the rust-lang/team repository.")),
                privacy: TeamPrivacy::Closed,
            },
            members: vec![],
            invites: vec![],
        });
    }
    let teams = vec![
        declared_team("rust-lang", "core", vec![]),
        declared_team("rust-lang-nursery", "docs", vec![]),
        declared_team("rust-lang", "core", vec![]),
    ];
    let diff = create_diff(&provider, teams, vec![]).unwrap();
    let deleted: Vec<(String, String, String)> = diff
        .team_diffs
        .iter()
        .map(|d| match d {
            TeamDiff::Delete(gone) => (gone.org.clone(), gone.name.clone(), gone.slug.clone()),
            _ => panic!("only deletions expected"),
        })
        .collect();
    assert_eq!(
        deleted,
        vec![
            (s("rust-lang"), s("zeta"), s("zeta-slug")),
            (s("rust-lang"), s("alpha"), s("alpha-slug")),
            (s("rust-lang-nursery"), s("attic"), s("attic-slug")),
        ]
    );
}
