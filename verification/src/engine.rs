//! The diff engine: reads the observed state through the read capability
//! and computes the diff against the declaration.

use crate::api::{
    BranchProtection, BranchProtectionModel, Repo, RepoModel, RepoPermission, RepoTeam,
    RepoTeamModel, RepoUser, RepoUserModel, Team, TeamMember, TeamMemberModel, TeamModel, TeamRole,
};
use crate::declared;
use crate::declared::{GitHubTeam, GitHubTeamModel};
use crate::diff::{
    BranchProtectionDiff, BranchProtectionDiffModel, Diff, DiffModel, RepoDiff, RepoDiffModel,
    RepoPermissionAssignmentDiff, TeamDiff, TeamDiffModel,
};
use crate::listmap::{
    collected, distinct, has_key, keys, left_over, lemma_absent_key, lemma_distinct_contains,
    lemma_left_over_push, ListMap,
};
use crate::permissions::{calculate_permission_diffs, permission_diffs};
use crate::protection::{all_projectable, can_project_all, diff_protections, protection_diffs};
use crate::repos::{
    diffs_protections, existing_repo, new_repo, protections_are_diffed, repo_creation, repo_update,
};
use crate::teams::{
    all_noted, contains_id, create_team, delete_teams, edit_team, expected_role,
    first_unknown_at, lemma_noted_left_over_commute, note_listed, role_of, team_creation,
    team_deletions, team_edit, team_keys, undeclared_teams, UnknownUser,
};
use crate::text::{contains_name, Text};
use vstd::prelude::*;

verus! {

/// The read capability: what the engine asks of the provider. Every
/// operation may fail, and nothing is known of what one returns.
pub trait GithubRead {
    /// What a failed read reports.
    type Error;

    /// Whether the reads are made with a personal access token.
    fn uses_pat(&self) -> bool;

    /// The usernames of the users with the given ids.
    fn usernames(&self, ids: &Vec<u64>) -> Result<ListMap<u64, String>, Self::Error>;

    /// The ids of the owners of an organization.
    fn org_owners(&self, org: &str) -> Result<Vec<u64>, Self::Error>;

    /// The teams of an organization, each by name and slug.
    fn org_teams(&self, org: &str) -> Result<Vec<(String, String)>, Self::Error>;

    /// The team of an organization with the given name, if there is one.
    fn team(&self, org: &str, team: &str) -> Result<Option<Team>, Self::Error>;

    /// The members of a team by user id.
    fn team_memberships(&self, team: &Team, org: &str) -> Result<
        ListMap<u64, TeamMember>,
        Self::Error,
    >;

    /// The usernames of those who are invited to a team.
    fn team_membership_invitations(&self, org: &str, team: &str) -> Result<
        Vec<String>,
        Self::Error,
    >;

    /// The repository of an organization with the given name, if there is one.
    fn repo(&self, org: &str, repo: &str) -> Result<Option<Repo>, Self::Error>;

    /// The teams that have access to a repository.
    fn repo_teams(&self, org: &str, repo: &str) -> Result<Vec<RepoTeam>, Self::Error>;

    /// The users that have access to a repository.
    fn repo_collaborators(&self, org: &str, repo: &str) -> Result<Vec<RepoUser>, Self::Error>;

    /// The branch protections of a repository by pattern, each with the
    /// provider's id of it.
    fn branch_protections(&self, org: &str, repo: &str) -> Result<
        ListMap<String, (String, BranchProtection)>,
        Self::Error,
    >;
}

/// Why no diff could be computed.
#[derive(Debug)]
pub enum DiffError<E> {
    /// A read failed; the failure is handed on as it came.
    Read(E),
    /// A declared member has no username on the provider.
    UnknownUser(UnknownUser),
}

/// The provider teams of the declared teams, in order.
pub open spec fn github_teams(teams: Seq<declared::TeamModel>) -> Seq<GitHubTeamModel>
    decreases teams.len(),
{
    if teams.len() == 0 {
        Seq::empty()
    } else {
        github_teams(teams.drop_last()) + match teams.last().github {
            Some(bound) => bound,
            None => Seq::empty(),
        }
    }
}

/// The ids of the members of the teams, team after team.
pub open spec fn member_ids(teams: Seq<GitHubTeamModel>) -> Seq<u64>
    decreases teams.len(),
{
    if teams.len() == 0 {
        Seq::empty()
    } else {
        member_ids(teams.drop_last()) + teams.last().members
    }
}

/// The organizations of the teams, team after team.
pub open spec fn orgs_of(teams: Seq<GitHubTeamModel>) -> Seq<Text> {
    Seq::new(teams.len(), |i: int| teams[i].org)
}

/// Lists the provider teams of the declared teams.
pub fn provider_teams<'a>(teams: &'a Vec<declared::Team>) -> (bound: Vec<&'a GitHubTeam>)
    ensures
        bound.deep_view() == github_teams(teams.deep_view()),
{
    let ghost all = teams.deep_view();
    let mut bound: Vec<&'a GitHubTeam> = Vec::new();
    let mut i: usize = 0;
    while i < teams.len()
        invariant
            i <= teams.len(),
            all == teams.deep_view(),
            bound.deep_view() =~= github_teams(all.take(i as int)),
        decreases teams.len() - i,
    {
        proof {
            assert(all.take(i + 1).drop_last() =~= all.take(i as int));
            assert(all[i as int] == teams[i as int].deep_view());
        }
        let ghost done = bound.deep_view();
        match &teams[i].github {
            Some(gh) => {
                let ghost these = gh.teams.deep_view();
                let mut j: usize = 0;
                while j < gh.teams.len()
                    invariant
                        j <= gh.teams.len(),
                        these == gh.teams.deep_view(),
                        bound.deep_view() =~= done + these.take(j as int),
                    decreases gh.teams.len() - j,
                {
                    let ghost before = bound.deep_view();
                    bound.push(&gh.teams[j]);
                    assert(bound.deep_view() =~= before.push(these[j as int]));
                    j += 1;
                }
                assert(these.take(j as int) =~= these);
            },
            None => {},
        }
        i += 1;
    }
    assert(all.take(i as int) =~= all);
    bound
}

/// Lists the ids of the members of the teams, each once.
pub fn declared_users(teams: &Vec<&GitHubTeam>) -> (ids: Vec<u64>)
    ensures
        ids@ == distinct(member_ids(teams.deep_view())),
{
    let ghost all = teams.deep_view();
    let mut ids: Vec<u64> = Vec::new();
    let mut i: usize = 0;
    while i < teams.len()
        invariant
            i <= teams.len(),
            all == teams.deep_view(),
            ids@ == distinct(member_ids(all.take(i as int))),
        decreases teams.len() - i,
    {
        let ghost done = member_ids(all.take(i as int));
        let members = &teams[i].members;
        let mut j: usize = 0;
        while j < members.len()
            invariant
                j <= members.len(),
                ids@ == distinct(done + members@.take(j as int)),
            decreases members.len() - j,
        {
            proof {
                assert((done + members@.take(j + 1)).drop_last() =~= done + members@.take(
                    j as int,
                ));
            }
            if !contains_id(&ids, members[j]) {
                ids.push(members[j]);
            }
            j += 1;
        }
        proof {
            assert(members@.take(j as int) =~= members@);
            assert(all.take(i + 1).drop_last() =~= all.take(i as int));
            assert(all[i as int].members == members@);
        }
        i += 1;
    }
    assert(all.take(i as int) =~= all);
    ids
}

/// Lists the organizations of the teams, each once.
pub fn declared_orgs(teams: &Vec<&GitHubTeam>) -> (orgs: Vec<String>)
    ensures
        orgs.deep_view() == distinct(orgs_of(teams.deep_view())),
{
    let ghost all = orgs_of(teams.deep_view());
    let mut orgs: Vec<String> = Vec::new();
    let mut i: usize = 0;
    while i < teams.len()
        invariant
            i <= teams.len(),
            all == orgs_of(teams.deep_view()),
            orgs.deep_view() == distinct(all.take(i as int)),
        decreases teams.len() - i,
    {
        proof {
            assert(all.take(i + 1).drop_last() =~= all.take(i as int));
            assert(all[i as int] == teams[i as int].org@);
        }
        if !contains_name(&orgs, teams[i].org.as_str()) {
            let ghost before = orgs.deep_view();
            orgs.push(teams[i].org.clone());
            assert(orgs.deep_view() =~= before.push(teams[i as int].org@));
        }
        i += 1;
    }
    assert(all.take(i as int) =~= all);
    orgs
}

/// The names and permissions of the observed teams, one after another.
pub open spec fn team_pairs(teams: Seq<RepoTeamModel>) -> Seq<(Text, RepoPermission)> {
    Seq::new(teams.len(), |i: int| (teams[i].name, teams[i].permission))
}

/// The names and permissions of the observed users, one after another.
pub open spec fn user_pairs(users: Seq<RepoUserModel>) -> Seq<(Text, RepoPermission)> {
    Seq::new(users.len(), |i: int| (users[i].name, users[i].permission))
}

/// Keys the observed teams by name.
pub fn teams_by_name(teams: &Vec<RepoTeam>) -> (map: ListMap<String, RepoPermission>)
    ensures
        map.deep_view() == collected(team_pairs(teams.deep_view())),
{
    let ghost pairs = team_pairs(teams.deep_view());
    let mut map: ListMap<String, RepoPermission> = ListMap::new();
    let mut i: usize = 0;
    while i < teams.len()
        invariant
            i <= teams.len(),
            pairs == team_pairs(teams.deep_view()),
            map.deep_view() == collected(pairs.take(i as int)),
        decreases teams.len() - i,
    {
        proof {
            assert(pairs.take(i + 1).drop_last() =~= pairs.take(i as int));
        }
        map.insert(teams[i].name.clone(), teams[i].permission);
        i += 1;
    }
    assert(pairs.take(i as int) =~= pairs);
    map
}

/// Keys the observed users by name.
pub fn users_by_name(users: &Vec<RepoUser>) -> (map: ListMap<String, RepoPermission>)
    ensures
        map.deep_view() == collected(user_pairs(users.deep_view())),
{
    let ghost pairs = user_pairs(users.deep_view());
    let mut map: ListMap<String, RepoPermission> = ListMap::new();
    let mut i: usize = 0;
    while i < users.len()
        invariant
            i <= users.len(),
            pairs == user_pairs(users.deep_view()),
            map.deep_view() == collected(pairs.take(i as int)),
        decreases users.len() - i,
    {
        proof {
            assert(pairs.take(i + 1).drop_last() =~= pairs.take(i as int));
        }
        map.insert(users[i].name.clone(), users[i].permission);
        i += 1;
    }
    assert(pairs.take(i as int) =~= pairs);
    map
}

/// Whether `diff` is what the declared team asks for against some
/// observation: its creation, or its edit against some observed team.
pub open spec fn is_team_diff(
    team: GitHubTeamModel,
    usernames: Seq<(u64, Text)>,
    owners: Seq<(Text, Seq<u64>)>,
    diff: TeamDiffModel,
) -> bool {
    match diff {
        TeamDiffModel::Create(create) => create == team_creation(team, usernames, owners),
        TeamDiffModel::Edit(edit) => exists|
            observed: TeamModel,
            current: Seq<(u64, TeamMemberModel)>,
            invites: Seq<Text>,
        | edit == team_edit(team, observed, current, invites, usernames, owners),
        TeamDiffModel::Delete(_) => false,
    }
}

/// Whether `diff` is what the declared repository asks for against some
/// observation: its creation, or its update against some observed
/// repository. The branch protections go undiffed for no repository but
/// the one whose protections cannot be read in full without a token.
pub open spec fn is_repo_diff(repo: declared::RepoModel, diff: RepoDiffModel) -> bool {
    match diff {
        RepoDiffModel::Create(create) => create == repo_creation(repo),
        RepoDiffModel::Update(update) => exists|
            observed: RepoModel,
            teams: Seq<(Text, RepoPermission)>,
            collaborators: Seq<(Text, RepoPermission)>,
            protections: Option<Seq<(Text, (Text, BranchProtectionModel))>>,
        |
            {
                &&& #[trigger] repo_update(repo, observed, teams, collaborators, protections)
                    == update
                &&& protections is None ==> !protections_are_diffed(
                    false,
                    observed.org,
                    observed.name,
                )
            },
    }
}

/// Every declared repository can be diffed: each of its rules can be projected.
pub open spec fn all_repos_projectable(repos: Seq<declared::RepoModel>) -> bool {
    forall|i: int| 0 <= i < repos.len() ==> all_projectable(#[trigger] repos[i])
}

/// Whether `id` is the first member without a username of one of the teams.
pub open spec fn is_unknown_member(
    teams: Seq<GitHubTeamModel>,
    usernames: Seq<(u64, Text)>,
    id: u64,
) -> bool {
    exists|j: int, i: int|
        0 <= j < teams.len() && #[trigger] first_unknown_at(teams[j].members, usernames, i)
            && teams[j].members[i] == id
}

/// The diffs of `all` that change something, in order.
pub open spec fn changing_team_diffs(all: Seq<TeamDiffModel>) -> Seq<TeamDiffModel>
    decreases all.len(),
{
    if all.len() == 0 {
        Seq::empty()
    } else if all.last().noop() {
        changing_team_diffs(all.drop_last())
    } else {
        changing_team_diffs(all.drop_last()).push(all.last())
    }
}

/// The diffs of `all` that change something, in order.
pub open spec fn changing_repo_diffs(all: Seq<RepoDiffModel>) -> Seq<RepoDiffModel>
    decreases all.len(),
{
    if all.len() == 0 {
        Seq::empty()
    } else if all.last().noop() {
        changing_repo_diffs(all.drop_last())
    } else {
        changing_repo_diffs(all.drop_last()).push(all.last())
    }
}

/// Whether `all` holds, team by team, a diff of each declared team against
/// some observation.
pub open spec fn are_team_diffs(
    teams: Seq<GitHubTeamModel>,
    usernames: Seq<(u64, Text)>,
    owners: Seq<(Text, Seq<u64>)>,
    all: Seq<TeamDiffModel>,
) -> bool {
    &&& all.len() == teams.len()
    &&& forall|i: int|
        0 <= i < all.len() ==> is_team_diff(teams[i], usernames, owners, #[trigger] all[i])
}

/// Whether `all` holds, repository by repository, a diff of each declared
/// repository against some observation.
pub open spec fn are_repo_diffs(repos: Seq<declared::RepoModel>, all: Seq<RepoDiffModel>) -> bool {
    &&& all.len() == repos.len()
    &&& forall|i: int| 0 <= i < all.len() ==> is_repo_diff(repos[i], #[trigger] all[i])
}

/// None of the declared teams is among `unseen`.
pub open spec fn holds_no_declared_team(
    teams: Seq<GitHubTeamModel>,
    unseen: Seq<((Text, Text), Text)>,
) -> bool {
    forall|i: int|
        0 <= i < teams.len() ==> !has_key(unseen, ((#[trigger] teams[i]).org, teams[i].name))
}

/// Whether `diffs` is a result of diffing the declared teams: the diffs of
/// the declared teams that change something, in the order of the
/// declaration, then the deletions of the teams that the provider lists
/// and nobody declares. Each organization of a declared team is listed
/// once, in the order in which the organizations first come up.
pub open spec fn are_diffs_of_teams(
    teams: Seq<GitHubTeamModel>,
    usernames: Seq<(u64, Text)>,
    owners: Seq<(Text, Seq<u64>)>,
    diffs: Seq<TeamDiffModel>,
) -> bool {
    exists|all: Seq<TeamDiffModel>, listings: Seq<(Text, Seq<(Text, Text)>)>|
        #![trigger changing_team_diffs(all), undeclared_teams(teams, listings)]
        {
            &&& are_team_diffs(teams, usernames, owners, all)
            &&& keys(listings) == distinct(orgs_of(teams))
            &&& diffs == changing_team_diffs(all) + team_deletions(
                undeclared_teams(teams, listings),
            )
        }
}

/// Whether `diffs` is a result of diffing the declared repositories: their
/// diffs that change something, in the order of the declaration.
pub open spec fn are_diffs_of_repos(
    repos: Seq<declared::RepoModel>,
    diffs: Seq<RepoDiffModel>,
) -> bool {
    exists|all: Seq<RepoDiffModel>| #![trigger changing_repo_diffs(all)]
        are_repo_diffs(repos, all) && diffs == changing_repo_diffs(all)
}

/// The engine for one run: the read capability, the declaration, and the
/// two caches that are filled at the start and only read afterwards.
pub struct SyncGitHub<R: GithubRead> {
    pub github: R,
    pub teams: Vec<declared::Team>,
    pub repos: Vec<declared::Repo>,
    pub usernames_cache: ListMap<u64, String>,
    pub org_owners: ListMap<String, Vec<u64>>,
}

impl<R: GithubRead> SyncGitHub<R> {
    /// Starts a run: asks the provider for the usernames of all declared
    /// members and for the owners of every organization that a declared
    /// team belongs to.
    pub fn new(github: R, teams: Vec<declared::Team>, repos: Vec<declared::Repo>) -> (made: Result<
        Self,
        R::Error,
    >)
        ensures
            match made {
                Ok(sync) => {
                    &&& sync.teams.deep_view() == teams.deep_view()
                    &&& sync.repos.deep_view() == repos.deep_view()
                    &&& keys(sync.org_owners.deep_view()) == distinct(
                        orgs_of(github_teams(teams.deep_view())),
                    )
                },
                Err(_) => true,
            },
    {
        let bound = provider_teams(&teams);
        let users = declared_users(&bound);
        let usernames_cache = match github.usernames(&users) {
            Ok(cache) => cache,
            Err(e) => {
                return Err(e);
            },
        };
        let orgs = declared_orgs(&bound);
        let ghost wanted = orgs.deep_view();
        let mut org_owners: ListMap<String, Vec<u64>> = ListMap::new();
        let mut i: usize = 0;
        while i < orgs.len()
            invariant
                i <= orgs.len(),
                wanted == orgs.deep_view(),
                wanted == distinct(orgs_of(github_teams(teams.deep_view()))),
                keys(org_owners.deep_view()) =~= wanted.take(i as int),
            decreases orgs.len() - i,
        {
            let owners = match github.org_owners(orgs[i].as_str()) {
                Ok(owners) => owners,
                Err(e) => {
                    return Err(e);
                },
            };
            proof {
                lemma_distinct_new(orgs_of(github_teams(teams.deep_view())), i as int);
                lemma_absent_key(org_owners.deep_view(), wanted[i as int]);
            }
            org_owners.insert(orgs[i].clone(), owners);
            i += 1;
        }
        assert(wanted.take(i as int) =~= wanted);
        Ok(SyncGitHub { github, teams, repos, usernames_cache, org_owners })
    }

    /// The role that `user` is to have in the teams of `org`.
    pub fn expected_role(&self, org: &String, user: u64) -> (role: TeamRole)
        ensures
            role == role_of(self.org_owners.deep_view(), org@, user),
    {
        expected_role(&self.org_owners, org, user)
    }

    /// Diffs one declared team against what the provider reports of it.
    pub fn diff_team(&self, github_team: &GitHubTeam) -> (made: Result<
        TeamDiff,
        DiffError<R::Error>,
    >)
        ensures
            match made {
                Ok(diff) => is_team_diff(
                    github_team.deep_view(),
                    self.usernames_cache.deep_view(),
                    self.org_owners.deep_view(),
                    diff.deep_view(),
                ),
                Err(DiffError::UnknownUser(unknown)) => exists|i: int|
                    first_unknown_at(github_team.members@, self.usernames_cache.deep_view(), i)
                        && github_team.members@[i] == unknown.id,
                Err(DiffError::Read(_)) => true,
            },
    {
        let team = match self.github.team(github_team.org.as_str(), github_team.name.as_str()) {
            Ok(Some(team)) => team,
            Ok(None) => {
                return match create_team(github_team, &self.usernames_cache, &self.org_owners) {
                    Ok(create) => Ok(TeamDiff::Create(create)),
                    Err(unknown) => Err(DiffError::UnknownUser(unknown)),
                };
            },
            Err(e) => {
                return Err(DiffError::Read(e));
            },
        };
        let current_members = match self.github.team_memberships(&team, github_team.org.as_str()) {
            Ok(members) => members,
            Err(e) => {
                return Err(DiffError::Read(e));
            },
        };
        let invites = match self.github.team_membership_invitations(
            github_team.org.as_str(),
            github_team.name.as_str(),
        ) {
            Ok(invites) => invites,
            Err(e) => {
                return Err(DiffError::Read(e));
            },
        };
        let ghost observed = team.deep_view();
        let ghost current = current_members.deep_view();
        match edit_team(
            github_team,
            team,
            current_members,
            &invites,
            &self.usernames_cache,
            &self.org_owners,
        ) {
            Ok(edit) => {
                assert(edit.deep_view() == team_edit(
                    github_team.deep_view(),
                    observed,
                    current,
                    invites.deep_view(),
                    self.usernames_cache.deep_view(),
                    self.org_owners.deep_view(),
                ));
                Ok(TeamDiff::Edit(edit))
            },
            Err(unknown) => Err(DiffError::UnknownUser(unknown)),
        }
    }

    /// Diffs the access to one declared repository against what the
    /// provider reports of it.
    pub fn diff_permissions(&self, expected_repo: &declared::Repo) -> (made: Result<
        Vec<RepoPermissionAssignmentDiff>,
        R::Error,
    >)
        ensures
            match made {
                Ok(diffs) => exists|
                    teams: Seq<(Text, RepoPermission)>,
                    collaborators: Seq<(Text, RepoPermission)>,
                | diffs.deep_view() == permission_diffs(expected_repo.deep_view(), teams, collaborators),
                Err(_) => true,
            },
    {
        let teams = match self.github.repo_teams(
            expected_repo.org.as_str(),
            expected_repo.name.as_str(),
        ) {
            Ok(teams) => teams,
            Err(e) => {
                return Err(e);
            },
        };
        let actual_teams = teams_by_name(&teams);
        let users = match self.github.repo_collaborators(
            expected_repo.org.as_str(),
            expected_repo.name.as_str(),
        ) {
            Ok(users) => users,
            Err(e) => {
                return Err(e);
            },
        };
        let actual_collaborators = users_by_name(&users);
        let ghost t = actual_teams.deep_view();
        let ghost c = actual_collaborators.deep_view();
        let diffs = calculate_permission_diffs(expected_repo, actual_teams, actual_collaborators);
        assert(diffs.deep_view() == permission_diffs(expected_repo.deep_view(), t, c));
        Ok(diffs)
    }

    /// Diffs the branch protections of one declared repository against what
    /// the provider reports of them. Where they are not diffed, nothing is read.
    pub fn diff_branch_protections(&self, actual_repo: &Repo, expected_repo: &declared::Repo) -> (made:
        Result<Vec<BranchProtectionDiff>, R::Error>)
        requires
            all_projectable(expected_repo.deep_view()),
        ensures
            match made {
                Ok(diffs) => exists|
                    protections: Option<Seq<(Text, (Text, BranchProtectionModel))>>,
                |
                    {
                        &&& diffs.deep_view() == observed_protection_diffs(
                            expected_repo.deep_view(),
                            protections,
                        )
                        &&& protections is None ==> !protections_are_diffed(
                            false,
                            actual_repo.org@,
                            actual_repo.name@,
                        )
                    },
                Err(_) => true,
            },
    {
        if !diffs_protections(
            self.github.uses_pat(),
            actual_repo.org.as_str(),
            actual_repo.name.as_str(),
        ) {
            let none: Vec<BranchProtectionDiff> = Vec::new();
            assert(none.deep_view() =~= observed_protection_diffs(
                expected_repo.deep_view(),
                None,
            ));
            return Ok(none);
        }
        let actual_protections = match self.github.branch_protections(
            actual_repo.org.as_str(),
            actual_repo.name.as_str(),
        ) {
            Ok(protections) => protections,
            Err(e) => {
                return Err(e);
            },
        };
        let ghost seen = actual_protections.deep_view();
        let diffs = diff_protections(expected_repo, actual_protections);
        assert(diffs.deep_view() == observed_protection_diffs(
            expected_repo.deep_view(),
            Some(seen),
        ));
        Ok(diffs)
    }

    /// Diffs one declared repository against what the provider reports of it.
    pub fn diff_repo(&self, expected_repo: &declared::Repo) -> (made: Result<RepoDiff, R::Error>)
        requires
            all_projectable(expected_repo.deep_view()),
        ensures
            match made {
                Ok(diff) => is_repo_diff(expected_repo.deep_view(), diff.deep_view()),
                Err(_) => true,
            },
    {
        let actual_repo = match self.github.repo(
            expected_repo.org.as_str(),
            expected_repo.name.as_str(),
        ) {
            Ok(Some(repo)) => repo,
            Ok(None) => {
                return Ok(RepoDiff::Create(new_repo(expected_repo)));
            },
            Err(e) => {
                return Err(e);
            },
        };
        let access = match self.diff_permissions(expected_repo) {
            Ok(diffs) => diffs,
            Err(e) => {
                return Err(e);
            },
        };
        let branch_protection_diffs = match self.diff_branch_protections(
            &actual_repo,
            expected_repo,
        ) {
            Ok(diffs) => diffs,
            Err(e) => {
                return Err(e);
            },
        };
        let ghost repo = expected_repo.deep_view();
        let ghost observed = actual_repo.deep_view();
        let ghost (teams, collaborators) = choose|
            teams: Seq<(Text, RepoPermission)>,
            collaborators: Seq<(Text, RepoPermission)>,
        | access.deep_view() == permission_diffs(repo, teams, collaborators);
        let ghost protections = choose|
            protections: Option<Seq<(Text, (Text, BranchProtectionModel))>>,
        |
            {
                &&& branch_protection_diffs.deep_view() == observed_protection_diffs(
                    repo,
                    protections,
                )
                &&& protections is None ==> !protections_are_diffed(
                    false,
                    actual_repo.org@,
                    actual_repo.name@,
                )
            };
        let update = existing_repo(
            expected_repo,
            actual_repo,
            access,
            branch_protection_diffs,
        );
        assert(update.deep_view() == repo_update(
            repo,
            observed,
            teams,
            collaborators,
            protections,
        ));
        assert(protections is None ==> !protections_are_diffed(
            false,
            observed.org,
            observed.name,
        ));
        Ok(RepoDiff::Update(update))
    }
}

impl<R: GithubRead> SyncGitHub<R> {
    /// Diffs every declared team, then adds the deletions of the teams
    /// that the provider has and nobody declares. The teams of an
    /// organization are listed when its first declared team comes up.
    pub fn diff_teams(&self) -> (made: Result<Vec<TeamDiff>, DiffError<R::Error>>)
        ensures
            github_teams(self.teams.deep_view()).len() == 0 ==> made is Ok,
            match made {
                Ok(diffs) => are_diffs_of_teams(
                    github_teams(self.teams.deep_view()),
                    self.usernames_cache.deep_view(),
                    self.org_owners.deep_view(),
                    diffs.deep_view(),
                ),
                Err(DiffError::UnknownUser(unknown)) => is_unknown_member(
                    github_teams(self.teams.deep_view()),
                    self.usernames_cache.deep_view(),
                    unknown.id,
                ),
                Err(DiffError::Read(_)) => true,
            },
    {
        let bound = provider_teams(&self.teams);
        let ghost teams = bound.deep_view();
        let ghost usernames = self.usernames_cache.deep_view();
        let ghost owners = self.org_owners.deep_view();
        let ghost orgs = orgs_of(teams);
        let ghost declared = team_keys(teams);
        let ghost mut all: Seq<TeamDiffModel> = Seq::empty();
        let ghost mut listings: Seq<(Text, Seq<(Text, Text)>)> = Seq::empty();
        let mut diffs: Vec<TeamDiff> = Vec::new();
        let mut unseen: ListMap<(String, String), String> = ListMap::new();
        let mut listed_orgs: Vec<String> = Vec::new();
        proof {
            assert(orgs.take(0) =~= Seq::<Text>::empty());
            assert(declared.take(0) =~= Seq::<(Text, Text)>::empty());
            assert(keys(listings) =~= Seq::<Text>::empty());
            assert(listed_orgs.deep_view() =~= Seq::<Text>::empty());
        }
        let mut i: usize = 0;
        while i < bound.len()
            invariant
                i <= bound.len(),
                teams == bound.deep_view(),
                teams == github_teams(self.teams.deep_view()),
                usernames == self.usernames_cache.deep_view(),
                owners == self.org_owners.deep_view(),
                orgs == orgs_of(teams),
                declared == team_keys(teams),
                are_team_diffs(teams.take(i as int), usernames, owners, all),
                diffs.deep_view() == changing_team_diffs(all),
                listed_orgs.deep_view() == distinct(orgs.take(i as int)),
                keys(listings) == listed_orgs.deep_view(),
                unseen.deep_view() == left_over(all_noted(listings), declared.take(i as int)),
            decreases bound.len() - i,
        {
            let github_team = bound[i];
            let ghost org = github_team.org@;
            proof {
                assert(teams[i as int] == github_team.deep_view());
                assert(orgs.take(i + 1).drop_last() =~= orgs.take(i as int));
                assert(orgs.take(i + 1).last() == org);
                lemma_distinct_contains(orgs.take(i as int), org);
            }
            if !contains_name(&listed_orgs, github_team.org.as_str()) {
                let listed = match self.github.org_teams(github_team.org.as_str()) {
                    Ok(listed) => listed,
                    Err(e) => {
                        return Err(DiffError::Read(e));
                    },
                };
                proof {
                    // No team that came up before is of this organization,
                    // so its listing can be taken as noted before them.
                    let gone = declared.take(i as int);
                    assert forall|t: int| 0 <= t < gone.len() implies (#[trigger] gone[t]).0
                        != org by {
                        assert(orgs.take(i as int)[t] == gone[t].0);
                    }
                    lemma_noted_left_over_commute(
                        all_noted(listings),
                        gone,
                        org,
                        listed.deep_view(),
                    );
                    let grown = listings.push((org, listed.deep_view()));
                    assert(grown.drop_last() =~= listings);
                    assert(keys(grown) =~= keys(listings).push(org));
                    listings = grown;
                }
                note_listed(&mut unseen, github_team.org.as_str(), &listed);
                let ghost known = listed_orgs.deep_view();
                listed_orgs.push(github_team.org.clone());
                assert(listed_orgs.deep_view() =~= known.push(org));
            }
            let key = (github_team.org.clone(), github_team.name.clone());
            proof {
                assert(declared.take(i + 1) =~= declared.take(i as int).push(key.deep_view()));
                lemma_left_over_push(all_noted(listings), declared.take(i as int), key.deep_view());
            }
            unseen.remove(&key);
            let diff = match self.diff_team(github_team) {
                Ok(diff) => diff,
                Err(e) => {
                    proof {
                        if let DiffError::UnknownUser(unknown) = e {
                            let at = choose|at: int|
                                first_unknown_at(github_team.members@, usernames, at)
                                    && github_team.members@[at] == unknown.id;
                            assert(teams[i as int].members == github_team.members@);
                            assert(first_unknown_at(teams[i as int].members, usernames, at));
                        }
                    }
                    return Err(e);
                },
            };
            proof {
                let grown = all.push(diff.deep_view());
                assert(grown.drop_last() =~= all);
                assert forall|t: int| 0 <= t < grown.len() implies is_team_diff(
                    teams.take(i + 1)[t],
                    usernames,
                    owners,
                    #[trigger] grown[t],
                ) by {
                    if t < i {
                        assert(teams.take(i as int)[t] == teams.take(i + 1)[t]);
                        assert(grown[t] == all[t]);
                    }
                }
                all = grown;
            }
            if !diff.noop() {
                let ghost before = diffs.deep_view();
                diffs.push(diff);
                assert(diffs.deep_view() =~= before.push(diff.deep_view()));
            }
            i += 1;
        }
        proof {
            assert(teams.take(i as int) =~= teams);
            assert(orgs.take(i as int) =~= orgs);
            assert(declared.take(i as int) =~= declared);
        }
        let ghost left = unseen.deep_view();
        let mut deletions = delete_teams(unseen);
        diffs.append(&mut deletions);
        assert(diffs.deep_view() =~= changing_team_diffs(all) + team_deletions(
            undeclared_teams(teams, listings),
        ));
        Ok(diffs)
    }

    /// Diffs every declared repository and keeps the diffs that change something.
    pub fn diff_repos(&self) -> (made: Result<Vec<RepoDiff>, R::Error>)
        requires
            all_repos_projectable(self.repos.deep_view()),
        ensures
            self.repos.len() == 0 ==> made is Ok,
            match made {
                Ok(diffs) => are_diffs_of_repos(self.repos.deep_view(), diffs.deep_view()),
                Err(_) => true,
            },
    {
        let ghost repos = self.repos.deep_view();
        let ghost mut all: Seq<RepoDiffModel> = Seq::empty();
        let mut diffs: Vec<RepoDiff> = Vec::new();
        let mut i: usize = 0;
        while i < self.repos.len()
            invariant
                i <= self.repos.len(),
                repos == self.repos.deep_view(),
                all_repos_projectable(repos),
                are_repo_diffs(repos.take(i as int), all),
                diffs.deep_view() == changing_repo_diffs(all),
            decreases self.repos.len() - i,
        {
            assert(repos[i as int] == self.repos[i as int].deep_view());
            let diff = match self.diff_repo(&self.repos[i]) {
                Ok(diff) => diff,
                Err(e) => {
                    return Err(e);
                },
            };
            proof {
                let grown = all.push(diff.deep_view());
                assert(grown.drop_last() =~= all);
                assert forall|t: int| 0 <= t < grown.len() implies is_repo_diff(
                    repos.take(i + 1)[t],
                    #[trigger] grown[t],
                ) by {
                    if t < i {
                        assert(repos.take(i as int)[t] == repos.take(i + 1)[t]);
                        assert(grown[t] == all[t]);
                    }
                }
                all = grown;
            }
            if !diff.noop() {
                let ghost listed = diffs.deep_view();
                diffs.push(diff);
                assert(diffs.deep_view() =~= listed.push(diff.deep_view()));
            }
            i += 1;
        }
        assert(repos.take(i as int) =~= repos);
        Ok(diffs)
    }

    /// Computes the whole diff: the teams first, then the repositories.
    pub fn diff_all(&self) -> (made: Result<Diff, DiffError<R::Error>>)
        requires
            all_repos_projectable(self.repos.deep_view()),
        ensures
            github_teams(self.teams.deep_view()).len() == 0 && self.repos.len() == 0 ==> made
                is Ok,
            match made {
                Ok(diff) => diff_holds(
                    self.teams.deep_view(),
                    self.repos.deep_view(),
                    self.usernames_cache.deep_view(),
                    self.org_owners.deep_view(),
                    diff.deep_view(),
                ),
                Err(DiffError::UnknownUser(unknown)) => is_unknown_member(
                    github_teams(self.teams.deep_view()),
                    self.usernames_cache.deep_view(),
                    unknown.id,
                ),
                Err(DiffError::Read(_)) => true,
            },
    {
        let team_diffs = match self.diff_teams() {
            Ok(diffs) => diffs,
            Err(e) => {
                return Err(e);
            },
        };
        let repo_diffs = match self.diff_repos() {
            Ok(diffs) => diffs,
            Err(e) => {
                return Err(DiffError::Read(e));
            },
        };
        Ok(Diff { team_diffs, repo_diffs })
    }
}

/// Whether `diff` is a result of diffing the declaration, given the caches
/// of the run.
pub open spec fn diff_holds(
    teams: Seq<declared::TeamModel>,
    repos: Seq<declared::RepoModel>,
    usernames: Seq<(u64, Text)>,
    owners: Seq<(Text, Seq<u64>)>,
    diff: DiffModel,
) -> bool {
    &&& are_diffs_of_teams(github_teams(teams), usernames, owners, diff.team_diffs)
    &&& are_diffs_of_repos(repos, diff.repo_diffs)
}

/// Tells whether every declared repository can be diffed.
pub fn can_diff(repos: &Vec<declared::Repo>) -> (fits: bool)
    ensures
        fits == all_repos_projectable(repos.deep_view()),
{
    let ghost all = repos.deep_view();
    let mut i: usize = 0;
    while i < repos.len()
        invariant
            i <= repos.len(),
            all == repos.deep_view(),
            forall|j: int| 0 <= j < i ==> all_projectable(#[trigger] all[j]),
        decreases repos.len() - i,
    {
        assert(all[i as int] == repos[i as int].deep_view());
        if !can_project_all(&repos[i]) {
            return false;
        }
        i += 1;
    }
    true
}

/// Computes the diff between the declared teams and repositories and the
/// state that the provider reports through `github`.
pub fn create_diff<R: GithubRead>(
    github: R,
    teams: Vec<declared::Team>,
    repos: Vec<declared::Repo>,
) -> (made: Result<Diff, DiffError<R::Error>>)
    requires
        all_repos_projectable(repos.deep_view()),
    ensures
        match made {
            Ok(diff) => exists|usernames: Seq<(u64, Text)>, owners: Seq<(Text, Seq<u64>)>|
                diff_holds(teams.deep_view(), repos.deep_view(), usernames, owners, diff.deep_view()),
            Err(DiffError::UnknownUser(unknown)) => exists|usernames: Seq<(u64, Text)>|
                is_unknown_member(github_teams(teams.deep_view()), usernames, unknown.id),
            Err(DiffError::Read(_)) => true,
        },
{
    let ghost declared_teams = teams.deep_view();
    let ghost declared_repos = repos.deep_view();
    let sync = match SyncGitHub::new(github, teams, repos) {
        Ok(sync) => sync,
        Err(e) => {
            return Err(DiffError::Read(e));
        },
    };
    match sync.diff_all() {
        Ok(diff) => {
            assert(diff_holds(
                declared_teams,
                declared_repos,
                sync.usernames_cache.deep_view(),
                sync.org_owners.deep_view(),
                diff.deep_view(),
            ));
            Ok(diff)
        },
        Err(e) => {
            assert(e matches DiffError::UnknownUser(unknown) ==> is_unknown_member(
                github_teams(declared_teams),
                sync.usernames_cache.deep_view(),
                unknown.id,
            ));
            Err(e)
        },
    }
}

/// The branch protection diffs against the observed protections, or none
/// where the protections are not diffed.
pub open spec fn observed_protection_diffs(
    repo: declared::RepoModel,
    protections: Option<Seq<(Text, (Text, BranchProtectionModel))>>,
) -> Seq<BranchProtectionDiffModel> {
    match protections {
        Some(seen) => protection_diffs(repo, seen),
        None => Seq::empty(),
    }
}

/// No element of `distinct(s)` occurs before its own place.
pub proof fn lemma_distinct_new<A>(s: Seq<A>, i: int)
    requires
        0 <= i < distinct(s).len(),
    ensures
        !distinct(s).take(i).contains(distinct(s)[i]),
    decreases s.len(),
{
    if s.len() > 0 {
        let d = distinct(s.drop_last());
        if i < d.len() {
            lemma_distinct_new(s.drop_last(), i);
            if !d.contains(s.last()) {
                assert(distinct(s).take(i) =~= d.take(i));
            }
        } else {
            assert(distinct(s).take(i) =~= d);
        }
    }
}

} // verus!
