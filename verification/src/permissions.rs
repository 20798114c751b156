//! The permission resolver: how the access of teams and users to one
//! repository differs from its declaration.

use crate::api;
use crate::declared::{Bot, Repo, RepoModel, RepoPermission};
use crate::diff::{
    RepoCollaborator, RepoCollaboratorModel, RepoPermissionAssignmentDiff,
    RepoPermissionAssignmentDiffModel, RepoPermissionDiff,
};
use crate::listmap::{keys, left_over, lemma_left_over_push, lookup, without, ListMap};
use crate::text::{str_eq, Text};
use vstd::prelude::*;

verus! {

/// The username under which a bot acts. A bot without one is an app
/// installed on the provider and has no access of its own to reconcile.
pub open spec fn bot_name(bot: Bot) -> Option<Text> {
    match bot {
        Bot::Bors => Some("bors"@),
        Bot::Highfive => Some("rust-highfive"@),
        Bot::RustTimer => Some("rust-timer"@),
        Bot::Rustbot => Some("rustbot"@),
        Bot::Rfcbot => Some("rfcbot"@),
        Bot::Craterbot => Some("craterbot"@),
        Bot::Glacierbot => Some("rust-lang-glacier-bot"@),
        Bot::LogAnalyzer => Some("rust-log-analyzer"@),
        Bot::Renovate => None,
    }
}

/// Returns the username of a bot, or `None` if the bot is an app.
pub fn bot_user_name(bot: &Bot) -> (name: Option<&'static str>)
    ensures
        name.deep_view() == bot_name(*bot),
{
    match bot {
        Bot::Bors => Some("bors"),
        Bot::Highfive => Some("rust-highfive"),
        Bot::RustTimer => Some("rust-timer"),
        Bot::Rustbot => Some("rustbot"),
        Bot::Rfcbot => Some("rfcbot"),
        Bot::Craterbot => Some("craterbot"),
        Bot::Glacierbot => Some("rust-lang-glacier-bot"),
        Bot::LogAnalyzer => Some("rust-log-analyzer"),
        Bot::Renovate => None,
    }
}

/// The provider's permission for a declared one.
pub open spec fn permission_of(p: RepoPermission) -> api::RepoPermission {
    match p {
        RepoPermission::Write => api::RepoPermission::Write,
        RepoPermission::Admin => api::RepoPermission::Admin,
        RepoPermission::Maintain => api::RepoPermission::Maintain,
        RepoPermission::Triage => api::RepoPermission::Triage,
    }
}

/// Turns a declared permission into the provider's.
pub fn convert_permission(p: &RepoPermission) -> (converted: api::RepoPermission)
    ensures
        converted == permission_of(*p),
{
    match *p {
        RepoPermission::Write => api::RepoPermission::Write,
        RepoPermission::Admin => api::RepoPermission::Admin,
        RepoPermission::Maintain => api::RepoPermission::Maintain,
        RepoPermission::Triage => api::RepoPermission::Triage,
    }
}

/// The change that gives `name` the permission `wanted`, if one is needed.
pub open spec fn change(
    observed: Seq<(Text, api::RepoPermission)>,
    name: Text,
    wanted: api::RepoPermission,
) -> Option<RepoPermissionDiff> {
    match lookup(observed, name) {
        Some(held) => if held != wanted {
            Some(RepoPermissionDiff::Update(held, wanted))
        } else {
            None
        },
        None => Some(RepoPermissionDiff::Create(wanted)),
    }
}

/// The changes that give each of `wanted` its permission, in order. Each
/// name is held against what the names before it have left of `observed`.
pub open spec fn changes(
    wanted: Seq<(Text, api::RepoPermission)>,
    observed: Seq<(Text, api::RepoPermission)>,
) -> Seq<(Text, RepoPermissionDiff)>
    decreases wanted.len(),
{
    if wanted.len() == 0 {
        Seq::empty()
    } else {
        let earlier = wanted.drop_last();
        let (name, permission) = wanted.last();
        match change(left_over(observed, keys(earlier)), name, permission) {
            Some(diff) => changes(earlier, observed).push((name, diff)),
            None => changes(earlier, observed),
        }
    }
}

/// The declared teams of a repository, each with the permission it is to have.
pub open spec fn wanted_teams(repo: RepoModel) -> Seq<(Text, api::RepoPermission)> {
    Seq::new(
        repo.teams.len(),
        |i: int| (repo.teams[i].name, permission_of(repo.teams[i].permission)),
    )
}

/// The bots that act under a username: each is to have write access.
pub open spec fn bot_users(bots: Seq<Bot>) -> Seq<(Text, api::RepoPermission)>
    decreases bots.len(),
{
    if bots.len() == 0 {
        Seq::empty()
    } else {
        match bot_name(bots.last()) {
            Some(name) => bot_users(bots.drop_last()).push((name, api::RepoPermission::Write)),
            None => bot_users(bots.drop_last()),
        }
    }
}

/// The declared members of a repository, each with the permission it is to have.
pub open spec fn wanted_members(repo: RepoModel) -> Seq<(Text, api::RepoPermission)> {
    Seq::new(
        repo.members.len(),
        |i: int| (repo.members[i].name, permission_of(repo.members[i].permission)),
    )
}

/// The users that are to have access to a repository: the bots, then the members.
pub open spec fn wanted_users(repo: RepoModel) -> Seq<(Text, api::RepoPermission)> {
    bot_users(repo.bots) + wanted_members(repo)
}

/// Whether the team `name` in `org` keeps its access though undeclared: the
/// provider itself grants the `security` team of `rust-lang` read access to
/// every repository, and that access cannot be taken away.
pub open spec fn is_preserved_team(org: Text, name: Text) -> bool {
    name == "security"@ && org == "rust-lang"@
}

/// The observed teams that lose their access: all that are left but the preserved one.
pub open spec fn team_removals(rest: Seq<(Text, api::RepoPermission)>, org: Text) -> Seq<
    RepoPermissionAssignmentDiffModel,
>
    decreases rest.len(),
{
    if rest.len() == 0 {
        Seq::empty()
    } else if is_preserved_team(org, rest.last().0) {
        team_removals(rest.drop_last(), org)
    } else {
        team_removals(rest.drop_last(), org).push(
            RepoPermissionAssignmentDiffModel {
                collaborator: RepoCollaboratorModel::Team(rest.last().0),
                diff: RepoPermissionDiff::Delete(rest.last().1),
            },
        )
    }
}

/// The observed users that lose their access: all that are left.
pub open spec fn user_removals(rest: Seq<(Text, api::RepoPermission)>) -> Seq<
    RepoPermissionAssignmentDiffModel,
> {
    Seq::new(
        rest.len(),
        |i: int|
            RepoPermissionAssignmentDiffModel {
                collaborator: RepoCollaboratorModel::User(rest[i].0),
                diff: RepoPermissionDiff::Delete(rest[i].1),
            },
    )
}

/// The changes `c` as changes of the access of teams.
pub open spec fn for_teams(c: Seq<(Text, RepoPermissionDiff)>) -> Seq<
    RepoPermissionAssignmentDiffModel,
> {
    Seq::new(
        c.len(),
        |i: int|
            RepoPermissionAssignmentDiffModel {
                collaborator: RepoCollaboratorModel::Team(c[i].0),
                diff: c[i].1,
            },
    )
}

/// The changes `c` as changes of the access of users.
pub open spec fn for_users(c: Seq<(Text, RepoPermissionDiff)>) -> Seq<
    RepoPermissionAssignmentDiffModel,
> {
    Seq::new(
        c.len(),
        |i: int|
            RepoPermissionAssignmentDiffModel {
                collaborator: RepoCollaboratorModel::User(c[i].0),
                diff: c[i].1,
            },
    )
}

/// The observed teams that the declaration leaves unclaimed: neither a
/// declared team nor a team that carries the name of a declared bot.
pub open spec fn unclaimed_teams(
    repo: RepoModel,
    teams: Seq<(Text, api::RepoPermission)>,
) -> Seq<(Text, api::RepoPermission)> {
    left_over(left_over(teams, keys(wanted_teams(repo))), keys(bot_users(repo.bots)))
}

/// The permission diffs of a repository, in their fixed order: the declared
/// teams, the bots, the declared members, then the teams and the users that
/// lose their access.
pub open spec fn permission_diffs(
    repo: RepoModel,
    teams: Seq<(Text, api::RepoPermission)>,
    collaborators: Seq<(Text, api::RepoPermission)>,
) -> Seq<RepoPermissionAssignmentDiffModel> {
    for_teams(changes(wanted_teams(repo), teams)) + for_users(
        changes(wanted_users(repo), collaborators),
    ) + team_removals(unclaimed_teams(repo, teams), repo.org) + user_removals(
        left_over(collaborators, keys(wanted_users(repo))),
    )
}

/// Holds one wanted permission against the observed ones: strikes the name
/// off `observed` and appends the change, if one is needed, to `permissions`.
fn reconcile(
    observed: &mut ListMap<String, api::RepoPermission>,
    permissions: &mut Vec<RepoPermissionAssignmentDiff>,
    name: &str,
    permission: api::RepoPermission,
    team: bool,
)
    ensures
        final(observed).deep_view() == without(old(observed).deep_view(), name@),
        final(permissions).deep_view() == match change(
            old(observed).deep_view(),
            name@,
            permission,
        ) {
            Some(diff) => old(permissions).deep_view().push(
                RepoPermissionAssignmentDiffModel {
                    collaborator: if team {
                        RepoCollaboratorModel::Team(name@)
                    } else {
                        RepoCollaboratorModel::User(name@)
                    },
                    diff,
                },
            ),
            None => old(permissions).deep_view(),
        },
{
    let key = name.to_owned();
    let held = observed.remove(&key);
    let diff = match held {
        Some(p) => {
            if p != permission {
                RepoPermissionDiff::Update(p, permission)
            } else {
                return ;
            }
        },
        None => RepoPermissionDiff::Create(permission),
    };
    let collaborator = if team {
        RepoCollaborator::Team(key)
    } else {
        RepoCollaborator::User(key)
    };
    let ghost before = permissions.deep_view();
    let entry = RepoPermissionAssignmentDiff { collaborator, diff };
    permissions.push(entry);
    assert(permissions.deep_view() =~= before.push(entry.deep_view()));
}

/// The changes for one more wanted permission.
pub proof fn lemma_changes_push(
    wanted: Seq<(Text, api::RepoPermission)>,
    observed: Seq<(Text, api::RepoPermission)>,
    name: Text,
    permission: api::RepoPermission,
)
    ensures
        keys(wanted.push((name, permission))) == keys(wanted).push(name),
        changes(wanted.push((name, permission)), observed) == match change(
            left_over(observed, keys(wanted)),
            name,
            permission,
        ) {
            Some(diff) => changes(wanted, observed).push((name, diff)),
            None => changes(wanted, observed),
        },
{
    assert(wanted.push((name, permission)).drop_last() =~= wanted);
    assert(keys(wanted.push((name, permission))) =~= keys(wanted).push(name));
}

/// Computes the permission diffs of a repository from its declaration and
/// the access that teams and users are observed to have.
pub fn calculate_permission_diffs(
    expected_repo: &Repo,
    actual_teams: ListMap<String, api::RepoPermission>,
    actual_collaborators: ListMap<String, api::RepoPermission>,
) -> (permissions: Vec<RepoPermissionAssignmentDiff>)
    ensures
        permissions.deep_view() == permission_diffs(
            expected_repo.deep_view(),
            actual_teams.deep_view(),
            actual_collaborators.deep_view(),
        ),
{
    let ghost repo = expected_repo.deep_view();
    let ghost teams0 = actual_teams.deep_view();
    let ghost users0 = actual_collaborators.deep_view();
    let ghost wt = wanted_teams(repo);
    let ghost wm = wanted_members(repo);
    let mut teams = actual_teams;
    let mut collaborators = actual_collaborators;
    let mut permissions: Vec<RepoPermissionAssignmentDiff> = Vec::new();

    let mut i: usize = 0;
    while i < expected_repo.teams.len()
        invariant
            i <= expected_repo.teams.len(),
            repo == expected_repo.deep_view(),
            wt == wanted_teams(repo),
            teams.deep_view() == left_over(teams0, keys(wt.take(i as int))),
            permissions.deep_view() =~= for_teams(changes(wt.take(i as int), teams0)),
        decreases expected_repo.teams.len() - i,
    {
        let expected_team = &expected_repo.teams[i];
        let permission = convert_permission(&expected_team.permission);
        proof {
            let name = expected_team.name@;
            assert(repo.teams[i as int] == expected_team.deep_view());
            assert(wt[i as int] == (name, permission));
            assert(wt.take(i + 1) =~= wt.take(i as int).push((name, permission)));
            lemma_changes_push(wt.take(i as int), teams0, name, permission);
            lemma_left_over_push(teams0, keys(wt.take(i as int)), name);
        }
        reconcile(&mut teams, &mut permissions, expected_team.name.as_str(), permission, true);
        i += 1;
    }
    assert(wt.take(i as int) =~= wt);
    let ghost teams1 = teams.deep_view();
    let ghost part1 = permissions.deep_view();

    let mut j: usize = 0;
    while j < expected_repo.bots.len()
        invariant
            j <= expected_repo.bots.len(),
            repo == expected_repo.deep_view(),
            teams.deep_view() == left_over(teams1, keys(bot_users(repo.bots.take(j as int)))),
            collaborators.deep_view() == left_over(
                users0,
                keys(bot_users(repo.bots.take(j as int))),
            ),
            permissions.deep_view() =~= part1 + for_users(
                changes(bot_users(repo.bots.take(j as int)), users0),
            ),
        decreases expected_repo.bots.len() - j,
    {
        proof {
            assert(repo.bots.take(j + 1).drop_last() =~= repo.bots.take(j as int));
        }
        match bot_user_name(&expected_repo.bots[j]) {
            Some(name) => {
                proof {
                    let so_far = bot_users(repo.bots.take(j as int));
                    lemma_changes_push(so_far, users0, name@, api::RepoPermission::Write);
                    lemma_left_over_push(users0, keys(so_far), name@);
                    lemma_left_over_push(teams1, keys(so_far), name@);
                }
                let key = name.to_owned();
                teams.remove(&key);
                reconcile(
                    &mut collaborators,
                    &mut permissions,
                    name,
                    api::RepoPermission::Write,
                    false,
                );
            },
            None => {},
        }
        j += 1;
    }
    assert(repo.bots.take(j as int) =~= repo.bots);
    let ghost bu = bot_users(repo.bots);

    let mut k: usize = 0;
    while k < expected_repo.members.len()
        invariant
            k <= expected_repo.members.len(),
            repo == expected_repo.deep_view(),
            wm == wanted_members(repo),
            bu == bot_users(repo.bots),
            collaborators.deep_view() == left_over(users0, keys(bu + wm.take(k as int))),
            permissions.deep_view() =~= part1 + for_users(changes(bu + wm.take(k as int), users0)),
        decreases expected_repo.members.len() - k,
    {
        let member = &expected_repo.members[k];
        let permission = convert_permission(&member.permission);
        proof {
            let name = member.name@;
            assert(repo.members[k as int] == member.deep_view());
            assert(wm[k as int] == (name, permission));
            assert(bu + wm.take(k + 1) =~= (bu + wm.take(k as int)).push((name, permission)));
            lemma_changes_push(bu + wm.take(k as int), users0, name, permission);
            lemma_left_over_push(users0, keys(bu + wm.take(k as int)), name);
        }
        reconcile(&mut collaborators, &mut permissions, member.name.as_str(), permission, false);
        k += 1;
    }
    assert(wm.take(k as int) =~= wm);
    assert(bu + wm == wanted_users(repo));
    let ghost part2 = permissions.deep_view();

    let rest_teams = teams.into_entries();
    let mut m: usize = 0;
    while m < rest_teams.len()
        invariant
            m <= rest_teams.len(),
            repo == expected_repo.deep_view(),
            permissions.deep_view() =~= part2 + team_removals(
                rest_teams.deep_view().take(m as int),
                repo.org,
            ),
        decreases rest_teams.len() - m,
    {
        proof {
            assert(rest_teams.deep_view().take(m + 1).drop_last() =~= rest_teams.deep_view().take(
                m as int,
            ));
        }
        let name = &rest_teams[m].0;
        if str_eq(name.as_str(), "security") && str_eq(expected_repo.org.as_str(), "rust-lang") {
            // The provider grants this team read access to every repository
            // of the organization, and that access cannot be revoked.
        } else {
            let ghost before = permissions.deep_view();
            let entry = RepoPermissionAssignmentDiff {
                collaborator: RepoCollaborator::Team(name.clone()),
                diff: RepoPermissionDiff::Delete(rest_teams[m].1),
            };
            permissions.push(entry);
            assert(permissions.deep_view() =~= before.push(entry.deep_view()));
        }
        m += 1;
    }
    assert(rest_teams.deep_view().take(m as int) =~= rest_teams.deep_view());
    let ghost part3 = permissions.deep_view();

    let rest_users = collaborators.into_entries();
    let ghost gone = user_removals(rest_users.deep_view());
    let mut n: usize = 0;
    while n < rest_users.len()
        invariant
            n <= rest_users.len(),
            gone == user_removals(rest_users.deep_view()),
            permissions.deep_view() =~= part3 + gone.take(n as int),
        decreases rest_users.len() - n,
    {
        let ghost before = permissions.deep_view();
        let entry = RepoPermissionAssignmentDiff {
            collaborator: RepoCollaborator::User(rest_users[n].0.clone()),
            diff: RepoPermissionDiff::Delete(rest_users[n].1),
        };
        assert(entry.deep_view() == gone[n as int]);
        permissions.push(entry);
        assert(permissions.deep_view() =~= before.push(entry.deep_view()));
        n += 1;
    }
    assert(gone.take(n as int) =~= gone);
    permissions
}

} // verus!
