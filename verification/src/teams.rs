//! Team diffing: what has to happen to one team for it to match its declaration.

use crate::api::{Team, TeamMember, TeamMemberModel, TeamModel, TeamPrivacy, TeamRole};
use crate::declared::{GitHubTeam, GitHubTeamModel};
use crate::diff::{
    CreateTeamDiff, CreateTeamDiffModel, DeleteTeamDiff, DeleteTeamDiffModel, EditTeamDiff,
    EditTeamDiffModel, MemberDiff, TeamDiff, TeamDiffModel,
};
use crate::listmap::{
    distinct_keys, has_key, left_over, lemma_with_left_over_commute, lemma_with_lookup, lookup,
    with, ListMap,
};
use crate::text::{contains_name, str_eq, Text};
use vstd::prelude::*;

verus! {

/// The description that every managed team carries.
pub const DEFAULT_DESCRIPTION: &'static str = "Managed by the rust-lang/team repository.";

/// The privacy that every managed team has.
pub const DEFAULT_PRIVACY: TeamPrivacy = TeamPrivacy::Closed;

/// A member of a declared team whose id has no username in the cache.
#[derive(Clone, Copy, Debug, PartialEq, Eq, Structural)]
pub struct UnknownUser {
    pub id: u64,
}

/// The role that `user` is to have in the teams of `org`: an owner of the
/// organization maintains its teams, anybody else is a plain member.
pub open spec fn role_of(owners: Seq<(Text, Seq<u64>)>, org: Text, user: u64) -> TeamRole {
    match lookup(owners, org) {
        Some(ids) => if ids.contains(user) {
            TeamRole::Maintainer
        } else {
            TeamRole::Member
        },
        None => TeamRole::Member,
    }
}

/// Whether `ids` holds `id`.
pub fn contains_id(ids: &Vec<u64>, id: u64) -> (found: bool)
    ensures
        found == ids@.contains(id),
{
    let mut i: usize = 0;
    while i < ids.len()
        invariant
            i <= ids.len(),
            forall|j: int| 0 <= j < i ==> ids@[j] != id,
        decreases ids.len() - i,
    {
        if ids[i] == id {
            return true;
        }
        i += 1;
    }
    false
}

/// Derives the role of `user` in the teams of `org` from the owners of the organizations.
pub fn expected_role(owners: &ListMap<String, Vec<u64>>, org: &String, user: u64) -> (role: TeamRole)
    ensures
        role == role_of(owners.deep_view(), org@, user),
{
    match owners.get(org) {
        Some(ids) => {
            assert(ids.deep_view() =~= ids@);
            if contains_id(ids, user) {
                TeamRole::Maintainer
            } else {
                TeamRole::Member
            }
        },
        None => TeamRole::Member,
    }
}

/// Whether `i` is the first index of `members` without a username.
pub open spec fn first_unknown_at(members: Seq<u64>, usernames: Seq<(u64, Text)>, i: int) -> bool {
    &&& 0 <= i < members.len()
    &&& !has_key(usernames, members[i])
    &&& forall|j: int| 0 <= j < i ==> has_key(usernames, #[trigger] members[j])
}

/// Every member has a username.
pub open spec fn all_known(members: Seq<u64>, usernames: Seq<(u64, Text)>) -> bool {
    forall|j: int| 0 <= j < members.len() ==> has_key(usernames, #[trigger] members[j])
}

/// The username of the member at index `i`.
pub open spec fn username_at(members: Seq<u64>, usernames: Seq<(u64, Text)>, i: int) -> Text {
    lookup(usernames, members[i])->0
}

/// The team to create for a declared team that the provider does not have:
/// its members by username, each with the role derived for it.
pub open spec fn team_creation(
    team: GitHubTeamModel,
    usernames: Seq<(u64, Text)>,
    owners: Seq<(Text, Seq<u64>)>,
) -> CreateTeamDiffModel {
    CreateTeamDiffModel {
        org: team.org,
        name: team.name,
        description: DEFAULT_DESCRIPTION@,
        privacy: DEFAULT_PRIVACY,
        members: Seq::new(
            team.members.len(),
            |i: int|
                (
                    username_at(team.members, usernames, i),
                    role_of(owners, team.org, team.members[i]),
                ),
        ),
    }
}

/// Builds the diff that creates a declared team. Fails on the first member
/// whose id has no username.
pub fn create_team(
    github_team: &GitHubTeam,
    usernames: &ListMap<u64, String>,
    owners: &ListMap<String, Vec<u64>>,
) -> (made: Result<CreateTeamDiff, UnknownUser>)
    ensures
        match made {
            Ok(diff) => {
                &&& all_known(github_team.members@, usernames.deep_view())
                &&& diff.deep_view() == team_creation(
                    github_team.deep_view(),
                    usernames.deep_view(),
                    owners.deep_view(),
                )
            },
            Err(unknown) => exists|i: int|
                first_unknown_at(github_team.members@, usernames.deep_view(), i)
                    && github_team.members@[i] == unknown.id,
        },
{
    let ghost wanted = team_creation(
        github_team.deep_view(),
        usernames.deep_view(),
        owners.deep_view(),
    );
    let mut members: Vec<(String, TeamRole)> = Vec::new();
    let mut i: usize = 0;
    while i < github_team.members.len()
        invariant
            i <= github_team.members.len(),
            wanted == team_creation(
                github_team.deep_view(),
                usernames.deep_view(),
                owners.deep_view(),
            ),
            forall|j: int| 0 <= j < i ==> has_key(usernames.deep_view(), #[trigger] github_team.members@[j]),
            members.deep_view() =~= wanted.members.take(i as int),
        decreases github_team.members.len() - i,
    {
        let id = github_team.members[i];
        let role = expected_role(owners, &github_team.org, id);
        match usernames.get(&id) {
            Some(username) => {
                let ghost before = members.deep_view();
                let entry = (username.clone(), role);
                assert(entry.deep_view() == wanted.members[i as int]);
                members.push(entry);
                assert(members.deep_view() =~= before.push(entry.deep_view()));
            },
            None => {
                assert(first_unknown_at(github_team.members@, usernames.deep_view(), i as int));
                return Err(UnknownUser { id });
            },
        }
        i += 1;
    }
    assert(members.deep_view() =~= wanted.members);
    let diff = CreateTeamDiff {
        org: github_team.org.clone(),
        name: github_team.name.clone(),
        description: DEFAULT_DESCRIPTION.to_owned(),
        privacy: DEFAULT_PRIVACY,
        members,
    };
    Ok(diff)
}

/// What has to happen to the membership of a declared member, given the
/// memberships that no earlier declared member has claimed: a member keeps
/// its place or changes role, somebody who has been invited is left alone,
/// anybody else is added.
pub open spec fn member_change(
    current: Seq<(u64, TeamMemberModel)>,
    invites: Seq<Text>,
    id: u64,
    username: Text,
    role: TeamRole,
) -> MemberDiff {
    match lookup(current, id) {
        Some(member) => if member.role != role {
            MemberDiff::ChangeRole((member.role, role))
        } else {
            MemberDiff::Noop
        },
        None => if invites.contains(username) {
            MemberDiff::Noop
        } else {
            MemberDiff::Create(role)
        },
    }
}

/// The diffs of the declared members, in the order of the declaration.
pub open spec fn declared_member_diffs(
    team: GitHubTeamModel,
    current: Seq<(u64, TeamMemberModel)>,
    invites: Seq<Text>,
    usernames: Seq<(u64, Text)>,
    owners: Seq<(Text, Seq<u64>)>,
) -> Seq<(Text, MemberDiff)> {
    Seq::new(
        team.members.len(),
        |i: int|
            (
                username_at(team.members, usernames, i),
                member_change(
                    left_over(current, team.members.take(i)),
                    invites,
                    team.members[i],
                    username_at(team.members, usernames, i),
                    role_of(owners, team.org, team.members[i]),
                ),
            ),
    )
}

/// The removals of the observed members that the declaration does not name.
pub open spec fn member_removals(rest: Seq<(u64, TeamMemberModel)>) -> Seq<(Text, MemberDiff)> {
    Seq::new(rest.len(), |i: int| (rest[i].1.username, MemberDiff::Delete))
}

/// The description change of an observed team: any description but the
/// default one gives way to the default, a missing one counts as empty.
pub open spec fn description_change(observed: Option<Text>) -> Option<(Text, Text)> {
    match observed {
        Some(description) => if description != DEFAULT_DESCRIPTION@ {
            Some((description, DEFAULT_DESCRIPTION@))
        } else {
            None
        },
        None => Some((Seq::<char>::empty(), DEFAULT_DESCRIPTION@)),
    }
}

/// The edit that brings an observed team to its declaration. The name of
/// the declaration wins, the description and the privacy go to their
/// defaults, the declared members come first and the members to remove last.
pub open spec fn team_edit(
    team: GitHubTeamModel,
    observed: TeamModel,
    current: Seq<(u64, TeamMemberModel)>,
    invites: Seq<Text>,
    usernames: Seq<(u64, Text)>,
    owners: Seq<(Text, Seq<u64>)>,
) -> EditTeamDiffModel {
    EditTeamDiffModel {
        org: team.org,
        name: observed.name,
        name_diff: if observed.name != team.name {
            Some(team.name)
        } else {
            None
        },
        description_diff: description_change(observed.description),
        privacy_diff: if observed.privacy != DEFAULT_PRIVACY {
            Some((observed.privacy, DEFAULT_PRIVACY))
        } else {
            None
        },
        member_diffs: declared_member_diffs(team, current, invites, usernames, owners)
            + member_removals(left_over(current, team.members)),
    }
}

/// Builds the diff that edits an observed team. Fails on the first member
/// whose id has no username.
pub fn edit_team(
    github_team: &GitHubTeam,
    team: Team,
    current_members: ListMap<u64, TeamMember>,
    invites: &Vec<String>,
    usernames: &ListMap<u64, String>,
    owners: &ListMap<String, Vec<u64>>,
) -> (made: Result<EditTeamDiff, UnknownUser>)
    ensures
        match made {
            Ok(diff) => {
                &&& all_known(github_team.members@, usernames.deep_view())
                &&& diff.deep_view() == team_edit(
                    github_team.deep_view(),
                    team.deep_view(),
                    current_members.deep_view(),
                    invites.deep_view(),
                    usernames.deep_view(),
                    owners.deep_view(),
                )
            },
            Err(unknown) => exists|i: int|
                first_unknown_at(github_team.members@, usernames.deep_view(), i)
                    && github_team.members@[i] == unknown.id,
        },
{
    let ghost wanted = team_edit(
        github_team.deep_view(),
        team.deep_view(),
        current_members.deep_view(),
        invites.deep_view(),
        usernames.deep_view(),
        owners.deep_view(),
    );
    let ghost declared = declared_member_diffs(
        github_team.deep_view(),
        current_members.deep_view(),
        invites.deep_view(),
        usernames.deep_view(),
        owners.deep_view(),
    );
    let ghost start = current_members.deep_view();
    let ghost ids = github_team.members@;

    let mut name_diff: Option<String> = None;
    if team.name != github_team.name {
        name_diff = Some(github_team.name.clone());
    }
    let mut description_diff: Option<(String, String)> = None;
    match &team.description {
        Some(description) => {
            if !str_eq(description.as_str(), DEFAULT_DESCRIPTION) {
                description_diff = Some((description.clone(), DEFAULT_DESCRIPTION.to_owned()));
            }
        },
        None => {
            description_diff = Some((String::new(), DEFAULT_DESCRIPTION.to_owned()));
        },
    }
    let mut privacy_diff: Option<(TeamPrivacy, TeamPrivacy)> = None;
    if team.privacy != DEFAULT_PRIVACY {
        privacy_diff = Some((team.privacy, DEFAULT_PRIVACY));
    }
    let mut current = current_members;
    let mut member_diffs: Vec<(String, MemberDiff)> = Vec::new();
    let mut i: usize = 0;
    while i < github_team.members.len()
        invariant
            i <= github_team.members.len(),
            ids == github_team.members@,
            ids == github_team.deep_view().members,
            declared == declared_member_diffs(
                github_team.deep_view(),
                start,
                invites.deep_view(),
                usernames.deep_view(),
                owners.deep_view(),
            ),
            forall|j: int| 0 <= j < i ==> has_key(usernames.deep_view(), #[trigger] ids[j]),
            current.deep_view() == left_over(start, ids.take(i as int)),
            member_diffs.deep_view() =~= declared.take(i as int),
        decreases github_team.members.len() - i,
    {
        let id = github_team.members[i];
        let role = expected_role(owners, &github_team.org, id);
        let username = match usernames.get(&id) {
            Some(username) => username,
            None => {
                assert(first_unknown_at(ids, usernames.deep_view(), i as int));
                return Err(UnknownUser { id });
            },
        };
        let ghost before = member_diffs.deep_view();
        let ghost seen = current.deep_view();
        let change = match current.remove(&id) {
            Some(member) => {
                if member.role != role {
                    MemberDiff::ChangeRole((member.role, role))
                } else {
                    MemberDiff::Noop
                }
            },
            None => {
                if contains_name(invites, username.as_str()) {
                    MemberDiff::Noop
                } else {
                    MemberDiff::Create(role)
                }
            },
        };
        assert(change == member_change(seen, invites.deep_view(), id, username@, role));
        let entry = (username.clone(), change);
        assert(entry.deep_view() == declared[i as int]);
        member_diffs.push(entry);
        assert(member_diffs.deep_view() =~= before.push(entry.deep_view()));
        assert(ids.take(i + 1).drop_last() =~= ids.take(i as int));
        i += 1;
    }
    assert(ids.take(i as int) =~= ids);
    assert(member_diffs.deep_view() =~= declared);
    let rest = current.into_entries();
    let ghost removals = member_removals(rest.deep_view());
    let mut k: usize = 0;
    while k < rest.len()
        invariant
            k <= rest.len(),
            removals == member_removals(rest.deep_view()),
            member_diffs.deep_view() =~= declared + removals.take(k as int),
        decreases rest.len() - k,
    {
        let ghost before = member_diffs.deep_view();
        let entry = (rest[k].1.username.clone(), MemberDiff::Delete);
        assert(entry.deep_view() == removals[k as int]);
        member_diffs.push(entry);
        assert(member_diffs.deep_view() =~= before.push(entry.deep_view()));
        k += 1;
    }
    assert(removals.take(k as int) =~= removals);
    let diff = EditTeamDiff {
        org: github_team.org.clone(),
        name: team.name,
        name_diff,
        description_diff,
        privacy_diff,
        member_diffs,
    };
    Ok(diff)
}

/// The observed teams by organization and name, each with its slug, once
/// the teams that the provider lists for `org` are noted: each listed name
/// is stored with its slug under the organization and the name, one after
/// another, so that of two listed teams of one name the later one stays.
pub open spec fn noted(
    unseen: Seq<((Text, Text), Text)>,
    org: Text,
    listed: Seq<(Text, Text)>,
) -> Seq<((Text, Text), Text)>
    decreases listed.len(),
{
    if listed.len() == 0 {
        unseen
    } else {
        with(noted(unseen, org, listed.drop_last()), (org, listed.last().0), listed.last().1)
    }
}

/// The observed teams once the listings of the organizations are noted,
/// one organization after another.
pub open spec fn all_noted(listings: Seq<(Text, Seq<(Text, Text)>)>) -> Seq<((Text, Text), Text)>
    decreases listings.len(),
{
    if listings.len() == 0 {
        Seq::empty()
    } else {
        noted(all_noted(listings.drop_last()), listings.last().0, listings.last().1)
    }
}

/// The organization and the name of each declared team, in order.
pub open spec fn team_keys(teams: Seq<GitHubTeamModel>) -> Seq<(Text, Text)> {
    Seq::new(teams.len(), |i: int| (teams[i].org, teams[i].name))
}

/// The observed teams that nobody declares: what is left of the noted
/// listings once the declared teams are struck off.
pub open spec fn undeclared_teams(
    teams: Seq<GitHubTeamModel>,
    listings: Seq<(Text, Seq<(Text, Text)>)>,
) -> Seq<((Text, Text), Text)> {
    left_over(all_noted(listings), team_keys(teams))
}

/// Notes the teams that the provider lists for an organization, each by
/// name and slug, among the observed teams.
pub fn note_listed(
    unseen: &mut ListMap<(String, String), String>,
    org: &str,
    listed: &Vec<(String, String)>,
)
    ensures
        final(unseen).deep_view() == noted(old(unseen).deep_view(), org@, listed.deep_view()),
{
    let ghost start = unseen.deep_view();
    let ghost all = listed.deep_view();
    let mut j: usize = 0;
    while j < listed.len()
        invariant
            j <= listed.len(),
            all == listed.deep_view(),
            unseen.deep_view() == noted(start, org@, all.take(j as int)),
        decreases listed.len() - j,
    {
        proof {
            assert(all.take(j + 1).drop_last() =~= all.take(j as int));
            assert(all.take(j + 1).last() == all[j as int]);
        }
        unseen.insert((org.to_owned(), listed[j].0.clone()), listed[j].1.clone());
        j += 1;
    }
    assert(all.take(j as int) =~= all);
}

/// Noting the listing of an organization and striking off teams of other
/// organizations can be done in either order.
pub proof fn lemma_noted_left_over_commute(
    unseen: Seq<((Text, Text), Text)>,
    gone: Seq<(Text, Text)>,
    org: Text,
    listed: Seq<(Text, Text)>,
)
    requires
        forall|i: int| 0 <= i < gone.len() ==> (#[trigger] gone[i]).0 != org,
    ensures
        noted(left_over(unseen, gone), org, listed) == left_over(noted(unseen, org, listed), gone),
    decreases listed.len(),
{
    if listed.len() > 0 {
        let earlier = listed.drop_last();
        let key = (org, listed.last().0);
        lemma_noted_left_over_commute(unseen, gone, org, earlier);
        if gone.contains(key) {
            let i = choose|i: int| 0 <= i < gone.len() && gone[i] == key;
            assert(gone[i].0 != org);
        }
        lemma_with_left_over_commute(noted(unseen, org, earlier), gone, key, listed.last().1);
    }
}

/// Noting a listing keeps each team once.
pub proof fn lemma_noted_distinct(
    unseen: Seq<((Text, Text), Text)>,
    org: Text,
    listed: Seq<(Text, Text)>,
)
    requires
        distinct_keys(unseen),
    ensures
        distinct_keys(noted(unseen, org, listed)),
    decreases listed.len(),
{
    if listed.len() > 0 {
        lemma_noted_distinct(unseen, org, listed.drop_last());
        lemma_with_lookup(
            noted(unseen, org, listed.drop_last()),
            (org, listed.last().0),
            listed.last().1,
            (org, listed.last().0),
        );
    }
}

/// The noted listings hold each team once.
pub proof fn lemma_all_noted_distinct(listings: Seq<(Text, Seq<(Text, Text)>)>)
    ensures
        distinct_keys(all_noted(listings)),
    decreases listings.len(),
{
    if listings.len() > 0 {
        lemma_all_noted_distinct(listings.drop_last());
        lemma_noted_distinct(all_noted(listings.drop_last()), listings.last().0, listings.last().1);
    }
}

/// The organizations in which teams that nobody declares are deleted.
pub open spec fn is_managed_org(org: Text) -> bool {
    org == "rust-lang"@ || org == "rust-lang-nursery"@
}

/// The teams that belong to bots and stay though nobody declares them.
pub open spec fn is_bot_team(name: Text) -> bool {
    name == "bors"@ || name == "highfive"@ || name == "rfcbot"@ || name == "bots"@
}

/// Whether a team that nobody declares is deleted.
pub open spec fn may_delete(org: Text, name: Text) -> bool {
    is_managed_org(org) && !is_bot_team(name)
}

/// The deletion of the team `name` of `org`, which the provider knows as `slug`.
pub open spec fn deletion(org: Text, name: Text, slug: Text) -> TeamDiffModel {
    TeamDiffModel::Delete(DeleteTeamDiffModel { org, name, slug })
}

/// The deletions of the observed teams that nobody declares. `unseen` holds
/// them by organization and name, each with its slug.
pub open spec fn team_deletions(unseen: Seq<((Text, Text), Text)>) -> Seq<TeamDiffModel>
    decreases unseen.len(),
{
    if unseen.len() == 0 {
        Seq::empty()
    } else {
        let ((org, name), slug) = unseen.last();
        if may_delete(org, name) {
            team_deletions(unseen.drop_last()).push(deletion(org, name, slug))
        } else {
            team_deletions(unseen.drop_last())
        }
    }
}

/// Decides whether an undeclared team is deleted.
pub fn is_deletable(org: &str, name: &str) -> (deletable: bool)
    ensures
        deletable == may_delete(org@, name@),
{
    let managed = str_eq(org, "rust-lang") || str_eq(org, "rust-lang-nursery");
    let bot_team = str_eq(name, "bors") || str_eq(name, "highfive") || str_eq(name, "rfcbot")
        || str_eq(name, "bots");
    managed && !bot_team
}

/// Builds the deletions of the observed teams that nobody declares.
pub fn delete_teams(unseen: ListMap<(String, String), String>) -> (diffs: Vec<TeamDiff>)
    ensures
        diffs.deep_view() == team_deletions(unseen.deep_view()),
{
    let left = unseen.into_entries();
    let ghost all = left.deep_view();
    let mut diffs: Vec<TeamDiff> = Vec::new();
    let mut i: usize = 0;
    while i < left.len()
        invariant
            i <= left.len(),
            all == left.deep_view(),
            diffs.deep_view() =~= team_deletions(all.take(i as int)),
        decreases left.len() - i,
    {
        proof {
            assert(all.take(i + 1).drop_last() =~= all.take(i as int));
        }
        let org = &left[i].0.0;
        let name = &left[i].0.1;
        if is_deletable(org.as_str(), name.as_str()) {
            let ghost before = diffs.deep_view();
            let diff = TeamDiff::Delete(
                DeleteTeamDiff { org: org.clone(), name: name.clone(), slug: left[i].1.clone() },
            );
            diffs.push(diff);
            assert(diffs.deep_view() =~= before.push(diff.deep_view()));
        }
        i += 1;
    }
    assert(all.take(i as int) =~= all);
    diffs
}

} // verus!
