//! Applying the diff of a team settles the team: once its operations have
//! been carried out, diffing again asks for nothing. The provider is
//! modelled by what the engine reads of a team; it finds a member by
//! username, as the operations name members.

use crate::api;
use crate::api::{TeamMemberModel, TeamRole};
use crate::declared::GitHubTeamModel;
use crate::apply::{repo_diff_ops, team_diff_ops};
use crate::diff::{
    CreateTeamDiffModel, DiffModel, EditTeamDiffModel, MemberDiff, RepoDiffModel, TeamDiffModel,
};
use crate::engine::{changing_repo_diffs, changing_team_diffs};
use crate::listmap::{
    distinct_keys, has_key, left_over, lemma_entry_has_key, lemma_left_over_lookup,
    lemma_position_absent, lemma_position_found, lemma_position_is_first, lemma_with_lookup,
    lemma_without_distinct, lookup, position, with, without,
};
use crate::settle::lemma_has_key_last;
use crate::teams::{
    all_known, declared_member_diffs, may_delete, member_removals, role_of, team_creation,
    team_deletions, team_edit, username_at,
};
use crate::text::Text;
use crate::write::WriteOpModel;
use vstd::prelude::*;

verus! {

/// The members of a team as the provider holds them, by user id.
pub type Members = Seq<(u64, TeamMemberModel)>;

/// One team as the provider holds it: what it reports of the team
/// itself, the members, and the usernames of those who are invited.
pub struct TeamState {
    pub team: api::TeamModel,
    pub members: Members,
    pub invites: Seq<Text>,
}

/// The members by username.
pub open spec fn by_username(members: Members) -> Seq<(Text, (u64, TeamMemberModel))> {
    Seq::new(members.len(), |i: int| (members[i].1.username, members[i]))
}

/// The team once the diff of one membership is carried out. Somebody who
/// is added is invited; a role is set, and a member removed, where the
/// username is that of a member.
pub open spec fn after_member_diff(state: TeamState, username: Text, diff: MemberDiff) -> TeamState {
    match diff {
        MemberDiff::Create(_) => TeamState { invites: state.invites.push(username), ..state },
        MemberDiff::ChangeRole((_, role)) => match position(by_username(state.members), username) {
            Some(at) => TeamState {
                members: state.members.update(
                    at,
                    (state.members[at].0, TeamMemberModel { username, role }),
                ),
                ..state
            },
            None => state,
        },
        MemberDiff::Delete => match position(by_username(state.members), username) {
            Some(at) => TeamState { members: state.members.remove(at), ..state },
            None => state,
        },
        MemberDiff::Noop => state,
    }
}

/// The team once the diffs of its memberships are carried out, in order.
pub open spec fn after_member_diffs(state: TeamState, diffs: Seq<(Text, MemberDiff)>) -> TeamState
    decreases diffs.len(),
{
    if diffs.len() == 0 {
        state
    } else {
        after_member_diff(
            after_member_diffs(state, diffs.drop_last()),
            diffs.last().0,
            diffs.last().1,
        )
    }
}

/// Carrying out two lists of membership diffs, one after the other.
pub proof fn lemma_after_members_concat(
    state: TeamState,
    first: Seq<(Text, MemberDiff)>,
    second: Seq<(Text, MemberDiff)>,
)
    ensures
        after_member_diffs(state, first + second) == after_member_diffs(
            after_member_diffs(state, first),
            second,
        ),
    decreases second.len(),
{
    if second.len() == 0 {
        assert(first + second =~= first);
    } else {
        assert((first + second).drop_last() =~= first + second.drop_last());
        lemma_after_members_concat(state, first, second.drop_last());
    }
}

/// The team once an edit is carried out.
pub open spec fn after_edit(state: TeamState, edit: EditTeamDiffModel) -> TeamState {
    let changed = after_member_diffs(state, edit.member_diffs);
    TeamState {
        team: api::TeamModel {
            name: match edit.name_diff {
                Some(name) => name,
                None => state.team.name,
            },
            description: match edit.description_diff {
                Some((_, new)) => Some(new),
                None => state.team.description,
            },
            privacy: match edit.privacy_diff {
                Some((_, new)) => new,
                None => state.team.privacy,
            },
            ..state.team
        },
        ..changed
    }
}

/// The edit that the declaration asks of a team as the provider holds it.
pub open spec fn edit_of(
    team: GitHubTeamModel,
    state: TeamState,
    usernames: Seq<(u64, Text)>,
    owners: Seq<(Text, Seq<u64>)>,
) -> EditTeamDiffModel {
    team_edit(team, state.team, state.members, state.invites, usernames, owners)
}

/// No two users share a username.
pub open spec fn names_are_unique(usernames: Seq<(u64, Text)>) -> bool {
    forall|a: u64, b: u64|
        lookup(usernames, a) is Some && #[trigger] lookup(usernames, a) == #[trigger] lookup(
            usernames,
            b,
        ) ==> a == b
}

/// Each user is a member at most once, under the username that the cache
/// holds for the user.
pub open spec fn well_named(members: Members, usernames: Seq<(u64, Text)>) -> bool {
    &&& distinct_keys(members)
    &&& forall|i: int|
        0 <= i < members.len() ==> lookup(usernames, (#[trigger] members[i]).0) == Some(
            members[i].1.username,
        )
}

/// A member is found by username where it is found by id.
pub proof fn lemma_found_by_name(
    members: Members,
    usernames: Seq<(u64, Text)>,
    id: u64,
    username: Text,
)
    requires
        well_named(members, usernames),
        names_are_unique(usernames),
        lookup(usernames, id) == Some(username),
    ensures
        position(by_username(members), username) == position(members, id),
{
    let named = by_username(members);
    lemma_position_is_first(members, id);
    match position(members, id) {
        Some(at) => {
            assert(named[at].0 == username);
            assert forall|j: int| 0 <= j < at implies (#[trigger] named[j]).0 != username by {
                if named[j].0 == username {
                    assert(lookup(usernames, members[j].0) == lookup(usernames, id));
                    assert(members[j].0 != id);
                }
            }
            lemma_position_found(named, username, at);
        },
        None => {
            assert forall|j: int| 0 <= j < named.len() implies (#[trigger] named[j]).0
                != username by {
                if named[j].0 == username {
                    assert(lookup(usernames, members[j].0) == lookup(usernames, id));
                    assert(members[j].0 != id);
                }
            }
            lemma_position_absent(named, username);
        },
    }
}

/// Storing a member under the username of the cache keeps the members well named.
pub proof fn lemma_with_keeps_names(
    members: Members,
    usernames: Seq<(u64, Text)>,
    id: u64,
    member: TeamMemberModel,
)
    requires
        well_named(members, usernames),
        lookup(usernames, id) == Some(member.username),
    ensures
        well_named(with(members, id, member), usernames),
{
    lemma_with_lookup(members, id, member, id);
    lemma_position_is_first(members, id);
    let after = with(members, id, member);
    assert forall|i: int| 0 <= i < after.len() implies lookup(usernames, (#[trigger] after[i]).0)
        == Some(after[i].1.username) by {
        if i < members.len() && after[i] != (id, member) {
            assert(after[i] == members[i]);
        }
    }
}

/// Removing a member keeps the members well named.
pub proof fn lemma_without_keeps_names(members: Members, usernames: Seq<(u64, Text)>, id: u64)
    requires
        well_named(members, usernames),
    ensures
        well_named(without(members, id), usernames),
{
    lemma_without_distinct(members, id);
    let after = without(members, id);
    match position(members, id) {
        Some(at) => {
            assert forall|i: int| 0 <= i < after.len() implies lookup(
                usernames,
                (#[trigger] after[i]).0,
            ) == Some(after[i].1.username) by {
                let from = if i < at { i } else { i + 1 };
                assert(after[i] == members[from]);
            }
        },
        None => {},
    }
}

/// Whether the membership of a declared member is as derived: a member
/// has the derived role, anybody else is invited.
pub open spec fn is_settled(state: TeamState, id: u64, username: Text, role: TeamRole) -> bool {
    match lookup(state.members, id) {
        Some(member) => member.role == role,
        None => state.invites.contains(username),
    }
}

/// What the declaration assumes of a team and of the caches: it names
/// each member once, each with a username, and no two users share a name.
pub open spec fn is_sound(team: GitHubTeamModel, usernames: Seq<(u64, Text)>) -> bool {
    &&& team.members.no_duplicates()
    &&& all_known(team.members, usernames)
    &&& names_are_unique(usernames)
}

/// The team once the diffs of the first `n` declared members are carried out.
pub open spec fn after_declared(
    team: GitHubTeamModel,
    state: TeamState,
    usernames: Seq<(u64, Text)>,
    owners: Seq<(Text, Seq<u64>)>,
    n: int,
) -> TeamState {
    after_member_diffs(
        state,
        declared_member_diffs(team, state.members, state.invites, usernames, owners).take(n),
    )
}

/// Once the diffs of the first `n` declared members are carried out, the
/// membership of each of them is as derived; nobody else is touched, and
/// nobody leaves or joins.
pub proof fn lemma_declared_members_settle(
    team: GitHubTeamModel,
    state: TeamState,
    usernames: Seq<(u64, Text)>,
    owners: Seq<(Text, Seq<u64>)>,
    n: int,
    key: u64,
    invited: Text,
)
    requires
        is_sound(team, usernames),
        well_named(state.members, usernames),
        0 <= n <= team.members.len(),
    ensures
        well_named(after_declared(team, state, usernames, owners, n).members, usernames),
        after_declared(team, state, usernames, owners, n).team == state.team,
        state.invites.contains(invited) ==> after_declared(
            team,
            state,
            usernames,
            owners,
            n,
        ).invites.contains(invited),
        has_key(after_declared(team, state, usernames, owners, n).members, key) == has_key(
            state.members,
            key,
        ),
        !team.members.take(n).contains(key) ==> lookup(
            after_declared(team, state, usernames, owners, n).members,
            key,
        ) == lookup(state.members, key),
        forall|j: int|
            0 <= j < n && (#[trigger] team.members[j]) == key ==> is_settled(
                after_declared(team, state, usernames, owners, n),
                key,
                username_at(team.members, usernames, j),
                role_of(owners, team.org, key),
            ),
    decreases n,
{
    let all = declared_member_diffs(team, state.members, state.invites, usernames, owners);
    let ids = team.members;
    if n > 0 {
        let m = n - 1;
        let id = ids[m];
        let username = username_at(ids, usernames, m);
        let role = role_of(owners, team.org, id);
        assert(all.take(n).drop_last() =~= all.take(m));
        assert(all.take(n).last() == all[m]);
        assert(ids.take(n).drop_last() =~= ids.take(m));
        assert(ids.take(n)[m] == id);
        lemma_declared_members_settle(team, state, usernames, owners, m, key, invited);
        lemma_declared_members_settle(team, state, usernames, owners, m, id, invited);
        let before = after_declared(team, state, usernames, owners, m);
        let after = after_declared(team, state, usernames, owners, n);
        assert(after == after_member_diff(before, username, all[m].1));
        // The member is looked up among those that no earlier member claims.
        if ids.take(m).contains(id) {
            let at = choose|at: int| 0 <= at < m && ids.take(m)[at] == id;
            assert(ids[at] == id);
        }
        lemma_left_over_lookup(state.members, ids.take(m), id);
        assert(has_key(usernames, ids[m]));
        assert(lookup(usernames, id) == Some(username));
        lemma_found_by_name(before.members, usernames, id, username);
        lemma_position_is_first(before.members, id);
        match all[m].1 {
            MemberDiff::ChangeRole((_, r)) => {
                let at = position(before.members, id)->0;
                let member = TeamMemberModel { username, role };
                assert(before.members.update(at, (before.members[at].0, member)) == with(
                    before.members,
                    id,
                    member,
                ));
                lemma_with_lookup(before.members, id, member, key);
                lemma_with_keeps_names(before.members, usernames, id, member);
            },
            MemberDiff::Create(_) => {
                assert(after.invites[before.invites.len() as int] == username);
                if before.invites.contains(invited) {
                    let at = choose|at: int| 0 <= at < before.invites.len() && before.invites[at] == invited;
                    assert(after.invites[at] == invited);
                }
            },
            _ => {},
        }
        if ids.take(m).contains(key) {
            let at = choose|at: int| 0 <= at < m && ids.take(m)[at] == key;
            assert(ids.take(n)[at] == key);
        }
        assert forall|j: int| 0 <= j < n && (#[trigger] ids[j]) == key implies is_settled(
            after,
            key,
            username_at(ids, usernames, j),
            role_of(owners, team.org, key),
        ) by {
            if j < m {
                assert(key != id);
                if lookup(before.members, key) is None {
                    let name = username_at(ids, usernames, j);
                    let at = choose|at: int|
                        0 <= at < before.invites.len() && before.invites[at] == name;
                    assert(after.invites.len() >= before.invites.len());
                    assert(after.invites[at] == name);
                }
            } else {
                assert(state.invites.contains(username) ==> before.invites.contains(username)) by {
                    lemma_declared_members_settle(team, state, usernames, owners, m, id, username);
                }
            }
        }
    } else {
        assert(all.take(0) =~= Seq::<(Text, MemberDiff)>::empty());
        assert(ids.take(0) =~= Seq::<u64>::empty());
    }
}

/// Once the first `n` of the members that nobody declares are removed,
/// none of them is a member, and everybody else is what they were.
pub proof fn lemma_undeclared_members_leave(
    state: TeamState,
    rest: Members,
    usernames: Seq<(u64, Text)>,
    n: int,
    key: u64,
)
    requires
        names_are_unique(usernames),
        well_named(state.members, usernames),
        well_named(rest, usernames),
        0 <= n <= rest.len(),
    ensures
        well_named(
            after_member_diffs(state, member_removals(rest).take(n)).members,
            usernames,
        ),
        after_member_diffs(state, member_removals(rest).take(n)).team == state.team,
        after_member_diffs(state, member_removals(rest).take(n)).invites == state.invites,
        lookup(after_member_diffs(state, member_removals(rest).take(n)).members, key) == (
        if has_key(rest.take(n), key) {
            None
        } else {
            lookup(state.members, key)
        }),
    decreases n,
{
    let gone = member_removals(rest);
    if n > 0 {
        let m = n - 1;
        let id = rest[m].0;
        let username = rest[m].1.username;
        assert(gone.take(n).drop_last() =~= gone.take(m));
        assert(gone.take(n).last() == gone[m]);
        assert(rest.take(n).drop_last() =~= rest.take(m));
        assert(rest.take(n).last() == rest[m]);
        lemma_undeclared_members_leave(state, rest, usernames, m, key);
        let before = after_member_diffs(state, gone.take(m));
        lemma_has_key_last(rest.take(n), key);
        lemma_found_by_name(before.members, usernames, id, username);
        lemma_position_is_first(before.members, id);
        lemma_without_distinct(before.members, id);
        lemma_without_keeps_names(before.members, usernames, id);
        if key != id {
            assert(lookup(without(before.members, id), key) == lookup(before.members, key));
        }
    } else {
        assert(gone.take(0) =~= Seq::<(Text, MemberDiff)>::empty());
        lemma_position_absent(rest.take(0), key);
    }
}

/// Editing a team settles it: once the edit that the declaration asks for
/// is carried out, the edit that it asks for next changes nothing.
pub proof fn law_edit_settles(
    team: GitHubTeamModel,
    state: TeamState,
    usernames: Seq<(u64, Text)>,
    owners: Seq<(Text, Seq<u64>)>,
)
    requires
        is_sound(team, usernames),
        well_named(state.members, usernames),
    ensures
        edit_of(team, after_edit(state, edit_of(team, state, usernames, owners)), usernames, owners).noop(),
{
    let ids = team.members;
    let first = edit_of(team, state, usernames, owners);
    let declared = declared_member_diffs(team, state.members, state.invites, usernames, owners);
    let rest = left_over(state.members, ids);
    let gone = member_removals(rest);
    let total = ids.len() as int;
    assert(declared.take(total) =~= declared);
    assert(gone.take(rest.len() as int) =~= gone);
    assert(rest.take(rest.len() as int) =~= rest);
    assert(ids.take(total) =~= ids);
    lemma_after_members_concat(state, declared, gone);
    let middle = after_declared(team, state, usernames, owners, total);
    lemma_declared_members_settle(team, state, usernames, owners, total, arbitrary(), arbitrary());
    lemma_left_over_lookup(state.members, ids, arbitrary());
    assert(well_named(rest, usernames)) by {
        assert forall|i: int| 0 <= i < rest.len() implies lookup(usernames, (#[trigger] rest[i]).0)
            == Some(rest[i].1.username) by {
            lemma_entry_has_key(rest, i);
            lemma_left_over_lookup(state.members, ids, rest[i].0);
            lemma_position_is_first(state.members, rest[i].0);
        }
    }
    lemma_undeclared_members_leave(middle, rest, usernames, rest.len() as int, arbitrary());
    let end = after_edit(state, first);
    assert(end.members == after_member_diffs(middle, gone).members);
    assert(end.invites == middle.invites);
    let second = edit_of(team, end, usernames, owners);
    let again = declared_member_diffs(team, end.members, end.invites, usernames, owners);
    // Every declared member is settled.
    assert forall|i: int| 0 <= i < again.len() implies (#[trigger] again[i]).1 is Noop by {
        let id = ids[i];
        let username = username_at(ids, usernames, i);
        lemma_declared_members_settle(team, state, usernames, owners, total, id, username);
        lemma_undeclared_members_leave(middle, rest, usernames, rest.len() as int, id);
        lemma_left_over_lookup(state.members, ids, id);
        lemma_left_over_lookup(end.members, ids.take(i), id);
        if ids.take(i).contains(id) {
            let at = choose|at: int| 0 <= at < i && ids.take(i)[at] == id;
            assert(ids[at] == id);
        }
        assert(ids.contains(id));
        assert(is_settled(middle, id, username, role_of(owners, team.org, id)));
    }
    // Nobody is left that the declaration does not name.
    let left = left_over(end.members, ids);
    if left.len() > 0 {
        let id = left[0].0;
        lemma_entry_has_key(left, 0);
        lemma_left_over_lookup(end.members, ids, id);
        lemma_undeclared_members_leave(middle, rest, usernames, rest.len() as int, id);
        lemma_declared_members_settle(team, state, usernames, owners, total, id, arbitrary());
        lemma_left_over_lookup(state.members, ids, id);
        assert(false);
    }
    assert(member_removals(left) =~= Seq::<(Text, MemberDiff)>::empty());
    assert(second.member_diffs =~= again);
}

/// The team once its creation is carried out: it is as the diff says, and
/// everybody who is to be a member is invited.
pub open spec fn after_team_creation(create: CreateTeamDiffModel, slug: Text) -> TeamState {
    TeamState {
        team: api::TeamModel {
            name: create.name,
            slug,
            description: Some(create.description),
            privacy: create.privacy,
        },
        members: Seq::empty(),
        invites: Seq::new(create.members.len(), |i: int| create.members[i].0),
    }
}

/// Creating a team settles it: once the creation that the declaration
/// asks for is carried out, the edit that it asks for next changes
/// nothing, whatever slug the provider gives the team.
pub proof fn law_team_creation_settles(
    team: GitHubTeamModel,
    usernames: Seq<(u64, Text)>,
    owners: Seq<(Text, Seq<u64>)>,
    slug: Text,
)
    requires
        all_known(team.members, usernames),
    ensures
        edit_of(
            team,
            after_team_creation(team_creation(team, usernames, owners), slug),
            usernames,
            owners,
        ).noop(),
{
    let state = after_team_creation(team_creation(team, usernames, owners), slug);
    let edit = edit_of(team, state, usernames, owners);
    let nobody = Seq::<(u64, TeamMemberModel)>::empty();
    let declared = declared_member_diffs(team, nobody, state.invites, usernames, owners);
    assert forall|i: int| 0 <= i < declared.len() implies (#[trigger] declared[i]).1 is Noop by {
        lemma_nobody_left(team.members.take(i));
        lemma_position_absent(nobody, team.members[i]);
        assert(state.invites[i] == username_at(team.members, usernames, i));
    }
    lemma_nobody_left(team.members);
    assert(member_removals(nobody) =~= Seq::<(Text, MemberDiff)>::empty());
    assert(edit.member_diffs =~= declared);
}

/// Nothing is left over of nothing.
pub proof fn lemma_nobody_left(gone: Seq<u64>)
    ensures
        left_over(Seq::<(u64, TeamMemberModel)>::empty(), gone) == Seq::<
            (u64, TeamMemberModel),
        >::empty(),
    decreases gone.len(),
{
    if gone.len() > 0 {
        lemma_nobody_left(gone.drop_last());
        lemma_position_absent(Seq::<(u64, TeamMemberModel)>::empty(), gone.last());
    }
}

/// The observed teams that nobody declares, once those that may be
/// deleted are deleted.
pub open spec fn after_deletions(unseen: Seq<((Text, Text), Text)>) -> Seq<((Text, Text), Text)>
    decreases unseen.len(),
{
    if unseen.len() == 0 {
        Seq::empty()
    } else if may_delete(unseen.last().0.0, unseen.last().0.1) {
        after_deletions(unseen.drop_last())
    } else {
        after_deletions(unseen.drop_last()).push(unseen.last())
    }
}

/// Deleting teams settles the organizations: once the teams that may be
/// deleted are deleted, none of the teams that are left is deleted.
pub proof fn law_deletions_settle(unseen: Seq<((Text, Text), Text)>)
    ensures
        team_deletions(after_deletions(unseen)) == Seq::<TeamDiffModel>::empty(),
    decreases unseen.len(),
{
    if unseen.len() > 0 {
        law_deletions_settle(unseen.drop_last());
        if !may_delete(unseen.last().0.0, unseen.last().0.1) {
            assert(after_deletions(unseen).drop_last() =~= after_deletions(unseen.drop_last()));
        }
    }
}

/// Team diffs that all change nothing leave no diff that changes something.
pub proof fn lemma_no_changing_team_diffs(all: Seq<TeamDiffModel>)
    requires
        forall|i: int| 0 <= i < all.len() ==> (#[trigger] all[i]).noop(),
    ensures
        changing_team_diffs(all) == Seq::<TeamDiffModel>::empty(),
    decreases all.len(),
{
    if all.len() > 0 {
        assert(all[all.len() - 1].noop());
        assert forall|i: int| 0 <= i < all.drop_last().len() implies (#[trigger] all.drop_last()[i]).noop() by {
            assert(all.drop_last()[i] == all[i]);
        }
        lemma_no_changing_team_diffs(all.drop_last());
    }
}

/// Repository diffs that all change nothing leave no diff that changes something.
pub proof fn lemma_no_changing_repo_diffs(all: Seq<RepoDiffModel>)
    requires
        forall|i: int| 0 <= i < all.len() ==> (#[trigger] all[i]).noop(),
    ensures
        changing_repo_diffs(all) == Seq::<RepoDiffModel>::empty(),
    decreases all.len(),
{
    if all.len() > 0 {
        assert(all[all.len() - 1].noop());
        assert forall|i: int| 0 <= i < all.drop_last().len() implies (#[trigger] all.drop_last()[i]).noop() by {
            assert(all.drop_last()[i] == all[i]);
        }
        lemma_no_changing_repo_diffs(all.drop_last());
    }
}

/// A run against a settled provider asks for nothing: where the diff of
/// every declared team and of every declared repository changes nothing,
/// and none of the teams that nobody declares may be deleted, the whole
/// diff is empty and no operation carries it out.
pub proof fn law_settled_run_is_empty(
    teams: Seq<TeamDiffModel>,
    repos: Seq<RepoDiffModel>,
    unseen: Seq<((Text, Text), Text)>,
)
    requires
        forall|i: int| 0 <= i < teams.len() ==> (#[trigger] teams[i]).noop(),
        forall|i: int| 0 <= i < repos.len() ==> (#[trigger] repos[i]).noop(),
        team_deletions(unseen) == Seq::<TeamDiffModel>::empty(),
    ensures
        changing_team_diffs(teams) + team_deletions(unseen) == Seq::<TeamDiffModel>::empty(),
        changing_repo_diffs(repos) == Seq::<RepoDiffModel>::empty(),
        (DiffModel {
            team_diffs: changing_team_diffs(teams) + team_deletions(unseen),
            repo_diffs: changing_repo_diffs(repos),
        }).ops() == Seq::<WriteOpModel>::empty(),
{
    lemma_no_changing_team_diffs(teams);
    lemma_no_changing_repo_diffs(repos);
    assert(changing_team_diffs(teams) + team_deletions(unseen) =~= Seq::<TeamDiffModel>::empty());
    assert(team_diff_ops(Seq::<TeamDiffModel>::empty()) + repo_diff_ops(
        Seq::<RepoDiffModel>::empty(),
    ) =~= Seq::<WriteOpModel>::empty());
}

} // verus!
