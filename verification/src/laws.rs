//! What holds of the engine for every declaration and every observation.

use crate::api;
use crate::api::{PushAllowanceActorModel, TeamMemberModel, TeamRole};
use crate::declared::{BranchProtectionModeModel, BranchProtectionModel, GitHubTeamModel, RepoModel};
use crate::diff::{MemberDiff, RepoCollaboratorModel, TeamDiffModel, UpdateRepoDiffModel};
use crate::engine::{holds_no_declared_team, lemma_distinct_new, orgs_of};
use crate::listmap::{
    collected, distinct, distinct_keys, has_key, keys, left_over, lemma_distinct_last,
    lemma_entry_has_key, lemma_left_over_lookup, lemma_position_absent, lemma_position_is_first,
    lemma_with_lookup, lookup, position, with,
};
use crate::permissions::{
    change, changes, for_teams, for_users, is_preserved_team, permission_diffs, team_removals,
    unclaimed_teams, user_removals, wanted_teams, wanted_users,
};
use crate::protection::{
    apps_of, effective_checks, effective_mode, projection, protection_change, with_apps,
};
use crate::repos::{declared_settings, observed_settings, repo_update};
use crate::teams::{
    all_noted, deletion, lemma_all_noted_distinct, may_delete, member_change, noted, role_of,
    team_creation, team_deletions, team_edit, team_keys, undeclared_teams, DEFAULT_DESCRIPTION,
    DEFAULT_PRIVACY,
};
use crate::text::{ascending, by_text, lemma_ascending_unique, lemma_text_order_total, Text};
use vstd::prelude::*;

verus! {

/// Whether two declared rules are the same but for the order of their checks.
pub open spec fn same_but_check_order(a: BranchProtectionModel, b: BranchProtectionModel) -> bool {
    &&& a.pattern == b.pattern
    &&& a.dismiss_stale_review == b.dismiss_stale_review
    &&& a.allowed_merge_teams == b.allowed_merge_teams
    &&& a.merge_bots == b.merge_bots
    &&& match (a.mode, b.mode) {
        (
            BranchProtectionModeModel::PrRequired { ci_checks: x, required_approvals: n },
            BranchProtectionModeModel::PrRequired { ci_checks: y, required_approvals: m },
        ) => n == m && x.to_multiset() == y.to_multiset(),
        (
            BranchProtectionModeModel::PrNotRequired,
            BranchProtectionModeModel::PrNotRequired,
        ) => true,
        _ => false,
    }
}

/// The order in which a rule lists its checks does not show in its
/// projection: two rules that differ in that order alone project to the
/// same protection.
pub proof fn law_check_order_is_canonical(
    repo: RepoModel,
    a: BranchProtectionModel,
    b: BranchProtectionModel,
)
    requires
        same_but_check_order(a, b),
    ensures
        projection(repo, a) == projection(repo, b),
{
    let x = effective_checks(a);
    let y = effective_checks(b);
    assert(x.to_multiset() == y.to_multiset());
    lemma_text_order_total();
    x.lemma_sort_by_ensures(by_text());
    lemma_ascending_unique(y, ascending(x));
}

/// The apps of a list that ends in another are those of the first, then
/// those of the second.
pub proof fn lemma_apps_of_concat(a: Seq<PushAllowanceActorModel>, b: Seq<PushAllowanceActorModel>)
    ensures
        apps_of(a + b) == apps_of(a) + apps_of(b),
    decreases b.len(),
{
    if b.len() == 0 {
        assert(a + b =~= a);
        assert(apps_of(a) + apps_of(b) =~= apps_of(a));
    } else {
        assert((a + b).drop_last() =~= a + b.drop_last());
        lemma_apps_of_concat(a, b.drop_last());
        assert(apps_of(a + b) =~= apps_of(a) + apps_of(b));
    }
}

/// A projection names no app.
pub proof fn law_projection_names_no_app(repo: RepoModel, bp: BranchProtectionModel)
    ensures
        forall|i: int|
            0 <= i < projection(repo, bp).push_allowances.len() ==> !((#[trigger] projection(
                repo,
                bp,
            ).push_allowances[i]) is App),
        apps_of(projection(repo, bp).push_allowances) == Seq::<PushAllowanceActorModel>::empty(),
{
    lemma_no_apps(projection(repo, bp).push_allowances);
}

/// A list without apps has no apps.
pub proof fn lemma_no_apps(actors: Seq<PushAllowanceActorModel>)
    requires
        forall|i: int| 0 <= i < actors.len() ==> !((#[trigger] actors[i]) is App),
    ensures
        apps_of(actors) == Seq::<PushAllowanceActorModel>::empty(),
    decreases actors.len(),
{
    if actors.len() > 0 {
        assert(!(actors[actors.len() - 1] is App));
        assert forall|i: int| 0 <= i < actors.drop_last().len() implies !((
        #[trigger] actors.drop_last()[i]) is App) by {
            assert(actors.drop_last()[i] == actors[i]);
        }
        lemma_no_apps(actors.drop_last());
    }
}

/// Every app of a list is among its apps, and the apps of a list are apps.
pub proof fn lemma_apps_are_kept(actors: Seq<PushAllowanceActorModel>)
    ensures
        forall|i: int|
            0 <= i < actors.len() && (#[trigger] actors[i]) is App ==> apps_of(actors).contains(
                actors[i],
            ),
        forall|k: int| 0 <= k < apps_of(actors).len() ==> (#[trigger] apps_of(actors)[k]) is App,
        apps_of(apps_of(actors)) == apps_of(actors),
    decreases actors.len(),
{
    if actors.len() > 0 {
        let earlier = actors.drop_last();
        lemma_apps_are_kept(earlier);
        assert forall|i: int| 0 <= i < actors.len() && (#[trigger] actors[i]) is App implies apps_of(
            actors,
        ).contains(actors[i]) by {
            if i < earlier.len() {
                assert(earlier[i] == actors[i]);
                let k = choose|k: int|
                    0 <= k < apps_of(earlier).len() && apps_of(earlier)[k] == actors[i];
                assert(apps_of(actors)[k] == actors[i]);
            } else {
                assert(apps_of(actors)[apps_of(earlier).len() as int] == actors[i]);
            }
        }
        if actors.last() is App {
            assert(apps_of(actors).drop_last() =~= apps_of(earlier));
        }
    }
}

/// The apps that may push on the provider stay: the protection that is
/// held against an observed one names every app that the observed one names.
pub proof fn law_apps_are_preserved(
    repo: RepoModel,
    bp: BranchProtectionModel,
    observed: api::BranchProtectionModel,
)
    ensures
        forall|i: int|
            0 <= i < observed.push_allowances.len() && (#[trigger] observed.push_allowances[i])
                is App ==> with_apps(projection(repo, bp), observed).push_allowances.contains(
                observed.push_allowances[i],
            ),
{
    lemma_apps_are_kept(observed.push_allowances);
    let kept = apps_of(observed.push_allowances);
    let wanted = with_apps(projection(repo, bp), observed).push_allowances;
    assert forall|i: int|
        0 <= i < observed.push_allowances.len() && (#[trigger] observed.push_allowances[i])
            is App implies wanted.contains(observed.push_allowances[i]) by {
        let k = choose|k: int| 0 <= k < kept.len() && kept[k] == observed.push_allowances[i];
        assert(wanted[projection(repo, bp).push_allowances.len() + k] == kept[k]);
    }
}

/// An observed protection that differs from the projection of its rule in
/// nothing but apps that follow the projected push allowances asks for no change.
pub proof fn law_apps_alone_make_no_update(
    repo: RepoModel,
    bp: BranchProtectionModel,
    rest: Seq<(Text, (Text, api::BranchProtectionModel))>,
    id: Text,
    apps: Seq<PushAllowanceActorModel>,
)
    requires
        forall|i: int| 0 <= i < apps.len() ==> (#[trigger] apps[i]) is App,
        lookup(rest, bp.pattern) == Some(
            (
                id,
                api::BranchProtectionModel {
                    push_allowances: projection(repo, bp).push_allowances + apps,
                    ..projection(repo, bp)
                },
            ),
        ),
    ensures
        protection_change(rest, repo, bp) is None,
{
    let projected = projection(repo, bp);
    law_projection_names_no_app(repo, bp);
    lemma_apps_of_concat(projected.push_allowances, apps);
    lemma_all_apps(apps);
    assert(apps_of(projected.push_allowances + apps) =~= apps);
}

/// A list of apps is its own list of apps.
pub proof fn lemma_all_apps(apps: Seq<PushAllowanceActorModel>)
    requires
        forall|i: int| 0 <= i < apps.len() ==> (#[trigger] apps[i]) is App,
    ensures
        apps_of(apps) == apps,
    decreases apps.len(),
{
    if apps.len() > 0 {
        assert(apps[apps.len() - 1] is App);
        assert forall|i: int| 0 <= i < apps.drop_last().len() implies (
        #[trigger] apps.drop_last()[i]) is App by {
            assert(apps.drop_last()[i] == apps[i]);
        }
        lemma_all_apps(apps.drop_last());
        assert(apps_of(apps) =~= apps);
    } else {
        assert(apps_of(apps) =~= apps);
    }
}

/// A repository that is archived and stays archived is frozen: whatever
/// else its update holds, it changes nothing, no operation carries it out,
/// and it is rendered as nothing.
pub proof fn law_archive_freeze(update: UpdateRepoDiffModel)
    requires
        update.settings_diff.0.archived,
        update.settings_diff.1.archived,
    ensures
        update.noop(),
        update.ops() == Seq::<crate::write::WriteOpModel>::empty(),
        update.rendered() == Seq::<char>::empty(),
{
}

/// An update that changes nothing is carried out by no operation.
pub proof fn law_noop_update_writes_nothing(update: UpdateRepoDiffModel)
    requires
        update.noop(),
    ensures
        update.ops() == Seq::<crate::write::WriteOpModel>::empty(),
{
    if update.can_be_modified() {
        assert(update.ops() =~= Seq::<crate::write::WriteOpModel>::empty());
    }
}

/// A repository leaves the archive before anything else of it changes:
/// the operations of such an update begin with the one that writes the
/// new settings, and that one is not issued again.
pub proof fn law_unarchive_comes_first(update: UpdateRepoDiffModel)
    requires
        update.settings_diff.0.archived,
        !update.settings_diff.1.archived,
    ensures
        update.ops().len() == 1 + update.permission_diffs.len()
            + update.branch_protection_diffs.len(),
        update.ops()[0] == update.settings_op(),
{
}

/// The changes for declared names grant or change access; none takes it away.
pub proof fn lemma_changes_delete_nothing(
    wanted: Seq<(Text, api::RepoPermission)>,
    observed: Seq<(Text, api::RepoPermission)>,
)
    ensures
        forall|i: int|
            0 <= i < changes(wanted, observed).len() ==> !((#[trigger] changes(
                wanted,
                observed,
            )[i]).1 is Delete),
    decreases wanted.len(),
{
    if wanted.len() > 0 {
        lemma_changes_delete_nothing(wanted.drop_last(), observed);
    }
}

/// The teams that lose their access are not preserved ones.
pub proof fn lemma_removals_spare_preserved(rest: Seq<(Text, api::RepoPermission)>, org: Text)
    ensures
        forall|i: int|
            0 <= i < team_removals(rest, org).len() ==> ((#[trigger] team_removals(
                rest,
                org,
            )[i]).collaborator matches RepoCollaboratorModel::Team(name) && !is_preserved_team(
                org,
                name,
            )),
    decreases rest.len(),
{
    if rest.len() > 0 {
        lemma_removals_spare_preserved(rest.drop_last(), org);
    }
}

/// The `security` team of `rust-lang` never loses its access: whatever is
/// declared and observed, no permission diff of a repository of
/// `rust-lang` takes the access of the team `security` away.
pub proof fn law_security_team_is_preserved(
    repo: RepoModel,
    teams: Seq<(Text, api::RepoPermission)>,
    collaborators: Seq<(Text, api::RepoPermission)>,
)
    requires
        repo.org == "rust-lang"@,
    ensures
        forall|i: int|
            0 <= i < permission_diffs(repo, teams, collaborators).len() ==> !({
                let diff = #[trigger] permission_diffs(repo, teams, collaborators)[i];
                diff.collaborator == RepoCollaboratorModel::Team("security"@) && diff.diff
                    is Delete
            }),
{
    let all = permission_diffs(repo, teams, collaborators);
    let a = for_teams(changes(wanted_teams(repo), teams));
    let b = for_users(changes(wanted_users(repo), collaborators));
    let c = team_removals(unclaimed_teams(repo, teams), repo.org);
    let d = user_removals(left_over(collaborators, keys(wanted_users(repo))));
    lemma_changes_delete_nothing(wanted_teams(repo), teams);
    lemma_removals_spare_preserved(unclaimed_teams(repo, teams), repo.org);
    assert forall|i: int| 0 <= i < all.len() implies !({
        let diff = #[trigger] all[i];
        diff.collaborator == RepoCollaboratorModel::Team("security"@) && diff.diff is Delete
    }) by {
        if i < a.len() {
            assert(all[i] == a[i]);
            assert(a[i].diff == changes(wanted_teams(repo), teams)[i].1);
        } else if i < a.len() + b.len() {
            assert(all[i] == b[i - a.len()]);
        } else if i < a.len() + b.len() + c.len() {
            assert(all[i] == c[i - a.len() - b.len()]);
        } else {
            assert(all[i] == d[i - a.len() - b.len() - c.len()]);
        }
    }
}

/// When teams are deleted: an observed team that nobody declares is
/// deleted if and only if its organization is a managed one and its name
/// is not that of a bot team; and nothing else is deleted.
pub proof fn law_team_deletion_rule(unseen: Seq<((Text, Text), Text)>)
    ensures
        forall|i: int|
            0 <= i < unseen.len() ==> (team_deletions(unseen).contains(
                deletion((#[trigger] unseen[i]).0.0, unseen[i].0.1, unseen[i].1),
            ) <==> may_delete(unseen[i].0.0, unseen[i].0.1)),
        forall|k: int|
            0 <= k < team_deletions(unseen).len() ==> exists|i: int|
                0 <= i < unseen.len() && may_delete(unseen[i].0.0, unseen[i].0.1)
                    && #[trigger] team_deletions(unseen)[k] == deletion(
                    unseen[i].0.0,
                    unseen[i].0.1,
                    unseen[i].1,
                ),
    decreases unseen.len(),
{
    if unseen.len() > 0 {
        let earlier = unseen.drop_last();
        let last = unseen.last();
        law_team_deletion_rule(earlier);
        let all = team_deletions(unseen);
        let before = team_deletions(earlier);
        assert forall|k: int| 0 <= k < all.len() implies exists|i: int|
            0 <= i < unseen.len() && may_delete(unseen[i].0.0, unseen[i].0.1) && #[trigger] all[k]
                == deletion(unseen[i].0.0, unseen[i].0.1, unseen[i].1) by {
            if k < before.len() {
                assert(all[k] == before[k]);
                let i = choose|i: int|
                    0 <= i < earlier.len() && may_delete(earlier[i].0.0, earlier[i].0.1)
                        && before[k] == deletion(earlier[i].0.0, earlier[i].0.1, earlier[i].1);
                assert(unseen[i] == earlier[i]);
            } else {
                assert(unseen[unseen.len() - 1] == last);
            }
        }
        assert forall|i: int| 0 <= i < unseen.len() implies (all.contains(
            deletion((#[trigger] unseen[i]).0.0, unseen[i].0.1, unseen[i].1),
        ) <==> may_delete(unseen[i].0.0, unseen[i].0.1)) by {
            let wanted = deletion(unseen[i].0.0, unseen[i].0.1, unseen[i].1);
            if may_delete(unseen[i].0.0, unseen[i].0.1) {
                if i < earlier.len() {
                    assert(earlier[i] == unseen[i]);
                    let k = choose|k: int| 0 <= k < before.len() && before[k] == wanted;
                    assert(all[k] == wanted);
                } else {
                    assert(all[all.len() - 1] == wanted);
                }
            }
            if all.contains(wanted) {
                let k = choose|k: int| 0 <= k < all.len() && all[k] == wanted;
                let j = choose|j: int|
                    0 <= j < unseen.len() && may_delete(unseen[j].0.0, unseen[j].0.1) && all[k]
                        == deletion(unseen[j].0.0, unseen[j].0.1, unseen[j].1);
                assert(unseen[j].0.0 == unseen[i].0.0);
            }
        }
    }
}

/// Roles are derived, never declared: whoever owns the organization
/// maintains its teams, anybody else is a member; and every member of a
/// team that is created gets the role so derived.
pub proof fn law_role_derivation(
    team: GitHubTeamModel,
    usernames: Seq<(u64, Text)>,
    owners: Seq<(Text, Seq<u64>)>,
    user: u64,
)
    ensures
        role_of(owners, team.org, user) == (if lookup(owners, team.org) is Some && lookup(
            owners,
            team.org,
        )->0.contains(user) {
            TeamRole::Maintainer
        } else {
            TeamRole::Member
        }),
        forall|i: int|
            0 <= i < team.members.len() ==> (#[trigger] team_creation(
                team,
                usernames,
                owners,
            ).members[i]).1 == role_of(owners, team.org, team.members[i]),
{
}

/// A branch that a merge bot pushes to asks for neither pull requests nor
/// approvals, whatever its rule declares.
pub proof fn law_merge_bot_coercion(repo: RepoModel, bp: BranchProtectionModel)
    requires
        bp.merge_bots.len() > 0,
    ensures
        !projection(repo, bp).requires_approving_reviews,
        projection(repo, bp).required_approving_review_count == 0,
        projection(repo, bp).required_status_check_contexts == Seq::<Text>::empty(),
{
    lemma_text_order_total();
    Seq::<Text>::empty().lemma_sort_by_ensures(by_text());
    assert(ascending(Seq::<Text>::empty()).to_multiset().len() == 0) by {
        broadcast use vstd::seq_lib::group_to_multiset_ensures;

    }
    assert(ascending(Seq::<Text>::empty()).len() == 0) by {
        broadcast use vstd::seq_lib::group_to_multiset_ensures;

    }
    assert(ascending(Seq::<Text>::empty()) =~= Seq::<Text>::empty());
}

/// The checks of a projection are in ascending order and are the checks
/// that take effect, so that no difference comes from their order alone.
pub proof fn law_checks_are_sorted(repo: RepoModel, bp: BranchProtectionModel)
    ensures
        vstd::relations::sorted_by(projection(repo, bp).required_status_check_contexts, by_text()),
        projection(repo, bp).required_status_check_contexts.to_multiset() == effective_checks(
            bp,
        ).to_multiset(),
{
    lemma_text_order_total();
    effective_checks(bp).lemma_sort_by_ensures(by_text());
}

/// Where no pull request is required, no approval is required either;
/// and pull requests are required exactly where the mode that takes effect
/// says so.
pub proof fn law_approvals_follow_mode(repo: RepoModel, bp: BranchProtectionModel)
    ensures
        effective_mode(bp) is PrNotRequired ==> projection(
            repo,
            bp,
        ).required_approving_review_count == 0,
        projection(repo, bp).requires_approving_reviews == (effective_mode(bp) is PrRequired),
{
}

/// Access that has been granted as declared asks for no further change:
/// once the permission that a change asks for is held, the same
/// declaration asks for nothing.
pub proof fn law_granted_access_settles(
    observed: Seq<(Text, api::RepoPermission)>,
    name: Text,
    wanted: api::RepoPermission,
)
    ensures
        change(with(observed, name, wanted), name, wanted) is None,
{
    lemma_with_lookup(observed, name, wanted, name);
}

/// The protection that a diff asks for, once it is in place, asks for no
/// further change: neither the projection of a rule, nor the projection
/// with the apps of the observed protection that it replaces.
pub proof fn law_protection_settles(
    repo: RepoModel,
    bp: BranchProtectionModel,
    rest: Seq<(Text, (Text, api::BranchProtectionModel))>,
    id: Text,
    observed: api::BranchProtectionModel,
)
    ensures
        protection_change(with(rest, bp.pattern, (id, projection(repo, bp))), repo, bp) is None,
        protection_change(
            with(rest, bp.pattern, (id, with_apps(projection(repo, bp), observed))),
            repo,
            bp,
        ) is None,
{
    let projected = projection(repo, bp);
    law_projection_names_no_app(repo, bp);
    lemma_with_lookup(rest, bp.pattern, (id, projected), bp.pattern);
    assert(with_apps(projected, projected).push_allowances =~= projected.push_allowances);
    let kept = with_apps(projected, observed);
    lemma_with_lookup(rest, bp.pattern, (id, kept), bp.pattern);
    lemma_apps_of_concat(projected.push_allowances, apps_of(observed.push_allowances));
    lemma_apps_are_kept(observed.push_allowances);
    assert(with_apps(projected, kept).push_allowances =~= kept.push_allowances);
}

/// A membership that has been set as derived asks for no further change:
/// a member with the derived role is left alone, and so is somebody who
/// has been invited.
pub proof fn law_membership_settles(
    current: Seq<(u64, TeamMemberModel)>,
    invites: Seq<Text>,
    id: u64,
    username: Text,
    role: TeamRole,
)
    ensures
        member_change(with(current, id, TeamMemberModel { username, role }), invites, id, username, role)
            == MemberDiff::Noop,
        lookup(current, id) is None ==> member_change(
            current,
            invites.push(username),
            id,
            username,
            role,
        ) == MemberDiff::Noop,
{
    lemma_with_lookup(current, id, TeamMemberModel { username, role }, id);
    assert(invites.push(username)[invites.len() as int] == username);
}

/// A team that carries the declared name, the default description and the
/// default privacy asks for no change of these.
pub proof fn law_team_settles(
    team: GitHubTeamModel,
    observed: api::TeamModel,
    current: Seq<(u64, TeamMemberModel)>,
    invites: Seq<Text>,
    usernames: Seq<(u64, Text)>,
    owners: Seq<(Text, Seq<u64>)>,
)
    requires
        observed.name == team.name,
        observed.description == Some(DEFAULT_DESCRIPTION@),
        observed.privacy == DEFAULT_PRIVACY,
    ensures
        !team_edit(team, observed, current, invites, usernames, owners).changes_meta(),
{
}

/// A repository whose settings are the declared ones asks for no change of them.
pub proof fn law_settings_settle(
    repo: RepoModel,
    observed: api::RepoModel,
    teams: Seq<(Text, api::RepoPermission)>,
    collaborators: Seq<(Text, api::RepoPermission)>,
    protections: Option<Seq<(Text, (Text, api::BranchProtectionModel))>>,
)
    requires
        observed_settings(observed) == declared_settings(repo),
    ensures
        repo_update(repo, observed, teams, collaborators, protections).settings_diff.0
            == repo_update(repo, observed, teams, collaborators, protections).settings_diff.1,
{
}

/// What is noted for a team once the listing of an organization is noted:
/// for a team of that organization the slug that the listing gives it,
/// for any other team what was noted before.
pub proof fn lemma_noted_lookup(
    unseen: Seq<((Text, Text), Text)>,
    org: Text,
    listed: Seq<(Text, Text)>,
    key: (Text, Text),
)
    ensures
        lookup(noted(unseen, org, listed), key) == (if key.0 == org {
            match lookup(collected(listed), key.1) {
                Some(slug) => Some(slug),
                None => lookup(unseen, key),
            }
        } else {
            lookup(unseen, key)
        }),
    decreases listed.len(),
{
    if listed.len() > 0 {
        let earlier = listed.drop_last();
        lemma_noted_lookup(unseen, org, earlier, key);
        lemma_with_lookup(
            noted(unseen, org, earlier),
            (org, listed.last().0),
            listed.last().1,
            key,
        );
        lemma_with_lookup(collected(earlier), listed.last().0, listed.last().1, key.1);
    } else {
        lemma_position_absent(collected(listed), key.1);
    }
}

/// What is noted for a team once all listings are noted: the slug that the
/// listing of its organization gives it, where the organization is listed
/// and the listing names the team.
pub proof fn lemma_all_noted_lookup(
    listings: Seq<(Text, Seq<(Text, Text)>)>,
    org: Text,
    name: Text,
)
    requires
        distinct_keys(listings),
    ensures
        lookup(all_noted(listings), (org, name)) == (match lookup(listings, org) {
            Some(listed) => lookup(collected(listed), name),
            None => None,
        }),
    decreases listings.len(),
{
    if listings.len() > 0 {
        let earlier = listings.drop_last();
        let (o, listed) = listings.last();
        lemma_distinct_last(listings);
        lemma_with_lookup(earlier, o, listed, org);
        lemma_all_noted_lookup(earlier, org, name);
        lemma_noted_lookup(all_noted(earlier), o, listed, (org, name));
    } else {
        lemma_position_absent(listings, org);
        lemma_position_absent(all_noted(listings), (org, name));
    }
}

/// Listings that are keyed by the distinct organizations name each
/// organization once.
pub proof fn lemma_listed_once(listings: Seq<(Text, Seq<(Text, Text)>)>, orgs: Seq<Text>)
    requires
        keys(listings) == distinct(orgs),
    ensures
        distinct_keys(listings),
{
    assert forall|a: int, b: int| 0 <= a < b < listings.len() implies (#[trigger] listings[a]).0
        != (#[trigger] listings[b]).0 by {
        lemma_distinct_new(orgs, b);
        assert(keys(listings)[a] == listings[a].0);
        assert(keys(listings)[b] == listings[b].0);
        assert(distinct(orgs).take(b)[a] == distinct(orgs)[a]);
    }
}

/// The rule of team deletions, from what the provider lists: a team that
/// the listing of its organization names, and that nobody declares, is
/// deleted exactly if its organization is a managed one and its name is
/// not that of a bot team; the deletion carries the slug that the listing
/// gives the team.
pub proof fn law_listed_orphan_rule(
    teams: Seq<GitHubTeamModel>,
    listings: Seq<(Text, Seq<(Text, Text)>)>,
    org: Text,
    name: Text,
    slug: Text,
)
    requires
        keys(listings) == distinct(orgs_of(teams)),
        lookup(listings, org) is Some,
        lookup(collected(lookup(listings, org)->0), name) == Some(slug),
        !team_keys(teams).contains((org, name)),
    ensures
        team_deletions(undeclared_teams(teams, listings)).contains(deletion(org, name, slug))
            <==> may_delete(org, name),
{
    let noted_teams = all_noted(listings);
    let left = undeclared_teams(teams, listings);
    lemma_listed_once(listings, orgs_of(teams));
    lemma_all_noted_distinct(listings);
    lemma_all_noted_lookup(listings, org, name);
    lemma_left_over_lookup(noted_teams, team_keys(teams), (org, name));
    lemma_position_is_first(left, (org, name));
    let at = position(left, (org, name))->0;
    assert(left[at] == ((org, name), slug));
    law_team_deletion_rule(left);
}

/// What a run deletes: every deletion is that of a team that the listing
/// of its organization names and that nobody declares, with the slug that
/// the listing gives it, in an organization and under a name for which
/// teams may be deleted; and no team is deleted twice.
pub proof fn law_deletions_are_of_listed_orphans(
    teams: Seq<GitHubTeamModel>,
    listings: Seq<(Text, Seq<(Text, Text)>)>,
)
    requires
        keys(listings) == distinct(orgs_of(teams)),
    ensures
        forall|k: int|
            0 <= k < team_deletions(undeclared_teams(teams, listings)).len() ==> ({
                let made = #[trigger] team_deletions(undeclared_teams(teams, listings))[k];
                &&& made matches TeamDiffModel::Delete(gone)
                &&& may_delete(gone.org, gone.name)
                &&& !team_keys(teams).contains((gone.org, gone.name))
                &&& lookup(listings, gone.org) matches Some(listed)
                &&& lookup(collected(listed), gone.name) == Some(gone.slug)
            }),
        team_deletions(undeclared_teams(teams, listings)).no_duplicates(),
{
    let noted_teams = all_noted(listings);
    let left = undeclared_teams(teams, listings);
    let made = team_deletions(left);
    lemma_listed_once(listings, orgs_of(teams));
    lemma_all_noted_distinct(listings);
    lemma_left_over_lookup(noted_teams, team_keys(teams), arbitrary());
    law_team_deletion_rule(left);
    lemma_deleted_once(left);
    assert forall|k: int| 0 <= k < made.len() implies ({
        let one = #[trigger] made[k];
        &&& one matches TeamDiffModel::Delete(gone)
        &&& may_delete(gone.org, gone.name)
        &&& !team_keys(teams).contains((gone.org, gone.name))
        &&& lookup(listings, gone.org) matches Some(listed)
        &&& lookup(collected(listed), gone.name) == Some(gone.slug)
    }) by {
        let i = choose|i: int|
            0 <= i < left.len() && may_delete(left[i].0.0, left[i].0.1) && made[k] == deletion(
                left[i].0.0,
                left[i].0.1,
                left[i].1,
            );
        let key = left[i].0;
        lemma_entry_has_key(left, i);
        lemma_left_over_lookup(noted_teams, team_keys(teams), key);
        lemma_all_noted_lookup(listings, key.0, key.1);
    }
}

/// Teams that are held once each are deleted once each.
pub proof fn lemma_deleted_once(unseen: Seq<((Text, Text), Text)>)
    requires
        distinct_keys(unseen),
    ensures
        team_deletions(unseen).no_duplicates(),
    decreases unseen.len(),
{
    if unseen.len() > 0 {
        let earlier = unseen.drop_last();
        let last = unseen.last();
        lemma_distinct_last(unseen);
        lemma_deleted_once(earlier);
        law_team_deletion_rule(earlier);
        let before = team_deletions(earlier);
        let all = team_deletions(unseen);
        if may_delete(last.0.0, last.0.1) {
            assert forall|a: int, b: int| 0 <= a < all.len() && 0 <= b < all.len() && a
                != b implies all[a] != all[b] by {
                if a < before.len() && b < before.len() {
                    assert(all[a] == before[a] && all[b] == before[b]);
                } else {
                    let old_one = if a < before.len() {
                        a
                    } else {
                        b
                    };
                    assert(all[old_one] == before[old_one]);
                    let i = choose|i: int|
                        0 <= i < earlier.len() && may_delete(earlier[i].0.0, earlier[i].0.1)
                            && before[old_one] == deletion(
                            earlier[i].0.0,
                            earlier[i].0.1,
                            earlier[i].1,
                        );
                    assert(earlier[i] == unseen[i]);
                    assert(unseen[i].0 != unseen[unseen.len() - 1].0);
                }
            }
        }
    }
}

/// A declared team is never deleted: none of the teams that are left for
/// deletion is a declared one.
pub proof fn law_declared_teams_are_kept(
    teams: Seq<GitHubTeamModel>,
    listings: Seq<(Text, Seq<(Text, Text)>)>,
)
    requires
        keys(listings) == distinct(orgs_of(teams)),
    ensures
        holds_no_declared_team(teams, undeclared_teams(teams, listings)),
{
    lemma_listed_once(listings, orgs_of(teams));
    lemma_all_noted_distinct(listings);
    assert forall|i: int| 0 <= i < teams.len() implies !has_key(
        undeclared_teams(teams, listings),
        ((#[trigger] teams[i]).org, teams[i].name),
    ) by {
        let key = (teams[i].org, teams[i].name);
        assert(team_keys(teams)[i] == key);
        lemma_left_over_lookup(all_noted(listings), team_keys(teams), key);
    }
}

} // verus!
