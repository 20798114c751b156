//! Applying a diff settles the provider: once the operations of a diff
//! have been carried out, diffing again asks for nothing. The provider is
//! modelled by what the engine reads of it.

use crate::api;
use crate::api::RepoPermission;
use crate::declared::{BranchProtectionModel, RepoModel};
use crate::diff::{
    BranchProtectionDiffModel, BranchProtectionDiffOperationModel, CreateRepoDiffModel,
    RepoCollaboratorModel, RepoPermissionAssignmentDiffModel, RepoPermissionDiff,
    UpdateRepoDiffModel,
};
use crate::laws::{
    law_noop_update_writes_nothing, law_projection_names_no_app, lemma_apps_are_kept,
    lemma_apps_of_concat,
};
use crate::listmap::{
    distinct_keys, has_key, keys, left_over, lemma_distinct_last, lemma_entry_has_key,
    lemma_keys_contain, lemma_left_over_lookup, lemma_position_absent, lemma_position_is_first,
    lemma_with_lookup, lemma_without_distinct, lookup, position, with, without,
};
use crate::permissions::{
    bot_users, change, changes, for_teams, for_users, is_preserved_team, permission_diffs,
    team_removals, unclaimed_teams, user_removals, wanted_teams, wanted_users,
};
use crate::protection::{
    apps_of, created_protections, patterns, projection, protection_change, protection_changes,
    protection_diffs, protection_removals, with_apps,
};
use crate::repos::{repo_creation, repo_update};
use crate::text::Text;
use vstd::prelude::*;

verus! {

/// The access to one repository as the provider holds it: the permission
/// of each team and of each user, by name.
pub struct Access {
    pub teams: Seq<(Text, RepoPermission)>,
    pub users: Seq<(Text, RepoPermission)>,
}

/// The permissions `held` once the change `diff` for `name` is carried out:
/// a permission that is granted or changed is stored, one that is taken
/// away is struck off.
pub open spec fn after_change(
    held: Seq<(Text, RepoPermission)>,
    name: Text,
    diff: RepoPermissionDiff,
) -> Seq<(Text, RepoPermission)> {
    match diff {
        RepoPermissionDiff::Create(p) => with(held, name, p),
        RepoPermissionDiff::Update(_, p) => with(held, name, p),
        RepoPermissionDiff::Delete(_) => without(held, name),
    }
}

/// The access once one permission diff is carried out.
pub open spec fn after_diff(access: Access, diff: RepoPermissionAssignmentDiffModel) -> Access {
    match diff.collaborator {
        RepoCollaboratorModel::Team(name) => Access {
            teams: after_change(access.teams, name, diff.diff),
            users: access.users,
        },
        RepoCollaboratorModel::User(name) => Access {
            teams: access.teams,
            users: after_change(access.users, name, diff.diff),
        },
    }
}

/// The access once the permission diffs are carried out, in order.
pub open spec fn after_diffs(access: Access, diffs: Seq<RepoPermissionAssignmentDiffModel>) -> Access
    decreases diffs.len(),
{
    if diffs.len() == 0 {
        access
    } else {
        after_diff(after_diffs(access, diffs.drop_last()), diffs.last())
    }
}

/// Carrying out two lists of diffs, one after the other.
pub proof fn lemma_after_concat(
    access: Access,
    first: Seq<RepoPermissionAssignmentDiffModel>,
    second: Seq<RepoPermissionAssignmentDiffModel>,
)
    ensures
        after_diffs(access, first + second) == after_diffs(after_diffs(access, first), second),
    decreases second.len(),
{
    if second.len() == 0 {
        assert(first + second =~= first);
    } else {
        assert((first + second).drop_last() =~= first + second.drop_last());
        lemma_after_concat(access, first, second.drop_last());
    }
}

/// What to find under `key` once the wanted permissions are held: the
/// wanted permission where one is wanted, else what was held before.
pub open spec fn granted(
    wanted: Seq<(Text, RepoPermission)>,
    held: Seq<(Text, RepoPermission)>,
    key: Text,
) -> Option<RepoPermission> {
    match lookup(wanted, key) {
        Some(p) => Some(p),
        None => lookup(held, key),
    }
}

/// The permissions once the changes for the wanted ones are carried out.
pub open spec fn after_changes(
    held: Seq<(Text, RepoPermission)>,
    c: Seq<(Text, RepoPermissionDiff)>,
) -> Seq<(Text, RepoPermission)>
    decreases c.len(),
{
    if c.len() == 0 {
        held
    } else {
        after_change(after_changes(held, c.drop_last()), c.last().0, c.last().1)
    }
}

/// Changes of the access of teams touch the teams alone, changes of the
/// access of users the users alone.
pub proof fn lemma_after_changes(access: Access, c: Seq<(Text, RepoPermissionDiff)>)
    ensures
        after_diffs(access, for_teams(c)) == (Access {
            teams: after_changes(access.teams, c),
            users: access.users,
        }),
        after_diffs(access, for_users(c)) == (Access {
            teams: access.teams,
            users: after_changes(access.users, c),
        }),
    decreases c.len(),
{
    if c.len() > 0 {
        lemma_after_changes(access, c.drop_last());
        assert(for_teams(c).drop_last() =~= for_teams(c.drop_last()));
        assert(for_users(c).drop_last() =~= for_users(c.drop_last()));
    }
}

/// Once the changes for the wanted permissions are carried out, each
/// wanted permission is held and every other name holds what it held.
pub proof fn lemma_changes_grant(
    wanted: Seq<(Text, RepoPermission)>,
    held: Seq<(Text, RepoPermission)>,
    key: Text,
)
    requires
        distinct_keys(wanted),
        distinct_keys(held),
    ensures
        distinct_keys(after_changes(held, changes(wanted, held))),
        lookup(after_changes(held, changes(wanted, held)), key) == granted(wanted, held, key),
    decreases wanted.len(),
{
    if wanted.len() > 0 {
        let earlier = wanted.drop_last();
        let (name, p) = wanted.last();
        lemma_distinct_last(wanted);
        lemma_changes_grant(earlier, held, key);
        lemma_changes_grant(earlier, held, name);
        lemma_with_lookup(earlier, name, p, key);
        let before = after_changes(held, changes(earlier, held));
        lemma_left_over_lookup(held, keys(earlier), name);
        lemma_keys_contain(earlier, name);
        match change(left_over(held, keys(earlier)), name, p) {
            Some(diff) => {
                assert(changes(wanted, held).drop_last() =~= changes(earlier, held));
                lemma_with_lookup(before, name, p, key);
            },
            None => {},
        }
    }
}

/// Once the teams that nobody claims have lost their access, none of them
/// holds any but the preserved ones, and every other name holds what it held.
pub proof fn lemma_team_removals_strike(
    held: Seq<(Text, RepoPermission)>,
    rest: Seq<(Text, RepoPermission)>,
    org: Text,
    key: Text,
)
    requires
        distinct_keys(held),
    ensures
        distinct_keys(after_diffs(Access { teams: held, users: Seq::empty() }, team_removals(rest, org)).teams),
        forall|users: Seq<(Text, RepoPermission)>|
            #![trigger after_diffs(Access { teams: held, users }, team_removals(rest, org))]
            after_diffs(Access { teams: held, users }, team_removals(rest, org)) == (Access {
                teams: after_diffs(
                    Access { teams: held, users: Seq::empty() },
                    team_removals(rest, org),
                ).teams,
                users,
            }),
        lookup(
            after_diffs(Access { teams: held, users: Seq::empty() }, team_removals(rest, org)).teams,
            key,
        ) == (if has_key(rest, key) && !is_preserved_team(org, key) {
            None
        } else {
            lookup(held, key)
        }),
    decreases rest.len(),
{
    let start = Access { teams: held, users: Seq::empty() };
    if rest.len() > 0 {
        let earlier = rest.drop_last();
        let name = rest.last().0;
        lemma_team_removals_strike(held, earlier, org, key);
        lemma_has_key_last(rest, key);
        let before = after_diffs(start, team_removals(earlier, org)).teams;
        if !is_preserved_team(org, name) {
            assert(team_removals(rest, org).drop_last() =~= team_removals(earlier, org));
            lemma_without_distinct(before, name);
            assert forall|users: Seq<(Text, RepoPermission)>|
                #![trigger after_diffs(Access { teams: held, users }, team_removals(rest, org))]
                after_diffs(Access { teams: held, users }, team_removals(rest, org)) == (Access {
                    teams: after_diffs(start, team_removals(rest, org)).teams,
                    users,
                }) by {
                assert(after_diffs(Access { teams: held, users }, team_removals(earlier, org))
                    == (Access { teams: before, users }));
            }
            if key != name {
                assert(lookup(without(before, name), key) == lookup(before, key));
            }
        }
    } else {
        lemma_position_absent(rest, key);
    }
}

/// A key occurs in a list exactly if it is the key of the last entry or
/// occurs before it.
pub proof fn lemma_has_key_last<A, B>(s: Seq<(A, B)>, key: A)
    requires
        s.len() > 0,
    ensures
        has_key(s, key) == (has_key(s.drop_last(), key) || key == s.last().0),
{
    let earlier = s.drop_last();
    lemma_position_is_first(s, key);
    lemma_position_is_first(earlier, key);
    if has_key(earlier, key) {
        let p = position(earlier, key)->0;
        assert(s[p] == earlier[p]);
        lemma_entry_has_key(s, p);
    }
    if key == s.last().0 {
        lemma_entry_has_key(s, s.len() - 1);
    }
    if has_key(s, key) && key != s.last().0 {
        let p = position(s, key)->0;
        assert(earlier[p] == s[p]);
        lemma_entry_has_key(earlier, p);
    }
}

/// Once the users that nobody claims have lost their access, none of them
/// holds any, and every other name holds what it held.
pub proof fn lemma_user_removals_strike(
    access: Access,
    rest: Seq<(Text, RepoPermission)>,
    key: Text,
)
    requires
        distinct_keys(access.users),
    ensures
        after_diffs(access, user_removals(rest)).teams == access.teams,
        distinct_keys(after_diffs(access, user_removals(rest)).users),
        lookup(after_diffs(access, user_removals(rest)).users, key) == (if has_key(rest, key) {
            None
        } else {
            lookup(access.users, key)
        }),
    decreases rest.len(),
{
    if rest.len() > 0 {
        let earlier = rest.drop_last();
        let name = rest.last().0;
        lemma_user_removals_strike(access, earlier, key);
        lemma_has_key_last(rest, key);
        assert(user_removals(rest).drop_last() =~= user_removals(earlier));
        let before = after_diffs(access, user_removals(earlier)).users;
        lemma_without_distinct(before, name);
        if key != name {
            assert(lookup(without(before, name), key) == lookup(before, key));
        }
    } else {
        lemma_position_absent(rest, key);
    }
}

/// Wanted permissions that are all held ask for no change.
pub proof fn lemma_held_permissions_settle(
    wanted: Seq<(Text, RepoPermission)>,
    held: Seq<(Text, RepoPermission)>,
)
    requires
        distinct_keys(wanted),
        distinct_keys(held),
        forall|i: int| 0 <= i < wanted.len() ==> lookup(held, (#[trigger] wanted[i]).0) == Some(wanted[i].1),
    ensures
        changes(wanted, held) == Seq::<(Text, RepoPermissionDiff)>::empty(),
    decreases wanted.len(),
{
    if wanted.len() > 0 {
        let earlier = wanted.drop_last();
        let (name, p) = wanted.last();
        lemma_distinct_last(wanted);
        assert forall|i: int| 0 <= i < earlier.len() implies lookup(held, (#[trigger] earlier[i]).0)
            == Some(earlier[i].1) by {
            assert(earlier[i] == wanted[i]);
        }
        lemma_held_permissions_settle(earlier, held);
        lemma_left_over_lookup(held, keys(earlier), name);
        lemma_keys_contain(earlier, name);
        assert(wanted[wanted.len() - 1] == (name, p));
    }
}

/// Teams that are all preserved lose nothing.
pub proof fn lemma_preserved_teams_stay(rest: Seq<(Text, RepoPermission)>, org: Text)
    requires
        forall|i: int| 0 <= i < rest.len() ==> is_preserved_team(org, (#[trigger] rest[i]).0),
    ensures
        team_removals(rest, org) == Seq::<RepoPermissionAssignmentDiffModel>::empty(),
    decreases rest.len(),
{
    if rest.len() > 0 {
        assert(is_preserved_team(org, rest[rest.len() - 1].0));
        assert forall|i: int| 0 <= i < rest.drop_last().len() implies is_preserved_team(
            org,
            (#[trigger] rest.drop_last()[i]).0,
        ) by {
            assert(rest.drop_last()[i] == rest[i]);
        }
        lemma_preserved_teams_stay(rest.drop_last(), org);
    }
}

/// The access to a repository once its permission diffs are carried out.
pub open spec fn settled_access(
    repo: RepoModel,
    teams: Seq<(Text, RepoPermission)>,
    users: Seq<(Text, RepoPermission)>,
) -> Access {
    after_diffs(Access { teams, users }, permission_diffs(repo, teams, users))
}

/// Carrying out the permission diffs of a repository settles its access:
/// diffing the declaration against the access that results asks for
/// nothing. The declaration has to name each team once and each user once.
pub proof fn law_permissions_settle(
    repo: RepoModel,
    teams: Seq<(Text, RepoPermission)>,
    users: Seq<(Text, RepoPermission)>,
)
    requires
        distinct_keys(teams),
        distinct_keys(users),
        distinct_keys(wanted_teams(repo)),
        distinct_keys(wanted_users(repo)),
    ensures
        permission_diffs(
            repo,
            settled_access(repo, teams, users).teams,
            settled_access(repo, teams, users).users,
        ) == Seq::<RepoPermissionAssignmentDiffModel>::empty(),
{
    let wt = wanted_teams(repo);
    let wu = wanted_users(repo);
    let start = Access { teams, users };
    let a = for_teams(changes(wt, teams));
    let b = for_users(changes(wu, users));
    let orphans = unclaimed_teams(repo, teams);
    let c = team_removals(orphans, repo.org);
    let strangers = left_over(users, keys(wu));
    let d = user_removals(strangers);
    // The four stages, one after another.
    lemma_after_concat(start, a + b + c, d);
    lemma_after_concat(start, a + b, c);
    lemma_after_concat(start, a, b);
    lemma_after_changes(start, changes(wt, teams));
    let t1 = after_changes(teams, changes(wt, teams));
    let s1 = Access { teams: t1, users };
    assert(after_diffs(start, a) == s1);
    lemma_after_changes(s1, changes(wu, users));
    let u2 = after_changes(users, changes(wu, users));
    let s2 = Access { teams: t1, users: u2 };
    assert(after_diffs(s1, b) == s2);
    lemma_changes_grant(wt, teams, arbitrary());
    lemma_changes_grant(wu, users, arbitrary());
    lemma_team_removals_strike(t1, orphans, repo.org, arbitrary());
    let t3 = after_diffs(Access { teams: t1, users: Seq::empty() }, c).teams;
    let s3 = Access { teams: t3, users: u2 };
    assert(after_diffs(s2, c) == s3);
    lemma_user_removals_strike(s3, strangers, arbitrary());
    let end = after_diffs(s3, d);
    assert(end == settled_access(repo, teams, users));
    let t4 = end.teams;
    let u4 = end.users;
    assert(t4 == t3);
    // What the teams hold at the end.
    lemma_left_over_lookup(teams, keys(wt), arbitrary());
    lemma_left_over_lookup(left_over(teams, keys(wt)), keys(bot_users(repo.bots)), arbitrary());
    assert forall|i: int| 0 <= i < wt.len() implies lookup(t4, (#[trigger] wt[i]).0) == Some(
        wt[i].1,
    ) by {
        let name = wt[i].0;
        lemma_entry_has_key(wt, i);
        lemma_changes_grant(wt, teams, name);
        lemma_team_removals_strike(t1, orphans, repo.org, name);
        lemma_keys_contain(wt, name);
        lemma_left_over_lookup(teams, keys(wt), name);
        lemma_left_over_lookup(left_over(teams, keys(wt)), keys(bot_users(repo.bots)), name);
    }
    lemma_held_permissions_settle(wt, t4);
    // What the users hold at the end.
    assert forall|i: int| 0 <= i < wu.len() implies lookup(u4, (#[trigger] wu[i]).0) == Some(
        wu[i].1,
    ) by {
        let name = wu[i].0;
        lemma_entry_has_key(wu, i);
        lemma_changes_grant(wu, users, name);
        lemma_user_removals_strike(s3, strangers, name);
        lemma_keys_contain(wu, name);
        lemma_left_over_lookup(users, keys(wu), name);
    }
    lemma_held_permissions_settle(wu, u4);
    // The teams that are left unclaimed at the end are the preserved ones.
    let left_teams = unclaimed_teams(repo, t4);
    assert forall|i: int| 0 <= i < left_teams.len() implies is_preserved_team(
        repo.org,
        (#[trigger] left_teams[i]).0,
    ) by {
        let name = left_teams[i].0;
        lemma_entry_has_key(left_teams, i);
        lemma_left_over_lookup(t4, keys(wt), name);
        lemma_left_over_lookup(left_over(t4, keys(wt)), keys(bot_users(repo.bots)), name);
        lemma_keys_contain(wt, name);
        lemma_changes_grant(wt, teams, name);
        lemma_team_removals_strike(t1, orphans, repo.org, name);
        lemma_left_over_lookup(teams, keys(wt), name);
        lemma_left_over_lookup(left_over(teams, keys(wt)), keys(bot_users(repo.bots)), name);
    }
    lemma_preserved_teams_stay(left_teams, repo.org);
    // No user is left unclaimed at the end.
    let left_users = left_over(u4, keys(wu));
    if left_users.len() > 0 {
        let name = left_users[0].0;
        lemma_entry_has_key(left_users, 0);
        lemma_left_over_lookup(u4, keys(wu), name);
        lemma_keys_contain(wu, name);
        lemma_changes_grant(wu, users, name);
        lemma_user_removals_strike(s3, strangers, name);
        lemma_left_over_lookup(users, keys(wu), name);
        assert(false);
    }
    assert(user_removals(left_users) =~= Seq::<RepoPermissionAssignmentDiffModel>::empty());
    assert(for_teams(Seq::<(Text, RepoPermissionDiff)>::empty()) =~= Seq::<
        RepoPermissionAssignmentDiffModel,
    >::empty());
    assert(for_users(Seq::<(Text, RepoPermissionDiff)>::empty()) =~= Seq::<
        RepoPermissionAssignmentDiffModel,
    >::empty());
}

/// The branch protections of a repository as the provider holds them: by
/// pattern, each with the provider's id of it.
pub type Protections = Seq<(Text, (Text, api::BranchProtectionModel))>;

/// The protections once one diff is carried out. The provider gives a
/// protection that it creates an id of its choice, `new_id` of the pattern.
pub open spec fn after_protection_diff(
    held: Protections,
    diff: BranchProtectionDiffModel,
    new_id: spec_fn(Text) -> Text,
) -> Protections {
    match diff.operation {
        BranchProtectionDiffOperationModel::Create(bp) => with(
            held,
            diff.pattern,
            (new_id(diff.pattern), bp),
        ),
        BranchProtectionDiffOperationModel::Update(id, _, bp) => with(held, diff.pattern, (id, bp)),
        BranchProtectionDiffOperationModel::Delete(_) => without(held, diff.pattern),
    }
}

/// The protections once the diffs are carried out, in order.
pub open spec fn after_protection_diffs(
    held: Protections,
    diffs: Seq<BranchProtectionDiffModel>,
    new_id: spec_fn(Text) -> Text,
) -> Protections
    decreases diffs.len(),
{
    if diffs.len() == 0 {
        held
    } else {
        after_protection_diff(
            after_protection_diffs(held, diffs.drop_last(), new_id),
            diffs.last(),
            new_id,
        )
    }
}

/// Carrying out two lists of protection diffs, one after the other.
pub proof fn lemma_after_protections_concat(
    held: Protections,
    first: Seq<BranchProtectionDiffModel>,
    second: Seq<BranchProtectionDiffModel>,
    new_id: spec_fn(Text) -> Text,
)
    ensures
        after_protection_diffs(held, first + second, new_id) == after_protection_diffs(
            after_protection_diffs(held, first, new_id),
            second,
            new_id,
        ),
    decreases second.len(),
{
    if second.len() == 0 {
        assert(first + second =~= first);
    } else {
        assert((first + second).drop_last() =~= first + second.drop_last());
        lemma_after_protections_concat(held, first, second.drop_last(), new_id);
    }
}

/// Whether what is held under the pattern of a rule is what the rule asks
/// for: a protection that equals the projection of the rule with its own apps.
pub open spec fn holds_rule(
    repo: RepoModel,
    rule: BranchProtectionModel,
    entry: Option<(Text, api::BranchProtectionModel)>,
) -> bool {
    entry matches Some((_, bp)) && bp == with_apps(projection(repo, rule), bp)
}

/// The projection of a rule holds the rule, with or without the apps of
/// an observed protection.
pub proof fn lemma_projection_holds_rule(
    repo: RepoModel,
    rule: BranchProtectionModel,
    id: Text,
    observed: api::BranchProtectionModel,
)
    ensures
        holds_rule(repo, rule, Some((id, projection(repo, rule)))),
        holds_rule(repo, rule, Some((id, with_apps(projection(repo, rule), observed)))),
{
    let projected = projection(repo, rule);
    law_projection_names_no_app(repo, rule);
    assert(with_apps(projected, projected).push_allowances =~= projected.push_allowances);
    let kept = with_apps(projected, observed);
    lemma_apps_of_concat(projected.push_allowances, apps_of(observed.push_allowances));
    lemma_apps_are_kept(observed.push_allowances);
    assert(with_apps(projected, kept).push_allowances =~= kept.push_allowances);
}

/// Once the changes for the rules are carried out, the pattern of each
/// rule holds the rule and every other pattern holds what it held.
pub proof fn lemma_protection_changes_hold(
    repo: RepoModel,
    rules: Seq<BranchProtectionModel>,
    held: Protections,
    new_id: spec_fn(Text) -> Text,
    key: Text,
)
    requires
        patterns(rules).no_duplicates(),
        distinct_keys(held),
    ensures
        distinct_keys(after_protection_diffs(held, protection_changes(repo, rules, held), new_id)),
        forall|i: int|
            0 <= i < rules.len() && (#[trigger] rules[i]).pattern == key ==> holds_rule(
                repo,
                rules[i],
                lookup(
                    after_protection_diffs(held, protection_changes(repo, rules, held), new_id),
                    key,
                ),
            ),
        !patterns(rules).contains(key) ==> lookup(
            after_protection_diffs(held, protection_changes(repo, rules, held), new_id),
            key,
        ) == lookup(held, key),
    decreases rules.len(),
{
    if rules.len() > 0 {
        let earlier = rules.drop_last();
        let rule = rules.last();
        let name = rule.pattern;
        assert(patterns(rules).drop_last() =~= patterns(earlier));
        assert(patterns(rules)[rules.len() - 1] == name);
        assert forall|i: int, j: int|
            0 <= i < patterns(earlier).len() && 0 <= j < patterns(earlier).len() && i
                != j implies patterns(earlier)[i] != patterns(earlier)[j] by {
            assert(patterns(earlier)[i] == patterns(rules)[i]);
            assert(patterns(earlier)[j] == patterns(rules)[j]);
        }
        if patterns(earlier).contains(name) {
            let at = choose|at: int| 0 <= at < patterns(earlier).len() && patterns(earlier)[at] == name;
            assert(patterns(rules)[at] == name);
        }
        lemma_protection_changes_hold(repo, earlier, held, new_id, key);
        lemma_protection_changes_hold(repo, earlier, held, new_id, name);
        let before = after_protection_diffs(held, protection_changes(repo, earlier, held), new_id);
        let after = after_protection_diffs(held, protection_changes(repo, rules, held), new_id);
        lemma_left_over_lookup(held, patterns(earlier), name);
        let rest = left_over(held, patterns(earlier));
        match protection_change(rest, repo, rule) {
            Some(diff) => {
                assert(protection_changes(repo, rules, held).drop_last() =~= protection_changes(
                    repo,
                    earlier,
                    held,
                ));
                match lookup(rest, name) {
                    Some((id, seen)) => {
                        lemma_projection_holds_rule(repo, rule, id, seen);
                        lemma_with_lookup(
                            before,
                            name,
                            (id, with_apps(projection(repo, rule), seen)),
                            key,
                        );
                    },
                    None => {
                        lemma_projection_holds_rule(repo, rule, new_id(name), projection(repo, rule));
                        lemma_with_lookup(
                            before,
                            name,
                            (new_id(name), projection(repo, rule)),
                            key,
                        );
                    },
                }
            },
            None => {
                assert(lookup(before, name) == lookup(held, name));
            },
        }
        assert forall|i: int| 0 <= i < rules.len() && (#[trigger] rules[i]).pattern
            == key implies holds_rule(repo, rules[i], lookup(after, key)) by {
            if i < earlier.len() {
                assert(earlier[i] == rules[i]);
                assert(patterns(rules)[i] == key);
                assert(key != name);
            }
        }
        if !patterns(rules).contains(key) {
            if patterns(earlier).contains(key) {
                let at = choose|at: int|
                    0 <= at < patterns(earlier).len() && patterns(earlier)[at] == key;
                assert(patterns(rules)[at] == key);
            }
            assert(key != name);
        }
    }
}

/// Once the protections that no rule claims are deleted, none of them is
/// held, and every other pattern holds what it held.
pub proof fn lemma_protection_removals_strike(
    held: Protections,
    rest: Protections,
    new_id: spec_fn(Text) -> Text,
    key: Text,
)
    requires
        distinct_keys(held),
    ensures
        distinct_keys(after_protection_diffs(held, protection_removals(rest), new_id)),
        lookup(after_protection_diffs(held, protection_removals(rest), new_id), key) == (if has_key(
            rest,
            key,
        ) {
            None
        } else {
            lookup(held, key)
        }),
    decreases rest.len(),
{
    if rest.len() > 0 {
        let earlier = rest.drop_last();
        let name = rest.last().0;
        lemma_protection_removals_strike(held, earlier, new_id, key);
        lemma_has_key_last(rest, key);
        assert(protection_removals(rest).drop_last() =~= protection_removals(earlier));
        let before = after_protection_diffs(held, protection_removals(earlier), new_id);
        lemma_without_distinct(before, name);
        if key != name {
            assert(lookup(without(before, name), key) == lookup(before, key));
        }
    } else {
        lemma_position_absent(rest, key);
    }
}

/// Rules that are all held ask for no change.
pub proof fn lemma_held_rules_settle(
    repo: RepoModel,
    rules: Seq<BranchProtectionModel>,
    held: Protections,
)
    requires
        patterns(rules).no_duplicates(),
        distinct_keys(held),
        forall|i: int|
            0 <= i < rules.len() ==> holds_rule(
                repo,
                #[trigger] rules[i],
                lookup(held, rules[i].pattern),
            ),
    ensures
        protection_changes(repo, rules, held) == Seq::<BranchProtectionDiffModel>::empty(),
    decreases rules.len(),
{
    if rules.len() > 0 {
        let earlier = rules.drop_last();
        let rule = rules.last();
        assert(patterns(rules).drop_last() =~= patterns(earlier));
        assert(patterns(rules)[rules.len() - 1] == rule.pattern);
        assert forall|i: int, j: int|
            0 <= i < patterns(earlier).len() && 0 <= j < patterns(earlier).len() && i
                != j implies patterns(earlier)[i] != patterns(earlier)[j] by {
            assert(patterns(earlier)[i] == patterns(rules)[i]);
            assert(patterns(earlier)[j] == patterns(rules)[j]);
        }
        assert forall|i: int| 0 <= i < earlier.len() implies holds_rule(
            repo,
            #[trigger] earlier[i],
            lookup(held, earlier[i].pattern),
        ) by {
            assert(earlier[i] == rules[i]);
        }
        lemma_held_rules_settle(repo, earlier, held);
        if patterns(earlier).contains(rule.pattern) {
            let at = choose|at: int|
                0 <= at < patterns(earlier).len() && patterns(earlier)[at] == rule.pattern;
            assert(patterns(rules)[at] == rule.pattern);
        }
        lemma_left_over_lookup(held, patterns(earlier), rule.pattern);
        assert(holds_rule(repo, rules[rules.len() - 1], lookup(held, rule.pattern)));
    }
}

/// Carrying out the branch protection diffs of a repository settles its
/// protections: diffing the declaration against the protections that
/// result asks for nothing, whatever ids the provider gives to the
/// protections that it creates. The declaration has to name each pattern once.
pub proof fn law_protections_settle(
    repo: RepoModel,
    observed: Protections,
    new_id: spec_fn(Text) -> Text,
)
    requires
        distinct_keys(observed),
        patterns(repo.branch_protections).no_duplicates(),
    ensures
        protection_diffs(
            repo,
            after_protection_diffs(observed, protection_diffs(repo, observed), new_id),
        ) == Seq::<BranchProtectionDiffModel>::empty(),
{
    let rules = repo.branch_protections;
    let a = protection_changes(repo, rules, observed);
    let strays = left_over(observed, patterns(rules));
    let b = protection_removals(strays);
    lemma_after_protections_concat(observed, a, b, new_id);
    let changed_set = after_protection_diffs(observed, a, new_id);
    let cleared_set = after_protection_diffs(changed_set, b, new_id);
    lemma_protection_changes_hold(repo, rules, observed, new_id, arbitrary());
    lemma_protection_removals_strike(changed_set, strays, new_id, arbitrary());
    assert forall|i: int| 0 <= i < rules.len() implies holds_rule(
        repo,
        #[trigger] rules[i],
        lookup(cleared_set, rules[i].pattern),
    ) by {
        let name = rules[i].pattern;
        assert(patterns(rules)[i] == name);
        lemma_protection_changes_hold(repo, rules, observed, new_id, name);
        lemma_protection_removals_strike(changed_set, strays, new_id, name);
        lemma_left_over_lookup(observed, patterns(rules), name);
    }
    lemma_held_rules_settle(repo, rules, cleared_set);
    let left = left_over(cleared_set, patterns(rules));
    if left.len() > 0 {
        let name = left[0].0;
        lemma_entry_has_key(left, 0);
        lemma_left_over_lookup(cleared_set, patterns(rules), name);
        lemma_protection_changes_hold(repo, rules, observed, new_id, name);
        lemma_protection_removals_strike(changed_set, strays, new_id, name);
        lemma_left_over_lookup(observed, patterns(rules), name);
        assert(false);
    }
    assert(protection_removals(left) =~= Seq::<BranchProtectionDiffModel>::empty());
}

/// One repository as the provider holds it: what it reports of the
/// repository itself, the access to it, and its branch protections.
pub struct RepoState {
    pub repo: api::RepoModel,
    pub access: Access,
    pub protections: Protections,
}

/// What the provider reports of a repository once the given settings are written.
pub open spec fn with_settings(repo: api::RepoModel, settings: api::RepoSettingsModel) -> api::RepoModel {
    api::RepoModel {
        description: settings.description,
        homepage: settings.homepage,
        archived: settings.archived,
        allow_auto_merge: Some(settings.auto_merge_enabled),
        ..repo
    }
}

/// The repository once an update is carried out. A frozen repository stays
/// as it is.
pub open spec fn after_update(
    state: RepoState,
    update: UpdateRepoDiffModel,
    new_id: spec_fn(Text) -> Text,
) -> RepoState {
    if !update.can_be_modified() {
        state
    } else {
        RepoState {
            repo: if update.settings_diff.0 != update.settings_diff.1 {
                with_settings(state.repo, update.settings_diff.1)
            } else {
                state.repo
            },
            access: after_diffs(state.access, update.permission_diffs),
            protections: after_protection_diffs(
                state.protections,
                update.branch_protection_diffs,
                new_id,
            ),
        }
    }
}

/// The update that the declaration asks of a repository as the provider
/// holds it. `diffed` says whether its branch protections are diffed.
pub open spec fn update_of(repo: RepoModel, state: RepoState, diffed: bool) -> UpdateRepoDiffModel {
    repo_update(
        repo,
        state.repo,
        state.access.teams,
        state.access.users,
        if diffed {
            Some(state.protections)
        } else {
            None
        },
    )
}

/// Whether the declaration names each team, each user and each pattern of
/// a repository once.
pub open spec fn names_each_once(repo: RepoModel) -> bool {
    &&& distinct_keys(wanted_teams(repo))
    &&& distinct_keys(wanted_users(repo))
    &&& patterns(repo.branch_protections).no_duplicates()
}

/// Whether the provider holds each team, each user and each pattern of a
/// repository once.
pub open spec fn holds_each_once(state: RepoState) -> bool {
    &&& distinct_keys(state.access.teams)
    &&& distinct_keys(state.access.users)
    &&& distinct_keys(state.protections)
}

/// Updating a repository settles it: once the update that the declaration
/// asks for is carried out, the update that it asks for next changes
/// nothing, and no operation carries it out.
pub proof fn law_update_settles(
    repo: RepoModel,
    state: RepoState,
    diffed: bool,
    new_id: spec_fn(Text) -> Text,
)
    requires
        names_each_once(repo),
        holds_each_once(state),
    ensures
        update_of(repo, after_update(state, update_of(repo, state, diffed), new_id), diffed).noop(),
        update_of(repo, after_update(state, update_of(repo, state, diffed), new_id), diffed).ops()
            == Seq::<crate::write::WriteOpModel>::empty(),
{
    let first = update_of(repo, state, diffed);
    let next_state = after_update(state, first, new_id);
    let second = update_of(repo, next_state, diffed);
    if first.can_be_modified() {
        law_permissions_settle(repo, state.access.teams, state.access.users);
        if diffed {
            law_protections_settle(repo, state.protections, new_id);
        }
        assert(second.settings_diff.0 == second.settings_diff.1);
    }
    law_noop_update_writes_nothing(second);
}

/// A repository once its creation is carried out: the provider gives it
/// the node id `node_id`.
pub open spec fn after_creation(
    create: CreateRepoDiffModel,
    node_id: Text,
    new_id: spec_fn(Text) -> Text,
) -> RepoState {
    RepoState {
        repo: with_settings(
            api::RepoModel {
                node_id,
                name: create.name,
                org: create.org,
                description: Seq::empty(),
                homepage: None,
                archived: false,
                allow_auto_merge: None,
            },
            create.settings,
        ),
        access: after_diffs(
            Access { teams: Seq::empty(), users: Seq::empty() },
            create.permissions,
        ),
        protections: after_new_protections(Seq::empty(), create.branch_protections, new_id),
    }
}

/// The protections once the given ones are created, in order.
pub open spec fn after_new_protections(
    held: Protections,
    created: Seq<(Text, api::BranchProtectionModel)>,
    new_id: spec_fn(Text) -> Text,
) -> Protections
    decreases created.len(),
{
    if created.len() == 0 {
        held
    } else {
        with(
            after_new_protections(held, created.drop_last(), new_id),
            created.last().0,
            (new_id(created.last().0), created.last().1),
        )
    }
}

/// On a repository without protections every rule asks for the creation
/// of its projection, so that creating the projected rules is carrying out
/// the protection diffs against nothing.
pub proof fn lemma_creation_is_a_diff(
    repo: RepoModel,
    rules: Seq<BranchProtectionModel>,
    new_id: spec_fn(Text) -> Text,
)
    ensures
        after_protection_diffs(
            Seq::empty(),
            protection_changes(repo, rules, Seq::empty()),
            new_id,
        ) == after_new_protections(
            Seq::empty(),
            Seq::new(rules.len(), |i: int| (rules[i].pattern, projection(repo, rules[i]))),
            new_id,
        ),
        left_over(Seq::<(Text, (Text, api::BranchProtectionModel))>::empty(), patterns(rules))
            == Seq::<(Text, (Text, api::BranchProtectionModel))>::empty(),
    decreases rules.len(),
{
    let nothing = Seq::<(Text, (Text, api::BranchProtectionModel))>::empty();
    if rules.len() > 0 {
        let earlier = rules.drop_last();
        lemma_creation_is_a_diff(repo, earlier, new_id);
        assert(patterns(rules).drop_last() =~= patterns(earlier));
        lemma_position_absent(nothing, rules.last().pattern);
        lemma_position_absent(nothing, patterns(rules).last());
        assert(protection_changes(repo, rules, nothing).drop_last() =~= protection_changes(
            repo,
            earlier,
            nothing,
        ));
        let made = Seq::new(rules.len(), |i: int| (rules[i].pattern, projection(repo, rules[i])));
        assert(made.drop_last() =~= Seq::new(
            earlier.len(),
            |i: int| (earlier[i].pattern, projection(repo, earlier[i])),
        ));
    }
}

/// Creating a repository settles it, unless it is declared archived: once
/// the creation that the declaration asks for is carried out, the update
/// that it asks for next changes nothing. (A repository is never created
/// archived, so one that is declared archived is archived by the next run.)
pub proof fn law_creation_settles(repo: RepoModel, node_id: Text, new_id: spec_fn(Text) -> Text)
    requires
        names_each_once(repo),
        !repo.archived,
    ensures
        update_of(repo, after_creation(repo_creation(repo), node_id, new_id), true).noop(),
{
    let nothing = Seq::<(Text, (Text, api::BranchProtectionModel))>::empty();
    let none = Seq::<(Text, RepoPermission)>::empty();
    let state = after_creation(repo_creation(repo), node_id, new_id);
    law_permissions_settle(repo, none, none);
    lemma_creation_is_a_diff(repo, repo.branch_protections, new_id);
    law_protections_settle(repo, nothing, new_id);
    assert(protection_removals(nothing) =~= Seq::<BranchProtectionDiffModel>::empty());
    assert(protection_diffs(repo, nothing) =~= protection_changes(
        repo,
        repo.branch_protections,
        nothing,
    ));
    assert(created_protections(repo) =~= Seq::new(
        repo.branch_protections.len(),
        |i: int| (repo.branch_protections[i].pattern, projection(repo, repo.branch_protections[i])),
    ));
}

} // verus!
