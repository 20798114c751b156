//! Branch protections: the projection of a declared rule into the form the
//! provider keeps, and the diff between declared and observed protections.

use crate::api;
use crate::api::{
    Login, PushAllowanceActor, PushAllowanceActorModel, TeamPushAllowanceActor,
    TeamPushAllowanceActorModel, UserPushAllowanceActor, UserPushAllowanceActorModel,
};
use crate::api::LoginModel;
use crate::declared::{
    BranchProtection, BranchProtectionModeModel, BranchProtectionModel, BranchProtectionMode,
    MergeBot, Repo, RepoModel,
};
use crate::diff::{
    BranchProtectionDiff, BranchProtectionDiffModel, BranchProtectionDiffOperation,
    BranchProtectionDiffOperationModel,
};
use crate::listmap::{left_over, lemma_left_over_push, lookup, ListMap};
use crate::text::{ascending, sort_texts, Text};
use vstd::prelude::*;

verus! {

/// The mode that takes effect: a branch that a merge bot pushes to can ask
/// for neither pull requests nor approvals, whatever the declaration says.
pub open spec fn effective_mode(bp: BranchProtectionModel) -> BranchProtectionModeModel {
    if bp.merge_bots.len() > 0 {
        BranchProtectionModeModel::PrNotRequired
    } else {
        bp.mode
    }
}

/// Whether the rule can be projected: the number of approvals that takes
/// effect has to fit into eight bits.
pub open spec fn projectable(bp: BranchProtectionModel) -> bool {
    match effective_mode(bp) {
        BranchProtectionModeModel::PrRequired { required_approvals, .. } => required_approvals
            <= u8::MAX,
        BranchProtectionModeModel::PrNotRequired => true,
    }
}

/// The number of approvals that takes effect.
pub open spec fn effective_approvals(bp: BranchProtectionModel) -> u8 {
    match effective_mode(bp) {
        BranchProtectionModeModel::PrRequired { required_approvals, .. } => required_approvals as u8,
        BranchProtectionModeModel::PrNotRequired => 0,
    }
}

/// The checks that take effect, as declared.
pub open spec fn effective_checks(bp: BranchProtectionModel) -> Seq<Text> {
    match effective_mode(bp) {
        BranchProtectionModeModel::PrRequired { ci_checks, .. } => ci_checks,
        BranchProtectionModeModel::PrNotRequired => Seq::empty(),
    }
}

/// The user under which a merge bot pushes.
pub open spec fn merge_bot_login(bot: MergeBot) -> Text {
    match bot {
        MergeBot::Homu => "bors"@,
        MergeBot::RustTimer => "rust-timer"@,
    }
}

/// The team of `org` named `name` as a push allowance.
pub open spec fn team_actor(org: Text, name: Text) -> PushAllowanceActorModel {
    PushAllowanceActorModel::Team(
        TeamPushAllowanceActorModel { organization: LoginModel { login: org }, name },
    )
}

/// The user `login` as a push allowance.
pub open spec fn user_actor(login: Text) -> PushAllowanceActorModel {
    PushAllowanceActorModel::User(UserPushAllowanceActorModel { login })
}

/// The push allowances of a projected rule: the teams that may merge, then
/// the merge bots. No app is among them.
pub open spec fn projected_allowances(org: Text, bp: BranchProtectionModel) -> Seq<
    PushAllowanceActorModel,
> {
    Seq::new(bp.allowed_merge_teams.len(), |i: int| team_actor(org, bp.allowed_merge_teams[i]))
        + Seq::new(bp.merge_bots.len(), |i: int| user_actor(merge_bot_login(bp.merge_bots[i])))
}

/// The form in which the provider is to keep a declared rule.
pub open spec fn projection(repo: RepoModel, bp: BranchProtectionModel) -> api::BranchProtectionModel {
    api::BranchProtectionModel {
        pattern: bp.pattern,
        is_admin_enforced: true,
        dismisses_stale_reviews: bp.dismiss_stale_review,
        required_approving_review_count: effective_approvals(bp),
        required_status_check_contexts: ascending(effective_checks(bp)),
        push_allowances: projected_allowances(repo.org, bp),
        requires_approving_reviews: effective_mode(bp) is PrRequired,
    }
}

/// Projects a declared branch protection into the provider's form.
pub fn construct_branch_protection(expected_repo: &Repo, branch_protection: &BranchProtection) -> (projected:
    api::BranchProtection)
    requires
        projectable(branch_protection.deep_view()),
    ensures
        projected.deep_view() == projection(
            expected_repo.deep_view(),
            branch_protection.deep_view(),
        ),
{
    let ghost bp = branch_protection.deep_view();
    let ghost org = expected_repo.org@;
    let ghost wanted = projected_allowances(org, bp);
    let uses_merge_bot = !branch_protection.merge_bots.is_empty();
    let mut required_approving_review_count: u8 = 0;
    let mut requires_approving_reviews = false;
    let mut checks: Vec<String> = Vec::new();
    if !uses_merge_bot {
        match &branch_protection.mode {
            BranchProtectionMode::PrRequired { ci_checks, required_approvals } => {
                required_approving_review_count = *required_approvals as u8;
                requires_approving_reviews = true;
                checks = ci_checks.clone();
                assert(checks.deep_view() =~= ci_checks.deep_view());
            },
            BranchProtectionMode::PrNotRequired => {},
        }
    }
    assert(checks.deep_view() =~= effective_checks(bp));

    let mut push_allowances: Vec<PushAllowanceActor> = Vec::new();
    let mut i: usize = 0;
    while i < branch_protection.allowed_merge_teams.len()
        invariant
            i <= branch_protection.allowed_merge_teams.len(),
            bp == branch_protection.deep_view(),
            org == expected_repo.org@,
            wanted == projected_allowances(org, bp),
            push_allowances.deep_view() =~= wanted.take(i as int),
        decreases branch_protection.allowed_merge_teams.len() - i,
    {
        let ghost before = push_allowances.deep_view();
        let actor = PushAllowanceActor::Team(
            TeamPushAllowanceActor {
                organization: Login { login: expected_repo.org.clone() },
                name: branch_protection.allowed_merge_teams[i].clone(),
            },
        );
        assert(actor.deep_view() == wanted[i as int]);
        push_allowances.push(actor);
        assert(push_allowances.deep_view() =~= before.push(actor.deep_view()));
        i += 1;
    }
    let mut j: usize = 0;
    while j < branch_protection.merge_bots.len()
        invariant
            j <= branch_protection.merge_bots.len(),
            i == branch_protection.allowed_merge_teams.len(),
            bp == branch_protection.deep_view(),
            wanted == projected_allowances(org, bp),
            push_allowances.deep_view() =~= wanted.take(i + j),
        decreases branch_protection.merge_bots.len() - j,
    {
        let ghost before = push_allowances.deep_view();
        let login = match branch_protection.merge_bots[j] {
            MergeBot::Homu => "bors".to_owned(),
            MergeBot::RustTimer => "rust-timer".to_owned(),
        };
        let actor = PushAllowanceActor::User(UserPushAllowanceActor { login });
        assert(actor.deep_view() == wanted[i + j]);
        push_allowances.push(actor);
        assert(push_allowances.deep_view() =~= before.push(actor.deep_view()));
        j += 1;
    }
    assert(push_allowances.deep_view() =~= wanted);
    // Keep the checks in one order, so that no diff comes from their order alone.
    sort_texts(&mut checks);
    api::BranchProtection {
        pattern: branch_protection.pattern.clone(),
        is_admin_enforced: true,
        dismisses_stale_reviews: branch_protection.dismiss_stale_review,
        required_approving_review_count,
        required_status_check_contexts: checks,
        push_allowances,
        requires_approving_reviews,
    }
}

/// Every declared rule of the repository can be projected.
pub open spec fn all_projectable(repo: RepoModel) -> bool {
    forall|i: int|
        0 <= i < repo.branch_protections.len() ==> projectable(#[trigger] repo.branch_protections[i])
}

/// The apps among `actors`, in order.
pub open spec fn apps_of(actors: Seq<PushAllowanceActorModel>) -> Seq<PushAllowanceActorModel>
    decreases actors.len(),
{
    if actors.len() == 0 {
        Seq::empty()
    } else if actors.last() is App {
        apps_of(actors.drop_last()).push(actors.last())
    } else {
        apps_of(actors.drop_last())
    }
}

/// The projected rule as it is held against an observed one: apps are not
/// declared, so the apps that may push on the provider stay in.
pub open spec fn with_apps(
    projected: api::BranchProtectionModel,
    observed: api::BranchProtectionModel,
) -> api::BranchProtectionModel {
    api::BranchProtectionModel {
        push_allowances: projected.push_allowances + apps_of(observed.push_allowances),
        ..projected
    }
}

/// What has to happen for the rule `bp` to hold, given the observed
/// protections that no earlier rule has claimed.
pub open spec fn protection_change(
    rest: Seq<(Text, (Text, api::BranchProtectionModel))>,
    repo: RepoModel,
    bp: BranchProtectionModel,
) -> Option<BranchProtectionDiffModel> {
    match lookup(rest, bp.pattern) {
        Some((id, observed)) => {
            let wanted = with_apps(projection(repo, bp), observed);
            if observed != wanted {
                Some(
                    BranchProtectionDiffModel {
                        pattern: bp.pattern,
                        operation: BranchProtectionDiffOperationModel::Update(id, observed, wanted),
                    },
                )
            } else {
                None
            }
        },
        None => Some(
            BranchProtectionDiffModel {
                pattern: bp.pattern,
                operation: BranchProtectionDiffOperationModel::Create(projection(repo, bp)),
            },
        ),
    }
}

/// The patterns of the rules, in order.
pub open spec fn patterns(rules: Seq<BranchProtectionModel>) -> Seq<Text> {
    Seq::new(rules.len(), |i: int| rules[i].pattern)
}

/// The changes that make `rules` hold, in order.
pub open spec fn protection_changes(
    repo: RepoModel,
    rules: Seq<BranchProtectionModel>,
    observed: Seq<(Text, (Text, api::BranchProtectionModel))>,
) -> Seq<BranchProtectionDiffModel>
    decreases rules.len(),
{
    if rules.len() == 0 {
        Seq::empty()
    } else {
        let earlier = rules.drop_last();
        match protection_change(left_over(observed, patterns(earlier)), repo, rules.last()) {
            Some(diff) => protection_changes(repo, earlier, observed).push(diff),
            None => protection_changes(repo, earlier, observed),
        }
    }
}

/// The removals of the observed protections that no rule claims.
pub open spec fn protection_removals(
    rest: Seq<(Text, (Text, api::BranchProtectionModel))>,
) -> Seq<BranchProtectionDiffModel> {
    Seq::new(
        rest.len(),
        |i: int|
            BranchProtectionDiffModel {
                pattern: rest[i].0,
                operation: BranchProtectionDiffOperationModel::Delete(rest[i].1.0),
            },
    )
}

/// The branch protection diffs of a repository: the changes for the
/// declared rules, then the removals of what is left on the provider.
pub open spec fn protection_diffs(
    repo: RepoModel,
    observed: Seq<(Text, (Text, api::BranchProtectionModel))>,
) -> Seq<BranchProtectionDiffModel> {
    protection_changes(repo, repo.branch_protections, observed) + protection_removals(
        left_over(observed, patterns(repo.branch_protections)),
    )
}

/// The protections to create on a new repository: each declared rule, projected.
pub open spec fn created_protections(repo: RepoModel) -> Seq<(Text, api::BranchProtectionModel)> {
    Seq::new(
        repo.branch_protections.len(),
        |i: int| (repo.branch_protections[i].pattern, projection(repo, repo.branch_protections[i])),
    )
}

/// Appends to `allowances` the apps among `observed`.
fn keep_apps(allowances: &mut Vec<PushAllowanceActor>, observed: &Vec<PushAllowanceActor>)
    ensures
        final(allowances).deep_view() == old(allowances).deep_view() + apps_of(
            observed.deep_view(),
        ),
{
    let ghost start = allowances.deep_view();
    let ghost seen = observed.deep_view();
    let mut i: usize = 0;
    while i < observed.len()
        invariant
            i <= observed.len(),
            seen == observed.deep_view(),
            allowances.deep_view() =~= start + apps_of(seen.take(i as int)),
        decreases observed.len() - i,
    {
        proof {
            assert(seen.take(i + 1).drop_last() =~= seen.take(i as int));
        }
        if observed[i].is_app() {
            let ghost before = allowances.deep_view();
            let actor = observed[i].clone();
            allowances.push(actor);
            assert(allowances.deep_view() =~= before.push(actor.deep_view()));
        }
        i += 1;
    }
    assert(seen.take(i as int) =~= seen);
}

/// Computes the branch protection diffs of a repository from its declared
/// rules and the protections observed on the provider, keyed by pattern,
/// each with the provider's id of it.
pub fn diff_protections(
    expected_repo: &Repo,
    actual_protections: ListMap<String, (String, api::BranchProtection)>,
) -> (diffs: Vec<BranchProtectionDiff>)
    requires
        all_projectable(expected_repo.deep_view()),
    ensures
        diffs.deep_view() == protection_diffs(
            expected_repo.deep_view(),
            actual_protections.deep_view(),
        ),
{
    let ghost repo = expected_repo.deep_view();
    let ghost rules = repo.branch_protections;
    let ghost observed = actual_protections.deep_view();
    let mut rest = actual_protections;
    let mut diffs: Vec<BranchProtectionDiff> = Vec::new();
    let mut i: usize = 0;
    while i < expected_repo.branch_protections.len()
        invariant
            i <= expected_repo.branch_protections.len(),
            repo == expected_repo.deep_view(),
            rules == repo.branch_protections,
            all_projectable(repo),
            rest.deep_view() == left_over(observed, patterns(rules.take(i as int))),
            diffs.deep_view() =~= protection_changes(repo, rules.take(i as int), observed),
        decreases expected_repo.branch_protections.len() - i,
    {
        let branch_protection = &expected_repo.branch_protections[i];
        proof {
            assert(rules[i as int] == branch_protection.deep_view());
            assert(rules.take(i + 1).drop_last() =~= rules.take(i as int));
            assert(patterns(rules.take(i + 1)) =~= patterns(rules.take(i as int)).push(
                branch_protection.pattern@,
            ));
            lemma_left_over_push(
                observed,
                patterns(rules.take(i as int)),
                branch_protection.pattern@,
            );
        }
        let held = rest.remove(&branch_protection.pattern);
        let mut expected = construct_branch_protection(expected_repo, branch_protection);
        let operation = match held {
            Some((database_id, seen)) => {
                keep_apps(&mut expected.push_allowances, &seen.push_allowances);
                if seen != expected {
                    Some(BranchProtectionDiffOperation::Update(database_id, seen, expected))
                } else {
                    None
                }
            },
            None => Some(BranchProtectionDiffOperation::Create(expected)),
        };
        match operation {
            Some(operation) => {
                let ghost before = diffs.deep_view();
                let diff = BranchProtectionDiff {
                    pattern: branch_protection.pattern.clone(),
                    operation,
                };
                diffs.push(diff);
                assert(diffs.deep_view() =~= before.push(diff.deep_view()));
            },
            None => {},
        }
        i += 1;
    }
    assert(rules.take(i as int) =~= rules);
    let ghost changed = diffs.deep_view();
    let left = rest.into_entries();
    let ghost gone = protection_removals(left.deep_view());
    let mut k: usize = 0;
    while k < left.len()
        invariant
            k <= left.len(),
            gone == protection_removals(left.deep_view()),
            diffs.deep_view() =~= changed + gone.take(k as int),
        decreases left.len() - k,
    {
        let ghost before = diffs.deep_view();
        let diff = BranchProtectionDiff {
            pattern: left[k].0.clone(),
            operation: BranchProtectionDiffOperation::Delete(left[k].1.0.clone()),
        };
        assert(diff.deep_view() == gone[k as int]);
        diffs.push(diff);
        assert(diffs.deep_view() =~= before.push(diff.deep_view()));
        k += 1;
    }
    assert(gone.take(k as int) =~= gone);
    diffs
}

/// Projects every declared rule of a repository that is to be created.
pub fn project_protections(expected_repo: &Repo) -> (made: Vec<(String, api::BranchProtection)>)
    requires
        all_projectable(expected_repo.deep_view()),
    ensures
        made.deep_view() == created_protections(expected_repo.deep_view()),
{
    let ghost repo = expected_repo.deep_view();
    let ghost wanted = created_protections(repo);
    let mut made: Vec<(String, api::BranchProtection)> = Vec::new();
    let mut i: usize = 0;
    while i < expected_repo.branch_protections.len()
        invariant
            i <= expected_repo.branch_protections.len(),
            repo == expected_repo.deep_view(),
            all_projectable(repo),
            wanted == created_protections(repo),
            made.deep_view() =~= wanted.take(i as int),
        decreases expected_repo.branch_protections.len() - i,
    {
        let branch_protection = &expected_repo.branch_protections[i];
        assert(repo.branch_protections[i as int] == branch_protection.deep_view());
        let ghost before = made.deep_view();
        let entry = (
            branch_protection.pattern.clone(),
            construct_branch_protection(expected_repo, branch_protection),
        );
        assert(entry.deep_view() == wanted[i as int]);
        made.push(entry);
        assert(made.deep_view() =~= before.push(entry.deep_view()));
        i += 1;
    }
    assert(wanted.take(i as int) =~= wanted);
    made
}

/// Tells whether a declared rule can be projected.
pub fn can_project(branch_protection: &BranchProtection) -> (fits: bool)
    ensures
        fits == projectable(branch_protection.deep_view()),
{
    if !branch_protection.merge_bots.is_empty() {
        return true;
    }
    match &branch_protection.mode {
        BranchProtectionMode::PrRequired { required_approvals, .. } => *required_approvals <= 255,
        BranchProtectionMode::PrNotRequired => true,
    }
}

/// Tells whether every declared rule of a repository can be projected.
pub fn can_project_all(expected_repo: &Repo) -> (fits: bool)
    ensures
        fits == all_projectable(expected_repo.deep_view()),
{
    let ghost repo = expected_repo.deep_view();
    let mut i: usize = 0;
    while i < expected_repo.branch_protections.len()
        invariant
            i <= expected_repo.branch_protections.len(),
            repo == expected_repo.deep_view(),
            forall|j: int| 0 <= j < i ==> projectable(#[trigger] repo.branch_protections[j]),
        decreases expected_repo.branch_protections.len() - i,
    {
        assert(repo.branch_protections[i as int] == expected_repo.branch_protections[i as int].deep_view());
        if !can_project(&expected_repo.branch_protections[i]) {
            return false;
        }
        i += 1;
    }
    true
}

} // verus!
