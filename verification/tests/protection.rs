use sync_team::api::{
    AppPushAllowanceActor, BranchProtection, Login, PushAllowanceActor, TeamPushAllowanceActor,
    UserPushAllowanceActor,
};
use sync_team::declared;
use sync_team::diff::{BranchProtectionDiff, BranchProtectionDiffOperation};
use sync_team::listmap::ListMap;
use sync_team::protection::{can_project, construct_branch_protection, diff_protections, project_protections};

fn s(text: &str) -> String {
    text.to_string()
}

fn repo(rules: Vec<declared::BranchProtection>) -> declared::Repo {
    declared::Repo {
        org: s("acme"),
        name: s("tool"),
        description: String::new(),
        homepage: None,
        bots: vec![],
        teams: vec![],
        members: vec![],
        branch_protections: rules,
        archived: false,
        auto_merge_enabled: false,
    }
}

fn main_rule() -> declared::BranchProtection {
    declared::BranchProtection {
        pattern: s("main"),
        dismiss_stale_review: true,
        mode: declared::BranchProtectionMode::PrRequired {
            ci_checks: vec![s("b"), s("a")],
            required_approvals: 2,
        },
        allowed_merge_teams: vec![s("infra")],
        merge_bots: vec![],
    }
}

fn infra() -> PushAllowanceActor {
    PushAllowanceActor::Team(TeamPushAllowanceActor {
        organization: Login { login: s("acme") },
        name: s("infra"),
    })
}

fn app(name: &str) -> PushAllowanceActor {
    PushAllowanceActor::App(AppPushAllowanceActor { name: s(name), id: format!("{}-id", name) })
}

fn canonical_main(push_allowances: Vec<PushAllowanceActor>) -> BranchProtection {
    BranchProtection {
        pattern: s("main"),
        is_admin_enforced: true,
        dismisses_stale_reviews: true,
        required_approving_review_count: 2,
        required_status_check_contexts: vec![s("a"), s("b")],
        push_allowances,
        requires_approving_reviews: true,
    }
}

fn observed(entries: Vec<(&str, &str, BranchProtection)>) -> ListMap<String, (String, BranchProtection)> {
    let mut map = ListMap::new();
    for (pattern, id, bp) in entries {
        map.insert(s(pattern), (s(id), bp));
    }
    map
}

#[test]
fn projection_of_a_rule() {
    let projected = construct_branch_protection(&repo(vec![]), &main_rule());
    assert_eq!(projected, canonical_main(vec![infra()]));
}

#[test]
fn permuting_checks_gives_the_same_projection() {
    let checks = ["linux", "Windows", "macos", "aarch64", "linux", "é", "z", ""];
    let mut first = main_rule();
    first.mode = declared::BranchProtectionMode::PrRequired {
        ci_checks: checks.iter().map(|c| s(c)).collect(),
        required_approvals: 1,
    };
    let mut second = main_rule();
    second.mode = declared::BranchProtectionMode::PrRequired {
        ci_checks: checks.iter().rev().map(|c| s(c)).collect(),
        required_approvals: 1,
    };
    let a = construct_branch_protection(&repo(vec![]), &first);
    let b = construct_branch_protection(&repo(vec![]), &second);
    assert_eq!(a, b);
    assert_eq!(
        a.required_status_check_contexts,
        vec![s(""), s("Windows"), s("aarch64"), s("linux"), s("linux"), s("macos"), s("z"), s("é")]
    );
}

#[test]
fn merge_bots_rule_out_pull_requests() {
    let mut rule = main_rule();
    rule.merge_bots = vec![declared::MergeBot::Homu, declared::MergeBot::RustTimer];
    let projected = construct_branch_protection(&repo(vec![]), &rule);
    assert!(!projected.requires_approving_reviews);
    assert_eq!(projected.required_approving_review_count, 0);
    assert!(projected.required_status_check_contexts.is_empty());
    assert!(projected.is_admin_enforced);
    assert!(projected.dismisses_stale_reviews);
    assert_eq!(
        projected.push_allowances,
        vec![
            infra(),
            PushAllowanceActor::User(UserPushAllowanceActor { login: s("bors") }),
            PushAllowanceActor::User(UserPushAllowanceActor { login: s("rust-timer") }),
        ]
    );
}

#[test]
fn no_pull_request_means_no_approvals() {
    let mut rule = main_rule();
    rule.mode = declared::BranchProtectionMode::PrNotRequired;
    rule.dismiss_stale_review = false;
    let projected = construct_branch_protection(&repo(vec![]), &rule);
    assert!(!projected.requires_approving_reviews);
    assert_eq!(projected.required_approving_review_count, 0);
    assert!(!projected.dismisses_stale_reviews);
}

#[test]
fn approvals_have_to_fit_into_eight_bits() {
    let mut rule = main_rule();
    rule.mode = declared::BranchProtectionMode::PrRequired { ci_checks: vec![], required_approvals: 255 };
    assert!(can_project(&rule));
    assert_eq!(construct_branch_protection(&repo(vec![]), &rule).required_approving_review_count, 255);
    rule.mode = declared::BranchProtectionMode::PrRequired { ci_checks: vec![], required_approvals: 256 };
    assert!(!can_project(&rule));
    rule.merge_bots = vec![declared::MergeBot::Homu];
    assert!(can_project(&rule));
    rule.merge_bots = vec![];
    rule.mode = declared::BranchProtectionMode::PrNotRequired;
    assert!(can_project(&rule));
}

#[test]
fn idempotent_protection() {
    let diffs = diff_protections(
        &repo(vec![main_rule()]),
        observed(vec![("main", "id-1", canonical_main(vec![infra()]))]),
    );
    assert!(diffs.is_empty());
}

#[test]
fn app_preservation() {
    let diffs = diff_protections(
        &repo(vec![main_rule()]),
        observed(vec![("main", "id-1", canonical_main(vec![infra(), app("x")]))]),
    );
    assert!(diffs.is_empty());
}

#[test]
fn apps_are_copied_into_an_update() {
    let mut seen = canonical_main(vec![app("x"), infra(), app("y")]);
    seen.required_approving_review_count = 1;
    let diffs = diff_protections(&repo(vec![main_rule()]), observed(vec![("main", "id-1", seen.clone())]));
    assert_eq!(
        diffs,
        vec![BranchProtectionDiff {
            pattern: s("main"),
            operation: BranchProtectionDiffOperation::Update(
                s("id-1"),
                seen,
                canonical_main(vec![infra(), app("x"), app("y")]),
            ),
        }]
    );
}

#[test]
fn unsorted_observed_checks_are_a_difference() {
    let mut seen = canonical_main(vec![infra()]);
    seen.required_status_check_contexts = vec![s("b"), s("a")];
    let diffs = diff_protections(&repo(vec![main_rule()]), observed(vec![("main", "id-1", seen)]));
    assert_eq!(diffs.len(), 1);
    assert!(matches!(diffs[0].operation, BranchProtectionDiffOperation::Update(..)));
}

#[test]
fn missing_protection_is_created_and_stray_ones_are_deleted() {
    let stray = canonical_main(vec![]);
    let diffs = diff_protections(
        &repo(vec![main_rule()]),
        observed(vec![("release-*", "id-7", stray.clone()), ("beta", "id-8", stray)]),
    );
    assert_eq!(
        diffs,
        vec![
            BranchProtectionDiff {
                pattern: s("main"),
                operation: BranchProtectionDiffOperation::Create(canonical_main(vec![infra()])),
            },
            BranchProtectionDiff {
                pattern: s("release-*"),
                operation: BranchProtectionDiffOperation::Delete(s("id-7")),
            },
            BranchProtectionDiff {
                pattern: s("beta"),
                operation: BranchProtectionDiffOperation::Delete(s("id-8")),
            },
        ]
    );
}

#[test]
fn a_new_repository_gets_every_rule_projected() {
    let mut other = main_rule();
    other.pattern = s("stable");
    other.mode = declared::BranchProtectionMode::PrNotRequired;
    let made = project_protections(&repo(vec![main_rule(), other]));
    assert_eq!(made.len(), 2);
    assert_eq!(made[0], (s("main"), canonical_main(vec![infra()])));
    assert_eq!(made[1].0, "stable");
    assert_eq!(made[1].1.pattern, "stable");
    assert!(!made[1].1.requires_approving_reviews);
}

#[test]
fn an_app_ahead_of_the_declared_actors_is_moved_behind_them() {
    let seen = canonical_main(vec![app("x"), infra()]);
    let diffs = diff_protections(&repo(vec![main_rule()]), observed(vec![("main", "id-1", seen.clone())]));
    assert_eq!(
        diffs,
        vec![BranchProtectionDiff {
            pattern: s("main"),
            operation: BranchProtectionDiffOperation::Update(
                s("id-1"),
                seen,
                canonical_main(vec![infra(), app("x")]),
            ),
        }]
    );
}
