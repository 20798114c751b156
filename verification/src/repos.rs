//! Repository diffing: what has to happen to one repository for it to match
//! its declaration.

use crate::api;
use crate::api::{RepoSettings, RepoSettingsModel};
use crate::declared::{Repo, RepoModel};
use crate::diff::{
    BranchProtectionDiff, BranchProtectionDiffModel, CreateRepoDiff, CreateRepoDiffModel,
    RepoPermissionAssignmentDiff, RepoPermissionAssignmentDiffModel, UpdateRepoDiff,
    UpdateRepoDiffModel,
};
use crate::listmap::ListMap;
use crate::permissions::{calculate_permission_diffs, permission_diffs};
use crate::protection::{
    all_projectable, created_protections, project_protections, protection_diffs,
};
use crate::text::{str_eq, Text};
use vstd::prelude::*;

verus! {

/// The settings that the declaration asks for.
pub open spec fn declared_settings(repo: RepoModel) -> RepoSettingsModel {
    RepoSettingsModel {
        description: repo.description,
        homepage: repo.homepage,
        archived: repo.archived,
        auto_merge_enabled: repo.auto_merge_enabled,
    }
}

/// The settings that the provider reports. Where it does not say whether
/// auto-merge is allowed, it is taken not to be.
pub open spec fn observed_settings(repo: api::RepoModel) -> RepoSettingsModel {
    RepoSettingsModel {
        description: repo.description,
        homepage: repo.homepage,
        archived: repo.archived,
        auto_merge_enabled: match repo.allow_auto_merge {
            Some(allowed) => allowed,
            None => false,
        },
    }
}

/// The diff that creates a declared repository. A repository is never
/// created archived, whatever the declaration says; nobody has access to it
/// yet and no branch of it is protected.
pub open spec fn repo_creation(repo: RepoModel) -> CreateRepoDiffModel {
    CreateRepoDiffModel {
        org: repo.org,
        name: repo.name,
        settings: RepoSettingsModel { archived: false, ..declared_settings(repo) },
        permissions: permission_diffs(repo, Seq::empty(), Seq::empty()),
        branch_protections: created_protections(repo),
    }
}

/// Whether the branch protections of the observed repository are diffed.
/// Those of `rust-lang/rust` let apps push, which cannot be seen without a
/// personal access token; diffing what was seen would take the apps away.
pub open spec fn protections_are_diffed(uses_pat: bool, org: Text, name: Text) -> bool {
    !(!uses_pat && org == "rust-lang"@ && name == "rust"@)
}

/// The update of an observed repository with the given diffs of its
/// permissions and branch protections: the provider's name and node id of
/// the repository, its settings as they are and as they should be.
pub open spec fn assembled_update(
    repo: RepoModel,
    observed: api::RepoModel,
    permission_diffs: Seq<RepoPermissionAssignmentDiffModel>,
    branch_protection_diffs: Seq<BranchProtectionDiffModel>,
) -> UpdateRepoDiffModel {
    UpdateRepoDiffModel {
        org: repo.org,
        name: observed.name,
        repo_node_id: observed.node_id,
        settings_diff: (observed_settings(observed), declared_settings(repo)),
        permission_diffs,
        branch_protection_diffs,
    }
}

/// The diff that updates an observed repository. `protections` holds the
/// observed branch protections, or `None` where they are not diffed.
pub open spec fn repo_update(
    repo: RepoModel,
    observed: api::RepoModel,
    teams: Seq<(Text, api::RepoPermission)>,
    collaborators: Seq<(Text, api::RepoPermission)>,
    protections: Option<Seq<(Text, (Text, api::BranchProtectionModel))>>,
) -> UpdateRepoDiffModel {
    assembled_update(
        repo,
        observed,
        permission_diffs(repo, teams, collaborators),
        match protections {
            Some(seen) => protection_diffs(repo, seen),
            None => Seq::empty(),
        },
    )
}

/// Decides whether the branch protections of an observed repository are diffed.
pub fn diffs_protections(uses_pat: bool, org: &str, name: &str) -> (diffed: bool)
    ensures
        diffed == protections_are_diffed(uses_pat, org@, name@),
{
    !(!uses_pat && str_eq(org, "rust-lang") && str_eq(name, "rust"))
}

/// Builds the diff that creates a declared repository.
pub fn new_repo(expected_repo: &Repo) -> (diff: CreateRepoDiff)
    requires
        all_projectable(expected_repo.deep_view()),
    ensures
        diff.deep_view() == repo_creation(expected_repo.deep_view()),
{
    let permissions = calculate_permission_diffs(expected_repo, ListMap::new(), ListMap::new());
    let branch_protections = project_protections(expected_repo);
    CreateRepoDiff {
        org: expected_repo.org.clone(),
        name: expected_repo.name.clone(),
        settings: RepoSettings {
            description: expected_repo.description.clone(),
            homepage: expected_repo.homepage.clone(),
            archived: false,
            auto_merge_enabled: expected_repo.auto_merge_enabled,
        },
        permissions,
        branch_protections,
    }
}

/// Builds the diff that updates an observed repository from the diffs of
/// its permissions and branch protections.
pub fn existing_repo(
    expected_repo: &Repo,
    actual_repo: api::Repo,
    permission_diffs: Vec<RepoPermissionAssignmentDiff>,
    branch_protection_diffs: Vec<BranchProtectionDiff>,
) -> (diff: UpdateRepoDiff)
    ensures
        diff.deep_view() == assembled_update(
            expected_repo.deep_view(),
            actual_repo.deep_view(),
            permission_diffs.deep_view(),
            branch_protection_diffs.deep_view(),
        ),
{
    let old_settings = RepoSettings {
        description: actual_repo.description.clone(),
        homepage: actual_repo.homepage.clone(),
        archived: actual_repo.archived,
        auto_merge_enabled: match actual_repo.allow_auto_merge {
            Some(allowed) => allowed,
            None => false,
        },
    };
    let new_settings = RepoSettings {
        description: expected_repo.description.clone(),
        homepage: expected_repo.homepage.clone(),
        archived: expected_repo.archived,
        auto_merge_enabled: expected_repo.auto_merge_enabled,
    };
    UpdateRepoDiff {
        org: expected_repo.org.clone(),
        name: actual_repo.name,
        repo_node_id: actual_repo.node_id,
        settings_diff: (old_settings, new_settings),
        permission_diffs,
        branch_protection_diffs,
    }
}

} // verus!
