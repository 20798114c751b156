//! The write capability as data: the operations that the provider accepts.
//! Applying a diff means issuing its operations in order and stopping at
//! the first one that fails.

use crate::api::{
    BranchProtection, BranchProtectionModel, RepoPermission, RepoSettings, RepoSettingsModel,
    TeamPrivacy, TeamRole,
};
use crate::text::Text;
use vstd::prelude::*;

verus! {

/// How an operation names the repository on which a branch protection is created.
#[derive(Clone, Debug, PartialEq, Eq)]
pub enum RepoId {
    /// The node id that the provider has given the repository.
    NodeId(String),
    /// The repository that an earlier `CreateRepo` operation of the same
    /// run creates: its node id is the one which that operation returns.
    CreatedByRun { org: String, name: String },
}

pub enum RepoIdModel {
    NodeId(Text),
    CreatedByRun { org: Text, name: Text },
}

impl DeepView for RepoId {
    type V = RepoIdModel;

    open spec fn deep_view(&self) -> RepoIdModel {
        match self {
            RepoId::NodeId(id) => RepoIdModel::NodeId(id@),
            RepoId::CreatedByRun { org, name } => RepoIdModel::CreatedByRun {
                org: org@,
                name: name@,
            },
        }
    }
}

/// Whether a branch protection is created or changed.
#[derive(Clone, Debug, PartialEq, Eq)]
pub enum BranchProtectionOp {
    /// Create the protection on the given repository.
    CreateForRepo(RepoId),
    /// Change the protection with the given database id.
    UpdateBranchProtection(String),
}

pub enum BranchProtectionOpModel {
    CreateForRepo(RepoIdModel),
    UpdateBranchProtection(Text),
}

impl DeepView for BranchProtectionOp {
    type V = BranchProtectionOpModel;

    open spec fn deep_view(&self) -> BranchProtectionOpModel {
        match self {
            BranchProtectionOp::CreateForRepo(repo) => BranchProtectionOpModel::CreateForRepo(
                repo.deep_view(),
            ),
            BranchProtectionOp::UpdateBranchProtection(id) => {
                BranchProtectionOpModel::UpdateBranchProtection(id@)
            },
        }
    }
}

/// One call of the write capability.
#[derive(Clone, Debug, PartialEq, Eq)]
pub enum WriteOp {
    CreateRepo { org: String, name: String, settings: RepoSettings },
    EditRepo { org: String, name: String, settings: RepoSettings },
    UpdateTeamRepoPermissions { org: String, repo: String, team: String, permission: RepoPermission },
    UpdateUserRepoPermissions { org: String, repo: String, user: String, permission: RepoPermission },
    RemoveTeamFromRepo { org: String, repo: String, team: String },
    RemoveCollaboratorFromRepo { org: String, repo: String, user: String },
    UpsertBranchProtection {
        op: BranchProtectionOp,
        pattern: String,
        branch_protection: BranchProtection,
        org: String,
    },
    DeleteBranchProtection { org: String, repo: String, id: String },
    CreateTeam { org: String, name: String, description: String, privacy: TeamPrivacy },
    EditTeam {
        org: String,
        name: String,
        new_name: Option<String>,
        new_description: Option<String>,
        new_privacy: Option<TeamPrivacy>,
    },
    DeleteTeam { org: String, slug: String },
    SetTeamMembership { org: String, team: String, member: String, role: TeamRole },
    RemoveTeamMembership { org: String, team: String, member: String },
}

pub enum WriteOpModel {
    CreateRepo { org: Text, name: Text, settings: RepoSettingsModel },
    EditRepo { org: Text, name: Text, settings: RepoSettingsModel },
    UpdateTeamRepoPermissions { org: Text, repo: Text, team: Text, permission: RepoPermission },
    UpdateUserRepoPermissions { org: Text, repo: Text, user: Text, permission: RepoPermission },
    RemoveTeamFromRepo { org: Text, repo: Text, team: Text },
    RemoveCollaboratorFromRepo { org: Text, repo: Text, user: Text },
    UpsertBranchProtection {
        op: BranchProtectionOpModel,
        pattern: Text,
        branch_protection: BranchProtectionModel,
        org: Text,
    },
    DeleteBranchProtection { org: Text, repo: Text, id: Text },
    CreateTeam { org: Text, name: Text, description: Text, privacy: TeamPrivacy },
    EditTeam {
        org: Text,
        name: Text,
        new_name: Option<Text>,
        new_description: Option<Text>,
        new_privacy: Option<TeamPrivacy>,
    },
    DeleteTeam { org: Text, slug: Text },
    SetTeamMembership { org: Text, team: Text, member: Text, role: TeamRole },
    RemoveTeamMembership { org: Text, team: Text, member: Text },
}

impl DeepView for WriteOp {
    type V = WriteOpModel;

    open spec fn deep_view(&self) -> WriteOpModel {
        match self {
            WriteOp::CreateRepo { org, name, settings } => WriteOpModel::CreateRepo {
                org: org@,
                name: name@,
                settings: settings.deep_view(),
            },
            WriteOp::EditRepo { org, name, settings } => WriteOpModel::EditRepo {
                org: org@,
                name: name@,
                settings: settings.deep_view(),
            },
            WriteOp::UpdateTeamRepoPermissions { org, repo, team, permission } => {
                WriteOpModel::UpdateTeamRepoPermissions {
                    org: org@,
                    repo: repo@,
                    team: team@,
                    permission: *permission,
                }
            },
            WriteOp::UpdateUserRepoPermissions { org, repo, user, permission } => {
                WriteOpModel::UpdateUserRepoPermissions {
                    org: org@,
                    repo: repo@,
                    user: user@,
                    permission: *permission,
                }
            },
            WriteOp::RemoveTeamFromRepo { org, repo, team } => WriteOpModel::RemoveTeamFromRepo {
                org: org@,
                repo: repo@,
                team: team@,
            },
            WriteOp::RemoveCollaboratorFromRepo { org, repo, user } => {
                WriteOpModel::RemoveCollaboratorFromRepo { org: org@, repo: repo@, user: user@ }
            },
            WriteOp::UpsertBranchProtection { op, pattern, branch_protection, org } => {
                WriteOpModel::UpsertBranchProtection {
                    op: op.deep_view(),
                    pattern: pattern@,
                    branch_protection: branch_protection.deep_view(),
                    org: org@,
                }
            },
            WriteOp::DeleteBranchProtection { org, repo, id } => {
                WriteOpModel::DeleteBranchProtection { org: org@, repo: repo@, id: id@ }
            },
            WriteOp::CreateTeam { org, name, description, privacy } => WriteOpModel::CreateTeam {
                org: org@,
                name: name@,
                description: description@,
                privacy: *privacy,
            },
            WriteOp::EditTeam { org, name, new_name, new_description, new_privacy } => {
                WriteOpModel::EditTeam {
                    org: org@,
                    name: name@,
                    new_name: new_name.deep_view(),
                    new_description: new_description.deep_view(),
                    new_privacy: *new_privacy,
                }
            },
            WriteOp::DeleteTeam { org, slug } => WriteOpModel::DeleteTeam { org: org@, slug: slug@ },
            WriteOp::SetTeamMembership { org, team, member, role } => {
                WriteOpModel::SetTeamMembership {
                    org: org@,
                    team: team@,
                    member: member@,
                    role: *role,
                }
            },
            WriteOp::RemoveTeamMembership { org, team, member } => {
                WriteOpModel::RemoveTeamMembership { org: org@, team: team@, member: member@ }
            },
        }
    }
}

} // verus!
