//! The declared state: the teams and repositories as they should be.

use crate::text::Text;
use vstd::prelude::*;

verus! {

/// A team on the provider as the declaration wants it.
#[derive(Clone, Debug, PartialEq, Eq)]
pub struct GitHubTeam {
    pub org: String,
    pub name: String,
    /// The provider's numeric ids of the members.
    pub members: Vec<u64>,
}

pub struct GitHubTeamModel {
    pub org: Text,
    pub name: Text,
    pub members: Seq<u64>,
}

impl DeepView for GitHubTeam {
    type V = GitHubTeamModel;

    open spec fn deep_view(&self) -> GitHubTeamModel {
        GitHubTeamModel { org: self.org@, name: self.name@, members: self.members@ }
    }
}

/// The provider teams that mirror one declared team.
#[derive(Clone, Debug, PartialEq, Eq)]
pub struct TeamGitHub {
    pub teams: Vec<GitHubTeam>,
}

/// A declared team. One without provider bindings takes no part in the reconciliation.
#[derive(Clone, Debug, PartialEq, Eq)]
pub struct Team {
    pub name: String,
    pub github: Option<TeamGitHub>,
}

pub struct TeamModel {
    pub name: Text,
    pub github: Option<Seq<GitHubTeamModel>>,
}

impl DeepView for Team {
    type V = TeamModel;

    open spec fn deep_view(&self) -> TeamModel {
        TeamModel {
            name: self.name@,
            github: match self.github {
                Some(gh) => Some(gh.teams.deep_view()),
                None => None,
            },
        }
    }
}

/// Level of access that the declaration grants on a repository.
#[derive(Clone, Copy, Debug, PartialEq, Eq, Structural)]
pub enum RepoPermission {
    Write,
    Admin,
    Maintain,
    Triage,
}

impl DeepView for RepoPermission {
    type V = RepoPermission;

    open spec fn deep_view(&self) -> RepoPermission {
        *self
    }
}

/// A bot that the declaration lets work on a repository.
#[derive(Clone, Copy, Debug, PartialEq, Eq, Structural)]
pub enum Bot {
    Bors,
    Highfive,
    Rustbot,
    RustTimer,
    Rfcbot,
    Craterbot,
    Glacierbot,
    LogAnalyzer,
    Renovate,
}

impl DeepView for Bot {
    type V = Bot;

    open spec fn deep_view(&self) -> Bot {
        *self
    }
}

/// A bot that merges into a protected branch by pushing to it.
#[derive(Clone, Copy, Debug, PartialEq, Eq, Structural)]
pub enum MergeBot {
    Homu,
    RustTimer,
}

impl DeepView for MergeBot {
    type V = MergeBot;

    open spec fn deep_view(&self) -> MergeBot {
        *self
    }
}

/// The access that the declaration grants a team on a repository.
#[derive(Clone, Debug, PartialEq, Eq)]
pub struct RepoTeam {
    pub name: String,
    pub permission: RepoPermission,
}

pub struct RepoTeamModel {
    pub name: Text,
    pub permission: RepoPermission,
}

impl DeepView for RepoTeam {
    type V = RepoTeamModel;

    open spec fn deep_view(&self) -> RepoTeamModel {
        RepoTeamModel { name: self.name@, permission: self.permission }
    }
}

/// The access that the declaration grants a single user on a repository.
#[derive(Clone, Debug, PartialEq, Eq)]
pub struct RepoMember {
    pub name: String,
    pub permission: RepoPermission,
}

pub struct RepoMemberModel {
    pub name: Text,
    pub permission: RepoPermission,
}

impl DeepView for RepoMember {
    type V = RepoMemberModel;

    open spec fn deep_view(&self) -> RepoMemberModel {
        RepoMemberModel { name: self.name@, permission: self.permission }
    }
}

/// How changes reach a protected branch.
#[derive(Clone, Debug, PartialEq, Eq)]
pub enum BranchProtectionMode {
    PrRequired { ci_checks: Vec<String>, required_approvals: u32 },
    PrNotRequired,
}

pub enum BranchProtectionModeModel {
    PrRequired { ci_checks: Seq<Text>, required_approvals: u32 },
    PrNotRequired,
}

impl DeepView for BranchProtectionMode {
    type V = BranchProtectionModeModel;

    open spec fn deep_view(&self) -> BranchProtectionModeModel {
        match self {
            BranchProtectionMode::PrRequired { ci_checks, required_approvals } => {
                BranchProtectionModeModel::PrRequired {
                    ci_checks: ci_checks.deep_view(),
                    required_approvals: *required_approvals,
                }
            },
            BranchProtectionMode::PrNotRequired => BranchProtectionModeModel::PrNotRequired,
        }
    }
}

/// A declared branch protection rule.
#[derive(Clone, Debug, PartialEq, Eq)]
pub struct BranchProtection {
    pub pattern: String,
    pub dismiss_stale_review: bool,
    pub mode: BranchProtectionMode,
    pub allowed_merge_teams: Vec<String>,
    pub merge_bots: Vec<MergeBot>,
}

pub struct BranchProtectionModel {
    pub pattern: Text,
    pub dismiss_stale_review: bool,
    pub mode: BranchProtectionModeModel,
    pub allowed_merge_teams: Seq<Text>,
    pub merge_bots: Seq<MergeBot>,
}

impl DeepView for BranchProtection {
    type V = BranchProtectionModel;

    open spec fn deep_view(&self) -> BranchProtectionModel {
        BranchProtectionModel {
            pattern: self.pattern@,
            dismiss_stale_review: self.dismiss_stale_review,
            mode: self.mode.deep_view(),
            allowed_merge_teams: self.allowed_merge_teams.deep_view(),
            merge_bots: self.merge_bots@,
        }
    }
}

/// A declared repository.
#[derive(Clone, Debug, PartialEq, Eq)]
pub struct Repo {
    pub org: String,
    pub name: String,
    pub description: String,
    pub homepage: Option<String>,
    pub bots: Vec<Bot>,
    pub teams: Vec<RepoTeam>,
    pub members: Vec<RepoMember>,
    pub branch_protections: Vec<BranchProtection>,
    pub archived: bool,
    pub auto_merge_enabled: bool,
}

pub struct RepoModel {
    pub org: Text,
    pub name: Text,
    pub description: Text,
    pub homepage: Option<Text>,
    pub bots: Seq<Bot>,
    pub teams: Seq<RepoTeamModel>,
    pub members: Seq<RepoMemberModel>,
    pub branch_protections: Seq<BranchProtectionModel>,
    pub archived: bool,
    pub auto_merge_enabled: bool,
}

impl DeepView for Repo {
    type V = RepoModel;

    open spec fn deep_view(&self) -> RepoModel {
        RepoModel {
            org: self.org@,
            name: self.name@,
            description: self.description@,
            homepage: self.homepage.deep_view(),
            bots: self.bots@,
            teams: self.teams.deep_view(),
            members: self.members.deep_view(),
            branch_protections: self.branch_protections.deep_view(),
            archived: self.archived,
            auto_merge_enabled: self.auto_merge_enabled,
        }
    }
}

} // verus!
