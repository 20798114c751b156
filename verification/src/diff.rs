//! The diff: what has to change on the provider for it to match the declaration.

use crate::api::{
    BranchProtection, BranchProtectionModel, RepoPermission, RepoSettings, RepoSettingsModel,
    TeamPrivacy, TeamRole,
};
use crate::text::Text;
use vstd::prelude::*;

verus! {

/// What has to happen to one membership of a team.
#[derive(Clone, Copy, Debug, PartialEq, Eq)]
pub enum MemberDiff {
    Create(TeamRole),
    ChangeRole((TeamRole, TeamRole)),
    Delete,
    Noop,
}

impl DeepView for MemberDiff {
    type V = MemberDiff;

    open spec fn deep_view(&self) -> MemberDiff {
        *self
    }
}

impl MemberDiff {
    /// Whether nothing has to happen.
    pub fn is_noop(&self) -> (noop: bool)
        ensures
            noop == (*self is Noop),
    {
        match self {
            MemberDiff::Noop => true,
            _ => false,
        }
    }
}

/// A team that has to be created.
#[derive(Clone, Debug, PartialEq, Eq)]
pub struct CreateTeamDiff {
    pub org: String,
    pub name: String,
    pub description: String,
    pub privacy: TeamPrivacy,
    pub members: Vec<(String, TeamRole)>,
}

pub struct CreateTeamDiffModel {
    pub org: Text,
    pub name: Text,
    pub description: Text,
    pub privacy: TeamPrivacy,
    pub members: Seq<(Text, TeamRole)>,
}

impl DeepView for CreateTeamDiff {
    type V = CreateTeamDiffModel;

    open spec fn deep_view(&self) -> CreateTeamDiffModel {
        CreateTeamDiffModel {
            org: self.org@,
            name: self.name@,
            description: self.description@,
            privacy: self.privacy,
            members: self.members.deep_view(),
        }
    }
}

/// A team that exists and may have to change. Each pair is the old value, then the new.
#[derive(Clone, Debug, PartialEq, Eq)]
pub struct EditTeamDiff {
    pub org: String,
    pub name: String,
    pub name_diff: Option<String>,
    pub description_diff: Option<(String, String)>,
    pub privacy_diff: Option<(TeamPrivacy, TeamPrivacy)>,
    pub member_diffs: Vec<(String, MemberDiff)>,
}

pub struct EditTeamDiffModel {
    pub org: Text,
    pub name: Text,
    pub name_diff: Option<Text>,
    pub description_diff: Option<(Text, Text)>,
    pub privacy_diff: Option<(TeamPrivacy, TeamPrivacy)>,
    pub member_diffs: Seq<(Text, MemberDiff)>,
}

impl DeepView for EditTeamDiff {
    type V = EditTeamDiffModel;

    open spec fn deep_view(&self) -> EditTeamDiffModel {
        EditTeamDiffModel {
            org: self.org@,
            name: self.name@,
            name_diff: self.name_diff.deep_view(),
            description_diff: self.description_diff.deep_view(),
            privacy_diff: self.privacy_diff,
            member_diffs: self.member_diffs.deep_view(),
        }
    }
}

impl EditTeamDiffModel {
    /// Nothing of the team changes: neither its name, description or privacy, nor a membership.
    pub open spec fn noop(self) -> bool {
        &&& self.name_diff is None
        &&& self.description_diff is None
        &&& self.privacy_diff is None
        &&& forall|i: int| 0 <= i < self.member_diffs.len() ==> (#[trigger] self.member_diffs[i]).1 is Noop
    }
}

impl EditTeamDiff {
    /// Whether the edit changes nothing.
    pub fn noop(&self) -> (noop: bool)
        ensures
            noop == self.deep_view().noop(),
    {
        if self.name_diff.is_some() || self.description_diff.is_some()
            || self.privacy_diff.is_some() {
            return false;
        }
        let mut i: usize = 0;
        while i < self.member_diffs.len()
            invariant
                i <= self.member_diffs.len(),
                forall|j: int| 0 <= j < i ==> (#[trigger] self.member_diffs.deep_view()[j]).1 is Noop,
            decreases self.member_diffs.len() - i,
        {
            if !self.member_diffs[i].1.is_noop() {
                assert(!(self.member_diffs.deep_view()[i as int].1 is Noop));
                return false;
            }
            i += 1;
        }
        true
    }
}

/// A team that the declaration does not know and that has to go.
#[derive(Clone, Debug, PartialEq, Eq)]
pub struct DeleteTeamDiff {
    pub org: String,
    pub name: String,
    pub slug: String,
}

pub struct DeleteTeamDiffModel {
    pub org: Text,
    pub name: Text,
    pub slug: Text,
}

impl DeepView for DeleteTeamDiff {
    type V = DeleteTeamDiffModel;

    open spec fn deep_view(&self) -> DeleteTeamDiffModel {
        DeleteTeamDiffModel { org: self.org@, name: self.name@, slug: self.slug@ }
    }
}

/// What has to happen to one team.
#[derive(Clone, Debug, PartialEq, Eq)]
pub enum TeamDiff {
    Create(CreateTeamDiff),
    Edit(EditTeamDiff),
    Delete(DeleteTeamDiff),
}

pub enum TeamDiffModel {
    Create(CreateTeamDiffModel),
    Edit(EditTeamDiffModel),
    Delete(DeleteTeamDiffModel),
}

impl DeepView for TeamDiff {
    type V = TeamDiffModel;

    open spec fn deep_view(&self) -> TeamDiffModel {
        match self {
            TeamDiff::Create(c) => TeamDiffModel::Create(c.deep_view()),
            TeamDiff::Edit(e) => TeamDiffModel::Edit(e.deep_view()),
            TeamDiff::Delete(d) => TeamDiffModel::Delete(d.deep_view()),
        }
    }
}

impl TeamDiffModel {
    /// Only an edit can change nothing.
    pub open spec fn noop(self) -> bool {
        match self {
            TeamDiffModel::Create(_) => false,
            TeamDiffModel::Edit(e) => e.noop(),
            TeamDiffModel::Delete(_) => false,
        }
    }
}

impl TeamDiff {
    /// Whether the diff changes nothing.
    pub fn noop(&self) -> (noop: bool)
        ensures
            noop == self.deep_view().noop(),
    {
        match self {
            TeamDiff::Create(_) => false,
            TeamDiff::Edit(e) => e.noop(),
            TeamDiff::Delete(_) => false,
        }
    }
}

/// What has to happen to the access of one collaborator.
#[derive(Clone, Copy, Debug, PartialEq, Eq, Structural)]
pub enum RepoPermissionDiff {
    Create(RepoPermission),
    Update(RepoPermission, RepoPermission),
    Delete(RepoPermission),
}

impl DeepView for RepoPermissionDiff {
    type V = RepoPermissionDiff;

    open spec fn deep_view(&self) -> RepoPermissionDiff {
        *self
    }
}

/// Who has access to a repository: a team or a single user, by name.
#[derive(Clone, Debug, PartialEq, Eq)]
pub enum RepoCollaborator {
    Team(String),
    User(String),
}

pub enum RepoCollaboratorModel {
    Team(Text),
    User(Text),
}

impl DeepView for RepoCollaborator {
    type V = RepoCollaboratorModel;

    open spec fn deep_view(&self) -> RepoCollaboratorModel {
        match self {
            RepoCollaborator::Team(name) => RepoCollaboratorModel::Team(name@),
            RepoCollaborator::User(name) => RepoCollaboratorModel::User(name@),
        }
    }
}

/// A change of the access of one collaborator to a repository.
#[derive(Clone, Debug, PartialEq, Eq)]
pub struct RepoPermissionAssignmentDiff {
    pub collaborator: RepoCollaborator,
    pub diff: RepoPermissionDiff,
}

pub struct RepoPermissionAssignmentDiffModel {
    pub collaborator: RepoCollaboratorModel,
    pub diff: RepoPermissionDiff,
}

impl DeepView for RepoPermissionAssignmentDiff {
    type V = RepoPermissionAssignmentDiffModel;

    open spec fn deep_view(&self) -> RepoPermissionAssignmentDiffModel {
        RepoPermissionAssignmentDiffModel {
            collaborator: self.collaborator.deep_view(),
            diff: self.diff,
        }
    }
}

/// What has to happen to one branch protection. `Update` and `Delete` carry
/// the provider's id of the protection; `Update` the old form, then the new.
#[derive(Clone, Debug, PartialEq, Eq)]
pub enum BranchProtectionDiffOperation {
    Create(BranchProtection),
    Update(String, BranchProtection, BranchProtection),
    Delete(String),
}

pub enum BranchProtectionDiffOperationModel {
    Create(BranchProtectionModel),
    Update(Text, BranchProtectionModel, BranchProtectionModel),
    Delete(Text),
}

impl DeepView for BranchProtectionDiffOperation {
    type V = BranchProtectionDiffOperationModel;

    open spec fn deep_view(&self) -> BranchProtectionDiffOperationModel {
        match self {
            BranchProtectionDiffOperation::Create(bp) => BranchProtectionDiffOperationModel::Create(
                bp.deep_view(),
            ),
            BranchProtectionDiffOperation::Update(id, old_bp, new_bp) => {
                BranchProtectionDiffOperationModel::Update(
                    id@,
                    old_bp.deep_view(),
                    new_bp.deep_view(),
                )
            },
            BranchProtectionDiffOperation::Delete(id) => BranchProtectionDiffOperationModel::Delete(
                id@,
            ),
        }
    }
}

/// A change of the protection of the branches that match a pattern.
#[derive(Clone, Debug, PartialEq, Eq)]
pub struct BranchProtectionDiff {
    pub pattern: String,
    pub operation: BranchProtectionDiffOperation,
}

pub struct BranchProtectionDiffModel {
    pub pattern: Text,
    pub operation: BranchProtectionDiffOperationModel,
}

impl DeepView for BranchProtectionDiff {
    type V = BranchProtectionDiffModel;

    open spec fn deep_view(&self) -> BranchProtectionDiffModel {
        BranchProtectionDiffModel { pattern: self.pattern@, operation: self.operation.deep_view() }
    }
}

/// A repository that has to be created.
#[derive(Clone, Debug, PartialEq, Eq)]
pub struct CreateRepoDiff {
    pub org: String,
    pub name: String,
    pub settings: RepoSettings,
    pub permissions: Vec<RepoPermissionAssignmentDiff>,
    pub branch_protections: Vec<(String, BranchProtection)>,
}

pub struct CreateRepoDiffModel {
    pub org: Text,
    pub name: Text,
    pub settings: RepoSettingsModel,
    pub permissions: Seq<RepoPermissionAssignmentDiffModel>,
    pub branch_protections: Seq<(Text, BranchProtectionModel)>,
}

impl DeepView for CreateRepoDiff {
    type V = CreateRepoDiffModel;

    open spec fn deep_view(&self) -> CreateRepoDiffModel {
        CreateRepoDiffModel {
            org: self.org@,
            name: self.name@,
            settings: self.settings.deep_view(),
            permissions: self.permissions.deep_view(),
            branch_protections: self.branch_protections.deep_view(),
        }
    }
}

/// A repository that exists and may have to change. `settings_diff` holds the
/// settings as they are, then as they should be.
#[derive(Debug, PartialEq, Eq)]
pub struct UpdateRepoDiff {
    pub org: String,
    pub name: String,
    pub repo_node_id: String,
    pub settings_diff: (RepoSettings, RepoSettings),
    pub permission_diffs: Vec<RepoPermissionAssignmentDiff>,
    pub branch_protection_diffs: Vec<BranchProtectionDiff>,
}

pub struct UpdateRepoDiffModel {
    pub org: Text,
    pub name: Text,
    pub repo_node_id: Text,
    pub settings_diff: (RepoSettingsModel, RepoSettingsModel),
    pub permission_diffs: Seq<RepoPermissionAssignmentDiffModel>,
    pub branch_protection_diffs: Seq<BranchProtectionDiffModel>,
}

impl DeepView for UpdateRepoDiff {
    type V = UpdateRepoDiffModel;

    open spec fn deep_view(&self) -> UpdateRepoDiffModel {
        UpdateRepoDiffModel {
            org: self.org@,
            name: self.name@,
            repo_node_id: self.repo_node_id@,
            settings_diff: (self.settings_diff.0.deep_view(), self.settings_diff.1.deep_view()),
            permission_diffs: self.permission_diffs.deep_view(),
            branch_protection_diffs: self.branch_protection_diffs.deep_view(),
        }
    }
}

impl UpdateRepoDiffModel {
    /// A repository that is archived and stays archived is frozen: nothing of it can change.
    pub open spec fn can_be_modified(self) -> bool {
        !(self.settings_diff.0.archived && self.settings_diff.1.archived)
    }

    /// The update changes nothing: the repository is frozen, or no setting,
    /// permission or branch protection differs.
    pub open spec fn noop(self) -> bool {
        ||| !self.can_be_modified()
        ||| {
            &&& self.settings_diff.0 == self.settings_diff.1
            &&& self.permission_diffs.len() == 0
            &&& self.branch_protection_diffs.len() == 0
        }
    }
}

impl UpdateRepoDiff {
    /// Whether the update changes nothing.
    pub fn noop(&self) -> (noop: bool)
        ensures
            noop == self.deep_view().noop(),
    {
        if !self.can_be_modified() {
            return true;
        }
        self.settings_diff.0 == self.settings_diff.1 && self.permission_diffs.is_empty()
            && self.branch_protection_diffs.is_empty()
    }

    /// Whether the repository may be changed at all.
    pub fn can_be_modified(&self) -> (free: bool)
        ensures
            free == self.deep_view().can_be_modified(),
    {
        if self.settings_diff.1.archived && self.settings_diff.0.archived {
            return false;
        }
        true
    }
}

/// What has to happen to one repository. Repositories are never deleted.
#[derive(Debug, PartialEq, Eq)]
pub enum RepoDiff {
    Create(CreateRepoDiff),
    Update(UpdateRepoDiff),
}

pub enum RepoDiffModel {
    Create(CreateRepoDiffModel),
    Update(UpdateRepoDiffModel),
}

impl DeepView for RepoDiff {
    type V = RepoDiffModel;

    open spec fn deep_view(&self) -> RepoDiffModel {
        match self {
            RepoDiff::Create(c) => RepoDiffModel::Create(c.deep_view()),
            RepoDiff::Update(u) => RepoDiffModel::Update(u.deep_view()),
        }
    }
}

impl RepoDiffModel {
    /// Only an update can change nothing.
    pub open spec fn noop(self) -> bool {
        match self {
            RepoDiffModel::Create(_) => false,
            RepoDiffModel::Update(u) => u.noop(),
        }
    }
}

impl RepoDiff {
    /// Whether the diff changes nothing.
    pub fn noop(&self) -> (noop: bool)
        ensures
            noop == self.deep_view().noop(),
    {
        match self {
            RepoDiff::Create(_) => false,
            RepoDiff::Update(u) => u.noop(),
        }
    }
}

/// The whole difference between the declaration and the provider: the
/// changes to teams, then the changes to repositories.
#[derive(Debug, PartialEq, Eq)]
pub struct Diff {
    pub team_diffs: Vec<TeamDiff>,
    pub repo_diffs: Vec<RepoDiff>,
}

pub struct DiffModel {
    pub team_diffs: Seq<TeamDiffModel>,
    pub repo_diffs: Seq<RepoDiffModel>,
}

impl DeepView for Diff {
    type V = DiffModel;

    open spec fn deep_view(&self) -> DiffModel {
        DiffModel {
            team_diffs: self.team_diffs.deep_view(),
            repo_diffs: self.repo_diffs.deep_view(),
        }
    }
}

impl Diff {
    /// Whether the diff holds no change at all.
    pub fn is_empty(&self) -> (empty: bool)
        ensures
            empty == (self.deep_view().team_diffs.len() == 0 && self.deep_view().repo_diffs.len()
                == 0),
    {
        self.team_diffs.is_empty() && self.repo_diffs.is_empty()
    }
}

} // verus!
