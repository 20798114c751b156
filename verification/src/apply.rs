//! The diff applier: the operations that carry out a diff, in the order in
//! which they have to be issued.

use crate::diff::{
    BranchProtectionDiff, BranchProtectionDiffModel, BranchProtectionDiffOperation,
    BranchProtectionDiffOperationModel, CreateRepoDiff, CreateRepoDiffModel, CreateTeamDiff,
    CreateTeamDiffModel, DeleteTeamDiff, DeleteTeamDiffModel, Diff, DiffModel, EditTeamDiff,
    EditTeamDiffModel, MemberDiff, RepoCollaborator, RepoCollaboratorModel, RepoDiff,
    RepoDiffModel, RepoPermissionAssignmentDiff, RepoPermissionAssignmentDiffModel,
    RepoPermissionDiff, TeamDiff, TeamDiffModel, UpdateRepoDiff, UpdateRepoDiffModel,
};
use crate::api::{BranchProtectionModel, TeamRole};
use crate::text::Text;
use crate::write::{
    BranchProtectionOp, BranchProtectionOpModel, RepoId, RepoIdModel, WriteOp, WriteOpModel,
};
use vstd::prelude::*;

verus! {

/// The operation that carries out the diff of one membership, if one is needed.
pub open spec fn member_op(diff: MemberDiff, org: Text, team: Text, member: Text) -> Option<
    WriteOpModel,
> {
    match diff {
        MemberDiff::Create(role) => Some(WriteOpModel::SetTeamMembership { org, team, member, role }),
        MemberDiff::ChangeRole((_, role)) => Some(
            WriteOpModel::SetTeamMembership { org, team, member, role },
        ),
        MemberDiff::Delete => Some(WriteOpModel::RemoveTeamMembership { org, team, member }),
        MemberDiff::Noop => None,
    }
}

/// The operations that carry out the diffs of the memberships of a team, in order.
pub open spec fn member_ops(org: Text, team: Text, diffs: Seq<(Text, MemberDiff)>) -> Seq<
    WriteOpModel,
>
    decreases diffs.len(),
{
    if diffs.len() == 0 {
        Seq::empty()
    } else {
        match member_op(diffs.last().1, org, team, diffs.last().0) {
            Some(op) => member_ops(org, team, diffs.drop_last()).push(op),
            None => member_ops(org, team, diffs.drop_last()),
        }
    }
}

impl MemberDiff {
    /// The operation that carries out the diff for `member` of `team` in `org`.
    pub fn apply(&self, org: &str, team: &str, member: &str) -> (op: Option<WriteOp>)
        ensures
            op.deep_view() == member_op(*self, org@, team@, member@),
    {
        match self {
            MemberDiff::Create(role) => Some(
                WriteOp::SetTeamMembership {
                    org: org.to_owned(),
                    team: team.to_owned(),
                    member: member.to_owned(),
                    role: *role,
                },
            ),
            MemberDiff::ChangeRole((_, role)) => Some(
                WriteOp::SetTeamMembership {
                    org: org.to_owned(),
                    team: team.to_owned(),
                    member: member.to_owned(),
                    role: *role,
                },
            ),
            MemberDiff::Delete => Some(
                WriteOp::RemoveTeamMembership {
                    org: org.to_owned(),
                    team: team.to_owned(),
                    member: member.to_owned(),
                },
            ),
            MemberDiff::Noop => None,
        }
    }
}

/// Appends the operations for the memberships `diffs` of `team` to `ops`.
fn apply_members(ops: &mut Vec<WriteOp>, org: &str, team: &str, diffs: &Vec<(String, MemberDiff)>)
    ensures
        final(ops).deep_view() == old(ops).deep_view() + member_ops(org@, team@, diffs.deep_view()),
{
    let ghost start = ops.deep_view();
    let ghost all = diffs.deep_view();
    let mut i: usize = 0;
    while i < diffs.len()
        invariant
            i <= diffs.len(),
            all == diffs.deep_view(),
            ops.deep_view() =~= start + member_ops(org@, team@, all.take(i as int)),
        decreases diffs.len() - i,
    {
        proof {
            assert(all.take(i + 1).drop_last() =~= all.take(i as int));
        }
        match diffs[i].1.apply(org, team, diffs[i].0.as_str()) {
            Some(op) => {
                let ghost before = ops.deep_view();
                ops.push(op);
                assert(ops.deep_view() =~= before.push(op.deep_view()));
            },
            None => {},
        }
        i += 1;
    }
    assert(all.take(i as int) =~= all);
}

/// The memberships to set up in a new team, as diffs.
pub open spec fn initial_members(members: Seq<(Text, TeamRole)>) -> Seq<(Text, MemberDiff)> {
    Seq::new(members.len(), |i: int| (members[i].0, MemberDiff::Create(members[i].1)))
}

impl CreateTeamDiffModel {
    /// One call that creates the team, then one for each member.
    pub open spec fn ops(self) -> Seq<WriteOpModel> {
        seq![
            WriteOpModel::CreateTeam {
                org: self.org,
                name: self.name,
                description: self.description,
                privacy: self.privacy,
            },
        ] + member_ops(self.org, self.name, initial_members(self.members))
    }
}

impl CreateTeamDiff {
    /// The operations that create the team and set up its members.
    pub fn apply(&self) -> (ops: Vec<WriteOp>)
        ensures
            ops.deep_view() == self.deep_view().ops(),
    {
        let mut ops: Vec<WriteOp> = Vec::new();
        let create = WriteOp::CreateTeam {
            org: self.org.clone(),
            name: self.name.clone(),
            description: self.description.clone(),
            privacy: self.privacy,
        };
        ops.push(create);
        assert(ops.deep_view() =~= seq![create.deep_view()]);
        let ghost model = self.deep_view();
        let ghost wanted = initial_members(model.members);
        let mut i: usize = 0;
        while i < self.members.len()
            invariant
                i <= self.members.len(),
                model == self.deep_view(),
                wanted == initial_members(model.members),
                ops.deep_view() =~= seq![create.deep_view()] + member_ops(
                    model.org,
                    model.name,
                    wanted.take(i as int),
                ),
            decreases self.members.len() - i,
        {
            proof {
                assert(wanted.take(i + 1).drop_last() =~= wanted.take(i as int));
                assert(wanted[i as int] == (
                    self.members[i as int].0@,
                    MemberDiff::Create(self.members[i as int].1),
                ));
            }
            let diff = MemberDiff::Create(self.members[i].1);
            match diff.apply(self.org.as_str(), self.name.as_str(), self.members[i].0.as_str()) {
                Some(op) => {
                    let ghost before = ops.deep_view();
                    ops.push(op);
                    assert(ops.deep_view() =~= before.push(op.deep_view()));
                },
                None => {},
            }
            i += 1;
        }
        assert(wanted.take(i as int) =~= wanted);
        ops
    }
}

impl EditTeamDiffModel {
    /// Whether the name, the description or the privacy of the team changes.
    pub open spec fn changes_meta(self) -> bool {
        self.name_diff is Some || self.description_diff is Some || self.privacy_diff is Some
    }

    /// The call that changes the name, the description and the privacy.
    pub open spec fn meta_op(self) -> WriteOpModel {
        WriteOpModel::EditTeam {
            org: self.org,
            name: self.name,
            new_name: self.name_diff,
            new_description: match self.description_diff {
                Some((_, new)) => Some(new),
                None => None,
            },
            new_privacy: match self.privacy_diff {
                Some((_, new)) => Some(new),
                None => None,
            },
        }
    }

    /// At most one call that edits the team itself, then the calls for its members.
    pub open spec fn ops(self) -> Seq<WriteOpModel> {
        (if self.changes_meta() {
            seq![self.meta_op()]
        } else {
            Seq::empty()
        }) + member_ops(self.org, self.name, self.member_diffs)
    }
}

impl EditTeamDiff {
    /// The operations that edit the team and its memberships.
    pub fn apply(&self) -> (ops: Vec<WriteOp>)
        ensures
            ops.deep_view() == self.deep_view().ops(),
    {
        let mut ops: Vec<WriteOp> = Vec::new();
        if self.name_diff.is_some() || self.description_diff.is_some()
            || self.privacy_diff.is_some() {
            let edit = WriteOp::EditTeam {
                org: self.org.clone(),
                name: self.name.clone(),
                new_name: self.name_diff.clone(),
                new_description: match &self.description_diff {
                    Some((_, new)) => Some(new.clone()),
                    None => None,
                },
                new_privacy: match self.privacy_diff {
                    Some((_, new)) => Some(new),
                    None => None,
                },
            };
            ops.push(edit);
            assert(ops.deep_view() =~= seq![edit.deep_view()]);
        } else {
            assert(ops.deep_view() =~= Seq::empty());
        }
        apply_members(&mut ops, self.org.as_str(), self.name.as_str(), &self.member_diffs);
        ops
    }
}

impl DeleteTeamDiffModel {
    /// The call that deletes the team. The provider finds it by its slug.
    pub open spec fn op(self) -> WriteOpModel {
        WriteOpModel::DeleteTeam { org: self.org, slug: self.slug }
    }
}

impl DeleteTeamDiff {
    /// The operation that deletes the team.
    pub fn apply(&self) -> (op: WriteOp)
        ensures
            op.deep_view() == self.deep_view().op(),
    {
        WriteOp::DeleteTeam { org: self.org.clone(), slug: self.slug.clone() }
    }
}

impl TeamDiffModel {
    /// The operations that carry out the diff.
    pub open spec fn ops(self) -> Seq<WriteOpModel> {
        match self {
            TeamDiffModel::Create(create) => create.ops(),
            TeamDiffModel::Edit(edit) => edit.ops(),
            TeamDiffModel::Delete(delete) => seq![delete.op()],
        }
    }
}

impl TeamDiff {
    /// The operations that carry out the diff.
    pub fn apply(&self) -> (ops: Vec<WriteOp>)
        ensures
            ops.deep_view() == self.deep_view().ops(),
    {
        match self {
            TeamDiff::Create(create) => create.apply(),
            TeamDiff::Edit(edit) => edit.apply(),
            TeamDiff::Delete(delete) => {
                let mut ops: Vec<WriteOp> = Vec::new();
                let op = delete.apply();
                ops.push(op);
                assert(ops.deep_view() =~= seq![op.deep_view()]);
                ops
            },
        }
    }
}

impl RepoPermissionAssignmentDiffModel {
    /// The call that carries out the diff on the repository `repo` of `org`:
    /// access is granted or changed by one call, taken away by another.
    pub open spec fn op(self, org: Text, repo: Text) -> WriteOpModel {
        match self.diff {
            RepoPermissionDiff::Create(permission) | RepoPermissionDiff::Update(_, permission) => {
                match self.collaborator {
                    RepoCollaboratorModel::Team(team) => WriteOpModel::UpdateTeamRepoPermissions {
                        org,
                        repo,
                        team,
                        permission,
                    },
                    RepoCollaboratorModel::User(user) => WriteOpModel::UpdateUserRepoPermissions {
                        org,
                        repo,
                        user,
                        permission,
                    },
                }
            },
            RepoPermissionDiff::Delete(_) => match self.collaborator {
                RepoCollaboratorModel::Team(team) => WriteOpModel::RemoveTeamFromRepo {
                    org,
                    repo,
                    team,
                },
                RepoCollaboratorModel::User(user) => WriteOpModel::RemoveCollaboratorFromRepo {
                    org,
                    repo,
                    user,
                },
            },
        }
    }
}

impl RepoPermissionAssignmentDiff {
    /// The operation that carries out the diff on the repository `repo_name` of `org`.
    pub fn apply(&self, org: &str, repo_name: &str) -> (op: WriteOp)
        ensures
            op.deep_view() == self.deep_view().op(org@, repo_name@),
    {
        match self.diff {
            RepoPermissionDiff::Create(permission) | RepoPermissionDiff::Update(_, permission) => {
                match &self.collaborator {
                    RepoCollaborator::Team(team_name) => WriteOp::UpdateTeamRepoPermissions {
                        org: org.to_owned(),
                        repo: repo_name.to_owned(),
                        team: team_name.clone(),
                        permission,
                    },
                    RepoCollaborator::User(user_name) => WriteOp::UpdateUserRepoPermissions {
                        org: org.to_owned(),
                        repo: repo_name.to_owned(),
                        user: user_name.clone(),
                        permission,
                    },
                }
            },
            RepoPermissionDiff::Delete(_) => match &self.collaborator {
                RepoCollaborator::Team(team_name) => WriteOp::RemoveTeamFromRepo {
                    org: org.to_owned(),
                    repo: repo_name.to_owned(),
                    team: team_name.clone(),
                },
                RepoCollaborator::User(user_name) => WriteOp::RemoveCollaboratorFromRepo {
                    org: org.to_owned(),
                    repo: repo_name.to_owned(),
                    user: user_name.clone(),
                },
            },
        }
    }
}

impl BranchProtectionDiffModel {
    /// The call that carries out the diff on the repository `repo` of
    /// `org`: a creation names the repository, a change the database id of
    /// the protection, a deletion the organization, the repository and the
    /// database id.
    pub open spec fn op(self, org: Text, repo: Text, repo_id: RepoIdModel) -> WriteOpModel {
        match self.operation {
            BranchProtectionDiffOperationModel::Create(bp) => WriteOpModel::UpsertBranchProtection {
                op: BranchProtectionOpModel::CreateForRepo(repo_id),
                pattern: self.pattern,
                branch_protection: bp,
                org,
            },
            BranchProtectionDiffOperationModel::Update(id, _, bp) => {
                WriteOpModel::UpsertBranchProtection {
                    op: BranchProtectionOpModel::UpdateBranchProtection(id),
                    pattern: self.pattern,
                    branch_protection: bp,
                    org,
                }
            },
            BranchProtectionDiffOperationModel::Delete(id) => WriteOpModel::DeleteBranchProtection {
                org,
                repo,
                id,
            },
        }
    }
}

impl BranchProtectionDiff {
    /// The operation that carries out the diff on the repository `repo_name` of `org`.
    pub fn apply(&self, org: &str, repo_name: &str, repo_id: &RepoId) -> (op: WriteOp)
        ensures
            op.deep_view() == self.deep_view().op(org@, repo_name@, repo_id.deep_view()),
    {
        match &self.operation {
            BranchProtectionDiffOperation::Create(bp) => WriteOp::UpsertBranchProtection {
                op: BranchProtectionOp::CreateForRepo(clone_repo_id(repo_id)),
                pattern: self.pattern.clone(),
                branch_protection: bp.clone(),
                org: org.to_owned(),
            },
            BranchProtectionDiffOperation::Update(id, _, bp) => WriteOp::UpsertBranchProtection {
                op: BranchProtectionOp::UpdateBranchProtection(id.clone()),
                pattern: self.pattern.clone(),
                branch_protection: bp.clone(),
                org: org.to_owned(),
            },
            BranchProtectionDiffOperation::Delete(id) => WriteOp::DeleteBranchProtection {
                org: org.to_owned(),
                repo: repo_name.to_owned(),
                id: id.clone(),
            },
        }
    }
}

fn clone_repo_id(repo_id: &RepoId) -> (copy: RepoId)
    ensures
        copy.deep_view() == repo_id.deep_view(),
{
    match repo_id {
        RepoId::NodeId(id) => RepoId::NodeId(id.clone()),
        RepoId::CreatedByRun { org, name } => RepoId::CreatedByRun {
            org: org.clone(),
            name: name.clone(),
        },
    }
}

/// The calls that carry out permission diffs on one repository, in order.
pub open spec fn permission_ops(
    org: Text,
    repo: Text,
    diffs: Seq<RepoPermissionAssignmentDiffModel>,
) -> Seq<WriteOpModel> {
    Seq::new(diffs.len(), |i: int| diffs[i].op(org, repo))
}

/// The calls that carry out branch protection diffs on one repository, in order.
pub open spec fn protection_ops(
    org: Text,
    repo: Text,
    repo_id: RepoIdModel,
    diffs: Seq<BranchProtectionDiffModel>,
) -> Seq<WriteOpModel> {
    Seq::new(diffs.len(), |i: int| diffs[i].op(org, repo, repo_id))
}

/// The calls that create the given protections on a new repository, in order.
pub open spec fn initial_protection_ops(
    org: Text,
    repo: Text,
    protections: Seq<(Text, BranchProtectionModel)>,
) -> Seq<WriteOpModel> {
    Seq::new(
        protections.len(),
        |i: int|
            BranchProtectionDiffModel {
                pattern: protections[i].0,
                operation: BranchProtectionDiffOperationModel::Create(protections[i].1),
            }.op(org, repo, RepoIdModel::CreatedByRun { org, name: repo }),
    )
}

/// Appends the operations for the permission diffs of one repository to `ops`.
fn apply_permissions(
    ops: &mut Vec<WriteOp>,
    org: &str,
    repo: &str,
    diffs: &Vec<RepoPermissionAssignmentDiff>,
)
    ensures
        final(ops).deep_view() == old(ops).deep_view() + permission_ops(
            org@,
            repo@,
            diffs.deep_view(),
        ),
{
    let ghost start = ops.deep_view();
    let ghost wanted = permission_ops(org@, repo@, diffs.deep_view());
    let mut i: usize = 0;
    while i < diffs.len()
        invariant
            i <= diffs.len(),
            wanted == permission_ops(org@, repo@, diffs.deep_view()),
            ops.deep_view() =~= start + wanted.take(i as int),
        decreases diffs.len() - i,
    {
        let ghost before = ops.deep_view();
        let op = diffs[i].apply(org, repo);
        assert(op.deep_view() == wanted[i as int]);
        ops.push(op);
        assert(ops.deep_view() =~= before.push(op.deep_view()));
        i += 1;
    }
    assert(wanted.take(i as int) =~= wanted);
}

impl CreateRepoDiffModel {
    /// One call that creates the repository, then the calls that grant
    /// access to it, then the calls that protect its branches.
    pub open spec fn ops(self) -> Seq<WriteOpModel> {
        seq![WriteOpModel::CreateRepo { org: self.org, name: self.name, settings: self.settings }]
            + permission_ops(self.org, self.name, self.permissions) + initial_protection_ops(
            self.org,
            self.name,
            self.branch_protections,
        )
    }
}

impl CreateRepoDiff {
    /// The operations that create the repository and set it up. The branch
    /// protections name the repository as the one that the first operation creates.
    pub fn apply(&self) -> (ops: Vec<WriteOp>)
        ensures
            ops.deep_view() == self.deep_view().ops(),
    {
        let mut ops: Vec<WriteOp> = Vec::new();
        let create = WriteOp::CreateRepo {
            org: self.org.clone(),
            name: self.name.clone(),
            settings: self.settings.clone(),
        };
        ops.push(create);
        assert(ops.deep_view() =~= seq![create.deep_view()]);
        apply_permissions(&mut ops, self.org.as_str(), self.name.as_str(), &self.permissions);
        let ghost start = ops.deep_view();
        let ghost model = self.deep_view();
        let ghost wanted = initial_protection_ops(model.org, model.name, model.branch_protections);
        let repo_id = RepoId::CreatedByRun { org: self.org.clone(), name: self.name.clone() };
        let mut i: usize = 0;
        while i < self.branch_protections.len()
            invariant
                i <= self.branch_protections.len(),
                model == self.deep_view(),
                repo_id.deep_view() == (RepoIdModel::CreatedByRun {
                    org: model.org,
                    name: model.name,
                }),
                wanted == initial_protection_ops(model.org, model.name, model.branch_protections),
                ops.deep_view() =~= start + wanted.take(i as int),
            decreases self.branch_protections.len() - i,
        {
            let ghost before = ops.deep_view();
            let diff = BranchProtectionDiff {
                pattern: self.branch_protections[i].0.clone(),
                operation: BranchProtectionDiffOperation::Create(
                    self.branch_protections[i].1.clone(),
                ),
            };
            let op = diff.apply(self.org.as_str(), self.name.as_str(), &repo_id);
            assert(op.deep_view() == wanted[i as int]);
            ops.push(op);
            assert(ops.deep_view() =~= before.push(op.deep_view()));
            i += 1;
        }
        assert(wanted.take(i as int) =~= wanted);
        ops
    }
}

impl UpdateRepoDiffModel {
    /// Whether the update takes the repository out of the archive.
    pub open spec fn is_unarchive(self) -> bool {
        self.settings_diff.0.archived && !self.settings_diff.1.archived
    }

    /// The call that writes the new settings.
    pub open spec fn settings_op(self) -> WriteOpModel {
        WriteOpModel::EditRepo { org: self.org, name: self.name, settings: self.settings_diff.1 }
    }

    /// Nothing for a frozen repository. Otherwise the permissions, then the
    /// branch protections; the settings are written first where the
    /// repository leaves the archive, and last, if they differ, where it does not.
    pub open spec fn ops(self) -> Seq<WriteOpModel> {
        if !self.can_be_modified() {
            Seq::empty()
        } else {
            (if self.is_unarchive() {
                seq![self.settings_op()]
            } else {
                Seq::empty()
            }) + permission_ops(self.org, self.name, self.permission_diffs) + protection_ops(
                self.org,
                self.name,
                RepoIdModel::NodeId(self.repo_node_id),
                self.branch_protection_diffs,
            ) + (if !self.is_unarchive() && self.settings_diff.0 != self.settings_diff.1 {
                seq![self.settings_op()]
            } else {
                Seq::empty()
            })
        }
    }
}

impl UpdateRepoDiff {
    /// The operations that update the repository.
    pub fn apply(&self) -> (ops: Vec<WriteOp>)
        ensures
            ops.deep_view() == self.deep_view().ops(),
    {
        let mut ops: Vec<WriteOp> = Vec::new();
        if !self.can_be_modified() {
            assert(ops.deep_view() =~= Seq::empty());
            return ops;
        }
        let ghost model = self.deep_view();
        // Leaving the archive comes first: nothing of an archived
        // repository can change. Entering it comes last for the same reason.
        let is_unarchive = self.settings_diff.0.archived && !self.settings_diff.1.archived;
        if is_unarchive {
            let edit = WriteOp::EditRepo {
                org: self.org.clone(),
                name: self.name.clone(),
                settings: self.settings_diff.1.clone(),
            };
            ops.push(edit);
            assert(ops.deep_view() =~= seq![model.settings_op()]);
        } else {
            assert(ops.deep_view() =~= Seq::empty());
        }
        apply_permissions(&mut ops, self.org.as_str(), self.name.as_str(), &self.permission_diffs);
        let ghost start = ops.deep_view();
        let repo_id = RepoId::NodeId(self.repo_node_id.clone());
        let ghost wanted = protection_ops(
            model.org,
            model.name,
            repo_id.deep_view(),
            model.branch_protection_diffs,
        );
        let mut i: usize = 0;
        while i < self.branch_protection_diffs.len()
            invariant
                i <= self.branch_protection_diffs.len(),
                model == self.deep_view(),
                wanted == protection_ops(
                    model.org,
                    model.name,
                    repo_id.deep_view(),
                    model.branch_protection_diffs,
                ),
                ops.deep_view() =~= start + wanted.take(i as int),
            decreases self.branch_protection_diffs.len() - i,
        {
            let ghost before = ops.deep_view();
            let op = self.branch_protection_diffs[i].apply(
                self.org.as_str(),
                self.name.as_str(),
                &repo_id,
            );
            assert(op.deep_view() == wanted[i as int]);
            ops.push(op);
            assert(ops.deep_view() =~= before.push(op.deep_view()));
            i += 1;
        }
        assert(wanted.take(i as int) =~= wanted);
        if !is_unarchive && self.settings_diff.0 != self.settings_diff.1 {
            let ghost before = ops.deep_view();
            let edit = WriteOp::EditRepo {
                org: self.org.clone(),
                name: self.name.clone(),
                settings: self.settings_diff.1.clone(),
            };
            ops.push(edit);
            assert(ops.deep_view() =~= before + seq![model.settings_op()]);
        } else {
            assert(ops.deep_view() =~= ops.deep_view() + Seq::empty());
        }
        ops
    }
}

impl RepoDiffModel {
    /// The operations that carry out the diff.
    pub open spec fn ops(self) -> Seq<WriteOpModel> {
        match self {
            RepoDiffModel::Create(create) => create.ops(),
            RepoDiffModel::Update(update) => update.ops(),
        }
    }
}

impl RepoDiff {
    /// The operations that carry out the diff.
    pub fn apply(&self) -> (ops: Vec<WriteOp>)
        ensures
            ops.deep_view() == self.deep_view().ops(),
    {
        match self {
            RepoDiff::Create(create) => create.apply(),
            RepoDiff::Update(update) => update.apply(),
        }
    }
}

/// The operations of team diffs, diff after diff.
pub open spec fn team_diff_ops(diffs: Seq<TeamDiffModel>) -> Seq<WriteOpModel>
    decreases diffs.len(),
{
    if diffs.len() == 0 {
        Seq::empty()
    } else {
        team_diff_ops(diffs.drop_last()) + diffs.last().ops()
    }
}

/// The operations of repository diffs, diff after diff.
pub open spec fn repo_diff_ops(diffs: Seq<RepoDiffModel>) -> Seq<WriteOpModel>
    decreases diffs.len(),
{
    if diffs.len() == 0 {
        Seq::empty()
    } else {
        repo_diff_ops(diffs.drop_last()) + diffs.last().ops()
    }
}

impl DiffModel {
    /// All operations of the team diffs, then all operations of the
    /// repository diffs: a team that a repository grants access to exists
    /// by the time the access is granted.
    pub open spec fn ops(self) -> Seq<WriteOpModel> {
        team_diff_ops(self.team_diffs) + repo_diff_ops(self.repo_diffs)
    }
}

impl Diff {
    /// The operations that carry out the whole diff, in the order in which
    /// they have to be issued.
    pub fn apply(&self) -> (ops: Vec<WriteOp>)
        ensures
            ops.deep_view() == self.deep_view().ops(),
    {
        let ghost teams = self.team_diffs.deep_view();
        let ghost repos = self.repo_diffs.deep_view();
        let mut ops: Vec<WriteOp> = Vec::new();
        let mut i: usize = 0;
        while i < self.team_diffs.len()
            invariant
                i <= self.team_diffs.len(),
                teams == self.team_diffs.deep_view(),
                ops.deep_view() =~= team_diff_ops(teams.take(i as int)),
            decreases self.team_diffs.len() - i,
        {
            proof {
                assert(teams.take(i + 1).drop_last() =~= teams.take(i as int));
            }
            let ghost before = ops.deep_view();
            let mut more = self.team_diffs[i].apply();
            let ghost added = more.deep_view();
            ops.append(&mut more);
            assert(ops.deep_view() =~= before + added);
            i += 1;
        }
        assert(teams.take(i as int) =~= teams);
        let ghost start = ops.deep_view();
        let mut j: usize = 0;
        while j < self.repo_diffs.len()
            invariant
                j <= self.repo_diffs.len(),
                repos == self.repo_diffs.deep_view(),
                ops.deep_view() =~= start + repo_diff_ops(repos.take(j as int)),
            decreases self.repo_diffs.len() - j,
        {
            proof {
                assert(repos.take(j + 1).drop_last() =~= repos.take(j as int));
            }
            let ghost before = ops.deep_view();
            let mut more = self.repo_diffs[j].apply();
            let ghost added = more.deep_view();
            ops.append(&mut more);
            assert(ops.deep_view() =~= before + added);
            j += 1;
        }
        assert(repos.take(j as int) =~= repos);
        ops
    }
}

} // verus!
