//! Values exchanged with the provider: what it reports of teams, repositories
//! and branch protections, and the settings it accepts.

use crate::text::{same_texts, Text};
use vstd::prelude::*;
use vstd::std_specs::cmp::PartialEqSpecImpl;

verus! {

/// Level of access to a repository. The levels are compared for equality only.
#[derive(Clone, Copy, Debug, PartialEq, Eq, Structural)]
pub enum RepoPermission {
    Write,
    Admin,
    Maintain,
    Triage,
}

impl DeepView for RepoPermission {
    type V = RepoPermission;

    open spec fn deep_view(&self) -> RepoPermission {
        *self
    }
}

/// Who can see a team.
#[derive(Clone, Copy, Debug, PartialEq, Eq, Structural)]
pub enum TeamPrivacy {
    Closed,
    Secret,
}

impl DeepView for TeamPrivacy {
    type V = TeamPrivacy;

    open spec fn deep_view(&self) -> TeamPrivacy {
        *self
    }
}

/// The role of a member within a team.
#[derive(Clone, Copy, Debug, PartialEq, Eq, Structural)]
pub enum TeamRole {
    Member,
    Maintainer,
}

impl DeepView for TeamRole {
    type V = TeamRole;

    open spec fn deep_view(&self) -> TeamRole {
        *self
    }
}

/// A team as the provider reports it.
#[derive(Clone, Debug, PartialEq, Eq)]
pub struct Team {
    pub name: String,
    pub slug: String,
    pub description: Option<String>,
    pub privacy: TeamPrivacy,
}

pub struct TeamModel {
    pub name: Text,
    pub slug: Text,
    pub description: Option<Text>,
    pub privacy: TeamPrivacy,
}

impl DeepView for Team {
    type V = TeamModel;

    open spec fn deep_view(&self) -> TeamModel {
        TeamModel {
            name: self.name@,
            slug: self.slug@,
            description: self.description.deep_view(),
            privacy: self.privacy,
        }
    }
}

/// A membership of a team as the provider reports it.
#[derive(Clone, Debug, PartialEq, Eq)]
pub struct TeamMember {
    pub username: String,
    pub role: TeamRole,
}

pub struct TeamMemberModel {
    pub username: Text,
    pub role: TeamRole,
}

impl DeepView for TeamMember {
    type V = TeamMemberModel;

    open spec fn deep_view(&self) -> TeamMemberModel {
        TeamMemberModel { username: self.username@, role: self.role }
    }
}

/// A repository as the provider reports it.
#[derive(Clone, Debug, PartialEq, Eq)]
pub struct Repo {
    pub node_id: String,
    pub name: String,
    pub org: String,
    pub description: String,
    pub homepage: Option<String>,
    pub archived: bool,
    pub allow_auto_merge: Option<bool>,
}

pub struct RepoModel {
    pub node_id: Text,
    pub name: Text,
    pub org: Text,
    pub description: Text,
    pub homepage: Option<Text>,
    pub archived: bool,
    pub allow_auto_merge: Option<bool>,
}

impl DeepView for Repo {
    type V = RepoModel;

    open spec fn deep_view(&self) -> RepoModel {
        RepoModel {
            node_id: self.node_id@,
            name: self.name@,
            org: self.org@,
            description: self.description@,
            homepage: self.homepage.deep_view(),
            archived: self.archived,
            allow_auto_merge: self.allow_auto_merge,
        }
    }
}

/// The access that a team has to a repository.
#[derive(Clone, Debug, PartialEq, Eq)]
pub struct RepoTeam {
    pub name: String,
    pub permission: RepoPermission,
}

pub struct RepoTeamModel {
    pub name: Text,
    pub permission: RepoPermission,
}

impl DeepView for RepoTeam {
    type V = RepoTeamModel;

    open spec fn deep_view(&self) -> RepoTeamModel {
        RepoTeamModel { name: self.name@, permission: self.permission }
    }
}

/// The access that a single user has to a repository.
#[derive(Clone, Debug, PartialEq, Eq)]
pub struct RepoUser {
    pub name: String,
    pub permission: RepoPermission,
}

pub struct RepoUserModel {
    pub name: Text,
    pub permission: RepoPermission,
}

impl DeepView for RepoUser {
    type V = RepoUserModel;

    open spec fn deep_view(&self) -> RepoUserModel {
        RepoUserModel { name: self.name@, permission: self.permission }
    }
}

/// The settings of a repository that are reconciled.
#[derive(Debug)]
pub struct RepoSettings {
    pub description: String,
    pub homepage: Option<String>,
    pub archived: bool,
    pub auto_merge_enabled: bool,
}

pub struct RepoSettingsModel {
    pub description: Text,
    pub homepage: Option<Text>,
    pub archived: bool,
    pub auto_merge_enabled: bool,
}

impl DeepView for RepoSettings {
    type V = RepoSettingsModel;

    open spec fn deep_view(&self) -> RepoSettingsModel {
        RepoSettingsModel {
            description: self.description@,
            homepage: self.homepage.deep_view(),
            archived: self.archived,
            auto_merge_enabled: self.auto_merge_enabled,
        }
    }
}

impl Clone for RepoSettings {
    fn clone(&self) -> (copy: Self)
        ensures
            copy.deep_view() == self.deep_view(),
    {
        RepoSettings {
            description: self.description.clone(),
            homepage: self.homepage.clone(),
            archived: self.archived,
            auto_merge_enabled: self.auto_merge_enabled,
        }
    }
}

impl PartialEq for RepoSettings {
    fn eq(&self, other: &Self) -> (same: bool) {
        let homepage = match (&self.homepage, &other.homepage) {
            (Some(a), Some(b)) => *a == *b,
            (None, None) => true,
            _ => false,
        };
        self.description == other.description && homepage && self.archived == other.archived
            && self.auto_merge_enabled == other.auto_merge_enabled
    }
}

impl PartialEqSpecImpl for RepoSettings {
    open spec fn obeys_eq_spec() -> bool {
        true
    }

    open spec fn eq_spec(&self, other: &Self) -> bool {
        self.deep_view() == other.deep_view()
    }
}

impl Eq for RepoSettings {

}

/// The login of an organization.
#[derive(Debug)]
pub struct Login {
    pub login: String,
}

pub struct LoginModel {
    pub login: Text,
}

impl DeepView for Login {
    type V = LoginModel;

    open spec fn deep_view(&self) -> LoginModel {
        LoginModel { login: self.login@ }
    }
}

/// A user who may push to a protected branch.
#[derive(Debug)]
pub struct UserPushAllowanceActor {
    pub login: String,
}

pub struct UserPushAllowanceActorModel {
    pub login: Text,
}

impl DeepView for UserPushAllowanceActor {
    type V = UserPushAllowanceActorModel;

    open spec fn deep_view(&self) -> UserPushAllowanceActorModel {
        UserPushAllowanceActorModel { login: self.login@ }
    }
}

/// A team whose members may push to a protected branch.
#[derive(Debug)]
pub struct TeamPushAllowanceActor {
    pub organization: Login,
    pub name: String,
}

pub struct TeamPushAllowanceActorModel {
    pub organization: LoginModel,
    pub name: Text,
}

impl DeepView for TeamPushAllowanceActor {
    type V = TeamPushAllowanceActorModel;

    open spec fn deep_view(&self) -> TeamPushAllowanceActorModel {
        TeamPushAllowanceActorModel {
            organization: self.organization.deep_view(),
            name: self.name@,
        }
    }
}

/// An app installed on the provider that may push to a protected branch.
/// Apps are never declared: the provider alone knows of them.
#[derive(Debug)]
pub struct AppPushAllowanceActor {
    pub name: String,
    pub id: String,
}

pub struct AppPushAllowanceActorModel {
    pub name: Text,
    pub id: Text,
}

impl DeepView for AppPushAllowanceActor {
    type V = AppPushAllowanceActorModel;

    open spec fn deep_view(&self) -> AppPushAllowanceActorModel {
        AppPushAllowanceActorModel { name: self.name@, id: self.id@ }
    }
}

/// Who may push to a protected branch.
#[derive(Debug)]
pub enum PushAllowanceActor {
    User(UserPushAllowanceActor),
    Team(TeamPushAllowanceActor),
    App(AppPushAllowanceActor),
}

pub enum PushAllowanceActorModel {
    User(UserPushAllowanceActorModel),
    Team(TeamPushAllowanceActorModel),
    App(AppPushAllowanceActorModel),
}

impl DeepView for PushAllowanceActor {
    type V = PushAllowanceActorModel;

    open spec fn deep_view(&self) -> PushAllowanceActorModel {
        match self {
            PushAllowanceActor::User(u) => PushAllowanceActorModel::User(u.deep_view()),
            PushAllowanceActor::Team(t) => PushAllowanceActorModel::Team(t.deep_view()),
            PushAllowanceActor::App(a) => PushAllowanceActorModel::App(a.deep_view()),
        }
    }
}

impl Clone for PushAllowanceActor {
    fn clone(&self) -> (copy: Self)
        ensures
            copy.deep_view() == self.deep_view(),
    {
        match self {
            PushAllowanceActor::User(u) => PushAllowanceActor::User(
                UserPushAllowanceActor { login: u.login.clone() },
            ),
            PushAllowanceActor::Team(t) => PushAllowanceActor::Team(
                TeamPushAllowanceActor {
                    organization: Login { login: t.organization.login.clone() },
                    name: t.name.clone(),
                },
            ),
            PushAllowanceActor::App(a) => PushAllowanceActor::App(
                AppPushAllowanceActor { name: a.name.clone(), id: a.id.clone() },
            ),
        }
    }
}

impl PartialEq for PushAllowanceActor {
    fn eq(&self, other: &Self) -> (same: bool) {
        match (self, other) {
            (PushAllowanceActor::User(a), PushAllowanceActor::User(b)) => a.login == b.login,
            (PushAllowanceActor::Team(a), PushAllowanceActor::Team(b)) => {
                a.organization.login == b.organization.login && a.name == b.name
            },
            (PushAllowanceActor::App(a), PushAllowanceActor::App(b)) => {
                a.name == b.name && a.id == b.id
            },
            _ => false,
        }
    }
}

impl PartialEqSpecImpl for PushAllowanceActor {
    open spec fn obeys_eq_spec() -> bool {
        true
    }

    open spec fn eq_spec(&self, other: &Self) -> bool {
        self.deep_view() == other.deep_view()
    }
}

impl Eq for PushAllowanceActor {

}

impl PushAllowanceActor {
    /// Whether the actor is an app.
    pub fn is_app(&self) -> (app: bool)
        ensures
            app == (self.deep_view() is App),
    {
        match self {
            PushAllowanceActor::App(_) => true,
            _ => false,
        }
    }
}

/// Whether two lists hold the same actors in the same order.
pub fn same_actors(a: &Vec<PushAllowanceActor>, b: &Vec<PushAllowanceActor>) -> (same: bool)
    ensures
        same == (a.deep_view() == b.deep_view()),
{
    if a.len() != b.len() {
        assert(a.deep_view().len() != b.deep_view().len());
        return false;
    }
    let mut i: usize = 0;
    while i < a.len()
        invariant
            i <= a.len(),
            a.len() == b.len(),
            forall|j: int| 0 <= j < i ==> a.deep_view()[j] == b.deep_view()[j],
        decreases a.len() - i,
    {
        if a[i] != b[i] {
            assert(a.deep_view()[i as int] != b.deep_view()[i as int]);
            return false;
        }
        i += 1;
    }
    assert(a.deep_view() =~= b.deep_view());
    true
}

/// A branch protection in the form the provider keeps it.
#[derive(Debug)]
pub struct BranchProtection {
    pub pattern: String,
    pub is_admin_enforced: bool,
    pub dismisses_stale_reviews: bool,
    pub required_approving_review_count: u8,
    pub required_status_check_contexts: Vec<String>,
    pub push_allowances: Vec<PushAllowanceActor>,
    pub requires_approving_reviews: bool,
}

pub struct BranchProtectionModel {
    pub pattern: Text,
    pub is_admin_enforced: bool,
    pub dismisses_stale_reviews: bool,
    pub required_approving_review_count: u8,
    pub required_status_check_contexts: Seq<Text>,
    pub push_allowances: Seq<PushAllowanceActorModel>,
    pub requires_approving_reviews: bool,
}

impl DeepView for BranchProtection {
    type V = BranchProtectionModel;

    open spec fn deep_view(&self) -> BranchProtectionModel {
        BranchProtectionModel {
            pattern: self.pattern@,
            is_admin_enforced: self.is_admin_enforced,
            dismisses_stale_reviews: self.dismisses_stale_reviews,
            required_approving_review_count: self.required_approving_review_count,
            required_status_check_contexts: self.required_status_check_contexts.deep_view(),
            push_allowances: self.push_allowances.deep_view(),
            requires_approving_reviews: self.requires_approving_reviews,
        }
    }
}

impl Clone for BranchProtection {
    fn clone(&self) -> (copy: Self)
        ensures
            copy.deep_view() == self.deep_view(),
    {
        let checks = self.required_status_check_contexts.clone();
        let allowances = self.push_allowances.clone();
        assert(checks.deep_view() =~= self.required_status_check_contexts.deep_view());
        assert(allowances.deep_view() =~= self.push_allowances.deep_view());
        BranchProtection {
            pattern: self.pattern.clone(),
            is_admin_enforced: self.is_admin_enforced,
            dismisses_stale_reviews: self.dismisses_stale_reviews,
            required_approving_review_count: self.required_approving_review_count,
            required_status_check_contexts: checks,
            push_allowances: allowances,
            requires_approving_reviews: self.requires_approving_reviews,
        }
    }
}

impl PartialEq for BranchProtection {
    fn eq(&self, other: &Self) -> (same: bool) {
        self.pattern == other.pattern && self.is_admin_enforced == other.is_admin_enforced
            && self.dismisses_stale_reviews == other.dismisses_stale_reviews
            && self.required_approving_review_count == other.required_approving_review_count
            && same_texts(
            &self.required_status_check_contexts,
            &other.required_status_check_contexts,
        ) && same_actors(&self.push_allowances, &other.push_allowances)
            && self.requires_approving_reviews == other.requires_approving_reviews
    }
}

impl PartialEqSpecImpl for BranchProtection {
    open spec fn obeys_eq_spec() -> bool {
        true
    }

    open spec fn eq_spec(&self, other: &Self) -> bool {
        self.deep_view() == other.deep_view()
    }
}

impl Eq for BranchProtection {

}

} // verus!
