//! The diff renderer: a diff as text for a person to read. Only what
//! changes is written; a diff that changes nothing is written as nothing.

use crate::api::{
    BranchProtection, BranchProtectionModel, PushAllowanceActor, PushAllowanceActorModel,
    RepoPermission, TeamPrivacy, TeamRole, same_actors,
};
use crate::diff::{
    BranchProtectionDiff, BranchProtectionDiffModel, BranchProtectionDiffOperation,
    BranchProtectionDiffOperationModel, CreateRepoDiff, CreateRepoDiffModel, CreateTeamDiff,
    CreateTeamDiffModel, DeleteTeamDiff, DeleteTeamDiffModel, Diff, DiffModel, EditTeamDiff,
    EditTeamDiffModel, MemberDiff, RepoCollaborator, RepoCollaboratorModel, RepoDiff,
    RepoDiffModel, RepoPermissionAssignmentDiff, RepoPermissionAssignmentDiffModel,
    RepoPermissionDiff, TeamDiff, TeamDiffModel, UpdateRepoDiff, UpdateRepoDiffModel,
};
use crate::text::{
    bool_str, bool_text, bracketed, comma_separated, concat, debug_string, debug_text,
    decimal_string, decimal_text, put, same_texts, str_eq, Text,
};
use vstd::prelude::*;

verus! {

/// The name of a permission.
pub open spec fn permission_text(p: RepoPermission) -> Text {
    match p {
        RepoPermission::Write => "write"@,
        RepoPermission::Admin => "admin"@,
        RepoPermission::Maintain => "maintain"@,
        RepoPermission::Triage => "triage"@,
    }
}

/// The name of a role.
pub open spec fn role_text(role: TeamRole) -> Text {
    match role {
        TeamRole::Member => "member"@,
        TeamRole::Maintainer => "maintainer"@,
    }
}

/// The name of a privacy.
pub open spec fn privacy_text(privacy: TeamPrivacy) -> Text {
    match privacy {
        TeamPrivacy::Secret => "secret"@,
        TeamPrivacy::Closed => "closed"@,
    }
}

/// Names a permission.
pub fn permission_str(p: RepoPermission) -> (name: &'static str)
    ensures
        name@ == permission_text(p),
{
    match p {
        RepoPermission::Write => "write",
        RepoPermission::Admin => "admin",
        RepoPermission::Maintain => "maintain",
        RepoPermission::Triage => "triage",
    }
}

/// Names a role.
pub fn role_str(role: TeamRole) -> (name: &'static str)
    ensures
        name@ == role_text(role),
{
    match role {
        TeamRole::Member => "member",
        TeamRole::Maintainer => "maintainer",
    }
}

/// Names a privacy.
pub fn privacy_str(privacy: TeamPrivacy) -> (name: &'static str)
    ensures
        name@ == privacy_text(privacy),
{
    match privacy {
        TeamPrivacy::Secret => "secret",
        TeamPrivacy::Closed => "closed",
    }
}

/// An optional text in the debug format: `None`, or `Some` with the quoted
/// text in round brackets. `quoted` is the text in quotes where there is one.
pub open spec fn optional_text(quoted: Option<Text>) -> Text {
    match quoted {
        Some(q) => "Some("@ + q + ")"@,
        None => "None"@,
    }
}

/// Writes an optional value in the debug format from the value as it is to stand.
pub fn optional_quoted(quoted: Option<&str>) -> (out: String)
    ensures
        out@ == optional_text(quoted.deep_view()),
{
    match quoted {
        Some(q) => {
            let mut out = "Some(".to_owned();
            put(&mut out, q);
            put(&mut out, ")");
            out
        },
        None => "None".to_owned(),
    }
}

/// Writes an optional string in the debug format.
pub fn optional_string(value: &Option<String>) -> (out: String)
    ensures
        out@ == optional_text(
            match value.deep_view() {
                Some(s) => Some(debug_text(s)),
                None => None,
            },
        ),
{
    match value {
        Some(s) => {
            let quoted = debug_string(s.as_str());
            optional_quoted(Some(quoted.as_str()))
        },
        None => optional_quoted(None),
    }
}

/// The quoted forms of `items`.
pub open spec fn quoted_texts(items: Seq<Text>) -> Seq<Text> {
    Seq::new(items.len(), |i: int| debug_text(items[i]))
}

/// A user who may push, in the debug format, given the login in quotes.
pub open spec fn user_actor_text(login: Text) -> Text {
    "User(UserPushAllowanceActor { login: "@ + login + " })"@
}

/// A team that may push, in the debug format, given its strings in quotes.
pub open spec fn team_actor_text(org: Text, name: Text) -> Text {
    "Team(TeamPushAllowanceActor { organization: Login { login: "@ + org + " }, name: "@ + name
        + " })"@
}

/// An app that may push, in the debug format, given its strings in quotes.
pub open spec fn app_actor_text(name: Text, id: Text) -> Text {
    "App(AppPushAllowanceActor { name: "@ + name + ", id: "@ + id + " })"@
}

/// A push allowance in the debug format.
pub open spec fn actor_text(actor: PushAllowanceActorModel) -> Text {
    match actor {
        PushAllowanceActorModel::User(user) => user_actor_text(debug_text(user.login)),
        PushAllowanceActorModel::Team(team) => team_actor_text(
            debug_text(team.organization.login),
            debug_text(team.name),
        ),
        PushAllowanceActorModel::App(app) => app_actor_text(
            debug_text(app.name),
            debug_text(app.id),
        ),
    }
}

/// The debug forms of `actors`.
pub open spec fn actor_texts(actors: Seq<PushAllowanceActorModel>) -> Seq<Text> {
    Seq::new(actors.len(), |i: int| actor_text(actors[i]))
}

/// Writes a user who may push from the login in quotes.
pub fn user_actor_string(login: &str) -> (out: String)
    ensures
        out@ == user_actor_text(login@),
{
    let mut out = "User(UserPushAllowanceActor { login: ".to_owned();
    put(&mut out, login);
    put(&mut out, " })");
    out
}

/// Writes a team that may push from its strings in quotes.
pub fn team_actor_string(org: &str, name: &str) -> (out: String)
    ensures
        out@ == team_actor_text(org@, name@),
{
    let mut out = "Team(TeamPushAllowanceActor { organization: Login { login: ".to_owned();
    put(&mut out, org);
    put(&mut out, " }, name: ");
    put(&mut out, name);
    put(&mut out, " })");
    out
}

/// Writes an app that may push from its strings in quotes.
pub fn app_actor_string(name: &str, id: &str) -> (out: String)
    ensures
        out@ == app_actor_text(name@, id@),
{
    let mut out = "App(AppPushAllowanceActor { name: ".to_owned();
    put(&mut out, name);
    put(&mut out, ", id: ");
    put(&mut out, id);
    put(&mut out, " })");
    out
}

/// Writes a push allowance in the debug format.
pub fn actor_string(actor: &PushAllowanceActor) -> (out: String)
    ensures
        out@ == actor_text(actor.deep_view()),
{
    match actor {
        PushAllowanceActor::User(user) => user_actor_string(
            debug_string(user.login.as_str()).as_str(),
        ),
        PushAllowanceActor::Team(team) => team_actor_string(
            debug_string(team.organization.login.as_str()).as_str(),
            debug_string(team.name.as_str()).as_str(),
        ),
        PushAllowanceActor::App(app) => app_actor_string(
            debug_string(app.name.as_str()).as_str(),
            debug_string(app.id.as_str()).as_str(),
        ),
    }
}

/// Writes a list in brackets from its items as they are to stand.
pub fn bracketed_string(items: &Vec<String>) -> (out: String)
    ensures
        out@ == bracketed(items.deep_view()),
{
    let ghost all = items.deep_view();
    let mut out = "[".to_owned();
    let mut i: usize = 0;
    while i < items.len()
        invariant
            i <= items.len(),
            all == items.deep_view(),
            out@ == "["@ + comma_separated(all.take(i as int)),
        decreases items.len() - i,
    {
        proof {
            assert(all.take(i + 1).drop_last() =~= all.take(i as int));
            assert(all.take(i + 1).last() == items[i as int]@);
        }
        if i > 0 {
            put(&mut out, ", ");
        }
        put(&mut out, items[i].as_str());
        assert(out@ =~= "["@ + comma_separated(all.take(i + 1)));
        i += 1;
    }
    assert(all.take(i as int) =~= all);
    put(&mut out, "]");
    out
}

/// Writes a list of strings in the debug format.
pub fn texts_string(items: &Vec<String>) -> (out: String)
    ensures
        out@ == bracketed(quoted_texts(items.deep_view())),
{
    let ghost wanted = quoted_texts(items.deep_view());
    let mut quoted: Vec<String> = Vec::new();
    let mut i: usize = 0;
    while i < items.len()
        invariant
            i <= items.len(),
            wanted == quoted_texts(items.deep_view()),
            quoted.deep_view() =~= wanted.take(i as int),
        decreases items.len() - i,
    {
        let ghost before = quoted.deep_view();
        let item = debug_string(items[i].as_str());
        assert(item@ == wanted[i as int]);
        quoted.push(item);
        assert(quoted.deep_view() =~= before.push(item@));
        i += 1;
    }
    assert(wanted.take(i as int) =~= wanted);
    bracketed_string(&quoted)
}

/// Writes a list of push allowances in the debug format.
pub fn actors_string(actors: &Vec<PushAllowanceActor>) -> (out: String)
    ensures
        out@ == bracketed(actor_texts(actors.deep_view())),
{
    let ghost wanted = actor_texts(actors.deep_view());
    let mut items: Vec<String> = Vec::new();
    let mut i: usize = 0;
    while i < actors.len()
        invariant
            i <= actors.len(),
            wanted == actor_texts(actors.deep_view()),
            items.deep_view() =~= wanted.take(i as int),
        decreases actors.len() - i,
    {
        let ghost before = items.deep_view();
        let item = actor_string(&actors[i]);
        assert(item@ == wanted[i as int]);
        items.push(item);
        assert(items.deep_view() =~= before.push(item@));
        i += 1;
    }
    assert(wanted.take(i as int) =~= wanted);
    bracketed_string(&items)
}

/// One line of the log of a branch protection. Without a new value the old
/// one is shown; with one, the line shows both and only where they differ.
pub open spec fn field_log(label: Text, old_value: Text, new_value: Option<Text>, same: bool) -> Text {
    match new_value {
        Some(new_value) => if same {
            Seq::empty()
        } else {
            "        "@ + label + ": "@ + old_value + " => "@ + new_value + "\n"@
        },
        None => "        "@ + label + ": "@ + old_value + "\n"@,
    }
}

/// Writes one line of the log of a branch protection from the values as
/// they are to stand. `same` says whether the two values are equal.
pub fn log_field(label: &str, old_value: &str, new_value: Option<&str>, same: bool) -> (out: String)
    ensures
        out@ == field_log(label@, old_value@, new_value.deep_view(), same),
{
    let mut out = String::new();
    match new_value {
        Some(new_value) => {
            if !same {
                put(&mut out, "        ");
                put(&mut out, label);
                put(&mut out, ": ");
                put(&mut out, old_value);
                put(&mut out, " => ");
                put(&mut out, new_value);
                put(&mut out, "\n");
                assert(out@ =~= field_log(label@, old_value@, Some(new_value@), same));
            }
        },
        None => {
            put(&mut out, "        ");
            put(&mut out, label);
            put(&mut out, ": ");
            put(&mut out, old_value);
            put(&mut out, "\n");
            assert(out@ =~= field_log(label@, old_value@, None, same));
        },
    }
    out
}

/// The line of the log for whether new commits dismiss the approvals given so far.
pub open spec fn stale_reviews_log(
    current: BranchProtectionModel,
    new: Option<BranchProtectionModel>,
) -> Text {
    match new {
        Some(n) => field_log(
            "Dismiss Stale Reviews"@,
            bool_text(current.dismisses_stale_reviews),
            Some(bool_text(n.dismisses_stale_reviews)),
            n.dismisses_stale_reviews == current.dismisses_stale_reviews,
        ),
        None => field_log(
            "Dismiss Stale Reviews"@,
            bool_text(current.dismisses_stale_reviews),
            None,
            false,
        ),
    }
}

/// The line of the log for whether the protection binds administrators.
pub open spec fn admin_enforced_log(
    current: BranchProtectionModel,
    new: Option<BranchProtectionModel>,
) -> Text {
    match new {
        Some(n) => field_log(
            "Is admin enforced"@,
            bool_text(current.is_admin_enforced),
            Some(bool_text(n.is_admin_enforced)),
            n.is_admin_enforced == current.is_admin_enforced,
        ),
        None => field_log("Is admin enforced"@, bool_text(current.is_admin_enforced), None, false),
    }
}

/// The line of the log for the number of approvals.
pub open spec fn review_count_log(
    current: BranchProtectionModel,
    new: Option<BranchProtectionModel>,
) -> Text {
    match new {
        Some(n) => field_log(
            "Required Approving Review Count"@,
            decimal_text(current.required_approving_review_count as int),
            Some(decimal_text(n.required_approving_review_count as int)),
            n.required_approving_review_count == current.required_approving_review_count,
        ),
        None => field_log(
            "Required Approving Review Count"@,
            decimal_text(current.required_approving_review_count as int),
            None,
            false,
        ),
    }
}

/// The line of the log for whether changes need a pull request.
pub open spec fn requires_pr_log(
    current: BranchProtectionModel,
    new: Option<BranchProtectionModel>,
) -> Text {
    match new {
        Some(n) => field_log(
            "Requires PR"@,
            bool_text(current.requires_approving_reviews),
            Some(bool_text(n.requires_approving_reviews)),
            n.requires_approving_reviews == current.requires_approving_reviews,
        ),
        None => field_log(
            "Requires PR"@,
            bool_text(current.requires_approving_reviews),
            None,
            false,
        ),
    }
}

/// The line of the log for the checks that have to pass.
pub open spec fn checks_log(current: BranchProtectionModel, new: Option<BranchProtectionModel>) -> Text {
    match new {
        Some(n) => field_log(
            "Required Checks"@,
            bracketed(quoted_texts(current.required_status_check_contexts)),
            Some(bracketed(quoted_texts(n.required_status_check_contexts))),
            n.required_status_check_contexts == current.required_status_check_contexts,
        ),
        None => field_log(
            "Required Checks"@,
            bracketed(quoted_texts(current.required_status_check_contexts)),
            None,
            false,
        ),
    }
}

/// The line of the log for those who may push.
pub open spec fn allowances_log(
    current: BranchProtectionModel,
    new: Option<BranchProtectionModel>,
) -> Text {
    match new {
        Some(n) => field_log(
            "Allowances"@,
            bracketed(actor_texts(current.push_allowances)),
            Some(bracketed(actor_texts(n.push_allowances))),
            n.push_allowances == current.push_allowances,
        ),
        None => field_log(
            "Allowances"@,
            bracketed(actor_texts(current.push_allowances)),
            None,
            false,
        ),
    }
}

/// The log of a branch protection: its fields but the pattern, each as
/// `field_log` writes it, against the same field of `new` where there is one.
pub open spec fn protection_log(
    current: BranchProtectionModel,
    new: Option<BranchProtectionModel>,
) -> Text {
    stale_reviews_log(current, new) + admin_enforced_log(current, new) + review_count_log(
        current,
        new,
    ) + requires_pr_log(current, new) + checks_log(current, new) + allowances_log(current, new)
}

fn log_stale_reviews(current: &BranchProtection, new: Option<&BranchProtection>) -> (out: String)
    ensures
        out@ == stale_reviews_log(current.deep_view(), new.deep_view()),
{
    match new {
        Some(n) => log_field(
            "Dismiss Stale Reviews",
            bool_str(current.dismisses_stale_reviews),
            Some(bool_str(n.dismisses_stale_reviews)),
            n.dismisses_stale_reviews == current.dismisses_stale_reviews,
        ),
        None => log_field(
            "Dismiss Stale Reviews",
            bool_str(current.dismisses_stale_reviews),
            None,
            false,
        ),
    }
}

fn log_admin_enforced(current: &BranchProtection, new: Option<&BranchProtection>) -> (out: String)
    ensures
        out@ == admin_enforced_log(current.deep_view(), new.deep_view()),
{
    match new {
        Some(n) => log_field(
            "Is admin enforced",
            bool_str(current.is_admin_enforced),
            Some(bool_str(n.is_admin_enforced)),
            n.is_admin_enforced == current.is_admin_enforced,
        ),
        None => log_field("Is admin enforced", bool_str(current.is_admin_enforced), None, false),
    }
}

fn log_review_count(current: &BranchProtection, new: Option<&BranchProtection>) -> (out: String)
    ensures
        out@ == review_count_log(current.deep_view(), new.deep_view()),
{
    let count = decimal_string(current.required_approving_review_count);
    match new {
        Some(n) => {
            let new_count = decimal_string(n.required_approving_review_count);
            log_field(
                "Required Approving Review Count",
                count.as_str(),
                Some(new_count.as_str()),
                n.required_approving_review_count == current.required_approving_review_count,
            )
        },
        None => log_field("Required Approving Review Count", count.as_str(), None, false),
    }
}

fn log_requires_pr(current: &BranchProtection, new: Option<&BranchProtection>) -> (out: String)
    ensures
        out@ == requires_pr_log(current.deep_view(), new.deep_view()),
{
    match new {
        Some(n) => log_field(
            "Requires PR",
            bool_str(current.requires_approving_reviews),
            Some(bool_str(n.requires_approving_reviews)),
            n.requires_approving_reviews == current.requires_approving_reviews,
        ),
        None => log_field(
            "Requires PR",
            bool_str(current.requires_approving_reviews),
            None,
            false,
        ),
    }
}

fn log_checks(current: &BranchProtection, new: Option<&BranchProtection>) -> (out: String)
    ensures
        out@ == checks_log(current.deep_view(), new.deep_view()),
{
    let checks = texts_string(&current.required_status_check_contexts);
    match new {
        Some(n) => {
            let new_checks = texts_string(&n.required_status_check_contexts);
            log_field(
                "Required Checks",
                checks.as_str(),
                Some(new_checks.as_str()),
                same_texts(
                    &n.required_status_check_contexts,
                    &current.required_status_check_contexts,
                ),
            )
        },
        None => log_field("Required Checks", checks.as_str(), None, false),
    }
}

fn log_allowances(current: &BranchProtection, new: Option<&BranchProtection>) -> (out: String)
    ensures
        out@ == allowances_log(current.deep_view(), new.deep_view()),
{
    let allowances = actors_string(&current.push_allowances);
    match new {
        Some(n) => {
            let new_allowances = actors_string(&n.push_allowances);
            log_field(
                "Allowances",
                allowances.as_str(),
                Some(new_allowances.as_str()),
                same_actors(&n.push_allowances, &current.push_allowances),
            )
        },
        None => log_field("Allowances", allowances.as_str(), None, false),
    }
}

/// Appends the log of a branch protection to `result`.
pub fn log_branch_protection(
    current: &BranchProtection,
    new: Option<&BranchProtection>,
    result: &mut String,
)
    ensures
        final(result)@ == old(result)@ + protection_log(current.deep_view(), new.deep_view()),
{
    let ghost start = result@;
    let line1 = log_stale_reviews(current, new);
    let line2 = log_admin_enforced(current, new);
    let line3 = log_review_count(current, new);
    let line4 = log_requires_pr(current, new);
    let line5 = log_checks(current, new);
    let line6 = log_allowances(current, new);
    put(result, line1.as_str());
    put(result, line2.as_str());
    put(result, line3.as_str());
    put(result, line4.as_str());
    put(result, line5.as_str());
    put(result, line6.as_str());
    assert(result@ =~= start + (line1@ + line2@ + line3@ + line4@ + line5@ + line6@));
}

/// A collaborator as the renderer names it.
pub open spec fn collaborator_text(collaborator: RepoCollaboratorModel) -> Text {
    match collaborator {
        RepoCollaboratorModel::Team(name) => "team '"@ + name + "'"@,
        RepoCollaboratorModel::User(name) => "user '"@ + name + "'"@,
    }
}

fn collaborator_string(collaborator: &RepoCollaborator) -> (out: String)
    ensures
        out@ == collaborator_text(collaborator.deep_view()),
{
    match collaborator {
        RepoCollaborator::Team(name) => {
            let mut out = "team '".to_owned();
            put(&mut out, name.as_str());
            put(&mut out, "'");
            out
        },
        RepoCollaborator::User(name) => {
            let mut out = "user '".to_owned();
            put(&mut out, name.as_str());
            put(&mut out, "'");
            out
        },
    }
}

impl RepoPermissionAssignmentDiffModel {
    /// One line that says whose access is granted, changed or taken away.
    pub open spec fn rendered(self) -> Text {
        let name = collaborator_text(self.collaborator);
        match self.diff {
            RepoPermissionDiff::Create(p) => "    Giving "@ + name + " "@ + permission_text(p)
                + " permission\n"@,
            RepoPermissionDiff::Update(old_p, new_p) => "    Changing "@ + name
                + "'s permission from "@ + permission_text(old_p) + " to "@ + permission_text(new_p)
                + "\n"@,
            RepoPermissionDiff::Delete(p) => "    Removing "@ + name + "'s "@ + permission_text(p)
                + " permission \n"@,
        }
    }
}

impl RepoPermissionAssignmentDiff {
    /// Renders the diff as one line.
    pub fn render(&self) -> (out: String)
        ensures
            out@ == self.deep_view().rendered(),
    {
        let name = collaborator_string(&self.collaborator);
        match self.diff {
            RepoPermissionDiff::Create(p) => {
                let mut out = "    Giving ".to_owned();
                put(&mut out, name.as_str());
                put(&mut out, " ");
                put(&mut out, permission_str(p));
                put(&mut out, " permission\n");
                out
            },
            RepoPermissionDiff::Update(old_p, new_p) => {
                let mut out = "    Changing ".to_owned();
                put(&mut out, name.as_str());
                put(&mut out, "'s permission from ");
                put(&mut out, permission_str(old_p));
                put(&mut out, " to ");
                put(&mut out, permission_str(new_p));
                put(&mut out, "\n");
                out
            },
            RepoPermissionDiff::Delete(p) => {
                let mut out = "    Removing ".to_owned();
                put(&mut out, name.as_str());
                put(&mut out, "'s ");
                put(&mut out, permission_str(p));
                put(&mut out, " permission \n");
                out
            },
        }
    }
}

/// The lines of permission diffs, diff after diff.
pub open spec fn rendered_permissions(diffs: Seq<RepoPermissionAssignmentDiffModel>) -> Text {
    concat(Seq::new(diffs.len(), |i: int| diffs[i].rendered()))
}

fn render_permissions(diffs: &Vec<RepoPermissionAssignmentDiff>) -> (out: String)
    ensures
        out@ == rendered_permissions(diffs.deep_view()),
{
    let ghost lines = Seq::new(diffs.len() as nat, |i: int| diffs.deep_view()[i].rendered());
    let mut out = String::new();
    let mut i: usize = 0;
    while i < diffs.len()
        invariant
            i <= diffs.len(),
            lines == Seq::new(diffs.len() as nat, |i: int| diffs.deep_view()[i].rendered()),
            out@ == concat(lines.take(i as int)),
        decreases diffs.len() - i,
    {
        proof {
            assert(lines.take(i + 1).drop_last() =~= lines.take(i as int));
        }
        let line = diffs[i].render();
        put(&mut out, line.as_str());
        i += 1;
    }
    assert(lines.take(i as int) =~= lines);
    out
}

impl BranchProtectionDiffModel {
    /// The pattern on a line of its own, then the log of the protection:
    /// of the new one, of the change from the old to the new one, or the
    /// word that it is deleted.
    pub open spec fn rendered(self) -> Text {
        "      "@ + self.pattern + "\n"@ + match self.operation {
            BranchProtectionDiffOperationModel::Create(bp) => protection_log(bp, None),
            BranchProtectionDiffOperationModel::Update(_, old_bp, new_bp) => protection_log(
                old_bp,
                Some(new_bp),
            ),
            BranchProtectionDiffOperationModel::Delete(_) => "        Deleting branch protection\n"@,
        }
    }
}

impl BranchProtectionDiff {
    /// Renders the diff.
    pub fn render(&self) -> (out: String)
        ensures
            out@ == self.deep_view().rendered(),
    {
        let mut out = "      ".to_owned();
        put(&mut out, self.pattern.as_str());
        put(&mut out, "\n");
        match &self.operation {
            BranchProtectionDiffOperation::Create(bp) => {
                log_branch_protection(bp, None, &mut out);
            },
            BranchProtectionDiffOperation::Update(_, old_bp, new_bp) => {
                log_branch_protection(old_bp, Some(new_bp), &mut out);
            },
            BranchProtectionDiffOperation::Delete(_) => {
                put(&mut out, "        Deleting branch protection\n");
            },
        }
        out
    }
}

/// The renderings of branch protection diffs, diff after diff.
pub open spec fn rendered_protections(diffs: Seq<BranchProtectionDiffModel>) -> Text {
    concat(Seq::new(diffs.len(), |i: int| diffs[i].rendered()))
}

fn render_protections(diffs: &Vec<BranchProtectionDiff>) -> (out: String)
    ensures
        out@ == rendered_protections(diffs.deep_view()),
{
    let ghost lines = Seq::new(diffs.len() as nat, |i: int| diffs.deep_view()[i].rendered());
    let mut out = String::new();
    let mut i: usize = 0;
    while i < diffs.len()
        invariant
            i <= diffs.len(),
            lines == Seq::new(diffs.len() as nat, |i: int| diffs.deep_view()[i].rendered()),
            out@ == concat(lines.take(i as int)),
        decreases diffs.len() - i,
    {
        proof {
            assert(lines.take(i + 1).drop_last() =~= lines.take(i as int));
        }
        let line = diffs[i].render();
        put(&mut out, line.as_str());
        i += 1;
    }
    assert(lines.take(i as int) =~= lines);
    out
}

/// A protection that is to be created on a new repository: its pattern,
/// then its log.
pub open spec fn rendered_new_protection(pattern: Text, bp: BranchProtectionModel) -> Text {
    "    "@ + pattern + "\n"@ + protection_log(bp, None)
}

/// The protections that are to be created on a new repository, one after another.
pub open spec fn rendered_new_protections(protections: Seq<(Text, BranchProtectionModel)>) -> Text {
    concat(
        Seq::new(
            protections.len(),
            |i: int| rendered_new_protection(protections[i].0, protections[i].1),
        ),
    )
}

fn render_new_protections(protections: &Vec<(String, BranchProtection)>) -> (out: String)
    ensures
        out@ == rendered_new_protections(protections.deep_view()),
{
    let ghost all = protections.deep_view();
    let ghost lines = Seq::new(all.len(), |i: int| rendered_new_protection(all[i].0, all[i].1));
    let mut out = String::new();
    let mut i: usize = 0;
    while i < protections.len()
        invariant
            i <= protections.len(),
            all == protections.deep_view(),
            lines == Seq::new(all.len(), |i: int| rendered_new_protection(all[i].0, all[i].1)),
            out@ == concat(lines.take(i as int)),
        decreases protections.len() - i,
    {
        proof {
            assert(lines.take(i + 1).drop_last() =~= lines.take(i as int));
        }
        let ghost before = out@;
        put(&mut out, "    ");
        put(&mut out, protections[i].0.as_str());
        put(&mut out, "\n");
        log_branch_protection(&protections[i].1, None, &mut out);
        assert(out@ =~= before + lines[i as int]);
        i += 1;
    }
    assert(lines.take(i as int) =~= lines);
    out
}

impl CreateRepoDiffModel {
    /// The head of the rendering: what the repository is and how it is set.
    pub open spec fn rendered_head(self) -> Text {
        "➕ Creating repo:\n"@ + "  Org: "@ + self.org + "\n"@ + "  Name: "@ + self.name + "\n"@
            + "  Description: "@ + self.settings.description + "\n"@ + "  Homepage: "@
            + optional_text(
            match self.settings.homepage {
                Some(h) => Some(debug_text(h)),
                None => None,
            },
        ) + "\n"@ + "  Auto-merge: "@ + bool_text(self.settings.auto_merge_enabled) + "\n"@
    }

    /// The head, then the permissions and the branch protections under
    /// their headings.
    pub open spec fn rendered(self) -> Text {
        self.rendered_head() + "  Permissions:\n"@ + rendered_permissions(self.permissions)
            + "  Branch Protections:\n"@ + rendered_new_protections(self.branch_protections)
    }
}

impl CreateRepoDiff {
    fn render_head(&self) -> (out: String)
        ensures
            out@ == self.deep_view().rendered_head(),
    {
        let mut out = "➕ Creating repo:\n".to_owned();
        put(&mut out, "  Org: ");
        put(&mut out, self.org.as_str());
        put(&mut out, "\n");
        put(&mut out, "  Name: ");
        put(&mut out, self.name.as_str());
        put(&mut out, "\n");
        put(&mut out, "  Description: ");
        put(&mut out, self.settings.description.as_str());
        put(&mut out, "\n");
        put(&mut out, "  Homepage: ");
        put(&mut out, optional_string(&self.settings.homepage).as_str());
        put(&mut out, "\n");
        put(&mut out, "  Auto-merge: ");
        put(&mut out, bool_str(self.settings.auto_merge_enabled));
        put(&mut out, "\n");
        out
    }

    /// Renders the diff.
    pub fn render(&self) -> (out: String)
        ensures
            out@ == self.deep_view().rendered(),
    {
        let mut out = self.render_head();
        put(&mut out, "  Permissions:\n");
        put(&mut out, render_permissions(&self.permissions).as_str());
        put(&mut out, "  Branch Protections:\n");
        put(&mut out, render_new_protections(&self.branch_protections).as_str());
        out
    }
}

/// The line for a changed description. An empty description counts as none.
pub open spec fn rendered_description_change(old_text: Text, new_text: Text) -> Text {
    if old_text.len() == 0 && new_text.len() == 0 {
        Seq::empty()
    } else if old_text.len() == 0 {
        "  Set description: '"@ + new_text + "'\n"@
    } else if new_text.len() == 0 {
        "  Remove description: '"@ + old_text + "'\n"@
    } else if old_text != new_text {
        "  New description: '"@ + old_text + "' => '"@ + new_text + "'\n"@
    } else {
        Seq::empty()
    }
}

/// Writes the line for a changed description.
pub fn render_description_change(old_text: &str, new_text: &str) -> (out: String)
    ensures
        out@ == rendered_description_change(old_text@, new_text@),
{
    let mut out = String::new();
    let old_empty = old_text.is_empty();
    let new_empty = new_text.is_empty();
    if old_empty && new_empty {
    } else if old_empty {
        put(&mut out, "  Set description: '");
        put(&mut out, new_text);
        put(&mut out, "'\n");
        assert(out@ =~= rendered_description_change(old_text@, new_text@));
    } else if new_empty {
        put(&mut out, "  Remove description: '");
        put(&mut out, old_text);
        put(&mut out, "'\n");
        assert(out@ =~= rendered_description_change(old_text@, new_text@));
    } else if !str_eq(old_text, new_text) {
        put(&mut out, "  New description: '");
        put(&mut out, old_text);
        put(&mut out, "' => '");
        put(&mut out, new_text);
        put(&mut out, "'\n");
        assert(out@ =~= rendered_description_change(old_text@, new_text@));
    }
    out
}

/// The line for a changed homepage.
pub open spec fn rendered_homepage_change(old_page: Option<Text>, new_page: Option<Text>) -> Text {
    match (old_page, new_page) {
        (None, Some(new_text)) => "  Set homepage: '"@ + new_text + "'\n"@,
        (Some(old_text), None) => "  Remove homepage: '"@ + old_text + "'\n"@,
        (Some(old_text), Some(new_text)) => if old_text != new_text {
            "  New homepage: '"@ + old_text + "' => '"@ + new_text + "'\n"@
        } else {
            Seq::empty()
        },
        (None, None) => Seq::empty(),
    }
}

/// Writes the line for a changed homepage.
pub fn render_homepage_change(old_page: &Option<String>, new_page: &Option<String>) -> (out: String)
    ensures
        out@ == rendered_homepage_change(old_page.deep_view(), new_page.deep_view()),
{
    let mut out = String::new();
    match (old_page, new_page) {
        (None, Some(new_text)) => {
            put(&mut out, "  Set homepage: '");
            put(&mut out, new_text.as_str());
            put(&mut out, "'\n");
            assert(out@ =~= rendered_homepage_change(old_page.deep_view(), new_page.deep_view()));
        },
        (Some(old_text), None) => {
            put(&mut out, "  Remove homepage: '");
            put(&mut out, old_text.as_str());
            put(&mut out, "'\n");
            assert(out@ =~= rendered_homepage_change(old_page.deep_view(), new_page.deep_view()));
        },
        (Some(old_text), Some(new_text)) => {
            if *old_text != *new_text {
                put(&mut out, "  New homepage: '");
                put(&mut out, old_text.as_str());
                put(&mut out, "' => '");
                put(&mut out, new_text.as_str());
                put(&mut out, "'\n");
                assert(out@ =~= rendered_homepage_change(
                    old_page.deep_view(),
                    new_page.deep_view(),
                ));
            }
        },
        (None, None) => {},
    }
    out
}

/// The line for a switch that changes: `on` where it goes on, `off` where
/// it goes off, nothing where it stays.
pub open spec fn rendered_switch(before: bool, after: bool, on: Text, off: Text) -> Text {
    if !before && after {
        on
    } else if before && !after {
        off
    } else {
        Seq::empty()
    }
}

/// Writes the line for a switch that changes.
pub fn render_switch(before: bool, after: bool, on: &'static str, off: &'static str) -> (out: &'static str)
    ensures
        out@ == rendered_switch(before, after, on@, off@),
{
    if !before && after {
        on
    } else if before && !after {
        off
    } else {
        let nothing = "";
        proof {
            reveal_strlit("");
            assert(nothing@ =~= Seq::<char>::empty());
        }
        nothing
    }
}

/// A list under its heading, or nothing where the list is empty.
pub open spec fn rendered_section(heading: Text, empty: bool, body: Text) -> Text {
    if empty {
        Seq::empty()
    } else {
        heading + body
    }
}

impl UpdateRepoDiffModel {
    /// The lines for the settings that change, in their fixed order:
    /// description, homepage, archive, auto-merge.
    pub open spec fn rendered_settings(self) -> Text {
        rendered_description_change(
            self.settings_diff.0.description,
            self.settings_diff.1.description,
        ) + rendered_homepage_change(self.settings_diff.0.homepage, self.settings_diff.1.homepage)
            + rendered_switch(
            self.settings_diff.0.archived,
            self.settings_diff.1.archived,
            "  Archive\n"@,
            "  Unarchive\n"@,
        ) + rendered_switch(
            self.settings_diff.0.auto_merge_enabled,
            self.settings_diff.1.auto_merge_enabled,
            "  Enable auto-merge\n"@,
            "  Disable auto-merge\n"@,
        )
    }

    /// The heading that names the repository.
    pub open spec fn rendered_heading(self) -> Text {
        "📝 Editing repo '"@ + self.org + "/"@ + self.name + "':\n"@
    }

    /// Nothing for an update that changes nothing. Otherwise the heading,
    /// the settings that change, and the permission and branch protection
    /// diffs under their headings.
    pub open spec fn rendered(self) -> Text {
        if self.noop() {
            Seq::empty()
        } else {
            self.rendered_heading() + self.rendered_settings() + rendered_section(
                "  Permission Changes:\n"@,
                self.permission_diffs.len() == 0,
                rendered_permissions(self.permission_diffs),
            ) + rendered_section(
                "  Branch Protections:\n"@,
                self.branch_protection_diffs.len() == 0,
                rendered_protections(self.branch_protection_diffs),
            )
        }
    }
}

fn render_section(heading: &str, empty: bool, body: String) -> (out: String)
    ensures
        out@ == rendered_section(heading@, empty, body@),
{
    let mut out = String::new();
    if !empty {
        put(&mut out, heading);
        put(&mut out, body.as_str());
        assert(out@ =~= heading@ + body@);
    }
    out
}

impl UpdateRepoDiff {
    fn render_settings(&self) -> (out: String)
        ensures
            out@ == self.deep_view().rendered_settings(),
    {
        let mut out = render_description_change(
            self.settings_diff.0.description.as_str(),
            self.settings_diff.1.description.as_str(),
        );
        put(
            &mut out,
            render_homepage_change(
                &self.settings_diff.0.homepage,
                &self.settings_diff.1.homepage,
            ).as_str(),
        );
        put(
            &mut out,
            render_switch(
                self.settings_diff.0.archived,
                self.settings_diff.1.archived,
                "  Archive\n",
                "  Unarchive\n",
            ),
        );
        put(
            &mut out,
            render_switch(
                self.settings_diff.0.auto_merge_enabled,
                self.settings_diff.1.auto_merge_enabled,
                "  Enable auto-merge\n",
                "  Disable auto-merge\n",
            ),
        );
        out
    }

    /// Renders the diff.
    pub fn render(&self) -> (out: String)
        ensures
            out@ == self.deep_view().rendered(),
    {
        if self.noop() {
            return String::new();
        }
        let mut out = "📝 Editing repo '".to_owned();
        put(&mut out, self.org.as_str());
        put(&mut out, "/");
        put(&mut out, self.name.as_str());
        put(&mut out, "':\n");
        put(&mut out, self.render_settings().as_str());
        put(
            &mut out,
            render_section(
                "  Permission Changes:\n",
                self.permission_diffs.is_empty(),
                render_permissions(&self.permission_diffs),
            ).as_str(),
        );
        put(
            &mut out,
            render_section(
                "  Branch Protections:\n",
                self.branch_protection_diffs.is_empty(),
                render_protections(&self.branch_protection_diffs),
            ).as_str(),
        );
        out
    }
}

impl RepoDiffModel {
    /// The rendering of the creation or of the update.
    pub open spec fn rendered(self) -> Text {
        match self {
            RepoDiffModel::Create(create) => create.rendered(),
            RepoDiffModel::Update(update) => update.rendered(),
        }
    }
}

impl RepoDiff {
    /// Renders the diff.
    pub fn render(&self) -> (out: String)
        ensures
            out@ == self.deep_view().rendered(),
    {
        match self {
            RepoDiff::Create(create) => create.render(),
            RepoDiff::Update(update) => update.render(),
        }
    }
}

/// The line for a member of a new team.
pub open spec fn rendered_new_member(name: Text, role: TeamRole) -> Text {
    "    "@ + name + ": "@ + role_text(role) + "\n"@
}

/// The lines for the members of a new team.
pub open spec fn rendered_new_members(members: Seq<(Text, TeamRole)>) -> Text {
    concat(Seq::new(members.len(), |i: int| rendered_new_member(members[i].0, members[i].1)))
}

fn render_new_members(members: &Vec<(String, TeamRole)>) -> (out: String)
    ensures
        out@ == rendered_new_members(members.deep_view()),
{
    let ghost all = members.deep_view();
    let ghost lines = Seq::new(all.len(), |i: int| rendered_new_member(all[i].0, all[i].1));
    let mut out = String::new();
    let mut i: usize = 0;
    while i < members.len()
        invariant
            i <= members.len(),
            all == members.deep_view(),
            lines == Seq::new(all.len(), |i: int| rendered_new_member(all[i].0, all[i].1)),
            out@ == concat(lines.take(i as int)),
        decreases members.len() - i,
    {
        proof {
            assert(lines.take(i + 1).drop_last() =~= lines.take(i as int));
        }
        let ghost before = out@;
        put(&mut out, "    ");
        put(&mut out, members[i].0.as_str());
        put(&mut out, ": ");
        put(&mut out, role_str(members[i].1));
        put(&mut out, "\n");
        assert(out@ =~= before + lines[i as int]);
        i += 1;
    }
    assert(lines.take(i as int) =~= lines);
    out
}

impl CreateTeamDiffModel {
    /// What the team is, then its members under their heading.
    pub open spec fn rendered(self) -> Text {
        "➕ Creating team:\n"@ + "  Org: "@ + self.org + "\n"@ + "  Name: "@ + self.name + "\n"@
            + "  Description: "@ + self.description + "\n"@ + "  Privacy: "@ + privacy_text(
            self.privacy,
        ) + "\n"@ + "  Members:\n"@ + rendered_new_members(self.members)
    }
}

impl CreateTeamDiff {
    /// Renders the diff.
    pub fn render(&self) -> (out: String)
        ensures
            out@ == self.deep_view().rendered(),
    {
        let mut out = "➕ Creating team:\n".to_owned();
        put(&mut out, "  Org: ");
        put(&mut out, self.org.as_str());
        put(&mut out, "\n");
        put(&mut out, "  Name: ");
        put(&mut out, self.name.as_str());
        put(&mut out, "\n");
        put(&mut out, "  Description: ");
        put(&mut out, self.description.as_str());
        put(&mut out, "\n");
        put(&mut out, "  Privacy: ");
        put(&mut out, privacy_str(self.privacy));
        put(&mut out, "\n");
        put(&mut out, "  Members:\n");
        put(&mut out, render_new_members(&self.members).as_str());
        out
    }
}

/// The line for the diff of one membership; nothing where nothing happens.
pub open spec fn rendered_member_diff(member: Text, diff: MemberDiff) -> Text {
    match diff {
        MemberDiff::Create(role) => "  Adding member '"@ + member + "' with "@ + role_text(role)
            + " role\n"@,
        MemberDiff::ChangeRole((old_role, new_role)) => "  Changing '"@ + member + "' role from "@
            + role_text(old_role) + " to "@ + role_text(new_role) + "\n"@,
        MemberDiff::Delete => "  Deleting member '"@ + member + "'\n"@,
        MemberDiff::Noop => Seq::empty(),
    }
}

/// Writes the line for the diff of one membership.
pub fn render_member_diff(member: &str, diff: &MemberDiff) -> (out: String)
    ensures
        out@ == rendered_member_diff(member@, *diff),
{
    let mut out = String::new();
    match diff {
        MemberDiff::Create(role) => {
            put(&mut out, "  Adding member '");
            put(&mut out, member);
            put(&mut out, "' with ");
            put(&mut out, role_str(*role));
            put(&mut out, " role\n");
            assert(out@ =~= rendered_member_diff(member@, *diff));
        },
        MemberDiff::ChangeRole((old_role, new_role)) => {
            put(&mut out, "  Changing '");
            put(&mut out, member);
            put(&mut out, "' role from ");
            put(&mut out, role_str(*old_role));
            put(&mut out, " to ");
            put(&mut out, role_str(*new_role));
            put(&mut out, "\n");
            assert(out@ =~= rendered_member_diff(member@, *diff));
        },
        MemberDiff::Delete => {
            put(&mut out, "  Deleting member '");
            put(&mut out, member);
            put(&mut out, "'\n");
            assert(out@ =~= rendered_member_diff(member@, *diff));
        },
        MemberDiff::Noop => {},
    }
    out
}

/// The lines for the diffs of the memberships of a team.
pub open spec fn rendered_member_diffs(diffs: Seq<(Text, MemberDiff)>) -> Text {
    concat(Seq::new(diffs.len(), |i: int| rendered_member_diff(diffs[i].0, diffs[i].1)))
}

fn render_member_diffs(diffs: &Vec<(String, MemberDiff)>) -> (out: String)
    ensures
        out@ == rendered_member_diffs(diffs.deep_view()),
{
    let ghost all = diffs.deep_view();
    let ghost lines = Seq::new(all.len(), |i: int| rendered_member_diff(all[i].0, all[i].1));
    let mut out = String::new();
    let mut i: usize = 0;
    while i < diffs.len()
        invariant
            i <= diffs.len(),
            all == diffs.deep_view(),
            lines == Seq::new(all.len(), |i: int| rendered_member_diff(all[i].0, all[i].1)),
            out@ == concat(lines.take(i as int)),
        decreases diffs.len() - i,
    {
        proof {
            assert(lines.take(i + 1).drop_last() =~= lines.take(i as int));
        }
        let line = render_member_diff(diffs[i].0.as_str(), &diffs[i].1);
        put(&mut out, line.as_str());
        i += 1;
    }
    assert(lines.take(i as int) =~= lines);
    out
}

impl EditTeamDiffModel {
    /// The lines for the name, the description and the privacy that change.
    pub open spec fn rendered_meta(self) -> Text {
        (match self.name_diff {
            Some(name) => "  New name: "@ + name + "\n"@,
            None => Seq::empty(),
        }) + (match self.description_diff {
            Some((old_text, new_text)) => "  New description: '"@ + old_text + "' => '"@ + new_text
                + "'\n"@,
            None => Seq::empty(),
        }) + (match self.privacy_diff {
            Some((old_privacy, new_privacy)) => "  New privacy: '"@ + privacy_text(old_privacy)
                + "' => '"@ + privacy_text(new_privacy) + "'\n"@,
            None => Seq::empty(),
        })
    }

    /// Nothing for an edit that changes nothing. Otherwise the heading that
    /// names the team, then what changes of it, then its memberships.
    pub open spec fn rendered(self) -> Text {
        if self.noop() {
            Seq::empty()
        } else {
            "📝 Editing team '"@ + self.org + "/"@ + self.name + "':\n"@ + self.rendered_meta()
                + rendered_member_diffs(self.member_diffs)
        }
    }
}

impl EditTeamDiff {
    fn render_meta(&self) -> (out: String)
        ensures
            out@ == self.deep_view().rendered_meta(),
    {
        let mut name_line = String::new();
        match &self.name_diff {
            Some(name) => {
                put(&mut name_line, "  New name: ");
                put(&mut name_line, name.as_str());
                put(&mut name_line, "\n");
                assert(name_line@ =~= "  New name: "@ + name@ + "\n"@);
            },
            None => {},
        }
        let mut description_line = String::new();
        match &self.description_diff {
            Some((old_text, new_text)) => {
                put(&mut description_line, "  New description: '");
                put(&mut description_line, old_text.as_str());
                put(&mut description_line, "' => '");
                put(&mut description_line, new_text.as_str());
                put(&mut description_line, "'\n");
                assert(description_line@ =~= "  New description: '"@ + old_text@ + "' => '"@
                    + new_text@ + "'\n"@);
            },
            None => {},
        }
        let mut privacy_line = String::new();
        match &self.privacy_diff {
            Some((old_privacy, new_privacy)) => {
                put(&mut privacy_line, "  New privacy: '");
                put(&mut privacy_line, privacy_str(*old_privacy));
                put(&mut privacy_line, "' => '");
                put(&mut privacy_line, privacy_str(*new_privacy));
                put(&mut privacy_line, "'\n");
                assert(privacy_line@ =~= "  New privacy: '"@ + privacy_text(*old_privacy)
                    + "' => '"@ + privacy_text(*new_privacy) + "'\n"@);
            },
            None => {},
        }
        let mut out = name_line;
        put(&mut out, description_line.as_str());
        put(&mut out, privacy_line.as_str());
        out
    }

    /// Renders the diff.
    pub fn render(&self) -> (out: String)
        ensures
            out@ == self.deep_view().rendered(),
    {
        if self.noop() {
            return String::new();
        }
        let mut out = "📝 Editing team '".to_owned();
        put(&mut out, self.org.as_str());
        put(&mut out, "/");
        put(&mut out, self.name.as_str());
        put(&mut out, "':\n");
        put(&mut out, self.render_meta().as_str());
        put(&mut out, render_member_diffs(&self.member_diffs).as_str());
        out
    }
}

impl DeleteTeamDiffModel {
    /// One line that names the team.
    pub open spec fn rendered(self) -> Text {
        "❌ Deleting team '"@ + self.org + "/"@ + self.name + "'\n"@
    }
}

impl DeleteTeamDiff {
    /// Renders the diff.
    pub fn render(&self) -> (out: String)
        ensures
            out@ == self.deep_view().rendered(),
    {
        let mut out = "❌ Deleting team '".to_owned();
        put(&mut out, self.org.as_str());
        put(&mut out, "/");
        put(&mut out, self.name.as_str());
        put(&mut out, "'\n");
        out
    }
}

impl TeamDiffModel {
    /// The rendering of the creation, the edit or the deletion.
    pub open spec fn rendered(self) -> Text {
        match self {
            TeamDiffModel::Create(create) => create.rendered(),
            TeamDiffModel::Edit(edit) => edit.rendered(),
            TeamDiffModel::Delete(delete) => delete.rendered(),
        }
    }
}

impl TeamDiff {
    /// Renders the diff.
    pub fn render(&self) -> (out: String)
        ensures
            out@ == self.deep_view().rendered(),
    {
        match self {
            TeamDiff::Create(create) => create.render(),
            TeamDiff::Edit(edit) => edit.render(),
            TeamDiff::Delete(delete) => delete.render(),
        }
    }
}

/// The renderings of team diffs, diff after diff.
pub open spec fn rendered_team_diffs(diffs: Seq<TeamDiffModel>) -> Text {
    concat(Seq::new(diffs.len(), |i: int| diffs[i].rendered()))
}

/// The renderings of repository diffs, diff after diff.
pub open spec fn rendered_repo_diffs(diffs: Seq<RepoDiffModel>) -> Text {
    concat(Seq::new(diffs.len(), |i: int| diffs[i].rendered()))
}

fn render_team_diffs(diffs: &Vec<TeamDiff>) -> (out: String)
    ensures
        out@ == rendered_team_diffs(diffs.deep_view()),
{
    let ghost lines = Seq::new(diffs.len() as nat, |i: int| diffs.deep_view()[i].rendered());
    let mut out = String::new();
    let mut i: usize = 0;
    while i < diffs.len()
        invariant
            i <= diffs.len(),
            lines == Seq::new(diffs.len() as nat, |i: int| diffs.deep_view()[i].rendered()),
            out@ == concat(lines.take(i as int)),
        decreases diffs.len() - i,
    {
        proof {
            assert(lines.take(i + 1).drop_last() =~= lines.take(i as int));
        }
        let line = diffs[i].render();
        put(&mut out, line.as_str());
        i += 1;
    }
    assert(lines.take(i as int) =~= lines);
    out
}

fn render_repo_diffs(diffs: &Vec<RepoDiff>) -> (out: String)
    ensures
        out@ == rendered_repo_diffs(diffs.deep_view()),
{
    let ghost lines = Seq::new(diffs.len() as nat, |i: int| diffs.deep_view()[i].rendered());
    let mut out = String::new();
    let mut i: usize = 0;
    while i < diffs.len()
        invariant
            i <= diffs.len(),
            lines == Seq::new(diffs.len() as nat, |i: int| diffs.deep_view()[i].rendered()),
            out@ == concat(lines.take(i as int)),
        decreases diffs.len() - i,
    {
        proof {
            assert(lines.take(i + 1).drop_last() =~= lines.take(i as int));
        }
        let line = diffs[i].render();
        put(&mut out, line.as_str());
        i += 1;
    }
    assert(lines.take(i as int) =~= lines);
    out
}

impl DiffModel {
    /// The team diffs under their heading, then the repository diffs under
    /// theirs; a heading without diffs is left out.
    pub open spec fn rendered(self) -> Text {
        rendered_section(
            "💻 Team Diffs:\n"@,
            self.team_diffs.len() == 0,
            rendered_team_diffs(self.team_diffs),
        ) + rendered_section(
            "💻 Repo Diffs:\n"@,
            self.repo_diffs.len() == 0,
            rendered_repo_diffs(self.repo_diffs),
        )
    }
}

impl Diff {
    /// Renders the whole diff.
    pub fn render(&self) -> (out: String)
        ensures
            out@ == self.deep_view().rendered(),
    {
        let mut out = render_section(
            "💻 Team Diffs:\n",
            self.team_diffs.is_empty(),
            render_team_diffs(&self.team_diffs),
        );
        put(
            &mut out,
            render_section(
                "💻 Repo Diffs:\n",
                self.repo_diffs.is_empty(),
                render_repo_diffs(&self.repo_diffs),
            ).as_str(),
        );
        out
    }
}

} // verus!
