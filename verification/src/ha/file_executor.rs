//! What the file-backed action executor writes for each action.
use vstd::prelude::*;

use crate::ha::runtime::HaAction;
use crate::text;

verus! {

/// The new content of the role state file after an action, where the action
/// changes it.
pub open spec fn role_state(action: HaAction) -> Option<Seq<char>> {
    match action {
        HaAction::EnsureReplica => Some("replica\n"@),
        HaAction::EnableWriter { generation } => Some(
            "writer:"@ + text::decimal(generation as nat) + "\n"@,
        ),
        HaAction::DisableWriter { .. } => Some("replica\n"@),
        HaAction::KeepWriter => None,
        HaAction::RecordPromotionDenied { .. } => None,
    }
}

/// The line that an action appends to the audit log.
pub open spec fn audit_line(action: HaAction) -> Seq<char> {
    match action {
        HaAction::EnsureReplica => "action=ensure_replica result=ok\n"@,
        HaAction::EnableWriter { generation } => "action=enable_writer generation="@
            + text::decimal(generation as nat) + " result=ok\n"@,
        HaAction::DisableWriter { reason } => "action=disable_writer reason="@ + reason.shown()
            + " result=ok\n"@,
        HaAction::KeepWriter => "action=keep_writer result=ok\n"@,
        HaAction::RecordPromotionDenied { violation } =>
            "action=record_promotion_denied violation="@ + violation.shown() + " result=ok\n"@,
    }
}

/// File-backed action executor for simple host-level integrations.
///
/// - `role_state_path` stores the latest role state.
/// - `audit_log_path` stores an append-only action log.
#[derive(Debug, Clone)]
pub struct FileActionExecutor {
    role_state_path: String,
    audit_log_path: String,
}

impl FileActionExecutor {
    pub closed spec fn role_path(self) -> Seq<char> {
        self.role_state_path@
    }

    pub closed spec fn audit_path(self) -> Seq<char> {
        self.audit_log_path@
    }

    pub fn new(role_state_path: &str, audit_log_path: &str) -> (r: FileActionExecutor)
        ensures
            r.role_path() == role_state_path@,
            r.audit_path() == audit_log_path@,
    {
        FileActionExecutor {
            role_state_path: role_state_path.to_owned(),
            audit_log_path: audit_log_path.to_owned(),
        }
    }

    pub fn role_state_path(&self) -> (r: &str)
        ensures
            r@ == self.role_path(),
    {
        self.role_state_path.as_str()
    }

    pub fn audit_log_path(&self) -> (r: &str)
        ensures
            r@ == self.audit_path(),
    {
        self.audit_log_path.as_str()
    }

    /// The new content of the role state file after an action, where the action
    /// changes it.
    pub fn role_state_for(&self, action: &HaAction) -> (r: Option<String>)
        ensures
            text::opt_view(r) == role_state(*action),
    {
        match action {
            HaAction::EnsureReplica => Some("replica\n".to_owned()),
            HaAction::EnableWriter { generation } => {
                let mut s: String = "writer:".to_owned();
                s.append(text::u64_text(*generation).as_str());
                s.append("\n");
                Some(s)
            },
            HaAction::DisableWriter { .. } => Some("replica\n".to_owned()),
            HaAction::KeepWriter => None,
            HaAction::RecordPromotionDenied { .. } => None,
        }
    }

    /// The line that an action appends to the audit log.
    pub fn audit_line_for(&self, action: &HaAction) -> (r: String)
        ensures
            r@ == audit_line(*action),
    {
        match action {
            HaAction::EnsureReplica => "action=ensure_replica result=ok\n".to_owned(),
            HaAction::EnableWriter { generation } => {
                let mut s: String = "action=enable_writer generation=".to_owned();
                s.append(text::u64_text(*generation).as_str());
                s.append(" result=ok\n");
                s
            },
            HaAction::DisableWriter { reason } => {
                let mut s: String = "action=disable_writer reason=".to_owned();
                s.append(reason.debug_text().as_str());
                s.append(" result=ok\n");
                s
            },
            HaAction::KeepWriter => "action=keep_writer result=ok\n".to_owned(),
            HaAction::RecordPromotionDenied { violation } => {
                let mut s: String = "action=record_promotion_denied violation=".to_owned();
                s.append(violation.debug_text().as_str());
                s.append(" result=ok\n");
                s
            },
        }
    }
}

/// The role file changes exactly where an action changes the role, and then says the
/// role that the node has: the writer with its generation, or a replica.
pub proof fn law_role_file_says_the_role(action: HaAction)
    ensures
        role_state(action) is None <==> action is KeepWriter || action is RecordPromotionDenied,
        action matches HaAction::EnableWriter { generation } ==> role_state(action) == Some(
            "writer:"@ + text::decimal(generation as nat) + "\n"@,
        ),
        action is EnsureReplica || action is DisableWriter ==> role_state(action) == Some(
            "replica\n"@,
        ),
{
}

/// Every action leaves one line in the log, which starts with its name and ends with
/// its result.
pub proof fn law_every_action_is_logged(action: HaAction)
    ensures
        "action="@.is_prefix_of(audit_line(action)),
        " result=ok\n"@.is_suffix_of(audit_line(action)),
        action matches HaAction::EnableWriter { generation } ==> (
        "action=enable_writer generation="@ + text::decimal(generation as nat)).is_prefix_of(
            audit_line(action),
        ),
        action matches HaAction::DisableWriter { reason } ==> ("action=disable_writer reason="@
            + reason.shown()).is_prefix_of(audit_line(action)),
        action matches HaAction::RecordPromotionDenied { violation } ==> (
        "action=record_promotion_denied violation="@ + violation.shown()).is_prefix_of(
            audit_line(action),
        ),
{
    reveal_strlit("action=");
    reveal_strlit(" result=ok\n");
    reveal_strlit("action=ensure_replica result=ok\n");
    reveal_strlit("action=enable_writer generation=");
    reveal_strlit("action=disable_writer reason=");
    reveal_strlit("action=keep_writer result=ok\n");
    reveal_strlit("action=record_promotion_denied violation=");
}

} // verus!
