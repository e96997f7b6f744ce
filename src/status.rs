use vstd::prelude::*;

verus! {

/// Lifecycle state of one outbound email request.
///
/// The stored code of each variant is its position: Created=0, Processed=1,
/// Sent=2, Failed=3, Stopped=4.
#[derive(Clone, Copy, Debug, PartialEq, Eq, Structural)]
pub enum EmailMessageStatus {
    Created,
    Processed,
    Sent,
    Failed,
    Stopped,
}

/// The integer under which a status is stored.
pub open spec fn status_code(s: EmailMessageStatus) -> int {
    match s {
        EmailMessageStatus::Created => 0,
        EmailMessageStatus::Processed => 1,
        EmailMessageStatus::Sent => 2,
        EmailMessageStatus::Failed => 3,
        EmailMessageStatus::Stopped => 4,
    }
}

/// The status stored under `v`, if any.
pub open spec fn status_of_code(v: int) -> Option<EmailMessageStatus> {
    if v == 0 {
        Some(EmailMessageStatus::Created)
    } else if v == 1 {
        Some(EmailMessageStatus::Processed)
    } else if v == 2 {
        Some(EmailMessageStatus::Sent)
    } else if v == 3 {
        Some(EmailMessageStatus::Failed)
    } else if v == 4 {
        Some(EmailMessageStatus::Stopped)
    } else {
        None
    }
}

/// The name of a status as reported to clients and in logs.
pub open spec fn status_name(s: EmailMessageStatus) -> Seq<char> {
    match s {
        EmailMessageStatus::Created => "Created"@,
        EmailMessageStatus::Processed => "Processed"@,
        EmailMessageStatus::Sent => "Sent"@,
        EmailMessageStatus::Failed => "Failed"@,
        EmailMessageStatus::Stopped => "Stopped"@,
    }
}

/// The status changes a request may undergo: claimed by the scheduler,
/// stopped with its topic, completed by the sender, or rolled back to
/// `Created` when it could not be handed to the send queue.
pub open spec fn transition_allowed(from: EmailMessageStatus, to: EmailMessageStatus) -> bool {
    ||| from == EmailMessageStatus::Created && to == EmailMessageStatus::Processed
    ||| from == EmailMessageStatus::Created && to == EmailMessageStatus::Stopped
    ||| from == EmailMessageStatus::Processed && to == EmailMessageStatus::Sent
    ||| from == EmailMessageStatus::Processed && to == EmailMessageStatus::Failed
    ||| from == EmailMessageStatus::Sent && to == EmailMessageStatus::Created
}

impl EmailMessageStatus {
    /// The status stored under `value`; `None` for any other integer.
    pub fn from_i32(value: i32) -> (r: Option<EmailMessageStatus>)
        ensures
            r == status_of_code(value as int),
    {
        match value {
            0 => Some(EmailMessageStatus::Created),
            1 => Some(EmailMessageStatus::Processed),
            2 => Some(EmailMessageStatus::Sent),
            3 => Some(EmailMessageStatus::Failed),
            4 => Some(EmailMessageStatus::Stopped),
            _ => None,
        }
    }

    /// The integer under which this status is stored.
    pub fn as_i32(self) -> (r: i32)
        ensures
            r as int == status_code(self),
    {
        match self {
            EmailMessageStatus::Created => 0,
            EmailMessageStatus::Processed => 1,
            EmailMessageStatus::Sent => 2,
            EmailMessageStatus::Failed => 3,
            EmailMessageStatus::Stopped => 4,
        }
    }

    /// The name of this status.
    pub fn as_str(self) -> (r: &'static str)
        ensures
            r@ == status_name(self),
    {
        match self {
            EmailMessageStatus::Created => "Created",
            EmailMessageStatus::Processed => "Processed",
            EmailMessageStatus::Sent => "Sent",
            EmailMessageStatus::Failed => "Failed",
            EmailMessageStatus::Stopped => "Stopped",
        }
    }
}

/// The name reported for a stored status code: the status's own name, or
/// `Unknown` for a code that names no status.
pub open spec fn code_name(v: int) -> Seq<char> {
    match status_of_code(v) {
        Some(s) => status_name(s),
        None => "Unknown"@,
    }
}

/// The name reported for a stored status code.
pub fn code_name_of(v: i32) -> (r: &'static str)
    ensures
        r@ == code_name(v as int),
{
    match EmailMessageStatus::from_i32(v) {
        Some(s) => s.as_str(),
        None => "Unknown",
    }
}

/// Reading back the stored code of any status gives that status, and the
/// codes of distinct statuses differ.
pub proof fn lemma_code_round_trip(s: EmailMessageStatus, t: EmailMessageStatus)
    ensures
        status_of_code(status_code(s)) == Some(s),
        0 <= status_code(s) <= 4,
        s != t ==> status_code(s) != status_code(t),
{
}

/// Distinct statuses have distinct names.
pub proof fn lemma_names_distinct(s: EmailMessageStatus, t: EmailMessageStatus)
    ensures
        s != t ==> status_name(s) != status_name(t),
{
    reveal_strlit("Created");
    reveal_strlit("Processed");
    reveal_strlit("Sent");
    reveal_strlit("Failed");
    reveal_strlit("Stopped");
    if s != t {
        assert(status_name(s).len() != status_name(t).len() || status_name(s)[0] != status_name(
            t,
        )[0] || status_name(s)[1] != status_name(t)[1]);
    }
}

} // verus!
