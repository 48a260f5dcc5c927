//! The status of a task, and its stable name.

use crate::error::{refusal, EngineError, ErrorKind};
use crate::text::text_eq;
use vstd::prelude::*;
use vstd::string::*;

verus! {

/// Where a task stands in its life.
#[derive(Clone, Copy, Debug, PartialEq, Eq, Structural)]
pub enum TaskStatus {
    Todo,
    InProgress,
    InReview,
    Done,
    Cancelled,
}

/// The message for a text that names no status.
pub open spec fn unknown_status_message(text: Seq<char>) -> Seq<char> {
    "Unknown task status: "@ + text
}

impl TaskStatus {
    /// The name under which the status is stored and compared.
    pub open spec fn name(self) -> Seq<char> {
        match self {
            TaskStatus::Todo => "todo"@,
            TaskStatus::InProgress => "inprogress"@,
            TaskStatus::InReview => "inreview"@,
            TaskStatus::Done => "done"@,
            TaskStatus::Cancelled => "cancelled"@,
        }
    }

    /// The status that `text` names, if any.
    pub open spec fn parse(text: Seq<char>) -> Option<TaskStatus> {
        if text == "todo"@ {
            Some(TaskStatus::Todo)
        } else if text == "inprogress"@ {
            Some(TaskStatus::InProgress)
        } else if text == "inreview"@ {
            Some(TaskStatus::InReview)
        } else if text == "done"@ {
            Some(TaskStatus::Done)
        } else if text == "cancelled"@ {
            Some(TaskStatus::Cancelled)
        } else {
            None
        }
    }

    /// The name under which the status is stored and compared.
    pub fn as_str(&self) -> (s: &'static str)
        ensures
            s@ == self.name(),
    {
        match self {
            TaskStatus::Todo => "todo",
            TaskStatus::InProgress => "inprogress",
            TaskStatus::InReview => "inreview",
            TaskStatus::Done => "done",
            TaskStatus::Cancelled => "cancelled",
        }
    }

    /// The name of the status, as an owned text.
    pub fn to_string(&self) -> (s: String)
        ensures
            s@ == self.name(),
    {
        self.as_str().to_owned()
    }

    /// Reads a status from its name. Any other text is a validation error.
    pub fn from_str(text: &str) -> (r: Result<TaskStatus, EngineError>)
        ensures
            match r {
                Ok(status) => Self::parse(text@) == Some(status),
                Err(e) => Self::parse(text@) is None && e@ == refusal(
                    ErrorKind::Validation,
                    unknown_status_message(text@),
                ),
            },
    {
        if text_eq(text, "todo") {
            Ok(TaskStatus::Todo)
        } else if text_eq(text, "inprogress") {
            Ok(TaskStatus::InProgress)
        } else if text_eq(text, "inreview") {
            Ok(TaskStatus::InReview)
        } else if text_eq(text, "done") {
            Ok(TaskStatus::Done)
        } else if text_eq(text, "cancelled") {
            Ok(TaskStatus::Cancelled)
        } else {
            let mut message = String::from_str("Unknown task status: ");
            message.append(text);
            Err(EngineError { kind: ErrorKind::Validation, message })
        }
    }
}

/// Every status is read back from its own name.
pub proof fn law_status_is_read_back(status: TaskStatus)
    ensures
        TaskStatus::parse(status.name()) == Some(status),
{
    reveal_strlit("todo");
    reveal_strlit("inprogress");
    reveal_strlit("inreview");
    reveal_strlit("done");
    reveal_strlit("cancelled");
    assert("todo"@.len() == 4);
    assert("inprogress"@.len() == 10);
    assert("inreview"@.len() == 8);
    assert("done"@.len() == 4);
    assert("cancelled"@.len() == 9);
    assert("todo"@[0] == 't');
    assert("done"@[0] == 'd');
}

/// Two statuses with the same name are the same status.
pub proof fn law_status_names_differ(a: TaskStatus, b: TaskStatus)
    requires
        a.name() == b.name(),
    ensures
        a == b,
{
    law_status_is_read_back(a);
    law_status_is_read_back(b);
}

/// Whether `list` holds `status`.
pub fn contains_status(list: &[TaskStatus], status: TaskStatus) -> (found: bool)
    ensures
        found == list@.contains(status),
{
    let mut i: usize = 0;
    while i < list.len()
        invariant
            i <= list.len(),
            forall|j: int| 0 <= j < i ==> list@[j] != status,
        decreases list.len() - i,
    {
        if list[i] == status {
            return true;
        }
        i += 1;
    }
    false
}

/// The statuses that `names` name, in order; or the refusal for the first
/// name that is no status.
pub open spec fn decode_statuses(names: Seq<Seq<char>>) -> Result<Seq<TaskStatus>, Seq<char>>
    decreases names.len(),
{
    if names.len() == 0 {
        Ok(Seq::empty())
    } else {
        match decode_statuses(names.drop_last()) {
            Err(name) => Err(name),
            Ok(prefix) => match TaskStatus::parse(names.last()) {
                Some(status) => Ok(prefix.push(status)),
                None => Err(names.last()),
            },
        }
    }
}

/// `decode_statuses` succeeds exactly when every name is a status, and then
/// gives the statuses one for one; when it fails, it gives the first name
/// that is no status.
pub proof fn lemma_decode_statuses(names: Seq<Seq<char>>)
    ensures
        decode_statuses(names) is Ok <==> forall|i: int|
            0 <= i < names.len() ==> TaskStatus::parse(#[trigger] names[i]) is Some,
        decode_statuses(names) matches Ok(statuses) ==> statuses.len() == names.len()
            && forall|i: int|
            0 <= i < names.len() ==> TaskStatus::parse(names[i]) == Some(#[trigger] statuses[i]),
        decode_statuses(names) matches Err(name) ==> exists|i: int|
            0 <= i < names.len() && #[trigger] names[i] == name && TaskStatus::parse(name) is None
                && forall|j: int| 0 <= j < i ==> TaskStatus::parse(#[trigger] names[j]) is Some,
    decreases names.len(),
{
    if names.len() > 0 {
        let init = names.drop_last();
        lemma_decode_statuses(init);
        assert(forall|i: int| 0 <= i < init.len() ==> init[i] == names[i]);
        match decode_statuses(init) {
            Err(name) => {
                let i = choose|i: int|
                    0 <= i < init.len() && #[trigger] init[i] == name && TaskStatus::parse(name)
                        is None && forall|j: int|
                        0 <= j < i ==> TaskStatus::parse(#[trigger] init[j]) is Some;
                assert(names[i] == name);
                assert(forall|j: int| 0 <= j < i ==> init[j] == names[j]);
            },
            Ok(prefix) => {
                if TaskStatus::parse(names.last()) is None {
                    let i = names.len() - 1;
                    assert(names[i] == names.last());
                }
            },
        }
    }
}

/// Reads each name as a status. The first name that is no status makes the
/// whole list a deserialization error.
pub fn statuses_from_names(names: &Vec<String>) -> (r: Result<Vec<TaskStatus>, EngineError>)
    ensures
        match r {
            Ok(statuses) => decode_statuses(names.deep_view()) == Ok::<
                Seq<TaskStatus>,
                Seq<char>,
            >(statuses@),
            Err(e) => decode_statuses(names.deep_view()) matches Err(name) && e@ == refusal(
                ErrorKind::Deserialization,
                unknown_status_message(name),
            ),
        },
{
    let mut statuses: Vec<TaskStatus> = Vec::new();
    let mut i: usize = 0;
    while i < names.len()
        invariant
            i <= names.len(),
            decode_statuses(names.deep_view().take(i as int)) == Ok::<Seq<TaskStatus>, Seq<char>>(
                statuses@,
            ),
        decreases names.len() - i,
    {
        let ghost all = names.deep_view();
        proof {
            assert(all.take(i + 1).drop_last() =~= all.take(i as int));
            assert(all.take(i + 1).last() == names[i as int]@);
        }
        match TaskStatus::from_str(names[i].as_str()) {
            Ok(status) => {
                statuses.push(status);
            },
            Err(e) => {
                proof {
                    lemma_decode_stays_failed(all, i + 1);
                }
                return Err(EngineError { kind: ErrorKind::Deserialization, message: e.message });
            },
        }
        i += 1;
    }
    proof {
        assert(names.deep_view().take(names.len() as int) =~= names.deep_view());
    }
    Ok(statuses)
}

/// Once a prefix of the names fails, the whole list fails on the same name.
proof fn lemma_decode_stays_failed(names: Seq<Seq<char>>, n: int)
    requires
        0 <= n <= names.len(),
        decode_statuses(names.take(n)) is Err,
    ensures
        decode_statuses(names) == decode_statuses(names.take(n)),
    decreases names.len() - n,
{
    if n == names.len() {
        assert(names.take(n) =~= names);
    } else {
        assert(names.take(n + 1).drop_last() =~= names.take(n));
        lemma_decode_stays_failed(names, n + 1);
    }
}

} // verus!
