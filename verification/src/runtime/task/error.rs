//! Why a task has no output.

use vstd::prelude::*;
use vstd::string::StringExecFns;

use super::id::Id;
use crate::runtime::text;

verus! {

/// What a task panicked with.
#[derive(Debug)]
pub enum Payload {
    /// A message.
    Text(String),
    /// Some other value, kept by whoever caught the panic under this token.
    Opaque(u64),
}

/// What a task panicked with.
pub enum PayloadView {
    Text(Seq<char>),
    Opaque(u64),
}

impl View for Payload {
    type V = PayloadView;

    open spec fn view(&self) -> PayloadView {
        match self {
            Payload::Text(s) => PayloadView::Text(s@),
            Payload::Opaque(token) => PayloadView::Opaque(*token),
        }
    }
}

#[derive(Debug)]
enum Repr {
    Cancelled,
    Panic(Payload),
}

/// A task that did not finish: it was cancelled, or it panicked.
#[derive(Debug)]
pub struct JoinError {
    repr: Repr,
    id: Id,
}

/// A task that did not finish.
pub struct JoinErrorView {
    /// What it panicked with, or `None` if it was cancelled.
    pub panic: Option<PayloadView>,
    pub id: Id,
}

impl View for JoinError {
    type V = JoinErrorView;

    closed spec fn view(&self) -> JoinErrorView {
        JoinErrorView {
            panic: match self.repr {
                Repr::Cancelled => None,
                Repr::Panic(p) => Some(p@),
            },
            id: self.id,
        }
    }
}

impl JoinErrorView {
    /// The message: which task it was and what happened to it.
    pub open spec fn message(self) -> Seq<char> {
        match self.panic {
            None => "task "@ + text::decimal(self.id@ as nat) + " was cancelled"@,
            Some(PayloadView::Text(s)) => "task "@ + text::decimal(self.id@ as nat)
                + " panicked with message "@ + text::quoted(s),
            Some(PayloadView::Opaque(_)) => "task "@ + text::decimal(self.id@ as nat)
                + " panicked"@,
        }
    }

    /// The same for whoever debugs it.
    pub open spec fn debug_message(self) -> Seq<char> {
        match self.panic {
            None => "JoinError::Cancelled(Id { v: "@ + text::decimal(self.id@ as nat) + " })"@,
            Some(PayloadView::Text(s)) => "JoinError::Panic(Id { v: "@ + text::decimal(
                self.id@ as nat,
            ) + " }, "@ + text::quoted(s) + ", ...)"@,
            Some(PayloadView::Opaque(_)) => "JoinError::Panic(Id { v: "@ + text::decimal(
                self.id@ as nat,
            ) + " }, ...)"@,
        }
    }
}

impl JoinError {
    /// The task was cancelled.
    pub fn cancelled(id: Id) -> (error: JoinError)
        ensures
            error@ == (JoinErrorView { panic: None, id }),
    {
        JoinError { repr: Repr::Cancelled, id }
    }

    /// The task panicked.
    pub fn panic(id: Id, payload: Payload) -> (error: JoinError)
        ensures
            error@ == (JoinErrorView { panic: Some(payload@), id }),
    {
        JoinError { repr: Repr::Panic(payload), id }
    }

    /// Whether the task was cancelled.
    pub fn is_cancelled(&self) -> (yes: bool)
        ensures
            yes == (self@.panic is None),
    {
        match &self.repr {
            Repr::Cancelled => true,
            Repr::Panic(_) => false,
        }
    }

    /// Whether the task panicked.
    pub fn is_panic(&self) -> (yes: bool)
        ensures
            yes == (self@.panic is Some),
    {
        match &self.repr {
            Repr::Cancelled => false,
            Repr::Panic(_) => true,
        }
    }

    /// What the task panicked with. It must have panicked.
    pub fn into_panic(self) -> (payload: Payload)
        requires
            self@.panic is Some,
        ensures
            Some(payload@) == self@.panic,
    {
        match self.repr {
            Repr::Panic(payload) => payload,
            // It panicked, so this is never reached.
            Repr::Cancelled => Payload::Opaque(0),
        }
    }

    /// What the task panicked with, or the error again if it did not.
    pub fn try_into_panic(self) -> (payload: Result<Payload, JoinError>)
        ensures
            match payload {
                Ok(payload) => self@.panic == Some(payload@),
                Err(error) => self@.panic is None && error == self,
            },
    {
        match self.repr {
            Repr::Panic(payload) => Ok(payload),
            Repr::Cancelled => Err(JoinError { repr: Repr::Cancelled, id: self.id }),
        }
    }

    /// The task.
    pub fn id(&self) -> (id: Id)
        ensures
            id == self@.id,
    {
        self.id
    }

    /// The message: which task it was and what happened to it.
    pub fn message(&self) -> (text: String)
        ensures
            text@ == self@.message(),
    {
        let mut text = "task ".to_owned();
        text.append(self.id.text().as_str());
        match &self.repr {
            Repr::Cancelled => {
                text.append(" was cancelled");
            },
            Repr::Panic(Payload::Text(s)) => {
                text.append(" panicked with message ");
                text.append(text::quote(s.as_str()).as_str());
            },
            Repr::Panic(Payload::Opaque(_)) => {
                text.append(" panicked");
            },
        }
        text
    }

    /// The same for whoever debugs it.
    pub fn debug_message(&self) -> (text: String)
        ensures
            text@ == self@.debug_message(),
    {
        match &self.repr {
            Repr::Cancelled => {
                let mut text = "JoinError::Cancelled(Id { v: ".to_owned();
                text.append(self.id.text().as_str());
                text.append(" })");
                text
            },
            Repr::Panic(Payload::Text(s)) => {
                let mut text = "JoinError::Panic(Id { v: ".to_owned();
                text.append(self.id.text().as_str());
                text.append(" }, ");
                text.append(text::quote(s.as_str()).as_str());
                text.append(", ...)");
                text
            },
            Repr::Panic(Payload::Opaque(_)) => {
                let mut text = "JoinError::Panic(Id { v: ".to_owned();
                text.append(self.id.text().as_str());
                text.append(" }, ...)");
                text
            },
        }
    }
}

/// What the message is of, for every task: the number of the task, and that it was
/// cancelled, that it panicked, or what it panicked with.
pub proof fn lemma_what_a_message_says(id: Id, s: Seq<char>, token: u64)
    ensures
        (JoinErrorView { panic: None, id }).message() == "task "@ + text::decimal(id@ as nat)
            + " was cancelled"@,
        (JoinErrorView { panic: Some(PayloadView::Text(s)), id }).message() == "task "@
            + text::decimal(id@ as nat) + " panicked with message "@ + text::quoted(s),
        (JoinErrorView { panic: Some(PayloadView::Opaque(token)), id }).message() == "task "@
            + text::decimal(id@ as nat) + " panicked"@,
        (JoinErrorView { panic: None, id }).debug_message() == "JoinError::Cancelled(Id { v: "@
            + text::decimal(id@ as nat) + " })"@,
        (JoinErrorView { panic: Some(PayloadView::Text(s)), id }).debug_message()
            == "JoinError::Panic(Id { v: "@ + text::decimal(id@ as nat) + " }, "@ + text::quoted(s)
            + ", ...)"@,
        (JoinErrorView { panic: Some(PayloadView::Opaque(token)), id }).debug_message()
            == "JoinError::Panic(Id { v: "@ + text::decimal(id@ as nat) + " }, ...)"@,
{
}

/// Tasks are told apart by their messages: two that were cancelled, or that panicked
/// with something other than a message, have the same one only if they have the same
/// number.
pub proof fn lemma_messages_tell_tasks_apart(a: JoinErrorView, b: JoinErrorView)
    requires
        !(a.panic matches Some(PayloadView::Text(_))),
        a.panic is Some <==> b.panic is Some,
        !(b.panic matches Some(PayloadView::Text(_))),
    ensures
        a.message() == b.message() ==> a.id@ == b.id@,
        a.debug_message() == b.debug_message() ==> a.id@ == b.id@,
{
    let m = text::decimal(a.id@ as nat);
    let n = text::decimal(b.id@ as nat);
    if a.message() == b.message() {
        let end = if a.panic is None {
            " was cancelled"@
        } else {
            " panicked"@
        };
        lemma_between("task "@, m, n, end);
        text::lemma_numbers_are_told_apart(a.id@ as nat, b.id@ as nat);
    }
    if a.debug_message() == b.debug_message() {
        if a.panic is None {
            lemma_between("JoinError::Cancelled(Id { v: "@, m, n, " })"@);
        } else {
            lemma_between("JoinError::Panic(Id { v: "@, m, n, " }, ...)"@);
        }
        text::lemma_numbers_are_told_apart(a.id@ as nat, b.id@ as nat);
    }
}

/// What stands between the same two strings is the same if the whole is.
proof fn lemma_between(start: Seq<char>, m: Seq<char>, n: Seq<char>, end: Seq<char>)
    ensures
        start + m + end == start + n + end ==> m == n,
{
    let a = start + m + end;
    let b = start + n + end;
    if a == b {
        assert(a.len() == start.len() + m.len() + end.len());
        assert(b.len() == start.len() + n.len() + end.len());
        assert(m =~= a.subrange(start.len() as int, (start.len() + m.len()) as int));
        assert(n =~= b.subrange(start.len() as int, (start.len() + n.len()) as int));
    }
}

/// What a task panicked with is all of it: the message, or the token.
pub proof fn lemma_what_a_payload_is(payload: Payload)
    ensures
        payload matches Payload::Text(s) ==> payload@ == PayloadView::Text(s@),
        payload matches Payload::Opaque(token) ==> payload@ == PayloadView::Opaque(token),
{
}

} // verus!
