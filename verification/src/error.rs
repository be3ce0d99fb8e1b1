//! The errors of the library.
use crate::ids::ObjectId;
use crate::uuid_text;
use vstd::prelude::*;
use vstd::string::StringExecFns;

verus! {

/// What can go wrong.
#[derive(Debug)]
pub enum MiniRayError {
    /// An object is not in the store.
    MissingObject(ObjectId),
    /// A value could not be turned into bytes.
    Encode(String),
    /// Bytes or text could not be turned into a value.
    Decode(String),
    /// A task could not be executed.
    TaskFailed(String),
    /// The scheduler refused a request.
    Scheduler(String),
    /// The head node could not be reached, or refused a request.
    Transport(String),
}

/// The content of a [`MiniRayError`].
pub enum ErrorView {
    MissingObject(u128),
    Encode(Seq<char>),
    Decode(Seq<char>),
    TaskFailed(Seq<char>),
    Scheduler(Seq<char>),
    Transport(Seq<char>),
}

impl View for MiniRayError {
    type V = ErrorView;

    open spec fn view(&self) -> ErrorView {
        match self {
            MiniRayError::MissingObject(id) => ErrorView::MissingObject(id@),
            MiniRayError::Encode(message) => ErrorView::Encode(message@),
            MiniRayError::Decode(message) => ErrorView::Decode(message@),
            MiniRayError::TaskFailed(message) => ErrorView::TaskFailed(message@),
            MiniRayError::Scheduler(message) => ErrorView::Scheduler(message@),
            MiniRayError::Transport(message) => ErrorView::Transport(message@),
        }
    }
}

impl ErrorView {
    /// The error in words.
    pub open spec fn text(self) -> Seq<char> {
        match self {
            ErrorView::MissingObject(id) => {
                "object "@ + uuid_text::hyphenated_text(id) + " was not found"@
            },
            ErrorView::Encode(message) => "failed to encode value: "@ + message,
            ErrorView::Decode(message) => "failed to decode value: "@ + message,
            ErrorView::TaskFailed(message) => "task failed: "@ + message,
            ErrorView::Scheduler(message) => "scheduler error: "@ + message,
            ErrorView::Transport(message) => "transport error: "@ + message,
        }
    }
}

impl MiniRayError {
    /// The error in words.
    pub fn to_string(&self) -> (text: String)
        ensures
            text@ == self@.text(),
    {
        match self {
            MiniRayError::MissingObject(id) => {
                "object ".to_owned().concat(id.to_string().as_str()).concat(" was not found")
            },
            MiniRayError::Encode(message) => "failed to encode value: ".to_owned().concat(
                message.as_str(),
            ),
            MiniRayError::Decode(message) => "failed to decode value: ".to_owned().concat(
                message.as_str(),
            ),
            MiniRayError::TaskFailed(message) => "task failed: ".to_owned().concat(
                message.as_str(),
            ),
            MiniRayError::Scheduler(message) => "scheduler error: ".to_owned().concat(
                message.as_str(),
            ),
            MiniRayError::Transport(message) => "transport error: ".to_owned().concat(
                message.as_str(),
            ),
        }
    }
}

/// Every error says in words what went wrong, and gives the reason or names the object.
pub proof fn errors_say_what_went_wrong(id: u128, message: Seq<char>)
    ensures
        ErrorView::MissingObject(id).text() == "object "@ + uuid_text::hyphenated_text(id)
            + " was not found"@,
        ErrorView::Encode(message).text() == "failed to encode value: "@ + message,
        ErrorView::Decode(message).text() == "failed to decode value: "@ + message,
        ErrorView::TaskFailed(message).text() == "task failed: "@ + message,
        ErrorView::Scheduler(message).text() == "scheduler error: "@ + message,
        ErrorView::Transport(message).text() == "transport error: "@ + message,
{
}

/// The content of an error is of the same kind, and holds the same identifier or text.
pub proof fn errors_keep_their_kind(error: MiniRayError)
    ensures
        match error {
            MiniRayError::MissingObject(id) => error@ == ErrorView::MissingObject(id.0),
            MiniRayError::Encode(message) => error@ == ErrorView::Encode(message@),
            MiniRayError::Decode(message) => error@ == ErrorView::Decode(message@),
            MiniRayError::TaskFailed(message) => error@ == ErrorView::TaskFailed(message@),
            MiniRayError::Scheduler(message) => error@ == ErrorView::Scheduler(message@),
            MiniRayError::Transport(message) => error@ == ErrorView::Transport(message@),
        },
{
}

} // verus!
