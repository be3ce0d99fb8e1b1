//! Identifiers of objects, tasks, workers and actors.
use crate::error::{ErrorView, MiniRayError};
use crate::uuid_text;
use vstd::prelude::*;

verus! {

/// Identifies an object.
#[derive(Clone, Copy, Debug, PartialEq, Eq, Hash, Structural)]
pub struct ObjectId(pub u128);

impl View for ObjectId {
    type V = u128;

    open spec fn view(&self) -> u128 {
        self.0
    }
}

impl ObjectId {
    /// A fresh identifier, drawn at random.
    pub fn new() -> (id: Self)
        ensures
            uuid_text::may_draw(id@),
            id@ & 0xf000_c000_0000_0000_0000 == 0x4000_8000_0000_0000_0000,
    {
        ObjectId(uuid_text::draw_uuid())
    }

    /// Reads an identifier from its text. Every identifier is read back from the text that
    /// `to_string` gives it.
    pub fn from_string(value: &str) -> (r: Result<Self, MiniRayError>)
        ensures
            match uuid_text::read_uuid(value@) {
                Some(number) => r == Ok::<ObjectId, MiniRayError>(ObjectId(number)),
                None => r matches Err(e) && e@ == ErrorView::Decode(
                    uuid_text::uuid_parse_error(value@),
                ),
            },
            forall|id: ObjectId|
                value@ == #[trigger] id.text() ==> r == Ok::<ObjectId, MiniRayError>(id),
    {
        let parsed = uuid_text::parse_uuid(value);
        proof {
            assert forall|id: ObjectId| value@ == #[trigger] id.text() implies uuid_text::read_uuid(
                value@,
            ) == Some(id@) by {
                uuid_text::text_reads_back(id@);
            }
        }
        match parsed {
            Ok(number) => Ok(ObjectId(number)),
            Err(message) => Err(MiniRayError::Decode(message)),
        }
    }

    /// The text of the identifier.
    pub open spec fn text(&self) -> Seq<char> {
        uuid_text::hyphenated_text(self@)
    }

    /// The identifier's text.
    pub fn to_string(&self) -> (text: String)
        ensures
            text@ == self.text(),
    {
        uuid_text::write_uuid(self.0)
    }

    /// Two identifiers with the same text are the same.
    pub proof fn text_injective(a: Self, b: Self)
        requires
            a.text() == b.text(),
        ensures
            a == b,
    {
        uuid_text::hyphenated_text_injective(a@, b@);
    }
}

impl Default for ObjectId {
    fn default() -> (id: Self)
        ensures
            uuid_text::may_draw(id@),
            id@ & 0xf000_c000_0000_0000_0000 == 0x4000_8000_0000_0000_0000,
    {
        Self::new()
    }
}

/// Identifies a task.
#[derive(Clone, Copy, Debug, PartialEq, Eq, Hash, Structural)]
pub struct TaskId(pub u128);

impl View for TaskId {
    type V = u128;

    open spec fn view(&self) -> u128 {
        self.0
    }
}

impl TaskId {
    /// A fresh identifier, drawn at random.
    pub fn new() -> (id: Self)
        ensures
            uuid_text::may_draw(id@),
            id@ & 0xf000_c000_0000_0000_0000 == 0x4000_8000_0000_0000_0000,
    {
        TaskId(uuid_text::draw_uuid())
    }

    /// Reads an identifier from its text. Every identifier is read back from the text that
    /// `to_string` gives it.
    pub fn from_string(value: &str) -> (r: Result<Self, MiniRayError>)
        ensures
            match uuid_text::read_uuid(value@) {
                Some(number) => r == Ok::<TaskId, MiniRayError>(TaskId(number)),
                None => r matches Err(e) && e@ == ErrorView::Decode(
                    uuid_text::uuid_parse_error(value@),
                ),
            },
            forall|id: TaskId|
                value@ == #[trigger] id.text() ==> r == Ok::<TaskId, MiniRayError>(id),
    {
        let parsed = uuid_text::parse_uuid(value);
        proof {
            assert forall|id: TaskId| value@ == #[trigger] id.text() implies uuid_text::read_uuid(
                value@,
            ) == Some(id@) by {
                uuid_text::text_reads_back(id@);
            }
        }
        match parsed {
            Ok(number) => Ok(TaskId(number)),
            Err(message) => Err(MiniRayError::Decode(message)),
        }
    }

    /// The text of the identifier.
    pub open spec fn text(&self) -> Seq<char> {
        uuid_text::hyphenated_text(self@)
    }

    /// The identifier's text.
    pub fn to_string(&self) -> (text: String)
        ensures
            text@ == self.text(),
    {
        uuid_text::write_uuid(self.0)
    }

    /// Two identifiers with the same text are the same.
    pub proof fn text_injective(a: Self, b: Self)
        requires
            a.text() == b.text(),
        ensures
            a == b,
    {
        uuid_text::hyphenated_text_injective(a@, b@);
    }
}

impl Default for TaskId {
    fn default() -> (id: Self)
        ensures
            uuid_text::may_draw(id@),
            id@ & 0xf000_c000_0000_0000_0000 == 0x4000_8000_0000_0000_0000,
    {
        Self::new()
    }
}

/// Identifies a worker.
#[derive(Clone, Copy, Debug, PartialEq, Eq, Hash, Structural)]
pub struct WorkerId(pub u128);

impl View for WorkerId {
    type V = u128;

    open spec fn view(&self) -> u128 {
        self.0
    }
}

impl WorkerId {
    /// A fresh identifier, drawn at random.
    pub fn new() -> (id: Self)
        ensures
            uuid_text::may_draw(id@),
            id@ & 0xf000_c000_0000_0000_0000 == 0x4000_8000_0000_0000_0000,
    {
        WorkerId(uuid_text::draw_uuid())
    }

    /// Reads an identifier from its text. Every identifier is read back from the text that
    /// `to_string` gives it.
    pub fn from_string(value: &str) -> (r: Result<Self, MiniRayError>)
        ensures
            match uuid_text::read_uuid(value@) {
                Some(number) => r == Ok::<WorkerId, MiniRayError>(WorkerId(number)),
                None => r matches Err(e) && e@ == ErrorView::Decode(
                    uuid_text::uuid_parse_error(value@),
                ),
            },
            forall|id: WorkerId|
                value@ == #[trigger] id.text() ==> r == Ok::<WorkerId, MiniRayError>(id),
    {
        let parsed = uuid_text::parse_uuid(value);
        proof {
            assert forall|id: WorkerId| value@ == #[trigger] id.text() implies uuid_text::read_uuid(
                value@,
            ) == Some(id@) by {
                uuid_text::text_reads_back(id@);
            }
        }
        match parsed {
            Ok(number) => Ok(WorkerId(number)),
            Err(message) => Err(MiniRayError::Decode(message)),
        }
    }

    /// The text of the identifier.
    pub open spec fn text(&self) -> Seq<char> {
        uuid_text::hyphenated_text(self@)
    }

    /// The identifier's text.
    pub fn to_string(&self) -> (text: String)
        ensures
            text@ == self.text(),
    {
        uuid_text::write_uuid(self.0)
    }

    /// Two identifiers with the same text are the same.
    pub proof fn text_injective(a: Self, b: Self)
        requires
            a.text() == b.text(),
        ensures
            a == b,
    {
        uuid_text::hyphenated_text_injective(a@, b@);
    }
}

impl Default for WorkerId {
    fn default() -> (id: Self)
        ensures
            uuid_text::may_draw(id@),
            id@ & 0xf000_c000_0000_0000_0000 == 0x4000_8000_0000_0000_0000,
    {
        Self::new()
    }
}

/// Identifies an actor.
#[derive(Clone, Copy, Debug, PartialEq, Eq, Hash, Structural)]
pub struct ActorId(pub u128);

impl View for ActorId {
    type V = u128;

    open spec fn view(&self) -> u128 {
        self.0
    }
}

impl ActorId {
    /// A fresh identifier, drawn at random.
    pub fn new() -> (id: Self)
        ensures
            uuid_text::may_draw(id@),
            id@ & 0xf000_c000_0000_0000_0000 == 0x4000_8000_0000_0000_0000,
    {
        ActorId(uuid_text::draw_uuid())
    }

    /// Reads an identifier from its text. Every identifier is read back from the text that
    /// `to_string` gives it.
    pub fn from_string(value: &str) -> (r: Result<Self, MiniRayError>)
        ensures
            match uuid_text::read_uuid(value@) {
                Some(number) => r == Ok::<ActorId, MiniRayError>(ActorId(number)),
                None => r matches Err(e) && e@ == ErrorView::Decode(
                    uuid_text::uuid_parse_error(value@),
                ),
            },
            forall|id: ActorId|
                value@ == #[trigger] id.text() ==> r == Ok::<ActorId, MiniRayError>(id),
    {
        let parsed = uuid_text::parse_uuid(value);
        proof {
            assert forall|id: ActorId| value@ == #[trigger] id.text() implies uuid_text::read_uuid(
                value@,
            ) == Some(id@) by {
                uuid_text::text_reads_back(id@);
            }
        }
        match parsed {
            Ok(number) => Ok(ActorId(number)),
            Err(message) => Err(MiniRayError::Decode(message)),
        }
    }

    /// The text of the identifier.
    pub open spec fn text(&self) -> Seq<char> {
        uuid_text::hyphenated_text(self@)
    }

    /// The identifier's text.
    pub fn to_string(&self) -> (text: String)
        ensures
            text@ == self.text(),
    {
        uuid_text::write_uuid(self.0)
    }

    /// Two identifiers with the same text are the same.
    pub proof fn text_injective(a: Self, b: Self)
        requires
            a.text() == b.text(),
        ensures
            a == b,
    {
        uuid_text::hyphenated_text_injective(a@, b@);
    }
}

impl Default for ActorId {
    fn default() -> (id: Self)
        ensures
            uuid_text::may_draw(id@),
            id@ & 0xf000_c000_0000_0000_0000 == 0x4000_8000_0000_0000_0000,
    {
        Self::new()
    }
}

/// The text of every identifier is the hyphenated one of its number.
pub proof fn texts_are_hyphenated(object: ObjectId, task: TaskId, worker: WorkerId, actor: ActorId)
    ensures
        object.text() == uuid_text::hyphenated_text(object.0),
        task.text() == uuid_text::hyphenated_text(task.0),
        worker.text() == uuid_text::hyphenated_text(worker.0),
        actor.text() == uuid_text::hyphenated_text(actor.0),
{
}

} // verus!
