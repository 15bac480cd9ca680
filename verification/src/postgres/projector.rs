//! Persistence guarantees a projector asks for.
use vstd::prelude::*;

verus! {

/// Which guarantee a projector has while projecting an event in the read side.
/// - `Mandatory`: the projected data is always available in the read side; if a
///   mandatory projector fails, the event is not stored and the transaction rolls back.
/// - `Fallible`: no guarantee; if a fallible projector fails, the event is stored
///   anyway and nothing of that projector is persisted.
#[derive(Clone, Copy, Debug, PartialEq, Eq, Structural)]
pub enum ProjectorPersistence {
    Mandatory,
    Fallible,
}

/// The label of a persistence level.
pub open spec fn persistence_label(p: ProjectorPersistence) -> Seq<char> {
    match p {
        ProjectorPersistence::Mandatory => "mandatory"@,
        ProjectorPersistence::Fallible => "fallible"@,
    }
}

impl AsRef<str> for ProjectorPersistence {
    fn as_ref(&self) -> (s: &str)
        ensures
            s@ == persistence_label(*self),
    {
        match self {
            ProjectorPersistence::Mandatory => "mandatory",
            ProjectorPersistence::Fallible => "fallible",
        }
    }
}

} // verus!
