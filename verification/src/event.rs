//! The capability every event payload must satisfy: display text, a
//! timestamp, a stable identity, and self-cloning, so that containers never
//! need to know the concrete payload kind.

use vstd::prelude::*;

verus! {

/// An event payload. Implementors fix three observations — presentation
/// text, timestamp (milliseconds), identity — and a deep copy that keeps
/// all three.
pub trait Event: Sized {
    /// The display text of the event, as the contracts see it.
    spec fn spec_presentation(&self) -> Seq<char>;

    /// The timestamp of the event in milliseconds, as the contracts see it.
    spec fn spec_time(&self) -> i64;

    /// The identity of the event, as the contracts see it.
    spec fn spec_id(&self) -> Seq<char>;

    /// Pre-rendered display text of the event.
    fn get_event_presentation(&self) -> (r: String)
        ensures
            r@ == self.spec_presentation(),
    ;

    /// When the event happened, in milliseconds.
    fn get_event_time(&self) -> (t: i64)
        ensures
            t == self.spec_time(),
    ;

    /// Stable identity of the event; equal across clones of the same
    /// logical event.
    fn get_event_id(&self) -> (r: String)
        ensures
            r@ == self.spec_id(),
    ;

    /// Deep copy of the event that keeps all three observations.
    fn clone_dyn(&self) -> (r: Self)
        ensures
            r.spec_presentation() == self.spec_presentation(),
            r.spec_time() == self.spec_time(),
            r.spec_id() == self.spec_id(),
    ;
}

/// A ready-made payload: a plain record of the three observations.
pub struct TextEvent {
    pub presentation: String,
    pub time_millis: i64,
    pub id: String,
}

impl TextEvent {
    pub fn new(presentation: String, time_millis: i64, id: String) -> (e: TextEvent)
        ensures
            e.spec_presentation() == presentation@,
            e.spec_time() == time_millis,
            e.spec_id() == id@,
    {
        TextEvent { presentation, time_millis, id }
    }
}

impl Event for TextEvent {
    open spec fn spec_presentation(&self) -> Seq<char> {
        self.presentation@
    }

    open spec fn spec_time(&self) -> i64 {
        self.time_millis
    }

    open spec fn spec_id(&self) -> Seq<char> {
        self.id@
    }

    fn get_event_presentation(&self) -> (r: String) {
        self.presentation.clone()
    }

    fn get_event_time(&self) -> (t: i64) {
        self.time_millis
    }

    fn get_event_id(&self) -> (r: String) {
        self.id.clone()
    }

    fn clone_dyn(&self) -> (r: Self) {
        TextEvent {
            presentation: self.presentation.clone(),
            time_millis: self.time_millis,
            id: self.id.clone(),
        }
    }
}

} // verus!
