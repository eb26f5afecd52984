//! The events that a player reports to its listeners, and the errors they carry.

use vstd::prelude::*;

use crate::player::switch::VariantEvent;
use crate::text::{chars_eq, chars_of};
use vstd::string::StringExecFns;

verus! {

/// The kinds of events a listener can subscribe to.
#[derive(Debug, Clone, Copy, PartialEq, Eq, Structural, Hash)]
pub enum EventType {
    Error,
    LoadStart,
    ManifestLoaded,
    Variant,
    LowLatency,
    Abr,
    Dvr,
    Realtime,
    Destroyed,
    Stopped,
    Started,
    Finished,
    Visibility,
}

/// What went wrong, broadly.
#[derive(Debug, Clone, Copy, PartialEq, Eq, Structural)]
pub enum ErrorCode {
    Network,
    Decode,
    Other,
}

/// An error reported to listeners: its kind, a message, and whether it ends playback.
#[derive(Debug, Clone)]
pub struct EventError {
    pub code: ErrorCode,
    pub message: String,
    pub fatal: bool,
}

/// An event reported to listeners.
#[derive(Debug, Clone)]
pub enum UserEvent {
    Error(EventError),
    LoadStart,
    Stopped,
    Started,
    ManifestLoaded,
    Variant(VariantEvent),
    LowLatency,
    Abr,
    Dvr,
    Visibility,
    Realtime,
    Destroyed,
    Finished,
}

/// The event kind with the given name, if any. The start of loading is
/// named `load`, as the player's event list documents it; `loadstart` is
/// accepted too.
pub open spec fn event_type_named(s: Seq<char>) -> Option<EventType> {
    if s == "error"@ {
        Some(EventType::Error)
    } else if s == "load"@ || s == "loadstart"@ {
        Some(EventType::LoadStart)
    } else if s == "manifestloaded"@ {
        Some(EventType::ManifestLoaded)
    } else if s == "variant"@ {
        Some(EventType::Variant)
    } else if s == "lowlatency"@ {
        Some(EventType::LowLatency)
    } else if s == "abr"@ {
        Some(EventType::Abr)
    } else if s == "dvr"@ {
        Some(EventType::Dvr)
    } else if s == "realtime"@ {
        Some(EventType::Realtime)
    } else if s == "destroyed"@ {
        Some(EventType::Destroyed)
    } else if s == "stopped"@ {
        Some(EventType::Stopped)
    } else if s == "started"@ {
        Some(EventType::Started)
    } else if s == "finished"@ {
        Some(EventType::Finished)
    } else if s == "visibility"@ {
        Some(EventType::Visibility)
    } else {
        None
    }
}

/// The kind of an event.
pub open spec fn event_kind(e: UserEvent) -> EventType {
    match e {
        UserEvent::Error(_) => EventType::Error,
        UserEvent::LoadStart => EventType::LoadStart,
        UserEvent::ManifestLoaded => EventType::ManifestLoaded,
        UserEvent::Variant(_) => EventType::Variant,
        UserEvent::LowLatency => EventType::LowLatency,
        UserEvent::Abr => EventType::Abr,
        UserEvent::Dvr => EventType::Dvr,
        UserEvent::Realtime => EventType::Realtime,
        UserEvent::Destroyed => EventType::Destroyed,
        UserEvent::Stopped => EventType::Stopped,
        UserEvent::Started => EventType::Started,
        UserEvent::Finished => EventType::Finished,
        UserEvent::Visibility => EventType::Visibility,
    }
}

impl EventType {
    /// The event kind named by `s` (the lower-case name of the kind, `load`
    /// or `loadstart` for the start of loading), if any.
    pub fn from_name(s: &str) -> (r: Option<EventType>)
        ensures
            r == event_type_named(s@),
    {
        let v = chars_of(s);
        if chars_eq(&v, "error") {
            Some(EventType::Error)
        } else if chars_eq(&v, "load") || chars_eq(&v, "loadstart") {
            Some(EventType::LoadStart)
        } else if chars_eq(&v, "manifestloaded") {
            Some(EventType::ManifestLoaded)
        } else if chars_eq(&v, "variant") {
            Some(EventType::Variant)
        } else if chars_eq(&v, "lowlatency") {
            Some(EventType::LowLatency)
        } else if chars_eq(&v, "abr") {
            Some(EventType::Abr)
        } else if chars_eq(&v, "dvr") {
            Some(EventType::Dvr)
        } else if chars_eq(&v, "realtime") {
            Some(EventType::Realtime)
        } else if chars_eq(&v, "destroyed") {
            Some(EventType::Destroyed)
        } else if chars_eq(&v, "stopped") {
            Some(EventType::Stopped)
        } else if chars_eq(&v, "started") {
            Some(EventType::Started)
        } else if chars_eq(&v, "finished") {
            Some(EventType::Finished)
        } else if chars_eq(&v, "visibility") {
            Some(EventType::Visibility)
        } else {
            None
        }
    }
}

impl std::str::FromStr for EventType {
    type Err = ();

    /// The event kind named by `s`; an error for any other name.
    fn from_str(s: &str) -> (r: Result<EventType, ()>)
        ensures
            r == (match event_type_named(s@) {
                Some(t) => Ok::<EventType, ()>(t),
                None => Err::<EventType, ()>(()),
            }),
    {
        match EventType::from_name(s) {
            Some(t) => Ok(t),
            None => Err(()),
        }
    }
}

impl UserEvent {
    /// The kind of this event, which decides the listeners it reaches.
    pub fn ty(&self) -> (r: EventType)
        ensures
            r == event_kind(*self),
    {
        match self {
            UserEvent::Error(_) => EventType::Error,
            UserEvent::LoadStart => EventType::LoadStart,
            UserEvent::ManifestLoaded => EventType::ManifestLoaded,
            UserEvent::Variant(_) => EventType::Variant,
            UserEvent::LowLatency => EventType::LowLatency,
            UserEvent::Abr => EventType::Abr,
            UserEvent::Dvr => EventType::Dvr,
            UserEvent::Realtime => EventType::Realtime,
            UserEvent::Destroyed => EventType::Destroyed,
            UserEvent::Stopped => EventType::Stopped,
            UserEvent::Started => EventType::Started,
            UserEvent::Finished => EventType::Finished,
            UserEvent::Visibility => EventType::Visibility,
        }
    }
}

impl EventError {
    /// An error of kind `code` with `message`, fatal or not.
    pub fn new(code: ErrorCode, message: String, fatal: bool) -> (r: EventError)
        ensures
            r.code == code,
            r.message == message,
            r.fatal == fatal,
    {
        EventError { code, message, fatal }
    }

    /// Marks the error fatal or not, keeping its kind and message.
    pub fn set_fatal(&mut self, fatal: bool)
        ensures
            final(self).fatal == fatal,
            final(self).code == old(self).code,
            final(self).message == old(self).message,
    {
        self.fatal = fatal;
    }
}

/// A playlist error: fetching failed too many times, or took too long.
pub fn playlist_error(too_many: bool) -> (r: EventError)
    ensures
        r.code == ErrorCode::Other,
        r.fatal == too_many,
        r.message@ == (if too_many {
            "failed to fetch playlist too many times"@
        } else {
            "failed to fetch playlist, request took too long"@
        }),
{
    if too_many {
        EventError::new(ErrorCode::Other, String::from_str("failed to fetch playlist too many times"), true)
    } else {
        EventError::new(
            ErrorCode::Other,
            String::from_str("failed to fetch playlist, request took too long"),
            false,
        )
    }
}

} // verus!
