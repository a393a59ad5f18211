use vstd::prelude::*;

verus! {

/// Why playback of a file ended.
#[derive(PartialEq, Eq, Structural, Clone, Copy, Debug)]
pub enum EndFileReason {
    EOF,
    Stop,
    Quit,
    Error,
    Redirect,
    Unknown,
}

/// An unsolicited notification. Text carried by a variant is kept as the
/// frame gave it: `PropertyChange`'s `data` holds the raw bytes of the
/// property's value member.
#[derive(Debug, PartialEq, Eq)]
pub enum MpvEvent {
    StartFile { playlist_entry_id: u32 },
    EndFile { reason: EndFileReason },
    Pause,
    Unpause,
    PlaybackRestart,
    FileLoaded,
    TracksChanged,
    ChapterChange,
    PropertyChange { name: Vec<u8>, data: Vec<u8> },
    UnknownEvent(Vec<u8>),
}

/// The mathematical image of [`MpvEvent`].
pub enum EventV {
    StartFile { playlist_entry_id: u32 },
    EndFile { reason: EndFileReason },
    Pause,
    Unpause,
    PlaybackRestart,
    FileLoaded,
    TracksChanged,
    ChapterChange,
    PropertyChange { name: Seq<u8>, data: Seq<u8> },
    UnknownEvent(Seq<u8>),
}

impl View for MpvEvent {
    type V = EventV;

    open spec fn view(&self) -> EventV {
        match self {
            MpvEvent::StartFile { playlist_entry_id } => EventV::StartFile {
                playlist_entry_id: *playlist_entry_id,
            },
            MpvEvent::EndFile { reason } => EventV::EndFile { reason: *reason },
            MpvEvent::Pause => EventV::Pause,
            MpvEvent::Unpause => EventV::Unpause,
            MpvEvent::PlaybackRestart => EventV::PlaybackRestart,
            MpvEvent::FileLoaded => EventV::FileLoaded,
            MpvEvent::TracksChanged => EventV::TracksChanged,
            MpvEvent::ChapterChange => EventV::ChapterChange,
            MpvEvent::PropertyChange { name, data } => EventV::PropertyChange {
                name: name@,
                data: data@,
            },
            MpvEvent::UnknownEvent(name) => EventV::UnknownEvent(name@),
        }
    }
}

} // verus!
