//! Accessibility primitives the core owns: layout modes and screen-reader
//! announcements.  Audio synthesis, haptics and rendering live with the host.

use vstd::prelude::*;

verus! {

/// How a host lays the proof out.
#[derive(Debug, Clone, PartialEq, Eq)]
pub enum LayoutMode {
    /// A list, for screen readers.
    List,
    /// A grid with the given shape.
    Grid { rows: usize, cols: usize },
    /// A two-dimensional spatial layout.
    Spatial2D,
    /// A three-dimensional spatial layout.
    Spatial3D,
    /// Positions chosen by the user.
    Custom,
}

/// How urgently an announcement interrupts.
#[derive(Debug, Clone, Copy, PartialEq, Eq, Structural)]
pub enum AnnouncementPriority {
    /// Low priority; may be interrupted.
    Polite,
    /// Medium priority.
    Assertive,
    /// High priority; interrupts everything.
    Alert,
}

/// A screen-reader announcement.
#[derive(Debug, Clone)]
pub struct Announcement {
    /// The text to speak.
    pub text: String,
    /// How urgently to speak it.
    pub priority: AnnouncementPriority,
}

impl Announcement {
    /// An announcement with the given priority.
    pub fn new(text: String, priority: AnnouncementPriority) -> (r: Self)
        ensures
            r.text@ == text@,
            r.priority == priority,
    {
        Announcement { text, priority }
    }

    /// A polite announcement.
    pub fn polite(text: String) -> (r: Self)
        ensures
            r.text@ == text@,
            r.priority == AnnouncementPriority::Polite,
    {
        Announcement::new(text, AnnouncementPriority::Polite)
    }

    /// An assertive announcement.
    pub fn assertive(text: String) -> (r: Self)
        ensures
            r.text@ == text@,
            r.priority == AnnouncementPriority::Assertive,
    {
        Announcement::new(text, AnnouncementPriority::Assertive)
    }

    /// An alert.
    pub fn alert(text: String) -> (r: Self)
        ensures
            r.text@ == text@,
            r.priority == AnnouncementPriority::Alert,
    {
        Announcement::new(text, AnnouncementPriority::Alert)
    }
}

} // verus!
