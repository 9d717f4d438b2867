//! The tray icon and its menu, as far as they are decided here: which entry was
//! clicked, which backend is checked, and what icon and tooltip are shown.

use crate::config::Backend;
use crate::text;
use vstd::prelude::*;

verus! {

/// The side of the icon in pixels.
pub const ICON_SIZE: u32 = 32;

/// What the tray shows, and the ids of its menu entries.
pub struct Tray {
    quit_id: String,
    local_id: String,
    groq_id: String,
    active: Backend,
    recording: bool,
    tooltip: String,
}

/// What a [`Tray`] holds.
pub struct TrayView {
    pub quit_id: Seq<char>,
    pub local_id: Seq<char>,
    pub groq_id: Seq<char>,
    /// The backend with the checkmark.
    pub active: Backend,
    /// Whether the icon is the one for recording.
    pub recording: bool,
    pub tooltip: Seq<char>,
}

impl View for Tray {
    type V = TrayView;

    closed spec fn view(&self) -> TrayView {
        TrayView {
            quit_id: self.quit_id@,
            local_id: self.local_id@,
            groq_id: self.groq_id@,
            active: self.active,
            recording: self.recording,
            tooltip: self.tooltip@,
        }
    }
}

/// The tooltip for the two states of the icon.
pub open spec fn state_tooltip(recording: bool) -> Seq<char> {
    if recording {
        "Xiuxiu — recording"@
    } else {
        "Xiuxiu — idle"@
    }
}

impl TrayView {
    /// The backend that a menu entry stands for.
    pub open spec fn backend_of(self, id: Seq<char>) -> Option<Backend> {
        if id == self.local_id {
            Some(Backend::Local)
        } else if id == self.groq_id {
            Some(Backend::Groq)
        } else {
            None
        }
    }

    pub open spec fn with_active(self, active: Backend) -> TrayView {
        TrayView { active, ..self }
    }

    pub open spec fn with_recording(self, recording: bool) -> TrayView {
        TrayView { recording, tooltip: state_tooltip(recording), ..self }
    }

    pub open spec fn with_notice(self, message: Seq<char>) -> TrayView {
        TrayView { tooltip: "Xiuxiu — "@ + message, ..self }
    }
}

impl Tray {
    /// A tray that shows the idle icon and the active backend.
    pub fn new(active: Backend, quit_id: String, local_id: String, groq_id: String) -> (res: Tray)
        ensures
            res@ == (TrayView {
                quit_id: quit_id@,
                local_id: local_id@,
                groq_id: groq_id@,
                active,
                recording: false,
                tooltip: state_tooltip(false),
            }),
    {
        Tray {
            quit_id,
            local_id,
            groq_id,
            active,
            recording: false,
            tooltip: "Xiuxiu — idle".to_owned(),
        }
    }

    /// Whether the entry is the one that quits.
    pub fn is_quit(&self, id: &str) -> (res: bool)
        ensures
            res == (id@ == self@.quit_id),
    {
        text::same_text(id, self.quit_id.as_str())
    }

    /// The backend that the entry selects, if it is one that does.
    pub fn backend_for(&self, id: &str) -> (res: Option<Backend>)
        ensures
            res == self@.backend_of(id@),
    {
        if text::same_text(id, self.local_id.as_str()) {
            Some(Backend::Local)
        } else if text::same_text(id, self.groq_id.as_str()) {
            Some(Backend::Groq)
        } else {
            None
        }
    }

    /// Moves the checkmark to the active backend.
    pub fn set_active(&mut self, active: Backend)
        ensures
            final(self)@ == old(self)@.with_active(active),
    {
        self.active = active;
    }

    /// Whether the entry of a backend is checked.
    pub fn is_checked(&self, backend: Backend) -> (res: bool)
        ensures
            res == (self@.active == backend),
    {
        self.active == backend
    }

    /// Shows whether a recording is going on, by icon and tooltip.
    pub fn set_recording(&mut self, recording: bool)
        ensures
            final(self)@ == old(self)@.with_recording(recording),
    {
        self.recording = recording;
        self.tooltip = if recording {
            "Xiuxiu — recording".to_owned()
        } else {
            "Xiuxiu — idle".to_owned()
        };
    }

    /// Shows a passing notice in the tooltip.
    pub fn transient(&mut self, message: &str)
        ensures
            final(self)@ == old(self)@.with_notice(message@),
    {
        let mut t = "Xiuxiu — ".to_owned();
        t.append(message);
        self.tooltip = t;
    }

    pub fn recording(&self) -> (res: bool)
        ensures
            res == self@.recording,
    {
        self.recording
    }

    pub fn tooltip(&self) -> (res: &str)
        ensures
            res@ == self@.tooltip,
    {
        self.tooltip.as_str()
    }
}

/// The bytes of an icon of `pixels` pixels in one opaque colour.
pub open spec fn solid(pixels: nat, r: u8, g: u8, b: u8) -> Seq<u8> {
    Seq::new(
        4 * pixels,
        |i: int|
            if i % 4 == 0 {
                r
            } else if i % 4 == 1 {
                g
            } else if i % 4 == 2 {
                b
            } else {
                0xff
            },
    )
}

/// The RGBA bytes of a square icon in one opaque colour.
pub fn solid_icon(r: u8, g: u8, b: u8) -> (res: Vec<u8>)
    ensures
        res@ == solid((ICON_SIZE * ICON_SIZE) as nat, r, g, b),
{
    let mut rgba: Vec<u8> = Vec::new();
    let mut n: u32 = 0;
    while n < ICON_SIZE * ICON_SIZE
        invariant
            n <= ICON_SIZE * ICON_SIZE,
            rgba@ == solid(n as nat, r, g, b),
        decreases ICON_SIZE * ICON_SIZE - n,
    {
        rgba.push(r);
        rgba.push(g);
        rgba.push(b);
        rgba.push(0xff);
        n = n + 1;
        proof {
            assert(rgba@ =~= solid(n as nat, r, g, b));
        }
    }
    rgba
}

/// The icon for a state: red while recording, grey otherwise.
pub fn state_icon(recording: bool) -> (res: Vec<u8>)
    ensures
        res@ == if recording {
            solid((ICON_SIZE * ICON_SIZE) as nat, 0xd6, 0x2c, 0x2c)
        } else {
            solid((ICON_SIZE * ICON_SIZE) as nat, 0x6c, 0x6c, 0x6c)
        },
{
    if recording {
        solid_icon(0xd6, 0x2c, 0x2c)
    } else {
        solid_icon(0x6c, 0x6c, 0x6c)
    }
}

/// Whatever is clicked, noted or recorded, exactly one of the two backends is
/// checked, and it is the one set last.
pub proof fn law_one_backend_is_checked(tray: TrayView, active: Backend, other: Backend)
    ensures
        (tray.with_active(active).active == other) <==> other == active,
        tray.with_active(other).with_active(active) == tray.with_active(active),
        tray.with_active(active).with_recording(true).active == active,
        tray.with_active(active).with_recording(false).active == active,
{
}

/// The icon for recording is another one than the idle icon, and so is the
/// tooltip.
pub proof fn law_recording_shows(tray: TrayView)
    ensures
        tray.with_recording(true).recording,
        !tray.with_recording(false).recording,
        tray.with_recording(true).tooltip != tray.with_recording(false).tooltip,
        tray.with_recording(true).with_recording(false) == tray.with_recording(false),
{
    reveal_strlit("Xiuxiu — recording");
    reveal_strlit("Xiuxiu — idle");
    assert("Xiuxiu — recording"@.len() != "Xiuxiu — idle"@.len());
}

/// Setting one thing leaves the rest as it was: a checkmark does not touch the icon,
/// the icon does not touch the checkmark, a notice touches only the tooltip, and
/// none of them the menu.
pub proof fn law_tray_changes_one_thing(tray: TrayView, active: Backend, message: Seq<char>)
    ensures
        ({
            let checked = tray.with_active(active);
            &&& checked.active == active
            &&& checked.recording == tray.recording
            &&& checked.tooltip == tray.tooltip
            &&& checked.quit_id == tray.quit_id
            &&& checked.local_id == tray.local_id
            &&& checked.groq_id == tray.groq_id
        }),
        forall|on: bool|
            {
                let shown = #[trigger] tray.with_recording(on);
                &&& shown.recording == on
                &&& shown.active == tray.active
                &&& shown.quit_id == tray.quit_id
                &&& shown.local_id == tray.local_id
                &&& shown.groq_id == tray.groq_id
            },
        ({
            let noted = tray.with_notice(message);
            &&& noted.recording == tray.recording
            &&& noted.active == tray.active
            &&& noted.quit_id == tray.quit_id
            &&& noted.local_id == tray.local_id
            &&& noted.groq_id == tray.groq_id
        }),
{
}

/// A notice is shown whole, behind the same words as the tooltips of the two states.
pub proof fn law_notice_is_shown_whole(tray: TrayView, message: Seq<char>, on: bool)
    ensures
        tray.with_notice(message).tooltip.skip(9) == message,
        tray.with_notice(message).tooltip.take(9) == tray.with_recording(on).tooltip.take(9),
        tray.with_recording(true).tooltip.skip(9) == "recording"@,
        tray.with_recording(false).tooltip.skip(9) == "idle"@,
{
    reveal_strlit("Xiuxiu — ");
    reveal_strlit("Xiuxiu — recording");
    reveal_strlit("Xiuxiu — idle");
    reveal_strlit("recording");
    reveal_strlit("idle");
    let noted = tray.with_notice(message).tooltip;
    assert(noted.skip(9) =~= message);
    assert(noted.take(9) =~= tray.with_recording(on).tooltip.take(9));
    assert(tray.with_recording(true).tooltip.skip(9) =~= "recording"@);
    assert(tray.with_recording(false).tooltip.skip(9) =~= "idle"@);
}

/// A menu entry stands for the backend whose entry it is, and any other for none.
pub proof fn law_entries_stand_for_their_backend(tray: TrayView, id: Seq<char>)
    ensures
        id == tray.local_id ==> tray.backend_of(id) == Some(Backend::Local),
        id == tray.groq_id && id != tray.local_id ==> tray.backend_of(id) == Some(Backend::Groq),
        id != tray.local_id && id != tray.groq_id ==> tray.backend_of(id) is None,
{
}

/// Every pixel of an icon is four bytes: red, green and blue as given, and opaque.
pub proof fn law_icon_pixels(pixels: nat, r: u8, g: u8, b: u8, p: int)
    requires
        0 <= p < pixels,
    ensures
        solid(pixels, r, g, b).len() == 4 * pixels,
        solid(pixels, r, g, b)[4 * p] == r,
        solid(pixels, r, g, b)[4 * p + 1] == g,
        solid(pixels, r, g, b)[4 * p + 2] == b,
        solid(pixels, r, g, b)[4 * p + 3] == 255,
{
}

}
