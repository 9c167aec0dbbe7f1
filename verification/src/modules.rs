use vstd::prelude::*;

use crate::player::MediaSession;

verus! {

/// The kinds of module whose press opens a popup.
#[derive(Debug, Clone, Copy, PartialEq, Eq, Structural)]
pub enum ModuleKind {
    SystemMenu,
    MediaControls,
    Volume,
    Network,
    Bluetooth,
    Clock,
}

/// A module of the bar. Bluetooth, volume and the taskbar start uninitialized and become
/// usable once their service answered.
#[derive(Debug)]
pub enum Module {
    SystemMenu,
    Network,
    Bluetooth { initialized: bool },
    Clock,
    Volume { initialized: bool },
    MediaControls(MediaSession),
    Taskbar { initialized: bool },
}

/// The work a module asks for when the bar starts.
#[derive(Debug, Clone, Copy, PartialEq, Eq, Structural)]
pub enum InitRequest {
    Bluetooth,
    Volume,
    Taskbar,
    SystemMenu,
}

/// What a module asks the bar for.
#[derive(Debug, Clone, Copy, PartialEq, Eq, Structural)]
pub enum ModuleRequest {
    /// Open the popup of a module kind at the pressed element.
    OpenPopup(ModuleKind),
    /// Open the power menu (from the system menu).
    OpenPowerMenu,
    /// Open the settings (from the system menu).
    OpenSettings,
}

impl Module {
    /// A press on a module element of the given kind: whatever the module, the bar is
    /// asked to open that kind's popup.
    pub fn pressed(&self, kind: ModuleKind) -> (r: ModuleRequest)
        ensures
            r == ModuleRequest::OpenPopup(kind),
    {
        ModuleRequest::OpenPopup(kind)
    }

    /// The system menu's power or settings button: relayed to the bar when this is the
    /// system menu, else nothing.
    pub fn system_menu_button(&self, power: bool) -> (r: Option<ModuleRequest>)
        ensures
            r == if *self is SystemMenu {
                Some(if power { ModuleRequest::OpenPowerMenu } else { ModuleRequest::OpenSettings })
            } else {
                None
            },
    {
        match self {
            Module::SystemMenu => Some(if power { ModuleRequest::OpenPowerMenu } else { ModuleRequest::OpenSettings }),
            _ => None,
        }
    }

    /// The clock.
    pub fn clock() -> (m: Self)
        ensures
            m is Clock,
    {
        Module::Clock
    }

    /// The Bluetooth module, not yet connected.
    pub fn bluetooth() -> (m: Self)
        ensures
            m == (Module::Bluetooth { initialized: false }),
    {
        Module::Bluetooth { initialized: false }
    }

    /// The volume module, not yet connected.
    pub fn volume() -> (m: Self)
        ensures
            m == (Module::Volume { initialized: false }),
    {
        Module::Volume { initialized: false }
    }

    /// The media controls, with no player.
    pub fn media_controls() -> (m: Self)
        ensures
            m matches Module::MediaControls(s) && s.active is None && s.spotify.track_id is None
                && s.spotify.generation == 0,
    {
        Module::MediaControls(MediaSession::new())
    }

    /// The taskbar, not yet connected.
    pub fn taskbar() -> (m: Self)
        ensures
            m == (Module::Taskbar { initialized: false }),
    {
        Module::Taskbar { initialized: false }
    }

    /// The system menu.
    pub fn system_menu() -> (m: Self)
        ensures
            m is SystemMenu,
    {
        Module::SystemMenu
    }

    /// The work the module asks for at startup: connecting the uninitialized modules, and
    /// loading the system menu's widgets.
    pub fn init_request(&self) -> (r: Option<InitRequest>)
        ensures
            r == match *self {
                Module::Bluetooth { initialized: false } => Some(InitRequest::Bluetooth),
                Module::Volume { initialized: false } => Some(InitRequest::Volume),
                Module::Taskbar { initialized: false } => Some(InitRequest::Taskbar),
                Module::SystemMenu => Some(InitRequest::SystemMenu),
                _ => None,
            },
    {
        match self {
            Module::Bluetooth { initialized: false } => Some(InitRequest::Bluetooth),
            Module::Volume { initialized: false } => Some(InitRequest::Volume),
            Module::Taskbar { initialized: false } => Some(InitRequest::Taskbar),
            Module::SystemMenu => Some(InitRequest::SystemMenu),
            _ => None,
        }
    }

    /// The answer to a connection request: a module of that kind becomes initialized when
    /// it succeeded; a failure leaves it as it was.
    pub fn initialized(&mut self, request: InitRequest, succeeded: bool)
        ensures
            succeeded && request == InitRequest::Bluetooth && (*old(self)) is Bluetooth
                ==> *final(self) == (Module::Bluetooth { initialized: true }),
            succeeded && request == InitRequest::Volume && (*old(self)) is Volume
                ==> *final(self) == (Module::Volume { initialized: true }),
            succeeded && request == InitRequest::Taskbar && (*old(self)) is Taskbar
                ==> *final(self) == (Module::Taskbar { initialized: true }),
            !(succeeded && ((request == InitRequest::Bluetooth && (*old(self)) is Bluetooth)
                || (request == InitRequest::Volume && (*old(self)) is Volume)
                || (request == InitRequest::Taskbar && (*old(self)) is Taskbar)))
                ==> *final(self) == *old(self),
    {
        if !succeeded {
            return;
        }
        match (request, &*self) {
            (InitRequest::Bluetooth, Module::Bluetooth { .. }) => {
                *self = Module::Bluetooth { initialized: true };
            },
            (InitRequest::Volume, Module::Volume { .. }) => {
                *self = Module::Volume { initialized: true };
            },
            (InitRequest::Taskbar, Module::Taskbar { .. }) => {
                *self = Module::Taskbar { initialized: true };
            },
            _ => {},
        }
    }

    /// Whether the module has a popup to show: the media controls, the system menu, and
    /// volume and Bluetooth once initialized.
    pub fn has_popup(&self) -> (r: bool)
        ensures
            r == match *self {
                Module::MediaControls(_) => true,
                Module::SystemMenu => true,
                Module::Volume { initialized } => initialized,
                Module::Bluetooth { initialized } => initialized,
                _ => false,
            },
    {
        match self {
            Module::MediaControls(_) => true,
            Module::SystemMenu => true,
            Module::Volume { initialized } => *initialized,
            Module::Bluetooth { initialized } => *initialized,
            _ => false,
        }
    }
}

} // verus!
