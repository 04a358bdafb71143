//! What the desktop client schedules at start-up after an elevated relaunch.
use vstd::prelude::*;

verus! {

/// Auto-connect flags used after an elevated relaunch.
#[derive(Clone, Copy, Debug, PartialEq, Eq, Structural)]
pub struct DesktopAutoConnect {
    /// Start the system-wide Tor tunnel.
    pub tor: bool,
    /// Connect this OpenVPN profile id.
    pub ovpn: Option<i64>,
    /// Connect this WireGuard profile id.
    pub wg: Option<i64>,
    /// Connect this Outline key id, system-wide.
    pub outline: Option<i64>,
}

/// A connect command queued for the backend at start-up.
#[derive(Clone, Copy, Debug, PartialEq, Eq, Structural)]
pub enum AutoConnectCommand {
    ConnectTor,
    ConnectOvpnFile { id: i64 },
    ConnectWireGuard { id: i64 },
    ConnectOutline { id: i64, system_wide: bool },
}

impl Default for DesktopAutoConnect {
    fn default() -> (r: Self)
        ensures
            r == (DesktopAutoConnect { tor: false, ovpn: None, wg: None, outline: None }),
    {
        DesktopAutoConnect { tor: false, ovpn: None, wg: None, outline: None }
    }
}

/// The commands queued for a set of flags, in this order: Tor, then the
/// OpenVPN profile, then WireGuard, then Outline (system-wide).
pub open spec fn spec_auto_commands(a: DesktopAutoConnect) -> Seq<AutoConnectCommand> {
    (if a.tor {
        seq![AutoConnectCommand::ConnectTor]
    } else {
        Seq::empty()
    }) + match a.ovpn {
        Some(id) => seq![AutoConnectCommand::ConnectOvpnFile { id }],
        None => Seq::empty(),
    } + match a.wg {
        Some(id) => seq![AutoConnectCommand::ConnectWireGuard { id }],
        None => Seq::empty(),
    } + match a.outline {
        Some(id) => seq![AutoConnectCommand::ConnectOutline { id, system_wide: true }],
        None => Seq::empty(),
    }
}

impl DesktopAutoConnect {
    /// The flags of a plain launch, or one asking for Tor and/or an OpenVPN
    /// profile (no WireGuard or Outline).
    pub fn from_flags(tor: bool, ovpn: Option<i64>) -> (r: Self)
        ensures
            r == (DesktopAutoConnect { tor, ovpn, wg: None, outline: None }),
    {
        DesktopAutoConnect { tor, ovpn, wg: None, outline: None }
    }

    /// The connect commands to queue before the window opens.
    pub fn commands(&self) -> (r: Vec<AutoConnectCommand>)
        ensures
            r@ == spec_auto_commands(*self),
    {
        let mut v: Vec<AutoConnectCommand> = Vec::new();
        if self.tor {
            v.push(AutoConnectCommand::ConnectTor);
        }
        let ghost s1 = v@;
        match self.ovpn {
            Some(id) => v.push(AutoConnectCommand::ConnectOvpnFile { id }),
            None => {},
        }
        let ghost s2 = v@;
        match self.wg {
            Some(id) => v.push(AutoConnectCommand::ConnectWireGuard { id }),
            None => {},
        }
        let ghost s3 = v@;
        match self.outline {
            Some(id) => v.push(AutoConnectCommand::ConnectOutline { id, system_wide: true }),
            None => {},
        }
        assert(v@ =~= spec_auto_commands(*self));
        v
    }
}

} // verus!
