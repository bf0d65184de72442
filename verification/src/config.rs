//! The watcher's configuration: three ordered lists of strings.

use vstd::prelude::*;

verus! {

/// What the watcher is told at startup. It is read once and not changed
/// afterwards.
#[derive(Clone, Debug, PartialEq, Eq)]
pub struct Config {
    /// Identifier tokens of the monitored devices, of the form
    /// `VID_xxxx&PID_yyyy`.
    pub monitored_devices: Vec<String>,
    /// Command strings to run, in order, when the devices go away.
    pub disconnect_cmds: Vec<String>,
    /// Command strings to run, in order, when the devices come back.
    pub connect_cmds: Vec<String>,
}

/// A configuration with its strings as character sequences.
pub struct ConfigView {
    pub monitored_devices: Seq<Seq<char>>,
    pub disconnect_cmds: Seq<Seq<char>>,
    pub connect_cmds: Seq<Seq<char>>,
}

impl View for Config {
    type V = ConfigView;

    open spec fn view(&self) -> ConfigView {
        ConfigView {
            monitored_devices: self.monitored_devices.deep_view(),
            disconnect_cmds: self.disconnect_cmds.deep_view(),
            connect_cmds: self.connect_cmds.deep_view(),
        }
    }
}

impl Config {
    /// A configuration of the three lists, each kept in its order.
    pub fn new(
        monitored_devices: Vec<String>,
        disconnect_cmds: Vec<String>,
        connect_cmds: Vec<String>,
    ) -> (config: Config)
        ensures
            config@ == (ConfigView {
                monitored_devices: monitored_devices.deep_view(),
                disconnect_cmds: disconnect_cmds.deep_view(),
                connect_cmds: connect_cmds.deep_view(),
            }),
    {
        Config { monitored_devices, disconnect_cmds, connect_cmds }
    }
}

} // verus!
