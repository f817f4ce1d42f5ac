//! The configuration that a unit controller owns.

use crate::controllers::mcu::McuConfig;
use crate::operations::throttle_map::ThottleMapMode;
use crate::operations::traction_control::TractionControlMode;
use crate::subsystems::mcu::engine::EngineConfig;
use crate::utils::percentage::{wire_byte, Percentage};
use vstd::prelude::*;

verus! {

/// The tunables of one unit: the poll intervals and the engine subsystem's
/// configuration.  Nothing of it outlives a restart.
#[derive(Debug, Clone, Copy)]
pub struct Config {
    pub mcu: McuConfig,
    pub engine: EngineConfig,
}

impl Config {
    /// The configuration that a unit starts with.
    pub open spec fn initial() -> Config {
        Config { mcu: McuConfig::initial(), engine: EngineConfig::initial() }
    }

    /// The configuration with the engine part replaced by that of `delta`.
    pub open spec fn with_delta(self, delta: ConfigDelta) -> Config {
        Config { mcu: self.mcu, engine: delta.engine }
    }

    /// Replaces the engine part of the configuration by that of `delta`.
    pub fn apply_delta(&mut self, delta: ConfigDelta)
        ensures
            *final(self) == old(self).with_delta(delta),
    {
        self.engine = delta.engine;
    }
}

impl Default for Config {
    fn default() -> (config: Self)
        ensures
            config == Config::initial(),
    {
        Config { mcu: McuConfig::default(), engine: EngineConfig::default() }
    }
}

/// A full replacement for the engine part of a configuration.
///
/// On the wire: the tag of the throttle curve, the tag of the traction control
/// mode, the target slip as one byte, then five zero bytes.
#[derive(Debug, Clone, Copy)]
pub struct ConfigDelta {
    pub engine: EngineConfig,
}

impl ConfigDelta {
    /// The eight bytes of the frame.
    pub open spec fn wire(self) -> Seq<u8> {
        seq![
            self.engine.throttle_map_mode.tag(),
            self.engine.traction_control_mode.tag(),
            wire_byte(self.engine.desired_slip@),
            0u8,
            0u8,
            0u8,
            0u8,
            0u8,
        ]
    }

    /// The replacement that a frame stands for.
    pub open spec fn parsed(data: Seq<u8>) -> ConfigDelta
        recommends
            data.len() >= 3,
    {
        ConfigDelta {
            engine: EngineConfig {
                throttle_map_mode: ThottleMapMode::of_tag(data[0]),
                traction_control_mode: TractionControlMode::of_tag(data[1]),
                desired_slip: Percentage::of_wire(data[2]),
            },
        }
    }

    /// The eight bytes of the frame.
    pub fn to_bytes(&self) -> (bytes: [u8; 8])
        ensures
            bytes@ == self.wire(),
    {
        let bytes: [u8; 8] = [
            self.engine.throttle_map_mode.into(),
            self.engine.traction_control_mode.into(),
            self.engine.desired_slip.into(),
            0,
            0,
            0,
            0,
            0,
        ];
        assert(bytes@ =~= self.wire());
        bytes
    }

    /// The replacement that a frame stands for.
    pub fn from_bytes(data: &[u8]) -> (delta: Self)
        requires
            data@.len() >= 3,
        ensures
            delta == ConfigDelta::parsed(data@),
    {
        Self {
            engine: EngineConfig {
                throttle_map_mode: data[0].into(),
                traction_control_mode: data[1].into(),
                desired_slip: data[2].into(),
            },
        }
    }
}

} // verus!
