//! What the manager is asked to do, and what it answers.

use vstd::prelude::*;
use crate::manager::snapshot::Temperature;
use crate::web::error::AppError;

verus! {

/// A power command for a zone.
#[derive(Copy, Clone, Debug, PartialEq, Eq, Structural)]
pub enum ZonePower {
    Toggle,
    Off,
    On,
    Turbo,
}

/// A power command for an AC unit.
#[derive(Copy, Clone, Debug, PartialEq, Eq, Structural)]
pub enum AcPower {
    Toggle,
    Off,
    On,
    Away,
    Sleep,
}

/// An operating mode to put an AC unit in.
#[derive(Copy, Clone, Debug, PartialEq, Eq, Structural)]
pub enum AcMode {
    Auto,
    Heat,
    Dry,
    Fan,
    Cool,
}

/// A fan speed to set an AC unit to.
#[derive(Copy, Clone, Debug, PartialEq, Eq, Structural)]
pub enum FanSpeed {
    Auto,
    Quiet,
    Low,
    Medium,
    High,
    Powerful,
    Turbo,
    IntelligentAuto,
}

/// What a zone is asked to do. The two absolute values select the control mode
/// and leave the power alone.
#[derive(Copy, Clone, Debug, PartialEq, Eq, Structural)]
pub enum ZoneControlReq {
    Power(ZonePower),
    SetAirflow(u8),
    SetTemperature(Temperature),
}

/// What an AC unit is asked to do.
#[derive(Copy, Clone, Debug, PartialEq, Eq, Structural)]
pub enum AcControlReq {
    Power(AcPower),
    Mode(AcMode),
    FanSpeed(FanSpeed),
    Setpoint(Temperature),
}

/// A command to the manager.
#[allow(inconsistent_fields)]
#[derive(Copy, Clone, Debug, PartialEq, Eq, Structural)]
pub enum Command {
    ControlZone { id: u8, req: ZoneControlReq },
    ControlAc { id: u8, req: AcControlReq },
    /// Pull the full status again.
    Refresh,
}

/// What became of a command that was sent.
#[derive(Debug, PartialEq, Eq)]
pub enum Reply {
    /// The console carried it out.
    Done,
    /// The manager was gone before it could be sent.
    Stopped,
    /// The manager took it and went away without an answer.
    Dropped,
    /// The console or the manager refused it.
    Rejected(String),
}

/// The message that a reply puts before the user; none where the command was
/// carried out.
pub open spec fn reply_error(reply: Reply) -> Option<Seq<char>> {
    match reply {
        Reply::Done => None,
        Reply::Stopped => Some("manager stopped"@),
        Reply::Dropped => Some("manager dropped reply"@),
        Reply::Rejected(why) => Some(why@),
    }
}

/// Settles a command by its reply.
pub fn settle(reply: Reply) -> (r: Result<(), AppError>)
    ensures
        match reply_error(reply) {
            None => r is Ok,
            Some(message) => r matches Err(e) && e@ == message,
        },
{
    match reply {
        Reply::Done => Ok(()),
        Reply::Stopped => Err(AppError::msg("manager stopped")),
        Reply::Dropped => Err(AppError::msg("manager dropped reply")),
        Reply::Rejected(why) => Err(AppError { message: why }),
    }
}

/// Whether a command touches the power of a zone or of an AC unit.
pub open spec fn sets_power(command: Command) -> bool {
    match command {
        Command::ControlZone { id, req } => req is Power,
        Command::ControlAc { id, req } => req is Power,
        Command::Refresh => false,
    }
}

} // verus!
