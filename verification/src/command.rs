//! What is sent to vehicles, and the conversations that it takes. Singles are kept by
//! their bit patterns.

use crate::ident::{Ident, MavlinkId};
use crate::single::{nearest, nearest_real};
use crate::telemetry::{AUTOPILOT_VERSION_ID, COMPONENT_INFORMATION_BASIC_ID};
use crate::value::MavParamType;
use vstd::prelude::*;

verus! {

/// A place on the globe: the bit patterns of its latitude and longitude in degrees,
/// as doubles.
#[derive(Debug, Clone, Copy, PartialEq, Eq, Structural)]
pub struct Geodetic {
    pub latitude: u64,
    pub longitude: u64,
}

/// The commands that are given.
#[derive(Debug, Clone, Copy, PartialEq, Eq, Structural)]
pub enum MavCmd {
    RequestMessage,
    DoReposition,
}

/// The number that the wire has for a command.
pub open spec fn command_number(command: MavCmd) -> u16 {
    match command {
        MavCmd::RequestMessage => 512,
        MavCmd::DoReposition => 192,
    }
}

impl MavCmd {
    /// The number that the wire has for the command.
    pub fn number(&self) -> (r: u16)
        ensures
            r == command_number(*self),
    {
        match self {
            MavCmd::RequestMessage => 512,
            MavCmd::DoReposition => 192,
        }
    }
}

/// The frames of reference that positions are given in.
#[derive(Debug, Clone, Copy, PartialEq, Eq, Structural)]
pub enum MavFrame {
    Global,
    GlobalInt,
}

/// A message to a vehicle, or to all.
#[derive(Debug)]
pub enum Outgoing {
    Heartbeat,
    ParamRequestList { target: MavlinkId },
    CommandLong { target: MavlinkId, command: MavCmd, param1: u32 },
    CommandInt {
        target: MavlinkId,
        command: MavCmd,
        frame: MavFrame,
        param1: u32,
        param2: u32,
        param3: u32,
        param4: u32,
        position: Option<Geodetic>,
        z: u32,
    },
    ParamSet { target: MavlinkId, param_id: Ident, param_value: u32, param_type: MavParamType },
}

/// A step of a conversation.
#[derive(Debug)]
pub enum Step {
    /// Send a message.
    Send(Outgoing),
    /// Let time pass.
    Sleep { millis: u64 },
    /// Wait until a command is acknowledged.
    AwaitAck(MavCmd),
}

/// The single -1.
pub const MINUS_ONE: u32 = 0xbf80_0000;

/// A single that is no number.
pub const NOT_A_NUMBER: u32 = 0x7fc0_0000;

/// The single 1000.
pub const THOUSAND: u32 = 0x447a_0000;

/// How long a vehicle gets to answer before the next question.
pub const ANSWER_MILLIS: u64 = 100;

/// How long a vehicle gets to take a parameter over.
pub const UPLOAD_MILLIS: u64 = 2000;

/// The pause between two signs of life.
pub const HEARTBEAT_MILLIS: u64 = 1000;

/// A command to send a message, by its number.
pub open spec fn message_request(target: MavlinkId, id: u32) -> Outgoing {
    Outgoing::CommandInt {
        target,
        command: MavCmd::RequestMessage,
        frame: MavFrame::Global,
        param1: nearest(id as nat) as u32,
        param2: 0,
        param3: 0,
        param4: 0,
        position: None,
        z: 0,
    }
}

/// The conversation with a vehicle that was not known: for its parameters, and for
/// who made it.
pub open spec fn introduction(target: MavlinkId) -> Seq<Step> {
    seq![
        Step::Send(Outgoing::ParamRequestList { target }),
        Step::Send(
            Outgoing::CommandLong {
                target,
                command: MavCmd::RequestMessage,
                param1: nearest(COMPONENT_INFORMATION_BASIC_ID as nat) as u32,
            },
        ),
        Step::AwaitAck(MavCmd::RequestMessage),
    ]
}

/// The conversation for the parameters, and for the capabilities first where those
/// are not known.
pub open spec fn reload(target: MavlinkId, get_capabilities: bool) -> Seq<Step> {
    let list = Step::Send(Outgoing::ParamRequestList { target });
    if get_capabilities {
        seq![
            Step::Send(message_request(target, AUTOPILOT_VERSION_ID)),
            Step::Sleep { millis: ANSWER_MILLIS },
            list,
        ]
    } else {
        seq![list]
    }
}

/// A command to circle a place.
pub open spec fn reposition(target: MavlinkId, position: Geodetic, radius: u32) -> Outgoing {
    Outgoing::CommandInt {
        target,
        command: MavCmd::DoReposition,
        frame: MavFrame::GlobalInt,
        param1: MINUS_ONE,
        param2: 0,
        param3: radius,
        param4: NOT_A_NUMBER,
        position: Some(position),
        z: THOUSAND,
    }
}

/// Asks a vehicle that was not known for its parameters, and for who made it.
pub fn request_vehicle_info(mav_id: MavlinkId) -> (r: Vec<Step>)
    ensures
        r@ == introduction(mav_id),
{
    let mut r: Vec<Step> = Vec::new();
    r.push(Step::Send(Outgoing::ParamRequestList { target: mav_id }));
    r.push(
        Step::Send(
            Outgoing::CommandLong {
                target: mav_id,
                command: MavCmd::RequestMessage,
                param1: nearest_real(COMPONENT_INFORMATION_BASIC_ID),
            },
        ),
    );
    r.push(Step::AwaitAck(MavCmd::RequestMessage));
    assert(r@ =~= introduction(mav_id));
    r
}

/// Asks a vehicle for its parameters, and for its capabilities first where those are
/// not known.
pub fn request_parameters(mav_id: MavlinkId, get_capabilities: bool) -> (r: Vec<Step>)
    ensures
        r@ == reload(mav_id, get_capabilities),
{
    let mut r: Vec<Step> = Vec::new();
    if get_capabilities {
        r.push(
            Step::Send(
                Outgoing::CommandInt {
                    target: mav_id,
                    command: MavCmd::RequestMessage,
                    frame: MavFrame::Global,
                    param1: nearest_real(AUTOPILOT_VERSION_ID),
                    param2: 0,
                    param3: 0,
                    param4: 0,
                    position: None,
                    z: 0,
                },
            ),
        );
        r.push(Step::Sleep { millis: ANSWER_MILLIS });
    }
    r.push(Step::Send(Outgoing::ParamRequestList { target: mav_id }));
    assert(r@ =~= reload(mav_id, get_capabilities));
    r
}

/// Sends a vehicle round a place.
pub fn fly_to(mav_id: MavlinkId, position: Geodetic, radius: u32) -> (r: Outgoing)
    ensures
        r == reposition(mav_id, position, radius),
{
    Outgoing::CommandInt {
        target: mav_id,
        command: MavCmd::DoReposition,
        frame: MavFrame::GlobalInt,
        param1: MINUS_ONE,
        param2: 0,
        param3: radius,
        param4: NOT_A_NUMBER,
        position: Some(position),
        z: THOUSAND,
    }
}

/// Whether an acknowledgement of `command` to `target` answers a command that this
/// station gave under the id `own`.
pub fn acknowledges(own: MavlinkId, awaited: MavCmd, command: u16, target: MavlinkId) -> (r: bool)
    ensures
        r == (command == command_number(awaited) && target == own),
{
    command == awaited.number() && target == own
}

} // verus!
