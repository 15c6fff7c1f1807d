//! Connection parameters for the serial transport, and their conversion to
//! the line-configuration and start-mode values the transport layer consumes.

use vstd::prelude::*;
use vstd::string::StringExecFns;

verus! {

/// Parity setting of the serial line.
#[derive(Clone, Copy, PartialEq, Eq, Structural, Debug)]
pub enum Parity {
    NoParity,
    Odd,
    Even,
    Mark,
    Space,
}

/// Flow-control setting of the serial line.
#[derive(Clone, Copy, PartialEq, Eq, Structural, Debug)]
pub enum FlowCtrl {
    NoFlowCtrl,
    Software,
    Hardware,
}

/// How a capture session begins once the port is open: immediately, after a
/// delay (milliseconds), or upon receiving a trigger message.
#[derive(Clone, PartialEq, Eq, Debug)]
pub enum StartMode {
    Immediate,
    Delay(u64),
    Message(String),
}

/// The line configuration handed to the transport layer when opening a
/// connection.  The read timeout is always zero here: timeout policy belongs
/// to the transport layer, not to this configuration.
#[derive(Clone, PartialEq, Debug)]
pub struct SerialConfig {
    pub port: String,
    pub baud_rate: u32,
    pub data_bits: u8,
    pub parity: Parity,
    pub stop_bits: u8,
    pub flow_ctrl: FlowCtrl,
    pub timeout_ms: u64,
}

/// User-facing connection settings.
///
/// The `start_mode` variant tag is stored separately from the payload fields
/// `start_delay` (milliseconds) and `start_msg`: materializing the effective
/// start mode substitutes the matching payload field by tag (see
/// [`StartMode::from`]).
#[derive(Clone, PartialEq, Debug)]
pub struct ConnectionConfig {
    pub port: String,
    pub baud_rate: u32,
    pub data_bits: u8,
    pub parity: Parity,
    pub stop_bits: u8,
    pub flow_ctrl: FlowCtrl,
    pub dtr: bool,
    pub start_mode: StartMode,
    pub start_delay: u32,
    pub start_msg: String,
}

impl ConnectionConfig {
    /// Sentinel port name meaning "no port selected".
    pub const NO_PORT: &'static str = "-";
}

/// The default connection: no port, 9600-8-N-1, DTR asserted, and a delayed
/// start of 1000 ms (the stored `start_mode` tag is `Delay` with a zero
/// placeholder payload; the effective delay comes from `start_delay`).
pub open spec fn is_default_connection(c: ConnectionConfig) -> bool {
    &&& c.port@ == "-"@
    &&& c.baud_rate == 9600
    &&& c.data_bits == 8
    &&& c.parity == Parity::NoParity
    &&& c.stop_bits == 1
    &&& c.flow_ctrl == FlowCtrl::NoFlowCtrl
    &&& c.dtr == true
    &&& c.start_mode == StartMode::Delay(0)
    &&& c.start_delay == 1000
    &&& c.start_msg@ == "Start"@
}

impl Default for ConnectionConfig {
    fn default() -> (r: Self)
        ensures
            is_default_connection(r),
    {
        ConnectionConfig {
            port: String::from_str("-"),
            baud_rate: 9600,
            data_bits: 8,
            parity: Parity::NoParity,
            stop_bits: 1,
            flow_ctrl: FlowCtrl::NoFlowCtrl,
            dtr: true,
            start_mode: StartMode::Delay(0),
            start_delay: 1000,
            start_msg: String::from_str("Start"),
        }
    }
}

/// The line configuration carried by a [`ConnectionConfig`]: its port and
/// line parameters, with a zero read timeout.
pub open spec fn spec_serial_config(c: ConnectionConfig) -> SerialConfig {
    SerialConfig {
        port: c.port,
        baud_rate: c.baud_rate,
        data_bits: c.data_bits,
        parity: c.parity,
        stop_bits: c.stop_bits,
        flow_ctrl: c.flow_ctrl,
        timeout_ms: 0,
    }
}

impl From<ConnectionConfig> for SerialConfig {
    fn from(value: ConnectionConfig) -> (r: Self)
        ensures
            r == spec_serial_config(value),
    {
        SerialConfig {
            port: value.port,
            baud_rate: value.baud_rate,
            data_bits: value.data_bits,
            parity: value.parity,
            stop_bits: value.stop_bits,
            flow_ctrl: value.flow_ctrl,
            timeout_ms: 0,
        }
    }
}

impl vstd::std_specs::convert::FromSpecImpl<ConnectionConfig> for SerialConfig {
    open spec fn obeys_from_spec() -> bool {
        true
    }

    open spec fn from_spec(v: ConnectionConfig) -> Self {
        spec_serial_config(v)
    }
}

/// The effective start mode carried by a [`ConnectionConfig`]: the stored
/// variant tag, with the `Delay` payload taken from `start_delay` and the
/// `Message` payload taken from `start_msg`, never the other way round.
pub open spec fn spec_start_mode(c: ConnectionConfig) -> StartMode {
    match c.start_mode {
        StartMode::Immediate => StartMode::Immediate,
        StartMode::Delay(_) => StartMode::Delay(c.start_delay as u64),
        StartMode::Message(_) => StartMode::Message(c.start_msg),
    }
}

impl From<ConnectionConfig> for StartMode {
    fn from(value: ConnectionConfig) -> (r: Self)
        ensures
            r == spec_start_mode(value),
    {
        match value.start_mode {
            StartMode::Immediate => StartMode::Immediate,
            StartMode::Delay(_) => StartMode::Delay(value.start_delay as u64),
            StartMode::Message(_) => StartMode::Message(value.start_msg),
        }
    }
}

impl vstd::std_specs::convert::FromSpecImpl<ConnectionConfig> for StartMode {
    open spec fn obeys_from_spec() -> bool {
        true
    }

    open spec fn from_spec(v: ConnectionConfig) -> Self {
        spec_start_mode(v)
    }
}

/// Each start-mode tag converts to the transport start-mode value carrying
/// its own payload field: `Delay` always carries `start_delay`, `Message`
/// always carries `start_msg`, and `Immediate` carries nothing, whatever the
/// payloads stored inside the tag itself were.
pub proof fn lemma_start_mode_conversion(c: ConnectionConfig)
    ensures
        c.start_mode is Immediate ==> spec_start_mode(c) == StartMode::Immediate,
        c.start_mode is Delay ==> spec_start_mode(c) == StartMode::Delay(c.start_delay as u64),
        c.start_mode is Message ==> spec_start_mode(c) == StartMode::Message(c.start_msg),
{
}

} // verus!
