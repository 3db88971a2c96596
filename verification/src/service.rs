//! What the daemon tells its supervisor, and how it answers the controls
//! the supervisor sends.

use vstd::prelude::*;

verus! {

/// The service runs in a process of its own.
pub const SERVICE_TYPE_OWN_PROCESS: u32 = 0x10;

/// The service takes the stop control.
pub const ACCEPT_STOP: u32 = 0x1;

/// A control that the supervisor sends. What some of them carry along is
/// left out: no answer depends on it.
#[derive(Clone, Copy, Debug, PartialEq, Eq, Structural)]
pub enum ServiceControl {
    Continue,
    Interrogate,
    NetBindAdd,
    NetBindDisable,
    NetBindEnable,
    NetBindRemove,
    ParamChange,
    Pause,
    Preshutdown,
    Shutdown,
    Stop,
    HardwareProfileChange,
    PowerEvent,
    SessionChange,
    TimeChange,
    TriggerEvent,
    UserEvent,
}

/// The answer to a control.
#[derive(Clone, Copy, Debug, PartialEq, Eq, Structural)]
pub enum ServiceControlHandlerResult {
    NoError,
    NotImplemented,
}

#[derive(Clone, Copy, Debug, PartialEq, Eq, Structural)]
pub enum ServiceState {
    Stopped,
    StartPending,
    StopPending,
    Running,
    ContinuePending,
    PausePending,
    Paused,
}

#[derive(Clone, Copy, Debug, PartialEq, Eq, Structural)]
pub enum ServiceExitCode {
    Win32(u32),
    ServiceSpecific(u32),
}

/// One report of the service's state to the supervisor.
#[derive(Clone, Copy, Debug, PartialEq, Eq, Structural)]
pub struct ServiceStatus {
    /// The kind of service, as a set of flags.
    pub service_type: u32,
    pub current_state: ServiceState,
    /// The controls that the service takes in this state, as a set of flags.
    pub controls_accepted: u32,
    pub exit_code: ServiceExitCode,
    /// Progress of a pending operation; zero when none is pending.
    pub checkpoint: u32,
    /// How long a pending operation may take, in milliseconds.
    pub wait_hint: u32,
    /// Only set in reports that the supervisor gives out.
    pub process_id: Option<u32>,
}

/// The report of a service that runs and can be stopped.
pub open spec fn running_status() -> ServiceStatus {
    ServiceStatus {
        service_type: SERVICE_TYPE_OWN_PROCESS,
        current_state: ServiceState::Running,
        controls_accepted: ACCEPT_STOP,
        exit_code: ServiceExitCode::Win32(0),
        checkpoint: 0,
        wait_hint: 0,
        process_id: None,
    }
}

/// The report of a service that has stopped without error and takes no
/// control any more.
pub open spec fn stopped_status() -> ServiceStatus {
    ServiceStatus {
        service_type: SERVICE_TYPE_OWN_PROCESS,
        current_state: ServiceState::Stopped,
        controls_accepted: 0,
        exit_code: ServiceExitCode::Win32(0),
        checkpoint: 0,
        wait_hint: 0,
        process_id: None,
    }
}

pub fn service_status_running() -> (status: ServiceStatus)
    ensures
        status == running_status(),
{
    ServiceStatus {
        service_type: SERVICE_TYPE_OWN_PROCESS,
        current_state: ServiceState::Running,
        controls_accepted: ACCEPT_STOP,
        exit_code: ServiceExitCode::Win32(0),
        checkpoint: 0,
        wait_hint: 0,
        process_id: None,
    }
}

pub fn service_status_stopped() -> (status: ServiceStatus)
    ensures
        status == stopped_status(),
{
    ServiceStatus {
        service_type: SERVICE_TYPE_OWN_PROCESS,
        current_state: ServiceState::Stopped,
        controls_accepted: 0,
        exit_code: ServiceExitCode::Win32(0),
        checkpoint: 0,
        wait_hint: 0,
        process_id: None,
    }
}

/// What the owner of the handler does with one control: the answer to give
/// to the supervisor, and whether to tell the daemon to stop.
#[derive(Clone, Copy, Debug, PartialEq, Eq, Structural)]
pub struct ControlOutcome {
    pub result: ServiceControlHandlerResult,
    pub signal_stop: bool,
}

/// The answer that a control gets, whatever came before it.
pub open spec fn answer(control: ServiceControl) -> ServiceControlHandlerResult {
    match control {
        ServiceControl::Interrogate | ServiceControl::Stop => ServiceControlHandlerResult::NoError,
        _ => ServiceControlHandlerResult::NotImplemented,
    }
}

/// The handler of the supervisor's controls. It holds the one stop signal
/// of the daemon until the first stop control takes it.
#[derive(Clone, Copy, Debug, PartialEq, Eq, Structural)]
pub struct ControlHandler {
    /// Whether the stop signal has been given out.
    pub stop_signalled: bool,
}

impl ControlHandler {
    /// A handler that still holds the stop signal.
    pub fn new() -> (handler: Self)
        ensures
            !handler.stop_signalled,
    {
        ControlHandler { stop_signalled: false }
    }

    /// Answers one control. Interrogation and stop are acknowledged, every
    /// other control is not implemented. The first stop control, and no
    /// other, has the stop signalled.
    pub fn handle(&mut self, control: ServiceControl) -> (outcome: ControlOutcome)
        ensures
            outcome.result == answer(control),
            outcome.signal_stop == (control == ServiceControl::Stop && !old(self).stop_signalled),
            final(self).stop_signalled == (old(self).stop_signalled || control
                == ServiceControl::Stop),
    {
        match control {
            ServiceControl::Interrogate => ControlOutcome {
                result: ServiceControlHandlerResult::NoError,
                signal_stop: false,
            },
            ServiceControl::Stop => {
                let first = !self.stop_signalled;
                self.stop_signalled = true;
                ControlOutcome { result: ServiceControlHandlerResult::NoError, signal_stop: first }
            },
            _ => ControlOutcome {
                result: ServiceControlHandlerResult::NotImplemented,
                signal_stop: false,
            },
        }
    }
}

/// The exit code of the process: zero after a clean stop, one after an
/// error that the service could not recover from.
pub fn exit_code(failed: bool) -> (code: i32)
    ensures
        code == (if failed { 1i32 } else { 0i32 }),
{
    if failed {
        1
    } else {
        0
    }
}

} // verus!
