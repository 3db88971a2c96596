use drop_it::service::{
    exit_code, service_status_running, service_status_stopped, ControlHandler, ControlOutcome,
    ServiceControl, ServiceControlHandlerResult, ServiceExitCode, ServiceState, ServiceStatus,
    ACCEPT_STOP, SERVICE_TYPE_OWN_PROCESS,
};

#[test]
fn the_running_report() {
    assert_eq!(
        service_status_running(),
        ServiceStatus {
            service_type: 0x10,
            current_state: ServiceState::Running,
            controls_accepted: 0x1,
            exit_code: ServiceExitCode::Win32(0),
            checkpoint: 0,
            wait_hint: 0,
            process_id: None,
        }
    );
}

#[test]
fn the_stopped_report() {
    assert_eq!(
        service_status_stopped(),
        ServiceStatus {
            service_type: SERVICE_TYPE_OWN_PROCESS,
            current_state: ServiceState::Stopped,
            controls_accepted: 0,
            exit_code: ServiceExitCode::Win32(0),
            checkpoint: 0,
            wait_hint: 0,
            process_id: None,
        }
    );
    assert_eq!(ACCEPT_STOP, 1);
}

#[test]
fn interrogate_is_acknowledged() {
    let mut handler = ControlHandler::new();
    assert_eq!(
        handler.handle(ServiceControl::Interrogate),
        ControlOutcome { result: ServiceControlHandlerResult::NoError, signal_stop: false }
    );
    assert!(!handler.stop_signalled);
}

#[test]
fn the_first_stop_is_signalled_and_no_other() {
    let mut handler = ControlHandler::new();
    assert_eq!(
        handler.handle(ServiceControl::Stop),
        ControlOutcome { result: ServiceControlHandlerResult::NoError, signal_stop: true }
    );
    assert!(handler.stop_signalled);
    assert_eq!(
        handler.handle(ServiceControl::Stop),
        ControlOutcome { result: ServiceControlHandlerResult::NoError, signal_stop: false }
    );
    assert!(handler.stop_signalled);
}

#[test]
fn other_controls_are_not_implemented() {
    let others = [
        ServiceControl::Continue,
        ServiceControl::NetBindAdd,
        ServiceControl::NetBindDisable,
        ServiceControl::NetBindEnable,
        ServiceControl::NetBindRemove,
        ServiceControl::ParamChange,
        ServiceControl::Pause,
        ServiceControl::Preshutdown,
        ServiceControl::Shutdown,
        ServiceControl::HardwareProfileChange,
        ServiceControl::PowerEvent,
        ServiceControl::SessionChange,
        ServiceControl::TimeChange,
        ServiceControl::TriggerEvent,
        ServiceControl::UserEvent,
    ];
    let mut handler = ControlHandler::new();
    for control in others {
        assert_eq!(
            handler.handle(control),
            ControlOutcome {
                result: ServiceControlHandlerResult::NotImplemented,
                signal_stop: false,
            }
        );
        assert!(!handler.stop_signalled);
    }
}

#[test]
fn exit_codes() {
    assert_eq!(exit_code(false), 0);
    assert_eq!(exit_code(true), 1);
}
