use dotnet_pal::port::Error;
use dotnet_pal::windows_sockets::{
    idle_sleep_ms, poll_state, skip_idle, winsock_error, IoKind, Readiness, POLLERR, POLLHUP, POLLNVAL, POLLRDNORM, POLLWRNORM,
};

#[test]
fn winsock_codes_read_as_boundary_errors() {
    assert_eq!(winsock_error(Some(10035), IoKind::Other), Error::WouldBlock);
    assert_eq!(winsock_error(Some(10037), IoKind::Other), Error::InProgress);
    assert_eq!(winsock_error(Some(10058), IoKind::Other), Error::BrokenPipe);
    assert_eq!(winsock_error(Some(10050), IoKind::Other), Error::NetworkUnreachable);
    assert_eq!(winsock_error(Some(11002), IoKind::Other), Error::Timeout);
    assert_eq!(winsock_error(Some(11004), IoKind::Other), Error::NotFound);
    assert_eq!(winsock_error(Some(10042), IoKind::Other), Error::Unsupported);
    assert_eq!(winsock_error(Some(10055), IoKind::Other), Error::OutOfMemory);
    // The code wins over the kind, and an unknown code is a plain OS failure.
    assert_eq!(winsock_error(Some(10004), IoKind::TimedOut), Error::Os);
    assert_eq!(winsock_error(None, IoKind::NetworkDown), Error::NetworkUnreachable);
    assert_eq!(winsock_error(None, IoKind::PermissionDenied), Error::AccessDenied);
    assert_eq!(winsock_error(None, IoKind::Other), Error::Os);
}

#[test]
fn poll_slots_report_by_direction() {
    let none = Readiness { read: false, write: false, error: false, hangup: false };
    assert_eq!(poll_state(true, POLLRDNORM | POLLHUP), none);
    assert_eq!(poll_state(false, POLLRDNORM | POLLWRNORM), Readiness { read: true, write: true, error: false, hangup: false });
    assert_eq!(poll_state(false, POLLNVAL), Readiness { read: false, write: false, error: true, hangup: false });
    assert_eq!(poll_state(false, POLLERR | POLLHUP), Readiness { read: false, write: false, error: true, hangup: true });
    assert_eq!(skip_idle(&[0, POLLRDNORM, 0]), vec![true, false, true]);
    assert_eq!(idle_sleep_ms(-1), 1000);
    assert_eq!(idle_sleep_ms(25), 25);
}
