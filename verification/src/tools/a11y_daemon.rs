//! The AT-SPI accessibility daemon, started on demand in receive-only mode.
//! Once started it is never stopped: tearing the accessibility bus down
//! breaks WeChat's registration on it for good.

use vstd::prelude::*;

verus! {

broadcast use vstd::string::group_string_axioms;

/// The path of the at-spi-bus-launcher executable.
pub const AT_SPI_LAUNCHER: &'static str = "/usr/libexec/at-spi-bus-launcher";

/// The process name that `pgrep -f` looks for.
pub const AT_SPI_MATCH: &'static str = "at-spi-bus-launcher";

/// Whether a `pgrep -f` probe says the launcher runs: the probe ran, exited
/// successfully and printed something.
pub fn probe_says_running(probe_ran: bool, exit_success: bool, stdout_len: usize) -> (r: bool)
    ensures
        r == (probe_ran && exit_success && stdout_len > 0),
{
    probe_ran && exit_success && stdout_len > 0
}

/// The shell command that starts the launcher for the session's user:
/// `DISPLAY=<display> DBUS_SESSION_BUS_ADDRESS=<address> HOME=/home/<user> <launcher> &`,
/// the address empty when unknown.
pub fn a11y_launch_command(display: &str, dbus_address: Option<&str>, linux_user: &str) -> (r: String)
    ensures
        r@ == "DISPLAY="@ + display@ + " DBUS_SESSION_BUS_ADDRESS="@ + match dbus_address {
            Some(a) => a@,
            None => Seq::<char>::empty(),
        } + " HOME=/home/"@ + linux_user@ + " "@ + AT_SPI_LAUNCHER@ + " &"@,
{
    let mut cmd = "DISPLAY=".to_string();
    cmd.append(display);
    cmd.append(" DBUS_SESSION_BUS_ADDRESS=");
    match dbus_address {
        Some(a) => cmd.append(a),
        None => cmd.append(""),
    }
    proof {
        reveal_strlit("");
    }
    cmd.append(" HOME=/home/");
    cmd.append(linux_user);
    cmd.append(" ");
    cmd.append(AT_SPI_LAUNCHER);
    cmd.append(" &");
    cmd
}

/// Stopping the daemon is deliberately a no-op (see the module's note); the
/// call remains for the places that still make it.
pub fn stop_a11y() {
}

} // verus!
