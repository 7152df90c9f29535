//! What auto-start at login writes: the systemd user unit on Linux and the
//! `Run` registry value on Windows.
use vstd::prelude::*;
use crate::text::{has_infix, infix_at};

verus! {

/// The unit file's lines before the one that starts the daemon.
pub open spec fn unit_preamble() -> Seq<char> {
    "[Unit]\nDescription=LocalShare Daemon\nAfter=network.target\n\n[Service]\nType=simple\n"@
}

/// The line that starts the daemon at `exe`.
pub open spec fn exec_line(exe: Seq<char>) -> Seq<char> {
    "ExecStart="@ + exe + "\n"@
}

/// The line that restarts the daemon after a failure.
pub open spec fn restart_line() -> Seq<char> {
    "Restart=on-failure\n"@
}

/// The unit file's lines after the restart line.
pub open spec fn unit_rest() -> Seq<char> {
    "RestartSec=3\n\n[Install]\nWantedBy=default.target\n"@
}

/// The systemd user unit that starts the daemon at `exe`.
pub open spec fn unit_text(exe: Seq<char>) -> Seq<char> {
    unit_preamble() + exec_line(exe) + restart_line() + unit_rest()
}

/// The systemd user unit that starts the daemon at `exe`. It depends on
/// `exe` alone, so registering again writes the same file.
pub fn systemd_unit(exe: &str) -> (r: String)
    ensures
        r@ == unit_text(exe@),
{
    let mut s = "[Unit]\nDescription=LocalShare Daemon\nAfter=network.target\n\n[Service]\nType=simple\n".to_owned();
    s.append("ExecStart=");
    s.append(exe);
    s.append("\n");
    s.append("Restart=on-failure\n");
    s.append("RestartSec=3\n\n[Install]\nWantedBy=default.target\n");
    s
}

/// The unit starts the daemon at exactly `exe` and restarts it after a
/// failure, and two units for the same executable are the same text.
pub proof fn lemma_unit_runs_exe(exe: Seq<char>, other: Seq<char>)
    ensures
        has_infix(unit_text(exe), exec_line(exe)),
        has_infix(unit_text(exe), restart_line()),
        exe == other ==> unit_text(exe) == unit_text(other),
{
    let t = unit_text(exe);
    let i = unit_preamble().len() as int;
    let j = i + exec_line(exe).len();
    assert(t.subrange(i, i + exec_line(exe).len()) =~= exec_line(exe));
    assert(infix_at(t, exec_line(exe), i));
    assert(t.subrange(j, j + restart_line().len()) =~= restart_line());
    assert(infix_at(t, restart_line(), j));
}

/// The folder of systemd user units under the home folder `home`.
pub fn service_dir(home: &str) -> (r: String)
    ensures
        r@ == home@ + "/.config/systemd/user"@,
{
    let mut s = home.to_owned();
    s.append("/.config/systemd/user");
    s
}

/// The path of the daemon's unit under the home folder `home`.
pub fn service_path(home: &str) -> (r: String)
    ensures
        r@ == home@ + "/.config/systemd/user"@ + "/localshare.service"@,
{
    let mut s = service_dir(home);
    s.append("/localshare.service");
    s
}

/// The `Run` registry value: the executable's path in double quotes.
pub fn registry_command(exe: &str) -> (r: String)
    ensures
        r@ == seq!['"'] + exe@ + seq!['"'],
{
    let mut s = "\"".to_owned();
    s.append(exe);
    s.append("\"");
    proof {
        reveal_strlit("\"");
    }
    s
}

} // verus!
