//! Firewall setup: the `netsh` rule that lets phones reach the receiver, and
//! reading back whether it exists.
use vstd::prelude::*;
use crate::text::{chars_of, contains_seq, contains_str, spec_to_lowercase, to_lowercase};
use crate::dlna_renderer::http::{spec_utf8_lossy, utf8_lossy};

verus! {

/// The name of the inbound firewall rule.
pub const FIREWALL_RULE_NAME: &'static str = "投屏助手";

/// The `netsh` arguments that add an inbound allow rule for the program at
/// `exe`.
pub open spec fn firewall_args_of(exe: Seq<char>) -> Seq<char> {
    "advfirewall firewall add rule name=\""@ + FIREWALL_RULE_NAME@ + "\" dir=in action=allow program=\""@
        + exe + "\" enable=yes"@
}

/// The complete command a user can run in an administrator prompt.
pub open spec fn firewall_command_of(exe: Seq<char>) -> Seq<char> {
    "netsh "@ + firewall_args_of(exe)
}

/// The `netsh` arguments adding the rule for the program at `exe`.
pub fn firewall_args(exe: &str) -> (r: String)
    ensures
        r@ == firewall_args_of(exe@),
{
    let mut s = String::new();
    s.append("advfirewall firewall add rule name=\"");
    s.append(FIREWALL_RULE_NAME);
    s.append("\" dir=in action=allow program=\"");
    s.append(exe);
    s.append("\" enable=yes");
    s
}

/// The firewall command for the program at `exe` (its full path), for the user
/// to copy.
pub fn get_firewall_command(exe: &str) -> (r: String)
    ensures
        r@ == firewall_command_of(exe@),
{
    let mut s = String::new();
    s.append("netsh ");
    s.append(firewall_args(exe).as_str());
    s
}

/// A `netsh ... show rule` listing shows the rule as allowing: it names the
/// rule and says "允许" (Chinese systems) or "allow" in any case.
pub open spec fn rule_allows(text: Seq<char>) -> bool {
    contains_seq(text, FIREWALL_RULE_NAME@) && (contains_seq(text, "允许"@) || contains_seq(
        spec_to_lowercase(text),
        "allow"@,
    ))
}

/// Whether the output of `netsh advfirewall firewall show rule` shows the
/// rule as allowing (the output is decoded as lossy UTF-8).
pub fn check_firewall_rule(stdout: &[u8]) -> (r: bool)
    ensures
        r == rule_allows(spec_utf8_lossy(stdout@)),
{
    let text = utf8_lossy(stdout);
    let t = chars_of(text.as_str());
    let lower = chars_of(to_lowercase(text.as_str()).as_str());
    contains_str(&t, FIREWALL_RULE_NAME) && (contains_str(&t, "允许") || contains_str(&lower, "allow"))
}

/// The message shown when the elevated `netsh` could not be launched.
pub const ELEVATION_FAILED: &'static str = "未能启动管理员授权（可能被取消）。请复制下方命令，以管理员身份手动执行。";

/// What launching the elevated `netsh` reports: `ShellExecuteW` returns a
/// value above 32 on success.
pub fn add_firewall_rule_result(code: isize) -> (r: Result<(), String>)
    ensures
        code > 32 <==> r is Ok,
        r matches Err(e) ==> e@ == ELEVATION_FAILED@,
{
    if code <= 32 {
        Err(String::from_str(ELEVATION_FAILED))
    } else {
        Ok(())
    }
}

} // verus!
