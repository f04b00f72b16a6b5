//! The quick commands that a new user starts with. The list is short on purpose: it is easy to
//! look over, and nothing dangerous can be clicked by mistake.
use vstd::prelude::*;

verus! {

/// A command that is sent to the terminal with one click.
#[derive(Debug)]
pub struct QuickCommand {
    pub name: String,
    pub command: String,
    pub group: String,
    /// Whether the command is run at once.
    pub send_enter: bool,
}

/// The contents of a [`QuickCommand`].
#[verifier::ext_equal]
pub struct QuickView {
    pub name: Seq<char>,
    pub command: Seq<char>,
    pub group: Seq<char>,
    pub send_enter: bool,
}

impl View for QuickCommand {
    type V = QuickView;

    open spec fn view(&self) -> QuickView {
        QuickView {
            name: self.name@,
            command: self.command@,
            group: self.group@,
            send_enter: self.send_enter,
        }
    }
}

/// A quick command that is run at once.
pub open spec fn quick(name: Seq<char>, command: Seq<char>, group: Seq<char>) -> QuickView {
    QuickView { name, command, group, send_enter: true }
}

/// A quick command that is run at once.
pub fn cmd(name: &str, command: &str, group: &str) -> (out: QuickCommand)
    ensures
        out@ == quick(name@, command@, group@),
{
    QuickCommand {
        name: name.to_string(),
        command: command.to_string(),
        group: group.to_string(),
        send_enter: true,
    }
}

/// The groups of the first quick commands.
pub open spec fn starter_groups() -> Seq<Seq<char>> {
    seq!["System"@, "OpenWrt"@, "Docker"@]
}

/// The groups of the first quick commands.
pub fn starter_quick_groups() -> (out: Vec<String>)
    ensures
        crate::text::texts(out@) == starter_groups(),
{
    let mut out: Vec<String> = Vec::new();
    out.push("System".to_string());
    out.push("OpenWrt".to_string());
    out.push("Docker".to_string());
    assert(crate::text::texts(out@) =~= starter_groups());
    out
}

/// The first quick commands.
pub open spec fn starter_commands() -> Seq<QuickView> {
    seq![
        quick("系统概览"@, "uname -a && uptime && free -h && df -h"@, "System"@),
        quick("监听端口"@, "ss -tulpen | head -80"@, "System"@),
        quick("进程 Top"@, "ps aux --sort=-%mem | head -20"@, "System"@),
        quick("OpenWrt 版本"@, "ubus call system board"@, "OpenWrt"@),
        quick("OpenWrt 日志"@, "logread -f"@, "OpenWrt"@),
        quick("DHCP 租约"@, "cat /tmp/dhcp.leases"@, "OpenWrt"@),
        quick(
            "Docker 容器"@,
            "docker ps --format 'table {{.Names}}\\t{{.Status}}\\t{{.Ports}}'"@,
            "Docker"@,
        ),
        quick("Docker 占用"@, "docker stats --no-stream"@, "Docker"@),
    ]
}

/// The contents of quick commands.
pub open spec fn quick_views(s: Seq<QuickCommand>) -> Seq<QuickView> {
    s.map_values(|q: QuickCommand| q@)
}

/// The first quick commands.
pub fn starter_quick_commands() -> (out: Vec<QuickCommand>)
    ensures
        quick_views(out@) == starter_commands(),
{
    let mut out: Vec<QuickCommand> = Vec::new();
    out.push(cmd("系统概览", "uname -a && uptime && free -h && df -h", "System"));
    out.push(cmd("监听端口", "ss -tulpen | head -80", "System"));
    out.push(cmd("进程 Top", "ps aux --sort=-%mem | head -20", "System"));
    out.push(cmd("OpenWrt 版本", "ubus call system board", "OpenWrt"));
    out.push(cmd("OpenWrt 日志", "logread -f", "OpenWrt"));
    out.push(cmd("DHCP 租约", "cat /tmp/dhcp.leases", "OpenWrt"));
    out.push(
        cmd(
            "Docker 容器",
            "docker ps --format 'table {{.Names}}\\t{{.Status}}\\t{{.Ports}}'",
            "Docker",
        ),
    );
    out.push(cmd("Docker 占用", "docker stats --no-stream", "Docker"));
    assert(quick_views(out@) =~= starter_commands());
    out
}

/// Every starter command belongs to one of the starter groups.
pub proof fn law_commands_are_grouped(i: int)
    requires
        0 <= i < starter_commands().len(),
    ensures
        starter_groups().contains(starter_commands()[i].group),
{
    let g = starter_groups();
    assert(g[0] == "System"@ && g[1] == "OpenWrt"@ && g[2] == "Docker"@);
}

/// A new user starts with eight commands, each of which is run at once, and each group has some.
pub proof fn law_starters_run_at_once(i: int)
    requires
        0 <= i < starter_commands().len(),
    ensures
        starter_commands().len() == 8,
        starter_commands()[i].send_enter,
        starter_commands()[0].group == starter_groups()[0],
        starter_commands()[3].group == starter_groups()[1],
        starter_commands()[6].group == starter_groups()[2],
{
}

} // verus!
