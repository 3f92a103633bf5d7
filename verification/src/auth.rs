use vstd::prelude::*;
use crate::commands::{command, CommandLine, CommandSpec};

verus! {

/// A tool that grants root rights to the commands the installer runs.
#[derive(Debug, Clone, Copy, PartialEq, Eq, Structural)]
pub enum AuthTool {
    Sudo,
    Doas,
    SudoRs,
}

/// The command name of each tool.
pub open spec fn tool_name(tool: AuthTool) -> Seq<char> {
    match tool {
        AuthTool::Sudo => "sudo"@,
        AuthTool::Doas => "doas"@,
        AuthTool::SudoRs => "sudo-rs"@,
    }
}

impl AuthTool {
    /// The name under which the tool is invoked.
    pub fn as_str(&self) -> (name: &'static str)
        ensures
            name@ == tool_name(*self),
    {
        match self {
            AuthTool::Sudo => "sudo",
            AuthTool::Doas => "doas",
            AuthTool::SudoRs => "sudo-rs",
        }
    }
}

/// Whether the user id is that of root.
pub fn is_root(uid: u32) -> (b: bool)
    ensures
        b == (uid == 0),
{
    uid == 0
}

/// The command that tells whether a tool can be started: `sudo -v`,
/// `doas -C /bin/sh`, `sudo-rs -v`.
pub open spec fn probe_spec(tool: AuthTool) -> CommandSpec {
    match tool {
        AuthTool::Sudo => CommandSpec { program: "sudo"@, args: seq!["-v"@] },
        AuthTool::Doas => CommandSpec { program: "doas"@, args: seq!["-C"@, "/bin/sh"@] },
        AuthTool::SudoRs => CommandSpec { program: "sudo-rs"@, args: seq!["-v"@] },
    }
}

/// Builds `probe_spec`.
pub fn probe_command(tool: AuthTool) -> (c: CommandLine)
    ensures
        c@ == probe_spec(tool),
{
    match tool {
        AuthTool::Sudo => {
            let mut c = command("sudo");
            c.arg("-v");
            assert(c@.args =~= probe_spec(tool).args);
            c
        },
        AuthTool::Doas => {
            let mut c = command("doas");
            c.arg("-C");
            c.arg("/bin/sh");
            assert(c@.args =~= probe_spec(tool).args);
            c
        },
        AuthTool::SudoRs => {
            let mut c = command("sudo-rs");
            c.arg("-v");
            assert(c@.args =~= probe_spec(tool).args);
            c
        },
    }
}

/// The tools whose probe command could be started, in the order sudo, doas, sudo-rs.
pub open spec fn available_tools(sudo: bool, doas: bool, sudo_rs: bool) -> Seq<AuthTool> {
    (if sudo { seq![AuthTool::Sudo] } else { seq![] }) + (if doas { seq![AuthTool::Doas] } else {
        seq![]
    }) + (if sudo_rs { seq![AuthTool::SudoRs] } else { seq![] })
}

/// Lists the tools whose probe command (`probe_command`) could be started.
pub fn get_available_tools(sudo: bool, doas: bool, sudo_rs: bool) -> (tools: Vec<AuthTool>)
    ensures
        tools@ == available_tools(sudo, doas, sudo_rs),
        tools@.contains(AuthTool::Sudo) == sudo,
        tools@.contains(AuthTool::Doas) == doas,
        tools@.contains(AuthTool::SudoRs) == sudo_rs,
        forall|i: int, j: int|
            0 <= i < j < tools@.len() ==> tool_rank(#[trigger] tools@[i]) < tool_rank(#[trigger] tools@[j]),
{
    let mut tools = Vec::new();
    if sudo {
        tools.push(AuthTool::Sudo);
    }
    if doas {
        tools.push(AuthTool::Doas);
    }
    if sudo_rs {
        tools.push(AuthTool::SudoRs);
    }
    assert(tools@ =~= available_tools(sudo, doas, sudo_rs));
    proof {
        lemma_tools_follow_their_probes(sudo, doas, sudo_rs);
    }
    tools
}

/// The place of each tool in the order in which tools are listed.
pub open spec fn tool_rank(tool: AuthTool) -> int {
    match tool {
        AuthTool::Sudo => 0,
        AuthTool::Doas => 1,
        AuthTool::SudoRs => 2,
    }
}

/// Each tool is listed exactly when its own probe could be started, once,
/// and the list goes sudo, doas, sudo-rs.
pub proof fn lemma_tools_follow_their_probes(sudo: bool, doas: bool, sudo_rs: bool)
    ensures
        available_tools(sudo, doas, sudo_rs).contains(AuthTool::Sudo) == sudo,
        available_tools(sudo, doas, sudo_rs).contains(AuthTool::Doas) == doas,
        available_tools(sudo, doas, sudo_rs).contains(AuthTool::SudoRs) == sudo_rs,
        available_tools(sudo, doas, sudo_rs).len() == (if sudo { 1int } else { 0 }) + (if doas { 1int } else { 0 })
            + (if sudo_rs { 1int } else { 0 }),
        forall|i: int, j: int|
            0 <= i < j < available_tools(sudo, doas, sudo_rs).len() ==> tool_rank(
                #[trigger] available_tools(sudo, doas, sudo_rs)[i],
            ) < tool_rank(#[trigger] available_tools(sudo, doas, sudo_rs)[j]),
{
    let s = available_tools(sudo, doas, sudo_rs);
    let a: Seq<AuthTool> = if sudo { seq![AuthTool::Sudo] } else { seq![] };
    let b: Seq<AuthTool> = if doas { seq![AuthTool::Doas] } else { seq![] };
    let c: Seq<AuthTool> = if sudo_rs { seq![AuthTool::SudoRs] } else { seq![] };
    assert(s == a + b + c);
    if sudo {
        assert(s[0] == AuthTool::Sudo);
    }
    if doas {
        assert(s[a.len() as int] == AuthTool::Doas);
    }
    if sudo_rs {
        assert(s[(a.len() + b.len()) as int] == AuthTool::SudoRs);
    }
    assert forall|x: AuthTool| s.contains(x) implies (x == AuthTool::Sudo ==> sudo) && (x == AuthTool::Doas
        ==> doas) && (x == AuthTool::SudoRs ==> sudo_rs) by {
        let k = choose|k: int| 0 <= k < s.len() && s[k] == x;
        if k < a.len() {
            assert(s[k] == a[k]);
        } else if k < a.len() + b.len() {
            assert(s[k] == b[k - a.len()]);
        } else {
            assert(s[k] == c[k - a.len() - b.len()]);
        }
    }
    assert forall|i: int, j: int| 0 <= i < j < s.len() implies tool_rank(#[trigger] s[i]) < tool_rank(
        #[trigger] s[j],
    ) by {
        if i < a.len() {
            assert(s[i] == a[i]);
        } else if i < a.len() + b.len() {
            assert(s[i] == b[i - a.len()]);
        } else {
            assert(s[i] == c[i - a.len() - b.len()]);
        }
        if j < a.len() {
            assert(s[j] == a[j]);
        } else if j < a.len() + b.len() {
            assert(s[j] == b[j - a.len()]);
        } else {
            assert(s[j] == c[j - a.len() - b.len()]);
        }
    }
}

} // verus!
