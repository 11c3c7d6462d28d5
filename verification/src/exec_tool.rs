//! The `exec` tool: commands run in the shell of the user, always inside the
//! platform sandbox unless an escalation was asked for and approved.

use crate::codex_shell;
use crate::codex_shell::{CodexShell, SandboxMode, ShellEnvironment, ShellOutput};
use crate::file_tools::FsCtx;
use crate::text;
use vstd::prelude::*;

verus! {

/// How commands are confined: what they may reach, whether they may use the
/// network, and the directory that they may write in.
#[derive(Debug, Clone)]
pub struct SandboxSpec {
    pub mode: SandboxMode,
    pub network_access: bool,
    pub writable_root: Option<String>,
}

/// How commands are confined.
pub struct SandboxSpecView {
    pub mode: SandboxMode,
    pub network_access: bool,
    pub writable_root: Option<Seq<char>>,
}

impl View for SandboxSpec {
    type V = SandboxSpecView;

    open spec fn view(&self) -> SandboxSpecView {
        SandboxSpecView {
            mode: self.mode,
            network_access: self.network_access,
            writable_root: text::opt_view(self.writable_root),
        }
    }
}

impl SandboxSpec {
    /// A confinement without a writable directory.
    pub fn new(mode: SandboxMode, network_access: bool) -> (r: Self)
        ensures
            r@ == (SandboxSpecView { mode, network_access, writable_root: None }),
    {
        SandboxSpec { mode, network_access, writable_root: None }
    }

    /// The same confinement with another writable directory.
    pub fn with_writable_root(self, root: &Option<String>) -> (r: Self)
        ensures
            r@ == (SandboxSpecView { writable_root: text::opt_view(*root), ..self@ }),
    {
        SandboxSpec {
            mode: self.mode,
            network_access: self.network_access,
            writable_root: text::copy_opt(root),
        }
    }

    /// The same confinement again.
    pub fn copy(&self) -> (r: Self)
        ensures
            r@ == self@,
    {
        SandboxSpec {
            mode: self.mode,
            network_access: self.network_access,
            writable_root: text::copy_opt(&self.writable_root),
        }
    }
}

/// The tool that runs commands.
pub struct ExecTool {
    pub ctx: FsCtx,
    pub timeout_secs: u64,
    pub shell: CodexShell,
    pub sandbox: SandboxSpec,
    pub environment_home: Option<String>,
}

/// What a call says of the confinement that it wants.
#[derive(Debug)]
pub enum PermissionArg {
    /// Nothing.
    Absent,
    /// A text.
    Text(String),
    /// Something that is no text.
    NotText,
}

/// Whether a call asks to run outside the normal sandbox, or what is wrong with
/// what it says.
pub open spec fn escalation_wanted(arg: PermissionArg) -> Result<bool, Seq<char>> {
    match arg {
        PermissionArg::Absent => Ok(false),
        PermissionArg::Text(s) => if s@ == "use_default"@ {
            Ok(false)
        } else if s@ == "require_escalated"@ {
            Ok(true)
        } else {
            Err("sandbox_permissions must be use_default or require_escalated"@)
        },
        PermissionArg::NotText => Err(
            "sandbox_permissions must be use_default or require_escalated"@,
        ),
    }
}

/// The confinement of a call: the normal one, or none at all for an escalation
/// that is approved and justified.
pub open spec fn confinement(
    arg: PermissionArg,
    justification: Option<Seq<char>>,
    approved: bool,
    normal: SandboxSpecView,
) -> Result<SandboxSpecView, Seq<char>> {
    match escalation_wanted(arg) {
        Err(message) => Err(message),
        Ok(false) => Ok(normal),
        Ok(true) => if !approved {
            Err("require_escalated was not approved; request approval through the runtime first"@)
        } else if justification is None || justification->0.len() == 0 {
            Err("require_escalated requires a non-empty justification"@)
        } else {
            Ok(
                SandboxSpecView {
                    mode: SandboxMode::DangerFullAccess,
                    network_access: true,
                    writable_root: None,
                },
            )
        },
    }
}

/// The view of a confinement.
pub open spec fn confinement_view(r: Result<SandboxSpec, String>) -> Result<
    SandboxSpecView,
    Seq<char>,
> {
    match r {
        Ok(s) => Ok(s@),
        Err(e) => Err(e@),
    }
}

/// What is reported of a command that was run.
#[derive(Debug)]
pub struct ExecReport {
    pub command: String,
    pub stdout: String,
    pub stderr: String,
    pub returncode: i32,
    pub timed_out: bool,
    pub shell: String,
    pub allowed_write_dir: Option<String>,
    pub sandbox: String,
}

impl ExecTool {
    /// A tool that confines commands to the writable directory of `ctx`.
    pub fn new(ctx: FsCtx, timeout_secs: u64, env: &ShellEnvironment) -> (r: Self)
        ensures
            r.ctx == ctx,
            r.timeout_secs == timeout_secs,
            r.shell.shell@ == codex_shell::user_shell(env@),
            r.sandbox@ == (SandboxSpecView {
                mode: SandboxMode::WorkspaceWrite,
                network_access: false,
                writable_root: text::opt_view(ctx.write_dir),
            }),
            r.environment_home is None,
    {
        let sandbox = SandboxSpec::new(SandboxMode::WorkspaceWrite, false).with_writable_root(
            &ctx.write_dir,
        );
        ExecTool { ctx, timeout_secs, shell: CodexShell::new(env), sandbox, environment_home: None }
    }

    /// The same tool with another confinement.
    pub fn with_sandbox(self, sandbox: SandboxSpec) -> (r: Self)
        ensures
            r == (ExecTool { sandbox, ..self }),
    {
        ExecTool {
            ctx: self.ctx,
            timeout_secs: self.timeout_secs,
            shell: self.shell,
            sandbox,
            environment_home: self.environment_home,
        }
    }

    /// The same tool with a home directory to find the environment in.
    pub fn with_environment_home(self, home: String) -> (r: Self)
        ensures
            r == (ExecTool { environment_home: Some(home), ..self }),
    {
        ExecTool {
            ctx: self.ctx,
            timeout_secs: self.timeout_secs,
            shell: self.shell,
            sandbox: self.sandbox,
            environment_home: Some(home),
        }
    }

    /// The name of the tool.
    pub fn name(&self) -> (r: &'static str)
        ensures
            r@ == "exec"@,
    {
        "exec"
    }

    /// Decides how a call is confined. What the model says cannot lift the
    /// confinement: only the runtime approves.
    pub fn call_with_context(
        &self,
        permissions: &PermissionArg,
        justification: &Option<String>,
        allow_escalated_exec: bool,
    ) -> (r: Result<SandboxSpec, String>)
        ensures
            confinement_view(r) == confinement(
                *permissions,
                text::opt_view(*justification),
                allow_escalated_exec,
                self.sandbox@,
            ),
    {
        let requested = match permissions {
            PermissionArg::Absent => false,
            PermissionArg::Text(s) => {
                if text::same(s, "use_default") {
                    false
                } else if text::same(s, "require_escalated") {
                    true
                } else {
                    return Err(
                        "sandbox_permissions must be use_default or require_escalated".to_owned(),
                    );
                }
            },
            PermissionArg::NotText => {
                return Err(
                    "sandbox_permissions must be use_default or require_escalated".to_owned(),
                );
            },
        };
        if requested && !allow_escalated_exec {
            return Err(
                "require_escalated was not approved; request approval through the runtime first".to_owned(),
            );
        }
        if !requested {
            return Ok(self.sandbox.copy());
        }
        let justified = match justification {
            Some(s) => !s.as_str().is_empty(),
            None => false,
        };
        if !justified {
            return Err("require_escalated requires a non-empty justification".to_owned());
        }
        Ok(SandboxSpec::new(SandboxMode::DangerFullAccess, true))
    }

    /// The report on a command that was run under the given mode.
    pub fn report(&self, command: String, output: ShellOutput, mode: SandboxMode) -> (r: ExecReport)
        ensures
            r.command == command,
            r.stdout == output.stdout,
            r.stderr == output.stderr,
            r.returncode == output.returncode,
            r.timed_out == output.timed_out,
            r.shell@ == codex_shell::shell_name(self.shell.shell.shell_type),
            text::opt_view(r.allowed_write_dir) == text::opt_view(self.ctx.write_dir),
            r.sandbox@ == codex_shell::kebab_name(mode),
    {
        ExecReport {
            command,
            stdout: output.stdout,
            stderr: output.stderr,
            returncode: output.returncode,
            timed_out: output.timed_out,
            shell: self.shell.detected_shell().name().to_owned(),
            allowed_write_dir: text::copy_opt(&self.ctx.write_dir),
            sandbox: mode.as_kebab().to_owned(),
        }
    }
}

/// A tool with the given confinement around the writable directory of `ctx`.
pub fn make(ctx: FsCtx, timeout_secs: u64, sandbox: SandboxSpec, env: &ShellEnvironment) -> (r:
    ExecTool)
    ensures
        r.ctx == ctx,
        r.timeout_secs == timeout_secs,
        r.shell.shell@ == codex_shell::user_shell(env@),
        r.sandbox@ == (SandboxSpecView {
            writable_root: text::opt_view(ctx.write_dir),
            ..sandbox@
        }),
        r.environment_home is None,
{
    let sandbox = sandbox.with_writable_root(&ctx.write_dir);
    ExecTool::new(ctx, timeout_secs, env).with_sandbox(sandbox)
}

/// As `make`, with a home directory to find the environment in.
pub fn make_with_environment(
    ctx: FsCtx,
    timeout_secs: u64,
    sandbox: SandboxSpec,
    home: String,
    env: &ShellEnvironment,
) -> (r: ExecTool)
    ensures
        r.ctx == ctx,
        r.timeout_secs == timeout_secs,
        r.shell.shell@ == codex_shell::user_shell(env@),
        r.sandbox@ == (SandboxSpecView {
            writable_root: text::opt_view(ctx.write_dir),
            ..sandbox@
        }),
        r.environment_home == Some(home),
{
    make(ctx, timeout_secs, sandbox, env).with_environment_home(home)
}

/// Without the approval of the runtime a call never leaves the normal sandbox,
/// whatever it says.
pub proof fn law_no_escalation_without_approval(
    arg: PermissionArg,
    justification: Option<Seq<char>>,
    normal: SandboxSpecView,
)
    ensures
        confinement(arg, justification, false, normal) matches Ok(c) ==> c == normal,
{
}

/// An approved escalation still needs a reason.
pub proof fn law_escalation_needs_justification(
    arg: PermissionArg,
    justification: Option<Seq<char>>,
    approved: bool,
    normal: SandboxSpecView,
)
    ensures
        confinement(arg, justification, approved, normal) matches Ok(c) ==> c == normal || (approved
            && justification is Some && justification->0.len() > 0),
{
}

/// A call without a word on permissions, or with the default, stays in the normal sandbox,
/// whatever was approved.
pub proof fn law_default_is_the_normal_sandbox(
    text: String,
    justification: Option<Seq<char>>,
    approved: bool,
    normal: SandboxSpecView,
)
    ensures
        confinement(PermissionArg::Absent, justification, approved, normal) == Ok::<
            SandboxSpecView,
            Seq<char>,
        >(normal),
        text@ == "use_default"@ ==> confinement(
            PermissionArg::Text(text),
            justification,
            approved,
            normal,
        ) == Ok::<SandboxSpecView, Seq<char>>(normal),
{
    reveal_strlit("use_default");
    reveal_strlit("require_escalated");
}

/// An escalation that is approved and justified leaves every confinement: the whole disk may be
/// written, and the network may be used.
pub proof fn law_approved_escalation_is_unconfined(
    text: String,
    justification: Seq<char>,
    normal: SandboxSpecView,
)
    requires
        text@ == "require_escalated"@,
        justification.len() > 0,
    ensures
        confinement(PermissionArg::Text(text), Some(justification), true, normal) matches Ok(c)
            && c.mode == SandboxMode::DangerFullAccess && c.network_access && c.writable_root
            is None,
{
    reveal_strlit("use_default");
    reveal_strlit("require_escalated");
    assert("use_default"@.len() != "require_escalated"@.len());
}

/// Words other than the two that are known, and what is no text, are refused.
pub proof fn law_unknown_permissions_are_refused(
    text: String,
    justification: Option<Seq<char>>,
    approved: bool,
    normal: SandboxSpecView,
)
    requires
        text@ != "use_default"@,
        text@ != "require_escalated"@,
    ensures
        confinement(PermissionArg::Text(text), justification, approved, normal) is Err,
        confinement(PermissionArg::NotText, justification, approved, normal) is Err,
{
}

} // verus!
