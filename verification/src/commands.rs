//! What the commands ask for, and how they are answered.

use vstd::prelude::*;
use vstd::string::*;

use crate::digest::{is_digest_text, parse_sha256};
use crate::fault::{fault, require_all, require_json, Fault, FaultKind, FaultView};
use crate::files::{agrees, result_view};
use crate::name::{name_error_text, pattern_of, pattern_text, NamePattern};
use crate::order::views;
use crate::target::{target_error_text, target_of, target_text, HostHeaderPolicy, MappingTarget};
use crate::text::{concat3, copy, same};

verus! {

// ---------------------------------------------------------------------------
// Mappings
// ---------------------------------------------------------------------------

/// How a mapping is shown, or why it is refused.
pub open spec fn mapping_line(
    pattern: Seq<char>,
    target: Seq<char>,
    policy: HostHeaderPolicy,
) -> Result<Seq<char>, Seq<char>> {
    match pattern_of(pattern) {
        Err(e) => Err(name_error_text(e)),
        Ok(p) => match target_of(target, policy) {
            Err(e) => Err(target_error_text(e)),
            Ok(t) => Ok(pattern_text(p) + " -> "@ + target_text(t)),
        },
    }
}

/// What a `Result` of texts says.
pub open spec fn reply_view(r: Result<String, String>) -> Result<Seq<char>, Seq<char>> {
    match r {
        Ok(s) => Ok(s@),
        Err(s) => Err(s@),
    }
}

/// Checks a mapping, and shows it in its canonical form.
pub fn validate(pattern: &str, target: &str, policy: HostHeaderPolicy) -> (r: Result<
    String,
    String,
>)
    ensures
        reply_view(r) == mapping_line(pattern@, target@, policy),
{
    let p = match NamePattern::parse(pattern) {
        Ok(p) => p,
        Err(e) => {
            return Err(e.to_text());
        },
    };
    match MappingTarget::parse_with_http_policy(target, policy) {
        Ok(t) => Ok(concat3(p.to_text().as_str(), " -> ", t.to_text().as_str())),
        Err(e) => Err(e.to_text()),
    }
}

pub open spec fn usage() -> Seq<char> {
    "Portal\n\nUsage:\n  portal validate <name-pattern> <target>"@
}

/// How a command line is answered.
pub open spec fn portal_reply(arguments: Seq<Seq<char>>) -> Result<Seq<char>, Seq<char>> {
    if arguments.len() == 0 {
        Ok(usage())
    } else if arguments[0] == "validate"@ {
        if arguments.len() < 3 {
            Err("validate requires <name-pattern> <target>"@)
        } else if arguments.len() > 3 {
            Err("validate accepts exactly <name-pattern> <target>"@)
        } else {
            mapping_line(arguments[1], arguments[2], HostHeaderPolicy::PreserveClient)
        }
    } else if arguments[0] == "help"@ || arguments[0] == "--help"@ || arguments[0] == "-h"@ {
        Ok(usage())
    } else {
        Err("unknown command '"@ + arguments[0] + "'"@)
    }
}

/// Answers a command line.
pub fn portal(arguments: &Vec<String>) -> (r: Result<String, String>)
    ensures
        reply_view(r) == portal_reply(views(arguments@)),
{
    let usage = "Portal\n\nUsage:\n  portal validate <name-pattern> <target>";
    if arguments.len() == 0 {
        return Ok(copy(usage));
    }
    proof {
        assert forall|i: int| 0 <= i < arguments@.len() implies #[trigger] views(arguments@)[i]
            == arguments@[i]@ by {}
    }
    let command = arguments[0].as_str();
    if same(command, "validate") {
        if arguments.len() < 3 {
            return Err(copy("validate requires <name-pattern> <target>"));
        }
        if arguments.len() > 3 {
            return Err(copy("validate accepts exactly <name-pattern> <target>"));
        }
        return validate(
            arguments[1].as_str(),
            arguments[2].as_str(),
            HostHeaderPolicy::PreserveClient,
        );
    }
    if same(command, "help") || same(command, "--help") || same(command, "-h") {
        return Ok(copy(usage));
    }
    Err(concat3("unknown command '", command, "'"))
}

/// What a command line asks for.
#[derive(Debug)]
pub enum Action {
    Doctor,
    Validate(String, String, HostHeaderPolicy),
}

/// What a command line asks for, over plain values.
pub enum ActionView {
    Doctor,
    Validate(Seq<char>, Seq<char>, HostHeaderPolicy),
}

impl View for Action {
    type V = ActionView;

    open spec fn view(&self) -> ActionView {
        match self {
            Action::Doctor => ActionView::Doctor,
            Action::Validate(p, t, policy) => ActionView::Validate(p@, t@, *policy),
        }
    }
}

/// The policy that an option names, or why there is none.
pub open spec fn policy_of(value: Seq<char>) -> Result<HostHeaderPolicy, Seq<char>> {
    if value == "preserve-client"@ {
        Ok(HostHeaderPolicy::PreserveClient)
    } else if value == "use-upstream"@ {
        Ok(HostHeaderPolicy::UseUpstream)
    } else {
        Err("the parsed host-header policy '"@ + value + "' is not implemented"@)
    }
}

/// The first value that is missing among those that a validation has to have.
pub open spec fn missing_value(
    pattern: Option<Seq<char>>,
    target: Option<Seq<char>>,
    policy: Option<Seq<char>>,
) -> Option<Seq<char>> {
    if pattern is None {
        Some("name-pattern"@)
    } else if target is None {
        Some("target"@)
    } else if policy is None {
        Some("host-header"@)
    } else {
        None
    }
}

/// What the values of a validation ask for, or why they cannot be used.
pub open spec fn validate_action(
    pattern: Option<Seq<char>>,
    target: Option<Seq<char>>,
    policy: Option<Seq<char>>,
) -> Result<ActionView, Seq<char>> {
    match missing_value(pattern, target, policy) {
        Some(name) => Err(
            "the command parser did not provide required value '"@ + name + "'"@,
        ),
        None => match policy_of(policy->0) {
            Err(e) => Err(e),
            Ok(policy) => Ok(ActionView::Validate(pattern->0, target->0, policy)),
        },
    }
}

fn required_string(value: Option<String>, name: &str) -> (r: Result<String, String>)
    ensures
        match r {
            Ok(s) => value is Some && s@ == value->0@,
            Err(e) => value is None && e@ == "the command parser did not provide required value '"@
                + name@ + "'"@,
        },
{
    match value {
        Some(s) => Ok(s),
        None => Err(concat3("the command parser did not provide required value '", name, "'")),
    }
}

/// What the values of a validation ask for.
pub fn parse_validate(pattern: Option<String>, target: Option<String>, policy: Option<String>) -> (r:
    Result<Action, String>)
    ensures
        match r {
            Ok(a) => Ok::<ActionView, Seq<char>>(a@),
            Err(e) => Err::<ActionView, Seq<char>>(e@),
        } == validate_action(
            crate::model::option_text(pattern),
            crate::model::option_text(target),
            crate::model::option_text(policy),
        ),
{
    let pattern = match required_string(pattern, "name-pattern") {
        Ok(s) => s,
        Err(e) => {
            return Err(e);
        },
    };
    let target = match required_string(target, "target") {
        Ok(s) => s,
        Err(e) => {
            return Err(e);
        },
    };
    let policy = match required_string(policy, "host-header") {
        Ok(s) => s,
        Err(e) => {
            return Err(e);
        },
    };
    if same(policy.as_str(), "preserve-client") {
        return Ok(Action::Validate(pattern, target, HostHeaderPolicy::PreserveClient));
    }
    if same(policy.as_str(), "use-upstream") {
        return Ok(Action::Validate(pattern, target, HostHeaderPolicy::UseUpstream));
    }
    Err(
        concat3(
            "the parsed host-header policy '",
            policy.as_str(),
            "' is not implemented",
        ),
    )
}

/// Whether the answer is wanted as JSON, also where the rest of the command line
/// cannot be understood.
pub fn wants_json(arguments: &Vec<String>) -> (r: bool)
    ensures
        r == views(arguments@).contains("--json"@),
{
    crate::order::contains_text(arguments.as_slice(), "--json")
}

// ---------------------------------------------------------------------------
// The lifecycle
// ---------------------------------------------------------------------------

/// A command of the lifecycle.
#[derive(Debug, Clone, Copy, PartialEq, Eq, Structural)]
pub enum LifecycleCommand {
    Status,
    Inspect,
    PreviewInstall,
    PreviewUpdate,
    PreviewUninstall,
    PreviewRecover,
    Install,
    Update,
    Uninstall,
    Recover,
    Serve,
    Deactivate,
    AuthorizeRuntime,
}

/// The name that a command is answered under.
pub open spec fn label_of(c: LifecycleCommand) -> Seq<char> {
    match c {
        LifecycleCommand::Status => "status"@,
        LifecycleCommand::Inspect => "inspect"@,
        LifecycleCommand::PreviewInstall
        | LifecycleCommand::PreviewUpdate
        | LifecycleCommand::PreviewUninstall => "preview"@,
        LifecycleCommand::PreviewRecover => "preview-recovery"@,
        LifecycleCommand::Install => "install"@,
        LifecycleCommand::Update => "update"@,
        LifecycleCommand::Uninstall => "uninstall"@,
        LifecycleCommand::Recover => "recover"@,
        LifecycleCommand::Serve => "serve"@,
        LifecycleCommand::Deactivate => "deactivate"@,
        LifecycleCommand::AuthorizeRuntime => "authorize-runtime"@,
    }
}

/// What is done for a command, and what it is answered with.
#[derive(Debug, Clone, Copy, PartialEq, Eq, Structural)]
pub enum LifecycleWork {
    /// Report the status of a link, or of all.
    Status,
    /// Prepare an installation; whether it is an update.
    PrepareInstall(bool),
    PrepareUninstall,
    PrepareRecovery,
    /// Install and report the status; whether it is an update.
    Install(bool),
    Uninstall,
    Recover,
    Serve,
    Deactivate,
    Authorize,
}

pub open spec fn work_of(c: LifecycleCommand) -> LifecycleWork {
    match c {
        LifecycleCommand::Status | LifecycleCommand::Inspect => LifecycleWork::Status,
        LifecycleCommand::PreviewInstall => LifecycleWork::PrepareInstall(false),
        LifecycleCommand::PreviewUpdate => LifecycleWork::PrepareInstall(true),
        LifecycleCommand::PreviewUninstall => LifecycleWork::PrepareUninstall,
        LifecycleCommand::PreviewRecover => LifecycleWork::PrepareRecovery,
        LifecycleCommand::Install => LifecycleWork::Install(false),
        LifecycleCommand::Update => LifecycleWork::Install(true),
        LifecycleCommand::Uninstall => LifecycleWork::Uninstall,
        LifecycleCommand::Recover => LifecycleWork::Recover,
        LifecycleCommand::Serve => LifecycleWork::Serve,
        LifecycleCommand::Deactivate => LifecycleWork::Deactivate,
        LifecycleCommand::AuthorizeRuntime => LifecycleWork::Authorize,
    }
}

/// Whether a command answers with an envelope, and so has to ask for JSON.
pub open spec fn answers(c: LifecycleCommand) -> bool {
    c != LifecycleCommand::Serve && c != LifecycleCommand::Deactivate && c
        != LifecycleCommand::AuthorizeRuntime
}

/// Whether a command recovers, and so has to name its whole scope.
pub open spec fn recovers(c: LifecycleCommand) -> bool {
    c == LifecycleCommand::PreviewRecover || c == LifecycleCommand::Recover
}

/// Whether a command installs, and so has to name what it installs.
pub open spec fn installs(c: LifecycleCommand) -> bool {
    c == LifecycleCommand::PreviewInstall || c == LifecycleCommand::PreviewUpdate || c
        == LifecycleCommand::Install || c == LifecycleCommand::Update
}

/// Whether a command names a link.
pub open spec fn names_link(c: LifecycleCommand) -> bool {
    installs(c) || c == LifecycleCommand::Status || c == LifecycleCommand::Inspect || c
        == LifecycleCommand::Serve || c == LifecycleCommand::Deactivate
}

/// The options of a command that are tested before anything is done.
#[derive(Debug)]
pub struct LifecycleOptions {
    pub json: bool,
    pub all: bool,
    pub link: Option<u32>,
    pub source_manifest_sha256: Option<String>,
}

pub open spec fn input_of(message: Seq<char>) -> FaultView {
    FaultView { kind: FaultKind::InvalidInput, message }
}

/// Why a command is refused before anything is done, if it is.
pub open spec fn refusal(c: LifecycleCommand, o: LifecycleOptions) -> Option<FaultView> {
    if answers(c) && !o.json {
        Some(input_of("the Linux lifecycle contract requires --json"@))
    } else if recovers(c) && !o.all {
        Some(input_of("recovery requires the explicit --all scope"@))
    } else if installs(c) && o.source_manifest_sha256 is Some && !is_digest_text(
        o.source_manifest_sha256->0@,
    ) {
        Some(
            input_of(
                "the reviewed source manifest SHA-256 must be 64 lowercase hexadecimal characters"@,
            ),
        )
    } else if names_link(c) && o.link == Some(0u32) {
        Some(input_of("the explicit Linux link index is invalid"@))
    } else {
        None
    }
}

impl LifecycleCommand {
    /// The name that the command is answered under.
    pub fn label(self) -> (s: &'static str)
        ensures
            s@ == label_of(self),
    {
        match self {
            LifecycleCommand::Status => "status",
            LifecycleCommand::Inspect => "inspect",
            LifecycleCommand::PreviewInstall
            | LifecycleCommand::PreviewUpdate
            | LifecycleCommand::PreviewUninstall => "preview",
            LifecycleCommand::PreviewRecover => "preview-recovery",
            LifecycleCommand::Install => "install",
            LifecycleCommand::Update => "update",
            LifecycleCommand::Uninstall => "uninstall",
            LifecycleCommand::Recover => "recover",
            LifecycleCommand::Serve => "serve",
            LifecycleCommand::Deactivate => "deactivate",
            LifecycleCommand::AuthorizeRuntime => "authorize-runtime",
        }
    }

    fn installs(self) -> (r: bool)
        ensures
            r == installs(self),
    {
        match self {
            LifecycleCommand::PreviewInstall
            | LifecycleCommand::PreviewUpdate
            | LifecycleCommand::Install
            | LifecycleCommand::Update => true,
            _ => false,
        }
    }

    fn require_options(self, o: &LifecycleOptions) -> (r: Result<(), Fault>)
        ensures
            agrees(r, refusal(self, *o)),
    {
        let answers = match self {
            LifecycleCommand::Serve
            | LifecycleCommand::Deactivate
            | LifecycleCommand::AuthorizeRuntime => false,
            _ => true,
        };
        if answers {
            match require_json(o.json) {
                Ok(_) => {},
                Err(e) => {
                    return Err(e);
                },
            }
        }
        let recovers = match self {
            LifecycleCommand::PreviewRecover | LifecycleCommand::Recover => true,
            _ => false,
        };
        if recovers {
            match require_all(o.all) {
                Ok(_) => {},
                Err(e) => {
                    return Err(e);
                },
            }
        }
        if self.installs() {
            match &o.source_manifest_sha256 {
                None => {},
                Some(text) => match parse_sha256(text.as_str()) {
                    Ok(_) => {},
                    Err(e) => {
                        return Err(e);
                    },
                },
            }
        }
        let named = self.installs() || self == LifecycleCommand::Status || self
            == LifecycleCommand::Inspect || self == LifecycleCommand::Serve || self
            == LifecycleCommand::Deactivate;
        let zero = match o.link {
            Some(link) => link == 0,
            None => false,
        };
        if named && zero {
            return Err(
                fault(FaultKind::InvalidInput, "the explicit Linux link index is invalid"),
            );
        }
        Ok(())
    }

    /// What is done for the command, or why it is refused before anything is.
    pub fn begin(self, options: &LifecycleOptions) -> (r: Result<LifecycleWork, Fault>)
        ensures
            result_view(r) == match refusal(self, *options) {
                Some(e) => Err::<LifecycleWork, FaultView>(e),
                None => Ok(work_of(self)),
            },
    {
        match self.require_options(options) {
            Ok(_) => {},
            Err(e) => {
                return Err(e);
            },
        }
        Ok(
            match self {
                LifecycleCommand::Status | LifecycleCommand::Inspect => LifecycleWork::Status,
                LifecycleCommand::PreviewInstall => LifecycleWork::PrepareInstall(false),
                LifecycleCommand::PreviewUpdate => LifecycleWork::PrepareInstall(true),
                LifecycleCommand::PreviewUninstall => LifecycleWork::PrepareUninstall,
                LifecycleCommand::PreviewRecover => LifecycleWork::PrepareRecovery,
                LifecycleCommand::Install => LifecycleWork::Install(false),
                LifecycleCommand::Update => LifecycleWork::Install(true),
                LifecycleCommand::Uninstall => LifecycleWork::Uninstall,
                LifecycleCommand::Recover => LifecycleWork::Recover,
                LifecycleCommand::Serve => LifecycleWork::Serve,
                LifecycleCommand::Deactivate => LifecycleWork::Deactivate,
                LifecycleCommand::AuthorizeRuntime => LifecycleWork::Authorize,
            },
        )
    }
}

// ---------------------------------------------------------------------------
// Laws
// ---------------------------------------------------------------------------

/// Whether some work leaves the host as it is.
pub open spec fn leaves_host(w: LifecycleWork) -> bool {
    w == LifecycleWork::Status || w is PrepareInstall || w == LifecycleWork::PrepareUninstall || w
        == LifecycleWork::PrepareRecovery
}

/// A command that is answered as a preview, or reports the status, changes
/// nothing, and no other leaves the host as it is.
pub proof fn law_previews_change_nothing(c: LifecycleCommand)
    ensures
        leaves_host(work_of(c)) <==> label_of(c) == "preview"@ || label_of(c)
            == "preview-recovery"@ || label_of(c) == "status"@ || label_of(c) == "inspect"@,
{
    reveal_strlit("status");
    reveal_strlit("inspect");
    reveal_strlit("preview");
    reveal_strlit("preview-recovery");
    reveal_strlit("install");
    reveal_strlit("update");
    reveal_strlit("uninstall");
    reveal_strlit("recover");
    reveal_strlit("serve");
    reveal_strlit("deactivate");
    reveal_strlit("authorize-runtime");
    assert("status"@.len() == 6 && "inspect"@.len() == 7 && "preview"@.len() == 7
        && "preview-recovery"@.len() == 16 && "install"@.len() == 7 && "update"@.len() == 6
        && "uninstall"@.len() == 9 && "recover"@.len() == 7 && "serve"@.len() == 5
        && "deactivate"@.len() == 10 && "authorize-runtime"@.len() == 17);
    assert("status"@[0] == 's' && "update"@[0] == 'u');
    assert("inspect"@[2] == 's' && "preview"@[0] == 'p' && "install"@[0] == 'i' && "install"@[3]
        == 't' && "inspect"@[3] == 'p' && "recover"@[0] == 'r');
}

/// A preview prepares what its command does, and no command does the work of another.
pub proof fn law_previews_show_what_commands_do(c: LifecycleCommand, d: LifecycleCommand)
    ensures
        work_of(LifecycleCommand::Install) == LifecycleWork::Install(false) && work_of(
            LifecycleCommand::PreviewInstall,
        ) == LifecycleWork::PrepareInstall(false),
        work_of(LifecycleCommand::Update) == LifecycleWork::Install(true) && work_of(
            LifecycleCommand::PreviewUpdate,
        ) == LifecycleWork::PrepareInstall(true),
        work_of(LifecycleCommand::Uninstall) == LifecycleWork::Uninstall && work_of(
            LifecycleCommand::PreviewUninstall,
        ) == LifecycleWork::PrepareUninstall,
        work_of(LifecycleCommand::Recover) == LifecycleWork::Recover && work_of(
            LifecycleCommand::PreviewRecover,
        ) == LifecycleWork::PrepareRecovery,
        work_of(c) == work_of(d) && work_of(c) != LifecycleWork::Status ==> c == d,
        work_of(c) == LifecycleWork::Status <==> c == LifecycleCommand::Status || c
            == LifecycleCommand::Inspect,
{
}

} // verus!
