//! Launching the Codex app server: what has to hold before, where its state is,
//! and how it is called.

use vstd::prelude::*;
use vstd::string::StringSliceAdditionalSpecFns;
use vstd::utf8::{decode_utf8, encode_utf8_decode_utf8, valid_utf8};

use crate::agent::{AgentFailureCause, AgentInputKind};
use crate::bytes::{bytes_equal, copy_bytes};
use crate::codex::drive::DriveOutcome;
use crate::codex::input::{
    admitted_form, failed_launch, initial_turn_input, item_has_form, launch_failure, text_item,
    turn_admitted, StagedAttachment,
};
use crate::evidence::CancellationReason;
use crate::json::JsonValue;
use crate::json_text::{json_quoted, quote_json};
use crate::path::{
    absolute, are_same_absolute_path, is_absolute, is_within, join_path, joined, lies_within,
    same_absolute_path,
};
use crate::text::{push_text, texts, utf8_text};

verus! {

/// Where an invocation stands.
#[derive(Clone, Copy, Debug, PartialEq, Eq, Structural)]
pub enum InvocationPhase {
    Created,
    Preparing,
    Claiming,
    Confirming,
    Launching,
    Configuring,
    Aborting { cause: AgentFailureCause },
    Driving,
    Closing { outcome: DriveOutcome },
    Ended,
}

/// What doing an invocation's last action came to.
#[derive(Clone, Copy, Debug, PartialEq, Eq, Structural)]
pub enum InvocationEvent {
    /// The cancellation accepted by now.
    Polled { reason: Option<CancellationReason> },
    /// A preparation, a launch or a configuration succeeded or failed.
    Prepared { failure: Option<AgentFailureCause> },
    /// The task of a preparation was lost.
    PreparationLost,
    /// Something was there or not, or was done.
    Answered { succeeded: bool },
    /// The drive ended.
    Driven { outcome: DriveOutcome },
}

/// What an invocation does next.
#[derive(Clone, Copy, Debug, PartialEq, Eq, Structural)]
pub enum InvocationAction {
    PollCancellation,
    Prepare,
    TakeDirectives,
    Launch,
    ConfigureParser,
    AbortProcess,
    Drive,
    FinishDiagnostics { outcome: DriveOutcome },
    Finish { outcome: DriveOutcome },
    Rest,
}

/// Ends the invocation with that outcome.
pub open spec fn ended_rule(outcome: DriveOutcome) -> (InvocationPhase, InvocationAction) {
    (InvocationPhase::Ended, InvocationAction::Finish { outcome })
}

/// Ends the invocation with that outcome.
pub fn ended(outcome: DriveOutcome) -> (decided: (InvocationPhase, InvocationAction))
    ensures
        decided == ended_rule(outcome),
{
    (InvocationPhase::Ended, InvocationAction::Finish { outcome })
}

/// Takes up an event: where the invocation stands then, and what it does next. A
/// cancellation before the launch ends it, and so does every failure of its
/// setup.
pub open spec fn invoke_inner_rule(
    phase: InvocationPhase,
    event: InvocationEvent,
) -> (InvocationPhase, InvocationAction) {
    match phase {
        InvocationPhase::Created => match event {
            InvocationEvent::Polled { reason: Some(reason) } => ended_rule(
                DriveOutcome::Cancelled { reason },
            ),
            _ => (InvocationPhase::Preparing, InvocationAction::Prepare),
        },
        InvocationPhase::Preparing => match event {
            InvocationEvent::Prepared { failure: None } => (
                InvocationPhase::Claiming,
                InvocationAction::TakeDirectives,
            ),
            InvocationEvent::Prepared { failure: Some(cause) } => ended_rule(
                DriveOutcome::Failed { cause },
            ),
            _ => ended_rule(DriveOutcome::Failed { cause: launch_failure() }),
        },
        InvocationPhase::Claiming => match event {
            InvocationEvent::Answered { succeeded: true } => (
                InvocationPhase::Confirming,
                InvocationAction::PollCancellation,
            ),
            _ => ended_rule(DriveOutcome::Failed { cause: launch_failure() }),
        },
        InvocationPhase::Confirming => match event {
            InvocationEvent::Polled { reason: Some(reason) } => ended_rule(
                DriveOutcome::Cancelled { reason },
            ),
            _ => (InvocationPhase::Launching, InvocationAction::Launch),
        },
        InvocationPhase::Launching => match event {
            InvocationEvent::Prepared { failure: Some(cause) } => ended_rule(
                DriveOutcome::Failed { cause },
            ),
            _ => (InvocationPhase::Configuring, InvocationAction::ConfigureParser),
        },
        InvocationPhase::Configuring => match event {
            InvocationEvent::Prepared { failure: Some(cause) } => (
                InvocationPhase::Aborting { cause },
                InvocationAction::AbortProcess,
            ),
            _ => (InvocationPhase::Driving, InvocationAction::Drive),
        },
        InvocationPhase::Aborting { cause } => ended_rule(DriveOutcome::Failed { cause }),
        InvocationPhase::Driving => match event {
            InvocationEvent::Driven { outcome } => (
                InvocationPhase::Closing { outcome },
                InvocationAction::FinishDiagnostics { outcome },
            ),
            _ => ended_rule(DriveOutcome::Failed { cause: launch_failure() }),
        },
        InvocationPhase::Closing { outcome } => ended_rule(outcome),
        InvocationPhase::Ended => (InvocationPhase::Ended, InvocationAction::Rest),
    }
}

/// Takes up an event: where the invocation stands then, and what it does next. A
/// cancellation before the launch ends it, and so does every failure of its
/// setup.
pub fn invoke_inner(
    phase: InvocationPhase,
    event: InvocationEvent,
) -> (decided: (InvocationPhase, InvocationAction))
    ensures
        decided == invoke_inner_rule(phase, event),
{
    match phase {
        InvocationPhase::Created => match event {
            InvocationEvent::Polled { reason: Some(reason) } => ended(
                DriveOutcome::Cancelled { reason },
            ),
            _ => (InvocationPhase::Preparing, InvocationAction::Prepare),
        },
        InvocationPhase::Preparing => match event {
            InvocationEvent::Prepared { failure: None } => (
                InvocationPhase::Claiming,
                InvocationAction::TakeDirectives,
            ),
            InvocationEvent::Prepared { failure: Some(cause) } => ended(
                DriveOutcome::Failed { cause },
            ),
            _ => ended(DriveOutcome::Failed { cause: launch_failure() }),
        },
        InvocationPhase::Claiming => match event {
            InvocationEvent::Answered { succeeded: true } => (
                InvocationPhase::Confirming,
                InvocationAction::PollCancellation,
            ),
            _ => ended(DriveOutcome::Failed { cause: launch_failure() }),
        },
        InvocationPhase::Confirming => match event {
            InvocationEvent::Polled { reason: Some(reason) } => ended(
                DriveOutcome::Cancelled { reason },
            ),
            _ => (InvocationPhase::Launching, InvocationAction::Launch),
        },
        InvocationPhase::Launching => match event {
            InvocationEvent::Prepared { failure: Some(cause) } => ended(
                DriveOutcome::Failed { cause },
            ),
            _ => (InvocationPhase::Configuring, InvocationAction::ConfigureParser),
        },
        InvocationPhase::Configuring => match event {
            InvocationEvent::Prepared { failure: Some(cause) } => (
                InvocationPhase::Aborting { cause },
                InvocationAction::AbortProcess,
            ),
            _ => (InvocationPhase::Driving, InvocationAction::Drive),
        },
        InvocationPhase::Aborting { cause } => ended(DriveOutcome::Failed { cause }),
        InvocationPhase::Driving => match event {
            InvocationEvent::Driven { outcome } => (
                InvocationPhase::Closing { outcome },
                InvocationAction::FinishDiagnostics { outcome },
            ),
            _ => ended(DriveOutcome::Failed { cause: launch_failure() }),
        },
        InvocationPhase::Closing { outcome } => ended(outcome),
        InvocationPhase::Ended => (InvocationPhase::Ended, InvocationAction::Rest),
    }
}

/// A process is launched only after the cancellation was looked at again, and
/// nothing is launched for an invocation that was cancelled by then.
pub proof fn law_cancelled_invocations_launch_nothing(
    phase: InvocationPhase,
    event: InvocationEvent,
)
    ensures
        invoke_inner_rule(phase, event).1 == InvocationAction::Launch ==> phase
            == InvocationPhase::Confirming && !(event matches InvocationEvent::Polled {
            reason: Some(_),
        }),
{
}

/// What is known before a launch: how long the prompt and the message are and may
/// be, and whether the agent is the one that this profile is for.
#[derive(Clone, Copy, Debug, PartialEq, Eq, Structural)]
pub struct LaunchFacts {
    pub system_prompt_bytes: u64,
    pub maximum_system_prompt_bytes: u64,
    pub message_bytes: u64,
    pub maximum_message_bytes: u64,
    pub profile_matches: bool,
    pub version_supported: bool,
    pub executable_absolute: bool,
    pub diagnostics_bound: bool,
}

/// Why a launch is refused, if it is.
pub open spec fn launch_refusal(facts: LaunchFacts) -> Option<AgentFailureCause> {
    if facts.system_prompt_bytes > facts.maximum_system_prompt_bytes {
        Some(AgentFailureCause::HarnessInputTooLarge { kind: AgentInputKind::SystemPrompt })
    } else if facts.message_bytes > facts.maximum_message_bytes {
        Some(AgentFailureCause::HarnessInputTooLarge { kind: AgentInputKind::Message })
    } else if facts.profile_matches && facts.version_supported && facts.executable_absolute
        && facts.diagnostics_bound {
        None
    } else {
        Some(failed_launch())
    }
}

/// Checks that an input is not larger than it may be.
fn check_agent_input_bound(bytes: u64, maximum_bytes: u64, kind: AgentInputKind) -> (outcome:
    Result<(), AgentFailureCause>)
    ensures
        outcome == (if bytes > maximum_bytes {
            Err(AgentFailureCause::HarnessInputTooLarge { kind })
        } else {
            Ok(())
        }),
{
    if bytes > maximum_bytes {
        Err(AgentFailureCause::HarnessInputTooLarge { kind })
    } else {
        Ok(())
    }
}

/// Checks what has to hold before a launch: the prompt first, then the message.
pub fn admit_launch(facts: LaunchFacts) -> (outcome: Result<(), AgentFailureCause>)
    ensures
        outcome == (match launch_refusal(facts) {
            Some(cause) => Err(cause),
            None => Ok(()),
        }),
{
    check_agent_input_bound(
        facts.system_prompt_bytes,
        facts.maximum_system_prompt_bytes,
        AgentInputKind::SystemPrompt,
    )?;
    check_agent_input_bound(
        facts.message_bytes,
        facts.maximum_message_bytes,
        AgentInputKind::Message,
    )?;
    if !facts.profile_matches || !facts.version_supported || !facts.executable_absolute
        || !facts.diagnostics_bound {
        return Err(launch_failure());
    }
    Ok(())
}

/// The last value of a variable.
pub open spec fn variable(environment: Seq<(Vec<u8>, Vec<u8>)>, name: Seq<u8>) -> Option<Seq<u8>>
    decreases environment.len(),
{
    if environment.len() == 0 {
        None
    } else if environment.last().0@ == name {
        Some(environment.last().1@)
    } else {
        variable(environment.drop_last(), name)
    }
}

/// Where the agent keeps its state: what `CODEX_HOME` says, or else `.codex` in
/// what `HOME` says.
pub open spec fn home_path(environment: Seq<(Vec<u8>, Vec<u8>)>) -> Option<Seq<u8>> {
    match variable(environment, "CODEX_HOME".spec_bytes()) {
        Some(path) => Some(path),
        None => match variable(environment, "HOME".spec_bytes()) {
            Some(home) => Some(joined(home, ".codex".spec_bytes())),
            None => None,
        },
    }
}

/// The value of a variable.
fn find_variable(environment: &Vec<(Vec<u8>, Vec<u8>)>, name: &str) -> (position: Option<usize>)
    ensures
        match position {
            Some(index) => index < environment@.len() && variable(environment@, name.spec_bytes())
                == Some(environment@[index as int].1@),
            None => variable(environment@, name.spec_bytes()) is None,
        },
{
    let wanted: &[u8] = name.as_bytes();
    let mut remaining: usize = environment.len();
    assert(environment@.take(remaining as int) =~= environment@);
    while remaining > 0
        invariant
            remaining <= environment@.len(),
            wanted@ == name.spec_bytes(),
            variable(environment@, wanted@) == variable(
                environment@.take(remaining as int),
                wanted@,
            ),
        decreases remaining,
    {
        proof {
            let known = environment@.take(remaining as int);
            assert(known.drop_last() =~= environment@.take(remaining - 1));
            assert(known.last() == environment@[remaining - 1]);
        }
        remaining = remaining - 1;
        if bytes_equal(environment[remaining].0.as_slice(), wanted) {
            return Some(remaining);
        }
    }
    None
}

/// Where the agent keeps its state, as far as the environment says.
pub fn codex_home_path(environment: &Vec<(Vec<u8>, Vec<u8>)>) -> (path: Option<Vec<u8>>)
    ensures
        match home_path(environment@) {
            Some(expected) => path matches Some(bytes) && bytes@ == expected,
            None => path is None,
        },
{
    match find_variable(environment, "CODEX_HOME") {
        Some(position) => Some(copy_bytes(environment[position].1.as_slice())),
        None => match find_variable(environment, "HOME") {
            Some(position) => Some(
                join_path(environment[position].1.as_slice(), ".codex".as_bytes()),
            ),
            None => None,
        },
    }
}

/// Where the agent keeps its state. The path must be absolute and be text.
pub fn codex_home_from_environment(environment: &Vec<(Vec<u8>, Vec<u8>)>) -> (outcome: Result<
    String,
    AgentFailureCause,
>)
    ensures
        match home_path(environment@) {
            Some(path) => if absolute(path) && valid_utf8(path) {
                outcome matches Ok(text) && text@ == decode_utf8(path)
            } else {
                outcome matches Err(cause) && cause == failed_launch()
            },
            None => outcome matches Err(cause) && cause == failed_launch(),
        },
{
    let path: Vec<u8> = match codex_home_path(environment) {
        Some(path) => path,
        None => {
            return Err(launch_failure());
        },
    };
    if !is_absolute(path.as_slice()) {
        return Err(launch_failure());
    }
    match utf8_text(path.as_slice()) {
        Some(text) => {
            proof {
                encode_utf8_decode_utf8(text@);
            }
            Ok(text.to_owned())
        },
        None => Err(launch_failure()),
    }
}

/// Whether state may be staged in a directory: one that is named by its canonical
/// absolute path and does not lie within the agent's own home.
pub fn staging_allowed(staging: &[u8], canonical_staging: &[u8], canonical_home: &[u8]) -> (allowed:
    bool)
    ensures
        allowed == (same_absolute_path(canonical_staging@, staging@) && !lies_within(
            canonical_staging@,
            canonical_home@,
        )),
{
    are_same_absolute_path(canonical_staging, staging) && !is_within(
        canonical_staging,
        canonical_home,
    )
}

/// How the app server is called, given its quoted working directory and state
/// directory: it trusts the one project, keeps its state apart and speaks over
/// its standard streams.
pub open spec fn argument_texts(quoted_cwd: Seq<char>, quoted_sqlite_home: Seq<char>) -> Seq<
    Seq<char>,
> {
    seq![
        "--dangerously-bypass-hook-trust"@,
        "-c"@,
        "projects={"@ + quoted_cwd + "={trust_level=\"trusted\"}}"@,
        "-c"@,
        "sqlite_home="@ + quoted_sqlite_home,
        "app-server"@,
        "--strict-config"@,
        "--listen"@,
        "stdio://"@,
    ]
}

/// How the app server is called, given its quoted directories.
pub fn assemble_arguments(quoted_cwd: &str, quoted_sqlite_home: &str) -> (arguments: Vec<String>)
    ensures
        texts(arguments@) == argument_texts(quoted_cwd@, quoted_sqlite_home@),
{
    let mut trust: String = "projects={".to_owned();
    push_text(&mut trust, quoted_cwd);
    push_text(&mut trust, "={trust_level=\"trusted\"}}");
    let mut state: String = "sqlite_home=".to_owned();
    push_text(&mut state, quoted_sqlite_home);
    let mut arguments: Vec<String> = Vec::new();
    arguments.push("--dangerously-bypass-hook-trust".to_owned());
    arguments.push("-c".to_owned());
    arguments.push(trust);
    arguments.push("-c".to_owned());
    arguments.push(state);
    arguments.push("app-server".to_owned());
    arguments.push("--strict-config".to_owned());
    arguments.push("--listen".to_owned());
    arguments.push("stdio://".to_owned());
    assert(texts(arguments@) =~= argument_texts(quoted_cwd@, quoted_sqlite_home@));
    arguments
}

/// How the app server is called.
pub fn launch_arguments(cwd: &str, sqlite_home: &str) -> (arguments: Vec<String>)
    ensures
        texts(arguments@) == argument_texts(json_quoted(cwd@), json_quoted(sqlite_home@)),
{
    let quoted_cwd: String = quote_json(cwd);
    let quoted_sqlite_home: String = quote_json(sqlite_home);
    assemble_arguments(quoted_cwd.as_str(), quoted_sqlite_home.as_str())
}

/// What the first turn is made of: the message, the staged attachments and where
/// they must be, and how many of them and how large they may be.
pub struct TurnMaterial<'a> {
    pub message: &'a str,
    pub attachments: &'a Vec<StagedAttachment>,
    pub attachment_root: &'a [u8],
    pub maximum_attachments: usize,
    pub maximum_attachment_bytes: u64,
}

impl<'a> TurnMaterial<'a> {
    /// Whether the attachments can be given to the agent.
    pub open spec fn admissible(&self) -> bool {
        turn_admitted(
            self.attachments@,
            self.attachment_root@,
            self.maximum_attachments as int,
            self.maximum_attachment_bytes as int,
        )
    }

    /// Whether these items are the first turn.
    pub open spec fn makes(&self, items: Seq<JsonValue>) -> bool {
        &&& items.len() == self.attachments@.len() + 1
        &&& text_item(items[0], self.message@)
        &&& forall|i: int|
            0 <= i < self.attachments@.len() ==> item_has_form(
                items[i + 1],
                (#[trigger] admitted_form(
                    self.attachments@,
                    i,
                    self.attachment_root@,
                    self.maximum_attachment_bytes as int,
                ))->Some_0,
            )
    }
}

/// What an app server is launched with.
#[derive(Debug, PartialEq, Eq)]
pub struct CodexAppServerV1LaunchPlan {
    arguments: Vec<String>,
    expected_cwd: String,
    codex_home: String,
    sqlite_home: String,
    initial_input: Vec<JsonValue>,
}

/// What an app server is launched with, in terms of texts.
pub struct LaunchModel {
    pub arguments: Seq<Seq<char>>,
    pub expected_cwd: Seq<char>,
    pub codex_home: Seq<char>,
    pub sqlite_home: Seq<char>,
    pub initial_input: Seq<JsonValue>,
}

impl View for CodexAppServerV1LaunchPlan {
    type V = LaunchModel;

    closed spec fn view(&self) -> LaunchModel {
        LaunchModel {
            arguments: texts(self.arguments@),
            expected_cwd: self.expected_cwd@,
            codex_home: self.codex_home@,
            sqlite_home: self.sqlite_home@,
            initial_input: self.initial_input@,
        }
    }
}

impl CodexAppServerV1LaunchPlan {
    /// The arguments of the app server.
    pub fn arguments(&self) -> (arguments: &Vec<String>)
        ensures
            texts(arguments@) == self@.arguments,
    {
        &self.arguments
    }

    /// The working directory that the app server must report.
    pub fn expected_cwd(&self) -> (cwd: &str)
        ensures
            cwd@ == self@.expected_cwd,
    {
        self.expected_cwd.as_str()
    }

    /// Where the agent keeps its state.
    pub fn codex_home(&self) -> (home: &str)
        ensures
            home@ == self@.codex_home,
    {
        self.codex_home.as_str()
    }

    /// Where the agent keeps its databases.
    pub fn sqlite_home(&self) -> (home: &str)
        ensures
            home@ == self@.sqlite_home,
    {
        self.sqlite_home.as_str()
    }

    /// The first turn.
    pub fn initial_input(&self) -> (items: &Vec<JsonValue>)
        ensures
            items@ == self@.initial_input,
    {
        &self.initial_input
    }
}

/// Puts a launch together from what was found out before: the working directory
/// and the state directory, where they could be found and are text, and what the
/// first turn is made of.
pub fn prepare_launch(
    facts: LaunchFacts,
    expected_cwd: Option<&str>,
    environment: &Vec<(Vec<u8>, Vec<u8>)>,
    sqlite_home: Option<&str>,
    material: &TurnMaterial<'_>,
) -> (outcome: Result<CodexAppServerV1LaunchPlan, AgentFailureCause>)
    ensures
        match (launch_refusal(facts), expected_cwd, home_path(environment@), sqlite_home) {
            (Some(cause), _, _, _) => outcome == Err::<
                CodexAppServerV1LaunchPlan,
                AgentFailureCause,
            >(cause),
            (None, Some(cwd), Some(home), Some(sqlite)) => if absolute(home) && valid_utf8(home)
                && material.admissible() {
                outcome matches Ok(plan) && plan@.arguments == argument_texts(
                    json_quoted(cwd@),
                    json_quoted(sqlite@),
                ) && plan@.expected_cwd == cwd@ && plan@.codex_home == decode_utf8(home)
                    && plan@.sqlite_home == sqlite@ && material.makes(plan@.initial_input)
            } else {
                outcome == Err::<CodexAppServerV1LaunchPlan, AgentFailureCause>(failed_launch())
            },
            _ => outcome == Err::<CodexAppServerV1LaunchPlan, AgentFailureCause>(failed_launch()),
        },
{
    admit_launch(facts)?;
    let cwd: &str = match expected_cwd {
        Some(cwd) => cwd,
        None => {
            return Err(launch_failure());
        },
    };
    let codex_home: String = codex_home_from_environment(environment)?;
    let sqlite: &str = match sqlite_home {
        Some(sqlite) => sqlite,
        None => {
            return Err(launch_failure());
        },
    };
    let arguments: Vec<String> = launch_arguments(cwd, sqlite);
    let initial_input: Vec<JsonValue> = initial_turn_input(
        material.message,
        material.attachments,
        material.attachment_root,
        material.maximum_attachments,
        material.maximum_attachment_bytes,
    )?;
    Ok(
        CodexAppServerV1LaunchPlan {
            arguments,
            expected_cwd: cwd.to_owned(),
            codex_home,
            sqlite_home: sqlite.to_owned(),
            initial_input,
        },
    )
}

} // verus!
