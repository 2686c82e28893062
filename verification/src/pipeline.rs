//! The dry-run / confirm / submit workflow as a state machine.
//!
//! The pipeline decides; the caller performs. Each step consumes the event
//! produced by the previous action — the dry-run's result, the operator's
//! confirmation line, the submission's outcome — and returns the next stage
//! together with the one action to perform. A failed dry-run halts the
//! pipeline before any submission: real funds are never risked confirming a
//! doomed transaction.

use vstd::prelude::*;

use crate::confirm::{spec_input_declines, spec_input_proceeds, spec_trim, parse_confirmation};
use crate::error::{ErrorVariant, ModuleErrorData};
use crate::report::ExecutionResult;

verus! {

/// The flags of one transaction attempt that steer the workflow. `dry_run`
/// means "never actually submit"; `skip_dry_run` means "submit without
/// simulating first"; they are not mutually exclusive.
#[derive(Clone, Copy, Debug, PartialEq, Eq, Structural)]
pub struct WorkflowOptions {
    /// Simulate only; the extrinsic is never submitted.
    pub dry_run: bool,
    /// Submit without simulating first.
    pub skip_dry_run: bool,
    /// Submit without asking the operator for confirmation.
    pub skip_confirm: bool,
}

/// The events of a successfully included extrinsic, as opaque encoded
/// records; created only once the submitter has confirmed block inclusion.
#[derive(Clone, Debug, PartialEq, Eq)]
pub struct SubmissionOutcome {
    /// The encoded on-chain events the extrinsic emitted.
    pub events: Vec<Vec<u8>>,
}

/// Where the workflow stands between actions.
#[derive(Clone, Debug, PartialEq, Eq)]
pub enum PipelineStage {
    /// A dry-run was requested and its result is awaited.
    AwaitingDryRun,
    /// The operator's confirmation line is awaited.
    AwaitingConfirmation,
    /// The signed extrinsic's on-chain outcome is awaited.
    AwaitingSubmission,
    /// The workflow finished successfully.
    Complete,
    /// The workflow halted with a terminal error.
    Failed(ErrorVariant),
}

/// What the caller feeds back into the workflow.
#[derive(Clone, Debug, PartialEq, Eq)]
pub enum PipelineEvent {
    /// The simulation finished with this result.
    DryRunCompleted(ExecutionResult),
    /// The operator answered the confirmation prompt with this line.
    ConfirmationEntered(String),
    /// The extrinsic was included in a block without a module error.
    SubmissionIncluded(SubmissionOutcome),
    /// The extrinsic failed inside its block with a module error.
    SubmissionFailed(ModuleErrorData),
    /// The connection dropped before inclusion; carries the transport's text.
    SubmissionTransportError(String),
    /// The node never reported inclusion.
    SubmissionTimedOut,
}

/// What the caller must do next.
#[derive(Clone, Copy, Debug, PartialEq, Eq, Structural)]
pub enum PipelineAction {
    /// Simulate the call against current chain state.
    RunDryRun,
    /// Show the transaction summary and read one confirmation line.
    PromptConfirmation,
    /// Sign and submit the real extrinsic, then wait for inclusion.
    Submit,
    /// The workflow is complete; report and exit zero.
    Finish,
    /// The workflow failed; report the error and exit non-zero.
    Abort,
}

/// The event a stage awaits: each step consumes exactly the feedback of the
/// action the stage announced.
pub open spec fn spec_stage_expects(stage: PipelineStage, event: PipelineEvent) -> bool {
    match stage {
        PipelineStage::AwaitingDryRun => event matches PipelineEvent::DryRunCompleted(_),
        PipelineStage::AwaitingConfirmation => event matches PipelineEvent::ConfirmationEntered(_),
        PipelineStage::AwaitingSubmission => !(event matches PipelineEvent::DryRunCompleted(_))
            && !(event matches PipelineEvent::ConfirmationEntered(_)),
        _ => false,
    }
}

/// Opens the workflow for one transaction attempt: a dry-run comes first
/// unless it is skipped outright, and a forced `dry_run` always simulates.
pub fn start(opts: &WorkflowOptions) -> (r: (PipelineStage, PipelineAction))
    ensures
        opts.dry_run || !opts.skip_dry_run ==> r == (
            PipelineStage::AwaitingDryRun,
            PipelineAction::RunDryRun,
        ),
        !opts.dry_run && opts.skip_dry_run && !opts.skip_confirm ==> r == (
            PipelineStage::AwaitingConfirmation,
            PipelineAction::PromptConfirmation,
        ),
        !opts.dry_run && opts.skip_dry_run && opts.skip_confirm ==> r == (
            PipelineStage::AwaitingSubmission,
            PipelineAction::Submit,
        ),
{
    if opts.dry_run || !opts.skip_dry_run {
        (PipelineStage::AwaitingDryRun, PipelineAction::RunDryRun)
    } else if !opts.skip_confirm {
        (PipelineStage::AwaitingConfirmation, PipelineAction::PromptConfirmation)
    } else {
        (PipelineStage::AwaitingSubmission, PipelineAction::Submit)
    }
}

/// Advances the workflow by one event.
///
/// A dry-run that reverted halts the pipeline with `SimulationFailure`: the
/// returned action is `Abort`, never `Submit`, so submission is never
/// attempted after a failed simulation. A declined confirmation halts with
/// `Declined`; any other unrecognized answer halts with `InvalidInput`
/// naming the text. A clean dry-run proceeds to confirmation — or straight
/// to submission when confirmation is skipped, or to completion when the
/// attempt was simulation-only.
pub fn step(opts: &WorkflowOptions, stage: PipelineStage, event: PipelineEvent) -> (r: (
    PipelineStage,
    PipelineAction,
))
    requires
        spec_stage_expects(stage, event),
    ensures
        (match event {
            PipelineEvent::DryRunCompleted(res) => {
                match res.error {
                    Some(m) => r == (
                        PipelineStage::Failed(ErrorVariant::SimulationFailure(m)),
                        PipelineAction::Abort,
                    ),
                    None => {
                        if opts.dry_run {
                            r == (PipelineStage::Complete, PipelineAction::Finish)
                        } else if !opts.skip_confirm {
                            r == (
                                PipelineStage::AwaitingConfirmation,
                                PipelineAction::PromptConfirmation,
                            )
                        } else {
                            r == (PipelineStage::AwaitingSubmission, PipelineAction::Submit)
                        }
                    },
                }
            },
            PipelineEvent::ConfirmationEntered(line) => {
                if spec_input_proceeds(line@) {
                    r == (PipelineStage::AwaitingSubmission, PipelineAction::Submit)
                } else if spec_input_declines(line@) {
                    r == (
                        PipelineStage::Failed(ErrorVariant::Declined),
                        PipelineAction::Abort,
                    )
                } else {
                    r.1 == PipelineAction::Abort && (match r.0 {
                        PipelineStage::Failed(ErrorVariant::InvalidInput(t)) => t@ == spec_trim(
                            line@,
                        ),
                        _ => false,
                    })
                }
            },
            PipelineEvent::SubmissionIncluded(_) => r == (
                PipelineStage::Complete,
                PipelineAction::Finish,
            ),
            PipelineEvent::SubmissionFailed(m) => r == (
                PipelineStage::Failed(ErrorVariant::ModuleError(m)),
                PipelineAction::Abort,
            ),
            PipelineEvent::SubmissionTransportError(t) => r == (
                PipelineStage::Failed(ErrorVariant::TransportError(t)),
                PipelineAction::Abort,
            ),
            PipelineEvent::SubmissionTimedOut => r == (
                PipelineStage::Failed(ErrorVariant::Timeout),
                PipelineAction::Abort,
            ),
        }),
        (match event {
            PipelineEvent::DryRunCompleted(res) => res.error is Some ==> r.1
                != PipelineAction::Submit && r.0 is Failed,
            _ => true,
        }),
{
    match event {
        PipelineEvent::DryRunCompleted(res) => {
            match res.error {
                Some(m) => (
                    PipelineStage::Failed(ErrorVariant::SimulationFailure(m)),
                    PipelineAction::Abort,
                ),
                None => {
                    if opts.dry_run {
                        (PipelineStage::Complete, PipelineAction::Finish)
                    } else if !opts.skip_confirm {
                        (PipelineStage::AwaitingConfirmation, PipelineAction::PromptConfirmation)
                    } else {
                        (PipelineStage::AwaitingSubmission, PipelineAction::Submit)
                    }
                },
            }
        },
        PipelineEvent::ConfirmationEntered(line) => {
            match parse_confirmation(line.as_str()) {
                Ok(()) => (PipelineStage::AwaitingSubmission, PipelineAction::Submit),
                Err(e) => (PipelineStage::Failed(e), PipelineAction::Abort),
            }
        },
        PipelineEvent::SubmissionIncluded(_) => (PipelineStage::Complete, PipelineAction::Finish),
        PipelineEvent::SubmissionFailed(m) => (
            PipelineStage::Failed(ErrorVariant::ModuleError(m)),
            PipelineAction::Abort,
        ),
        PipelineEvent::SubmissionTransportError(t) => (
            PipelineStage::Failed(ErrorVariant::TransportError(t)),
            PipelineAction::Abort,
        ),
        PipelineEvent::SubmissionTimedOut => (
            PipelineStage::Failed(ErrorVariant::Timeout),
            PipelineAction::Abort,
        ),
    }
}

} // verus!
