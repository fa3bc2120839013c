//! The thread that owns the device stream, as a state machine.
//!
//! The machine decides; whoever runs it performs each [`WorkerAction`] and reports
//! the outcome as a [`WorkerEvent`]. It opens the selected device step by step, keeps
//! the stream until another device is wanted or the stream has to be opened again,
//! and retries after a failure.

use crate::output::{
    copy_name, name_view, AudioCmd, AudioOutput, AudioOutputStatus, OutputState,
};
use vstd::prelude::*;
use vstd::string::StringExecFns;

verus! {

/// How often a running stream's worker looks for a reopen request: 100 ms.
pub const REOPEN_POLL: u64 = 100_000_000;

/// How long to wait before a failed open is tried again: 400 ms.
pub const FAILED_OPEN_RETRY: u64 = 400_000_000;

/// What waiting for a command ended with.
#[derive(Debug, PartialEq, Eq)]
pub enum WaitEvent {
    /// A command came.
    Command(AudioCmd),
    /// Nobody can send commands any more.
    Disconnected,
    /// No command came in time.
    TimedOut,
}

/// What to do after waiting.
#[derive(Debug, PartialEq, Eq)]
pub enum WaitOutcome {
    /// Open this device (`None` = system default).
    Select(Option<String>),
    /// End.
    Stop,
    /// Wait on.
    KeepWaiting,
}

/// What a wait with this end leads to.
pub open spec fn wait_outcome(
    event: WaitEvent,
    selected: Option<String>,
    retry_on_timeout: bool,
    needs_reopen: bool,
) -> WaitOutcome {
    match event {
        WaitEvent::Command(AudioCmd::SetDevice(name)) => WaitOutcome::Select(name),
        WaitEvent::Command(AudioCmd::Shutdown) => WaitOutcome::Stop,
        WaitEvent::Disconnected => WaitOutcome::Stop,
        WaitEvent::TimedOut => if retry_on_timeout || needs_reopen {
            WaitOutcome::Select(selected)
        } else {
            WaitOutcome::KeepWaiting
        },
    }
}

/// The output after a wait: a timeout takes up a pending reopen request, unless it is
/// itself the reason to open again.
pub open spec fn after_wait(
    state: OutputState,
    event: WaitEvent,
    retry_on_timeout: bool,
) -> OutputState {
    if event is TimedOut && !retry_on_timeout {
        OutputState { needs_reopen: false, ..state }
    } else {
        state
    }
}

/// Decide what follows a wait for a device command.
pub fn wait_device_cmd(
    output: &mut AudioOutput,
    selected: &Option<String>,
    retry_on_timeout: bool,
    event: WaitEvent,
) -> (outcome: WaitOutcome)
    requires
        old(output).wf(),
    ensures
        final(output).wf(),
        final(output)@ == after_wait(old(output)@, event, retry_on_timeout),
        outcome == wait_outcome(event, *selected, retry_on_timeout, old(output)@.needs_reopen),
{
    match event {
        WaitEvent::Command(AudioCmd::SetDevice(name)) => WaitOutcome::Select(name),
        WaitEvent::Command(AudioCmd::Shutdown) => WaitOutcome::Stop,
        WaitEvent::Disconnected => WaitOutcome::Stop,
        WaitEvent::TimedOut => {
            if retry_on_timeout {
                return WaitOutcome::Select(copy_name(selected));
            }
            if output.take_reopen_request() {
                WaitOutcome::Select(copy_name(selected))
            } else {
                WaitOutcome::KeepWaiting
            }
        },
    }
}

/// A sample format that a device may ask for.
#[derive(Debug, PartialEq, Eq)]
pub enum DeviceFormat {
    /// Single-precision floating point.
    F32,
    /// Signed 16-bit integers.
    I16,
    /// Unsigned 16-bit integers.
    U16,
    /// Any other, by name.
    Other(String),
}

/// A sample format that streams are built for.
#[derive(Clone, Copy, Debug, PartialEq, Eq, Structural)]
pub enum StreamFormat {
    /// Single-precision floating point.
    F32,
    /// Signed 16-bit integers.
    I16,
    /// Unsigned 16-bit integers.
    U16,
}

/// The error for a format that streams are not built for.
pub open spec fn unsupported_format_error(name: Seq<char>) -> Seq<char> {
    "unsupported sample format: "@ + name
}

/// Decide which kind of stream serves a device's sample format.
pub fn build_stream_for_format(format: &DeviceFormat) -> (stream: Result<StreamFormat, String>)
    ensures
        match format {
            DeviceFormat::F32 => stream == Ok::<StreamFormat, String>(StreamFormat::F32),
            DeviceFormat::I16 => stream == Ok::<StreamFormat, String>(StreamFormat::I16),
            DeviceFormat::U16 => stream == Ok::<StreamFormat, String>(StreamFormat::U16),
            DeviceFormat::Other(name) => stream matches Err(error) && error@
                == unsupported_format_error(name@),
        },
{
    match format {
        DeviceFormat::F32 => Ok(StreamFormat::F32),
        DeviceFormat::I16 => Ok(StreamFormat::I16),
        DeviceFormat::U16 => Ok(StreamFormat::U16),
        DeviceFormat::Other(name) => Err(
            "unsupported sample format: ".to_owned().concat(name.as_str()),
        ),
    }
}

/// Where the worker stands.
#[derive(Clone, Copy, Debug, PartialEq, Eq, Structural)]
pub enum Phase {
    /// Looking for the selected device.
    Resolving,
    /// Asking the device for its stream configuration.
    Configuring,
    /// Building the stream.
    Building,
    /// Starting the stream.
    Starting,
    /// The stream runs.
    Running,
    /// The last open failed; waiting to try again.
    Retrying,
    /// Closing a stream that did not start.
    ClosingFailed,
    /// Closing the stream to open one again.
    ClosingToReopen,
    /// Closing the stream to end.
    ClosingToStop,
    /// Ended.
    Stopped,
}

/// What the worker has to do next.
#[derive(Clone, Copy, Debug, PartialEq, Eq, Structural)]
pub enum WorkerAction {
    /// Find the selected device.
    ResolveDevice,
    /// Read the device's default configuration.
    ReadConfig,
    /// Build a stream.
    BuildStream,
    /// Start the stream.
    StartStream,
    /// Wait this many nanoseconds for a command.
    Wait(u64),
    /// Drop the stream.
    CloseStream,
    /// End the thread.
    Finish,
}

/// What the last action led to.
#[derive(Debug, PartialEq, Eq)]
pub enum WorkerEvent {
    /// A device was found.
    DeviceFound,
    /// The device has this shape.
    ConfigRead {
        /// Device channels.
        channels: u16,
        /// Device frames per second.
        rate: u32,
    },
    /// The stream is built.
    StreamBuilt,
    /// The stream runs.
    StreamStarted,
    /// The step failed.
    Failed,
    /// The stream is gone.
    StreamClosed,
    /// Waiting ended.
    Waited(WaitEvent),
}

impl Phase {
    /// The action that belongs to a phase.
    pub open spec fn action(self) -> WorkerAction {
        match self {
            Phase::Resolving => WorkerAction::ResolveDevice,
            Phase::Configuring => WorkerAction::ReadConfig,
            Phase::Building => WorkerAction::BuildStream,
            Phase::Starting => WorkerAction::StartStream,
            Phase::Running => WorkerAction::Wait(REOPEN_POLL),
            Phase::Retrying => WorkerAction::Wait(FAILED_OPEN_RETRY),
            Phase::ClosingFailed => WorkerAction::CloseStream,
            Phase::ClosingToReopen => WorkerAction::CloseStream,
            Phase::ClosingToStop => WorkerAction::CloseStream,
            Phase::Stopped => WorkerAction::Finish,
        }
    }

    /// The events that can answer the action of a phase.
    pub open spec fn accepts(self, event: WorkerEvent) -> bool {
        match self {
            Phase::Resolving => event is DeviceFound || event is Failed,
            Phase::Configuring => event is ConfigRead || event is Failed,
            Phase::Building => event is StreamBuilt || event is Failed,
            Phase::Starting => event is StreamStarted || event is Failed,
            Phase::Running => event is Waited,
            Phase::Retrying => event is Waited,
            Phase::ClosingFailed => event is StreamClosed,
            Phase::ClosingToReopen => event is StreamClosed,
            Phase::ClosingToStop => event is StreamClosed,
            Phase::Stopped => false,
        }
    }
}

/// What an [`OutputWorker`] stands for.
pub struct WorkerState {
    /// Where it stands.
    pub phase: Phase,
    /// The device it opens (`None` = system default).
    pub selected: Option<String>,
}

impl WorkerState {
    /// What a wait that ended with `event` leads to.
    pub open spec fn waited(self, event: WaitEvent, output: OutputState) -> WaitOutcome {
        wait_outcome(event, self.selected, self.phase is Retrying, output.needs_reopen)
    }

    /// The worker after an event.
    pub open spec fn next(self, event: WorkerEvent, output: OutputState) -> WorkerState {
        match (self.phase, event) {
            (Phase::Resolving, WorkerEvent::DeviceFound) => WorkerState {
                phase: Phase::Configuring,
                ..self
            },
            (Phase::Configuring, WorkerEvent::ConfigRead { channels, rate }) => WorkerState {
                phase: Phase::Building,
                ..self
            },
            (Phase::Building, WorkerEvent::StreamBuilt) => WorkerState {
                phase: Phase::Starting,
                ..self
            },
            (Phase::Starting, WorkerEvent::StreamStarted) => WorkerState {
                phase: Phase::Running,
                ..self
            },
            (Phase::Starting, _) => WorkerState { phase: Phase::ClosingFailed, ..self },
            (Phase::Running, WorkerEvent::Waited(wait)) => match self.waited(wait, output) {
                WaitOutcome::Select(name) => WorkerState {
                    phase: Phase::ClosingToReopen,
                    selected: name,
                },
                WaitOutcome::Stop => WorkerState { phase: Phase::ClosingToStop, ..self },
                WaitOutcome::KeepWaiting => self,
            },
            (Phase::Retrying, WorkerEvent::Waited(wait)) => match self.waited(wait, output) {
                WaitOutcome::Select(name) => WorkerState {
                    phase: Phase::Resolving,
                    selected: name,
                },
                WaitOutcome::Stop => WorkerState { phase: Phase::Stopped, ..self },
                WaitOutcome::KeepWaiting => self,
            },
            (Phase::ClosingToReopen, _) => WorkerState { phase: Phase::Resolving, ..self },
            (Phase::ClosingToStop, _) => WorkerState { phase: Phase::Stopped, ..self },
            (_, _) => WorkerState { phase: Phase::Retrying, ..self },
        }
    }

    /// The output after an event.
    pub open spec fn effect(self, event: WorkerEvent, output: OutputState) -> OutputState {
        match (self.phase, event) {
            (Phase::Configuring, WorkerEvent::ConfigRead { channels, rate }) => {
                output.configured(channels, rate)
            },
            (Phase::Starting, WorkerEvent::StreamStarted) => {
                output.with_status(AudioOutputStatus::Ready)
            },
            (Phase::Starting, _) => output,
            (_, WorkerEvent::Failed) => output.with_status(AudioOutputStatus::Unavailable),
            (Phase::ClosingToReopen, WorkerEvent::StreamClosed) => (OutputState {
                device: name_view(self.selected),
                ..output
            }).opening(),
            (_, WorkerEvent::StreamClosed) => output.with_status(AudioOutputStatus::Unavailable),
            (Phase::Retrying, WorkerEvent::Waited(wait)) => match self.waited(wait, output) {
                WaitOutcome::Select(name) => (OutputState {
                    device: name_view(name),
                    ..output
                }).opening(),
                _ => output,
            },
            (_, WorkerEvent::Waited(wait)) => after_wait(output, wait, false),
            (_, _) => output,
        }
    }
}

/// Opens devices for an [`AudioOutput`].
pub struct OutputWorker {
    phase: Phase,
    selected: Option<String>,
}

impl View for OutputWorker {
    type V = WorkerState;

    closed spec fn view(&self) -> WorkerState {
        WorkerState { phase: self.phase, selected: self.selected }
    }
}

impl OutputWorker {
    /// Start on the device that is selected in `output`.
    pub fn start(output: &mut AudioOutput) -> (worker: Self)
        requires
            old(output).wf(),
        ensures
            final(output).wf(),
            final(output)@ == old(output)@.opening(),
            worker@.phase == Phase::Resolving,
            name_view(worker@.selected) == old(output)@.device,
    {
        let selected: Option<String> = output.selected_device_name();
        output.begin_opening();
        OutputWorker { phase: Phase::Resolving, selected }
    }

    /// What has to be done next.
    pub fn action(&self) -> (action: WorkerAction)
        ensures
            action == self@.phase.action(),
    {
        match self.phase {
            Phase::Resolving => WorkerAction::ResolveDevice,
            Phase::Configuring => WorkerAction::ReadConfig,
            Phase::Building => WorkerAction::BuildStream,
            Phase::Starting => WorkerAction::StartStream,
            Phase::Running => WorkerAction::Wait(REOPEN_POLL),
            Phase::Retrying => WorkerAction::Wait(FAILED_OPEN_RETRY),
            Phase::ClosingFailed => WorkerAction::CloseStream,
            Phase::ClosingToReopen => WorkerAction::CloseStream,
            Phase::ClosingToStop => WorkerAction::CloseStream,
            Phase::Stopped => WorkerAction::Finish,
        }
    }

    /// The device to find (`None` = system default).
    pub fn selected(&self) -> (name: Option<String>)
        ensures
            name == self@.selected,
    {
        copy_name(&self.selected)
    }

    /// Take the device that was asked for and start over.
    fn reopen(&mut self, output: &mut AudioOutput)
        requires
            old(output).wf(),
        ensures
            final(output).wf(),
            final(output)@ == (OutputState {
                device: name_view(old(self)@.selected),
                ..old(output)@
            }).opening(),
            final(self)@ == (WorkerState { phase: Phase::Resolving, ..old(self)@ }),
    {
        output.note_device(copy_name(&self.selected));
        output.begin_opening();
        self.phase = Phase::Resolving;
    }

    /// Mark the output unusable and wait to try again.
    fn fail(&mut self, output: &mut AudioOutput)
        requires
            old(output).wf(),
        ensures
            final(output).wf(),
            final(output)@ == old(output)@.with_status(AudioOutputStatus::Unavailable),
            final(self)@ == (WorkerState { phase: Phase::Retrying, ..old(self)@ }),
    {
        output.apply_status(AudioOutputStatus::Unavailable);
        self.phase = Phase::Retrying;
    }

    /// Take up the outcome of the last action.
    pub fn step(&mut self, output: &mut AudioOutput, event: WorkerEvent)
        requires
            old(output).wf(),
            old(self)@.phase.accepts(event),
        ensures
            final(output).wf(),
            final(self)@ == old(self)@.next(event, old(output)@),
            final(output)@ == old(self)@.effect(event, old(output)@),
    {
        match event {
            WorkerEvent::DeviceFound => {
                self.phase = Phase::Configuring;
            },
            WorkerEvent::ConfigRead { channels, rate } => {
                output.configure(channels, rate);
                self.phase = Phase::Building;
            },
            WorkerEvent::StreamBuilt => {
                self.phase = Phase::Starting;
            },
            WorkerEvent::StreamStarted => {
                output.apply_status(AudioOutputStatus::Ready);
                self.phase = Phase::Running;
            },
            WorkerEvent::Failed => {
                if self.phase == Phase::Starting {
                    self.phase = Phase::ClosingFailed;
                } else {
                    self.fail(output);
                }
            },
            WorkerEvent::StreamClosed => {
                if self.phase == Phase::ClosingToReopen {
                    self.reopen(output);
                } else if self.phase == Phase::ClosingToStop {
                    output.apply_status(AudioOutputStatus::Unavailable);
                    self.phase = Phase::Stopped;
                } else {
                    self.fail(output);
                }
            },
            WorkerEvent::Waited(wait) => {
                let running: bool = self.phase == Phase::Running;
                match wait_device_cmd(output, &self.selected, !running, wait) {
                    WaitOutcome::Select(name) => {
                        self.selected = name;
                        if running {
                            self.phase = Phase::ClosingToReopen;
                        } else {
                            self.reopen(output);
                        }
                    },
                    WaitOutcome::Stop => {
                        self.phase = if running {
                            Phase::ClosingToStop
                        } else {
                            Phase::Stopped
                        };
                    },
                    WaitOutcome::KeepWaiting => {},
                }
            },
        }
    }
}

/// A command to open a device is obeyed from a running stream as from a failed one: once
/// a running stream is closed, the worker looks for the device that was named, and for no
/// other, and the output shows it as selected and being opened. Nothing else changes.
pub proof fn device_command_opens_the_named_device(
    worker: WorkerState,
    output: OutputState,
    name: Option<String>,
)
    requires
        worker.phase is Running || worker.phase is Retrying,
    ensures
        ({
            let command = WorkerEvent::Waited(WaitEvent::Command(AudioCmd::SetDevice(name)));
            let told = worker.next(command, output);
            let heard = worker.effect(command, output);
            let last = if worker.phase is Running {
                told.next(WorkerEvent::StreamClosed, heard)
            } else {
                told
            };
            let after = if worker.phase is Running {
                told.effect(WorkerEvent::StreamClosed, heard)
            } else {
                heard
            };
            &&& worker.phase is Running ==> told.phase.action() is CloseStream && heard == output
            &&& last.phase is Resolving
            &&& last.selected == name
            &&& name matches Some(text) ==> after.device == Some(text@)
            &&& name is None ==> after.device is None
            &&& after.status is Opening
            &&& after.queued_at is None
            &&& !after.needs_reopen
            &&& after == (OutputState {
                device: after.device,
                status: after.status,
                queued_at: None,
                needs_reopen: false,
                ..output
            })
        }),
{
}

/// A device that works is opened step by step, each step asking for the next: found, read,
/// built and started. Its stream starts empty on a device of the shape that was read, and
/// the output is ready only when the stream runs. The selection stays.
pub proof fn working_device_is_opened_step_by_step(
    worker: WorkerState,
    output: OutputState,
    channels: u16,
    rate: u32,
)
    requires
        worker.phase is Resolving,
    ensures
        ({
            let config = WorkerEvent::ConfigRead { channels, rate };
            let found = worker.next(WorkerEvent::DeviceFound, output);
            let read = found.next(config, output);
            let configured = found.effect(config, output);
            let built = read.next(WorkerEvent::StreamBuilt, configured);
            let started = built.next(WorkerEvent::StreamStarted, configured);
            let after = built.effect(WorkerEvent::StreamStarted, configured);
            &&& worker.phase.action() is ResolveDevice
            &&& found.phase.action() is ReadConfig
            &&& read.phase.action() is BuildStream
            &&& built.phase.action() is StartStream
            &&& started.phase is Running
            &&& started.selected == worker.selected
            &&& worker.effect(WorkerEvent::DeviceFound, output) == output
            &&& read.effect(WorkerEvent::StreamBuilt, configured) == configured
            &&& configured.status == output.status
            &&& after.status is Ready
            &&& after.geometry.channels == channels
            &&& after.geometry.rate == rate
            &&& after.ring.len() == 0
            &&& after.timeline.len() == 0
            &&& after.playhead is None
            &&& after.played_at is None
            &&& after.called_at is None
            &&& after.queued_at is None
            &&& after == (OutputState {
                status: after.status,
                geometry: after.geometry,
                ring: after.ring,
                timeline: after.timeline,
                playhead: after.playhead,
                played_at: after.played_at,
                called_at: after.called_at,
                queued_at: after.queued_at,
                ..output
            })
        }),
{
}

/// Whatever step of opening fails, the worker comes to wait for another try at the same
/// device, after closing the stream if there is one; the output is unusable meanwhile, and
/// all else about it stays.
pub proof fn failed_step_leaves_the_output_unusable(worker: WorkerState, output: OutputState)
    requires
        worker.phase is Resolving || worker.phase is Configuring || worker.phase is Building
            || worker.phase is Starting,
    ensures
        ({
            let failed = worker.next(WorkerEvent::Failed, output);
            let heard = worker.effect(WorkerEvent::Failed, output);
            let last = if worker.phase is Starting {
                failed.next(WorkerEvent::StreamClosed, heard)
            } else {
                failed
            };
            let after = if worker.phase is Starting {
                failed.effect(WorkerEvent::StreamClosed, heard)
            } else {
                heard
            };
            &&& worker.phase is Starting ==> failed.phase.action() is CloseStream
            &&& last.phase is Retrying
            &&& last.selected == worker.selected
            &&& after.status is Unavailable
            &&& after.queued_at is None
            &&& after == (OutputState { status: after.status, queued_at: None, ..output })
        }),
{
}

/// A wait that nobody interrupts: a running stream goes on as it is, unless the output
/// asks for a new one; then it is closed and the same device is opened again. After a
/// failure the same device is opened again in any case.
pub proof fn uninterrupted_wait_keeps_the_device(worker: WorkerState, output: OutputState)
    requires
        worker.phase is Running || worker.phase is Retrying,
    ensures
        ({
            let timeout = WorkerEvent::Waited(WaitEvent::TimedOut);
            let next = worker.next(timeout, output);
            let after = worker.effect(timeout, output);
            &&& next.selected == worker.selected
            &&& worker.phase is Running ==> after == (OutputState { needs_reopen: false, ..output })
            &&& worker.phase is Running && !output.needs_reopen ==> next.phase is Running
            &&& worker.phase is Running && output.needs_reopen ==> {
                &&& next.phase.action() is CloseStream
                &&& next.next(WorkerEvent::StreamClosed, after).phase is Resolving
                &&& next.next(WorkerEvent::StreamClosed, after).selected == worker.selected
                &&& next.effect(WorkerEvent::StreamClosed, after).status is Opening
            }
            &&& worker.phase is Retrying ==> {
                &&& next.phase is Resolving
                &&& after.status is Opening
                &&& after.queued_at is None
                &&& !after.needs_reopen
                &&& worker.selected matches Some(text) ==> after.device == Some(text@)
                &&& worker.selected is None ==> after.device is None
                &&& after == (OutputState {
                    device: after.device,
                    status: after.status,
                    queued_at: None,
                    needs_reopen: false,
                    ..output
                })
            }
        }),
{
}

/// A shutdown, or the end of all who could send commands, ends the worker: at once after a
/// failure, and otherwise as soon as the stream is closed, which leaves the output unusable
/// and all else about it as it is.
pub proof fn ended_worker_leaves_the_output_unusable(
    worker: WorkerState,
    output: OutputState,
    end: WaitEvent,
)
    requires
        worker.phase is Running || worker.phase is Retrying,
        end == WaitEvent::Command(AudioCmd::Shutdown) || end == WaitEvent::Disconnected,
    ensures
        ({
            let told = worker.next(WorkerEvent::Waited(end), output);
            let heard = worker.effect(WorkerEvent::Waited(end), output);
            let after = told.effect(WorkerEvent::StreamClosed, heard);
            &&& heard == output
            &&& worker.phase is Retrying ==> told.phase.action() is Finish
            &&& worker.phase is Running ==> {
                &&& told.phase.action() is CloseStream
                &&& told.next(WorkerEvent::StreamClosed, heard).phase.action() is Finish
                &&& after.status is Unavailable
                &&& after.queued_at is None
                &&& after == (OutputState { status: after.status, queued_at: None, ..output })
            }
        }),
{
}

/// What a wait leads to: a named device is opened, a shutdown or a lost sender ends, and a
/// wait that runs out opens the device again when told to, or when the output asks for it,
/// and otherwise goes on. Only a wait that runs out, and was not itself to open the device
/// again, takes up what the output asked for.
pub proof fn waits_lead_where_they_should(
    output: OutputState,
    selected: Option<String>,
    name: Option<String>,
    retry: bool,
    asked: bool,
)
    ensures
        wait_outcome(WaitEvent::Command(AudioCmd::SetDevice(name)), selected, retry, asked)
            == WaitOutcome::Select(name),
        wait_outcome(WaitEvent::Command(AudioCmd::Shutdown), selected, retry, asked) is Stop,
        wait_outcome(WaitEvent::Disconnected, selected, retry, asked) is Stop,
        retry || asked ==> wait_outcome(WaitEvent::TimedOut, selected, retry, asked)
            == WaitOutcome::Select(selected),
        !retry && !asked ==> wait_outcome(WaitEvent::TimedOut, selected, retry, asked)
            is KeepWaiting,
        after_wait(output, WaitEvent::Command(AudioCmd::SetDevice(name)), retry) == output,
        after_wait(output, WaitEvent::Command(AudioCmd::Shutdown), retry) == output,
        after_wait(output, WaitEvent::Disconnected, retry) == output,
        after_wait(output, WaitEvent::TimedOut, true) == output,
        after_wait(output, WaitEvent::TimedOut, false) == (OutputState {
            needs_reopen: false,
            ..output
        }),
{
}

/// Each action has its own outcomes, and the worker takes up each of them and no other. It
/// waits a tenth of a second at a time while a stream runs, and two fifths of a second
/// after a failure.
pub proof fn actions_have_their_own_outcomes(phase: Phase, event: WorkerEvent)
    ensures
        phase.action() is ResolveDevice ==> (phase.accepts(event) <==> event is DeviceFound
            || event is Failed),
        phase.action() is ReadConfig ==> (phase.accepts(event) <==> event is ConfigRead
            || event is Failed),
        phase.action() is BuildStream ==> (phase.accepts(event) <==> event is StreamBuilt
            || event is Failed),
        phase.action() is StartStream ==> (phase.accepts(event) <==> event is StreamStarted
            || event is Failed),
        phase.action() is Wait ==> (phase.accepts(event) <==> event is Waited),
        phase.action() is CloseStream ==> (phase.accepts(event) <==> event is StreamClosed),
        phase.action() is Finish ==> !phase.accepts(event),
        phase is Running ==> phase.action() == WorkerAction::Wait(100_000_000),
        phase is Retrying ==> phase.action() == WorkerAction::Wait(400_000_000),
        phase.action() is Wait ==> phase is Running || phase is Retrying,
{
}

/// The error for a format that is not served says so and names it.
pub proof fn unsupported_format_is_named(name: Seq<char>)
    ensures
        unsupported_format_error(name).len() == "unsupported sample format: "@.len() + name.len(),
        "unsupported sample format: "@.is_prefix_of(unsupported_format_error(name)),
        name.is_suffix_of(unsupported_format_error(name)),
{
    let error = unsupported_format_error(name);
    let start = "unsupported sample format: "@;
    assert(error.subrange(0, start.len() as int) =~= start);
    assert(error.subrange(error.len() - name.len(), error.len() as int) =~= name);
}

} // verus!
