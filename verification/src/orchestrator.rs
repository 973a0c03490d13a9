//! The order of the steps of a launch.
//!
//! An `Orchestrator` decides; its caller acts. The caller hands in what has
//! happened as an `Event` and gets back what to do next as an `Action`,
//! together with the failures to report that do not end the run. The
//! refresh of the archive and the request for the server list are started
//! together and joined before anything is resolved; nothing is unlocked or
//! launched unless the launch was asked for; and a scheduled removal of the
//! unlocked credential file is waited for before the run ends.

use crate::cmd::{
    build_openvpn_command, command_for, decrypt_command, execute_cmd, gpg_command, launch_command,
    lemma_launch_command_parses, parsed, resolution, scheduled_deletion, task_view, text_of,
    unlock_gpg, DeletionTask, DeletionTaskView, Invocation, InvocationView,
};
use crate::common::Options;
use crate::credential::{CredentialEvent, CredentialLifecycle};
use crate::error::{DirectoryError, FatalError, Failure, ResolutionError, SyncError, UnlockError};
use crate::server::{hostnames_of, Servers};
use crate::text::names_of;
use vstd::prelude::*;

verus! {

/// How far a run has come.
#[derive(Debug, Clone, Copy, PartialEq, Eq, Structural)]
pub enum Phase {
    /// Nothing has been started.
    Ready,
    /// The refresh of the archive and the request for the server list are
    /// under way.
    Gathering,
    /// The names of the files in the base folder are being read.
    Listing,
    /// The decryption tool is running.
    Unlocking,
    /// The client is running.
    Running,
    /// The removal of the unlocked credential file is waited for.
    Cleaning,
    /// The run is over.
    Finished,
}

/// How the request for the server list ended.
pub enum Fetch {
    /// No request was made.
    Skipped,
    /// The request failed.
    Failed(DirectoryError),
    /// The request was answered with these servers.
    Answered(Servers),
}

/// A `Fetch` as plain values: of an answer, the host names in its order.
pub enum FetchView {
    Skipped,
    Failed(DirectoryError),
    Answered(Seq<Seq<char>>),
}

impl View for Fetch {
    type V = FetchView;

    open spec fn view(&self) -> FetchView {
        match self {
            Fetch::Skipped => FetchView::Skipped,
            Fetch::Failed(e) => FetchView::Failed(*e),
            Fetch::Answered(servers) => FetchView::Answered(hostnames_of(servers.records())),
        }
    }
}

/// What has happened.
pub enum Event {
    /// The run begins.
    Begin,
    /// The tasks that were started together have both ended. `sync` holds
    /// the failure of the refresh of the archive, if it was started and
    /// failed.
    Joined { sync: Option<SyncError>, fetch: Fetch },
    /// The names of the files in the base folder have been read.
    Listed { files: Vec<String> },
    /// The decryption tool has ended; `ok` tells whether it succeeded.
    Decrypted { ok: bool },
    /// The client has ended.
    ClientExited,
    /// The unlocked credential file has been removed.
    Deleted,
}

/// An `Event` as plain values.
pub enum EventView {
    Begin,
    Joined { sync: Option<SyncError>, fetch: FetchView },
    Listed { files: Seq<Seq<char>> },
    Decrypted { ok: bool },
    ClientExited,
    Deleted,
}

impl View for Event {
    type V = EventView;

    open spec fn view(&self) -> EventView {
        match self {
            Event::Begin => EventView::Begin,
            Event::Joined { sync, fetch } => EventView::Joined { sync: *sync, fetch: fetch@ },
            Event::Listed { files } => EventView::Listed { files: names_of(files@) },
            Event::Decrypted { ok } => EventView::Decrypted { ok: *ok },
            Event::ClientExited => EventView::ClientExited,
            Event::Deleted => EventView::Deleted,
        }
    }
}

/// What to do next.
#[derive(Debug, PartialEq, Eq)]
pub enum Action {
    /// Start the refresh of the archive if `sync` is set and the request
    /// for the server list if `fetch` is set, side by side, and wait for
    /// both.
    Gather { sync: bool, fetch: bool },
    /// Read the names of the files in the base folder.
    List,
    /// Print the command line; the run is over.
    Print { command: String },
    /// Run the decryption tool and wait for it.
    Decrypt { tool: Invocation },
    /// Schedule the removal, if there is one, then run the client and wait
    /// for it.
    Launch { client: Invocation, deletion: Option<DeletionTask> },
    /// Wait until the unlocked credential file has been removed.
    AwaitDeletion,
    /// End the run; nothing went wrong.
    Finish,
    /// Report the failure and end the run; nothing is launched.
    Abort { failure: Failure },
}

/// An `Action` as plain values.
pub enum ActionView {
    Gather { sync: bool, fetch: bool },
    List,
    Print { command: Seq<char> },
    Decrypt { tool: InvocationView },
    Launch { client: InvocationView, deletion: Option<DeletionTaskView> },
    AwaitDeletion,
    Finish,
    Abort { failure: Failure },
}

impl View for Action {
    type V = ActionView;

    open spec fn view(&self) -> ActionView {
        match self {
            Action::Gather { sync, fetch } => ActionView::Gather { sync: *sync, fetch: *fetch },
            Action::List => ActionView::List,
            Action::Print { command } => ActionView::Print { command: command@ },
            Action::Decrypt { tool } => ActionView::Decrypt { tool: tool@ },
            Action::Launch { client, deletion } => ActionView::Launch {
                client: client@,
                deletion: task_view(*deletion),
            },
            Action::AwaitDeletion => ActionView::AwaitDeletion,
            Action::Finish => ActionView::Finish,
            Action::Abort { failure } => ActionView::Abort { failure: *failure },
        }
    }
}

impl ActionView {
    /// Whether the action starts a process.
    pub open spec fn starts_process(self) -> bool {
        self is Decrypt || self is Launch
    }
}

/// What one step gives: the failures to report that do not end the run, in
/// the order in which they are reported, and what to do next.
#[derive(Debug, PartialEq, Eq)]
pub struct Step {
    pub reports: Vec<Failure>,
    pub action: Action,
}

/// The state of a run as plain values.
pub struct Model {
    /// How far the run has come.
    pub phase: Phase,
    /// Whether the refresh of the archive was asked for.
    pub update: bool,
    /// Whether the client is to be launched rather than its command line
    /// printed.
    pub execute: bool,
    /// The candidate hosts, in the order in which they are or were tried.
    pub candidates: Seq<Seq<char>>,
    /// The client to launch once the credential file is unlocked.
    pub client: Option<InvocationView>,
    /// Where the credential file stands, if one is configured.
    pub credential: Option<CredentialLifecycle>,
}

/// What a step leads to.
pub struct Outcome {
    pub state: Model,
    pub reports: Seq<Failure>,
    pub action: ActionView,
}

/// The state a run starts in.
pub open spec fn initial(opt: Options, update: bool, execute: bool) -> Model {
    Model {
        phase: Phase::Ready,
        update,
        execute,
        candidates: Seq::<Seq<char>>::empty(),
        client: None,
        credential: if opt.credential_file is Some {
            Some(CredentialLifecycle::Locked)
        } else {
            None
        },
    }
}

/// What holds of the state of every run.
pub open spec fn well_formed(s: Model, opt: Options) -> bool {
    &&& s.credential is Some <==> opt.credential_file is Some
    &&& s.client is Some <==> s.phase == Phase::Unlocking
    &&& s.phase == Phase::Listing ==> opt.forced is None
    &&& match s.phase {
        Phase::Ready | Phase::Gathering | Phase::Listing => s.credential is Some ==> s.credential
            == Some(CredentialLifecycle::Locked),
        Phase::Unlocking => s.execute && s.credential == Some(CredentialLifecycle::Unlocking),
        Phase::Running => s.execute && (s.credential is Some ==> s.credential == Some(
            CredentialLifecycle::Unlocked,
        )),
        Phase::Cleaning => s.execute && s.credential == Some(CredentialLifecycle::Unlocked),
        Phase::Finished => true,
    }
}

/// The failures that the end of the gathered tasks brings to report: that
/// of the refresh of the archive first, then that of the request for the
/// server list.
pub open spec fn reports_of(sync: Option<SyncError>, fetch: FetchView) -> Seq<Failure> {
    (match sync {
        Some(e) => seq![Failure::Sync(e)],
        None => Seq::<Failure>::empty(),
    }) + (match fetch {
        FetchView::Failed(e) => seq![Failure::Directory(e)],
        _ => Seq::<Failure>::empty(),
    })
}

/// The step once the command line is known. Where the launch was not asked
/// for, the command line is printed and the run is over. Otherwise the
/// credential file is unlocked first where one is configured, and the
/// client is launched at once where none is.
pub open spec fn resolved(s: Model, opt: Options, command: Seq<char>, reports: Seq<Failure>) -> Outcome {
    if !s.execute {
        Outcome {
            state: Model { phase: Phase::Finished, ..s },
            reports,
            action: ActionView::Print { command },
        }
    } else {
        match opt.credential_file {
            Some(file) => Outcome {
                state: Model {
                    phase: Phase::Unlocking,
                    client: parsed(command),
                    credential: Some(CredentialLifecycle::Unlocking),
                    ..s
                },
                reports,
                action: ActionView::Decrypt { tool: parsed(gpg_command(file@))->0 },
            },
            None => Outcome {
                state: Model { phase: Phase::Running, ..s },
                reports,
                action: ActionView::Launch { client: parsed(command)->0, deletion: None },
            },
        }
    }
}

/// The step once resolution has ended: with a command line the run goes
/// on, without one it is over and nothing is launched.
pub open spec fn settled(
    s: Model,
    opt: Options,
    command: Result<Seq<char>, ResolutionError>,
    reports: Seq<Failure>,
) -> Outcome {
    match command {
        Ok(command) => resolved(s, opt, command, reports),
        Err(e) => Outcome {
            state: Model { phase: Phase::Finished, ..s },
            reports,
            action: ActionView::Abort { failure: Failure::Resolution(e) },
        },
    }
}

/// The step that `event` leads to from the state `s`, or `None` where
/// `event` does not belong to the phase of `s`. `scan` is the order in
/// which the candidates are tried once the folder is listed.
pub open spec fn next(s: Model, opt: Options, event: EventView, scan: Seq<Seq<char>>) -> Option<
    Outcome,
> {
    match (s.phase, event) {
        (Phase::Ready, EventView::Begin) => Some(
            Outcome {
                state: Model { phase: Phase::Gathering, ..s },
                reports: Seq::<Failure>::empty(),
                action: ActionView::Gather { sync: s.update, fetch: opt.forced is None },
            },
        ),
        (Phase::Gathering, EventView::Joined { sync, fetch }) => {
            let reports = reports_of(sync, fetch);
            let candidates = match fetch {
                FetchView::Answered(names) => names,
                _ => Seq::<Seq<char>>::empty(),
            };
            let held = Model { candidates, ..s };
            match opt.forced {
                Some(forced) => Some(resolved(held, opt, launch_command(forced@, opt), reports)),
                None => if fetch is Answered {
                    Some(
                        Outcome {
                            state: Model { phase: Phase::Listing, ..held },
                            reports,
                            action: ActionView::List,
                        },
                    )
                } else {
                    Some(
                        Outcome {
                            state: Model { phase: Phase::Finished, ..held },
                            reports,
                            action: ActionView::Abort {
                                failure: Failure::Fatal(FatalError::NoCandidates),
                            },
                        },
                    )
                },
            }
        },
        (Phase::Listing, EventView::Listed { files }) => Some(
            settled(
                Model { candidates: scan, ..s },
                opt,
                command_for(scan, opt, files),
                Seq::<Failure>::empty(),
            ),
        ),
        (Phase::Unlocking, EventView::Decrypted { ok }) => Some(
            if ok {
                Outcome {
                    state: Model {
                        phase: Phase::Running,
                        client: None,
                        credential: Some(CredentialLifecycle::Unlocked),
                        ..s
                    },
                    reports: Seq::<Failure>::empty(),
                    action: ActionView::Launch {
                        client: s.client->0,
                        deletion: scheduled_deletion(opt),
                    },
                }
            } else {
                Outcome {
                    state: Model {
                        phase: Phase::Finished,
                        client: None,
                        credential: Some(CredentialLifecycle::Failed),
                        ..s
                    },
                    reports: Seq::<Failure>::empty(),
                    action: ActionView::Abort {
                        failure: Failure::Unlock(UnlockError::DecryptFailed),
                    },
                }
            },
        ),
        (Phase::Running, EventView::ClientExited) => Some(
            if s.credential == Some(CredentialLifecycle::Unlocked) {
                Outcome {
                    state: Model { phase: Phase::Cleaning, ..s },
                    reports: Seq::<Failure>::empty(),
                    action: ActionView::AwaitDeletion,
                }
            } else {
                Outcome {
                    state: Model { phase: Phase::Finished, ..s },
                    reports: Seq::<Failure>::empty(),
                    action: ActionView::Finish,
                }
            },
        ),
        (Phase::Cleaning, EventView::Deleted) => Some(
            Outcome {
                state: Model {
                    phase: Phase::Finished,
                    credential: Some(CredentialLifecycle::Deleted),
                    ..s
                },
                reports: Seq::<Failure>::empty(),
                action: ActionView::Finish,
            },
        ),
        _ => None,
    }
}

/// Every step keeps the state well formed.
pub proof fn lemma_next_keeps_well_formed(
    s: Model,
    opt: Options,
    event: EventView,
    scan: Seq<Seq<char>>,
)
    requires
        well_formed(s, opt),
        next(s, opt, event, scan) is Some,
    ensures
        well_formed(next(s, opt, event, scan)->0.state, opt),
{
    match (s.phase, event) {
        (Phase::Gathering, EventView::Joined { sync, fetch }) => {
            if opt.forced is Some {
                lemma_launch_command_parses(opt.forced->0@, opt);
            }
        },
        (Phase::Listing, EventView::Listed { files }) => {
            let config = resolution(scan, opt, files);
            if config is Ok {
                lemma_launch_command_parses(config->Ok_0, opt);
            }
        },
        _ => {},
    }
}

/// A run that is over stays over: no event leads on from it. So after a
/// failure that ended the run nothing is unlocked or launched.
pub proof fn lemma_finished_is_final(s: Model, opt: Options, event: EventView, scan: Seq<Seq<char>>)
    requires
        s.phase == Phase::Finished,
    ensures
        next(s, opt, event, scan) is None,
{
}

/// A step that reports a failure which ends the run leaves the run over.
pub proof fn lemma_abort_ends_run(s: Model, opt: Options, event: EventView, scan: Seq<Seq<char>>)
    requires
        next(s, opt, event, scan) matches Some(o) && o.action is Abort,
    ensures
        next(s, opt, event, scan)->0.state.phase == Phase::Finished,
        next(s, opt, event, scan)->0.action->failure.terminal(),
{
}

/// The failures that a step reports beside its action never end the run.
pub proof fn lemma_reports_go_on(s: Model, opt: Options, event: EventView, scan: Seq<Seq<char>>)
    requires
        next(s, opt, event, scan) is Some,
    ensures
        forall|k: int|
            0 <= k < next(s, opt, event, scan)->0.reports.len() ==> !(#[trigger] next(
                s,
                opt,
                event,
                scan,
            )->0.reports[k]).terminal(),
{
}

/// Where the launch was not asked for, no step starts a process: the
/// credential file is not unlocked and the client is not launched.
pub proof fn lemma_print_starts_nothing(
    s: Model,
    opt: Options,
    event: EventView,
    scan: Seq<Seq<char>>,
)
    requires
        well_formed(s, opt),
        !s.execute,
        next(s, opt, event, scan) is Some,
    ensures
        !next(s, opt, event, scan)->0.action.starts_process(),
        !next(s, opt, event, scan)->0.state.execute,
{
}

/// Whether the refresh of the archive failed changes neither the state
/// that the joining leads to nor what is done next.
pub proof fn lemma_sync_failure_goes_on(
    s: Model,
    opt: Options,
    sync: Option<SyncError>,
    fetch: FetchView,
    scan: Seq<Seq<char>>,
)
    requires
        s.phase == Phase::Gathering,
    ensures
        next(s, opt, EventView::Joined { sync, fetch }, scan) is Some,
        next(s, opt, EventView::Joined { sync, fetch }, scan)->0.state == next(
            s,
            opt,
            EventView::Joined { sync: None, fetch },
            scan,
        )->0.state,
        next(s, opt, EventView::Joined { sync, fetch }, scan)->0.action == next(
            s,
            opt,
            EventView::Joined { sync: None, fetch },
            scan,
        )->0.action,
{
}

/// Where no server list is at hand, because the request failed or was not
/// made, and no file is forced, the run is over with `NoCandidates`.
pub proof fn lemma_no_candidates(
    s: Model,
    opt: Options,
    sync: Option<SyncError>,
    fetch: FetchView,
    scan: Seq<Seq<char>>,
)
    requires
        s.phase == Phase::Gathering,
        opt.forced is None,
        !(fetch is Answered),
    ensures
        next(s, opt, EventView::Joined { sync, fetch }, scan) matches Some(o) && o.state.phase
            == Phase::Finished && o.action == (ActionView::Abort {
            failure: Failure::Fatal(FatalError::NoCandidates),
        }),
{
}

/// A forced file makes the command line without the folder being listed:
/// the candidates and the files on disk play no part.
pub proof fn lemma_forced_skips_listing(
    s: Model,
    opt: Options,
    sync: Option<SyncError>,
    fetch: FetchView,
    scan: Seq<Seq<char>>,
)
    requires
        s.phase == Phase::Gathering,
        opt.forced is Some,
    ensures
        next(s, opt, EventView::Joined { sync, fetch }, scan) matches Some(o) && !(o.action
            is List) && !(o.action is Abort) && (o.action matches ActionView::Print { command }
            ==> command == launch_command(opt.forced->0@, opt)),
{
}

/// The client is launched with a removal scheduled if and only if a
/// credential file is configured, and then only once the decryption tool
/// has succeeded; where the tool fails the run is over and nothing is
/// scheduled or launched.
pub proof fn lemma_unlock_before_launch(
    s: Model,
    opt: Options,
    event: EventView,
    scan: Seq<Seq<char>>,
)
    requires
        well_formed(s, opt),
        next(s, opt, event, scan) is Some,
    ensures
        next(s, opt, event, scan)->0.action matches ActionView::Launch { client, deletion } ==> {
            &&& deletion is Some <==> opt.credential_file is Some
            &&& opt.credential_file is Some ==> s.phase == Phase::Unlocking && event
                == (EventView::Decrypted { ok: true })
        },
        s.phase == Phase::Unlocking && event == (EventView::Decrypted { ok: false }) ==> next(
            s,
            opt,
            event,
            scan,
        )->0.action == (ActionView::Abort { failure: Failure::Unlock(UnlockError::DecryptFailed) }),
{
}

/// A scheduled removal is waited for before the run ends: when the client
/// has ended, the run ends at once only where nothing was unlocked.
pub proof fn lemma_deletion_is_awaited(s: Model, opt: Options, scan: Seq<Seq<char>>)
    requires
        well_formed(s, opt),
        s.phase == Phase::Running,
    ensures
        next(s, opt, EventView::ClientExited, scan) matches Some(o) && if opt.credential_file
            is Some {
            o.action is AwaitDeletion && o.state.phase == Phase::Cleaning
        } else {
            o.action is Finish && o.state.phase == Phase::Finished
        },
{
}

/// The credential file moves through its life as the run moves on: a step
/// leaves it where it stands or takes it one event further.
pub proof fn lemma_credential_follows_lifecycle(
    s: Model,
    opt: Options,
    event: EventView,
    scan: Seq<Seq<char>>,
)
    requires
        well_formed(s, opt),
        next(s, opt, event, scan) is Some,
    ensures
        s.credential is None ==> next(s, opt, event, scan)->0.state.credential is None,
        s.credential matches Some(before) ==> next(s, opt, event, scan)->0.state.credential
            matches Some(after) && (after == before || exists|step: CredentialEvent|
            before.after(step) == Some(after)),
{
    if s.credential is Some {
        let before = s.credential->0;
        let after = next(s, opt, event, scan)->0.state.credential->0;
        if after != before {
            match before {
                CredentialLifecycle::Locked => {
                    assert(before.after(CredentialEvent::Attempt) == Some(after));
                },
                CredentialLifecycle::Unlocking => {
                    if after == CredentialLifecycle::Unlocked {
                        assert(before.after(CredentialEvent::Decrypted) == Some(after));
                    } else {
                        assert(before.after(CredentialEvent::DecryptFailed) == Some(after));
                    }
                },
                _ => {
                    assert(before.after(CredentialEvent::Removed) == Some(after));
                },
            }
        }
    }
}

/// The message that an interrupt is answered with: one is given if and only
/// if diagnostic messages are wanted. An interrupt changes nothing else.
pub fn interrupt_notice(verbose: bool) -> (r: Option<&'static str>)
    ensures
        match r {
            Some(message) => verbose && message@ == "There is no escape..."@,
            None => !verbose,
        },
{
    if verbose {
        Some("There is no escape...")
    } else {
        None
    }
}

/// The decisions of one run.
pub struct Orchestrator<'a> {
    opt: Options<'a>,
    phase: Phase,
    update: bool,
    execute: bool,
    candidates: Vec<String>,
    client: Option<Invocation>,
    credential: Option<CredentialLifecycle>,
}

impl<'a> View for Orchestrator<'a> {
    type V = Model;

    closed spec fn view(&self) -> Model {
        Model {
            phase: self.phase,
            update: self.update,
            execute: self.execute,
            candidates: names_of(self.candidates@),
            client: match self.client {
                Some(client) => Some(client@),
                None => None,
            },
            credential: self.credential,
        }
    }
}

impl<'a> Orchestrator<'a> {
    /// The options of the run.
    pub closed spec fn options(&self) -> Options<'a> {
        self.opt
    }

    /// What holds of every orchestrator that `new` made and `advance`
    /// changed.
    pub open spec fn wf(&self) -> bool {
        well_formed(self@, self.options())
    }

    /// A run with the options `opt`. `update` asks for the refresh of the
    /// archive, `execute` for the launch of the client rather than the
    /// printing of its command line.
    pub fn new(opt: Options<'a>, update: bool, execute: bool) -> (r: Orchestrator<'a>)
        ensures
            r@ == initial(opt, update, execute),
            r.options() == opt,
            r.wf(),
    {
        let credential = match opt.credential_file {
            Some(_) => Some(CredentialLifecycle::Locked),
            None => None,
        };
        let r = Orchestrator {
            opt,
            phase: Phase::Ready,
            update,
            execute,
            candidates: Vec::new(),
            client: None,
            credential,
        };
        proof {
            assert(r@.candidates =~= Seq::<Seq<char>>::empty());
        }
        r
    }

    /// The options of the run.
    pub fn get_options(&self) -> (r: &Options<'a>)
        ensures
            *r == self.options(),
    {
        &self.opt
    }

    /// How far the run has come.
    pub fn phase(&self) -> (r: Phase)
        ensures
            r == self@.phase,
    {
        self.phase
    }

    /// Whether the run is over.
    pub fn is_finished(&self) -> (r: bool)
        ensures
            r == (self@.phase == Phase::Finished),
    {
        self.phase == Phase::Finished
    }

    /// Where the credential file stands, if one is configured.
    pub fn credential(&self) -> (r: Option<CredentialLifecycle>)
        ensures
            r == self@.credential,
    {
        self.credential
    }

    /// The step once the command line is known.
    fn resolved(&mut self, command: String, reports: Vec<Failure>) -> (step: Step)
        requires
            old(self).wf(),
            old(self)@.phase == Phase::Gathering || old(self)@.phase == Phase::Listing,
            parsed(command@) is Some,
        ensures
            final(self).options() == old(self).options(),
            final(self)@ == resolved(old(self)@, old(self).options(), command@, reports@).state,
            step.reports@ == reports@,
            step.action@ == resolved(old(self)@, old(self).options(), command@, reports@).action,
            final(self).wf(),
    {
        if !self.execute {
            self.phase = Phase::Finished;
            return Step { reports, action: Action::Print { command } };
        }
        let client = execute_cmd(command).unwrap();
        match self.opt.credential_file {
            Some(file) => {
                let tool = decrypt_command(file);
                self.phase = Phase::Unlocking;
                self.client = Some(client);
                self.credential = Some(CredentialLifecycle::Unlocking);
                Step { reports, action: Action::Decrypt { tool } }
            },
            None => {
                self.phase = Phase::Running;
                Step { reports, action: Action::Launch { client, deletion: None } }
            },
        }
    }

    /// The step once resolution has ended.
    fn settled(&mut self, command: Result<String, ResolutionError>, reports: Vec<Failure>) -> (step:
        Step)
        requires
            old(self).wf(),
            old(self)@.phase == Phase::Gathering || old(self)@.phase == Phase::Listing,
            command matches Ok(c) ==> parsed(c@) is Some,
        ensures
            final(self).options() == old(self).options(),
            final(self)@ == settled(
                old(self)@,
                old(self).options(),
                text_of(command),
                reports@,
            ).state,
            step.reports@ == reports@,
            step.action@ == settled(
                old(self)@,
                old(self).options(),
                text_of(command),
                reports@,
            ).action,
            final(self).wf(),
    {
        match command {
            Ok(command) => self.resolved(command, reports),
            Err(e) => {
                self.phase = Phase::Finished;
                Step { reports, action: Action::Abort { failure: Failure::Resolution(e) } }
            },
        }
    }

    /// The step once the gathered tasks have ended.
    fn joined(&mut self, sync: Option<SyncError>, fetch: Fetch) -> (step: Step)
        requires
            old(self).wf(),
            old(self)@.phase == Phase::Gathering,
        ensures
            final(self).options() == old(self).options(),
            next(
                old(self)@,
                old(self).options(),
                EventView::Joined { sync, fetch: fetch@ },
                final(self)@.candidates,
            ) == Some(Outcome { state: final(self)@, reports: step.reports@, action: step.action@ }),
            final(self).wf(),
    {
        let mut reports: Vec<Failure> = Vec::new();
        if let Some(e) = sync {
            reports.push(Failure::Sync(e));
        }
        let answered = match fetch {
            Fetch::Answered(servers) => {
                self.candidates = servers.get_hostnames();
                true
            },
            Fetch::Failed(e) => {
                reports.push(Failure::Directory(e));
                self.candidates = Vec::new();
                false
            },
            Fetch::Skipped => {
                self.candidates = Vec::new();
                false
            },
        };
        proof {
            assert(reports@ =~= reports_of(sync, fetch@));
            assert(!answered ==> names_of(self.candidates@) =~= Seq::<Seq<char>>::empty());
        }
        if self.opt.forced.is_some() {
            let nothing: Vec<String> = Vec::new();
            let command = build_openvpn_command(&mut self.candidates, &self.opt, &nothing);
            proof {
                lemma_launch_command_parses(self.opt.forced->0@, self.opt);
            }
            self.settled(command, reports)
        } else if answered {
            self.phase = Phase::Listing;
            Step { reports, action: Action::List }
        } else {
            self.phase = Phase::Finished;
            Step {
                reports,
                action: Action::Abort { failure: Failure::Fatal(FatalError::NoCandidates) },
            }
        }
    }

    /// The step once the folder is listed.
    fn listed(&mut self, files: Vec<String>) -> (step: Step)
        requires
            old(self).wf(),
            old(self)@.phase == Phase::Listing,
        ensures
            final(self).options() == old(self).options(),
            next(
                old(self)@,
                old(self).options(),
                EventView::Listed { files: names_of(files@) },
                final(self)@.candidates,
            ) == Some(Outcome { state: final(self)@, reports: step.reports@, action: step.action@ }),
            final(self)@.candidates.to_multiset() == old(self)@.candidates.to_multiset(),
            !old(self).options().random ==> final(self)@.candidates == old(self)@.candidates,
            final(self).wf(),
    {
        let command = build_openvpn_command(&mut self.candidates, &self.opt, &files);
        proof {
            let config = resolution(names_of(self.candidates@), self.opt, names_of(files@));
            if config is Ok {
                lemma_launch_command_parses(config->Ok_0, self.opt);
            }
        }
        self.settled(command, Vec::new())
    }

    /// The step once the decryption tool has ended.
    fn decrypted(&mut self, ok: bool) -> (step: Step)
        requires
            old(self).wf(),
            old(self)@.phase == Phase::Unlocking,
        ensures
            final(self).options() == old(self).options(),
            next(
                old(self)@,
                old(self).options(),
                EventView::Decrypted { ok },
                final(self)@.candidates,
            ) == Some(Outcome { state: final(self)@, reports: step.reports@, action: step.action@ }),
            final(self).wf(),
    {
        let client = self.client.take().unwrap();
        match unlock_gpg(ok, &self.opt) {
            Ok(deletion) => {
                self.phase = Phase::Running;
                self.credential = CredentialLifecycle::Unlocking.on(CredentialEvent::Decrypted);
                Step { reports: Vec::new(), action: Action::Launch { client, deletion } }
            },
            Err(e) => {
                self.phase = Phase::Finished;
                self.credential = CredentialLifecycle::Unlocking.on(CredentialEvent::DecryptFailed);
                Step {
                    reports: Vec::new(),
                    action: Action::Abort { failure: Failure::Unlock(e) },
                }
            },
        }
    }

    /// Takes the run one step on.
    ///
    /// `event` tells what has happened; the result tells what to do next.
    /// An event that does not belong to the phase the run is in gives
    /// `None` and changes nothing. When the folder has been listed, the
    /// candidates are resolved: they are tried in random order if the
    /// options ask for it, and afterwards the state holds them in the order
    /// in which they were tried.
    pub fn advance(&mut self, event: Event) -> (r: Option<Step>)
        requires
            old(self).wf(),
        ensures
            final(self).wf(),
            final(self).options() == old(self).options(),
            match next(old(self)@, old(self).options(), event@, final(self)@.candidates) {
                Some(outcome) => r matches Some(step) && final(self)@ == outcome.state
                    && step.reports@ == outcome.reports && step.action@ == outcome.action,
                None => r is None && final(self)@ == old(self)@,
            },
            old(self)@.phase == Phase::Listing && event is Listed ==> {
                &&& final(self)@.candidates.to_multiset() == old(self)@.candidates.to_multiset()
                &&& !old(self).options().random ==> final(self)@.candidates == old(
                    self,
                )@.candidates
            },
    {
        match event {
            Event::Begin => {
                if self.phase != Phase::Ready {
                    return None;
                }
                self.phase = Phase::Gathering;
                Some(
                    Step {
                        reports: Vec::new(),
                        action: Action::Gather {
                            sync: self.update,
                            fetch: self.opt.forced.is_none(),
                        },
                    },
                )
            },
            Event::Joined { sync, fetch } => {
                if self.phase != Phase::Gathering {
                    return None;
                }
                Some(self.joined(sync, fetch))
            },
            Event::Listed { files } => {
                if self.phase != Phase::Listing {
                    return None;
                }
                Some(self.listed(files))
            },
            Event::Decrypted { ok } => {
                if self.phase != Phase::Unlocking {
                    return None;
                }
                Some(self.decrypted(ok))
            },
            Event::ClientExited => {
                if self.phase != Phase::Running {
                    return None;
                }
                let awaited = match self.credential {
                    Some(CredentialLifecycle::Unlocked) => true,
                    _ => false,
                };
                if awaited {
                    self.phase = Phase::Cleaning;
                    Some(Step { reports: Vec::new(), action: Action::AwaitDeletion })
                } else {
                    self.phase = Phase::Finished;
                    Some(Step { reports: Vec::new(), action: Action::Finish })
                }
            },
            Event::Deleted => {
                if self.phase != Phase::Cleaning {
                    return None;
                }
                self.phase = Phase::Finished;
                self.credential = CredentialLifecycle::Unlocked.on(CredentialEvent::Removed);
                Some(Step { reports: Vec::new(), action: Action::Finish })
            },
        }
    }
}

} // verus!
