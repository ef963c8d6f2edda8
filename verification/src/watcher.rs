//! The watcher: which file events count, and how the worker gathers them
//! into batches.
//!
//! The operating system's watcher, the channel and the timer are the
//! caller's. The worker here is told what arrived and answers what to do
//! next: wait, wait with the silence window, run a batch, run a full
//! synchronisation, notify, or stop.

use vstd::prelude::*;
use vstd::hash_set::StringHashSet;
use crate::names::{lemma_name_pushed, lemma_name_removed, names_set, no_duplicates, place_of_name};
use crate::paths::{components, extension, extension_of, file_name, parts_view, PathPart};
use crate::text::{chars_of, same_chars};

verus! {

/// The silence after which the gathered events are processed, in
/// milliseconds.
pub const DEBOUNCE_MS: u64 = 1500;

/// How many commands the channel between watcher and worker holds.
pub const CHANNEL_CAPACITY: usize = 100;

/// What the watcher tells the worker.
#[derive(Debug)]
pub enum SyncCommand {
    /// The file at this path was created or changed.
    SingleFile(String),
    /// The file at this path was removed.
    DeleteFile(String),
}

/// What a command holds.
pub enum SyncCommandView {
    SingleFile(Seq<char>),
    DeleteFile(Seq<char>),
}

impl View for SyncCommand {
    type V = SyncCommandView;

    open spec fn view(&self) -> SyncCommandView {
        match self {
            SyncCommand::SingleFile(path) => SyncCommandView::SingleFile(path@),
            SyncCommand::DeleteFile(path) => SyncCommandView::DeleteFile(path@),
        }
    }
}

impl Clone for SyncCommand {
    fn clone(&self) -> (r: SyncCommand)
        ensures
            r@ == self@,
    {
        match self {
            SyncCommand::SingleFile(path) => SyncCommand::SingleFile(path.clone()),
            SyncCommand::DeleteFile(path) => SyncCommand::DeleteFile(path.clone()),
        }
    }
}

/// The kinds of file events, as far as the watcher tells them apart.
#[derive(Clone, Copy, Debug, PartialEq, Eq, Structural)]
pub enum FileEventKind {
    Create,
    Modify,
    Remove,
    Other,
}

/// Whether the path names a Markdown source: a file with the extension `md`
/// that is neither hidden (a leading `.`) nor a backup (a trailing `~`).
pub open spec fn is_markdown_source(path: Seq<char>) -> bool {
    match file_name(path) {
        Some(name) => extension(name) == Some("md"@) && name.len() > 0 && name[0] != '.'
            && name.last() != '~',
        None => false,
    }
}

/// Whether the path names a Markdown source.
pub fn accepts_path(path: &str) -> (r: bool)
    ensures
        r == is_markdown_source(path@),
{
    let mut parts = components(path);
    let ghost cs = parts_view(parts@);
    if parts.len() == 0 {
        return false;
    }
    let last = parts.pop().unwrap();
    assert(last@ == cs.last());
    match last {
        PathPart::Normal(name) => match extension_of(&name) {
            Some(ext) => {
                let md = chars_of("md");
                same_chars(&ext, &md) && name[0] != '.' && name[name.len() - 1] != '~'
            },
            None => false,
        },
        _ => false,
    }
}

/// The command that a file event gives rise to, if any: a change for a
/// created or modified Markdown source, a deletion for a removed one.
pub open spec fn command_of(kind: FileEventKind, path: Seq<char>) -> Option<SyncCommandView> {
    if !is_markdown_source(path) {
        None
    } else {
        match kind {
            FileEventKind::Create => Some(SyncCommandView::SingleFile(path)),
            FileEventKind::Modify => Some(SyncCommandView::SingleFile(path)),
            FileEventKind::Remove => Some(SyncCommandView::DeleteFile(path)),
            FileEventKind::Other => None,
        }
    }
}

/// The view of an optional command.
pub open spec fn command_view(command: Option<SyncCommand>) -> Option<SyncCommandView> {
    match command {
        Some(c) => Some(c@),
        None => None,
    }
}

/// The command that a file event gives rise to.
pub fn command_for_event(kind: FileEventKind, path: &str) -> (r: Option<SyncCommand>)
    ensures
        command_view(r) == command_of(kind, path@),
{
    if !accepts_path(path) {
        return None;
    }
    match kind {
        FileEventKind::Create => Some(SyncCommand::SingleFile(path.to_owned())),
        FileEventKind::Modify => Some(SyncCommand::SingleFile(path.to_owned())),
        FileEventKind::Remove => Some(SyncCommand::DeleteFile(path.to_owned())),
        FileEventKind::Other => None,
    }
}

/// What came of handing a command to the channel between watcher and
/// worker.
#[derive(Clone, Copy, Debug, PartialEq, Eq, Structural)]
pub enum SendOutcome {
    /// The command is in the channel.
    Sent,
    /// The channel was full and the command was dropped.
    Full,
    /// The worker is gone.
    Closed,
}

/// Whether the full-sync flag is to be raised: it is when an event was
/// dropped because the channel was full, and only then.
pub fn raises_full_sync(outcome: SendOutcome) -> (r: bool)
    ensures
        r == (outcome is Full),
{
    match outcome {
        SendOutcome::Full => true,
        _ => false,
    }
}

/// A set of paths: a hash set for the question whether a path is in it,
/// and the paths in the order they came in, for handing them out.
pub struct PathSet {
    members: StringHashSet,
    order: Vec<String>,
}

impl View for PathSet {
    type V = Set<Seq<char>>;

    closed spec fn view(&self) -> Set<Seq<char>> {
        self.members@
    }
}

impl PathSet {
    /// The list names exactly the paths of the set, each once.
    pub closed spec fn wf(&self) -> bool {
        no_duplicates(self.order@) && names_set(self.order@) == self.members@
    }

    /// The empty set.
    pub fn new() -> (r: PathSet)
        ensures
            r.wf(),
            r@ == Set::<Seq<char>>::empty(),
    {
        let r = PathSet { members: StringHashSet::new(), order: Vec::new() };
        assert(names_set(r.order@) =~= r.members@);
        r
    }

    /// Puts the path into the set.
    pub fn insert(&mut self, path: String)
        requires
            old(self).wf(),
        ensures
            final(self).wf(),
            final(self)@ == old(self)@.insert(path@),
    {
        if self.members.insert(path.clone()) {
            proof {
                lemma_name_pushed(self.order@, path);
            }
            self.order.push(path);
        } else {
            assert(self.members@ =~= old(self).members@);
        }
    }

    /// Takes the path out of the set.
    pub fn remove(&mut self, path: &String)
        requires
            old(self).wf(),
        ensures
            final(self).wf(),
            final(self)@ == old(self)@.remove(path@),
    {
        if self.members.remove(path.as_str()) {
            match place_of_name(&self.order, path.as_str()) {
                Some(place) => {
                    proof {
                        lemma_name_removed(self.order@, place as int);
                    }
                    self.order.remove(place);
                },
                None => {},
            }
        } else {
            assert(self.members@ =~= old(self).members@);
        }
    }

    /// Whether the set is empty.
    pub fn is_empty(&self) -> (r: bool)
        requires
            self.wf(),
        ensures
            r == (self@ == Set::<Seq<char>>::empty()),
    {
        let r = self.order.len() == 0;
        proof {
            if r {
                assert(names_set(self.order@) =~= Set::<Seq<char>>::empty());
            } else {
                assert(names_set(self.order@).contains(self.order@[0]@));
            }
        }
        r
    }

    /// Takes all paths out of the set, in the order they came in.
    pub fn drain(&mut self) -> (r: Vec<String>)
        requires
            old(self).wf(),
        ensures
            final(self).wf(),
            final(self)@ == Set::<Seq<char>>::empty(),
            no_duplicates(r@),
            names_set(r@) == old(self)@,
    {
        let mut out: Vec<String> = Vec::new();
        std::mem::swap(&mut out, &mut self.order);
        self.members.clear();
        assert(names_set(self.order@) =~= self.members@);
        out
    }

    /// Empties the set.
    pub fn clear(&mut self)
        ensures
            final(self).wf(),
            final(self)@ == Set::<Seq<char>>::empty(),
    {
        self.order.clear();
        self.members.clear();
        assert(names_set(self.order@) =~= self.members@);
    }
}

/// Where the worker stands.
#[derive(Clone, Copy, Debug, PartialEq, Eq, Structural)]
pub enum WorkerState {
    /// Waiting for the first command of a batch.
    Idle,
    /// At least one command is gathered and the silence window runs.
    Collecting,
    /// The orchestrator runs a batch or a full synchronisation.
    Processing,
    /// The build notifier is being called.
    Notifying,
    /// The channel is closed and the worker is done.
    Stopped,
}

/// What the caller reports to the worker.
#[derive(Debug)]
pub enum WorkerEvent {
    /// A command arrived.
    Received(SyncCommand),
    /// The channel is closed. A caller that reads the full-sync flag when a
    /// gathering ends reports a close during the gathering as `Quiet`.
    Closed,
    /// The silence window ran out, or the channel closed while commands
    /// were gathered. The full-sync flag was read and reset at this moment.
    Quiet { needs_full_sync: bool },
    /// The orchestrator is done with what it was asked.
    Synced { ok: bool },
    /// The notifier was called.
    Notified,
}

/// What the caller is to do next.
#[derive(Debug)]
pub enum WorkerAction {
    /// Wait for a command, however long it takes.
    Receive,
    /// Wait for a command, but no longer than the silence window.
    ReceiveWithin { millis: u64 },
    /// Run a full synchronisation.
    FullSync,
    /// Run a batch with these changes and deletions.
    ProcessBatch { changes: Vec<String>, deletions: Vec<String> },
    /// Call the build notifier, once.
    Notify,
    /// Stop.
    Stop,
}

/// The pending sets after a command: the path enters the set of its kind
/// and leaves the other.
pub open spec fn applied(
    changes: Set<Seq<char>>,
    deletions: Set<Seq<char>>,
    command: SyncCommandView,
) -> (Set<Seq<char>>, Set<Seq<char>>) {
    match command {
        SyncCommandView::SingleFile(path) => (changes.insert(path), deletions.remove(path)),
        SyncCommandView::DeleteFile(path) => (changes.remove(path), deletions.insert(path)),
    }
}

/// The worker: its state and the two sets of pending paths.
pub struct WatcherWorker {
    state: WorkerState,
    pending_changes: PathSet,
    pending_deletions: PathSet,
}

impl WatcherWorker {
    /// Where the worker stands.
    pub closed spec fn state(&self) -> WorkerState {
        self.state
    }

    /// The paths that wait to be read.
    pub closed spec fn pending_changes(&self) -> Set<Seq<char>> {
        self.pending_changes@
    }

    /// The paths that wait to be deleted.
    pub closed spec fn pending_deletions(&self) -> Set<Seq<char>> {
        self.pending_deletions@
    }

    /// No path waits both to be read and to be deleted, and outside the
    /// gathering of commands nothing waits at all.
    pub closed spec fn wf(&self) -> bool {
        &&& self.pending_changes.wf()
        &&& self.pending_deletions.wf()
        &&& self.pending_changes@.disjoint(self.pending_deletions@)
        &&& (self.state != WorkerState::Collecting ==> self.pending_changes@
            == Set::<Seq<char>>::empty() && self.pending_deletions@ == Set::<Seq<char>>::empty())
    }

    /// A well-formed worker never holds a path in both sets.
    pub proof fn lemma_pending_disjoint(&self)
        requires
            self.wf(),
        ensures
            self.pending_changes().disjoint(self.pending_deletions()),
    {
    }

    /// A worker that waits for its first command. The first thing to do is
    /// to receive.
    pub fn new() -> (r: WatcherWorker)
        ensures
            r.wf(),
            r.state() == WorkerState::Idle,
            r.pending_changes() == Set::<Seq<char>>::empty(),
            r.pending_deletions() == Set::<Seq<char>>::empty(),
    {
        WatcherWorker {
            state: WorkerState::Idle,
            pending_changes: PathSet::new(),
            pending_deletions: PathSet::new(),
        }
    }

    /// Takes a command into the pending sets.
    fn apply(&mut self, command: SyncCommand)
        requires
            old(self).pending_changes.wf(),
            old(self).pending_deletions.wf(),
            old(self).pending_changes@.disjoint(old(self).pending_deletions@),
        ensures
            final(self).pending_changes.wf(),
            final(self).pending_deletions.wf(),
            final(self).pending_changes@.disjoint(final(self).pending_deletions@),
            final(self).state == old(self).state,
            (final(self).pending_changes@, final(self).pending_deletions@) == applied(
                old(self).pending_changes@,
                old(self).pending_deletions@,
                command@,
            ),
    {
        match command {
            SyncCommand::SingleFile(path) => {
                self.pending_deletions.remove(&path);
                self.pending_changes.insert(path);
            },
            SyncCommand::DeleteFile(path) => {
                self.pending_changes.remove(&path);
                self.pending_deletions.insert(path);
            },
        }
    }

    /// Ends the gathering of commands.
    fn end_gathering(&mut self, needs_full_sync: bool) -> (action: WorkerAction)
        requires
            old(self).wf(),
            old(self).state() == WorkerState::Collecting,
        ensures
            final(self).wf(),
            gathering_ended(*old(self), needs_full_sync, *final(self), action),
    {
        if needs_full_sync {
            self.pending_changes.clear();
            self.pending_deletions.clear();
            self.state = WorkerState::Processing;
            WorkerAction::FullSync
        } else if self.pending_changes.is_empty() && self.pending_deletions.is_empty() {
            self.state = WorkerState::Idle;
            WorkerAction::Receive
        } else {
            let changes = self.pending_changes.drain();
            let deletions = self.pending_deletions.drain();
            self.state = WorkerState::Processing;
            WorkerAction::ProcessBatch { changes, deletions }
        }
    }

    /// One step of the worker: takes in what happened and says what to do
    /// next.
    ///
    /// Idle, a command opens the gathering and a closed channel stops the
    /// worker. While gathering, each command goes into the pending sets and
    /// the silence window starts again; when it runs out, or the channel
    /// closes, the gathering ends: a raised full-sync flag discards the sets
    /// in favour of a full synchronisation, and otherwise the sets, if they
    /// hold anything, become one batch. A close that is reported as `Closed`
    /// brings no reading of the flag and counts as a flag not raised.
    /// After a run that succeeded the notifier is called once; after any
    /// other answer to a run the worker goes back to waiting. While idle or
    /// gathering, an event that does not fit the state changes nothing.
    pub fn step(&mut self, event: WorkerEvent) -> (action: WorkerAction)
        requires
            old(self).wf(),
        ensures
            final(self).wf(),
            match (old(self).state(), event) {
                (WorkerState::Idle, WorkerEvent::Received(command)) => {
                    &&& final(self).state() == WorkerState::Collecting
                    &&& (final(self).pending_changes(), final(self).pending_deletions())
                        == applied(Set::empty(), Set::empty(), command@)
                    &&& action == (WorkerAction::ReceiveWithin { millis: DEBOUNCE_MS })
                },
                (WorkerState::Idle, WorkerEvent::Closed) => {
                    &&& final(self).state() == WorkerState::Stopped
                    &&& action is Stop
                },
                (WorkerState::Idle, _) => {
                    &&& final(self).state() == WorkerState::Idle
                    &&& action is Receive
                },
                (WorkerState::Collecting, WorkerEvent::Received(command)) => {
                    &&& final(self).state() == WorkerState::Collecting
                    &&& (final(self).pending_changes(), final(self).pending_deletions())
                        == applied(
                        old(self).pending_changes(),
                        old(self).pending_deletions(),
                        command@,
                    )
                    &&& action == (WorkerAction::ReceiveWithin { millis: DEBOUNCE_MS })
                },
                (WorkerState::Collecting, WorkerEvent::Quiet { needs_full_sync }) => gathering_ended(
                    *old(self),
                    needs_full_sync,
                    *final(self),
                    action,
                ),
                (WorkerState::Collecting, WorkerEvent::Closed) => gathering_ended(
                    *old(self),
                    false,
                    *final(self),
                    action,
                ),
                (WorkerState::Collecting, _) => {
                    &&& final(self).state() == WorkerState::Collecting
                    &&& final(self).pending_changes() == old(self).pending_changes()
                    &&& final(self).pending_deletions() == old(self).pending_deletions()
                    &&& action == (WorkerAction::ReceiveWithin { millis: DEBOUNCE_MS })
                },
                (WorkerState::Processing, WorkerEvent::Synced { ok }) => {
                    if ok {
                        &&& final(self).state() == WorkerState::Notifying
                        &&& action is Notify
                    } else {
                        &&& final(self).state() == WorkerState::Idle
                        &&& action is Receive
                    }
                },
                (WorkerState::Processing, _) => {
                    &&& final(self).state() == WorkerState::Idle
                    &&& action is Receive
                },
                (WorkerState::Notifying, _) => {
                    &&& final(self).state() == WorkerState::Idle
                    &&& action is Receive
                },
                (WorkerState::Stopped, _) => {
                    &&& final(self).state() == WorkerState::Stopped
                    &&& action is Stop
                },
            },
    {
        match self.state {
            WorkerState::Idle => match event {
                WorkerEvent::Received(command) => {
                    self.apply(command);
                    self.state = WorkerState::Collecting;
                    WorkerAction::ReceiveWithin { millis: DEBOUNCE_MS }
                },
                WorkerEvent::Closed => {
                    self.state = WorkerState::Stopped;
                    WorkerAction::Stop
                },
                _ => WorkerAction::Receive,
            },
            WorkerState::Collecting => match event {
                WorkerEvent::Received(command) => {
                    self.apply(command);
                    WorkerAction::ReceiveWithin { millis: DEBOUNCE_MS }
                },
                WorkerEvent::Quiet { needs_full_sync } => self.end_gathering(needs_full_sync),
                WorkerEvent::Closed => self.end_gathering(false),
                _ => WorkerAction::ReceiveWithin { millis: DEBOUNCE_MS },
            },
            WorkerState::Processing => match event {
                WorkerEvent::Synced { ok } => {
                    if ok {
                        self.state = WorkerState::Notifying;
                        WorkerAction::Notify
                    } else {
                        self.state = WorkerState::Idle;
                        WorkerAction::Receive
                    }
                },
                _ => {
                    self.state = WorkerState::Idle;
                    WorkerAction::Receive
                },
            },
            WorkerState::Notifying => {
                self.state = WorkerState::Idle;
                WorkerAction::Receive
            },
            WorkerState::Stopped => WorkerAction::Stop,
        }
    }
}

/// What the end of a gathering does. A raised full-sync flag discards the
/// pending sets in favour of a full synchronisation; otherwise the sets, if
/// they hold anything, become one batch, each path once, and if they hold
/// nothing the worker waits again. Either way nothing is pending afterwards.
pub open spec fn gathering_ended(
    before: WatcherWorker,
    needs_full_sync: bool,
    after: WatcherWorker,
    action: WorkerAction,
) -> bool {
    &&& after.pending_changes() == Set::<Seq<char>>::empty()
    &&& after.pending_deletions() == Set::<Seq<char>>::empty()
    &&& if needs_full_sync {
        &&& after.state() == WorkerState::Processing
        &&& action is FullSync
    } else if before.pending_changes().is_empty() && before.pending_deletions().is_empty() {
        &&& after.state() == WorkerState::Idle
        &&& action is Receive
    } else {
        &&& after.state() == WorkerState::Processing
        &&& action is ProcessBatch
        &&& no_duplicates(action->changes@)
        &&& no_duplicates(action->deletions@)
        &&& names_set(action->changes@) == before.pending_changes()
        &&& names_set(action->deletions@) == before.pending_deletions()
    }
}

} // verus!
