//! The file-watch multiplexer.
//!
//! Any number of subscribers may watch the same path while the operating
//! system is asked for exactly one watch per path. The table below is the
//! bookkeeping behind that: it is owned by a single worker, which feeds it one
//! command at a time and carries out the operating-system request that each
//! command yields.

use crate::text::same_text;
use crate::text::texts;
use vstd::multiset::Multiset;
use vstd::prelude::*;

verus! {

/// Bursts of file-system events are collapsed over this window, in milliseconds.
pub const WATCH_DEBOUNCE_MS: u64 = 500;

/// Capacity of the command queue and of each subscriber's notification queue.
pub const WATCH_QUEUE_CAPACITY: usize = 100;

/// Why a watch or unwatch request did not reach the worker.
#[derive(Debug, Clone, Copy, PartialEq, Eq, Structural)]
pub enum WatcherError {
    /// The worker's command queue is closed.
    CommandFailed,
}

impl WatcherError {
    /// The text shown for this error.
    pub fn message(&self) -> (text: String)
        ensures
            text@ == "Failed to send watcher command"@,
    {
        "Failed to send watcher command".to_owned()
    }
}

/// All registrations for one path, oldest first.
#[derive(Debug, PartialEq, Eq)]
pub struct WatchSubscription {
    pub path: String,
    pub subscriber_channels: Vec<u64>,
}

/// A request to the worker that owns the table.
#[derive(Debug, PartialEq, Eq)]
pub enum FileWatcherCommand {
    /// Register the given subscriber channel for the path.
    Watch(String, u64),
    /// Withdraw one registration for the path: the oldest.
    Unwatch(String),
}

/// What the worker has to do after a command was applied to the table.
#[derive(Debug, Clone, Copy, PartialEq, Eq, Structural)]
pub enum WatcherEffect {
    /// A subscriber joined a path that is already being watched.
    Joined,
    /// The first subscriber joined: start the operating-system watch.
    StartOsWatch,
    /// The given subscriber channel, the oldest on the path, was withdrawn;
    /// others remain on the path.
    Left(u64),
    /// The given subscriber channel was withdrawn and was the only one on the
    /// path: stop the operating-system watch.
    StopOsWatch(u64),
    /// The path was not being watched; nothing changed.
    NotWatched,
}

/// What `unwatch` did.
#[derive(Debug, Clone, Copy, PartialEq, Eq)]
pub struct UnwatchOutcome {
    /// The subscriber channel whose registration was withdrawn, if there was
    /// one: the oldest on the path.
    pub removed: Option<u64>,
    /// Whether the operating-system watch for the path has to be stopped.
    pub stop_os_watch: bool,
}

/// The subscribers registered for `path`, oldest first; empty when the path
/// is not being watched.
pub open spec fn table_subscribers(table: Map<Seq<char>, Seq<u64>>, path: Seq<char>) -> Seq<u64> {
    if table.dom().contains(path) {
        table[path]
    } else {
        Seq::empty()
    }
}

/// The table after one more registration for `path`.
pub open spec fn table_watch(table: Map<Seq<char>, Seq<u64>>, path: Seq<char>, subscriber: u64) -> Map<
    Seq<char>,
    Seq<u64>,
> {
    table.insert(path, table_subscribers(table, path).push(subscriber))
}

/// The table after one registration for `path` was withdrawn. The one that
/// leaves is the oldest: subscribers withdraw in the order in which they
/// came, and those who registered later stay, in their order.
pub open spec fn table_unwatch(table: Map<Seq<char>, Seq<u64>>, path: Seq<char>) -> Map<
    Seq<char>,
    Seq<u64>,
> {
    if table_subscribers(table, path).len() <= 1 {
        table.remove(path)
    } else {
        table.insert(path, table[path].drop_first())
    }
}

/// Every path in the table has at least one subscriber.
pub open spec fn table_wf(table: Map<Seq<char>, Seq<u64>>) -> bool {
    forall|p: Seq<char>| #[trigger] table.dom().contains(p) ==> table[p].len() > 0
}

/// The subscriber channels to signal for a batch of changed paths: each
/// distinct path once, in order of first appearance, and for each path all of
/// its subscribers, oldest first.
pub open spec fn fan_out(table: Map<Seq<char>, Seq<u64>>, changed: Seq<Seq<char>>) -> Seq<u64>
    decreases changed.len(),
{
    if changed.len() == 0 {
        Seq::empty()
    } else {
        let earlier = changed.drop_last();
        if earlier.contains(changed.last()) {
            fan_out(table, earlier)
        } else {
            fan_out(table, earlier) + table_subscribers(table, changed.last())
        }
    }
}

spec fn distinct_paths(entries: Seq<WatchSubscription>) -> bool {
    forall|i: int, j: int| 0 <= i < j < entries.len() ==> entries[i].path@ != entries[j].path@
}

spec fn entries_wf(entries: Seq<WatchSubscription>) -> bool {
    &&& distinct_paths(entries)
    &&& forall|i: int|
        0 <= i < entries.len() ==> (#[trigger] entries[i]).subscriber_channels@.len() > 0
}

spec fn has_path(entries: Seq<WatchSubscription>, path: Seq<char>) -> bool {
    exists|i: int| 0 <= i < entries.len() && (#[trigger] entries[i]).path@ == path
}

spec fn position_of(entries: Seq<WatchSubscription>, path: Seq<char>) -> int {
    choose|i: int| 0 <= i < entries.len() && (#[trigger] entries[i]).path@ == path
}

spec fn entries_table(entries: Seq<WatchSubscription>) -> Map<Seq<char>, Seq<u64>> {
    Map::new(
        |p: Seq<char>| has_path(entries, p),
        |p: Seq<char>| entries[position_of(entries, p)].subscriber_channels@,
    )
}

proof fn lemma_entry_lookup(entries: Seq<WatchSubscription>, i: int)
    requires
        distinct_paths(entries),
        0 <= i < entries.len(),
    ensures
        has_path(entries, entries[i].path@),
        position_of(entries, entries[i].path@) == i,
        entries_table(entries).dom().contains(entries[i].path@),
        entries_table(entries)[entries[i].path@] == entries[i].subscriber_channels@,
{
    let p = entries[i].path@;
    assert(has_path(entries, p));
    let j = position_of(entries, p);
    assert(0 <= j < entries.len() && entries[j].path@ == p);
    if j < i {
        assert(entries[j].path@ != entries[i].path@);
    } else if i < j {
        assert(entries[i].path@ != entries[j].path@);
    }
}

proof fn lemma_entries_table_wf(entries: Seq<WatchSubscription>)
    requires
        entries_wf(entries),
    ensures
        table_wf(entries_table(entries)),
{
    let table = entries_table(entries);
    assert forall|p: Seq<char>| #[trigger] table.dom().contains(p) implies table[p].len() > 0 by {
        let j = position_of(entries, p);
        assert(0 <= j < entries.len() && entries[j].path@ == p);
    }
}

/// The subscription table of the multiplexer.
#[derive(Debug)]
pub struct FileWatcher {
    subscriptions: Vec<WatchSubscription>,
}

impl View for FileWatcher {
    type V = Map<Seq<char>, Seq<u64>>;

    /// The table as a map from each watched path to its subscribers, oldest
    /// first.
    closed spec fn view(&self) -> Map<Seq<char>, Seq<u64>> {
        entries_table(self.subscriptions@)
    }
}

impl FileWatcher {
    /// No path is listed twice and every listed path has a subscriber.
    pub closed spec fn wf(&self) -> bool {
        entries_wf(self.subscriptions@)
    }

    /// In a well-formed table every watched path has at least one subscriber.
    pub proof fn lemma_wf_view(&self)
        requires
            self.wf(),
        ensures
            table_wf(self@),
    {
        lemma_entries_table_wf(self.subscriptions@);
    }

    /// A table in which nothing is watched.
    pub fn new() -> (watcher: Self)
        ensures
            watcher.wf(),
            watcher@ == Map::<Seq<char>, Seq<u64>>::empty(),
    {
        let watcher = FileWatcher { subscriptions: Vec::new() };
        assert(watcher@ =~= Map::<Seq<char>, Seq<u64>>::empty());
        watcher
    }

    fn find(&self, path: &str) -> (found: Option<usize>)
        requires
            self.wf(),
        ensures
            match found {
                Some(i) => i < self.subscriptions.len() && self.subscriptions[i as int].path@
                    == path@,
                None => !has_path(self.subscriptions@, path@),
            },
    {
        let mut i: usize = 0;
        while i < self.subscriptions.len()
            invariant
                i <= self.subscriptions.len(),
                forall|j: int| 0 <= j < i ==> (#[trigger] self.subscriptions[j]).path@ != path@,
            decreases self.subscriptions.len() - i,
        {
            if same_text(self.subscriptions[i].path.as_str(), path) {
                return Some(i);
            }
            i += 1;
        }
        None
    }

    /// How many subscribers are registered for `path`.
    pub fn subscriber_count(&self, path: &str) -> (count: usize)
        requires
            self.wf(),
        ensures
            count == table_subscribers(self@, path@).len(),
    {
        match self.find(path) {
            Some(i) => {
                proof {
                    lemma_entry_lookup(self.subscriptions@, i as int);
                }
                self.subscriptions[i].subscriber_channels.len()
            },
            None => 0,
        }
    }

    /// Whether an operating-system watch is wanted for `path`: exactly when it
    /// has a subscriber.
    pub fn is_watching(&self, path: &str) -> (watching: bool)
        requires
            self.wf(),
        ensures
            watching == self@.dom().contains(path@),
            watching == (table_subscribers(self@, path@).len() > 0),
    {
        proof {
            self.lemma_wf_view();
        }
        self.find(path).is_some()
    }

    /// Registers `subscriber` for `path`, behind the subscribers already
    /// there. Returns whether this is the first registration for the path, in
    /// which case the caller starts the operating-system watch.
    pub fn watch(&mut self, path: String, subscriber: u64) -> (start_os_watch: bool)
        requires
            old(self).wf(),
        ensures
            final(self).wf(),
            final(self)@ == table_watch(old(self)@, path@, subscriber),
            start_os_watch == !old(self)@.dom().contains(path@),
    {
        let ghost before = self.subscriptions@;
        match self.find(path.as_str()) {
            Some(i) => {
                self.subscriptions[i].subscriber_channels.push(subscriber);
                proof {
                    let after = self.subscriptions@;
                    assert(distinct_paths(after));
                    lemma_entry_lookup(before, i as int);
                    lemma_entry_lookup(after, i as int);
                    assert forall|p: Seq<char>| has_path(after, p) == has_path(before, p) by {
                        if has_path(before, p) {
                            let j = position_of(before, p);
                            assert(after[j].path@ == p);
                        }
                        if has_path(after, p) {
                            let j = position_of(after, p);
                            assert(before[j].path@ == p);
                        }
                    }
                    assert forall|p: Seq<char>| has_path(after, p) && p != path@ implies after[position_of(
                        after,
                        p,
                    )].subscriber_channels@ == before[position_of(
                        before,
                        p,
                    )].subscriber_channels@ by {
                        let j = position_of(after, p);
                        assert(before[j].path@ == p);
                        lemma_entry_lookup(before, j);
                    }
                    assert(entries_table(after) =~= table_watch(
                        entries_table(before),
                        path@,
                        subscriber,
                    ));
                }
                false
            },
            None => {
                let ghost text = path@;
                let mut channels: Vec<u64> = Vec::new();
                channels.push(subscriber);
                self.subscriptions.push(WatchSubscription { path, subscriber_channels: channels });
                proof {
                    let after = self.subscriptions@;
                    let last = before.len() as int;
                    assert(after[last].path@ == text);
                    assert(after[last].subscriber_channels@ =~= seq![subscriber]);
                    assert forall|i: int, j: int| 0 <= i < j < after.len() implies after[i].path@
                        != after[j].path@ by {
                        if j == last {
                            assert(before[i].path@ != text);
                        }
                    }
                    lemma_entry_lookup(after, last);
                    assert forall|p: Seq<char>| has_path(after, p) == (has_path(before, p) || p
                        == text) by {
                        if has_path(before, p) {
                            let j = position_of(before, p);
                            assert(after[j].path@ == p);
                        }
                        if has_path(after, p) {
                            let j = position_of(after, p);
                            if j < last {
                                assert(before[j].path@ == p);
                            }
                        }
                    }
                    assert forall|p: Seq<char>| has_path(before, p) implies after[position_of(
                        after,
                        p,
                    )].subscriber_channels@ == before[position_of(
                        before,
                        p,
                    )].subscriber_channels@ by {
                        let j = position_of(before, p);
                        assert(after[j].path@ == p);
                        lemma_entry_lookup(after, j);
                    }
                    assert(entries_table(after) =~= table_watch(
                        entries_table(before),
                        text,
                        subscriber,
                    ));
                }
                true
            },
        }
    }

    /// Withdraws one registration for `path`, if there is one: the oldest
    /// leaves and those who registered later stay. When it was the only one,
    /// the path leaves the table and the caller stops the operating-system
    /// watch.
    pub fn unwatch(&mut self, path: &str) -> (outcome: UnwatchOutcome)
        requires
            old(self).wf(),
        ensures
            final(self).wf(),
            final(self)@ == table_unwatch(old(self)@, path@),
            outcome.removed == (if old(self)@.dom().contains(path@) {
                Some(old(self)@[path@].first())
            } else {
                None
            }),
            outcome.stop_os_watch == (old(self)@.dom().contains(path@) && old(self)@[path@].len()
                == 1),
    {
        let ghost before = self.subscriptions@;
        match self.find(path) {
            Some(i) => {
                proof {
                    lemma_entry_lookup(before, i as int);
                }
                if self.subscriptions[i].subscriber_channels.len() <= 1 {
                    let entry = self.subscriptions.remove(i);
                    let removed = entry.subscriber_channels[0];
                    proof {
                        let after = self.subscriptions@;
                        assert forall|a: int, b: int| 0 <= a < b < after.len() implies after[a].path@
                            != after[b].path@ by {
                            let a0 = if a < i { a } else { a + 1 };
                            let b0 = if b < i { b } else { b + 1 };
                            assert(before[a0].path@ != before[b0].path@);
                        }
                        assert forall|p: Seq<char>| has_path(after, p) == (has_path(before, p) && p
                            != path@) by {
                            if has_path(before, p) && p != path@ {
                                let j = position_of(before, p);
                                let j1 = if j < i { j } else { j - 1 };
                                assert(after[j1].path@ == p);
                            }
                            if has_path(after, p) {
                                let j = position_of(after, p);
                                let j0 = if j < i { j } else { j + 1 };
                                assert(before[j0].path@ == p);
                                if i < j0 {
                                    assert(before[i as int].path@ != before[j0].path@);
                                } else {
                                    assert(before[j0].path@ != before[i as int].path@);
                                }
                            }
                        }
                        assert forall|p: Seq<char>| has_path(after, p) implies after[position_of(
                            after,
                            p,
                        )].subscriber_channels@ == before[position_of(
                            before,
                            p,
                        )].subscriber_channels@ by {
                            let j = position_of(after, p);
                            let j0 = if j < i { j } else { j + 1 };
                            assert(before[j0].path@ == p);
                            lemma_entry_lookup(before, j0);
                        }
                        assert(entries_table(after) =~= table_unwatch(entries_table(before), path@));
                    }
                    UnwatchOutcome { removed: Some(removed), stop_os_watch: true }
                } else {
                    let oldest = self.subscriptions[i].subscriber_channels.remove(0);
                    proof {
                        let after = self.subscriptions@;
                        assert(after[i as int].subscriber_channels@
                            =~= before[i as int].subscriber_channels@.drop_first());
                        assert(distinct_paths(after));
                        lemma_entry_lookup(after, i as int);
                        assert forall|p: Seq<char>| has_path(after, p) == has_path(before, p) by {
                            if has_path(before, p) {
                                let j = position_of(before, p);
                                assert(after[j].path@ == p);
                            }
                            if has_path(after, p) {
                                let j = position_of(after, p);
                                assert(before[j].path@ == p);
                            }
                        }
                        assert forall|p: Seq<char>| has_path(after, p) && p
                            != path@ implies after[position_of(after, p)].subscriber_channels@
                            == before[position_of(before, p)].subscriber_channels@ by {
                            let j = position_of(after, p);
                            assert(before[j].path@ == p);
                            lemma_entry_lookup(before, j);
                        }
                        assert(entries_table(after) =~= table_unwatch(entries_table(before), path@));
                    }
                    UnwatchOutcome { removed: Some(oldest), stop_os_watch: false }
                }
            },
            None => {
                proof {
                    assert(entries_table(before) =~= table_unwatch(entries_table(before), path@));
                }
                UnwatchOutcome { removed: None, stop_os_watch: false }
            },
        }
    }

    /// Applies one command to the table and says what the worker has to do
    /// next.
    pub fn handle_command(&mut self, command: FileWatcherCommand) -> (effect: WatcherEffect)
        requires
            old(self).wf(),
        ensures
            final(self).wf(),
            final(self)@ == command_table(old(self)@, command),
            effect == command_effect(old(self)@, command),
    {
        match command {
            FileWatcherCommand::Watch(path, subscriber) => {
                if self.watch(path, subscriber) {
                    WatcherEffect::StartOsWatch
                } else {
                    WatcherEffect::Joined
                }
            },
            FileWatcherCommand::Unwatch(path) => {
                let outcome = self.unwatch(path.as_str());
                match outcome.removed {
                    Some(subscriber) => {
                        if outcome.stop_os_watch {
                            WatcherEffect::StopOsWatch(subscriber)
                        } else {
                            WatcherEffect::Left(subscriber)
                        }
                    },
                    None => WatcherEffect::NotWatched,
                }
            },
        }
    }

    /// The subscriber channels to signal after the given paths changed. A path
    /// that occurs several times in the batch counts once; a path that nobody
    /// watches yields nothing; every subscriber of a watched path is signalled.
    pub fn notify_targets(&self, changed: &Vec<String>) -> (targets: Vec<u64>)
        requires
            self.wf(),
        ensures
            targets@ == fan_out(self@, texts(changed@)),
    {
        let ghost paths = texts(changed@);
        let mut targets: Vec<u64> = Vec::new();
        let mut i: usize = 0;
        while i < changed.len()
            invariant
                self.wf(),
                i <= changed.len(),
                paths == texts(changed@),
                targets@ == fan_out(self@, paths.take(i as int)),
            decreases changed.len() - i,
        {
            let ghost prefix = paths.take(i as int);
            let ghost next = paths.take(i as int + 1);
            proof {
                assert(next.drop_last() =~= prefix);
                assert(next.last() == changed@[i as int]@);
            }
            let mut seen = false;
            let mut k: usize = 0;
            while k < i
                invariant
                    k <= i,
                    i < changed.len(),
                    paths == texts(changed@),
                    prefix == paths.take(i as int),
                    seen == prefix.take(k as int).contains(changed@[i as int]@),
                decreases i - k,
            {
                proof {
                    let shorter = prefix.take(k as int);
                    let longer = prefix.take(k as int + 1);
                    assert(longer =~= shorter.push(prefix[k as int]));
                    assert(prefix[k as int] == changed@[k as int]@);
                    assert(longer[k as int] == prefix[k as int]);
                    if shorter.contains(changed@[i as int]@) {
                        let w = choose|w: int|
                            0 <= w < shorter.len() && shorter[w] == changed@[i as int]@;
                        assert(longer[w] == changed@[i as int]@);
                    }
                    if longer.contains(changed@[i as int]@) {
                        let w = choose|w: int|
                            0 <= w < longer.len() && longer[w] == changed@[i as int]@;
                        if w < k {
                            assert(shorter[w] == changed@[i as int]@);
                        }
                    }
                }
                if same_text(changed[k].as_str(), changed[i].as_str()) {
                    seen = true;
                }
                k += 1;
            }
            proof {
                assert(prefix.take(i as int) =~= prefix);
            }
            if !seen {
                match self.find(changed[i].as_str()) {
                    Some(at) => {
                        proof {
                            lemma_entry_lookup(self.subscriptions@, at as int);
                        }
                        let ghost base = targets@;
                        let channels = &self.subscriptions[at].subscriber_channels;
                        let mut c: usize = 0;
                        while c < channels.len()
                            invariant
                                c <= channels.len(),
                                targets@ == base + channels@.take(c as int),
                            decreases channels.len() - c,
                        {
                            targets.push(channels[c]);
                            proof {
                                assert(channels@.take(c as int + 1) =~= channels@.take(
                                    c as int,
                                ).push(channels@[c as int]));
                            }
                            c += 1;
                        }
                        proof {
                            assert(channels@.take(channels.len() as int) =~= channels@);
                        }
                    },
                    None => {
                        proof {
                            assert(targets@ + Seq::<u64>::empty() =~= targets@);
                        }
                    },
                }
            }
            i += 1;
        }
        proof {
            assert(paths.take(changed.len() as int) =~= paths);
        }
        targets
    }
}

/// The table after `command`.
pub open spec fn command_table(table: Map<Seq<char>, Seq<u64>>, command: FileWatcherCommand) -> Map<
    Seq<char>,
    Seq<u64>,
> {
    match command {
        FileWatcherCommand::Watch(path, subscriber) => table_watch(table, path@, subscriber),
        FileWatcherCommand::Unwatch(path) => table_unwatch(table, path@),
    }
}

/// What the worker has to do after `command` met `table`.
pub open spec fn command_effect(
    table: Map<Seq<char>, Seq<u64>>,
    command: FileWatcherCommand,
) -> WatcherEffect {
    match command {
        FileWatcherCommand::Watch(path, subscriber) => if table.dom().contains(path@) {
            WatcherEffect::Joined
        } else {
            WatcherEffect::StartOsWatch
        },
        FileWatcherCommand::Unwatch(path) => if !table.dom().contains(path@) {
            WatcherEffect::NotWatched
        } else if table[path@].len() == 1 {
            WatcherEffect::StopOsWatch(table[path@].first())
        } else {
            WatcherEffect::Left(table[path@].first())
        },
    }
}

/// The path a command is about.
pub open spec fn command_path(command: FileWatcherCommand) -> Seq<char> {
    match command {
        FileWatcherCommand::Watch(path, _) => path@,
        FileWatcherCommand::Unwatch(path) => path@,
    }
}

/// The operating-system watches after the worker carried out `effect` for
/// `path`: starting adds one watch for the path, stopping takes one away.
pub open spec fn os_watches_after(
    os_watches: Multiset<Seq<char>>,
    path: Seq<char>,
    effect: WatcherEffect,
) -> Multiset<Seq<char>> {
    match effect {
        WatcherEffect::StartOsWatch => os_watches.insert(path),
        WatcherEffect::StopOsWatch(_) => os_watches.remove(path),
        _ => os_watches,
    }
}

/// The table together with the operating-system watches that the worker holds.
pub ghost struct WatcherModel {
    pub table: Map<Seq<char>, Seq<u64>>,
    pub os_watches: Multiset<Seq<char>>,
}

/// The state before any command: nothing is watched.
pub open spec fn initial_model() -> WatcherModel {
    WatcherModel { table: Map::empty(), os_watches: Multiset::empty() }
}

/// One turn of the worker: the command is applied to the table and its effect
/// is carried out.
pub open spec fn model_step(model: WatcherModel, command: FileWatcherCommand) -> WatcherModel {
    WatcherModel {
        table: command_table(model.table, command),
        os_watches: os_watches_after(
            model.os_watches,
            command_path(command),
            command_effect(model.table, command),
        ),
    }
}

/// The state after the worker has processed `commands` in order.
pub open spec fn replay(model: WatcherModel, commands: Seq<FileWatcherCommand>) -> WatcherModel
    decreases commands.len(),
{
    if commands.len() == 0 {
        model
    } else {
        model_step(replay(model, commands.drop_last()), commands.last())
    }
}

/// The number of operating-system watches for `path` that matches the table:
/// one when the path has a subscriber, none otherwise.
pub open spec fn expected_os_watches(table: Map<Seq<char>, Seq<u64>>, path: Seq<char>) -> nat {
    if table_subscribers(table, path).len() > 0 {
        1
    } else {
        0
    }
}

/// The operating-system watches agree with the table on every path.
pub open spec fn model_consistent(model: WatcherModel) -> bool {
    &&& table_wf(model.table)
    &&& forall|p: Seq<char>| #[trigger]
        model.os_watches.count(p) == expected_os_watches(model.table, p)
}

/// One turn of the worker keeps the operating-system watches in agreement
/// with the table.
pub proof fn lemma_step_consistent(model: WatcherModel, command: FileWatcherCommand)
    requires
        model_consistent(model),
    ensures
        model_consistent(model_step(model, command)),
{
    let next = model_step(model, command);
    let path = command_path(command);
    assert forall|p: Seq<char>| #[trigger]
        next.table.dom().contains(p) implies next.table[p].len() > 0 by {
        if p != path {
            assert(model.table.dom().contains(p));
        }
    }
    assert forall|p: Seq<char>| #[trigger]
        next.os_watches.count(p) == expected_os_watches(next.table, p) by {
        assert(model.os_watches.count(p) == expected_os_watches(model.table, p));
        assert(model.os_watches.count(path) == expected_os_watches(model.table, path));
        if model.table.dom().contains(path) {
            assert(model.table[path].len() > 0);
        }
    }
}

/// After any sequence of watch and unwatch commands, starting with nothing
/// watched, the number of operating-system watches for a path is one if the
/// path has at least one subscriber and zero otherwise.
pub proof fn lemma_one_os_watch_per_watched_path(
    commands: Seq<FileWatcherCommand>,
    path: Seq<char>,
)
    ensures
        model_consistent(replay(initial_model(), commands)),
        replay(initial_model(), commands).os_watches.count(path) == (if table_subscribers(
            replay(initial_model(), commands).table,
            path,
        ).len() > 0 {
            1nat
        } else {
            0nat
        }),
    decreases commands.len(),
{
    if commands.len() == 0 {
        assert(model_consistent(initial_model()));
    } else {
        lemma_one_os_watch_per_watched_path(commands.drop_last(), path);
        lemma_step_consistent(replay(initial_model(), commands.drop_last()), commands.last());
    }
    let end = replay(initial_model(), commands);
    assert(end.os_watches.count(path) == expected_os_watches(end.table, path));
}

/// The number of subscribers of a path after a sequence of commands: each
/// watch on the path adds one, each unwatch takes one away while there is
/// one.
pub open spec fn registrations(commands: Seq<FileWatcherCommand>, path: Seq<char>) -> nat
    decreases commands.len(),
{
    if commands.len() == 0 {
        0
    } else {
        let earlier = registrations(commands.drop_last(), path);
        if command_path(commands.last()) != path {
            earlier
        } else {
            match commands.last() {
                FileWatcherCommand::Watch(_, _) => earlier + 1,
                FileWatcherCommand::Unwatch(_) => if earlier > 0 {
                    (earlier - 1) as nat
                } else {
                    0
                },
            }
        }
    }
}

/// The reference count of a path is the number of its watches minus the
/// number of its unwatches, never below zero: unwatch removes exactly one
/// registration, and only of the path it names.
pub proof fn lemma_reference_count(commands: Seq<FileWatcherCommand>, path: Seq<char>)
    ensures
        table_subscribers(replay(initial_model(), commands).table, path).len() == registrations(
            commands,
            path,
        ),
    decreases commands.len(),
{
    if commands.len() > 0 {
        lemma_reference_count(commands.drop_last(), path);
        lemma_one_os_watch_per_watched_path(commands.drop_last(), path);
        let before = replay(initial_model(), commands.drop_last());
        let other = command_path(commands.last());
        if before.table.dom().contains(other) {
            assert(before.table[other].len() > 0);
        }
    }
}

/// Fan-out reaches everyone: when a batch of changes names a path, every
/// subscriber of that path is signalled.
pub proof fn lemma_fan_out_reaches_every_subscriber(
    table: Map<Seq<char>, Seq<u64>>,
    changed: Seq<Seq<char>>,
    path: Seq<char>,
    k: int,
)
    requires
        changed.contains(path),
        0 <= k < table_subscribers(table, path).len(),
    ensures
        fan_out(table, changed).contains(table_subscribers(table, path)[k]),
    decreases changed.len(),
{
    let subscriber = table_subscribers(table, path)[k];
    let earlier = changed.drop_last();
    let w = choose|w: int| 0 <= w < changed.len() && changed[w] == path;
    if w < changed.len() - 1 {
        assert(earlier[w] == path);
        lemma_fan_out_reaches_every_subscriber(table, earlier, path, k);
        let at = choose|at: int|
            0 <= at < fan_out(table, earlier).len() && fan_out(table, earlier)[at] == subscriber;
        assert(fan_out(table, changed)[at] == subscriber);
    } else if earlier.contains(path) {
        lemma_fan_out_reaches_every_subscriber(table, earlier, path, k);
    } else {
        assert(changed.last() == path);
        assert(fan_out(table, changed)[fan_out(table, earlier).len() + k] == subscriber);
    }
}

/// Fan-out reaches no one else: whoever is signalled for a batch of changes
/// subscribes to a path that the batch names.
pub proof fn lemma_fan_out_reaches_only_subscribers(
    table: Map<Seq<char>, Seq<u64>>,
    changed: Seq<Seq<char>>,
    at: int,
)
    requires
        0 <= at < fan_out(table, changed).len(),
    ensures
        exists|path: Seq<char>|
            changed.contains(path) && #[trigger] table_subscribers(table, path).contains(
                fan_out(table, changed)[at],
            ),
    decreases changed.len(),
{
    let earlier = changed.drop_last();
    let last = changed.last();
    assert(changed[changed.len() - 1] == last);
    if at < fan_out(table, earlier).len() {
        lemma_fan_out_reaches_only_subscribers(table, earlier, at);
        let path = choose|path: Seq<char>|
            earlier.contains(path) && #[trigger] table_subscribers(table, path).contains(
                fan_out(table, earlier)[at],
            );
        let w = choose|w: int| 0 <= w < earlier.len() && earlier[w] == path;
        assert(changed[w] == path);
        assert(fan_out(table, changed)[at] == fan_out(table, earlier)[at]);
        assert(changed.contains(path) && table_subscribers(table, path).contains(
            fan_out(table, changed)[at],
        ));
    } else {
        let k = at - fan_out(table, earlier).len();
        assert(table_subscribers(table, last)[k] == fan_out(table, changed)[at]);
        assert(changed.contains(last) && table_subscribers(table, last).contains(
            fan_out(table, changed)[at],
        ));
    }
}

/// A withdrawal takes the oldest registration of its path and nothing else:
/// the later registrations of the path stay, in their order, and no other
/// path is touched.
pub proof fn lemma_unwatch_withdraws_the_oldest(
    table: Map<Seq<char>, Seq<u64>>,
    path: Seq<char>,
    other: Seq<char>,
)
    ensures
        table_subscribers(table_unwatch(table, path), path) == (if table_subscribers(
            table,
            path,
        ).len() == 0 {
            Seq::<u64>::empty()
        } else {
            table_subscribers(table, path).drop_first()
        }),
        other != path ==> table_subscribers(table_unwatch(table, path), other)
            == table_subscribers(table, other),
{
    let before = table_subscribers(table, path);
    if before.len() == 1 {
        assert(before.drop_first() =~= Seq::<u64>::empty());
    }
}

/// Whoever registered for a path behind the one that withdraws is still
/// subscribed afterwards, and is signalled when the path changes.
pub proof fn lemma_later_subscribers_stay(
    table: Map<Seq<char>, Seq<u64>>,
    path: Seq<char>,
    k: int,
    changed: Seq<Seq<char>>,
)
    requires
        1 <= k < table_subscribers(table, path).len(),
        changed.contains(path),
    ensures
        table_subscribers(table_unwatch(table, path), path).contains(
            table_subscribers(table, path)[k],
        ),
        fan_out(table_unwatch(table, path), changed).contains(table_subscribers(table, path)[k]),
{
    let before = table_subscribers(table, path);
    let after = table_subscribers(table_unwatch(table, path), path);
    assert(after == before.drop_first());
    assert(after[k - 1] == before[k]);
    lemma_fan_out_reaches_every_subscriber(table_unwatch(table, path), changed, path, k - 1);
}

} // verus!
