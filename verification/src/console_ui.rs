//! The console display of one session: which tasks it shows, in which
//! lanes, and under which identifier it takes the logger's interactive
//! output while it runs. At most one session runs at a time.

use indexmap::IndexMap;
use vstd::prelude::*;
use vstd::string::StringExecFns;

use crate::lanes::{
    keys_of, labels_kept, labels_new, lane_entries, lanes_new, lanes_snapshot, lemma_refreshed,
    lemma_refreshed_keeps_lanes, refresh, refreshed, stands_before, times_of,
};
use crate::logger::{texts, PantsLogger};
use crate::order::position;
use crate::text::{decimal, decimal_string, names_of, table_of, two_digit_string, two_digits};

verus! {

/// A duration in hundredths of a second, to the nearest; halves go up.
pub open spec fn hundredths(millis: u128) -> nat {
    ((millis + 5) / 10) as nat
}

/// A duration in seconds, with two decimal places.
pub open spec fn seconds_text(millis: u128) -> Seq<char> {
    decimal(hundredths(millis) / 100) + seq!['.'] + two_digits(hundredths(millis) % 100)
}

/// The message of a lane: a waiting task's label after `(Waiting) `, a
/// running task's after the seconds it has run and `s `.
pub open spec fn label_text(label: Seq<char>, duration: Option<u128>) -> Seq<char> {
    match duration {
        None => "(Waiting) "@ + label,
        Some(millis) => seconds_text(millis) + "s "@ + label,
    }
}

/// The messages of a list of tasks, one for one.
pub open spec fn labels_of(tasks: Seq<(Seq<char>, Option<u128>)>) -> Seq<Seq<char>> {
    tasks.map_values(|task: (Seq<char>, Option<u128>)| label_text(task.0, task.1))
}

/// One change to the lanes on screen, as plain values.
pub enum LaneChange {
    /// The lane at this place shows this message from now on.
    Message(int, Seq<char>),
    /// A new lane under the others shows this message.
    Create(Seq<char>),
    /// The lane at this place leaves the screen.
    Remove(int),
}

/// One change to the lanes on screen.
#[derive(Debug, PartialEq, Eq)]
pub enum SwimlaneUpdate {
    SetMessage { lane: usize, message: String },
    Create { message: String },
    Remove { lane: usize },
}

impl View for SwimlaneUpdate {
    type V = LaneChange;

    open spec fn view(&self) -> LaneChange {
        match self {
            SwimlaneUpdate::SetMessage { lane, message } => LaneChange::Message(
                *lane as int,
                message@,
            ),
            SwimlaneUpdate::Create { message } => LaneChange::Create(message@),
            SwimlaneUpdate::Remove { lane } => LaneChange::Remove(*lane as int),
        }
    }
}

/// The changes that bring `lanes` lanes to show `labels`: each label goes
/// to the lane of its place, a label past the last lane gets a new lane,
/// and the lanes past the last label leave, the last one first.
pub open spec fn lane_changes(lanes: nat, labels: Seq<Seq<char>>) -> Seq<LaneChange> {
    Seq::new(
        labels.len(),
        |n: int|
            if n < lanes {
                LaneChange::Message(n, labels[n])
            } else {
                LaneChange::Create(labels[n])
            },
    ) + Seq::new(
        if lanes > labels.len() {
            (lanes - labels.len()) as nat
        } else {
            0
        },
        |j: int| LaneChange::Remove(lanes - 1 - j),
    )
}

/// The messages on screen after one change.
pub open spec fn changed(bars: Seq<Seq<char>>, change: LaneChange) -> Seq<Seq<char>> {
    match change {
        LaneChange::Message(lane, message) => bars.update(lane, message),
        LaneChange::Create(message) => bars.push(message),
        LaneChange::Remove(lane) => bars.remove(lane),
    }
}

/// The messages on screen after a list of changes, in order.
pub open spec fn changed_by(bars: Seq<Seq<char>>, changes: Seq<LaneChange>) -> Seq<Seq<char>>
    decreases changes.len(),
{
    if changes.len() == 0 {
        bars
    } else {
        changed(changed_by(bars, changes.drop_last()), changes.last())
    }
}

/// The views of a list of updates.
pub open spec fn changes_of(updates: Seq<SwimlaneUpdate>) -> Seq<LaneChange> {
    updates.map_values(|update: SwimlaneUpdate| update@)
}

/// What a running session holds.
pub struct Session {
    /// The tasks on display, in the order of their lanes.
    pub tasks: Seq<(Seq<char>, Option<u128>)>,
    /// The message of each lane on screen, the first lane first.
    pub bars: Seq<Seq<char>>,
    /// The identifier under which the session's handler is registered with
    /// the logger.
    pub logger_handle: u128,
}

/// What can come in to a render loop between two refreshes.
pub enum ConsoleMessage<R> {
    /// The results are there: the loop ends.
    FinalResult(Vec<R>),
    /// Text for standard output.
    Stdout(String),
    /// Text for standard error.
    Stderr(String),
}

/// What a render loop does about a message, or about none.
pub enum LoopStep<R> {
    /// Nothing came within the refresh interval: refresh and draw again.
    Continue,
    /// Hide the lanes and print the text to standard output.
    HideAndPrint(String),
    /// Print the text above the lanes.
    PrintAbove(String),
    /// Clear the lanes and hand the results back.
    Finish(Vec<R>),
}

/// The state of one run of the display.
struct Instance {
    tasks_to_display: IndexMap<String, Option<u128>>,
    bars: Vec<String>,
    logger_handle: u128,
}

/// The display: idle, or running one session.
pub struct ConsoleUI {
    // While the display runs, there is an instance.
    instance: Option<Instance>,
}

/// Where text for standard error goes.
#[derive(Clone, Copy, Debug, PartialEq, Eq, Structural)]
pub enum StderrRoute {
    /// Above the lanes, printed through the first of them.
    AboveSwimlanes,
    /// Straight to standard error.
    Direct,
}

impl View for ConsoleUI {
    type V = Option<Session>;

    closed spec fn view(&self) -> Option<Session> {
        match self.instance {
            None => None,
            Some(instance) => Some(
                Session {
                    tasks: lane_entries(instance.tasks_to_display),
                    bars: texts(instance.bars@),
                    logger_handle: instance.logger_handle,
                },
            ),
        }
    }
}

/// A duration in seconds, with two decimal places.
pub fn seconds_string(millis: u128) -> (text: String)
    ensures
        text@ == seconds_text(millis),
{
    let rounded: u128 = millis / 10 + if millis % 10 >= 5 {
        1
    } else {
        0
    };
    let mut text = decimal_string(rounded / 100);
    text.append(".");
    let fraction = two_digit_string((rounded % 100) as u32);
    text.append(fraction.as_str());
    proof {
        reveal_strlit(".");
    }
    text
}

/// The message of one lane.
pub fn swimlane_label(label: &str, duration: Option<u128>) -> (message: String)
    ensures
        message@ == label_text(label@, duration),
{
    match duration {
        None => {
            let mut message = String::from_str("(Waiting) ");
            message.append(label);
            message
        },
        Some(millis) => {
            let mut message = seconds_string(millis);
            message.append("s ");
            message.append(label);
            message
        },
    }
}

/// The changes that bring `lanes` lanes to show `labels`.
pub fn swimlane_updates(lanes: usize, labels: &Vec<String>) -> (updates: Vec<SwimlaneUpdate>)
    ensures
        changes_of(updates@) == lane_changes(lanes as nat, texts(labels@)),
{
    let mut updates: Vec<SwimlaneUpdate> = Vec::new();
    let mut n: usize = 0;
    while n < labels.len()
        invariant
            n <= labels.len(),
            updates@.len() == n,
            forall|i: int|
                0 <= i < n ==> (#[trigger] updates@[i])@ == lane_changes(
                    lanes as nat,
                    texts(labels@),
                )[i],
        decreases labels.len() - n,
    {
        if n < lanes {
            updates.push(SwimlaneUpdate::SetMessage { lane: n, message: labels[n].clone() });
        } else {
            updates.push(SwimlaneUpdate::Create { message: labels[n].clone() });
        }
        n += 1;
    }
    let mut lane: usize = lanes;
    while lane > labels.len()
        invariant
            labels.len() <= lane || lanes <= labels.len(),
            lane <= lanes,
            lanes > labels.len() ==> updates@.len() == labels.len() + (lanes - lane),
            lanes <= labels.len() ==> updates@.len() == labels.len() && lane == lanes,
            forall|i: int|
                0 <= i < updates@.len() ==> (#[trigger] updates@[i])@ == lane_changes(
                    lanes as nat,
                    texts(labels@),
                )[i],
        decreases lane,
    {
        lane -= 1;
        updates.push(SwimlaneUpdate::Remove { lane });
    }
    updates
}

/// The changes for `labels` bring any lanes to show exactly `labels`.
pub proof fn lemma_lane_changes(bars: Seq<Seq<char>>, labels: Seq<Seq<char>>)
    ensures
        changed_by(bars, lane_changes(bars.len(), labels)) == labels,
{
    let changes = lane_changes(bars.len(), labels);
    lemma_changes_prefix(bars, labels, changes.len() as int);
    assert(changes.take(changes.len() as int) =~= changes);
}

/// The messages on screen after the first `done` of the changes for
/// `labels`: the labels placed so far, then what is left of the old lanes.
proof fn lemma_changes_prefix(bars: Seq<Seq<char>>, labels: Seq<Seq<char>>, done: int)
    requires
        0 <= done <= lane_changes(bars.len(), labels).len(),
    ensures
        done <= labels.len() ==> changed_by(bars, lane_changes(bars.len(), labels).take(done))
            == labels.take(done) + (if done < bars.len() {
            bars.subrange(done, bars.len() as int)
        } else {
            Seq::empty()
        }),
        done > labels.len() ==> changed_by(bars, lane_changes(bars.len(), labels).take(done))
            == labels + bars.subrange(labels.len() as int, bars.len() - (done - labels.len())),
    decreases done,
{
    let changes = lane_changes(bars.len(), labels);
    if done > 0 {
        lemma_changes_prefix(bars, labels, done - 1);
        assert(changes.take(done).drop_last() =~= changes.take(done - 1));
    }
}

impl ConsoleUI {
    /// No task is on display twice.
    pub open spec fn wf(&self) -> bool {
        self@ matches Some(session) ==> keys_of(session.tasks).no_duplicates()
    }

    /// A display that does not run.
    pub fn new() -> (ui: ConsoleUI)
        ensures
            ui@ is None,
            ui.wf(),
    {
        ConsoleUI { instance: None }
    }

    /// How many tasks the display asks the engine for, and so how many
    /// lanes it shows at most.
    pub fn max_displayed_swimlanes() -> (lanes: usize)
        ensures
            lanes == 8,
    {
        8
    }

    /// How often in a second `render` is to be called.
    pub fn render_rate_hz() -> (rate: u64)
        ensures
            rate == 10,
    {
        10
    }

    /// The milliseconds between two calls of `render`.
    pub fn render_interval() -> (millis: u64)
        ensures
            millis == 100,
    {
        1000 / Self::render_rate_hz()
    }

    /// How often in a second the lanes are drawn: twice as often as they
    /// get new data, so that a drawing seldom just misses a refresh.
    pub fn draw_rate_hz() -> (rate: u64)
        ensures
            rate == 20,
    {
        Self::render_rate_hz() * 2
    }

    /// Whether a session runs.
    pub fn is_running(&self) -> (running: bool)
        ensures
            running == self@ is Some,
    {
        self.instance.is_some()
    }

    /// The tasks on display, in the order of their lanes; none while no
    /// session runs.
    pub fn tasks(&self) -> (tasks: Vec<(String, Option<u128>)>)
        ensures
            match self@ {
                Some(session) => names_of(tasks@) == session.tasks,
                None => tasks@.len() == 0,
            },
    {
        match &self.instance {
            Some(instance) => lanes_snapshot(&instance.tasks_to_display),
            None => Vec::new(),
        }
    }

    /// The message of each lane on screen, the first lane first; none
    /// while no session runs.
    pub fn bars(&self) -> (bars: Vec<String>)
        ensures
            match self@ {
                Some(session) => texts(bars@) == session.bars,
                None => bars@.len() == 0,
            },
    {
        match &self.instance {
            Some(instance) => instance.bars.clone(),
            None => Vec::new(),
        }
    }

    /// The identifier under which the running session's handler is
    /// registered with the logger.
    pub fn logger_handle(&self) -> (handle: Option<u128>)
        ensures
            match self@ {
                Some(session) => handle == Some(session.logger_handle),
                None => handle is None,
            },
    {
        match &self.instance {
            Some(instance) => Some(instance.logger_handle),
            None => None,
        }
    }

    /// The message of each task, in the order of the tasks.
    pub fn get_label_from_heavy_hitters(tasks_to_display: &Vec<(String, Option<u128>)>) -> (labels:
        Vec<String>)
        ensures
            texts(labels@) == labels_of(names_of(tasks_to_display@)),
    {
        let mut labels: Vec<String> = Vec::new();
        let mut i: usize = 0;
        while i < tasks_to_display.len()
            invariant
                i <= tasks_to_display.len(),
                labels@.len() == i,
                forall|j: int|
                    0 <= j < i ==> (#[trigger] labels@[j])@ == labels_of(
                        names_of(tasks_to_display@),
                    )[j],
            decreases tasks_to_display.len() - i,
        {
            let label = swimlane_label(tasks_to_display[i].0.as_str(), tasks_to_display[i].1);
            labels.push(label);
            i += 1;
        }
        labels
    }

    /// The message of each of `num_swimlanes` lanes that are always on
    /// screen: the label of its place, or nothing where the labels have
    /// run out.
    pub fn lane_messages(labels: &Vec<String>, num_swimlanes: usize) -> (messages: Vec<String>)
        ensures
            messages@.len() == num_swimlanes,
            forall|n: int|
                0 <= n < num_swimlanes ==> (#[trigger] messages@[n])@ == (if n < labels@.len() {
                    labels@[n]@
                } else {
                    Seq::<char>::empty()
                }),
    {
        let mut messages: Vec<String> = Vec::new();
        let mut n: usize = 0;
        while n < num_swimlanes
            invariant
                n <= num_swimlanes,
                messages@.len() == n,
                forall|k: int|
                    0 <= k < n ==> (#[trigger] messages@[k])@ == (if k < labels@.len() {
                        labels@[k]@
                    } else {
                        Seq::<char>::empty()
                    }),
            decreases num_swimlanes - n,
        {
            if n < labels.len() {
                messages.push(labels[n].clone());
            } else {
                messages.push(String::new());
            }
            n += 1;
        }
        messages
    }

    /// Brings the lanes up to date with `heavy_hitters`, the engine's
    /// report of its busiest work, and tells what has to change on screen.
    /// Without a running session nothing happens.
    ///
    /// The tasks on display are refreshed: afterwards they are the reported
    /// tasks, each once and with the time last reported for it. Those that
    /// stayed stand first, in the order in which they stood, and the new
    /// ones follow in the order in which the report first has them. None
    /// that stayed stands in a later lane than before, and while every
    /// task on display is reported, each stays in its lane. Each lane then
    /// shows the message of the task of its place.
    pub fn render(&mut self, heavy_hitters: &Vec<(String, Option<u128>)>) -> (updates: Vec<
        SwimlaneUpdate,
    >)
        requires
            old(self).wf(),
        ensures
            final(self).wf(),
            match old(self)@ {
                None => final(self)@ is None && updates@.len() == 0,
                Some(before) => final(self)@ matches Some(after) && {
                    &&& after.tasks == refreshed(before.tasks, names_of(heavy_hitters@))
                    &&& times_of(after.tasks) == table_of(names_of(heavy_hitters@))
                    &&& forall|label: Seq<char>|
                        keys_of(after.tasks).contains(label) <==> keys_of(
                            names_of(heavy_hitters@),
                        ).contains(label)
                    &&& keys_of(after.tasks) == labels_kept(
                        keys_of(before.tasks),
                        keys_of(names_of(heavy_hitters@)),
                    ) + labels_new(keys_of(before.tasks), keys_of(names_of(heavy_hitters@)))
                    &&& after.tasks.len() <= heavy_hitters@.len()
                    &&& after.bars == labels_of(after.tasks)
                    &&& after.logger_handle == before.logger_handle
                    &&& changes_of(updates@) == lane_changes(before.bars.len(), after.bars)
                    &&& changed_by(before.bars, changes_of(updates@)) == after.bars
                    &&& forall|a: Seq<char>, b: Seq<char>|
                        #![trigger position(keys_of(after.tasks), a), position(keys_of(after.tasks), b)]
                        keys_of(names_of(heavy_hitters@)).contains(a) && keys_of(
                            names_of(heavy_hitters@),
                        ).contains(b) && stands_before(
                            keys_of(before.tasks),
                            keys_of(names_of(heavy_hitters@)),
                            a,
                            b,
                        ) ==> position(keys_of(after.tasks), a) < position(keys_of(after.tasks), b)
                    &&& forall|label: Seq<char>| #[trigger]
                        keys_of(before.tasks).contains(label) && keys_of(after.tasks).contains(
                            label,
                        ) ==> position(keys_of(after.tasks), label) <= position(
                            keys_of(before.tasks),
                            label,
                        )
                    &&& (forall|label: Seq<char>|
                        keys_of(before.tasks).contains(label) ==> keys_of(
                            names_of(heavy_hitters@),
                        ).contains(label)) ==> forall|lane: int|
                        0 <= lane < before.tasks.len() ==> (#[trigger] after.tasks[lane]).0
                            == before.tasks[lane].0
                },
            },
    {
        let mut instance = match self.instance.take() {
            Some(instance) => instance,
            None => {
                return Vec::new();
            },
        };
        proof {
            let before = old(self)@.unwrap().tasks;
            let poll = names_of(heavy_hitters@);
            lemma_refreshed(before, poll);
            if forall|label: Seq<char>|
                keys_of(before).contains(label) ==> keys_of(poll).contains(label) {
                lemma_refreshed_keeps_lanes(before, poll);
            }
        }
        refresh(&mut instance.tasks_to_display, heavy_hitters);
        let tasks = lanes_snapshot(&instance.tasks_to_display);
        let swimlane_labels = Self::get_label_from_heavy_hitters(&tasks);
        let updates = swimlane_updates(instance.bars.len(), &swimlane_labels);
        proof {
            lemma_lane_changes(texts(instance.bars@), texts(swimlane_labels@));
        }
        instance.bars = swimlane_labels;
        self.instance = Some(instance);
        updates
    }

    /// Starts a session, unless one runs: registers `stderr_handler` with
    /// the logger and begins with no task and no lane.
    ///
    /// Where a session runs already, that is an error, and neither the
    /// session nor the logger changes.
    pub fn initialize<H: Fn(&str) -> Result<(), ()>>(
        &mut self,
        logger: &mut PantsLogger<H>,
        stderr_handler: H,
    ) -> (r: Result<(), String>)
        requires
            old(self).wf(),
            old(logger).wf(),
            forall|line: &str| call_requires(stderr_handler, (line,)),
        ensures
            final(self).wf(),
            final(logger).wf(),
            final(logger).same_settings(old(logger)),
            match r {
                Ok(_) => final(self)@ matches Some(session) && {
                    &&& old(self)@ is None
                    &&& session.tasks.len() == 0
                    &&& session.bars.len() == 0
                    &&& (final(self)@, true) == after_initialize(
                        old(self)@,
                        session.logger_handle,
                    )
                    &&& old(logger)@.stderr_handlers.with_handler(
                        &final(logger)@.stderr_handlers,
                        session.logger_handle,
                        stderr_handler,
                    )
                },
                Err(message) => {
                    &&& old(self)@ is Some
                    &&& final(self)@ == old(self)@
                    &&& forall|handle: u128|
                        (final(self)@, false) == #[trigger] after_initialize(old(self)@, handle)
                    &&& final(logger)@.stderr_handlers == old(logger)@.stderr_handlers
                    &&& message@ == "A ConsoleUI cannot render multiple UIs concurrently."@
                },
            },
    {
        if self.instance.is_some() {
            return Err(String::from_str("A ConsoleUI cannot render multiple UIs concurrently."));
        }
        let logger_handle = logger.register_stderr_handler(stderr_handler);
        let bars: Vec<String> = Vec::new();
        assert(texts(bars@) =~= Seq::<Seq<char>>::empty());
        self.instance = Some(Instance { tasks_to_display: lanes_new(), logger_handle, bars });
        Ok(())
    }

    /// Ends the session, if one runs: its handler leaves the logger and
    /// its tasks and lanes are dropped. It tells whether a session ran, so
    /// that the caller knows whether there is a drawing task to wait for.
    /// Without a session nothing changes.
    pub fn teardown<H: Fn(&str) -> Result<(), ()>>(&mut self, logger: &mut PantsLogger<H>) -> (ran:
        bool)
        requires
            old(logger).wf(),
        ensures
            final(self)@ is None,
            final(self).wf(),
            final(logger).wf(),
            final(logger).same_settings(old(logger)),
            ran == old(self)@ is Some,
            match old(self)@ {
                Some(session) => old(logger)@.stderr_handlers.without_handler(
                    &final(logger)@.stderr_handlers,
                    session.logger_handle,
                ),
                None => final(logger)@.stderr_handlers == old(logger)@.stderr_handlers,
            },
    {
        match self.instance.take() {
            Some(instance) => {
                logger.deregister_stderr_handler(instance.logger_handle);
                true
            },
            None => false,
        }
    }

    /// What `teardown` reports once the drawing task has ended: the task's
    /// failure, if it failed, as a failure to render.
    pub fn teardown_result(drawn: Result<(), String>) -> (r: Result<(), String>)
        ensures
            match drawn {
                Ok(_) => r is Ok,
                Err(cause) => r matches Err(message) && message@ == "Failed to render UI: "@
                    + cause@,
            },
    {
        match drawn {
            Ok(_) => Ok(()),
            Err(cause) => {
                let mut message = String::from_str("Failed to render UI: ");
                message.append(cause.as_str());
                Err(message)
            },
        }
    }

    /// Makes way for text on standard output: a running session ends
    /// first, as `teardown` ends it.
    pub fn write_stdout<H: Fn(&str) -> Result<(), ()>>(
        &mut self,
        logger: &mut PantsLogger<H>,
    ) -> (ran: bool)
        requires
            old(logger).wf(),
        ensures
            final(self)@ is None,
            final(self).wf(),
            final(logger).wf(),
            final(logger).same_settings(old(logger)),
            ran == old(self)@ is Some,
            match old(self)@ {
                Some(session) => old(logger)@.stderr_handlers.without_handler(
                    &final(logger)@.stderr_handlers,
                    session.logger_handle,
                ),
                None => final(logger)@.stderr_handlers == old(logger)@.stderr_handlers,
            },
    {
        if self.instance.is_some() {
            self.teardown(logger)
        } else {
            false
        }
    }

    /// Where text for standard error goes: above the lanes while a session
    /// shows any, else straight to standard error.
    pub fn write_stderr(&self) -> (route: StderrRoute)
        ensures
            route == (if self@ matches Some(session) && session.bars.len() > 0 {
                StderrRoute::AboveSwimlanes
            } else {
                StderrRoute::Direct
            }),
    {
        match &self.instance {
            Some(instance) => {
                if instance.bars.len() > 0 {
                    StderrRoute::AboveSwimlanes
                } else {
                    StderrRoute::Direct
                }
            },
            None => StderrRoute::Direct,
        }
    }

    /// Runs `f` with the display out of the way: a running session ends
    /// first, as `teardown` ends it.
    pub fn with_console_ui_disabled<H: Fn(&str) -> Result<(), ()>, F: FnOnce() -> T, T>(
        &mut self,
        logger: &mut PantsLogger<H>,
        f: F,
    ) -> (result: T)
        requires
            old(logger).wf(),
            f.requires(()),
        ensures
            f.ensures((), result),
            final(self)@ is None,
            final(self).wf(),
            final(logger).wf(),
            final(logger).same_settings(old(logger)),
            match old(self)@ {
                Some(session) => old(logger)@.stderr_handlers.without_handler(
                    &final(logger)@.stderr_handlers,
                    session.logger_handle,
                ),
                None => final(logger)@.stderr_handlers == old(logger)@.stderr_handlers,
            },
    {
        if self.instance.is_some() {
            self.teardown(logger);
            f()
        } else {
            f()
        }
    }

    /// One turn of a render loop, after the lanes were refreshed: what to
    /// do about the message that came within the refresh interval, or
    /// about none. Only the results end the loop.
    pub fn render_loop<R>(message: Option<ConsoleMessage<R>>) -> (step: LoopStep<R>)
        ensures
            step == (match message {
                None => LoopStep::Continue,
                Some(ConsoleMessage::FinalResult(results)) => LoopStep::Finish(results),
                Some(ConsoleMessage::Stdout(text)) => LoopStep::HideAndPrint(text),
                Some(ConsoleMessage::Stderr(text)) => LoopStep::PrintAbove(text),
            }),
    {
        match message {
            Some(ConsoleMessage::FinalResult(results)) => LoopStep::Finish(results),
            Some(ConsoleMessage::Stdout(text)) => LoopStep::HideAndPrint(text),
            Some(ConsoleMessage::Stderr(text)) => LoopStep::PrintAbove(text),
            None => LoopStep::Continue,
        }
    }
}

/// What a display holds after `initialize`, and whether the call succeeded:
/// a display that runs stays as it is, and the call fails.
pub open spec fn after_initialize(ui: Option<Session>, logger_handle: u128) -> (
    Option<Session>,
    bool,
) {
    match ui {
        Some(_) => (ui, false),
        None => (Some(Session { tasks: Seq::empty(), bars: Seq::empty(), logger_handle }), true),
    }
}

/// A second `initialize` without a `teardown` in between fails, whatever
/// the first one did, and leaves the session as the first one left it.
pub proof fn lemma_second_initialize_fails(ui: Option<Session>, first: u128, second: u128)
    ensures
        after_initialize(after_initialize(ui, first).0, second) == (
            after_initialize(ui, first).0,
            false,
        ),
{
}

} // verus!
