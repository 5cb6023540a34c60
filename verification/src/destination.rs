//! Where a record goes: to the person at the terminal or to the daemon's
//! log file. Each thread has a destination of its own; a task carries the
//! one it was spawned with, which then wins over its thread's.

use vstd::prelude::*;
use vstd::string::StringExecFns;
use crate::text::{debug_string, debug_text, same_text};

verus! {

/// The sink that a record is for.
#[derive(Copy, Clone, Debug, PartialEq, Eq, Structural)]
pub enum Destination {
    /// The daemon's log file.
    Pantsd,
    /// The terminal of an interactive run.
    Stderr,
}

impl Destination {
    /// The destination that a name stands for.
    pub open spec fn named(dest: Seq<char>) -> Option<Destination> {
        if dest == "pantsd"@ {
            Some(Destination::Pantsd)
        } else if dest == "stderr"@ {
            Some(Destination::Stderr)
        } else {
            None
        }
    }

    /// Reads a destination's name. Any other text is refused, and the
    /// message quotes it.
    pub fn try_from(dest: &str) -> (r: Result<Destination, String>)
        ensures
            match r {
                Ok(d) => Self::named(dest@) == Some(d),
                Err(msg) => Self::named(dest@) is None && msg@ == "Unknown log destination: "@
                    + debug_text(dest@),
            },
    {
        if same_text(dest, "pantsd") {
            Ok(Destination::Pantsd)
        } else if same_text(dest, "stderr") {
            Ok(Destination::Stderr)
        } else {
            let mut msg = String::from_str("Unknown log destination: ");
            let quoted = debug_string(dest);
            msg.append(quoted.as_str());
            Err(msg)
        }
    }
}

/// What one point of execution knows of its destination: its thread's, and
/// its task's where it runs inside a task's scope.
#[derive(Copy, Clone, Debug, PartialEq, Eq, Structural)]
pub struct DestinationContext {
    pub thread: Destination,
    pub task: Option<Destination>,
}

impl DestinationContext {
    /// The destination in force: the task's if there is one, else the
    /// thread's.
    pub open spec fn resolve(self) -> Destination {
        match self.task {
            Some(destination) => destination,
            None => self.thread,
        }
    }

    /// This context after its thread's destination was set.
    pub open spec fn with_thread(self, destination: Destination) -> DestinationContext {
        DestinationContext { thread: destination, task: self.task }
    }

    /// The context of work that runs in a task scoped to `destination`.
    pub open spec fn scoped(self, destination: Destination) -> DestinationContext {
        DestinationContext { thread: self.thread, task: Some(destination) }
    }

    /// A thread that has set nothing yet, outside any task.
    pub fn new() -> (ctx: DestinationContext)
        ensures
            ctx.thread == Destination::Stderr,
            ctx.task is None,
            ctx.resolve() == Destination::Stderr,
    {
        DestinationContext { thread: Destination::Stderr, task: None }
    }
}

/// Sets the destination of the thread. A task keeps the one it has.
pub fn set_thread_destination(ctx: &mut DestinationContext, destination: Destination)
    ensures
        *final(ctx) == old(ctx).with_thread(destination),
{
    ctx.thread = destination;
}

/// The context in which a task spawned with `destination` does its work,
/// nested work included. The spawner's own context stays as it is.
pub fn scope_task_destination(ctx: &DestinationContext, destination: Destination) -> (inner:
    DestinationContext)
    ensures
        inner == ctx.scoped(destination),
{
    DestinationContext { thread: ctx.thread, task: Some(destination) }
}

/// The destination in force at this point of execution.
pub fn get_destination(ctx: &DestinationContext) -> (destination: Destination)
    ensures
        destination == ctx.resolve(),
{
    match ctx.task {
        Some(destination) => destination,
        None => ctx.thread,
    }
}

/// Outside any task the thread's destination is in force. Inside a task's
/// scope the task's is, whatever the thread's is or becomes. Scoping a task
/// changes nothing for the thread.
pub proof fn lemma_task_scope_shadows_thread(
    ctx: DestinationContext,
    thread: Destination,
    task: Destination,
    later: Destination,
)
    requires
        ctx.task is None,
    ensures
        ctx.with_thread(thread).resolve() == thread,
        ctx.with_thread(thread).scoped(task).resolve() == task,
        ctx.with_thread(thread).scoped(task).with_thread(later).resolve() == task,
        ctx.with_thread(thread).scoped(task).thread == thread,
{
}

} // verus!
