//! The channel guard, seen from the whole process.
//!
//! A process has one channel and one guard around it.  Its tasks (publishes,
//! a bootstrap, a consumer loop) run interleaved, each a machine that asks
//! for the guard before it writes to the channel and gives it back
//! afterwards.  The guard answers an `Acquire` only while no task holds it.
//! What follows is proved here: at every moment at most one task holds the
//! guard, and every command that writes to the channel comes from that task.

use vstd::prelude::*;
use crate::bootstrap::BootstrapView;
use crate::consumer::ConsumerLoopView;
use crate::protocol::{CommandView, ReplyView};
use crate::publisher::PublisherView;

verus! {

/// A task of the process.
pub enum TaskView {
    Bootstrap(BootstrapView),
    Publisher(PublisherView),
    Consumer(ConsumerLoopView),
}

impl TaskView {
    /// The command the task has outstanding.
    pub open spec fn command(self) -> CommandView {
        match self {
            TaskView::Bootstrap(machine) => machine.command(),
            TaskView::Publisher(machine) => machine.command(),
            TaskView::Consumer(machine) => machine.command(),
        }
    }

    /// The task after the reply to its outstanding command.
    pub open spec fn advance(self, reply: ReplyView) -> TaskView {
        match self {
            TaskView::Bootstrap(machine) => TaskView::Bootstrap(machine.advance(reply)),
            TaskView::Publisher(machine) => TaskView::Publisher(machine.advance(reply)),
            TaskView::Consumer(machine) => TaskView::Consumer(machine.advance(reply)),
        }
    }

    /// Whether the task holds the guard while its command is outstanding.
    pub open spec fn holds_guard(self) -> bool {
        match self {
            TaskView::Bootstrap(machine) => machine.phase.holds_guard(),
            TaskView::Publisher(machine) => machine.phase.holds_guard(),
            TaskView::Consumer(machine) => machine.phase.holds_guard(),
        }
    }
}

/// The tasks of a process and the state of its guard.
pub struct ProcessView {
    pub tasks: Seq<TaskView>,
    /// The task that holds the guard, if any.
    pub holder: Option<int>,
}

impl ProcessView {
    /// Whether task `i` can get `reply` now.  The guard lets an `Acquire`
    /// through only while it is free; a task whose `Acquire` cannot go
    /// through waits.  Every other command is answered whenever its task
    /// runs.
    pub open spec fn can_step(self, i: int, reply: ReplyView) -> bool {
        &&& 0 <= i < self.tasks.len()
        &&& self.tasks[i].command() is Acquire && reply is Done ==> self.holder is None
    }

    /// The process after task `i` got `reply`: the guard goes to the task
    /// whose `Acquire` went through and is free again after a `Release`.
    pub open spec fn step(self, i: int, reply: ReplyView) -> ProcessView {
        let command = self.tasks[i].command();
        ProcessView {
            tasks: self.tasks.update(i, self.tasks[i].advance(reply)),
            holder: if command is Acquire && reply is Done {
                Some(i)
            } else if command is Release {
                None
            } else {
                self.holder
            },
        }
    }

    /// The guard is held by exactly the task that believes it holds it.
    pub open spec fn exclusive(self) -> bool {
        forall|i: int|
            0 <= i < self.tasks.len() ==> ((#[trigger] self.tasks[i]).holds_guard() <==> self.holder
                == Some(i))
    }
}

/// A process whose tasks have not begun and whose guard is free is in good
/// order.
pub proof fn lemma_fresh_process_is_exclusive(process: ProcessView)
    requires
        process.holder is None,
        forall|i: int|
            0 <= i < process.tasks.len() ==> !(#[trigger] process.tasks[i]).holds_guard(),
    ensures
        process.exclusive(),
{
}

/// Whatever task runs next and whatever it is answered, the process stays
/// in good order.
pub proof fn lemma_steps_keep_the_guard_exclusive(process: ProcessView, i: int, reply: ReplyView)
    requires
        process.exclusive(),
        process.can_step(i, reply),
    ensures
        process.step(i, reply).exclusive(),
{
}

/// In a process in good order no two tasks hold the guard, and a command
/// that writes to the channel comes from the task that holds it: no other
/// task has such a command outstanding.
pub proof fn lemma_one_task_writes_at_a_time(process: ProcessView, i: int, j: int)
    requires
        process.exclusive(),
        0 <= i < process.tasks.len(),
        0 <= j < process.tasks.len(),
        i != j,
    ensures
        !(process.tasks[i].holds_guard() && process.tasks[j].holds_guard()),
        !(process.tasks[i].command().uses_channel() && process.tasks[j].command().uses_channel()),
        process.tasks[i].command().uses_channel() ==> process.holder == Some(i),
{
}

/// A task that has finished does not hold the guard, so no task is kept
/// waiting by one that is over.
pub proof fn lemma_finished_tasks_hold_nothing(task: TaskView)
    requires
        task.command() is Stop,
    ensures
        !task.holds_guard(),
{
}

} // verus!
