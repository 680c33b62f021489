//! Whether the queue is working: one stored switch.

use vstd::prelude::*;

use crate::text::same;

verus! {

/// The settings key that holds the switch.
pub const QUEUE_STATE: &'static str = "queue_state";

/// Whether the queue starts new runs.
#[derive(Debug, Clone, Copy, PartialEq, Eq, Hash, Structural)]
pub enum QueueState {
    /// Working the ready column from the top.
    Running,
    /// Starting nothing new. What is in flight is left to finish.
    Paused,
}

impl Default for QueueState {
    /// A queue nobody started does not run.
    fn default() -> (r: QueueState)
        ensures
            r == QueueState::Paused,
    {
        QueueState::Paused
    }
}

/// The switch that a stored text means: only the exact word for running runs
/// the queue.
pub open spec fn switch_of(stored: Seq<char>) -> QueueState {
    if stored == "running"@ {
        QueueState::Running
    } else {
        QueueState::Paused
    }
}

/// The switch that the settings mean, where an absent key is a paused queue.
pub open spec fn switch(stored: Option<String>) -> QueueState {
    match stored {
        Some(value) => switch_of(value@),
        None => QueueState::Paused,
    }
}

impl QueueState {
    /// The stored spelling.
    pub open spec fn spelling(self) -> Seq<char> {
        match self {
            QueueState::Running => "running"@,
            QueueState::Paused => "paused"@,
        }
    }

    /// The stored spelling.
    pub fn as_str(self) -> (r: &'static str)
        ensures
            r@ == self.spelling(),
    {
        match self {
            QueueState::Running => "running",
            QueueState::Paused => "paused",
        }
    }

    /// Reads a stored value; anything unknown is a paused queue.
    pub fn from_stored(value: &str) -> (r: QueueState)
        ensures
            r == switch_of(value@),
    {
        if same(value, "running") {
            QueueState::Running
        } else {
            QueueState::Paused
        }
    }
}

/// The switch that the settings mean.
pub fn queue_state(stored: &Option<String>) -> (r: QueueState)
    ensures
        r == switch(*stored),
{
    match stored {
        Some(value) => QueueState::from_stored(value.as_str()),
        None => QueueState::Paused,
    }
}

/// A stored switch reads back as the switch that was stored.
pub proof fn law_the_switch_reads_back(state: QueueState)
    ensures
        switch_of(state.spelling()) == state,
{
    reveal_strlit("running");
    reveal_strlit("paused");
    assert("running"@.len() != "paused"@.len());
}

/// The queue runs only where exactly that is stored; whatever else is there, and
/// where nothing is, it is paused.
pub proof fn law_only_the_word_running_runs(stored: Option<String>, r: QueueState)
    requires
        call_ensures(queue_state, (&stored,), r),
    ensures
        r == QueueState::Running <==> (stored matches Some(value) && value@ == "running"@),
{
}

} // verus!
