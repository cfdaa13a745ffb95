//! Lightweight task and waste bookkeeping: a unit of work, an agent that
//! processes it, and a ledger of the seven kinds of waste incurred along
//! the way. Durations are carried in milliseconds; the processing times of
//! the simple implementations are simulated deterministically from task
//! complexity.

use vstd::prelude::*;

verus! {

/// Milliseconds of simulated agent overhead per processed task.
pub const BASE_PROCESSING_TIME_MS: u64 = 50;

/// A ledger of waste incurred while processing work, by kind, in
/// milliseconds.
#[derive(Debug, Clone, Copy, PartialEq, Eq, Structural)]
pub struct WasteLog {
    pub overproduction: u64,
    pub waiting: u64,
    pub transport: u64,
    pub overprocessing: u64,
    pub inventory: u64,
    pub motion: u64,
    pub defects: u64,
}

impl WasteLog {
    /// The ledger with no waste recorded.
    pub open spec fn spec_empty() -> WasteLog {
        WasteLog {
            overproduction: 0,
            waiting: 0,
            transport: 0,
            overprocessing: 0,
            inventory: 0,
            motion: 0,
            defects: 0,
        }
    }

    /// Total waste across all kinds, as a mathematical integer.
    pub open spec fn spec_total(&self) -> int {
        self.overproduction + self.waiting + self.transport + self.overprocessing
            + self.inventory + self.motion + self.defects
    }

    /// An empty ledger.
    pub fn new() -> (r: WasteLog)
        ensures
            r.spec_total() == 0,
            r == WasteLog::spec_empty(),
    {
        WasteLog {
            overproduction: 0,
            waiting: 0,
            transport: 0,
            overprocessing: 0,
            inventory: 0,
            motion: 0,
            defects: 0,
        }
    }

    /// Total waste time.
    pub fn total(&self) -> (r: u64)
        requires
            self.spec_total() <= u64::MAX,
        ensures
            r == self.spec_total(),
    {
        self.overproduction + self.waiting + self.transport + self.overprocessing
            + self.inventory + self.motion + self.defects
    }

    /// A ledger holding only waiting time.
    pub fn waiting(duration: u64) -> (r: WasteLog)
        ensures
            r == (WasteLog { waiting: duration, ..WasteLog::spec_empty() }),
    {
        let mut log = WasteLog::new();
        log.waiting = duration;
        log
    }

    /// A ledger holding only rework time.
    pub fn defects(duration: u64) -> (r: WasteLog)
        ensures
            r == (WasteLog { defects: duration, ..WasteLog::spec_empty() }),
    {
        let mut log = WasteLog::new();
        log.defects = duration;
        log
    }

    /// The kind-wise sum of two ledgers.
    pub fn plus(&self, rhs: &WasteLog) -> (r: WasteLog)
        requires
            self.overproduction + rhs.overproduction <= u64::MAX,
            self.waiting + rhs.waiting <= u64::MAX,
            self.transport + rhs.transport <= u64::MAX,
            self.overprocessing + rhs.overprocessing <= u64::MAX,
            self.inventory + rhs.inventory <= u64::MAX,
            self.motion + rhs.motion <= u64::MAX,
            self.defects + rhs.defects <= u64::MAX,
        ensures
            r.overproduction == self.overproduction + rhs.overproduction,
            r.waiting == self.waiting + rhs.waiting,
            r.transport == self.transport + rhs.transport,
            r.overprocessing == self.overprocessing + rhs.overprocessing,
            r.inventory == self.inventory + rhs.inventory,
            r.motion == self.motion + rhs.motion,
            r.defects == self.defects + rhs.defects,
    {
        WasteLog {
            overproduction: self.overproduction + rhs.overproduction,
            waiting: self.waiting + rhs.waiting,
            transport: self.transport + rhs.transport,
            overprocessing: self.overprocessing + rhs.overprocessing,
            inventory: self.inventory + rhs.inventory,
            motion: self.motion + rhs.motion,
            defects: self.defects + rhs.defects,
        }
    }
}

impl Default for WasteLog {
    /// An empty ledger.
    fn default() -> (r: WasteLog)
        ensures
            r.spec_total() == 0,
    {
        WasteLog::new()
    }
}

/// Errors that can occur while executing a task.
#[derive(Debug, Clone)]
pub enum TaskError {
    /// A defect was detected: the work needs rework.
    Defect(String),
    /// The task cannot be processed at all.
    Invalid(String),
    /// Processing was interrupted.
    Interrupted,
}

impl TaskError {
    /// A human-readable description of the error.
    pub fn message(&self) -> (r: String)
        ensures
            match self {
                TaskError::Defect(m) => r@ == "Defect: "@ + m@,
                TaskError::Invalid(m) => r@ == "Invalid: "@ + m@,
                TaskError::Interrupted => r@ == "Interrupted"@,
            },
    {
        match self {
            TaskError::Defect(m) => String::from_str("Defect: ").concat(m.as_str()),
            TaskError::Invalid(m) => String::from_str("Invalid: ").concat(m.as_str()),
            TaskError::Interrupted => String::from_str("Interrupted"),
        }
    }
}

/// One piece of work for an agent to carry out.
pub trait Task: Sized {
    // The number that names the task; a short text saying what the work
    // is; the estimated complexity, which drives the simulated processing
    // time; and the work itself, `Ok` on success.
    fn id(&self) -> u64;

    fn description(&self) -> &str;

    fn complexity(&self) -> u32;

    fn execute(&self) -> Result<(), TaskError>;
}

/// A worker that carries out tasks and keeps account of the waste each
/// one cost.
pub trait Agent: Sized {
    // The agent's name; the highest task complexity it can handle; and the
    // processing of one task, returning the simulated time taken in
    // milliseconds together with the waste generated.
    fn id(&self) -> &str;

    fn max_complexity(&self) -> u32;

    fn process_task<T: Task>(&self, task: &T) -> (u64, WasteLog);
}

/// A basic task whose execution can be made to fail for testing.
#[derive(Debug)]
pub struct SimpleTask {
    pub id: u64,
    pub description: String,
    pub complexity: u32,
    pub should_fail: bool,
}

impl SimpleTask {
    /// A task that will execute successfully.
    pub fn new(id: u64, description: String, complexity: u32) -> (r: SimpleTask)
        ensures
            r.id == id,
            r.description@ == description@,
            r.complexity == complexity,
            !r.should_fail,
    {
        SimpleTask { id, description, complexity, should_fail: false }
    }

    /// The same task, made to fail with a defect when executed.
    pub fn with_failure(self) -> (r: SimpleTask)
        ensures
            r == (SimpleTask { should_fail: true, ..self }),
    {
        let mut t = self;
        t.should_fail = true;
        t
    }
}

impl Task for SimpleTask {
    fn id(&self) -> u64 {
        self.id
    }

    fn description(&self) -> &str {
        self.description.as_str()
    }

    fn complexity(&self) -> u32 {
        self.complexity
    }

    fn execute(&self) -> Result<(), TaskError> {
        if self.should_fail {
            return Err(TaskError::Defect(String::from_str("Simulated defect")));
        }
        Ok(())
    }
}

/// A basic agent with a fixed capability ceiling.
#[derive(Debug)]
pub struct SimpleAgent {
    pub id: String,
    pub max_complexity: u32,
    pub base_processing_time_ms: u64,
}

impl SimpleAgent {
    /// An agent that can handle tasks up to the given complexity.
    pub fn new(id: String, max_complexity: u32) -> (r: SimpleAgent)
        ensures
            r.id@ == id@,
            r.max_complexity == max_complexity,
            r.base_processing_time_ms == BASE_PROCESSING_TIME_MS,
    {
        SimpleAgent { id, max_complexity, base_processing_time_ms: BASE_PROCESSING_TIME_MS }
    }
}

impl Agent for SimpleAgent {
    fn id(&self) -> &str {
        self.id.as_str()
    }

    fn max_complexity(&self) -> u32 {
        self.max_complexity
    }

    fn process_task<T: Task>(&self, task: &T) -> (u64, WasteLog) {
        let mut waste = WasteLog::new();
        // Simulated setup overhead counts as motion waste.
        waste.motion = self.base_processing_time_ms;

        // Capability check: an over-complex task is refused after a short
        // wait, without being executed.
        if task.complexity() > self.max_complexity {
            waste.waiting = 20;
            if self.base_processing_time_ms > u64::MAX - 20 {
                return (u64::MAX, waste);
            }
            return (self.base_processing_time_ms + 20, waste);
        }

        // Execute the task; the simulated value-adding time scales with its
        // complexity.
        let value_time = (task.complexity() as u64) * 10;
        match task.execute() {
            Ok(()) => {},
            Err(TaskError::Defect(_)) => {
                waste.defects = (task.complexity() as u64) * 5;
            },
            Err(_) => {
                waste.overprocessing = 10;
            },
        }
        let spent = if self.base_processing_time_ms <= u64::MAX - value_time {
            self.base_processing_time_ms + value_time
        } else {
            u64::MAX
        };
        let total = if spent <= u64::MAX - waste.defects - waste.overprocessing {
            spent + waste.defects + waste.overprocessing
        } else {
            u64::MAX
        };
        (total, waste)
    }
}

} // verus!
