//! Execution engine of an 8080-class CPU emulator: the machine state, the
//! fetch/decode/execute cycle with its halt detection, and the dispatch of
//! output-port writes to device handlers.

pub mod cpu_context;
pub mod dispatch;
pub mod state;

pub use cpu_context::{finish_cycle, CpuContext, EngineError, ExitSignal, InstructionSet, LoadError, Stop};
pub use dispatch::{DispatchError, Dispatcher, OutputHandler};
pub use state::{ConditionCodes, OutputEvent, State};
