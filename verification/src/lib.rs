//! Runtime-side logic of the Skenion patching environment: control values and
//! their event machine, object-text resolution, audio DSP block planning and
//! editing history.
pub mod text;
pub mod contract;
pub mod control_value;
pub mod diagnostic;
pub mod control_table;
pub mod control_state;
pub mod object_text;
pub mod object_spec;
pub mod nodes;
pub mod dsp;
pub mod history;
pub mod session;
pub mod server;
pub mod realtime;
