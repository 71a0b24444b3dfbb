//! Sandboxed evaluation of Proxy Auto-Configuration (PAC) scripts.
//!
//! The crate decides, for a target URL and hostname, which proxy a client
//! should use, by running a script that defines `FindProxyForURL(url, host)`
//! inside an embedded script engine.  Around that engine stand the parts the
//! crate states and proves: the packed pointer/length handle codec, a
//! size-tagged arena modelling the linear memory the host and the unit share,
//! the assembly of the program text with escaped string-literal arguments,
//! the mapping of oracle replies to script values, and the normalisation of
//! the engine's outcome into the single-string wire format.

pub mod arena;
pub mod codec;
pub mod engine;
pub mod evaluator;
pub mod oracle;
pub mod outcome;
pub mod text;

pub use evaluator::eval_pac;
pub use evaluator::evaluate;
