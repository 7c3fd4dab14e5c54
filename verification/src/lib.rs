//! Frame-pointer based call-stack walking.
//!
//! A running function keeps, at the address held in the frame-pointer
//! register, the frame pointer of its caller and, one machine word above, the
//! address at which the caller resumes.  Following these links from the
//! newest frame towards the oldest gives the chain of active calls.
//!
//! The walker reads memory only through a word reader handed to it, so the
//! same verified logic runs over live stack memory and over a table of words.

pub mod chain;
pub mod frame;
pub mod report;
pub mod trace;
pub mod walker;
