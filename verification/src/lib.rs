//! Tracking of serialized media: predicting the next installment of each
//! tracked item, looking it up on a web index in two stages, and handing the
//! located link to a download client.
//!
//! Nothing in this crate performs input or output. Every exchange with the
//! outside world is described by a request value that the caller carries out
//! and answers with a reply value.

pub mod modules;
