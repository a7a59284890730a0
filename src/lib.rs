use vstd::prelude::*;

pub mod codec;
pub mod codes;
pub mod command;
pub mod dial;
pub mod errors;
pub mod exchange;
pub mod model;
pub mod text;

pub use codes::ResponseCode;
pub use command::{Command, Target};
pub use dial::{after_failed_attempt, backoff, DialDecision};
pub use errors::{check_network_error, IoError, IoErrorKind, NNTPError};
pub use exchange::{Exchange, Phase, Reply, Step};
pub use model::{Article, NewsGroup};

verus! {

} // verus!
