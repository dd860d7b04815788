//! Client library for the TypeSafe System One API: typed questions, request
//! validation, client configuration, retry decisions and error classification,
//! each with a stated contract.

pub mod outside;
pub mod error;
pub mod time;
pub mod retry;
pub mod maps;
pub mod json;
pub mod text;
pub mod question;
pub mod request;
pub mod client;
pub mod answer;

pub use answer::{ModelInfo, Usage};
pub use client::{Client, ClientBuilder, Environment, DEFAULT_BASE_URL, DEFAULT_MODEL};
pub use error::Error;
pub use question::{NoulCriteria, Question, MAX_CHOICE_OPTIONS, NONE_OF_THE_ABOVE};
pub use request::{ChoiceBuilder, Prepared, SystemOneRequest};
pub use retry::{Failure, Next, RetryPolicy};
