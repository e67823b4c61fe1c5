//! What callers can rely on, said of inputs and results: what is stored is kept, found, listed and
//! given as it was handed in, to whom it belongs and as long as it lasts.
pub mod alerting;
pub mod answering;
pub mod exploring;
pub mod features;
pub mod instructing;
pub mod keeping;
pub mod lifetimes;
pub mod listing;
pub mod models;
pub mod moments;
pub mod offering;
pub mod refusing;
pub mod replying;
pub mod searching;
pub mod serving;
pub mod storing;
pub mod texts;
