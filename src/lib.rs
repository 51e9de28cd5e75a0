//! A live dashboard of pending transactions: the event multiplexer's timing,
//! the stream adapter's filter, the bounded view model with its selection
//! cursor, and the render loop's decisions, each with a verified contract.

pub mod adapter;
pub mod amount;
pub mod dashboard;
pub mod event;
pub mod record;
pub mod row;
pub mod ticker;
pub mod view_model;
