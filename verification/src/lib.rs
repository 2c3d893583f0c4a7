//! A read-only meal-plan service.
//!
//! The service answers two requests from a store of meal records, one
//! record for a date: the record of one day, and the records of the
//! thirteen days centred on a day. Both name the day by a `date` parameter,
//! or mean today where there is none. The answers are JSON.
//!
//! This library is the service without its server and without its store.
//! A request is handled in two steps: [`handler::index`] or
//! [`handler::week`] decides from the parameter what to ask of the store,
//! and [`handler::respond`] turns what the store returned into the
//! response. Whoever runs the service reads the request and the clock,
//! puts the query to the store and sends the response.
//!
//! - [`validate`] checks the format of a date parameter.
//! - [`calendar`] computes the week window around a date.
//! - [`store`] holds the queries and selects the records from a reply.
//! - [`render`] writes records and errors as JSON texts.
//! - [`text`] orders texts as the store does.
//! - [`meal`] is the record itself.

pub mod calendar;
pub mod handler;
pub mod meal;
pub mod render;
pub mod store;
pub mod text;
pub mod validate;
