//! Verified core of a transit departure-board.
//!
//! The crate turns raw departure records (line, direction, scheduled and
//! realtime times, delay) into a presentation-ready model, renders that model
//! as plain text lines, keeps a bounded log buffer, and drives the interactive
//! dashboard's state machine.  Fetching the records and talking to the
//! terminal happen outside this crate; everything here is pure logic with
//! contracts checked by Verus.

pub mod category;
pub mod clock;
pub mod controller;
pub mod logbuf;
pub mod model;
pub mod num;
pub mod render;
pub mod text;
pub mod transform;
