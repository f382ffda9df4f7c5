//! A minimal single-resource REST core: it decodes a raw HTTP request buffer,
//! routes it to one of five CRUD operations on a user table, and turns each
//! database outcome into a status line and body. The database and the TCP
//! listener are external collaborators: the library decides, they act.

pub mod codec;
pub mod handler;
pub mod model;
pub mod text;
