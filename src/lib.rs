//! Decoding and validation of query parameters: bounded scalars, comma
//! separated coordinates, schema binding over a query string, and rendering
//! of validation failures as plain text or JSON responses.

pub mod error;
pub mod external;
pub mod form;
pub mod latitude;
pub mod location;
pub mod number;
pub mod respond;
pub mod text;
