pub mod keyed;
pub mod owl;
pub mod schema;
pub mod values;
pub mod laws;
pub mod rules;
pub mod literals;
pub mod statement_laws;
