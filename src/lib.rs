//! Realized-trade tracking: statement import, trade analytics and the
//! state behind the interactive screens.

pub mod date;
pub mod decimal;
pub mod form;
pub mod header;
pub mod laws;
pub mod portfolio;
pub mod position;
pub mod statement;
pub mod text;
