//! The four kinds of request, one module each.

pub mod authorise;
pub mod lock;
pub mod subscribe;
pub mod unsubscribe;
