//! Decision logic of a device agent: the logging feature's reconciliation of
//! its log-shipper configuration, and the per-boot update validation state
//! machine that commits or rolls back a freshly applied boot slot.
pub mod engine;
pub mod logging;
pub mod validation;
