pub(crate) mod address;
pub(crate) mod auth_result;
pub(crate) mod event;
pub(crate) mod filter_kind;
pub(crate) mod filter_phase;
pub(crate) mod filter_response;
pub(crate) mod mail_result;
pub(crate) mod method;
pub(crate) mod smtp_status;
pub(crate) mod subsystem;
pub(crate) mod timeval;
