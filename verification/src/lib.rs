//! A library for writing filters for a mail daemon's line-oriented,
//! pipe-delimited filter protocol.  The wire decoder turns each protocol
//! line into a typed record, the handshake negotiator consumes the startup
//! configuration, the registry and matcher select the handlers a record
//! fires, the session dispatcher gives every mail session an independent,
//! ordered queue and an isolated context, and the response encoder turns
//! the handlers' decisions back into outbound wire lines.

mod data_structures;
mod dispatcher;
mod encoder;
mod entry;
mod errors;
mod event_handlers;
mod filter;
mod handler;
mod input;
pub mod message_aggregator;
mod numbers;
mod output;
mod parsers;
mod process;
mod session_handler;

pub use crate::data_structures::address::Address;
pub use crate::data_structures::auth_result::AuthResult;
pub use crate::data_structures::event::Event;
pub use crate::data_structures::filter_kind::FilterKind;
pub use crate::data_structures::filter_phase::FilterPhase;
pub use crate::data_structures::filter_response::FilterResponse;
pub use crate::data_structures::mail_result::MailResult;
pub use crate::data_structures::method::Method;
pub use crate::data_structures::smtp_status::SmtpStatusCode;
pub use crate::data_structures::subsystem::SubSystem;
pub use crate::data_structures::timeval::TimeVal;
pub use crate::entry::{Entry, EntryV, FilterEntry, FilterEntryV, Kind, ReportEntry, ReportEntryV};
pub use crate::dispatcher::{Session, SessionDispatcher, SessionV};
pub use crate::event_handlers::{callback_total, Callback, EventHandler, MatchEvent};
pub use crate::encoder::{
    encode_data_line, encode_entry, filter_result_line, lemma_entry_round_trip, register_line,
    register_ready_line,
};
pub use crate::errors::Error;
pub use crate::filter::Filter;
pub use crate::handler::{Handler, Version};
pub use crate::input::FilterInput;
pub use crate::message_aggregator::MessageAggregator;
pub use crate::parsers::parameters::{address_from_param, parse_address, parse_usize_param};
pub use crate::output::{FilterOutput, NullOutput};
pub use crate::parsers::entry::{parse_entry, sp_parse_entry};
pub use crate::parsers::handshake::{
    parse_handshake, Handshake, HandshakeNegotiator, HandshakeV, NegotiationStep,
};
pub use crate::parsers::parameters::{
    parse_filter_auth, parse_filter_connect, parse_filter_ehlo, parse_filter_helo,
    parse_filter_mail_from, parse_filter_rcpt_to, parse_filter_starttls,
    parse_report_filter_report, parse_report_filter_response, parse_report_link_auth,
    parse_report_link_connect, parse_report_link_greeting, parse_report_link_identify,
    parse_report_link_tls, parse_report_protocol_client, parse_report_protocol_server,
    parse_report_tx_begin, parse_report_tx_commit, parse_report_tx_data, parse_report_tx_envelope,
    parse_report_tx_mail, parse_report_tx_rcpt, parse_report_tx_reset, parse_report_tx_rollback,
};
pub use crate::parsers::{is_body_char, is_end_param, is_parameter_char, split_line};
pub use crate::event_handlers::{handler_step_ok, handlers_fold_ok};
pub use crate::process::{
    caps_view, handshake_reply_lines, is_echo_line, line, params_ok, register_lines_for,
    sp_canonical_caps, sp_register_caps, sp_register_reply,
};
pub use crate::session_handler::{entries_fold_ok, SessionHandler};
