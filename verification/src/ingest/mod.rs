//! Turning raw input into connection events.

pub mod access_log;
pub mod log_tailer;
pub mod pcap_sniffer;
