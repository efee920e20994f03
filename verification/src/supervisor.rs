//! The line-by-line consumption of the backend's output.
//!
//! The supervisor holds the port the GUI currently believes the backend is
//! on. For every line the backend emits it produces the text to append to
//! the log file and, when the line announces a port, the URL and the script
//! to hand to the GUI layer. Later announcements overwrite earlier ones:
//! the last one observed governs.
use vstd::prelude::*;
use crate::ansi::is_escape_char;
use crate::ansi::strip_ansi_codes;
use crate::ansi::stripped;
use crate::ansi::lemma_strip_escape_free;
use crate::config::backend_url;
use crate::config::backend_url_view;
use crate::config::injection_script;
use crate::config::injection_script_view;
use crate::port::extract_port;
use crate::port::matches_at;
use crate::port::port_announcement;
use crate::port::uvicorn_marker;
use crate::port::lemma_line_without_marker_is_silent;

verus! {

/// The port the GUI believes in after a line, given what it believed
/// before: a port announcement overwrites it, any other line keeps it.
pub open spec fn next_port(current: u16, line: Seq<char>) -> u16 {
    match port_announcement(line) {
        Some(p) => p,
        None => current,
    }
}

/// What reaches the GUI when a line announces a port.
pub struct PortUpdate {
    pub port: u16,
    pub url: String,
    pub script: String,
}

/// What one log line produces: the line to persist, and the GUI update if
/// the line announced a port.
pub struct LineEffect {
    pub log_line: String,
    pub update: Option<PortUpdate>,
}

/// Consumes the backend's output one line at a time and tracks the port
/// the GUI currently believes in.
pub struct Supervisor {
    pub port: u16,
}

impl Supervisor {
    /// Starts out believing the requested default port.
    pub fn new() -> (s: Self)
        ensures
            s.port == crate::DEFAULT_PORT,
    {
        Supervisor { port: crate::DEFAULT_PORT }
    }

    /// Handles one line of backend output. The line persisted to the log
    /// is the raw line, prefixed `[api] `, with ANSI colour escape
    /// sequences stripped; the port scan reads the raw line itself. A port
    /// announcement moves the supervisor to the announced port and yields
    /// the matching URL and injection script; any other line changes
    /// nothing and yields no update.
    pub fn process_line(&mut self, line: &str) -> (eff: LineEffect)
        ensures
            final(self).port == next_port(old(self).port, line@),
            eff.log_line@ == "[api] "@ + stripped(line@),
            match (port_announcement(line@), eff.update) {
                (Some(p), Some(u)) => u.port == p && u.url@ == backend_url_view(p) && u.script@
                    == injection_script_view(backend_url_view(p)),
                (None, None) => true,
                _ => false,
            },
    {
        let cleaned = strip_ansi_codes(line);
        let mut log_line = String::from_str("[api] ");
        log_line.append(cleaned.as_str());
        let update = match extract_port(line) {
            Some(p) => {
                self.port = p;
                let url = backend_url(p);
                let script = injection_script(url.as_str());
                Some(PortUpdate { port: p, url, script })
            }
            None => None,
        };
        LineEffect { log_line, update }
    }
}

/// A line in which `Uvicorn running on` occurs nowhere leaves the
/// previously believed port — discovered or default — current.
pub proof fn lemma_silent_line_keeps_port(current: u16, line: Seq<char>)
    requires
        forall|i: int| !matches_at(line, uvicorn_marker(), i),
    ensures
        next_port(current, line) == current,
{
    lemma_line_without_marker_is_silent(line);
}

/// Of two port announcements in one session, the later one governs,
/// whatever came before it.
pub proof fn lemma_last_announcement_wins(
    initial: u16,
    first_line: Seq<char>,
    second_line: Seq<char>,
    p: u16,
)
    requires
        port_announcement(second_line) == Some(p),
    ensures
        next_port(next_port(initial, first_line), second_line) == p,
{
}

/// A line free of escape characters announces the same port before and
/// after stripping: stripping leaves such a line unchanged.
pub proof fn lemma_stripping_keeps_announcement(line: Seq<char>)
    requires
        forall|j: int| 0 <= j < line.len() ==> !is_escape_char(line[j]),
    ensures
        port_announcement(stripped(line)) == port_announcement(line),
{
    lemma_strip_escape_free(line);
}

} // verus!
