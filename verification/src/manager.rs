//! Connection manager and background reader rules.
//!
//! The `Monitor` owns the domain state of the tool: the connection state
//! machine, the raw transcript of everything received and sent, the display
//! and input mode flags, and the four per-channel sample buffers.  It decides;
//! a thin unverified shell performs the transport work (opening, reading,
//! writing, toggling control lines) and reports the outcomes back as events.
//!
//! The background reader's loop body is likewise a pure decision,
//! [`reader_step`]: given the outcome of one read attempt it says what flows
//! into the inbound channel.  A timeout forwards nothing, and no outcome stops
//! the loop — the action type has no stop variant; ending the loop is the
//! owner's decision at disconnect.

use vstd::prelude::*;
use vstd::string::StringSliceAdditionalSpecFns;
use crate::buffer::{pushed, SampleBuffer};
use crate::hex::{encode_hex, decode_hex, hex_display_seq, hex_input_seq};
use crate::parser::{parse_line, parsed_frame, float_values};

verus! {

/// Connection lifecycle state.  Errors surface as transcript lines and return
/// the machine to `Disconnected`; there is no error state.
#[derive(Clone, Copy, PartialEq, Eq, Structural, Debug)]
pub enum ConnState {
    Disconnected,
    Connecting,
    Connected,
}

/// Why a connection attempt was not even started, or failed.
#[derive(Debug)]
pub enum ConnectError {
    /// No port was selected: the descriptor is empty.  The attempt is aborted
    /// before any transport work.
    NoPortSelected,
    /// The transport failed to open the port, with its own detail text.
    OpenFailed(Vec<u8>),
}

/// Why a send was refused or failed.
#[derive(Debug)]
pub enum SendError {
    /// No connection is held.
    NotConnected,
    /// The transport failed to write, with its own detail text.
    WriteFailed(Vec<u8>),
}

/// One of the four telemetry channels, in fixed order front-left,
/// front-right, rear-left, rear-right.
#[derive(Clone, Copy, PartialEq, Eq, Structural, Debug)]
pub enum Channel {
    Fl,
    Fr,
    Rl,
    Rr,
}

/// How the shell must open the port: the chosen descriptor and baud rate, a
/// short fixed read timeout, and the fixed line parameters — eight data bits,
/// one stop bit, no parity, no flow control.
pub struct OpenParams {
    pub path: Vec<u8>,
    pub baud: u32,
    pub timeout_ms: u64,
    pub data_bits: u8,
    pub stop_bits: u8,
    pub parity_enabled: bool,
    pub flow_enabled: bool,
}

/// One transport action of a control-line sequence, for the shell to perform
/// in order.
#[derive(Clone, Copy, PartialEq, Eq, Structural, Debug)]
pub enum PortStep {
    /// Discard anything buffered at the OS level, both directions.
    ClearBuffers,
    /// Drive the data-terminal-ready line.
    SetDtr(bool),
    /// Drive the request-to-send line.
    SetRts(bool),
    /// Wait this many milliseconds.
    WaitMs(u64),
}

/// The outcome of one read attempt by the background reader.
pub enum ReadEvent {
    /// The read returned this many-or-fewer bytes.
    Data(Vec<u8>),
    /// The read timed out: no data yet.
    TimedOut,
    /// The read failed, with the error's detail text.
    Failed(Vec<u8>),
}

/// What the background reader does after one read attempt.
pub enum ReaderAction {
    /// Forward this decoded text fragment to the inbound channel.
    Forward(Vec<u8>),
    /// Forward nothing and try again.
    Idle,
    /// Forward this error-marker fragment, pause briefly, and clear the
    /// transport's buffers before resuming.
    Recover(Vec<u8>),
}

/// What `String::from_utf8_lossy` yields on these bytes: UTF-8 decoding with
/// invalid sequences replaced, a function of the bytes alone.
pub uninterp spec fn lossy_decode(bytes: Seq<u8>) -> Seq<u8>;

/// Relies on `String::from_utf8_lossy`: decodes bytes as UTF-8, replacing
/// invalid sequences with the replacement character, never failing.
#[verifier::external_body]
fn utf8_lossy(bytes: &[u8]) -> (r: Vec<u8>)
    ensures
        r@ == lossy_decode(bytes@),
{
    String::from_utf8_lossy(bytes).into_owned().into_bytes()
}

/// The error-marker fragment the reader forwards for a failed read.
pub open spec fn error_line(detail: Seq<u8>) -> Seq<u8> {
    ("Error: ").spec_bytes() + detail + ("\n").spec_bytes()
}

fn append_bytes(log: &mut Vec<u8>, s: &[u8])
    ensures
        final (log)@ == old(log)@ + s@,
{
    let mut i: usize = 0;
    while i < s.len()
        invariant
            i <= s@.len(),
            log@ == old(log)@ + s@.take(i as int),
        decreases s@.len() - i,
    {
        proof {
            assert(old(log)@ + s@.take(i as int + 1) =~= (old(log)@ + s@.take(i as int)).push(
                s@[i as int],
            ));
        }
        log.push(s[i]);
        i = i + 1;
    }
    proof {
        assert(old(log)@ + s@.take(s@.len() as int) =~= old(log)@ + s@);
    }
}

/// One step of the background reader loop: data is decoded lossily and
/// forwarded; a timeout forwards nothing; any other failure forwards an
/// error-marker fragment and asks for the pause-and-clear recovery.  No
/// outcome ever stops the loop.
pub fn reader_step(ev: ReadEvent) -> (a: ReaderAction)
    ensures
        match ev {
            ReadEvent::Data(bytes) => if bytes@.len() > 0 {
                a matches ReaderAction::Forward(f) && f@ == lossy_decode(bytes@)
            } else {
                a == ReaderAction::Idle
            },
            ReadEvent::TimedOut => a == ReaderAction::Idle,
            ReadEvent::Failed(detail) => a matches ReaderAction::Recover(l) && l@ == error_line(
                detail@,
            ),
        },
{
    match ev {
        ReadEvent::Data(bytes) => {
            if bytes.len() > 0 {
                ReaderAction::Forward(utf8_lossy(bytes.as_slice()))
            } else {
                ReaderAction::Idle
            }
        },
        ReadEvent::TimedOut => ReaderAction::Idle,
        ReadEvent::Failed(detail) => {
            let mut l: Vec<u8> = Vec::new();
            append_bytes(&mut l, "Error: ".as_bytes());
            append_bytes(&mut l, detail.as_slice());
            append_bytes(&mut l, "\n".as_bytes());
            ReaderAction::Recover(l)
        },
    }
}

/// The line parameters and control-line sequence the shell must apply right
/// after a successful open: de-assert DTR and RTS — many boards auto-reset on
/// a control-line transition, and the OS may assert them by default — then
/// discard anything stale in the OS buffers.
pub fn post_open_steps() -> (r: Vec<PortStep>)
    ensures
        r@ == seq![
            PortStep::SetDtr(false),
            PortStep::SetRts(false),
            PortStep::ClearBuffers,
        ],
{
    let mut r: Vec<PortStep> = Vec::new();
    r.push(PortStep::SetDtr(false));
    r.push(PortStep::SetRts(false));
    r.push(PortStep::ClearBuffers);
    proof {
        assert(r@ =~= seq![
            PortStep::SetDtr(false),
            PortStep::SetRts(false),
            PortStep::ClearBuffers,
        ]);
    }
    r
}

/// The domain state of the monitor: connection state, transcript, display
/// modes, plot settings and the four channel buffers.
pub struct Monitor {
    state: ConnState,
    raw_log: Vec<u8>,
    hex_input: bool,
    hex_display: bool,
    plot_open: bool,
    paused: bool,
    max_points: usize,
    fl: SampleBuffer,
    fr: SampleBuffer,
    rl: SampleBuffer,
    rr: SampleBuffer,
}

impl Monitor {
    /// Current connection state.
    pub closed spec fn state(&self) -> ConnState {
        self.state
    }

    /// The raw transcript of everything received and sent, as bytes.
    pub closed spec fn log(&self) -> Seq<u8> {
        self.raw_log@
    }

    /// Whether outbound text is read as hexadecimal byte values.
    pub closed spec fn hex_input(&self) -> bool {
        self.hex_input
    }

    /// Whether received and sent bytes are shown as hexadecimal.
    pub closed spec fn hex_display(&self) -> bool {
        self.hex_display
    }

    /// Whether the plot window is open; lines are parsed only then.
    pub closed spec fn plot_open(&self) -> bool {
        self.plot_open
    }

    /// Whether plotting is paused; lines are not parsed while paused.
    pub closed spec fn paused(&self) -> bool {
        self.paused
    }

    /// The configured capacity of each channel buffer.
    pub closed spec fn max_points_cfg(&self) -> usize {
        self.max_points
    }

    /// The sample buffer of one channel.
    pub closed spec fn buf(&self, c: Channel) -> SampleBuffer {
        match c {
            Channel::Fl => self.fl,
            Channel::Fr => self.fr,
            Channel::Rl => self.rl,
            Channel::Rr => self.rr,
        }
    }

    /// Well-formedness: every buffer is well-formed and the capacity is in
    /// its configurable range.
    pub open spec fn wf(&self) -> bool {
        &&& self.buf(Channel::Fl).wf()
        &&& self.buf(Channel::Fr).wf()
        &&& self.buf(Channel::Rl).wf()
        &&& self.buf(Channel::Rr).wf()
        &&& 100 <= self.max_points_cfg() <= 10000
    }

    /// The display modes and plot settings are the same on both sides.
    pub open spec fn settings_unchanged(pre: Monitor, post: Monitor) -> bool {
        &&& post.hex_input() == pre.hex_input()
        &&& post.hex_display() == pre.hex_display()
        &&& post.plot_open() == pre.plot_open()
        &&& post.paused() == pre.paused()
        &&& post.max_points_cfg() == pre.max_points_cfg()
    }

    /// All four channel buffers are the same on both sides.
    pub open spec fn buffers_unchanged(pre: Monitor, post: Monitor) -> bool {
        &&& post.buf(Channel::Fl) == pre.buf(Channel::Fl)
        &&& post.buf(Channel::Fr) == pre.buf(Channel::Fr)
        &&& post.buf(Channel::Rl) == pre.buf(Channel::Rl)
        &&& post.buf(Channel::Rr) == pre.buf(Channel::Rr)
    }

    /// A fresh monitor: disconnected, empty transcript, plain text modes, a
    /// thousand points per channel, empty buffers.
    pub fn new() -> (m: Monitor)
        ensures
            m.wf(),
            m.state() == ConnState::Disconnected,
            m.log() == Seq::<u8>::empty(),
            !m.hex_input(),
            !m.hex_display(),
            !m.plot_open(),
            !m.paused(),
            m.max_points_cfg() == 1000,
            forall|c: Channel|
                #![trigger m.buf(c)]
                m.buf(c).timestamps() == Seq::<u64>::empty() && m.buf(c).samples()
                    == Seq::<Seq<u8>>::empty() && m.buf(c).origin_ms() is None,
    {
        Monitor {
            state: ConnState::Disconnected,
            raw_log: Vec::new(),
            hex_input: false,
            hex_display: false,
            plot_open: false,
            paused: false,
            max_points: 1000,
            fl: SampleBuffer::new(),
            fr: SampleBuffer::new(),
            rl: SampleBuffer::new(),
            rr: SampleBuffer::new(),
        }
    }

    /// Starts a connection attempt.  An empty descriptor is a configuration
    /// error: the attempt is aborted, the machine stays disconnected and the
    /// transcript says so.  Otherwise the machine moves to `Connecting` and
    /// the shell receives the exact parameters to open the port with.
    pub fn begin_connect(&mut self, descriptor: &[u8], baud: u32) -> (r: Result<
        OpenParams,
        ConnectError,
    >)
        requires
            old(self).wf(),
            old(self).state() == ConnState::Disconnected,
        ensures
            final (self).wf(),
            Self::settings_unchanged(*old(self), *final (self)),
            Self::buffers_unchanged(*old(self), *final (self)),
            descriptor@.len() == 0 ==> {
                &&& r matches Err(ConnectError::NoPortSelected)
                &&& final (self).state() == ConnState::Disconnected
                &&& final (self).log() == old(self).log() + ("Select one port.\n").spec_bytes()
            },
            descriptor@.len() > 0 ==> {
                &&& r matches Ok(p) && p.path@ == descriptor@ && p.baud == baud && p.timeout_ms
                    == 10 && p.data_bits == 8 && p.stop_bits == 1 && !p.parity_enabled
                    && !p.flow_enabled
                &&& final (self).state() == ConnState::Connecting
                &&& final (self).log() == old(self).log()
            },
    {
        if descriptor.len() == 0 {
            append_bytes(&mut self.raw_log, "Select one port.\n".as_bytes());
            return Err(ConnectError::NoPortSelected);
        }
        self.state = ConnState::Connecting;
        Ok(
            OpenParams {
                path: vstd::slice::slice_to_vec(descriptor),
                baud,
                timeout_ms: 10,
                data_bits: 8,
                stop_bits: 1,
                parity_enabled: false,
                flow_enabled: false,
            },
        )
    }

    /// The shell opened the port: the machine is connected and the transcript
    /// says so.
    pub fn open_succeeded(&mut self)
        requires
            old(self).wf(),
            old(self).state() == ConnState::Connecting,
        ensures
            final (self).wf(),
            Self::settings_unchanged(*old(self), *final (self)),
            Self::buffers_unchanged(*old(self), *final (self)),
            final (self).state() == ConnState::Connected,
            final (self).log() == old(self).log() + ("Connected\n").spec_bytes(),
    {
        self.state = ConnState::Connected;
        append_bytes(&mut self.raw_log, "Connected\n".as_bytes());
    }

    /// The shell failed to open the port: the machine returns to
    /// `Disconnected` and the transcript carries the detail.
    pub fn open_failed(&mut self, detail: &[u8])
        requires
            old(self).wf(),
            old(self).state() == ConnState::Connecting,
        ensures
            final (self).wf(),
            Self::settings_unchanged(*old(self), *final (self)),
            Self::buffers_unchanged(*old(self), *final (self)),
            final (self).state() == ConnState::Disconnected,
            final (self).log() == old(self).log() + ("Failed: ").spec_bytes() + detail@ + (
            "\n").spec_bytes(),
    {
        self.state = ConnState::Disconnected;
        append_bytes(&mut self.raw_log, "Failed: ".as_bytes());
        append_bytes(&mut self.raw_log, detail);
        append_bytes(&mut self.raw_log, "\n".as_bytes());
    }

    /// Releases the connection.  Idempotent: disconnecting while already
    /// disconnected changes nothing at all and does not error.
    pub fn disconnect(&mut self)
        requires
            old(self).wf(),
        ensures
            final (self).wf(),
            final (self).state() == ConnState::Disconnected,
            old(self).state() == ConnState::Disconnected ==> *final (self) == *old(self),
            old(self).state() != ConnState::Disconnected ==> {
                &&& Self::settings_unchanged(*old(self), *final (self))
                &&& Self::buffers_unchanged(*old(self), *final (self))
                &&& final (self).log() == old(self).log() + ("Unconnected\n").spec_bytes()
            },
    {
        if self.state != ConnState::Disconnected {
            self.state = ConnState::Disconnected;
            append_bytes(&mut self.raw_log, "Unconnected\n".as_bytes());
        }
    }

    /// Builds the outbound payload for a send.  Refused when no connection is
    /// held; otherwise the text's raw bytes, or its hex input reading when hex
    /// input mode is active.
    pub fn prepare_send(&self, text: &[u8]) -> (r: Result<Vec<u8>, SendError>)
        ensures
            self.state() == ConnState::Connected ==> (r matches Ok(payload) && payload@ == (
            if self.hex_input() {
                hex_input_seq(text@)
            } else {
                text@
            })),
            self.state() != ConnState::Connected ==> (r matches Err(SendError::NotConnected)),
    {
        match self.state {
            ConnState::Connected => {
                if self.hex_input {
                    Ok(decode_hex(text))
                } else {
                    Ok(vstd::slice::slice_to_vec(text))
                }
            },
            _ => Err(SendError::NotConnected),
        }
    }

    /// The shell wrote the payload: a send record enters the transcript — the
    /// payload in hex when hex display mode is active, otherwise the text as
    /// typed.
    pub fn record_send(&mut self, payload: &[u8], text: &[u8])
        requires
            old(self).wf(),
            old(self).state() == ConnState::Connected,
        ensures
            final (self).wf(),
            Self::settings_unchanged(*old(self), *final (self)),
            Self::buffers_unchanged(*old(self), *final (self)),
            final (self).state() == old(self).state(),
            final (self).log() == old(self).log() + ("Send: ").spec_bytes() + (
            if old(self).hex_display() {
                hex_display_seq(payload@)
            } else {
                text@
            }) + ("\n").spec_bytes(),
    {
        append_bytes(&mut self.raw_log, "Send: ".as_bytes());
        if self.hex_display {
            let shown = encode_hex(payload);
            append_bytes(&mut self.raw_log, shown.as_slice());
        } else {
            append_bytes(&mut self.raw_log, text);
        }
        append_bytes(&mut self.raw_log, "\n".as_bytes());
    }

    /// The shell failed to write: the failure is reported for that single
    /// send, in the transcript; the connection state is untouched.
    pub fn record_send_failure(&mut self, detail: &[u8])
        requires
            old(self).wf(),
        ensures
            final (self).wf(),
            Self::settings_unchanged(*old(self), *final (self)),
            Self::buffers_unchanged(*old(self), *final (self)),
            final (self).state() == old(self).state(),
            final (self).log() == old(self).log() + ("Write failed: ").spec_bytes() + detail@ + (
            "\n").spec_bytes(),
    {
        append_bytes(&mut self.raw_log, "Write failed: ".as_bytes());
        append_bytes(&mut self.raw_log, detail);
        append_bytes(&mut self.raw_log, "\n".as_bytes());
    }

    /// Takes one received text fragment: it enters the transcript (in hex
    /// when hex display mode is active), and — when the plot is open and not
    /// paused — a line carrying a telemetry frame pushes one sample into each
    /// channel buffer, in channel order.
    pub fn handle_fragment(&mut self, data: &[u8], now_ms: u64)
        requires
            old(self).wf(),
        ensures
            final (self).wf(),
            Self::settings_unchanged(*old(self), *final (self)),
            final (self).state() == old(self).state(),
            final (self).log() == old(self).log() + (if old(self).hex_display() {
                hex_display_seq(data@)
            } else {
                data@
            }) + ("\n").spec_bytes(),
            if old(self).plot_open() && !old(self).paused() && parsed_frame(data@) {
                {
                    let vals = float_values(data@, 0);
                    let max = old(self).max_points_cfg() as int;
                    &&& pushed(old(self).buf(Channel::Fl), vals[0], now_ms, max, final (self).buf(Channel::Fl))
                    &&& pushed(old(self).buf(Channel::Fr), vals[1], now_ms, max, final (self).buf(Channel::Fr))
                    &&& pushed(old(self).buf(Channel::Rl), vals[2], now_ms, max, final (self).buf(Channel::Rl))
                    &&& pushed(old(self).buf(Channel::Rr), vals[3], now_ms, max, final (self).buf(Channel::Rr))
                }
            } else {
                Self::buffers_unchanged(*old(self), *final (self))
            },
    {
        if self.hex_display {
            let shown = encode_hex(data);
            append_bytes(&mut self.raw_log, shown.as_slice());
        } else {
            append_bytes(&mut self.raw_log, data);
        }
        append_bytes(&mut self.raw_log, "\n".as_bytes());
        if self.plot_open && !self.paused {
            match parse_line(data) {
                Some(frame) => {
                    let max = self.max_points;
                    self.fl.push(frame.fl, now_ms, max);
                    self.fr.push(frame.fr, now_ms, max);
                    self.rl.push(frame.rl, now_ms, max);
                    self.rr.push(frame.rr, now_ms, max);
                },
                None => {},
            }
        }
    }

    /// Empties the transcript.
    pub fn clear_log(&mut self)
        requires
            old(self).wf(),
        ensures
            final (self).wf(),
            Self::settings_unchanged(*old(self), *final (self)),
            Self::buffers_unchanged(*old(self), *final (self)),
            final (self).state() == old(self).state(),
            final (self).log() == Seq::<u8>::empty(),
    {
        self.raw_log.clear();
    }

    /// Empties all four channel buffers and resets their time origins, so the
    /// next samples restart the clock at zero.
    pub fn clear_plots(&mut self)
        requires
            old(self).wf(),
        ensures
            final (self).wf(),
            Self::settings_unchanged(*old(self), *final (self)),
            final (self).state() == old(self).state(),
            final (self).log() == old(self).log(),
            forall|c: Channel|
                #![trigger final (self).buf(c)]
                final (self).buf(c).timestamps() == Seq::<u64>::empty() && final (self).buf(
                    c,
                ).samples() == Seq::<Seq<u8>>::empty() && final (self).buf(c).origin_ms() is None,
    {
        self.fl.clear();
        self.fr.clear();
        self.rl.clear();
        self.rr.clear();
    }

    /// Sets the per-channel buffer capacity, within its configurable range.
    pub fn set_max_points(&mut self, n: usize)
        requires
            old(self).wf(),
            100 <= n <= 10000,
        ensures
            final (self).wf(),
            final (self).max_points_cfg() == n,
            final (self).hex_input() == old(self).hex_input(),
            final (self).hex_display() == old(self).hex_display(),
            final (self).plot_open() == old(self).plot_open(),
            final (self).paused() == old(self).paused(),
            Self::buffers_unchanged(*old(self), *final (self)),
            final (self).state() == old(self).state(),
            final (self).log() == old(self).log(),
    {
        self.max_points = n;
    }

    /// Switches hex input mode.
    pub fn set_hex_input(&mut self, on: bool)
        requires
            old(self).wf(),
        ensures
            final (self).wf(),
            final (self).hex_input() == on,
            final (self).hex_display() == old(self).hex_display(),
            final (self).plot_open() == old(self).plot_open(),
            final (self).paused() == old(self).paused(),
            final (self).max_points_cfg() == old(self).max_points_cfg(),
            Self::buffers_unchanged(*old(self), *final (self)),
            final (self).state() == old(self).state(),
            final (self).log() == old(self).log(),
    {
        self.hex_input = on;
    }

    /// Switches hex display mode.
    pub fn set_hex_display(&mut self, on: bool)
        requires
            old(self).wf(),
        ensures
            final (self).wf(),
            final (self).hex_display() == on,
            final (self).hex_input() == old(self).hex_input(),
            final (self).plot_open() == old(self).plot_open(),
            final (self).paused() == old(self).paused(),
            final (self).max_points_cfg() == old(self).max_points_cfg(),
            Self::buffers_unchanged(*old(self), *final (self)),
            final (self).state() == old(self).state(),
            final (self).log() == old(self).log(),
    {
        self.hex_display = on;
    }

    /// Opens or closes the plot window.
    pub fn set_plot_open(&mut self, on: bool)
        requires
            old(self).wf(),
        ensures
            final (self).wf(),
            final (self).plot_open() == on,
            final (self).hex_input() == old(self).hex_input(),
            final (self).hex_display() == old(self).hex_display(),
            final (self).paused() == old(self).paused(),
            final (self).max_points_cfg() == old(self).max_points_cfg(),
            Self::buffers_unchanged(*old(self), *final (self)),
            final (self).state() == old(self).state(),
            final (self).log() == old(self).log(),
    {
        self.plot_open = on;
    }

    /// Pauses or resumes plotting.
    pub fn set_paused(&mut self, on: bool)
        requires
            old(self).wf(),
        ensures
            final (self).wf(),
            final (self).paused() == on,
            final (self).hex_input() == old(self).hex_input(),
            final (self).hex_display() == old(self).hex_display(),
            final (self).plot_open() == old(self).plot_open(),
            final (self).max_points_cfg() == old(self).max_points_cfg(),
            Self::buffers_unchanged(*old(self), *final (self)),
            final (self).state() == old(self).state(),
            final (self).log() == old(self).log(),
    {
        self.paused = on;
    }

    /// Current connection state, for the shell.
    pub fn connection_state(&self) -> (s: ConnState)
        ensures
            s == self.state(),
    {
        self.state
    }

    /// The transcript, for display.
    pub fn log_bytes(&self) -> (r: &Vec<u8>)
        ensures
            r@ == self.log(),
    {
        &self.raw_log
    }

    /// Read-only copy of one channel's (timestamp, value) pairs, oldest
    /// first.
    pub fn snapshot(&self, c: Channel) -> (r: Vec<(u64, Vec<u8>)>)
        requires
            self.wf(),
        ensures
            r@.len() == self.buf(c).timestamps().len(),
            forall|i: int|
                0 <= i < r@.len() ==> r@[i].0 == self.buf(c).timestamps()[i] && r@[i].1@
                    == self.buf(c).samples()[i],
    {
        match c {
            Channel::Fl => self.fl.snapshot(),
            Channel::Fr => self.fr.snapshot(),
            Channel::Rl => self.rl.snapshot(),
            Channel::Rr => self.rr.snapshot(),
        }
    }

    /// The hardware reset sequence, owed exactly when connected: clear the OS
    /// buffers, assert DTR, hold, de-assert DTR, hold.  Best effort — the
    /// shell swallows transport failures while performing it.
    pub fn reset_plan(&self) -> (r: Option<Vec<PortStep>>)
        ensures
            self.state() == ConnState::Connected ==> (r matches Some(v) && v@ == seq![
                PortStep::ClearBuffers,
                PortStep::SetDtr(true),
                PortStep::WaitMs(100),
                PortStep::SetDtr(false),
                PortStep::WaitMs(100),
            ]),
            self.state() != ConnState::Connected ==> (r is None),
    {
        match self.state {
            ConnState::Connected => {
                let mut v: Vec<PortStep> = Vec::new();
                v.push(PortStep::ClearBuffers);
                v.push(PortStep::SetDtr(true));
                v.push(PortStep::WaitMs(100));
                v.push(PortStep::SetDtr(false));
                v.push(PortStep::WaitMs(100));
                proof {
                    assert(v@ =~= seq![
                        PortStep::ClearBuffers,
                        PortStep::SetDtr(true),
                        PortStep::WaitMs(100),
                        PortStep::SetDtr(false),
                        PortStep::WaitMs(100),
                    ]);
                }
                Some(v)
            },
            _ => None,
        }
    }
}

} // verus!
