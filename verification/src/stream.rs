//! Live streams: the local MJPEG server's state and its clients, and the push
//! stream that `ffmpeg` sends to a URL.

use std::sync::Arc;

use vstd::prelude::*;
use vstd::utf8::*;

use crate::settings;
use crate::settings::push_flag;
use crate::text;
use crate::text::{dec, lower, push_text, starts_with};

verus! {

// ── The local server ──────────────────────────────────────────────────────────

/// The local server: the latest JPEG frame, the number of that frame, whether
/// it runs, and its port.
pub struct LocalStream {
    frame: Option<Arc<Vec<u8>>>,
    number: u64,
    running: bool,
    port: u16,
}

/// What the local server holds. Frames are numbered from 1 as they are
/// published.
pub struct LocalStreamView {
    pub frame: Option<Seq<u8>>,
    pub number: u64,
    pub running: bool,
    pub port: u16,
}

/// The latest frame and its number.
pub struct Frame {
    pub number: u64,
    pub jpeg: Arc<Vec<u8>>,
}

/// The number of the frame after one with a number. It is never 0: behind the
/// largest number the count begins anew.
pub open spec fn next_number(n: u64) -> u64 {
    if n < u64::MAX {
        (n + 1) as u64
    } else {
        1
    }
}

/// The number of the last of `n` frames; 0 where there is none.
pub open spec fn number_after(n: nat) -> u64 {
    if n == 0 {
        0
    } else {
        ((n - 1) % (u64::MAX as int) + 1) as u64
    }
}

/// The local server with a new frame.
pub open spec fn published(s: LocalStreamView, jpeg: Seq<u8>) -> LocalStreamView {
    LocalStreamView { frame: Some(jpeg), number: next_number(s.number), ..s }
}

impl View for LocalStream {
    type V = LocalStreamView;

    closed spec fn view(&self) -> LocalStreamView {
        LocalStreamView {
            frame: match self.frame {
                Some(jpeg) => Some((*jpeg)@),
                None => None,
            },
            number: self.number,
            running: self.running,
            port: self.port,
        }
    }
}

/// The local server before its first frame.
pub open spec fn new_server(port: u16) -> LocalStreamView {
    LocalStreamView { frame: None, number: 0, running: true, port }
}

/// Why the local server could not be started.
pub enum ListenError {
    Bind(String),
    Nonblocking(String),
    Spawn(String),
}

/// The address that the local server listens on: all interfaces.
pub open spec fn address(port: u16) -> Seq<char> {
    "0.0.0.0:"@ + text::decimal(port as nat)
}

/// The address that the local server listens on.
pub fn bind_address(port: u16) -> (r: String)
    ensures
        r@ == address(port),
{
    let mut s = "0.0.0.0:".to_owned();
    let number = dec(port as u128);
    s.append(number.as_str());
    s
}

/// How the failure to start is reported.
pub open spec fn listen_failure(port: u16, e: ListenError) -> Seq<char> {
    match e {
        ListenError::Bind(m) => "bind "@ + address(port) + ": "@ + m@,
        ListenError::Nonblocking(m) => m@,
        ListenError::Spawn(m) => "spawn http-stream: "@ + m@,
    }
}

impl LocalStream {
    /// The server once it listens on its port: it runs, and has no frame yet;
    /// or the report of why it does not.
    pub fn start(port: u16, listening: Result<(), ListenError>) -> (r: Result<Self, String>)
        ensures
            match listening {
                Ok(_) => r matches Ok(stream) && stream@ == new_server(port),
                Err(e) => r matches Err(m) && m@ == listen_failure(port, e),
            },
    {
        match listening {
            Ok(_) => Ok(LocalStream { frame: None, number: 0, running: true, port }),
            Err(ListenError::Bind(e)) => {
                let mut m = "bind ".to_owned();
                let place = bind_address(port);
                m.append(place.as_str());
                m.append(": ");
                m.append(e.as_str());
                Err(m)
            },
            Err(ListenError::Nonblocking(e)) => Err(e),
            Err(ListenError::Spawn(e)) => {
                let mut m = "spawn http-stream: ".to_owned();
                m.append(e.as_str());
                Err(m)
            },
        }
    }

    /// The port.
    pub fn port(&self) -> (r: u16)
        ensures
            r == self@.port,
    {
        self.port
    }

    /// Replaces the frame that clients are sent.
    pub fn publish(&mut self, jpeg: Vec<u8>)
        ensures
            final(self)@ == published(old(self)@, jpeg@),
    {
        self.frame = Some(Arc::new(jpeg));
        self.number = if self.number < u64::MAX {
            self.number + 1
        } else {
            1
        };
    }

    /// The frame that clients are sent, if there is one, and its number.
    pub fn snapshot(&self) -> (r: Option<Frame>)
        ensures
            r is Some <==> self@.frame is Some,
            r matches Some(f) ==> (*f.jpeg)@ == self@.frame->0 && f.number == self@.number,
    {
        match &self.frame {
            Some(jpeg) => Some(Frame { number: self.number, jpeg: Arc::clone(jpeg) }),
            None => None,
        }
    }

    /// Asks the server and its clients to end.
    pub fn stop(&mut self)
        ensures
            final(self)@ == (LocalStreamView { running: false, ..old(self)@ }),
    {
        self.running = false;
    }

    /// Whether the server is to go on.
    pub fn is_running(&self) -> (r: bool)
        ensures
            r == self@.running,
    {
        self.running
    }
}

/// What a look for a new client gave.
#[derive(Clone, Copy, Debug, PartialEq, Eq, Structural)]
pub enum AcceptEvent {
    Client,
    WouldBlock,
    Failed,
}

/// What the server does next.
#[derive(Clone, Copy, Debug, PartialEq, Eq, Structural)]
pub enum AcceptAction {
    Serve,
    SleepMs(u64),
    Exit,
}

/// What the server does after a look for a new client: it serves the client,
/// looks again after a tenth of a second, or gives up.
pub fn accept_step(event: AcceptEvent) -> (r: AcceptAction)
    ensures
        r == (match event {
            AcceptEvent::Client => AcceptAction::Serve,
            AcceptEvent::WouldBlock => AcceptAction::SleepMs(100),
            AcceptEvent::Failed => AcceptAction::Exit,
        }),
{
    match event {
        AcceptEvent::Client => AcceptAction::Serve,
        AcceptEvent::WouldBlock => AcceptAction::SleepMs(100),
        AcceptEvent::Failed => AcceptAction::Exit,
    }
}

// ── MJPEG clients ─────────────────────────────────────────────────────────────

/// What parts the frames of an MJPEG stream.
pub const BOUNDARY: &'static str = "picamframe";

/// The headers of an MJPEG stream.
pub open spec fn mjpeg_reply() -> Seq<char> {
    "HTTP/1.0 200 OK\r\nCache-Control: no-cache, private\r\nPragma: no-cache\r\nConnection: close\r\nContent-Type: multipart/x-mixed-replace; boundary="@
        + BOUNDARY@ + "\r\n\r\n"@
}

/// Writes the headers of an MJPEG stream.
pub fn mjpeg_header() -> (r: String)
    ensures
        r@ == mjpeg_reply(),
{
    let mut s =
        "HTTP/1.0 200 OK\r\nCache-Control: no-cache, private\r\nPragma: no-cache\r\nConnection: close\r\nContent-Type: multipart/x-mixed-replace; boundary=".to_owned();
    s.append(BOUNDARY);
    s.append("\r\n\r\n");
    s
}

/// The headers before a frame of an MJPEG stream.
pub open spec fn part_reply(len: nat) -> Seq<char> {
    "--"@ + BOUNDARY@ + "\r\nContent-Type: image/jpeg\r\nContent-Length: "@ + text::decimal(len)
        + "\r\n\r\n"@
}

/// Writes the headers before a frame of an MJPEG stream.
pub fn mjpeg_part(len: usize) -> (r: String)
    ensures
        r@ == part_reply(len as nat),
{
    let mut s = "--".to_owned();
    s.append(BOUNDARY);
    s.append("\r\nContent-Type: image/jpeg\r\nContent-Length: ");
    let number = dec(len as u128);
    s.append(number.as_str());
    s.append("\r\n\r\n");
    s
}

/// The bytes of a whole part of an MJPEG stream: its headers, the JPEG, and the
/// line end behind it.
pub open spec fn part_bytes(jpeg: Seq<u8>) -> Seq<u8> {
    encode_utf8(part_reply(jpeg.len())) + jpeg + seq![13u8, 10u8]
}

/// Writes a whole part of an MJPEG stream.
pub fn mjpeg_frame(jpeg: &[u8]) -> (r: Vec<u8>)
    ensures
        r@ == encode_utf8(part_reply(jpeg@.len())) + jpeg@ + seq![13u8, 10u8],
{
    let header = mjpeg_part(jpeg.len());
    let mut bytes: Vec<u8> = header.as_str().as_bytes_vec();
    let mut body: Vec<u8> = vstd::slice::slice_to_vec(jpeg);
    bytes.append(&mut body);
    bytes.push(13);
    bytes.push(10);
    assert(bytes@ =~= encode_utf8(part_reply(jpeg@.len())) + jpeg@ + seq![13u8, 10u8]);
    bytes
}

/// What an MJPEG client is served next.
#[derive(Debug, PartialEq, Eq)]
pub enum MjpegAction {
    /// Nothing more.
    Exit,
    /// Nothing for so many milliseconds.
    SleepMs(u64),
    /// These bytes.
    Send(Vec<u8>),
}

/// A client of the MJPEG stream, with the number of the frame that it was sent
/// last.
pub struct MjpegClient {
    last: u64,
}

/// Whether a client is sent the latest frame: the server runs, and has a frame
/// that is not the one sent last.
pub open spec fn is_due(s: LocalStreamView, last: u64) -> bool {
    s.running && s.frame is Some && s.number != last
}

impl View for MjpegClient {
    type V = u64;

    closed spec fn view(&self) -> u64 {
        self.last
    }
}

impl MjpegClient {
    /// A client that was sent no frame yet.
    pub fn new() -> (r: Self)
        ensures
            r@ == 0,
    {
        MjpegClient { last: 0 }
    }

    /// What the client is served next, given what the server holds: the whole
    /// part of a frame that is due, else nothing for a while, or nothing more
    /// once the server is to end.
    pub fn step(&mut self, stream: &LocalStream) -> (r: MjpegAction)
        ensures
            is_due(stream@, old(self)@) ==> {
                &&& r matches MjpegAction::Send(bytes) && bytes@ == part_bytes(stream@.frame->0)
                &&& final(self)@ == stream@.number
            },
            !is_due(stream@, old(self)@) ==> {
                &&& r == (if !stream@.running {
                    MjpegAction::Exit
                } else if stream@.frame is None {
                    MjpegAction::SleepMs(50)
                } else {
                    MjpegAction::SleepMs(20)
                })
                &&& final(self)@ == old(self)@
            },
    {
        if !stream.is_running() {
            return MjpegAction::Exit;
        }
        match stream.snapshot() {
            None => MjpegAction::SleepMs(50),
            Some(frame) => if frame.number == self.last {
                MjpegAction::SleepMs(20)
            } else {
                self.last = frame.number;
                MjpegAction::Send(mjpeg_frame(frame.jpeg.as_slice()))
            },
        }
    }
}

// ── What the MJPEG stream promises ────────────────────────────────────────────

/// What happens to a server that one client watches.
pub enum Watched {
    /// A frame is published.
    Publish(Seq<u8>),
    /// The client is served.
    Serve,
    /// The server is asked to end.
    Stop,
}

/// A server, a client that watches it from the start, the bytes that the client
/// was written, and which frames it was sent, counted from 1 in the order in which
/// they were published.
pub struct Watch {
    pub stream: LocalStreamView,
    pub last: u64,
    pub out: Seq<u8>,
    pub sent: Seq<nat>,
}

/// How it stands after some happenings.
pub open spec fn watched(port: u16, events: Seq<Watched>) -> Watch
    decreases events.len(),
{
    if events.len() == 0 {
        Watch {
            stream: new_server(port),
            last: 0,
            out: encode_utf8(mjpeg_reply()),
            sent: Seq::empty(),
        }
    } else {
        let w = watched(port, events.drop_last());
        match events.last() {
            Watched::Publish(jpeg) => Watch { stream: published(w.stream, jpeg), ..w },
            Watched::Serve => if is_due(w.stream, w.last) {
                Watch {
                    last: w.stream.number,
                    out: w.out + part_bytes(w.stream.frame->0),
                    sent: w.sent.push(frames_of(events.drop_last()).len()),
                    ..w
                }
            } else {
                w
            },
            Watched::Stop => Watch {
                stream: LocalStreamView { running: false, ..w.stream },
                ..w
            },
        }
    }
}

/// The frames that were published, in order.
pub open spec fn frames_of(events: Seq<Watched>) -> Seq<Seq<u8>>
    decreases events.len(),
{
    if events.len() == 0 {
        Seq::empty()
    } else {
        let head = frames_of(events.drop_last());
        match events.last() {
            Watched::Publish(jpeg) => head.push(jpeg),
            _ => head,
        }
    }
}

/// The whole parts of some frames, counted from 1, one after the other.
pub open spec fn parts_of(frames: Seq<Seq<u8>>, numbers: Seq<nat>) -> Seq<u8>
    decreases numbers.len(),
{
    if numbers.len() == 0 {
        Seq::empty()
    } else {
        parts_of(frames, numbers.drop_last()) + part_bytes(frames[numbers.last() - 1])
    }
}

proof fn lemma_parts_of_more(frames: Seq<Seq<u8>>, jpeg: Seq<u8>, numbers: Seq<nat>)
    requires
        forall|i: int| 0 <= i < numbers.len() ==> 1 <= #[trigger] numbers[i] <= frames.len(),
    ensures
        parts_of(frames.push(jpeg), numbers) == parts_of(frames, numbers),
    decreases numbers.len(),
{
    if numbers.len() > 0 {
        let less = numbers.drop_last();
        assert forall|i: int| 0 <= i < less.len() implies 1 <= #[trigger] less[i]
            <= frames.len() by {
            assert(less[i] == numbers[i]);
        }
        lemma_parts_of_more(frames, jpeg, less);
        let n = numbers[numbers.len() - 1];
        assert(1 <= n <= frames.len());
        assert(frames.push(jpeg)[n - 1] == frames[n - 1]);
    }
}

proof fn lemma_next_number(n: nat)
    ensures
        next_number(number_after(n)) == number_after(n + 1),
{
    let m = u64::MAX as int;
    if n > 0 {
        let k = (n - 1) / m;
        let r = (n - 1) % m;
        vstd::arithmetic::div_mod::lemma_fundamental_div_mod(n - 1, m);
        if r + 1 < m {
            vstd::arithmetic::div_mod::lemma_fundamental_div_mod_converse(n as int, m, k, r + 1);
        } else {
            assert(m * (k + 1) == m * k + m) by (nonlinear_arith);
            vstd::arithmetic::div_mod::lemma_fundamental_div_mod_converse(n as int, m, k + 1, 0);
        }
    }
}

/// A client is written the headers once, and behind them only whole parts, each
/// of a frame that was published. Each frame makes at most one part, and the
/// parts come in the order of their frames, however many there are.
pub proof fn client_is_written_whole_parts(port: u16, events: Seq<Watched>)
    ensures
        ({
            let w = watched(port, events);
            let frames = frames_of(events);
            &&& w.out == encode_utf8(mjpeg_reply()) + parts_of(frames, w.sent)
            &&& forall|i: int| 0 <= i < w.sent.len() ==> 1 <= #[trigger] w.sent[i] <= frames.len()
            &&& forall|i: int, j: int|
                0 <= i < j < w.sent.len() ==> #[trigger] w.sent[i] < #[trigger] w.sent[j]
            &&& w.stream.number == number_after(frames.len())
            &&& w.stream.frame == (if frames.len() > 0 {
                Some(frames.last())
            } else {
                None
            })
            &&& w.last == (if w.sent.len() > 0 {
                number_after(w.sent.last())
            } else {
                0
            })
        }),
    decreases events.len(),
{
    let w = watched(port, events);
    let frames = frames_of(events);
    let header = encode_utf8(mjpeg_reply());
    if events.len() == 0 {
        assert(w.out =~= header + parts_of(frames, w.sent));
    } else {
        let head = events.drop_last();
        client_is_written_whole_parts(port, head);
        let before = watched(port, head);
        match events.last() {
            Watched::Publish(jpeg) => {
                lemma_parts_of_more(frames_of(head), jpeg, before.sent);
                lemma_next_number(frames_of(head).len());
            },
            Watched::Serve => {
                if is_due(before.stream, before.last) {
                    assert(w.sent.drop_last() =~= before.sent);
                    assert(w.out =~= header + parts_of(frames, w.sent));
                    if before.sent.len() > 0 {
                        assert(before.sent.last() == before.sent[before.sent.len() - 1]);
                        assert(before.sent.last() < frames.len());
                    }
                }
            },
            Watched::Stop => {},
        }
    }
}

/// Once the server is asked to end, a client is written nothing more.
pub proof fn stopped_server_writes_nothing(port: u16, events: Seq<Watched>, more: Seq<Watched>)
    requires
        !watched(port, events).stream.running,
    ensures
        watched(port, events + more).out == watched(port, events).out,
        !watched(port, events + more).stream.running,
    decreases more.len(),
{
    let all = events + more;
    if more.len() == 0 {
        assert(all =~= events);
    } else {
        stopped_server_writes_nothing(port, events, more.drop_last());
        assert(all.drop_last() =~= events + more.drop_last());
    }
}

/// A client that is served while the server runs is up to date: it was sent the
/// latest frame, if there is one.
pub proof fn served_client_is_up_to_date(port: u16, events: Seq<Watched>)
    requires
        watched(port, events).stream.running,
        watched(port, events).stream.frame is Some,
    ensures
        watched(port, events.push(Watched::Serve)).last == watched(port, events).stream.number,
{
    assert(events.push(Watched::Serve).drop_last() =~= events);
}

// ── The push stream ───────────────────────────────────────────────────────────

/// The container format for a URL in small letters, by its scheme.
pub open spec fn format_of(url: Seq<char>) -> Seq<char> {
    if text::has_prefix(url, "rtmp://"@) || text::has_prefix(url, "rtmps://"@) {
        "flv"@
    } else if text::has_prefix(url, "rtp://"@) {
        "rtp_mpegts"@
    } else {
        "mpegts"@
    }
}

/// The container format for a URL in small letters.
pub fn format_for(url: &str) -> (r: &'static str)
    ensures
        r@ == format_of(url@),
{
    if starts_with(url, "rtmp://") || starts_with(url, "rtmps://") {
        "flv"
    } else if starts_with(url, "rtp://") {
        "rtp_mpegts"
    } else {
        "mpegts"
    }
}

/// The container format for a URL. Capital letters make no difference.
pub fn pick_format(url: &str) -> (r: &'static str)
    ensures
        r@ == format_of(text::lowered(url@)),
{
    let small = lower(url);
    format_for(small.as_str())
}

/// The arguments of `ffmpeg` for a push stream: raw frames in, H264 out.
pub open spec fn push_stream_args(url: Seq<char>, width: u32, height: u32, fps: u32) -> Seq<
    Seq<char>,
> {
    let a = Seq::<Seq<char>>::empty().push("-y"@);
    let b = settings::with_flag(a, "-f"@, "rawvideo"@);
    let c = settings::with_flag(b, "-pix_fmt"@, "nv12"@);
    let d = settings::with_flag(
        c,
        "-s"@,
        text::decimal(width as nat) + "x"@ + text::decimal(height as nat),
    );
    let e = settings::with_flag(d, "-r"@, text::decimal(fps as nat));
    let f = settings::with_flag(e, "-i"@, "pipe:0"@);
    let g = settings::with_flag(f, "-c:v"@, "libx264"@);
    let h = settings::with_flag(g, "-preset"@, "ultrafast"@);
    let i = settings::with_flag(h, "-tune"@, "zerolatency"@);
    let j = settings::with_flag(i, "-pix_fmt"@, "yuv420p"@);
    let k = settings::with_flag(j, "-f"@, format_of(text::lowered(url)));
    k.push(url)
}

/// The arguments of `ffmpeg` for a push stream.
pub fn push_args(url: &str, width: u32, height: u32, fps: u32) -> (r: Vec<String>)
    ensures
        text::texts(r@) == push_stream_args(url@, width, height, fps),
{
    let mut size = dec(width as u128);
    size.append("x");
    let number = dec(height as u128);
    size.append(number.as_str());
    let rate = dec(fps as u128);
    let mut args: Vec<String> = Vec::new();
    assert(text::texts(args@) =~= Seq::empty());
    push_text(&mut args, "-y");
    push_flag(&mut args, "-f", "rawvideo");
    push_flag(&mut args, "-pix_fmt", "nv12");
    push_flag(&mut args, "-s", size.as_str());
    push_flag(&mut args, "-r", rate.as_str());
    push_flag(&mut args, "-i", "pipe:0");
    push_flag(&mut args, "-c:v", "libx264");
    push_flag(&mut args, "-preset", "ultrafast");
    push_flag(&mut args, "-tune", "zerolatency");
    push_flag(&mut args, "-pix_fmt", "yuv420p");
    push_flag(&mut args, "-f", pick_format(url));
    push_text(&mut args, url);
    args
}

/// The push stream: whether its `ffmpeg` is there, and whether frames can still
/// be written to it.
pub struct PushStream {
    child: bool,
    stdin: bool,
}

/// What the push stream holds.
pub struct PushStreamView {
    pub child: bool,
    pub stdin: bool,
}

impl View for PushStream {
    type V = PushStreamView;

    closed spec fn view(&self) -> PushStreamView {
        PushStreamView { child: self.child, stdin: self.stdin }
    }
}

impl PushStream {
    /// The push stream once `ffmpeg` was started, with or without a pipe to it;
    /// or the report of why it could not be.
    pub fn start(url: &str, started: Result<bool, String>) -> (r: Result<Self, String>)
        ensures
            match started {
                Ok(piped) => r matches Ok(stream) && stream@ == (PushStreamView {
                    child: true,
                    stdin: piped,
                }),
                Err(e) => r matches Err(m) && m@ == "ffmpeg push spawn (url="@ + url@ + "): "@ + e@,
            },
    {
        match started {
            Ok(piped) => Ok(PushStream { child: true, stdin: piped }),
            Err(e) => {
                let mut m = "ffmpeg push spawn (url=".to_owned();
                m.append(url);
                m.append("): ");
                m.append(e.as_str());
                Err(m)
            },
        }
    }

    /// Whether a frame is to be written to `ffmpeg`.
    pub fn write_frame(&self) -> (r: bool)
        ensures
            r == self@.stdin,
    {
        self.stdin
    }

    /// Closes the pipe, and says how the end of `ffmpeg` is awaited, if it is
    /// still there.
    pub fn stop(&mut self) -> (r: Option<PushStop>)
        ensures
            final(self)@ == (PushStreamView { child: false, stdin: false }),
            r is Some <==> old(self)@.child,
            r matches Some(wait) ==> wait@ == STOP_POLLS,
    {
        let child = self.child;
        self.stdin = false;
        self.child = false;
        if child {
            Some(PushStop { left: STOP_POLLS })
        } else {
            None
        }
    }
}

/// How often `ffmpeg` is asked whether it has ended before it is killed.
pub const STOP_POLLS: u32 = 20;

/// The pause between two questions, in milliseconds.
pub const STOP_POLL_MS: u64 = 100;

/// The end of `ffmpeg` as it is awaited.
pub struct PushStop {
    left: u32,
}

impl View for PushStop {
    type V = u32;

    closed spec fn view(&self) -> u32 {
        self.left
    }
}

/// What a question whether `ffmpeg` has ended gave.
#[derive(Clone, Copy, Debug, PartialEq, Eq, Structural)]
pub enum ChildPoll {
    Exited,
    Running,
    Failed,
}

/// What is done next: nothing more, another question after the pause, the pause
/// and then the kill, or the kill.
#[derive(Clone, Copy, Debug, PartialEq, Eq, Structural)]
pub enum StopAction {
    Done,
    Sleep,
    SleepAndKill,
    Kill,
}

/// What is done next, with `left` questions left before this one.
pub open spec fn stop_action(left: int, poll: ChildPoll) -> StopAction {
    match poll {
        ChildPoll::Exited => StopAction::Done,
        ChildPoll::Failed => StopAction::Kill,
        ChildPoll::Running => if left > 1 {
            StopAction::Sleep
        } else {
            StopAction::SleepAndKill
        },
    }
}

impl PushStop {
    /// What is done after a question.
    pub fn step(&mut self, poll: ChildPoll) -> (r: StopAction)
        requires
            old(self)@ > 0,
        ensures
            r == stop_action(old(self)@ as int, poll),
            final(self)@ == old(self)@ - 1,
    {
        self.left = self.left - 1;
        match poll {
            ChildPoll::Exited => StopAction::Done,
            ChildPoll::Failed => StopAction::Kill,
            ChildPoll::Running => if self.left > 0 {
                StopAction::Sleep
            } else {
                StopAction::SleepAndKill
            },
        }
    }
}

/// How many questions are asked of a child that answers as given, with `left`
/// left.
pub open spec fn questions_asked(left: int, polls: Seq<ChildPoll>) -> int
    decreases polls.len(),
{
    if polls.len() == 0 {
        0
    } else if stop_action(left, polls[0]) == StopAction::Sleep {
        1 + questions_asked(left - 1, polls.drop_first())
    } else {
        1
    }
}

/// The wait for `ffmpeg` is bounded: however it answers, it is asked at most
/// `STOP_POLLS` times.
pub proof fn stopping_is_bounded(left: int, polls: Seq<ChildPoll>)
    requires
        1 <= left <= STOP_POLLS,
    ensures
        questions_asked(left, polls) <= left,
    decreases polls.len(),
{
    if polls.len() > 0 && stop_action(left, polls[0]) == StopAction::Sleep {
        stopping_is_bounded(left - 1, polls.drop_first());
    }
}

/// Whether `ffmpeg` is told to read raw frames of a size from its pipe.
pub open spec fn reads_raw_frames(
    args: Seq<Seq<char>>,
    width: u32,
    height: u32,
    fps: u32,
) -> bool {
    &&& settings::input_given(args, "-i"@) == seq!["pipe:0"@]
    &&& settings::input_given(args, "-f"@) == seq!["rawvideo"@]
    &&& settings::input_given(args, "-pix_fmt"@) == seq!["nv12"@]
    &&& settings::input_given(args, "-s"@) == seq![
        text::decimal(width as nat) + "x"@ + text::decimal(height as nat),
    ]
    &&& settings::input_given(args, "-r"@) == seq![text::decimal(fps as nat)]
}

/// The push stream goes exactly where it is told to: the output of `ffmpeg` is
/// the URL, letter for letter. What goes there are the frames on the pipe, of
/// their own size and rate, in the format that goes with the URL's scheme.
pub proof fn push_goes_to_the_url(url: &str, width: u32, height: u32, fps: u32, r: Vec<String>)
    requires
        call_ensures(push_args, (url, width, height, fps), r),
    ensures
        ({
            let args = text::texts(r@);
            &&& args.last() == url@
            &&& settings::ffmpeg_reads(args)
            &&& reads_raw_frames(args, width, height, fps)
            &&& settings::input_given(args, "-vf"@).len() == 0
            &&& forall|name: Seq<char>| #[trigger]
                settings::output_given(args, name) == (if name == "-c:v"@ {
                    seq!["libx264"@]
                } else if name == "-preset"@ {
                    seq!["ultrafast"@]
                } else if name == "-tune"@ {
                    seq!["zerolatency"@]
                } else if name == "-pix_fmt"@ {
                    seq!["yuv420p"@]
                } else if name == "-f"@ {
                    seq![format_of(text::lowered(url@))]
                } else {
                    Seq::empty()
                })
        }),
{
    lemma_push_is_read(url@, width, height, fps);
}

proof fn lemma_push_is_read(url: Seq<char>, width: u32, height: u32, fps: u32)
    ensures
        ({
            let args = push_stream_args(url, width, height, fps);
            &&& args.last() == url
            &&& settings::ffmpeg_reads(args)
            &&& reads_raw_frames(args, width, height, fps)
            &&& settings::input_given(args, "-vf"@).len() == 0
            &&& forall|name: Seq<char>| #[trigger]
                settings::output_given(args, name) == (if name == "-c:v"@ {
                    seq!["libx264"@]
                } else if name == "-preset"@ {
                    seq!["ultrafast"@]
                } else if name == "-tune"@ {
                    seq!["zerolatency"@]
                } else if name == "-pix_fmt"@ {
                    seq!["yuv420p"@]
                } else if name == "-f"@ {
                    seq![format_of(text::lowered(url))]
                } else {
                    Seq::empty()
                })
        }),
{
    settings::lemma_ffmpeg_names();
    let sw = settings::ffmpeg_switches();
    settings::lemma_nothing_given(sw);
    let none = Seq::<Seq<char>>::empty();
    let size = text::decimal(width as nat) + "x"@ + text::decimal(height as nat);
    let rate = text::decimal(fps as nat);
    let format = format_of(text::lowered(url));
    settings::switch_is_read(none, sw, "-y"@);
    let a = none.push("-y"@);
    settings::option_is_read(a, sw, "-f"@, "rawvideo"@);
    let b = settings::with_flag(a, "-f"@, "rawvideo"@);
    settings::option_is_read(b, sw, "-pix_fmt"@, "nv12"@);
    let c = settings::with_flag(b, "-pix_fmt"@, "nv12"@);
    settings::option_is_read(c, sw, "-s"@, size);
    let d = settings::with_flag(c, "-s"@, size);
    settings::option_is_read(d, sw, "-r"@, rate);
    let e = settings::with_flag(d, "-r"@, rate);
    settings::option_is_read(e, sw, "-i"@, "pipe:0"@);
    let f = settings::with_flag(e, "-i"@, "pipe:0"@);
    settings::option_is_read(none, sw, "-c:v"@, "libx264"@);
    let g = settings::with_flag(none, "-c:v"@, "libx264"@);
    settings::option_is_read(g, sw, "-preset"@, "ultrafast"@);
    let h = settings::with_flag(g, "-preset"@, "ultrafast"@);
    settings::option_is_read(h, sw, "-tune"@, "zerolatency"@);
    let i = settings::with_flag(h, "-tune"@, "zerolatency"@);
    settings::option_is_read(i, sw, "-pix_fmt"@, "yuv420p"@);
    let j = settings::with_flag(i, "-pix_fmt"@, "yuv420p"@);
    settings::option_is_read(j, sw, "-f"@, format);
    let k = settings::with_flag(j, "-f"@, format);
    assert(push_stream_args(url, width, height, fps) =~= f + k.push(url));
    settings::ffmpeg_args_fall_apart(e, "pipe:0"@, k, url);
}

/// Pushes to two URLs are never the same push.
pub proof fn urls_have_their_own_pushes(
    a: &str,
    b: &str,
    width: u32,
    height: u32,
    fps: u32,
    p: Vec<String>,
    q: Vec<String>,
)
    requires
        call_ensures(push_args, (a, width, height, fps), p),
        call_ensures(push_args, (b, width, height, fps), q),
        text::texts(p@) == text::texts(q@),
    ensures
        a@ == b@,
{
    push_goes_to_the_url(a, width, height, fps, p);
    push_goes_to_the_url(b, width, height, fps, q);
}

/// Two URLs that differ only in their letters' case are pushed in one format.
pub proof fn case_of_the_url_makes_no_difference(a: Seq<char>, b: Seq<char>)
    requires
        is_ascii_chars(a),
        is_ascii_chars(b),
        a.len() == b.len(),
        forall|i: int|
            0 <= i < a.len() ==> text::ascii_lower(#[trigger] a[i]) == text::ascii_lower(b[i]),
    ensures
        format_of(text::lowered(a)) == format_of(text::lowered(b)),
{
    assert(text::lowered(a) =~= text::lowered(b));
}

/// The headers of an MJPEG stream name what parts its frames, and each part
/// begins with it, says how long its JPEG is, and holds the JPEG whole.
pub proof fn parts_hold_their_frames(jpeg: &[u8], r: Vec<u8>)
    requires
        call_ensures(mjpeg_frame, (jpeg,), r),
    ensures
        r@ == encode_utf8(
            "--picamframe\r\nContent-Type: image/jpeg\r\nContent-Length: "@ + text::decimal(
                jpeg@.len(),
            ) + "\r\n\r\n"@,
        ) + jpeg@ + seq![13u8, 10u8],
        text::has_suffix(
            mjpeg_reply(),
            "Content-Type: multipart/x-mixed-replace; boundary=picamframe\r\n\r\n"@,
        ),
        text::has_prefix(mjpeg_reply(), "HTTP/1.0 200 OK\r\n"@),
{
    reveal_strlit("--");
    reveal_strlit("picamframe");
    reveal_strlit("\r\nContent-Type: image/jpeg\r\nContent-Length: ");
    reveal_strlit("--picamframe\r\nContent-Type: image/jpeg\r\nContent-Length: ");
    assert("--"@ + BOUNDARY@ + "\r\nContent-Type: image/jpeg\r\nContent-Length: "@
        =~= "--picamframe\r\nContent-Type: image/jpeg\r\nContent-Length: "@);
    lemma_mjpeg_header();
}

proof fn lemma_mjpeg_header()
    ensures
        text::has_suffix(
            mjpeg_reply(),
            "Content-Type: multipart/x-mixed-replace; boundary=picamframe\r\n\r\n"@,
        ),
        text::has_prefix(mjpeg_reply(), "HTTP/1.0 200 OK\r\n"@),
{
    reveal_strlit("picamframe");
    reveal_strlit("\r\n\r\n");
    reveal_strlit("HTTP/1.0 200 OK\r\n");
    reveal_strlit("Content-Type: multipart/x-mixed-replace; boundary=picamframe\r\n\r\n");
    reveal_strlit(
        "HTTP/1.0 200 OK\r\nCache-Control: no-cache, private\r\nPragma: no-cache\r\nConnection: close\r\nContent-Type: multipart/x-mixed-replace; boundary=",
    );
    let all = mjpeg_reply();
    let end = "Content-Type: multipart/x-mixed-replace; boundary=picamframe\r\n\r\n"@;
    assert(all.skip(all.len() - end.len()) =~= end);
    let start = "HTTP/1.0 200 OK\r\n"@;
    assert(all.take(start.len() as int) =~= start);
}

/// The format of a push goes by the scheme of its URL alone.
pub proof fn formats_go_by_the_scheme(rest: Seq<char>)
    ensures
        format_of("rtmp://"@ + rest) == "flv"@,
        format_of("rtmps://"@ + rest) == "flv"@,
        format_of("rtp://"@ + rest) == "rtp_mpegts"@,
        format_of("srt://"@ + rest) == "mpegts"@,
        format_of("udp://"@ + rest) == "mpegts"@,
        format_of("tcp://"@ + rest) == "mpegts"@,
{
    reveal_strlit("rtmp://");
    reveal_strlit("rtmps://");
    reveal_strlit("rtp://");
    reveal_strlit("srt://");
    reveal_strlit("udp://");
    reveal_strlit("tcp://");
    let none = Seq::<char>::empty();
    text::prefix_is_the_start(none, "rtmp://"@, rest);
    text::prefix_is_the_start(none, "rtmps://"@, rest);
    text::prefix_is_the_start(none, "rtp://"@, rest);
    lemma_other_scheme("rtp://"@ + rest, "rtmp://"@, 2);
    lemma_other_scheme("rtp://"@ + rest, "rtmps://"@, 2);
    lemma_other_scheme("srt://"@ + rest, "rtmp://"@, 0);
    lemma_other_scheme("srt://"@ + rest, "rtmps://"@, 0);
    lemma_other_scheme("srt://"@ + rest, "rtp://"@, 0);
    lemma_other_scheme("udp://"@ + rest, "rtmp://"@, 0);
    lemma_other_scheme("udp://"@ + rest, "rtmps://"@, 0);
    lemma_other_scheme("udp://"@ + rest, "rtp://"@, 0);
    lemma_other_scheme("tcp://"@ + rest, "rtmp://"@, 0);
    lemma_other_scheme("tcp://"@ + rest, "rtmps://"@, 0);
    lemma_other_scheme("tcp://"@ + rest, "rtp://"@, 0);
}

proof fn lemma_other_scheme(s: Seq<char>, scheme: Seq<char>, i: int)
    requires
        0 <= i < scheme.len(),
        i < s.len(),
        s[i] != scheme[i],
    ensures
        !text::has_prefix(s, scheme),
{
    if text::has_prefix(s, scheme) {
        assert(s.take(scheme.len() as int)[i] == s[i]);
    }
}

/// A child that has ended is not killed; one that goes on running is given all
/// the questions, two seconds in all, and then killed.
pub proof fn children_are_given_time(left: int, polls: Seq<ChildPoll>)
    requires
        1 <= left <= STOP_POLLS,
        left <= polls.len(),
        forall|i: int| 0 <= i < polls.len() ==> #[trigger] polls[i] == ChildPoll::Running,
    ensures
        questions_asked(left, polls) == left,
        stop_action(left, ChildPoll::Exited) == StopAction::Done,
        stop_action(left, ChildPoll::Failed) == StopAction::Kill,
        stop_action(left, ChildPoll::Running) == StopAction::SleepAndKill <==> left == 1,
        STOP_POLLS * STOP_POLL_MS == 2_000,
    decreases left,
{
    assert(polls[0] == ChildPoll::Running);
    if left > 1 {
        let rest = polls.drop_first();
        assert forall|i: int| 0 <= i < rest.len() implies #[trigger] rest[i]
            == ChildPoll::Running by {
            assert(rest[i] == polls[i + 1]);
        }
        children_are_given_time(left - 1, rest);
    }
}

/// The local server listens on all interfaces, on its own port.
pub proof fn server_listens_on_its_port(port: u16, r: String)
    requires
        call_ensures(bind_address, (port,), r),
    ensures
        text::has_prefix(r@, "0.0.0.0:"@),
        text::decimal_value(r@.skip("0.0.0.0:"@.len() as int)) == port,
        text::all_digits(r@.skip("0.0.0.0:"@.len() as int)),
{
    let d = text::decimal(port as nat);
    text::decimal_reads_back(port as nat);
    text::prefix_is_the_start(r@, "0.0.0.0:"@, d);
    assert(r@.skip("0.0.0.0:"@.len() as int) =~= d);
}

// ── What the commands promise ─────────────────────────────────────────────────

/// A published frame is the one that clients get from then on, under a new
/// number; a stop ends the server and touches nothing else.
pub proof fn published_frames_are_the_latest(
    call: (&mut LocalStream, Vec<u8>),
    stop: (&mut LocalStream,),
)
    requires
        call_ensures(LocalStream::publish, call, ()),
        call_ensures(LocalStream::stop, stop, ()),
    ensures
        final(call.0)@.frame == Some(call.1@),
        final(call.0)@.number != old(call.0)@.number,
        final(call.0)@.number != 0,
        final(call.0)@.running == old(call.0)@.running,
        final(call.0)@.port == old(call.0)@.port,
        !final(stop.0)@.running,
        final(stop.0)@.frame == old(stop.0)@.frame,
        final(stop.0)@.number == old(stop.0)@.number,
        final(stop.0)@.port == old(stop.0)@.port,
{
}

/// A client is written the latest frame exactly where it has not got it yet,
/// nothing once the server is to end, and else waits.
pub proof fn clients_get_each_frame_once(
    call: (&mut MjpegClient, &LocalStream),
    r: MjpegAction,
)
    requires
        call_ensures(MjpegClient::step, call, r),
    ensures
        ({
            let s = call.1@;
            &&& !s.running ==> r is Exit
            &&& s.running && s.frame is None ==> r is SleepMs
            &&& s.running && s.frame is Some && s.number == old(call.0)@ ==> r is SleepMs
            &&& s.running && s.frame is Some && s.number != old(call.0)@ ==> {
                &&& r matches MjpegAction::Send(bytes) && bytes@ == part_bytes(s.frame->0)
                &&& final(call.0)@ == s.number
            }
            &&& !(r is Send) ==> final(call.0)@ == old(call.0)@
            &&& r matches MjpegAction::SleepMs(ms) ==> 0 < ms <= 100
        }),
{
}

/// A push has a pipe to write to until it is stopped, and is then waited for
/// where its `ffmpeg` was there.
pub proof fn pushes_end_when_stopped(
    url: &str,
    started: Result<bool, String>,
    r: Result<PushStream, String>,
    stop: (&mut PushStream,),
    wait: Option<PushStop>,
)
    requires
        call_ensures(PushStream::start, (url, started), r),
        call_ensures(PushStream::stop, stop, wait),
    ensures
        r is Ok <==> started is Ok,
        r matches Ok(p) ==> p@.child && p@.stdin == started->Ok_0,
        started matches Err(e) ==> text::has_suffix(r->Err_0@, e@),
        !final(stop.0)@.stdin,
        !final(stop.0)@.child,
        wait is Some <==> old(stop.0)@.child,
        wait matches Some(w) ==> w@ == STOP_POLLS,
{
    if let Err(e) = started {
        text::suffix_is_the_end(e@, e@, "ffmpeg push spawn (url="@ + url@ + "): "@);
    }
}

/// A server that listens runs on its port without a frame; what clients get is
/// the frame that it holds, and it looks for the next client after each, or after
/// a while.
pub proof fn servers_start_empty(
    port: u16,
    listening: Result<(), ListenError>,
    r: Result<LocalStream, String>,
    stream: LocalStream,
    frame: Option<Frame>,
    event: AcceptEvent,
    action: AcceptAction,
)
    requires
        call_ensures(LocalStream::start, (port, listening), r),
        call_ensures(LocalStream::snapshot, (&stream,), frame),
        call_ensures(accept_step, (event,), action),
    ensures
        r is Ok <==> listening is Ok,
        r matches Ok(s) ==> s@.running && s@.frame is None && s@.number == 0 && s@.port == port,
        frame is Some <==> stream@.frame is Some,
        frame matches Some(f) ==> (*f.jpeg)@ == stream@.frame->0 && f.number == stream@.number,
        action == AcceptAction::Serve <==> event == AcceptEvent::Client,
        action == AcceptAction::Exit <==> event == AcceptEvent::Failed,
        action == AcceptAction::SleepMs(100) <==> event == AcceptEvent::WouldBlock,
{
}

} // verus!
