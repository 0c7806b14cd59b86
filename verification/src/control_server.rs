//! The control server: what each request asks for, what it does to the machine's shared state,
//! and what it is answered.
//!
//! Serving a request takes two parts. `handle` reads the request and names the `Action` it asks
//! for; the function of that action then works on the one piece of shared state that it needs,
//! so no lock is held longer than that, and returns the bytes to answer.

use vstd::prelude::*;
#[allow(unused_imports)]
use vstd::utf8::{decode_utf8, encode_utf8, valid_utf8};

use crate::audio::AudioCapture;
use crate::debugger::{dump_registers, read_mem, read_registers, DebugResp, RegisterDump};
#[allow(unused_imports)]
use crate::debugger::{memory_read, register_dump, registers_read};
use crate::http::{append_bytes, decode_lossy, json, json_error, request_line, respond, OCTETS, PIXMAP};
#[allow(unused_imports)]
use crate::http::{
    error_text, json_response, lossy_text, method_of, path_of, query_of, response, target_of,
};
use crate::link::DebugLink;
#[allow(unused_imports)]
use crate::link::LinkEvent;
use crate::query::{query_int, query_str};
#[allow(unused_imports)]
use crate::query::{query_number, query_value};
use crate::text::{append_decimal, same_text};
#[allow(unused_imports)]
use crate::text::decimal;

verus! {

/// The version of the control contract that the server conforms to.
pub const CONTRACT: &'static str = "0.2.0";

/// The machine that is emulated.
pub const PLATFORM: &'static str = "agon";

/// The name of the emulator.
pub const EMULATOR: &'static str = "fab-agon-emulator";

/// How long a step may take, in milliseconds.
pub const STEP_TIMEOUT_MS: u64 = 5000;

/// The largest number of bytes that one memory read may ask for.
pub const MEM_MAX: u32 = 0x10000;

/// Queued key events, each a virtual key and whether it is down.
pub type KeyQueue = Vec<(u32, u8)>;

/// What the render thread shares: the latest frame, the frame counter and the run budget.
pub struct FrameSnapshot {
    pub width: u32,
    pub height: u32,
    /// The latest frame, RGB24, top to bottom.
    pub rgb: Vec<u8>,
    /// How many frames were completed.
    pub frame: u64,
    /// -1 runs freely, 0 is halted, and a positive number runs that many frames and then halts.
    pub budget: i64,
}

impl FrameSnapshot {
    /// The budget has one of its three meanings.
    pub open spec fn wf(&self) -> bool {
        self.budget >= -1
    }

    /// The snapshot once one more frame is completed: the counter goes up, and a budget of frames
    /// goes down.
    pub open spec fn completed(self) -> FrameSnapshot {
        FrameSnapshot {
            frame: (self.frame + 1) as u64,
            budget: if self.budget > 0 {
                (self.budget - 1) as i64
            } else {
                self.budget
            },
            ..self
        }
    }

    /// The snapshot with another budget.
    pub open spec fn with_budget(self, budget: i64) -> FrameSnapshot {
        FrameSnapshot { budget, ..self }
    }

    /// Counts a completed frame, and says whether the CPU has to halt now. The render thread
    /// calls it once for each frame that the machine ran.
    pub fn complete_frame(&mut self) -> (halt: bool)
        requires
            old(self).budget != 0,
            old(self).frame < u64::MAX,
        ensures
            *final(self) == old(self).completed(),
            final(self).frame == old(self).frame + 1,
            old(self).budget > 0 ==> final(self).budget == old(self).budget - 1,
            old(self).budget < 0 ==> final(self).budget == old(self).budget,
            final(self).width == old(self).width,
            final(self).height == old(self).height,
            final(self).rgb == old(self).rgb,
            halt == (final(self).budget == 0),
    {
        self.frame = self.frame + 1;
        if self.budget > 0 {
            self.budget = self.budget - 1;
        }
        self.budget == 0
    }
}

impl Default for FrameSnapshot {
    fn default() -> (snapshot: Self)
        ensures
            snapshot.width == 0,
            snapshot.height == 0,
            snapshot.rgb@ == Seq::<u8>::empty(),
            snapshot.frame == 0,
            snapshot.budget == -1,
            snapshot.wf(),
    {
        FrameSnapshot { width: 0, height: 0, rgb: Vec::new(), frame: 0, budget: -1 }
    }
}

/// A path that the server knows.
#[derive(Clone, Copy, Debug, PartialEq, Eq, Structural)]
pub enum Endpoint {
    Status,
    Screenshot,
    Audio,
    Mem,
    Regs,
    Step,
    Pause,
    Resume,
    Key,
    Reset,
}

impl Endpoint {
    /// The path of the endpoint.
    pub open spec fn path(self) -> Seq<char> {
        match self {
            Endpoint::Status => "/status"@,
            Endpoint::Screenshot => "/screenshot"@,
            Endpoint::Audio => "/audio"@,
            Endpoint::Mem => "/mem"@,
            Endpoint::Regs => "/regs"@,
            Endpoint::Step => "/step"@,
            Endpoint::Pause => "/pause"@,
            Endpoint::Resume => "/resume"@,
            Endpoint::Key => "/key"@,
            Endpoint::Reset => "/reset"@,
        }
    }

    /// Whether the endpoint only reports, and is asked by `GET`; the others act, and are asked
    /// by `POST`.
    pub open spec fn reports(self) -> bool {
        match self {
            Endpoint::Status => true,
            Endpoint::Screenshot => true,
            Endpoint::Audio => true,
            Endpoint::Mem => true,
            Endpoint::Regs => true,
            _ => false,
        }
    }

    /// The method that the endpoint is asked by.
    pub open spec fn method(self) -> Seq<char> {
        if self.reports() {
            "GET"@
        } else {
            "POST"@
        }
    }

    /// Whether `method` is the one that the endpoint is asked by.
    pub fn takes(&self, method: &str) -> (yes: bool)
        ensures
            yes == (method@ == self.method()),
    {
        match *self {
            Endpoint::Status
            | Endpoint::Screenshot
            | Endpoint::Audio
            | Endpoint::Mem
            | Endpoint::Regs => same_text(method, "GET"),
            _ => same_text(method, "POST"),
        }
    }
}

/// The endpoint whose path is `path`.
pub open spec fn endpoint_at(path: Seq<char>) -> Option<Endpoint> {
    if path == Endpoint::Status.path() {
        Some(Endpoint::Status)
    } else if path == Endpoint::Screenshot.path() {
        Some(Endpoint::Screenshot)
    } else if path == Endpoint::Audio.path() {
        Some(Endpoint::Audio)
    } else if path == Endpoint::Mem.path() {
        Some(Endpoint::Mem)
    } else if path == Endpoint::Regs.path() {
        Some(Endpoint::Regs)
    } else if path == Endpoint::Step.path() {
        Some(Endpoint::Step)
    } else if path == Endpoint::Pause.path() {
        Some(Endpoint::Pause)
    } else if path == Endpoint::Resume.path() {
        Some(Endpoint::Resume)
    } else if path == Endpoint::Key.path() {
        Some(Endpoint::Key)
    } else if path == Endpoint::Reset.path() {
        Some(Endpoint::Reset)
    } else {
        None
    }
}

/// The endpoint whose path is `path`.
pub fn find_endpoint(path: &str) -> (endpoint: Option<Endpoint>)
    ensures
        endpoint == endpoint_at(path@),
{
    if same_text(path, "/status") {
        Some(Endpoint::Status)
    } else if same_text(path, "/screenshot") {
        Some(Endpoint::Screenshot)
    } else if same_text(path, "/audio") {
        Some(Endpoint::Audio)
    } else if same_text(path, "/mem") {
        Some(Endpoint::Mem)
    } else if same_text(path, "/regs") {
        Some(Endpoint::Regs)
    } else if same_text(path, "/step") {
        Some(Endpoint::Step)
    } else if same_text(path, "/pause") {
        Some(Endpoint::Pause)
    } else if same_text(path, "/resume") {
        Some(Endpoint::Resume)
    } else if same_text(path, "/key") {
        Some(Endpoint::Key)
    } else if same_text(path, "/reset") {
        Some(Endpoint::Reset)
    } else {
        None
    }
}

/// Why a request is not served.
#[derive(Clone, Copy, Debug, PartialEq, Eq, Structural)]
pub enum Refusal {
    /// No frame was captured yet.
    NoFrame,
    /// The query of a memory read is not one.
    MemUsage,
    /// The eZ80 thread did not report the memory.
    MemTimeout,
    /// The eZ80 thread is gone.
    Ez80Gone,
    /// The eZ80 thread did not report the registers.
    RegsTimeout,
    /// The query of a key injection names no key.
    KeyUsage,
    /// The key stands for no virtual key.
    UnmappedKey,
    /// The path is known, and is not asked by this method.
    MethodNotAllowed,
    /// The path is not known.
    NotFound,
}

impl Refusal {
    /// The status code that the refusal is answered with.
    pub open spec fn code(self) -> u16 {
        match self {
            Refusal::NoFrame => 503,
            Refusal::MemUsage => 400,
            Refusal::MemTimeout => 504,
            Refusal::Ez80Gone => 500,
            Refusal::RegsTimeout => 504,
            Refusal::KeyUsage => 400,
            Refusal::UnmappedKey => 400,
            Refusal::MethodNotAllowed => 405,
            Refusal::NotFound => 404,
        }
    }

    /// The message that the refusal is answered with.
    pub open spec fn message(self) -> Seq<char> {
        match self {
            Refusal::NoFrame => "no frame captured yet"@,
            Refusal::MemUsage => "usage: /mem?addr=<n>&len=<0..65536>"@,
            Refusal::MemTimeout => "mem read timed out"@,
            Refusal::Ez80Gone => "eZ80 gone"@,
            Refusal::RegsTimeout => "regs read timed out"@,
            Refusal::KeyUsage => "usage: /key?text=<char>|code=<vk>[&down=0|1]"@,
            Refusal::UnmappedKey => "unmapped key"@,
            Refusal::MethodNotAllowed => "method not allowed"@,
            Refusal::NotFound => "not found"@,
        }
    }

    /// The whole response that answers the refusal.
    pub open spec fn response(self) -> Seq<u8> {
        json_response(self.code(), error_text(self.message()))
    }
}

/// Answers a refusal.
pub fn refuse(refusal: Refusal) -> (reply: Vec<u8>)
    ensures
        reply@ == refusal.response(),
{
    match refusal {
        Refusal::NoFrame => json_error(503, "no frame captured yet"),
        Refusal::MemUsage => json_error(400, "usage: /mem?addr=<n>&len=<0..65536>"),
        Refusal::MemTimeout => json_error(504, "mem read timed out"),
        Refusal::Ez80Gone => json_error(500, "eZ80 gone"),
        Refusal::RegsTimeout => json_error(504, "regs read timed out"),
        Refusal::KeyUsage => json_error(400, "usage: /key?text=<char>|code=<vk>[&down=0|1]"),
        Refusal::UnmappedKey => json_error(400, "unmapped key"),
        Refusal::MethodNotAllowed => json_error(405, "method not allowed"),
        Refusal::NotFound => json_error(404, "not found"),
    }
}

/// How a key injection names its key.
#[derive(Clone, Copy, Debug, PartialEq, Eq, Structural)]
pub enum KeyChoice {
    /// By its virtual key.
    Code(u32),
    /// By a character that it types.
    Text(char),
}

/// What a key injection does with its key.
#[derive(Clone, Copy, Debug, PartialEq, Eq, Structural)]
pub enum KeyMotion {
    Press,
    Release,
    /// A press, then a release.
    Tap,
}

/// What a request asks for.
#[derive(Clone, Copy, Debug, PartialEq, Eq, Structural)]
pub enum Action {
    Status,
    Screenshot,
    Audio,
    Mem { addr: u32, len: u32 },
    Regs,
    Step { frames: u32 },
    Pause,
    Resume,
    Key { key: KeyChoice, motion: KeyMotion },
    Reset,
    /// Nothing that is served.
    Refuse(Refusal),
}

/// What a memory read asks for: both numbers are needed, and the length is bounded. Other pairs
/// of the query play no part.
pub open spec fn mem_action(query: Seq<char>) -> Action {
    match (query_number(query, "addr"@), query_number(query, "len"@)) {
        (Some(addr), Some(len)) => if len <= MEM_MAX {
            Action::Mem { addr, len }
        } else {
            Action::Refuse(Refusal::MemUsage)
        },
        _ => Action::Refuse(Refusal::MemUsage),
    }
}

/// What a step asks for: at least one frame, and one where the query names no number.
pub open spec fn step_action(query: Seq<char>) -> Action {
    match query_number(query, "frames"@) {
        Some(frames) => Action::Step {
            frames: if frames < 1 {
                1
            } else {
                frames
            },
        },
        None => Action::Step { frames: 1 },
    }
}

/// The key that a key injection names: its code where that is a number, else the first character
/// of its text.
pub open spec fn key_choice(query: Seq<char>) -> Option<KeyChoice> {
    match query_number(query, "code"@) {
        Some(vk) => Some(KeyChoice::Code(vk)),
        None => match query_value(query, "text"@) {
            Some(text) => if text.len() > 0 {
                Some(KeyChoice::Text(text[0]))
            } else {
                None
            },
            None => None,
        },
    }
}

/// What a key injection does: 0 releases, another number presses, and no number taps.
pub open spec fn key_motion(query: Seq<char>) -> KeyMotion {
    match query_number(query, "down"@) {
        Some(down) => if down == 0 {
            KeyMotion::Release
        } else {
            KeyMotion::Press
        },
        None => KeyMotion::Tap,
    }
}

/// What a key injection asks for.
pub open spec fn key_action(query: Seq<char>) -> Action {
    match key_choice(query) {
        Some(key) => Action::Key { key, motion: key_motion(query) },
        None => Action::Refuse(Refusal::KeyUsage),
    }
}

/// What a request to an endpoint asks for, by the endpoint's method.
pub open spec fn endpoint_action(endpoint: Endpoint, query: Seq<char>) -> Action {
    match endpoint {
        Endpoint::Status => Action::Status,
        Endpoint::Screenshot => Action::Screenshot,
        Endpoint::Audio => Action::Audio,
        Endpoint::Mem => mem_action(query),
        Endpoint::Regs => Action::Regs,
        Endpoint::Step => step_action(query),
        Endpoint::Pause => Action::Pause,
        Endpoint::Resume => Action::Resume,
        Endpoint::Key => key_action(query),
        Endpoint::Reset => Action::Reset,
    }
}

/// What a request asks for. A known path asked by another method is not allowed, and any other
/// path is not found.
pub open spec fn requested(method: Seq<char>, path: Seq<char>, query: Seq<char>) -> Action {
    match endpoint_at(path) {
        Some(endpoint) => if method == endpoint.method() {
            endpoint_action(endpoint, query)
        } else {
            Action::Refuse(Refusal::MethodNotAllowed)
        },
        None => Action::Refuse(Refusal::NotFound),
    }
}

/// What a request asks for, from its text.
pub open spec fn text_action(text: Seq<char>) -> Action {
    requested(method_of(text), path_of(target_of(text)), query_of(target_of(text)))
}

/// Reads the query of a memory read.
fn route_mem(query: &str) -> (action: Action)
    ensures
        action == mem_action(query@),
{
    match (query_int(query, "addr"), query_int(query, "len")) {
        (Some(addr), Some(len)) => {
            if len <= MEM_MAX {
                Action::Mem { addr, len }
            } else {
                Action::Refuse(Refusal::MemUsage)
            }
        },
        _ => Action::Refuse(Refusal::MemUsage),
    }
}

/// Reads the query of a step.
fn route_step(query: &str) -> (action: Action)
    ensures
        action == step_action(query@),
{
    match query_int(query, "frames") {
        Some(frames) => Action::Step {
            frames: if frames < 1 {
                1
            } else {
                frames
            },
        },
        None => Action::Step { frames: 1 },
    }
}

/// Reads the query of a key injection.
fn route_key(query: &str) -> (action: Action)
    ensures
        action == key_action(query@),
{
    let key = match query_int(query, "code") {
        Some(vk) => KeyChoice::Code(vk),
        None => match query_str(query, "text") {
            Some(text) => {
                if text.unicode_len() == 0 {
                    return Action::Refuse(Refusal::KeyUsage);
                }
                KeyChoice::Text(text.get_char(0))
            },
            None => {
                return Action::Refuse(Refusal::KeyUsage);
            },
        },
    };
    let motion = match query_int(query, "down") {
        Some(down) => if down == 0 {
            KeyMotion::Release
        } else {
            KeyMotion::Press
        },
        None => KeyMotion::Tap,
    };
    Action::Key { key, motion }
}

/// Names what a request asks for.
pub fn route(method: &str, path: &str, query: &str) -> (action: Action)
    ensures
        action == requested(method@, path@, query@),
{
    match find_endpoint(path) {
        Some(endpoint) => {
            if endpoint.takes(method) {
                match endpoint {
                    Endpoint::Status => Action::Status,
                    Endpoint::Screenshot => Action::Screenshot,
                    Endpoint::Audio => Action::Audio,
                    Endpoint::Mem => route_mem(query),
                    Endpoint::Regs => Action::Regs,
                    Endpoint::Step => route_step(query),
                    Endpoint::Pause => Action::Pause,
                    Endpoint::Resume => Action::Resume,
                    Endpoint::Key => route_key(query),
                    Endpoint::Reset => Action::Reset,
                }
            } else {
                Action::Refuse(Refusal::MethodNotAllowed)
            }
        },
        None => Action::Refuse(Refusal::NotFound),
    }
}

/// Names what a request asks for, from its text.
pub fn handle_text(text: &str) -> (action: Action)
    ensures
        action == text_action(text@),
{
    let line = request_line(text);
    route(line.method, line.path, line.query)
}

/// Names what a request asks for, from its bytes.
pub fn handle(request: &[u8]) -> (action: Action)
    ensures
        action == text_action(lossy_text(request@)),
        valid_utf8(request@) ==> action == text_action(decode_utf8(request@)),
{
    let text = decode_lossy(request);
    handle_text(text.as_str())
}

/// A truth value in JSON.
pub open spec fn bool_text(b: bool) -> Seq<char> {
    if b {
        "true"@
    } else {
        "false"@
    }
}

/// The JSON body of a status report.
pub open spec fn status_json(frame: u64, paused: bool) -> Seq<char> {
    "{\"contract\":\""@ + CONTRACT@ + "\",\"emulator\":\""@ + EMULATOR@ + "\",\"platform\":\""@
        + PLATFORM@ + "\",\"frame\":"@ + decimal(frame as nat) + ",\"paused\":"@ + bool_text(paused)
        + ",\"running\":true}"@
}

/// The response that reports the status: the frame counter, and whether the machine is halted.
pub open spec fn status_response(frame: FrameSnapshot) -> Seq<u8> {
    json_response(200, status_json(frame.frame, frame.budget == 0))
}

/// Reports the status.
pub fn status(frame: &FrameSnapshot) -> (reply: Vec<u8>)
    ensures
        reply@ == status_response(*frame),
{
    let paused = frame.budget == 0;
    let mut text = String::new();
    text.append("{\"contract\":\"");
    text.append(CONTRACT);
    text.append("\",\"emulator\":\"");
    text.append(EMULATOR);
    text.append("\",\"platform\":\"");
    text.append(PLATFORM);
    text.append("\",\"frame\":");
    append_decimal(&mut text, frame.frame);
    text.append(",\"paused\":");
    text.append(if paused {
        "true"
    } else {
        "false"
    });
    text.append(",\"running\":true}");
    assert(text@ =~= status_json(frame.frame, paused));
    json(200, text.as_str())
}

/// The head of a binary portable pixmap with 8 bits for each colour.
pub open spec fn pixmap_head(width: u32, height: u32) -> Seq<char> {
    "P6\n"@ + decimal(width as nat) + " "@ + decimal(height as nat) + "\n255\n"@
}

/// The response that shows a frame, once there is one.
pub open spec fn screenshot_response(frame: FrameSnapshot) -> Seq<u8> {
    if frame.width == 0 {
        Refusal::NoFrame.response()
    } else {
        response(
            200,
            PIXMAP@,
            encode_utf8(pixmap_head(frame.width, frame.height)) + frame.rgb@,
        )
    }
}

/// Shows the latest frame.
pub fn screenshot(frame: &FrameSnapshot) -> (reply: Vec<u8>)
    ensures
        reply@ == screenshot_response(*frame),
        frame.width == 0 ==> reply@ == Refusal::NoFrame.response(),
        frame.width != 0 ==> reply@ == response(
            200,
            PIXMAP@,
            encode_utf8(
                "P6\n"@ + decimal(frame.width as nat) + " "@ + decimal(frame.height as nat)
                    + "\n255\n"@,
            ) + frame.rgb@,
        ),
{
    if frame.width == 0 {
        return refuse(Refusal::NoFrame);
    }
    let mut head = String::new();
    head.append("P6\n");
    append_decimal(&mut head, frame.width as u64);
    head.append(" ");
    append_decimal(&mut head, frame.height as u64);
    head.append("\n255\n");
    assert(head@ =~= pixmap_head(frame.width, frame.height));
    let mut body: Vec<u8> = Vec::new();
    append_bytes(&mut body, head.as_str().as_bytes());
    append_bytes(&mut body, frame.rgb.as_slice());
    assert(body@ =~= encode_utf8(pixmap_head(frame.width, frame.height)) + frame.rgb@);
    respond(200, PIXMAP, body.as_slice())
}

/// Hands out the sound captured since the last call.
pub fn audio(capture: &mut AudioCapture) -> (reply: Vec<u8>)
    ensures
        reply@ == response(200, OCTETS@, old(capture).samples@),
        final(capture).samples@ == Seq::<u8>::empty(),
        final(capture).dropped == 0,
{
    let taken = capture.drain();
    respond(200, OCTETS, taken.samples.as_slice())
}

/// The response to a memory read that brought `data`.
pub open spec fn mem_response(data: Option<Vec<u8>>) -> Seq<u8> {
    match data {
        Some(bytes) => response(200, OCTETS@, bytes@),
        None => Refusal::MemTimeout.response(),
    }
}

/// Answers a memory read that brought `data`.
pub fn mem_reply(data: Option<Vec<u8>>) -> (reply: Vec<u8>)
    ensures
        reply@ == mem_response(data),
        match data {
            Some(bytes) => reply@ == response(200, OCTETS@, bytes@),
            None => reply@ == Refusal::MemTimeout.response(),
        },
{
    match data {
        Some(bytes) => respond(200, OCTETS, bytes.as_slice()),
        None => refuse(Refusal::MemTimeout),
    }
}

/// Reads memory through the eZ80 thread, and answers with what it reported: with all the bytes of
/// the report of that address that the read ended with, if it did.
pub fn mem(link: &mut DebugLink, addr: u32, len: u32) -> (reply: Vec<u8>)
    ensures
        final(link).follows(old(link)),
        exists|data: Option<Vec<u8>>|
            memory_read(final(link).since(old(link)), addr, len, data) && reply@
                == #[trigger] mem_response(data),
        exists|data: Option<Vec<u8>>| #[trigger]
            memory_read(final(link).since(old(link)), addr, len, data) && match data {
                Some(bytes) => reply@ == response(200, OCTETS@, bytes@),
                None => reply@ == Refusal::MemTimeout.response(),
            },
        len == 0 ==> final(link).since(old(link)).len() == 0 && reply@ == response(
            200,
            OCTETS@,
            Seq::empty(),
        ),
        len > 0 ==> final(link).since(old(link)).len() > 0 && reply@ == (match final(link).since(
            old(link),
        ).last() {
            LinkEvent::Heard(DebugResp::Memory { start, data }) => if start == addr {
                response(200, OCTETS@, data@)
            } else {
                Refusal::MemTimeout.response()
            },
            _ => Refusal::MemTimeout.response(),
        }),
{
    let ghost before = *link;
    let data = read_mem(link, addr, len);
    proof {
        let events = link.since(&before);
        if events.len() > 1 {
            assert(events.skip(1).last() == events.last());
        }
    }
    mem_reply(data)
}

/// The JSON body that shows registers; all of them in decimal, the ADL flag as 0 or 1.
pub open spec fn regs_json(dump: RegisterDump) -> Seq<char> {
    "{\"af\":"@ + decimal(dump.af as nat) + ",\"bc\":"@ + decimal(dump.bc as nat) + ",\"de\":"@
        + decimal(dump.de as nat) + ",\"hl\":"@ + decimal(dump.hl as nat) + ",\"ix\":"@ + decimal(
        dump.ix as nat,
    ) + ",\"iy\":"@ + decimal(dump.iy as nat) + ",\"sp\":"@ + decimal(dump.sp as nat) + ",\"pc\":"@
        + decimal(dump.pc as nat) + ",\"mbase\":"@ + decimal(dump.mbase as nat) + ",\"adl\":"@
        + decimal(
        if dump.adl {
            1
        } else {
            0
        },
    ) + "}"@
}

/// Shows registers.
pub fn regs_reply(dump: &RegisterDump) -> (reply: Vec<u8>)
    ensures
        reply@ == json_response(200, regs_json(*dump)),
{
    let mut text = String::new();
    text.append("{\"af\":");
    append_decimal(&mut text, dump.af as u64);
    text.append(",\"bc\":");
    append_decimal(&mut text, dump.bc as u64);
    text.append(",\"de\":");
    append_decimal(&mut text, dump.de as u64);
    text.append(",\"hl\":");
    append_decimal(&mut text, dump.hl as u64);
    text.append(",\"ix\":");
    append_decimal(&mut text, dump.ix as u64);
    text.append(",\"iy\":");
    append_decimal(&mut text, dump.iy as u64);
    text.append(",\"sp\":");
    append_decimal(&mut text, dump.sp as u64);
    text.append(",\"pc\":");
    append_decimal(&mut text, dump.pc as u64);
    text.append(",\"mbase\":");
    append_decimal(&mut text, dump.mbase as u64);
    text.append(",\"adl\":");
    append_decimal(
        &mut text,
        if dump.adl {
            1
        } else {
            0
        },
    );
    text.append("}");
    assert(text@ =~= regs_json(*dump));
    json(200, text.as_str())
}

/// The response to a question for the registers that brought `found`: `None` where the eZ80 thread
/// is gone, else what a wait for its report came to.
pub open spec fn regs_response(found: Option<Option<DebugResp>>) -> Seq<u8> {
    match found {
        None => Refusal::Ez80Gone.response(),
        Some(Some(DebugResp::Registers(r))) => json_response(200, regs_json(register_dump(r))),
        Some(_) => Refusal::RegsTimeout.response(),
    }
}

/// Answers a question for the registers that brought `found`.
pub fn regs_found(found: Option<Option<DebugResp>>) -> (reply: Vec<u8>)
    ensures
        reply@ == regs_response(found),
{
    match found {
        None => refuse(Refusal::Ez80Gone),
        Some(Some(DebugResp::Registers(r))) => regs_reply(&dump_registers(&r)),
        Some(_) => refuse(Refusal::RegsTimeout),
    }
}

/// Shows the registers, as the eZ80 thread reports them.
pub fn regs(link: &mut DebugLink) -> (reply: Vec<u8>)
    ensures
        final(link).follows(old(link)),
        exists|found: Option<Option<DebugResp>>|
            registers_read(final(link).since(old(link)), found) && reply@
                == #[trigger] regs_response(found),
        final(link).since(old(link)).len() > 0,
        reply@ == (match final(link).since(old(link)).last() {
            LinkEvent::Heard(DebugResp::Registers(r)) => json_response(
                200,
                regs_json(register_dump(r)),
            ),
            LinkEvent::Undelivered(_) => Refusal::Ez80Gone.response(),
            _ => Refusal::RegsTimeout.response(),
        }),
{
    let ghost before = *link;
    let found = read_registers(link);
    proof {
        let events = link.since(&before);
        if events.len() > 1 {
            assert(events.skip(1).last() == events.last());
        }
    }
    regs_found(found)
}

/// Starts a step: the machine is to run `frames` frames, and the CPU runs again.
pub fn begin_step(frame: &mut FrameSnapshot, ez80_paused: &mut bool, frames: u32)
    ensures
        *final(frame) == old(frame).with_budget(frames as i64),
        final(frame).budget == frames,
        final(frame).frame == old(frame).frame,
        final(frame).width == old(frame).width,
        final(frame).height == old(frame).height,
        final(frame).rgb == old(frame).rgb,
        final(frame).wf(),
        !*final(ez80_paused),
{
    frame.budget = frames as i64;
    *ez80_paused = false;
}

/// How a step stands.
#[derive(Clone, Copy, Debug, PartialEq, Eq, Structural)]
pub enum StepPoll {
    /// Frames are still to run.
    Running,
    /// All frames were run, and the render thread halted the CPU.
    Finished { frame: u64 },
    /// The time is up, and the CPU is to be halted.
    Expired { frame: u64 },
}

/// How a step stands, by the budget that is left and by whether its time is up.
pub open spec fn step_poll(frame: FrameSnapshot, expired: bool) -> StepPoll {
    if frame.budget == 0 {
        StepPoll::Finished { frame: frame.frame }
    } else if expired {
        StepPoll::Expired { frame: frame.frame }
    } else {
        StepPoll::Running
    }
}

/// Looks how a step stands, and halts the machine where its time is up.
pub fn poll_step(frame: &mut FrameSnapshot, expired: bool) -> (poll: StepPoll)
    ensures
        poll == step_poll(*old(frame), expired),
        *final(frame) == (if poll is Running {
            *old(frame)
        } else {
            old(frame).with_budget(0)
        }),
        final(frame).budget == (if expired {
            0
        } else {
            old(frame).budget
        }),
        final(frame).frame == old(frame).frame,
        final(frame).width == old(frame).width,
        final(frame).height == old(frame).height,
        final(frame).rgb == old(frame).rgb,
{
    if frame.budget == 0 {
        StepPoll::Finished { frame: frame.frame }
    } else if expired {
        frame.budget = 0;
        StepPoll::Expired { frame: frame.frame }
    } else {
        StepPoll::Running
    }
}

/// Looks how a step stands that was waited for `waited_ms` milliseconds. One that took longer than
/// a step may is ended here: the machine is halted, and the CPU is paused.
pub fn watch_step(frame: &mut FrameSnapshot, ez80_paused: &mut bool, waited_ms: u64) -> (poll:
    StepPoll)
    ensures
        poll == step_poll(*old(frame), waited_ms > STEP_TIMEOUT_MS),
        *final(frame) == (if poll is Running {
            *old(frame)
        } else {
            old(frame).with_budget(0)
        }),
        *final(ez80_paused) == (if poll is Expired {
            true
        } else {
            *old(ez80_paused)
        }),
        poll is Finished <==> old(frame).budget == 0,
        poll is Expired <==> old(frame).budget != 0 && waited_ms > 5000,
        final(frame).budget == (if waited_ms > 5000 {
            0
        } else {
            old(frame).budget
        }),
        final(frame).frame == old(frame).frame,
        final(frame).width == old(frame).width,
        final(frame).height == old(frame).height,
        final(frame).rgb == old(frame).rgb,
{
    let poll = poll_step(frame, waited_ms > STEP_TIMEOUT_MS);
    match poll {
        StepPoll::Expired { .. } => {
            *ez80_paused = true;
        },
        _ => {},
    }
    poll
}

/// The JSON body that answers a step.
pub open spec fn step_json(frame: u64) -> Seq<char> {
    "{\"frame\":"@ + decimal(frame as nat) + "}"@
}

/// Answers a step with the frame counter it ended on.
pub fn step_reply(frame: u64) -> (reply: Vec<u8>)
    ensures
        reply@ == json_response(200, step_json(frame)),
        reply@ == json_response(200, "{\"frame\":"@ + decimal(frame as nat) + "}"@),
{
    let mut text = String::new();
    text.append("{\"frame\":");
    append_decimal(&mut text, frame);
    text.append("}");
    assert(text@ =~= step_json(frame));
    json(200, text.as_str())
}

/// Halts the machine.
pub fn pause(frame: &mut FrameSnapshot, ez80_paused: &mut bool) -> (reply: Vec<u8>)
    ensures
        *final(frame) == old(frame).with_budget(0),
        final(frame).budget == 0,
        final(frame).frame == old(frame).frame,
        final(frame).width == old(frame).width,
        final(frame).height == old(frame).height,
        final(frame).rgb == old(frame).rgb,
        final(frame).wf(),
        *final(ez80_paused),
        reply@ == json_response(200, "{\"paused\":true}"@),
{
    frame.budget = 0;
    *ez80_paused = true;
    json(200, "{\"paused\":true}")
}

/// Lets the machine run freely.
pub fn resume(frame: &mut FrameSnapshot, ez80_paused: &mut bool) -> (reply: Vec<u8>)
    ensures
        *final(frame) == old(frame).with_budget(-1i64),
        final(frame).budget == -1,
        final(frame).frame == old(frame).frame,
        final(frame).width == old(frame).width,
        final(frame).height == old(frame).height,
        final(frame).rgb == old(frame).rgb,
        final(frame).wf(),
        !*final(ez80_paused),
        reply@ == json_response(200, "{\"paused\":false}"@),
{
    frame.budget = -1;
    *ez80_paused = false;
    json(200, "{\"paused\":false}")
}

/// The key events that a motion of a virtual key gives.
pub open spec fn key_events(vk: u32, motion: KeyMotion) -> Seq<(u32, u8)> {
    match motion {
        KeyMotion::Press => seq![(vk, 1u8)],
        KeyMotion::Release => seq![(vk, 0u8)],
        KeyMotion::Tap => seq![(vk, 1u8), (vk, 0u8)],
    }
}

/// Queues the events of a key injection. Virtual key 0 stands for no key.
pub fn inject_key(keys: &mut KeyQueue, vk: u32, motion: KeyMotion) -> (reply: Vec<u8>)
    ensures
        vk == 0 ==> final(keys)@ == old(keys)@ && reply@ == Refusal::UnmappedKey.response(),
        vk != 0 ==> final(keys)@ == old(keys)@ + key_events(vk, motion) && reply@ == json_response(
            200,
            "{\"injected\":true}"@,
        ),
        vk != 0 ==> final(keys)@ == (match motion {
            KeyMotion::Press => old(keys)@.push((vk, 1u8)),
            KeyMotion::Release => old(keys)@.push((vk, 0u8)),
            KeyMotion::Tap => old(keys)@.push((vk, 1u8)).push((vk, 0u8)),
        }),
{
    if vk == 0 {
        return refuse(Refusal::UnmappedKey);
    }
    match motion {
        KeyMotion::Press => keys.push((vk, 1)),
        KeyMotion::Release => keys.push((vk, 0)),
        KeyMotion::Tap => {
            keys.push((vk, 1));
            keys.push((vk, 0));
        },
    }
    assert(keys@ =~= old(keys)@ + key_events(vk, motion));
    json(200, "{\"injected\":true}")
}

/// Asks for a soft reset.
pub fn reset(soft_reset: &mut bool) -> (reply: Vec<u8>)
    ensures
        *final(soft_reset),
        reply@ == json_response(200, "{\"reset\":true}"@),
{
    *soft_reset = true;
    json(200, "{\"reset\":true}")
}

} // verus!
