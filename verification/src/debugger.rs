//! Asking the eZ80 thread: what is asked over the debugger channel, the search for the answer
//! among the responses, and the registers as a client is shown them.

use vstd::prelude::*;

use crate::link::{DebugLink, LinkEvent};
#[allow(unused_imports)]
use crate::link::wait_event;

verus! {

/// How long one wait for a response lasts, in milliseconds.
pub const CMD_TIMEOUT_MS: u64 = 1000;

/// `ez80::Registers`, most of whose fields are private to its crate.
#[verifier::external_type_specification]
#[verifier::external_body]
pub struct ExRegisters(ez80::Registers);

/// What a command asks of the eZ80 thread.
#[derive(Clone, Copy, Debug, PartialEq, Eq)]
pub enum DebugCmd {
    /// Report the registers.
    GetRegisters,
    /// Report `len` bytes of memory from `start` on.
    GetMemory { start: u32, len: u32 },
}

/// What the eZ80 thread reports.
pub enum DebugResp {
    /// The registers.
    Registers(ez80::Registers),
    /// The memory from `start` on.
    Memory { start: u32, data: Vec<u8> },
    /// Anything that no request here asks for.
    Other,
}

/// The 24 byte-wide registers that a register file holds, in the order of `ez80::Reg8`.
pub uninterp spec fn register_bytes(r: ez80::Registers) -> Seq<u8>;

/// The program counter that a register file holds.
pub uninterp spec fn register_pc(r: ez80::Registers) -> u32;

/// The `MBASE` register that a register file holds.
pub uninterp spec fn register_mbase(r: ez80::Registers) -> u8;

/// The ADL mode flag that a register file holds.
pub uninterp spec fn register_adl(r: ez80::Registers) -> bool;

/// A register that is made of two or of three bytes.
#[derive(Clone, Copy, Debug)]
pub enum LongRegister {
    Af,
    Bc,
    De,
    Hl,
    Ix,
    Iy,
    Sp,
}

/// The number that two bytes of `bytes` make, the high one first.
pub open spec fn word_at(bytes: Seq<u8>, i: int) -> int {
    bytes[i] * 0x100 + bytes[i + 1]
}

/// The number that three bytes of `bytes` make, the high one first.
pub open spec fn long_at(bytes: Seq<u8>, i: int) -> int {
    bytes[i] * 0x1_0000 + bytes[i + 1] * 0x100 + bytes[i + 2]
}

/// Where the three bytes of a 24-bit register start. The 24-bit stack pointer has bytes of its
/// own, and `AF` has no 24-bit form.
pub open spec fn long_index(rr: LongRegister) -> int {
    match rr {
        LongRegister::Af => -1,
        LongRegister::Bc => 2,
        LongRegister::De => 5,
        LongRegister::Hl => 8,
        LongRegister::Ix => 13,
        LongRegister::Iy => 16,
        LongRegister::Sp => 21,
    }
}

/// `ez80::Registers::get16` on `Reg16::AF`: the bytes `A` and `F`, the first two of the file.
#[verifier::external_body]
fn get16_af(r: &ez80::Registers) -> (v: u16)
    ensures
        v == word_at(register_bytes(*r), 0),
{
    r.get16(ez80::Reg16::AF)
}

/// `ez80::Registers::get24`: the three bytes of the register. It panics on `AF`, which has no
/// 24-bit form.
#[verifier::external_body]
fn get24(r: &ez80::Registers, rr: LongRegister) -> (v: u32)
    requires
        !(rr is Af),
    ensures
        v == long_at(register_bytes(*r), long_index(rr)),
{
    r.get24(match rr {
        LongRegister::Af => ez80::Reg16::AF,
        LongRegister::Bc => ez80::Reg16::BC,
        LongRegister::De => ez80::Reg16::DE,
        LongRegister::Hl => ez80::Reg16::HL,
        LongRegister::Ix => ez80::Reg16::IX,
        LongRegister::Iy => ez80::Reg16::IY,
        LongRegister::Sp => ez80::Reg16::SP,
    })
}

/// The public field `pc` of `ez80::Registers`.
#[verifier::external_body]
fn get_pc(r: &ez80::Registers) -> (v: u32)
    ensures
        v == register_pc(*r),
{
    r.pc
}

/// The public field `mbase` of `ez80::Registers`.
#[verifier::external_body]
fn get_mbase(r: &ez80::Registers) -> (v: u8)
    ensures
        v == register_mbase(*r),
{
    r.mbase
}

/// The public field `adl` of `ez80::Registers`.
#[verifier::external_body]
fn get_adl(r: &ez80::Registers) -> (v: bool)
    ensures
        v == register_adl(*r),
{
    r.adl
}

/// The registers that a client is shown: 24-bit registers, a 16-bit `AF`, the program counter,
/// the 8-bit `MBASE` and the ADL mode flag.
#[derive(Clone, Copy, Debug, PartialEq, Eq)]
pub struct RegisterDump {
    pub af: u16,
    pub bc: u32,
    pub de: u32,
    pub hl: u32,
    pub ix: u32,
    pub iy: u32,
    pub sp: u32,
    pub pc: u32,
    pub mbase: u8,
    pub adl: bool,
}

/// What a register file shows.
pub open spec fn register_dump(r: ez80::Registers) -> RegisterDump {
    let bytes = register_bytes(r);
    RegisterDump {
        af: word_at(bytes, 0) as u16,
        bc: long_at(bytes, long_index(LongRegister::Bc)) as u32,
        de: long_at(bytes, long_index(LongRegister::De)) as u32,
        hl: long_at(bytes, long_index(LongRegister::Hl)) as u32,
        ix: long_at(bytes, long_index(LongRegister::Ix)) as u32,
        iy: long_at(bytes, long_index(LongRegister::Iy)) as u32,
        sp: long_at(bytes, long_index(LongRegister::Sp)) as u32,
        pc: register_pc(r),
        mbase: register_mbase(r),
        adl: register_adl(r),
    }
}

/// Reads what a register file shows.
pub fn dump_registers(r: &ez80::Registers) -> (dump: RegisterDump)
    ensures
        dump == register_dump(*r),
        dump.af == register_bytes(*r)[0] * 0x100 + register_bytes(*r)[1],
        dump.bc == register_bytes(*r)[2] * 0x1_0000 + register_bytes(*r)[3] * 0x100
            + register_bytes(*r)[4],
        dump.de == register_bytes(*r)[5] * 0x1_0000 + register_bytes(*r)[6] * 0x100
            + register_bytes(*r)[7],
        dump.hl == register_bytes(*r)[8] * 0x1_0000 + register_bytes(*r)[9] * 0x100
            + register_bytes(*r)[10],
        dump.ix == register_bytes(*r)[13] * 0x1_0000 + register_bytes(*r)[14] * 0x100
            + register_bytes(*r)[15],
        dump.iy == register_bytes(*r)[16] * 0x1_0000 + register_bytes(*r)[17] * 0x100
            + register_bytes(*r)[18],
        dump.sp == register_bytes(*r)[21] * 0x1_0000 + register_bytes(*r)[22] * 0x100
            + register_bytes(*r)[23],
        dump.pc == register_pc(*r),
        dump.mbase == register_mbase(*r),
        dump.adl == register_adl(*r),
{
    RegisterDump {
        af: get16_af(r),
        bc: get24(r, LongRegister::Bc),
        de: get24(r, LongRegister::De),
        hl: get24(r, LongRegister::Hl),
        ix: get24(r, LongRegister::Ix),
        iy: get24(r, LongRegister::Iy),
        sp: get24(r, LongRegister::Sp),
        pc: get_pc(r),
        mbase: get_mbase(r),
        adl: get_adl(r),
    }
}

/// Every multi-byte register that a client is shown, the stack pointer included, fits in 24 bits.
pub proof fn law_registers_fit_in_24_bits(r: ez80::Registers)
    ensures
        register_dump(r).bc < 0x100_0000,
        register_dump(r).de < 0x100_0000,
        register_dump(r).hl < 0x100_0000,
        register_dump(r).ix < 0x100_0000,
        register_dump(r).iy < 0x100_0000,
        register_dump(r).sp < 0x100_0000,
{
}

/// A client is shown each register as the register file holds it: `AF` as its two bytes, the others
/// as their three, the high one first, and the program counter, `MBASE` and the mode flag
/// unchanged.
pub proof fn law_registers_are_shown_as_held(r: ez80::Registers)
    ensures
        register_dump(r).pc == register_pc(r),
        register_dump(r).mbase == register_mbase(r),
        register_dump(r).adl == register_adl(r),
        register_dump(r).af == register_bytes(r)[0] * 0x100 + register_bytes(r)[1],
        register_dump(r).bc == register_bytes(r)[2] * 0x1_0000 + register_bytes(r)[3] * 0x100
            + register_bytes(r)[4],
        register_dump(r).de == register_bytes(r)[5] * 0x1_0000 + register_bytes(r)[6] * 0x100
            + register_bytes(r)[7],
        register_dump(r).hl == register_bytes(r)[8] * 0x1_0000 + register_bytes(r)[9] * 0x100
            + register_bytes(r)[10],
        register_dump(r).ix == register_bytes(r)[13] * 0x1_0000 + register_bytes(r)[14] * 0x100
            + register_bytes(r)[15],
        register_dump(r).iy == register_bytes(r)[16] * 0x1_0000 + register_bytes(r)[17] * 0x100
            + register_bytes(r)[18],
        register_dump(r).sp == register_bytes(r)[21] * 0x1_0000 + register_bytes(r)[22] * 0x100
            + register_bytes(r)[23],
{
}

/// Two bytes are known by the number that they make, and so are three.
proof fn lemma_bytes_of_number(a: u8, b: u8, c: u8, x: u8, y: u8, z: u8)
    ensures
        a * 0x100 + b == x * 0x100 + y ==> a == x && b == y,
        a * 0x1_0000 + b * 0x100 + c == x * 0x1_0000 + y * 0x100 + z ==> a == x && b == y && c == z,
{
}

/// A register of three bytes holds the same where it makes the same number.
proof fn lemma_long_bytes(a: Seq<u8>, b: Seq<u8>, i: int)
    requires
        long_at(a, i) == long_at(b, i),
    ensures
        a[i] == b[i],
        a[i + 1] == b[i + 1],
        a[i + 2] == b[i + 2],
{
    lemma_bytes_of_number(a[i], a[i + 1], a[i + 2], b[i], b[i + 1], b[i + 2]);
}

/// Register files that are shown alike hold the same in everything that is shown.
pub proof fn law_registers_tell_apart(r: ez80::Registers, other: ez80::Registers)
    requires
        register_dump(r) == register_dump(other),
    ensures
        register_pc(r) == register_pc(other),
        register_mbase(r) == register_mbase(other),
        register_adl(r) == register_adl(other),
        forall|i: int|
            0 <= i < 11 || 13 <= i < 19 || 21 <= i < 24 ==> #[trigger] register_bytes(r)[i]
                == register_bytes(other)[i],
{
    let a = register_bytes(r);
    let b = register_bytes(other);
    lemma_bytes_of_number(a[0], a[1], 0, b[0], b[1], 0);
    lemma_long_bytes(a, b, 2);
    lemma_long_bytes(a, b, 5);
    lemma_long_bytes(a, b, 8);
    lemma_long_bytes(a, b, 13);
    lemma_long_bytes(a, b, 16);
    lemma_long_bytes(a, b, 21);
}

/// A response that is not the one sought.
pub open spec fn unrelated<F: Fn(&DebugResp) -> bool>(event: LinkEvent, pred: F) -> bool {
    event matches LinkEvent::Heard(resp) && pred.ensures((&resp,), false)
}

/// A wait that ends a search: one that lasted its full time and brought nothing, or one on a
/// channel whose senders are all gone.
pub open spec fn fruitless(event: LinkEvent) -> bool {
    match event {
        LinkEvent::Silence { millis } => millis == CMD_TIMEOUT_MS,
        LinkEvent::Closed => true,
        _ => false,
    }
}

/// A search for a response that satisfies `pred` went by these events, and came to `found`: it
/// skipped unrelated responses, and ended with the first that satisfies `pred`, or with the first
/// wait that brought none. No search looks at more than `u64::MAX` responses.
pub open spec fn searched<F: Fn(&DebugResp) -> bool>(
    events: Seq<LinkEvent>,
    pred: F,
    found: Option<DebugResp>,
) -> bool {
    &&& events.len() > 0
    &&& forall|i: int| 0 <= i < events.len() - 1 ==> unrelated(#[trigger] events[i], pred)
    &&& match found {
        Some(resp) => events.last() == LinkEvent::Heard(resp) && pred.ensures((&resp,), true),
        None => {
            ||| fruitless(events.last())
            ||| events.len() == u64::MAX && unrelated(events.last(), pred)
        },
    }
}

/// A search that found a response ended with it, and the test accepted it; one that found none
/// ended with a wait of a second that brought nothing, or with a closed channel. Every response
/// before that was heard and turned down by the test, so a search gives up for no other reason.
pub proof fn law_search_ends<F: Fn(&DebugResp) -> bool>(
    events: Seq<LinkEvent>,
    pred: F,
    found: Option<DebugResp>,
)
    requires
        events.len() < u64::MAX,
        searched(events, pred, found),
    ensures
        events.len() > 0,
        match found {
            Some(resp) => events[events.len() - 1] == LinkEvent::Heard(resp) && pred.ensures(
                (&resp,),
                true,
            ),
            None => events[events.len() - 1] == (LinkEvent::Silence { millis: 1000 })
                || events[events.len() - 1] == LinkEvent::Closed,
        },
        forall|i: int|
            0 <= i < events.len() - 1 ==> ((#[trigger] events[i]) matches LinkEvent::Heard(resp)
                && pred.ensures((&resp,), false)),
        CMD_TIMEOUT_MS == 1000,
{
    assert forall|i: int| 0 <= i < events.len() - 1 implies ((#[trigger] events[i]) matches LinkEvent::Heard(
        resp,
    ) && pred.ensures((&resp,), false)) by {
        assert(unrelated(events[i], pred));
    }
}

/// Receives responses, skipping unrelated ones, until one satisfies `pred` or a wait brings none.
/// Once the channel is closed, a search ends at its first wait.
pub fn recv_until<F: Fn(&DebugResp) -> bool>(link: &mut DebugLink, pred: F) -> (found: Option<
    DebugResp,
>)
    requires
        forall|resp: &DebugResp| #[trigger] pred.requires((resp,)),
    ensures
        final(link).follows(old(link)),
        searched(final(link).since(old(link)), pred, found),
        old(link).closed() ==> found is None && final(link).since(old(link)) == seq![
            LinkEvent::Closed,
        ],
{
    let ghost start = link.log();
    assert(link.log() =~= start + link.log().skip(start.len() as int));
    for i in 0..u64::MAX
        invariant
            forall|resp: &DebugResp| #[trigger] pred.requires((resp,)),
            start == old(link).log(),
            old(link).closed() ==> i == 0 && link.log() == start,
            link.log().len() == start.len() + i,
            link.log() == start + link.log().skip(start.len() as int),
            forall|j: int|
                0 <= j < i ==> unrelated(#[trigger] link.log().skip(start.len() as int)[j], pred),
    {
        let ghost events = link.log().skip(start.len() as int);
        proof {
            if old(link).closed() {
                assert(link.closed());
                assert(events =~= Seq::empty());
            }
        }
        let heard = link.wait(CMD_TIMEOUT_MS);
        let ghost now = link.log().skip(start.len() as int);
        assert(now =~= events.push(wait_event(heard, CMD_TIMEOUT_MS)));
        assert(now.drop_last() =~= events);
        assert(link.log() =~= start + now);
        match heard {
            Ok(resp) => {
                if pred(&resp) {
                    assert(now.last() == LinkEvent::Heard(resp));
                    return Some(resp);
                }
                assert(unrelated(now[i as int], pred));
            },
            Err(_) => {
                assert(fruitless(now.last()));
                return None;
            },
        }
        assert forall|j: int| 0 <= j < i + 1 implies unrelated(#[trigger] now[j], pred) by {
            if j < i {
                assert(now[j] == events[j]);
            }
        }
    }
    None
}

/// Whether a response reports the memory from `start` on.
pub open spec fn reports_memory(resp: DebugResp, start: u32) -> bool {
    resp matches DebugResp::Memory { start: s, .. } && s == start
}

/// Whether a response reports the memory from `start` on.
pub fn is_memory_at(resp: &DebugResp, start: u32) -> (yes: bool)
    ensures
        yes == reports_memory(*resp, start),
{
    match resp {
        DebugResp::Memory { start: s, .. } => *s == start,
        _ => false,
    }
}

/// Whether a response reports the registers.
pub fn is_registers(resp: &DebugResp) -> (yes: bool)
    ensures
        yes == (*resp is Registers),
{
    match resp {
        DebugResp::Registers(_) => true,
        _ => false,
    }
}

/// The events of a whole search for a wanted response: responses that are not wanted, and at the
/// end a wanted one, or a wait that brought none.
pub open spec fn whole_search(events: Seq<LinkEvent>, wanted: spec_fn(DebugResp) -> bool) -> bool {
    &&& events.len() > 0
    &&& forall|i: int|
        0 <= i < events.len() - 1 ==> ((#[trigger] events[i]) matches LinkEvent::Heard(resp)
            && !wanted(resp))
    &&& match events.last() {
        LinkEvent::Heard(resp) => wanted(resp) || events.len() == u64::MAX,
        other => fruitless(other),
    }
}

/// What a whole search came to: the wanted response that it ended with, if it did.
pub open spec fn search_result(
    events: Seq<LinkEvent>,
    wanted: spec_fn(DebugResp) -> bool,
) -> Option<DebugResp> {
    match events.last() {
        LinkEvent::Heard(resp) => if wanted(resp) {
            Some(resp)
        } else {
            None
        },
        _ => None,
    }
}

/// A search by an executable test is one by the property that the test decides.
pub proof fn lemma_search<F: Fn(&DebugResp) -> bool>(
    events: Seq<LinkEvent>,
    pred: F,
    found: Option<DebugResp>,
    wanted: spec_fn(DebugResp) -> bool,
)
    requires
        searched(events, pred, found),
        forall|resp: DebugResp, yes: bool| #[trigger]
            pred.ensures((&resp,), yes) ==> yes == wanted(resp),
    ensures
        whole_search(events, wanted),
        found == search_result(events, wanted),
{
    assert forall|i: int| 0 <= i < events.len() - 1 implies ((#[trigger] events[i]) matches LinkEvent::Heard(
        resp,
    ) && !wanted(resp)) by {
        assert(unrelated(events[i], pred));
    }
}

/// A report of memory counts for its own address alone, and gives all the bytes that it holds; no
/// other response counts as one, or gives any.
pub proof fn law_memory_report(at: u32, bytes: Vec<u8>, start: u32, r: ez80::Registers)
    ensures
        reports_memory(DebugResp::Memory { start: at, data: bytes }, start) <==> at == start,
        !reports_memory(DebugResp::Registers(r), start),
        !reports_memory(DebugResp::Other, start),
        reported_bytes(Some(DebugResp::Memory { start: at, data: bytes })) == Some(bytes),
        reported_bytes(Some(DebugResp::Registers(r))) is None,
        reported_bytes(Some(DebugResp::Other)) is None,
        reported_bytes(None) is None,
{
}

/// The bytes that a memory report holds.
pub open spec fn reported_bytes(found: Option<DebugResp>) -> Option<Vec<u8>> {
    match found {
        Some(DebugResp::Memory { start: _, data }) => Some(data),
        _ => None,
    }
}

/// The bytes that a memory report holds.
pub fn memory_data(found: Option<DebugResp>) -> (data: Option<Vec<u8>>)
    ensures
        data == reported_bytes(found),
{
    match found {
        Some(DebugResp::Memory { start: _, data }) => Some(data),
        _ => None,
    }
}

/// What passes when memory is read, and what comes of it. An empty read asks nothing, and gives
/// no bytes. Any other asks once for this address and this length; where the question was
/// delivered, a search for the report of this address follows, which gives the bytes.
pub open spec fn memory_read(
    events: Seq<LinkEvent>,
    start: u32,
    len: u32,
    data: Option<Vec<u8>>,
) -> bool {
    let cmd = DebugCmd::GetMemory { start, len };
    let wanted = |resp: DebugResp| reports_memory(resp, start);
    if len == 0 {
        &&& events.len() == 0
        &&& data matches Some(bytes)
        &&& bytes@ == Seq::<u8>::empty()
    } else {
        &&& events.len() > 0
        &&& match events[0] {
            LinkEvent::Posted(c) => {
                &&& c == cmd
                &&& whole_search(events.skip(1), wanted)
                &&& data == reported_bytes(search_result(events.skip(1), wanted))
            },
            LinkEvent::Undelivered(c) => c == cmd && events.len() == 1 && data is None,
            _ => false,
        }
    }
}

/// Bytes that a read gives are those of a report of the address that was asked for, and the last
/// thing that passed; every response before it was about something else. A read that was
/// delivered and gives none ended with a wait that brought nothing in its full time, or with a
/// closed channel.
pub proof fn law_read_gives_the_report(
    events: Seq<LinkEvent>,
    start: u32,
    len: u32,
    data: Option<Vec<u8>>,
)
    requires
        0 < len,
        1 < events.len() < u64::MAX,
        memory_read(events, start, len, data),
    ensures
        events[0] == LinkEvent::Posted(DebugCmd::GetMemory { start, len }),
        match data {
            Some(bytes) => events.last() == LinkEvent::Heard(
                DebugResp::Memory { start, data: bytes },
            ),
            None => events.last() == (LinkEvent::Silence { millis: 1000 }) || events.last()
                == LinkEvent::Closed,
        },
        forall|i: int|
            0 < i < events.len() - 1 ==> ((#[trigger] events[i]) matches LinkEvent::Heard(resp)
                && !reports_memory(resp, start)),
{
    let rest = events.skip(1);
    assert(rest.last() == events.last());
    assert forall|i: int| 0 < i < events.len() - 1 implies ((
    #[trigger] events[i]) matches LinkEvent::Heard(resp) && !reports_memory(resp, start)) by {
        assert(rest[i - 1] == events[i]);
    }
}

/// A read of no bytes passes nothing over the link and gives no bytes. Any other asks first, and
/// once; where that could not be delivered, nothing else passes and nothing is given.
pub proof fn law_read_asks_once(
    events: Seq<LinkEvent>,
    start: u32,
    len: u32,
    data: Option<Vec<u8>>,
)
    requires
        memory_read(events, start, len, data),
    ensures
        len == 0 ==> events.len() == 0 && data is Some && data->0@.len() == 0,
        len > 0 ==> {
            ||| events.len() > 1 && events[0] == LinkEvent::Posted(
                DebugCmd::GetMemory { start, len },
            )
            ||| events == seq![LinkEvent::Undelivered(DebugCmd::GetMemory { start, len })] && data
                is None
        },
        forall|i: int|
            0 < i < events.len() ==> !(#[trigger] events[i] is Posted) && !(events[i]
                is Undelivered),
{
    if len > 0 {
        if events.len() == 1 {
            assert(events =~= seq![events[0]]);
        }
        let rest = events.skip(1);
        assert forall|i: int| 0 < i < events.len() implies !(#[trigger] events[i] is Posted) && !(
        events[i] is Undelivered) by {
            assert(rest[i - 1] == events[i]);
        }
    }
}

/// Reads memory: asks the eZ80 thread for it, and waits for the report of that address.
pub fn read_mem(link: &mut DebugLink, start: u32, len: u32) -> (data: Option<Vec<u8>>)
    ensures
        final(link).follows(old(link)),
        memory_read(final(link).since(old(link)), start, len, data),
{
    let ghost before = *link;
    if len == 0 {
        assert(link.since(&before) =~= Seq::empty());
        return Some(Vec::new());
    }
    if !link.post(DebugCmd::GetMemory { start, len }) {
        assert(link.log() =~= before.log() + link.since(&before));
        return None;
    }
    let ghost asked = *link;
    let wanted = |resp: &DebugResp| -> (yes: bool)
        ensures
            yes == reports_memory(*resp, start),
        { is_memory_at(resp, start) };
    let found = recv_until(link, wanted);
    proof {
        assert(link.since(&before).skip(1) =~= link.since(&asked));
        assert(link.log() =~= before.log() + link.since(&before));
        lemma_search(
            link.since(&asked),
            wanted,
            found,
            |resp: DebugResp| reports_memory(resp, start),
        );
    }
    memory_data(found)
}

/// What passes when the registers are asked for, and what comes of it: `None` where the question
/// was not delivered, else what a search for a report of the registers came to.
pub open spec fn registers_read(
    events: Seq<LinkEvent>,
    found: Option<Option<DebugResp>>,
) -> bool {
    let wanted = |resp: DebugResp| resp is Registers;
    &&& events.len() > 0
    &&& match events[0] {
        LinkEvent::Posted(c) => {
            &&& c is GetRegisters
            &&& whole_search(events.skip(1), wanted)
            &&& found == Some(search_result(events.skip(1), wanted))
        },
        LinkEvent::Undelivered(c) => c is GetRegisters && events.len() == 1 && found is None,
        _ => false,
    }
}

/// A question for the registers is put once, first. Where it could not be delivered, nothing else
/// passes; else what is given is the report that was heard last, and every response before it
/// was another one; without a report the last thing that passed was a wait of a second that
/// brought nothing, or a closed channel.
pub proof fn law_registers_are_those_reported(
    events: Seq<LinkEvent>,
    found: Option<Option<DebugResp>>,
)
    requires
        events.len() < u64::MAX,
        registers_read(events, found),
    ensures
        found is None <==> events == seq![LinkEvent::Undelivered(DebugCmd::GetRegisters)],
        found is Some ==> events.len() > 1 && events[0] == LinkEvent::Posted(
            DebugCmd::GetRegisters,
        ),
        found matches Some(Some(resp)) ==> resp is Registers && events.last() == LinkEvent::Heard(
            resp,
        ),
        found matches Some(None) ==> events.last() == (LinkEvent::Silence { millis: 1000 })
            || events.last() == LinkEvent::Closed,
        forall|i: int|
            0 < i < events.len() - 1 ==> ((#[trigger] events[i]) matches LinkEvent::Heard(resp)
                && !(resp is Registers)),
{
    if events.len() == 1 {
        assert(events =~= seq![events[0]]);
    }
    let rest = events.skip(1);
    if events.len() > 1 {
        assert(rest.last() == events.last());
    }
    assert forall|i: int| 0 < i < events.len() - 1 implies ((
    #[trigger] events[i]) matches LinkEvent::Heard(resp) && !(resp is Registers)) by {
        assert(rest[i - 1] == events[i]);
    }
}

/// Asks the eZ80 thread for the registers, and waits for the report. The outer `None` says that
/// the thread is gone, the inner one that it did not report in time.
pub fn read_registers(link: &mut DebugLink) -> (found: Option<Option<DebugResp>>)
    ensures
        final(link).follows(old(link)),
        registers_read(final(link).since(old(link)), found),
{
    let ghost before = *link;
    if !link.post(DebugCmd::GetRegisters) {
        assert(link.log() =~= before.log() + link.since(&before));
        return None;
    }
    let ghost asked = *link;
    let wanted = |resp: &DebugResp| -> (yes: bool)
        ensures
            yes == (*resp is Registers),
        { is_registers(resp) };
    let found = recv_until(link, wanted);
    proof {
        assert(link.since(&before).skip(1) =~= link.since(&asked));
        assert(link.log() =~= before.log() + link.since(&before));
        lemma_search(link.since(&asked), wanted, found, |resp: DebugResp| resp is Registers);
    }
    Some(found)
}

/// What waits bring, in order, on a channel that holds `queue` and whose senders are all gone: the
/// queue, and then nothing any more.
pub open spec fn drains(events: Seq<LinkEvent>, queue: Seq<DebugResp>) -> bool {
    forall|i: int|
        0 <= i < events.len() ==> #[trigger] events[i] == (if i < queue.len() {
            LinkEvent::Heard(queue[i])
        } else {
            LinkEvent::Closed
        })
}

/// Nothing is left of a sequence where nothing is wanted.
proof fn lemma_filter_none(s: Seq<DebugResp>, wanted: spec_fn(DebugResp) -> bool)
    requires
        forall|i: int| 0 <= i < s.len() ==> !wanted(#[trigger] s[i]),
    ensures
        s.filter(wanted) == Seq::<DebugResp>::empty(),
    decreases s.len(),
{
    reveal(Seq::filter);
    if s.len() != 0 {
        let t = s.drop_last();
        assert forall|i: int| 0 <= i < t.len() implies !wanted(#[trigger] t[i]) by {
            assert(t[i] == s[i]);
        }
        lemma_filter_none(t, wanted);
        assert(!wanted(s[s.len() - 1]));
    }
}

/// Once all senders are gone, searches one after the other give the responses that were left and
/// are wanted, each once and in order, and then nothing, however often one searches.
pub proof fn law_searches_drain_the_channel(
    searches: Seq<Seq<LinkEvent>>,
    queue: Seq<DebugResp>,
    wanted: spec_fn(DebugResp) -> bool,
    k: int,
)
    requires
        0 <= k < searches.len(),
        forall|i: int|
            0 <= i < searches.len() ==> whole_search(#[trigger] searches[i], wanted),
        queue.len() < u64::MAX,
        drains(searches.flatten(), queue),
    ensures
        search_result(searches[k], wanted) == (if k < queue.filter(wanted).len() {
            Some(queue.filter(wanted)[k])
        } else {
            None
        }),
    decreases searches.len(),
{
    let first = searches[0];
    let rest = searches.drop_first();
    let all = searches.flatten();
    let n = first.len() as int;
    assert(all =~= first + rest.flatten());
    assert(whole_search(first, wanted));
    assert forall|i: int| 0 <= i < n - 1 implies i < queue.len() && !wanted(#[trigger] queue[i]) by {
        assert(all[i] == first[i]);
    }
    if n > 1 {
        assert(all[n - 2] == first[n - 2]);
    }
    assert(all[n - 1] == first.last());
    let left = if n <= queue.len() {
        queue.skip(n)
    } else {
        Seq::empty()
    };
    assert(drains(rest.flatten(), left)) by {
        assert forall|i: int| 0 <= i < rest.flatten().len() implies #[trigger] rest.flatten()[i] == (
        if i < left.len() {
            LinkEvent::Heard(left[i])
        } else {
            LinkEvent::Closed
        }) by {
            assert(all[n + i] == rest.flatten()[i]);
        }
    }
    if n <= queue.len() {
        let q = queue[n - 1];
        let before = queue.take(n - 1);
        assert(wanted(q));
        lemma_filter_none(before, wanted);
        assert(queue =~= before + (seq![q] + left));
        Seq::filter_distributes_over_add(before, seq![q] + left, wanted);
        Seq::filter_distributes_over_add(seq![q], left, wanted);
        assert(seq![q].filter(wanted) =~= seq![q]) by {
            reveal(Seq::filter);
            assert(seq![q].drop_last() =~= Seq::empty());
        }
        assert(queue.filter(wanted) =~= seq![q] + left.filter(wanted));
    } else {
        lemma_filter_none(queue, wanted);
        lemma_filter_none(left, wanted);
    }
    if k > 0 {
        assert forall|i: int| 0 <= i < rest.len() implies whole_search(
            #[trigger] rest[i],
            wanted,
        ) by {
            assert(rest[i] == searches[i + 1]);
        }
        law_searches_drain_the_channel(rest, left, wanted, k - 1);
        assert(rest[k - 1] == searches[k]);
    }
}

/// What passed over a link in one search after the other.
pub open spec fn search_events(links: Seq<DebugLink>) -> Seq<Seq<LinkEvent>> {
    Seq::new((links.len() - 1) as nat, |i: int| links[i + 1].since(&links[i]))
}

/// The events of one search after the other are all that passed.
proof fn lemma_search_events(links: Seq<DebugLink>)
    requires
        links.len() > 0,
        forall|i: int, j: int|
            0 <= i < links.len() - 1 && j == i + 1 ==> (#[trigger] links[j]).follows(
                #[trigger] &links[i],
            ),
    ensures
        links.last().follows(&links[0]),
        search_events(links).flatten() == links.last().since(&links[0]),
    decreases links.len(),
{
    let events = search_events(links);
    if links.len() == 1 {
        assert(links.last().since(&links[0]) =~= Seq::empty());
        assert(events.flatten() =~= Seq::empty());
        assert(links.last().log() =~= links[0].log() + links.last().since(&links[0]));
    } else {
        let later = links.drop_first();
        assert forall|i: int, j: int| 0 <= i < later.len() - 1 && j == i + 1 implies (
        #[trigger] later[j]).follows(#[trigger] &later[i]) by {
            assert(links[j + 1].follows(&links[i + 1]));
        }
        lemma_search_events(later);
        assert(links[1].follows(&links[0]));
        assert(events.drop_first() =~= search_events(later));
        assert(later.last() == links.last());
        let first = links[1].since(&links[0]);
        let rest = links.last().since(&links[1]);
        assert(events.first() == first);
        assert(links.last().log() =~= links[0].log() + (first + rest));
        assert(links.last().since(&links[0]) =~= first + rest);
        assert(links.last().log() =~= links[0].log() + links.last().since(&links[0]));
    }
}

/// The same of the calls themselves: `recv_until` called again and again with one test, on a
/// channel that holds `queue` and whose senders are all gone, returns the responses of the queue
/// that satisfy the test, each once and in order, and then `None`, on that call and every later
/// one. `links` is the link before the first call and after each.
pub proof fn law_recv_until_drains_the_channel<F: Fn(&DebugResp) -> bool>(
    links: Seq<DebugLink>,
    pred: F,
    found: Seq<Option<DebugResp>>,
    queue: Seq<DebugResp>,
    wanted: spec_fn(DebugResp) -> bool,
    k: int,
)
    requires
        0 <= k < found.len(),
        links.len() == found.len() + 1,
        forall|i: int, j: int|
            0 <= i < found.len() && j == i + 1 ==> (#[trigger] links[j]).follows(
                #[trigger] &links[i],
            ) && searched(links[j].since(&links[i]), pred, found[i]),
        forall|resp: DebugResp, yes: bool| #[trigger]
            pred.ensures((&resp,), yes) ==> yes == wanted(resp),
        queue.len() < u64::MAX,
        drains(links.last().since(&links[0]), queue),
    ensures
        found[k] == (if k < queue.filter(wanted).len() {
            Some(queue.filter(wanted)[k])
        } else {
            None
        }),
{
    let searches = search_events(links);
    lemma_search_events(links);
    assert forall|i: int| 0 <= i < searches.len() implies whole_search(
        #[trigger] searches[i],
        wanted,
    ) && found[i] == search_result(searches[i], wanted) by {
        assert(links[i + 1].follows(&links[i]));
        lemma_search(searches[i], pred, found[i], wanted);
    }
    law_searches_drain_the_channel(searches, queue, wanted, k);
    assert(whole_search(searches[k], wanted));
}

} // verus!
