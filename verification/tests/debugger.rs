use std::sync::mpsc::{channel, Receiver, Sender};

use agon_control::control_server::{mem, regs};
use agon_control::debugger::{
    dump_registers, read_mem, recv_until, DebugCmd, DebugResp, RegisterDump,
};
use agon_control::link::DebugLink;

struct Ez80 {
    cmds: Receiver<DebugCmd>,
    resps: Sender<DebugResp>,
}

fn link() -> (DebugLink, Ez80) {
    let (tx, cmds) = channel();
    let (resps, rx) = channel();
    (DebugLink::new(tx, rx), Ez80 { cmds, resps })
}

fn registers() -> ez80::Registers {
    let mut cpu = ez80::Cpu::new_ez80();
    let r = cpu.registers();
    r.set16(ez80::Reg16::AF, 0x1234);
    r.set24(ez80::Reg16::BC, 0x010203);
    r.set24(ez80::Reg16::DE, 0x040506);
    r.set24(ez80::Reg16::HL, 0x070809);
    r.set24(ez80::Reg16::IX, 0x0a0b0c);
    r.set24(ez80::Reg16::IY, 0x0d0e0f);
    r.set16(ez80::Reg16::SP, 0x1111);
    r.set24(ez80::Reg16::SP, 0xffeedd);
    r.pc = 0x040000;
    r.mbase = 0xa5;
    r.adl = true;
    r.clone()
}

#[test]
fn dumps_every_register() {
    assert_eq!(
        dump_registers(&registers()),
        RegisterDump {
            af: 0x1234,
            bc: 0x010203,
            de: 0x040506,
            hl: 0x070809,
            ix: 0x0a0b0c,
            iy: 0x0d0e0f,
            sp: 0xffeedd,
            pc: 0x040000,
            mbase: 0xa5,
            adl: true,
        }
    );
}

#[test]
fn shows_the_registers() {
    let (mut link, ez80) = link();
    ez80.resps.send(DebugResp::Other).unwrap();
    ez80.resps.send(DebugResp::Registers(registers())).unwrap();
    let reply = String::from_utf8(regs(&mut link)).unwrap();
    assert_eq!(ez80.cmds.try_recv(), Ok(DebugCmd::GetRegisters));
    assert!(reply.starts_with("HTTP/1.1 200 OK\r\nContent-Type: application/json; charset=utf-8\r\n"));
    assert!(reply.ends_with(
        "\r\n\r\n{\"af\":4660,\"bc\":66051,\"de\":263430,\"hl\":460809,\"ix\":658188,\"iy\":855567,\"sp\":16772829,\"pc\":262144,\"mbase\":165,\"adl\":1}"
    ));
}

#[test]
fn a_lost_cpu_is_an_internal_error() {
    let (mut link, ez80) = link();
    drop(ez80);
    let reply = String::from_utf8(regs(&mut link)).unwrap();
    assert!(reply.starts_with("HTTP/1.1 500 Internal Server Error\r\n"));
    assert!(reply.ends_with("{\"error\":\"eZ80 gone\"}"));
}

#[test]
fn registers_that_do_not_come_time_out() {
    let (mut link, ez80) = link();
    ez80.resps.send(DebugResp::Other).unwrap();
    let reply = String::from_utf8(regs(&mut link)).unwrap();
    assert_eq!(ez80.cmds.try_recv(), Ok(DebugCmd::GetRegisters));
    assert!(reply.starts_with("HTTP/1.1 504 Gateway Timeout\r\n"));
    assert!(reply.ends_with("{\"error\":\"regs read timed out\"}"));
}

#[test]
fn an_empty_read_asks_nothing() {
    let (mut link, ez80) = link();
    assert_eq!(read_mem(&mut link, 5, 0), Some(vec![]));
    assert!(ez80.cmds.try_recv().is_err());
}

#[test]
fn a_read_skips_other_reports() {
    let (mut link, ez80) = link();
    ez80.resps.send(DebugResp::Other).unwrap();
    ez80.resps.send(DebugResp::Memory { start: 4, data: vec![9] }).unwrap();
    ez80.resps.send(DebugResp::Registers(registers())).unwrap();
    ez80.resps.send(DebugResp::Memory { start: 5, data: vec![1, 2, 3] }).unwrap();
    ez80.resps.send(DebugResp::Memory { start: 5, data: vec![4] }).unwrap();
    assert_eq!(read_mem(&mut link, 5, 3), Some(vec![1, 2, 3]));
    assert_eq!(ez80.cmds.try_recv(), Ok(DebugCmd::GetMemory { start: 5, len: 3 }));
    assert!(ez80.cmds.try_recv().is_err());
    assert_eq!(read_mem(&mut link, 5, 1), Some(vec![4]));
}

#[test]
fn a_read_fails_when_the_cpu_is_gone() {
    let (mut link, ez80) = link();
    drop(ez80);
    assert_eq!(read_mem(&mut link, 5, 3), None);
}

#[test]
fn a_search_ends_with_silence() {
    let (mut link, ez80) = link();
    ez80.resps.send(DebugResp::Other).unwrap();
    drop(ez80.resps);
    assert!(recv_until(&mut link, |_| false).is_none());
}

#[test]
fn a_search_stops_at_the_first_match() {
    let (mut link, ez80) = link();
    ez80.resps.send(DebugResp::Memory { start: 1, data: vec![] }).unwrap();
    ez80.resps.send(DebugResp::Other).unwrap();
    assert!(matches!(
        recv_until(&mut link, |r| matches!(r, DebugResp::Other)),
        Some(DebugResp::Other)
    ));
}

#[test]
fn memory_is_answered_as_it_is() {
    let (mut link, ez80) = link();
    ez80.resps.send(DebugResp::Memory { start: 0x40000, data: vec![0, 255] }).unwrap();
    let reply = mem(&mut link, 0x40000, 2);
    assert!(reply.starts_with(b"HTTP/1.1 200 OK\r\nContent-Type: application/octet-stream\r\nContent-Length: 2\r\n"));
    assert!(reply.ends_with(b"\r\n\r\n\x00\xff"));
}

#[test]
fn memory_that_does_not_come_times_out() {
    let (mut link, ez80) = link();
    drop(ez80.resps);
    let reply = String::from_utf8(mem(&mut link, 0, 1)).unwrap();
    assert!(reply.starts_with("HTTP/1.1 504 Gateway Timeout\r\n"));
    assert!(reply.ends_with("{\"error\":\"mem read timed out\"}"));
}

#[test]
fn searches_drain_a_channel_without_senders() {
    let (mut link, ez80) = link();
    for start in [1, 2, 3, 4, 5] {
        ez80.resps.send(DebugResp::Memory { start, data: vec![] }).unwrap();
    }
    ez80.resps.send(DebugResp::Other).unwrap();
    drop(ez80.resps);
    let even = |r: &DebugResp| matches!(r, DebugResp::Memory { start, .. } if start % 2 == 0);
    for wanted in [2, 4] {
        match recv_until(&mut link, even) {
            Some(DebugResp::Memory { start, .. }) => assert_eq!(start, wanted),
            _ => panic!("a response was left"),
        }
    }
    for _ in 0..3 {
        assert!(recv_until(&mut link, even).is_none());
    }
    assert!(recv_until(&mut link, |_| true).is_none());
}

#[test]
fn later_responses_stay_queued() {
    let (mut link, ez80) = link();
    ez80.resps.send(DebugResp::Memory { start: 0x50000, data: vec![9, 9] }).unwrap();
    ez80.resps.send(DebugResp::Memory { start: 0x40000, data: vec![1, 2] }).unwrap();
    ez80.resps.send(DebugResp::Memory { start: 0x40000, data: vec![3, 4] }).unwrap();
    assert_eq!(read_mem(&mut link, 0x40000, 0), Some(vec![]));
    assert_eq!(read_mem(&mut link, 0x40000, 2), Some(vec![1, 2]));
    assert_eq!(ez80.cmds.try_recv(), Ok(DebugCmd::GetMemory { start: 0x40000, len: 2 }));
    assert!(ez80.cmds.try_recv().is_err());
    assert!(matches!(
        recv_until(&mut link, |_| true),
        Some(DebugResp::Memory { data, .. }) if data == vec![3, 4]
    ));
}

#[test]
fn an_undelivered_read_takes_nothing() {
    let (mut link, ez80) = link();
    drop(ez80.cmds);
    ez80.resps.send(DebugResp::Memory { start: 7, data: vec![1] }).unwrap();
    assert_eq!(read_mem(&mut link, 7, 1), None);
    assert!(matches!(
        recv_until(&mut link, |_| true),
        Some(DebugResp::Memory { start: 7, .. })
    ));
}

#[test]
fn silence_lasts_its_full_time() {
    let (mut link, _ez80) = link();
    let begin = std::time::Instant::now();
    assert!(recv_until(&mut link, |_| true).is_none());
    assert!(begin.elapsed() >= std::time::Duration::from_millis(1000));
}
