use agon_control::control_server::{
    begin_step, handle, handle_text, inject_key, mem_reply, pause, poll_step, refuse, regs_found,
    regs_reply, reset, resume, screenshot, status, step_reply, watch_step, Action, FrameSnapshot, KeyChoice,
    KeyMotion, Refusal, StepPoll,
};
use agon_control::debugger::RegisterDump;

fn body(reply: Vec<u8>) -> String {
    let text = String::from_utf8(reply).unwrap();
    text.split_once("\r\n\r\n").unwrap().1.to_string()
}

fn head(reply: &[u8]) -> String {
    let end = reply.windows(4).position(|w| w == b"\r\n\r\n").unwrap();
    String::from_utf8(reply[..end].to_vec()).unwrap()
}

#[test]
fn routes_every_endpoint() {
    let cases = [
        ("GET /status HTTP/1.1", Action::Status),
        ("GET /screenshot HTTP/1.1", Action::Screenshot),
        ("GET /audio HTTP/1.1", Action::Audio),
        ("GET /mem?addr=0x40000&len=16 HTTP/1.1", Action::Mem { addr: 0x40000, len: 16 }),
        ("GET /regs HTTP/1.1", Action::Regs),
        ("POST /step?frames=3 HTTP/1.1", Action::Step { frames: 3 }),
        ("POST /pause HTTP/1.1", Action::Pause),
        ("POST /resume HTTP/1.1", Action::Resume),
        (
            "POST /key?code=65 HTTP/1.1",
            Action::Key { key: KeyChoice::Code(65), motion: KeyMotion::Tap },
        ),
        ("POST /reset HTTP/1.1", Action::Reset),
    ];
    for (text, action) in cases {
        assert_eq!(handle_text(text), action, "{}", text);
        assert_eq!(handle(text.as_bytes()), action, "{}", text);
    }
}

#[test]
fn a_known_path_by_another_method_is_not_allowed() {
    for path in ["/status", "/screenshot", "/audio", "/mem", "/regs"] {
        assert_eq!(
            handle_text(&format!("POST {}", path)),
            Action::Refuse(Refusal::MethodNotAllowed)
        );
    }
    for path in ["/step", "/pause", "/resume", "/key", "/reset"] {
        assert_eq!(
            handle_text(&format!("GET {}", path)),
            Action::Refuse(Refusal::MethodNotAllowed)
        );
    }
    assert_eq!(handle_text("get /status"), Action::Refuse(Refusal::MethodNotAllowed));
    let action = handle(b"POST /audio HTTP/1.1\r\n\r\n");
    assert_eq!(action, Action::Refuse(Refusal::MethodNotAllowed));
    let reply = refuse(Refusal::MethodNotAllowed);
    assert!(head(&reply).starts_with("HTTP/1.1 405 Method Not Allowed\r\n"));
    assert_eq!(body(reply), "{\"error\":\"method not allowed\"}");
}

#[test]
fn anything_else_is_not_found() {
    for text in ["GET /", "GET", "", "GET /statuses", "GET /STATUS", "DELETE /x?y=1"] {
        assert_eq!(handle_text(text), Action::Refuse(Refusal::NotFound), "{}", text);
    }
}

#[test]
fn the_bank_is_tolerated() {
    let action = Action::Mem { addr: 1, len: 2 };
    assert_eq!(handle_text("GET /mem?addr=1&len=2&bank=7"), action);
    assert_eq!(handle_text("GET /mem?bank=7&addr=1&len=2"), action);
    assert_eq!(handle_text("GET /mem?addr=1&bank=&len=2"), action);
}

#[test]
fn memory_reads_are_bounded() {
    assert_eq!(handle_text("GET /mem?addr=0&len=0"), Action::Mem { addr: 0, len: 0 });
    assert_eq!(handle_text("GET /mem?addr=0&len=65536"), Action::Mem { addr: 0, len: 65536 });
    for query in ["addr=0&len=65537", "addr=0", "len=1", "", "addr=x&len=1", "addr=0&len=-1"] {
        assert_eq!(
            handle_text(&format!("GET /mem?{}", query)),
            Action::Refuse(Refusal::MemUsage),
            "{}",
            query
        );
    }
}

#[test]
fn a_step_runs_at_least_one_frame() {
    assert_eq!(handle_text("POST /step"), Action::Step { frames: 1 });
    assert_eq!(handle_text("POST /step?frames=0"), Action::Step { frames: 1 });
    assert_eq!(handle_text("POST /step?frames=x"), Action::Step { frames: 1 });
    assert_eq!(handle_text("POST /step?frames=4294967295"), Action::Step { frames: u32::MAX });
}

#[test]
fn keys_are_named_by_code_or_text() {
    let key = |key, motion| Action::Key { key, motion };
    assert_eq!(
        handle_text("POST /key?text=abc&down=1"),
        key(KeyChoice::Text('a'), KeyMotion::Press)
    );
    assert_eq!(
        handle_text("POST /key?code=0x10&down=0"),
        key(KeyChoice::Code(16), KeyMotion::Release)
    );
    assert_eq!(handle_text("POST /key?text=a&code=9"), key(KeyChoice::Code(9), KeyMotion::Tap));
    assert_eq!(
        handle_text("POST /key?code=zz&text=q&down=x"),
        key(KeyChoice::Text('q'), KeyMotion::Tap)
    );
    assert_eq!(handle_text("POST /key?code=5&down=7"), key(KeyChoice::Code(5), KeyMotion::Press));
    for query in ["", "?text=", "?code=zz", "?down=1"] {
        assert_eq!(
            handle_text(&format!("POST /key{}", query)),
            Action::Refuse(Refusal::KeyUsage),
            "{}",
            query
        );
    }
}

#[test]
fn malformed_bytes_become_replacement_characters() {
    assert_eq!(
        handle(b"POST /key?text=\xff HTTP/1.1"),
        Action::Key { key: KeyChoice::Text('\u{fffd}'), motion: KeyMotion::Tap }
    );
    assert_eq!(
        handle("POST /key?text=\u{e9}".as_bytes()),
        Action::Key { key: KeyChoice::Text('\u{e9}'), motion: KeyMotion::Tap }
    );
    assert_eq!(handle(b"GET /status\xff"), Action::Refuse(Refusal::NotFound));
    assert_eq!(handle(b""), Action::Refuse(Refusal::NotFound));
}

#[test]
fn what_follows_the_first_line_plays_no_part() {
    assert_eq!(handle_text("GET /status HTTP/1.1\r\nX: /pause\r\n\r\nPOST /reset"), Action::Status);
    assert_eq!(handle_text("GET /status\nPOST /reset"), Action::Status);
}

#[test]
fn refusals_have_their_answers() {
    let cases = [
        (Refusal::NoFrame, "503 Service Unavailable", "no frame captured yet"),
        (Refusal::MemUsage, "400 Bad Request", "usage: /mem?addr=<n>&len=<0..65536>"),
        (Refusal::MemTimeout, "504 Gateway Timeout", "mem read timed out"),
        (Refusal::Ez80Gone, "500 Internal Server Error", "eZ80 gone"),
        (Refusal::RegsTimeout, "504 Gateway Timeout", "regs read timed out"),
        (
            Refusal::KeyUsage,
            "400 Bad Request",
            "usage: /key?text=<char>|code=<vk>[&down=0|1]",
        ),
        (Refusal::UnmappedKey, "400 Bad Request", "unmapped key"),
        (Refusal::MethodNotAllowed, "405 Method Not Allowed", "method not allowed"),
        (Refusal::NotFound, "404 Not Found", "not found"),
    ];
    for (refusal, status_line, message) in cases {
        let reply = refuse(refusal);
        assert!(head(&reply).starts_with(&format!("HTTP/1.1 {}\r\n", status_line)));
        assert_eq!(body(reply), format!("{{\"error\":\"{}\"}}", message));
    }
}

#[test]
fn a_fresh_snapshot_runs_freely() {
    let frame = FrameSnapshot::default();
    assert_eq!((frame.width, frame.height, frame.frame, frame.budget), (0, 0, 0, -1));
    assert!(frame.rgb.is_empty());
}

#[test]
fn status_reports_frame_and_pause() {
    let mut frame = FrameSnapshot::default();
    frame.frame = 1234;
    assert_eq!(
        body(status(&frame)),
        "{\"contract\":\"0.2.0\",\"emulator\":\"fab-agon-emulator\",\"platform\":\"agon\",\"frame\":1234,\"paused\":false,\"running\":true}"
    );
    let mut paused = false;
    assert_eq!(body(pause(&mut frame, &mut paused)), "{\"paused\":true}");
    assert!(paused);
    assert_eq!(frame.budget, 0);
    assert!(body(status(&frame)).contains("\"paused\":true"));
    assert_eq!(body(resume(&mut frame, &mut paused)), "{\"paused\":false}");
    assert!(!paused);
    assert_eq!((frame.frame, frame.budget), (1234, -1));
    assert!(body(status(&frame)).contains("\"paused\":false"));
}

#[test]
fn a_screenshot_needs_a_frame() {
    let mut frame = FrameSnapshot::default();
    assert_eq!(body(screenshot(&frame)), "{\"error\":\"no frame captured yet\"}");
    frame.width = 2;
    frame.height = 1;
    frame.rgb = vec![1, 2, 3, 4, 5, 255];
    let reply = screenshot(&frame);
    assert!(head(&reply).contains("Content-Type: image/x-portable-pixmap"));
    assert!(head(&reply).contains("Content-Length: 17"));
    assert!(reply.ends_with(b"\r\n\r\nP6\n2 1\n255\n\x01\x02\x03\x04\x05\xff"));
}

#[test]
fn a_step_runs_its_frames_and_halts() {
    let mut frame = FrameSnapshot::default();
    frame.frame = 100;
    let mut paused = true;
    begin_step(&mut frame, &mut paused, 3);
    assert!(!paused);
    for n in 1..=3u64 {
        assert_eq!(poll_step(&mut frame, false), StepPoll::Running);
        assert_eq!(frame.complete_frame(), n == 3);
    }
    assert_eq!(poll_step(&mut frame, false), StepPoll::Finished { frame: 103 });
    assert_eq!(frame.budget, 0);
    assert_eq!(body(step_reply(103)), "{\"frame\":103}");
}

#[test]
fn a_step_that_takes_too_long_is_halted() {
    let mut frame = FrameSnapshot::default();
    let mut paused = true;
    begin_step(&mut frame, &mut paused, 3);
    frame.complete_frame();
    assert_eq!(poll_step(&mut frame, true), StepPoll::Expired { frame: 1 });
    assert_eq!((frame.frame, frame.budget), (1, 0));
    assert_eq!(poll_step(&mut frame, true), StepPoll::Finished { frame: 1 });
}

#[test]
fn a_step_has_five_seconds() {
    let mut frame = FrameSnapshot::default();
    let mut paused = true;
    begin_step(&mut frame, &mut paused, 3);
    frame.complete_frame();
    assert_eq!(watch_step(&mut frame, &mut paused, 5000), StepPoll::Running);
    assert_eq!((frame.budget, paused), (2, false));
    assert_eq!(watch_step(&mut frame, &mut paused, 5001), StepPoll::Expired { frame: 1 });
    assert_eq!((frame.frame, frame.budget, paused), (1, 0, true));
    assert!(body(status(&frame)).contains("\"frame\":1,\"paused\":true"));
}

#[test]
fn a_finished_step_leaves_the_pause_flag_to_the_render_thread() {
    let mut frame = FrameSnapshot::default();
    let mut paused = true;
    begin_step(&mut frame, &mut paused, 1);
    assert!(frame.complete_frame());
    assert_eq!(watch_step(&mut frame, &mut paused, 9999), StepPoll::Finished { frame: 1 });
    assert_eq!((frame.budget, paused), (0, false));
}

#[test]
fn a_free_run_goes_on() {
    let mut frame = FrameSnapshot::default();
    for _ in 0..10 {
        assert!(!frame.complete_frame());
    }
    assert_eq!((frame.frame, frame.budget), (10, -1));
}

#[test]
fn keys_are_queued_in_order() {
    let mut keys = vec![(1, 1)];
    assert_eq!(body(inject_key(&mut keys, 5, KeyMotion::Tap)), "{\"injected\":true}");
    inject_key(&mut keys, 6, KeyMotion::Press);
    inject_key(&mut keys, 6, KeyMotion::Release);
    assert_eq!(keys, vec![(1, 1), (5, 1), (5, 0), (6, 1), (6, 0)]);
    assert_eq!(body(inject_key(&mut keys, 0, KeyMotion::Tap)), "{\"error\":\"unmapped key\"}");
    assert_eq!(keys.len(), 5);
}

#[test]
fn a_reset_raises_the_flag() {
    let mut flag = false;
    assert_eq!(body(reset(&mut flag)), "{\"reset\":true}");
    assert!(flag);
}

#[test]
fn replies_to_what_came_back() {
    assert!(mem_reply(Some(vec![])).ends_with(b"Content-Length: 0\r\nConnection: close\r\n\r\n"));
    assert_eq!(body(mem_reply(None)), "{\"error\":\"mem read timed out\"}");
    assert_eq!(body(regs_found(None)), "{\"error\":\"eZ80 gone\"}");
    assert_eq!(body(regs_found(Some(None))), "{\"error\":\"regs read timed out\"}");
    let dump = RegisterDump {
        af: 1,
        bc: 2,
        de: 3,
        hl: 4,
        ix: 5,
        iy: 6,
        sp: 7,
        pc: 8,
        mbase: 9,
        adl: false,
    };
    assert_eq!(
        body(regs_reply(&dump)),
        "{\"af\":1,\"bc\":2,\"de\":3,\"hl\":4,\"ix\":5,\"iy\":6,\"sp\":7,\"pc\":8,\"mbase\":9,\"adl\":0}"
    );
}
