use std::io::{Read, Write};
use std::path::Path;

use inquira::manager::SessionManager;
use inquira::pump::{OutputPump, PumpEvent};
use inquira::terminal::{clamp_pty_size, detect_default_shell, pty_cwd_candidate, resolve_pty_cwd};
use portable_pty::{native_pty_system, CommandBuilder, PtySize};

struct Session {
    writer: Box<dyn Write + Send>,
    child: Box<dyn portable_pty::Child + Send + Sync>,
}

#[test]
fn start_write_stop_round_trip() {
    let mut manager: SessionManager<Session> = SessionManager::new();
    let slot = manager.begin_start("s1").ok().unwrap();
    assert!(slot.evicted.is_none());

    let current = Some("/tmp".to_string());
    let cwd = resolve_pty_cwd(pty_cwd_candidate(None), false, current.clone());
    assert_eq!(Some(cwd.clone()), current);
    // `cat` stands in for the shell: it answers each line it is given, without
    // a prompt or start-up files.
    let (shell, _args) = detect_default_shell(Some("/bin/cat"), false);
    assert!(Path::new(&shell).exists());

    let size = clamp_pty_size(80, 24);
    let pair = native_pty_system()
        .openpty(PtySize {
            rows: size.rows,
            cols: size.cols,
            pixel_width: 0,
            pixel_height: 0,
        })
        .unwrap();
    let mut cmd = CommandBuilder::new(&shell);
    cmd.cwd(&cwd);
    let child = pair.slave.spawn_command(cmd).unwrap();
    drop(pair.slave);
    let mut reader = pair.master.try_clone_reader().unwrap();
    let writer = pair.master.take_writer().unwrap();
    let (generation, displaced) = manager.install(slot.session_id, Session { writer, child });
    assert!(displaced.is_none());

    let session = manager.session_mut("s1").ok().unwrap();
    session.writer.write_all(b"hi\n").unwrap();
    session.writer.flush().unwrap();

    let mut pump = OutputPump::new("s1".to_string());
    let mut seen = String::new();
    let mut buf = [0_u8; 4096];
    while !seen.contains("hi\r\nhi") {
        match reader.read(&mut buf) {
            Ok(n) => match pump.on_chunk(&buf[..n]) {
                PumpEvent::Data(d) => {
                    assert_eq!(d.session_id, "s1");
                    seen.push_str(&d.data);
                }
                PumpEvent::Exit(_) => panic!("shell ended before echoing"),
            },
            Err(e) => panic!("read failed: {e}"),
        }
    }

    let (response, evicted) = manager.stop("s1");
    assert!(response.stopped);
    let mut evicted = evicted.unwrap();
    let _ = evicted.session.child.kill();
    let mut exits = vec![evicted.exit_event().session_id];
    drop(evicted);
    drop(pair.master);
    while pump.is_running() {
        let event = match reader.read(&mut buf) {
            Ok(n) => pump.on_chunk(&buf[..n]),
            Err(_) => PumpEvent::Exit(pump.on_read_error()),
        };
        if let PumpEvent::Exit(e) = event {
            if let Some(ended) = manager.end_of_output(&e.session_id, generation) {
                exits.push(ended.exit_event().session_id);
            }
        }
    }
    assert_eq!(exits, vec!["s1".to_string()]);
    assert!(manager.session_mut("s1").is_err());
}

