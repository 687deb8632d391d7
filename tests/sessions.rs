use inquira::manager::{SessionManager, TerminalError};

#[test]
fn blank_session_id_is_rejected_before_anything_changes() {
    let mut m: SessionManager<u32> = SessionManager::new();
    let slot = m.begin_start("a").ok().unwrap();
    assert!(m.install(slot.session_id, 1).1.is_none());
    for raw in ["", "   ", "\t\n"] {
        match m.begin_start(raw) {
            Err(e) => assert_eq!(e, TerminalError::MissingSessionId),
            Ok(_) => panic!("blank id accepted"),
        }
    }
    assert_eq!(m.len(), 1);
    assert!(m.contains("a"));
}

#[test]
fn start_trims_the_session_id() {
    let mut m: SessionManager<u32> = SessionManager::new();
    let slot = m.begin_start("  s1 ").ok().unwrap();
    assert_eq!(slot.session_id, "s1");
    assert!(slot.evicted.is_none());
    assert!(m.install(slot.session_id, 7).1.is_none());
    assert!(m.contains("s1"));
    assert!(!m.contains("  s1 "));
}

#[test]
fn colliding_start_evicts_the_old_session_once() {
    let mut m: SessionManager<u32> = SessionManager::new();
    let slot = m.begin_start("s1").ok().unwrap();
    m.install(slot.session_id, 1);
    let slot = m.begin_start("s1").ok().unwrap();
    let ev = slot.evicted.unwrap();
    assert_eq!(ev.session_id, "s1");
    assert_eq!(ev.session, 1);
    assert_eq!(ev.exit_event().session_id, "s1");
    assert!(!m.contains("s1"));
    assert!(m.install(slot.session_id, 2).1.is_none());
    match m.session_mut("s1") {
        Ok(s) => assert_eq!(*s, 2),
        Err(_) => panic!("new session unreachable"),
    }
}

#[test]
fn install_hands_back_a_session_that_took_the_id_meanwhile() {
    let mut m: SessionManager<u32> = SessionManager::new();
    let first = m.begin_start("s").ok().unwrap();
    let second = m.begin_start("s").ok().unwrap();
    assert!(second.evicted.is_none());
    assert!(m.install(first.session_id, 1).1.is_none());
    let displaced = m.install(second.session_id, 2).1.unwrap();
    assert_eq!(displaced.session_id, "s");
    assert_eq!(displaced.session, 1);
    assert_eq!(m.len(), 1);
}

#[test]
fn stop_then_write_is_not_found() {
    let mut m: SessionManager<u32> = SessionManager::new();
    let slot = m.begin_start("s1").ok().unwrap();
    m.install(slot.session_id, 5);
    let (resp, ev) = m.stop("s1");
    assert!(resp.stopped);
    let ev = ev.unwrap();
    assert_eq!(ev.session_id, "s1");
    assert_eq!(ev.session, 5);
    match m.session_mut("s1") {
        Err(e) => assert_eq!(e, TerminalError::SessionNotFound),
        Ok(_) => panic!("stopped session still reachable"),
    }
}

#[test]
fn stop_of_unknown_id_reports_not_stopped_and_evicts_nothing() {
    let mut m: SessionManager<u32> = SessionManager::new();
    let slot = m.begin_start("other").ok().unwrap();
    m.install(slot.session_id, 3);
    let (resp, ev) = m.stop("never");
    assert!(!resp.stopped);
    assert!(ev.is_none());
    assert_eq!(m.len(), 1);
}

#[test]
fn resize_of_unknown_id_leaves_other_sessions_alone() {
    let mut m: SessionManager<u32> = SessionManager::new();
    let slot = m.begin_start("a").ok().unwrap();
    m.install(slot.session_id, 10);
    assert!(matches!(m.session_mut("b"), Err(TerminalError::SessionNotFound)));
    assert_eq!(m.len(), 1);
    match m.session_mut("a") {
        Ok(s) => assert_eq!(*s, 10),
        Err(_) => panic!("session lost"),
    }
}

#[test]
fn session_is_mutated_in_place() {
    let mut m: SessionManager<Vec<u8>> = SessionManager::new();
    let slot = m.begin_start("w").ok().unwrap();
    m.install(slot.session_id, Vec::new());
    m.session_mut("w").ok().unwrap().extend_from_slice(b"a");
    m.session_mut("w").ok().unwrap().extend_from_slice(b"b");
    assert_eq!(m.session_mut("w").ok().unwrap().as_slice(), b"ab");
}

#[test]
fn distinct_starts_register_one_entry_each() {
    let mut m: SessionManager<usize> = SessionManager::new();
    let ids = ["t1", "t2", "t3", "t4"];
    let mut slots = Vec::new();
    for id in ids {
        slots.push(m.begin_start(id).ok().unwrap());
    }
    for (i, slot) in slots.into_iter().enumerate().rev() {
        assert!(m.install(slot.session_id, i).1.is_none());
    }
    assert_eq!(m.len(), 4);
    for (i, id) in ids.iter().enumerate() {
        assert_eq!(*m.session_mut(id).ok().unwrap(), i);
    }
}

#[test]
fn shutdown_sweeps_every_session() {
    let mut m: SessionManager<u32> = SessionManager::new();
    for (i, id) in ["x", "y", "z"].iter().enumerate() {
        let slot = m.begin_start(id).ok().unwrap();
        m.install(slot.session_id, i as u32);
    }
    let mut swept: Vec<(String, u32)> = m
        .shutdown_all()
        .into_iter()
        .map(|(id, reg)| (id, reg.session))
        .collect();
    swept.sort();
    assert_eq!(
        swept,
        vec![("x".to_string(), 0), ("y".to_string(), 1), ("z".to_string(), 2)]
    );
    assert_eq!(m.len(), 0);
    assert!(m.shutdown_all().is_empty());
}

#[test]
fn error_messages() {
    assert_eq!(TerminalError::MissingSessionId.message(), "session_id is required");
    assert_eq!(TerminalError::StoreUnavailable.message(), "Failed to lock PTY session store.");
    assert_eq!(TerminalError::SessionNotFound.message(), "PTY session not found.");
    let d = || "boom".to_string();
    assert_eq!(TerminalError::PtyAllocation(d()).message(), "Unable to allocate PTY: boom");
    assert_eq!(TerminalError::ShellSpawn(d()).message(), "Unable to start shell: boom");
    assert_eq!(TerminalError::ReaderClone(d()).message(), "Unable to clone PTY reader: boom");
    assert_eq!(TerminalError::WriterOpen(d()).message(), "Unable to open PTY writer: boom");
    assert_eq!(TerminalError::Write(d()).message(), "Failed to write PTY input: boom");
    assert_eq!(TerminalError::Flush(d()).message(), "Failed to flush PTY input: boom");
    assert_eq!(TerminalError::Resize(d()).message(), "Failed to resize PTY: boom");
}

#[test]
fn session_that_ends_on_its_own_is_removed_once() {
    let mut m: SessionManager<u32> = SessionManager::new();
    let slot = m.begin_start("s").ok().unwrap();
    let (generation, displaced) = m.install(slot.session_id, 4);
    assert!(displaced.is_none());
    let ended = m.end_of_output("s", generation).unwrap();
    assert_eq!(ended.session_id, "s");
    assert_eq!(ended.session, 4);
    assert!(!m.contains("s"));
    assert!(m.end_of_output("s", generation).is_none());
}

#[test]
fn end_of_output_after_stop_announces_nothing() {
    let mut m: SessionManager<u32> = SessionManager::new();
    let slot = m.begin_start("s").ok().unwrap();
    let (generation, _) = m.install(slot.session_id, 4);
    assert!(m.stop("s").1.is_some());
    assert!(m.end_of_output("s", generation).is_none());
}

#[test]
fn end_of_replaced_session_leaves_its_successor() {
    let mut m: SessionManager<u32> = SessionManager::new();
    let slot = m.begin_start("s").ok().unwrap();
    let (old_generation, _) = m.install(slot.session_id, 1);
    let slot = m.begin_start("s").ok().unwrap();
    assert_eq!(slot.evicted.unwrap().session, 1);
    let (new_generation, _) = m.install(slot.session_id, 2);
    assert_ne!(old_generation, new_generation);
    assert!(m.end_of_output("s", old_generation).is_none());
    assert_eq!(*m.session_mut("s").ok().unwrap(), 2);
    assert_eq!(m.end_of_output("s", new_generation).unwrap().session, 2);
    assert_eq!(m.len(), 0);
}

#[test]
fn generations_are_fresh() {
    let mut m: SessionManager<u32> = SessionManager::new();
    assert!(m.can_install());
    let mut seen = Vec::new();
    for id in ["a", "b", "a", "c"] {
        let slot = m.begin_start(id).ok().unwrap();
        let (generation, _) = m.install(slot.session_id, 0);
        assert!(!seen.contains(&generation));
        seen.push(generation);
    }
    assert_eq!(m.len(), 3);
}
