use rmesg::entry::{LogLevel, RMesgError};
use rmesg::klogctl::{klog_entries, klog_follow_step, KLogRead, KLogStep, POLL_INTERVAL_MS};
use rmesg::kmsgfile::{kmsg_entries, KMsgFollow, KMsgRead, KMsgStep};
use rmesg::select::{plan_session, select_backend, Backend, DeviceProbe, SessionPlan};

#[test]
fn ring_buffer_snapshot_splits_lines() {
    let es = klog_entries("<6>[    1.000000] one\n\n<4>two\nthree");
    assert_eq!(es.len(), 4);
    assert_eq!(es[0].message, "one");
    assert_eq!(es[0].timestamp_from_system_start, Some(1_000_000));
    assert_eq!(es[1].message, "");
    assert_eq!(es[1].level, None);
    assert_eq!(es[2].level, Some(LogLevel::Warning));
    assert_eq!(es[2].message, "two");
    assert_eq!(es[3].level, None);
    assert_eq!(es[3].message, "three");
}

#[test]
fn ring_buffer_empty_lines_give_entries() {
    assert!(klog_entries("").is_empty());
    let es = klog_entries("\n");
    assert_eq!(es.len(), 1);
    assert_eq!(es[0].message, "");
    assert_eq!(klog_entries("\n\n").len(), 2);
    assert_eq!(klog_entries("a\n").len(), 1);
    let es = klog_entries("a\n\nb");
    assert_eq!(es.len(), 3);
    assert_eq!(es[1].message, "");
    assert_eq!(es[2].message, "b");
}

#[test]
fn ring_buffer_follow_steps() {
    match klog_follow_step(KLogRead::Data("<6>a\n<6>b\n".to_string())) {
        KLogStep::Deliver(es) => {
            assert_eq!(es.len(), 2);
            assert_eq!(es[1].message, "b");
        }
        other => panic!("unexpected step {:?}", other),
    }
    assert!(matches!(klog_follow_step(KLogRead::Empty), KLogStep::Sleep(POLL_INTERVAL_MS)));
    match klog_follow_step(KLogRead::Data("\n".to_string())) {
        KLogStep::Deliver(es) => {
            assert_eq!(es.len(), 1);
            assert_eq!(es[0].message, "");
        }
        other => panic!("unexpected step {:?}", other),
    }
    assert!(matches!(klog_follow_step(KLogRead::Data(String::new())), KLogStep::Sleep(POLL_INTERVAL_MS)));
    assert!(matches!(
        klog_follow_step(KLogRead::Failed(RMesgError::PermissionDenied)),
        KLogStep::Stop(RMesgError::PermissionDenied)
    ));
}

#[test]
fn device_snapshot_parses_every_record() {
    let records = vec!["6,1,10,-;a".to_string(), "4,2,20,-;b".to_string()];
    let es = kmsg_entries(&records).unwrap();
    assert_eq!(es.len(), 2);
    assert_eq!(es[1].sequence_num, Some(2));
    let bad = vec!["6,1,10,-;a".to_string(), "garbage".to_string()];
    assert_eq!(kmsg_entries(&bad).unwrap_err(), RMesgError::MalformedRecord);
}

#[test]
fn device_follow_waits_then_yields_one_entry_per_record() {
    let mut s = KMsgFollow::new();
    assert!(matches!(s.step(KMsgRead::WouldBlock), KMsgStep::Wait));
    assert!(matches!(s.step(KMsgRead::WouldBlock), KMsgStep::Wait));
    match s.step(KMsgRead::Record("6,10,5,-;first".to_string())) {
        KMsgStep::Deliver(e) => assert_eq!(e.message, "first"),
        other => panic!("unexpected step {:?}", other),
    }
    assert!(matches!(s.step(KMsgRead::WouldBlock), KMsgStep::Wait));
    match s.step(KMsgRead::Record("6,11,6,-;second".to_string())) {
        KMsgStep::Deliver(e) => assert_eq!(e.sequence_num, Some(11)),
        other => panic!("unexpected step {:?}", other),
    }
}

#[test]
fn device_follow_sequence_never_goes_down() {
    let mut s = KMsgFollow::new();
    let mut delivered = Vec::new();
    for line in ["6,3,1,-;a", "6,3,2,-;b", "6,1,3,-;old", "bad", "6,9,4,-;c"] {
        match s.step(KMsgRead::Record(line.to_string())) {
            KMsgStep::Deliver(e) => delivered.push(e.sequence_num.unwrap()),
            KMsgStep::Skip | KMsgStep::Malformed => {}
            other => panic!("unexpected step {:?}", other),
        }
    }
    assert_eq!(delivered, vec![3, 3, 9]);
    assert_eq!(s.last_seq, Some(9));
    assert!(matches!(s.step(KMsgRead::Record("bad".to_string())), KMsgStep::Malformed));
    assert!(matches!(
        s.step(KMsgRead::Failed(RMesgError::IoFailure)),
        KMsgStep::Stop(RMesgError::IoFailure)
    ));
}

#[test]
fn automatic_selection_falls_back_to_ring_buffer() {
    assert_eq!(select_backend(Backend::Default, DeviceProbe::Missing), Ok(Backend::KLogCtl));
    assert_eq!(select_backend(Backend::Default, DeviceProbe::Forbidden), Ok(Backend::KLogCtl));
    assert_eq!(select_backend(Backend::Default, DeviceProbe::Available), Ok(Backend::DevKMsg));
    let plan = plan_session(Backend::Default, DeviceProbe::Missing, false, false).unwrap();
    assert_eq!(plan.backend, Backend::KLogCtl);
    let es = klog_entries("<6>[    0.500000] booted\n");
    assert_eq!(es.len(), 1);
    assert_eq!(es[0].message, "booted");
}

#[test]
fn explicit_selection_does_not_fall_back() {
    assert_eq!(select_backend(Backend::DevKMsg, DeviceProbe::Missing), Err(RMesgError::BackendUnavailable));
    assert_eq!(select_backend(Backend::DevKMsg, DeviceProbe::Forbidden), Err(RMesgError::PermissionDenied));
    assert_eq!(select_backend(Backend::KLogCtl, DeviceProbe::Missing), Ok(Backend::KLogCtl));
}

#[test]
fn clear_flag_plans() {
    assert_eq!(
        plan_session(Backend::DevKMsg, DeviceProbe::Available, true, true),
        Ok(SessionPlan { backend: Backend::DevKMsg, skip_backlog: true, clear_after_read: false })
    );
    assert_eq!(
        plan_session(Backend::DevKMsg, DeviceProbe::Available, false, true),
        Ok(SessionPlan { backend: Backend::DevKMsg, skip_backlog: false, clear_after_read: false })
    );
    assert_eq!(
        plan_session(Backend::KLogCtl, DeviceProbe::Available, false, true),
        Ok(SessionPlan { backend: Backend::KLogCtl, skip_backlog: false, clear_after_read: true })
    );
    assert_eq!(plan_session(Backend::DevKMsg, DeviceProbe::Missing, true, true), Err(RMesgError::BackendUnavailable));
}

#[test]
fn device_raw_follow_passes_records_unparsed() {
    let mut s = KMsgFollow::new();
    match s.step_raw(KMsgRead::Record("bad".to_string())) {
        KMsgStep::Pass(t) => assert_eq!(t, "bad"),
        other => panic!("unexpected step {:?}", other),
    }
    match s.step_raw(KMsgRead::Record("6,1,0,-;older".to_string())) {
        KMsgStep::Pass(t) => assert_eq!(t, "6,1,0,-;older"),
        other => panic!("unexpected step {:?}", other),
    }
    assert_eq!(s.last_seq, None);
    assert!(matches!(s.step_raw(KMsgRead::WouldBlock), KMsgStep::Wait));
    assert!(matches!(
        s.step_raw(KMsgRead::Failed(RMesgError::PermissionDenied)),
        KMsgStep::Stop(RMesgError::PermissionDenied)
    ));
}
