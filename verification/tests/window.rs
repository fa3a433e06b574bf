use maxbw::client::ClientTracker;
use maxbw::endpoint::{Endpoint, Entry};
use maxbw::messages::{ProtocolFault, Refusal};
use maxbw::server::ServerTracker;
use maxbw::WINDOW_SIZE;

fn synced_client() -> ClientTracker {
    let mut c = ClientTracker::new();
    c.on_sync_ack();
    c
}

#[test]
fn endpoint_starts_empty_and_zeroed() {
    let ep = Endpoint::new();
    assert_eq!(ep.next_read_tag(), 0);
    assert_eq!(ep.next_data_tag(), 0);
    assert_eq!(ep.oldest_unresolved(), 0);
    assert_eq!(ep.pending_len(), 0);
    assert!(!ep.is_full());
    assert_eq!(ep.lookup(0), None);
}

#[test]
fn endpoint_insert_and_resolve_round_trip() {
    let mut ep = Endpoint::new();
    let e = Entry { width: 4, address: 100 };
    let tag = ep.insert(e);
    assert_eq!(tag, 0);
    assert_eq!(ep.pending_len(), 1);
    assert_eq!(ep.lookup(0), Some(e));
    assert_eq!(ep.resolve(0), Some(e));
    assert_eq!(ep.pending_len(), 0);
    assert_eq!(ep.next_data_tag(), 1);
    assert_eq!(ep.oldest_unresolved(), 1);
    assert_eq!(ep.resolve(0), None);
}

#[test]
fn issuing_is_illegal_while_unsynced() {
    let mut c = ClientTracker::new();
    assert_eq!(c.issue_read(4, 100), Err(Refusal::Unsynced));
    assert_eq!(c.issue_write(), Err(Refusal::Unsynced));
}

#[test]
fn issuing_is_refused_while_paused() {
    let mut c = synced_client();
    c.on_pause();
    assert_eq!(c.issue_read(4, 100), Err(Refusal::Paused));
    assert_eq!(c.issue_write(), Err(Refusal::Paused));
    c.on_resume();
    assert_eq!(c.issue_read(4, 100), Ok(0));
    assert_eq!(c.issue_write(), Ok(()));
}

#[test]
fn window_refuses_issue_when_full() {
    let mut c = synced_client();
    for i in 0..WINDOW_SIZE as u64 {
        assert_eq!(c.issue_read(1, 1000 + i), Ok(i));
    }
    assert_eq!(c.issue_read(1, 2000), Err(Refusal::WindowFull));
    // Resolving the oldest read reopens the window.
    let (tag, entry) = c.on_completion(0).unwrap();
    assert_eq!(tag, 0);
    assert_eq!(entry.address, 1000);
    assert_eq!(c.issue_read(1, 2000), Ok(WINDOW_SIZE as u64));
}

#[test]
fn completion_for_unknown_tag_is_a_fault() {
    let mut c = synced_client();
    assert_eq!(c.on_completion(0), Err(ProtocolFault::UnknownTag));
    c.issue_read(4, 100).unwrap();
    assert_eq!(c.on_completion(1), Err(ProtocolFault::UnknownTag));
}

#[test]
fn completion_before_stream_start_is_a_fault() {
    let mut c = synced_client();
    assert_eq!(c.on_completion(-1), Err(ProtocolFault::DeltaRange));
}

#[test]
fn out_of_order_completions_leave_holes_and_marker_advances_contiguously() {
    let mut c = synced_client();
    for i in 0..3u64 {
        c.issue_read(4, 100 * (i + 1)).unwrap();
    }
    assert_eq!(c.lookup(1), Some(Entry { width: 4, address: 200 }));
    // Complete tag 2 first: the oldest marker must stay at 0.
    let (tag, entry) = c.on_completion(2).unwrap();
    assert_eq!((tag, entry.address), (2, 300));
    assert_eq!(c.outstanding(), 2);
    // Then tag 0 (delta -1 against data_tag 1): the marker advances past
    // the resolved run at 0 and stops on 1, which is still pending.
    let (tag, entry) = c.on_completion(-1).unwrap();
    assert_eq!((tag, entry.address), (0, 100));
    // Then tag 1 (delta -1 against data_tag 2): window empties.
    let (tag, entry) = c.on_completion(-1).unwrap();
    assert_eq!((tag, entry.address), (1, 200));
    assert_eq!(c.outstanding(), 0);
}

#[test]
fn sync_with_reads_outstanding_zeroes_the_state() {
    let mut c = synced_client();
    for i in 0..5u64 {
        c.issue_read(8, i).unwrap();
    }
    c.on_pause();
    c.on_sync_ack();
    assert!(c.is_synced());
    assert!(!c.is_paused());
    assert_eq!(c.outstanding(), 0);
    // Indistinguishable from session start: tags restart at zero.
    assert_eq!(c.issue_read(4, 7), Ok(0));
}

#[test]
fn sync_twice_is_idempotent() {
    let mut once = synced_client();
    once.issue_read(2, 42).unwrap();
    once.on_sync_ack();
    let mut twice = synced_client();
    twice.issue_read(2, 42).unwrap();
    twice.on_sync_ack();
    twice.on_sync_ack();
    assert_eq!(once.outstanding(), twice.outstanding());
    assert_eq!(once.is_synced(), twice.is_synced());
    assert_eq!(once.is_paused(), twice.is_paused());
    assert_eq!(once.issue_read(1, 1), Ok(0));
    assert_eq!(twice.issue_read(1, 1), Ok(0));
}

#[test]
fn server_accept_assigns_tags_in_acceptance_order() {
    let mut s = ServerTracker::new();
    assert_eq!(s.accept_read(4, 10), Ok(0));
    assert_eq!(s.accept_read(2, 20), Ok(1));
    assert_eq!(s.outstanding(), 2);
    assert_eq!(s.lookup(1), Some(Entry { width: 2, address: 20 }));
}

#[test]
fn server_window_overflow_is_a_fault() {
    let mut s = ServerTracker::new();
    for i in 0..WINDOW_SIZE as u64 {
        s.accept_read(1, i).unwrap();
    }
    assert_eq!(s.accept_read(1, 99), Err(ProtocolFault::WindowOverflow));
}

#[test]
fn server_complete_emits_the_tag_relative_delta() {
    let mut s = ServerTracker::new();
    for i in 0..3u64 {
        s.accept_read(4, 100 * (i + 1)).unwrap();
    }
    let (delta, entry) = s.complete(2).unwrap();
    assert_eq!((delta, entry.address), (2, 300));
    let (delta, entry) = s.complete(0).unwrap();
    assert_eq!((delta, entry.address), (-1, 100));
    let (delta, entry) = s.complete(1).unwrap();
    assert_eq!((delta, entry.address), (-1, 200));
    assert_eq!(s.complete(1), Err(ProtocolFault::UnknownTag));
}

#[test]
fn server_selection_policy_picks_only_pending_reads() {
    let mut s = ServerTracker::new();
    assert_eq!(s.select_completion(3), None);
    for i in 0..4u64 {
        s.accept_read(1, i).unwrap();
    }
    // FIFO choice.
    assert_eq!(s.select_completion(0), Some(0));
    // Wraps modulo the pending count.
    assert_eq!(s.select_completion(4), Some(0));
    assert_eq!(s.select_completion(6), Some(2));
    s.complete(1).unwrap();
    // Holes are skipped: the three pending reads are 0, 2, 3.
    assert_eq!(s.select_completion(1), Some(2));
    assert_eq!(s.select_completion(2), Some(3));
}

#[test]
fn interleaved_issue_and_complete_match_a_fifo_oracle() {
    let mut c = synced_client();
    let mut s = ServerTracker::new();
    let mut issued: u64 = 0;
    let mut completed: u64 = 0;
    let total: u64 = 50;
    // A fixed interleaving: two issues, then one in-order completion.
    while completed < total {
        for _ in 0..2 {
            if issued < total {
                match c.issue_read(4, 7000 + issued) {
                    Ok(tag) => {
                        assert_eq!(tag, issued);
                        assert_eq!(s.accept_read(4, 7000 + issued), Ok(issued));
                        issued += 1;
                    }
                    Err(Refusal::WindowFull) => {}
                    Err(other) => panic!("unexpected refusal {other:?}"),
                }
            }
        }
        if s.outstanding() > 0 {
            let tag = s.select_completion(0).unwrap();
            let (delta, entry) = s.complete(tag).unwrap();
            let (ctag, centry) = c.on_completion(delta).unwrap();
            assert_eq!(ctag, tag);
            assert_eq!(centry, entry);
            assert_eq!(centry.address, 7000 + tag);
            completed += 1;
        }
    }
    assert_eq!(issued, total);
    assert_eq!(completed, total);
    assert_eq!(c.outstanding(), 0);
    assert_eq!(s.outstanding(), 0);
}
