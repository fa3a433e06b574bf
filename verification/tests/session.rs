use maxbw::client::Client;
use maxbw::flow::{ClientFlow, CreditBook, FlowStrategy, PauseCtl, ServerFlow};
use maxbw::messages::{Command, ProtocolFault, Reply, Request};
use maxbw::server::{Server, ServerStep};

fn credit_pair(capacity: u8) -> (Client, Server) {
    let client = Client::new(FlowStrategy::Credit);
    let server = Server::new(ServerFlow::Credit(CreditBook::new(capacity)));
    (client, server)
}

fn pause_pair() -> (Client, Server) {
    let client = Client::new(FlowStrategy::PauseResume);
    let server = Server::new(ServerFlow::PauseResume(PauseCtl::new()));
    (client, server)
}

/// Runs the Sync/Synced handshake and returns the granted credits.
fn handshake(client: &mut Client, server: &mut Server) -> u8 {
    let cmd = client.next_command(None);
    assert_eq!(cmd, Command::Sync);
    let step = server.handle_command(&cmd).unwrap();
    let reply = match step {
        ServerStep::Reply(r) => r,
        other => panic!("expected a Synced reply, got {other:?}"),
    };
    let credits = match reply {
        Reply::Synced(c) => c,
        other => panic!("expected Synced, got {other:?}"),
    };
    assert_eq!(client.handle_reply(reply), Ok(None));
    credits
}

#[test]
fn scenario_single_read_completes_with_delta_zero() {
    let (mut client, mut server) = credit_pair(128);
    assert_eq!(handshake(&mut client, &mut server), 128);

    let cmd = client.next_command(Some(Request::Read { width: 4, address: 100 }));
    assert_eq!(cmd, Command::Read { width: 4, address: 100 });
    assert_eq!(client.tracker.outstanding(), 1);

    assert_eq!(server.handle_command(&cmd), Ok(ServerStep::Open));
    let reply = server.emit_reply(true, 0);
    match &reply {
        Reply::Data(delta, payload) => {
            assert_eq!(*delta, 0);
            assert_eq!(payload.len(), 4);
            assert!(payload.iter().all(|b| *b == 0));
        }
        other => panic!("expected a completion, got {other:?}"),
    }

    let resolved = client.handle_reply(reply).unwrap().unwrap();
    let (tag, entry, payload) = resolved;
    assert_eq!(tag, 0);
    assert_eq!(entry.width, 4);
    assert_eq!(entry.address, 100);
    assert_eq!(payload, vec![0u8; 4]);
    assert_eq!(client.tracker.outstanding(), 0);
}

#[test]
fn scenario_out_of_order_completions_recover_in_completion_order() {
    let (mut client, mut server) = credit_pair(128);
    handshake(&mut client, &mut server);

    let addresses = [100u64, 200, 300];
    for (i, &addr) in addresses.iter().enumerate() {
        let cmd = client.next_command(Some(Request::Read { width: 4, address: addr }));
        assert_eq!(cmd, Command::Read { width: 4, address: addr });
        assert_eq!(server.handle_command(&cmd), Ok(ServerStep::Open));
        assert_eq!(client.tracker.outstanding(), i + 1);
    }

    // The server completes #2 first (delta 2 at data_tag 0), then #0
    // (delta -1 at data_tag 1), then #1 (delta 1 - 2 = -1 at data_tag 2).
    // The client must recover tags 2, 0, 1 in that order with the right
    // addresses.
    let expected = [(2i8, 2u64, 300u64), (-1, 0, 100), (-1, 1, 200)];
    for &(want_delta, want_tag, want_addr) in &expected {
        // Pick the pending slot that yields the wanted tag: index of the
        // wanted tag among pending reads in tag order.
        let choice = match want_tag {
            2 => 2,
            _ => 0,
        };
        let reply = server.emit_reply(true, choice);
        let delta = match &reply {
            Reply::Data(d, _) => *d,
            other => panic!("expected a completion, got {other:?}"),
        };
        assert_eq!(delta, want_delta);
        let (tag, entry, _payload) = client.handle_reply(reply).unwrap().unwrap();
        assert_eq!(tag, want_tag);
        assert_eq!(entry.address, want_addr);
    }
    assert_eq!(client.tracker.outstanding(), 0);
}

#[test]
fn client_degrades_to_idle_without_credit_and_recovers_on_report() {
    let (mut client, mut server) = credit_pair(5);
    assert_eq!(handshake(&mut client, &mut server), 5);

    // A read costs 1 + 8 = 9 bytes: more than the 5 granted.
    let req = Request::Read { width: 2, address: 7 };
    assert_eq!(client.next_command(Some(req.clone())), Command::Idle);
    assert_eq!(client.tracker.outstanding(), 0);

    // Back-credits arrive; the balance becomes 5 + 20 = 25.
    assert_eq!(client.handle_reply(Reply::Idle(20)), Ok(None));
    assert_eq!(client.next_command(Some(req)), Command::Read { width: 2, address: 7 });
    match client.flow {
        ClientFlow::Credit { available } => assert_eq!(available, 25 - 9),
        _ => panic!("expected the credit strategy"),
    }
}

#[test]
fn credit_book_conserves_capacity_across_operations() {
    let mut book = CreditBook::new(128);
    assert_eq!(book.capacity(), 128);
    assert_eq!(book.report_free(), 128);
    assert!(book.try_consume(9));
    assert_eq!(book.report_free(), 119);
    // Nothing drained yet, so a report returns no credits.
    assert_eq!(book.take_report(), 0);
    // The sink drains 3 of the 9 held bytes.
    assert_eq!(book.drain(3), 3);
    assert_eq!(book.take_report(), 3);
    assert_eq!(book.report_free(), 122);
    // Draining beyond what is held moves only what is there.
    assert_eq!(book.drain(100), 6);
    assert_eq!(book.take_report(), 6);
    assert_eq!(book.report_free(), 128);
    // An over-budget request is refused outright.
    assert!(!book.try_consume(200));
    assert_eq!(book.report_free(), 128);
}

#[test]
fn server_refuses_transactions_the_credits_cannot_cover() {
    let (mut client, mut server) = credit_pair(10);
    handshake(&mut client, &mut server);
    // First read fits (cost 9, free 10); a second one cannot.
    assert_eq!(
        server.handle_command(&Command::Read { width: 1, address: 1 }),
        Ok(ServerStep::Open)
    );
    assert_eq!(
        server.handle_command(&Command::Read { width: 1, address: 2 }),
        Err(ProtocolFault::CreditShortfall)
    );
    // A huge write can never fit an 8-bit budget.
    let w = Command::Write { address: 3, data: vec![0u8; 300] };
    assert_eq!(server.handle_command(&w), Err(ProtocolFault::CreditShortfall));
}

#[test]
fn server_faults_on_window_overflow() {
    let (mut client, mut server) = pause_pair();
    handshake(&mut client, &mut server);
    for i in 0..16u64 {
        assert_eq!(
            server.handle_command(&Command::Read { width: 1, address: i }),
            Ok(ServerStep::Open)
        );
    }
    assert_eq!(
        server.handle_command(&Command::Read { width: 1, address: 99 }),
        Err(ProtocolFault::WindowOverflow)
    );
}

#[test]
fn pause_and_resume_gate_issuance() {
    let (mut client, mut server) = pause_pair();
    assert_eq!(handshake(&mut client, &mut server), 0);

    let req = Request::Read { width: 8, address: 11 };
    assert_eq!(client.handle_reply(Reply::Pause), Ok(None));
    assert_eq!(client.next_command(Some(req.clone())), Command::Idle);
    assert_eq!(client.handle_reply(Reply::Resume), Ok(None));
    assert_eq!(client.next_command(Some(req)), Command::Read { width: 8, address: 11 });
}

#[test]
fn pause_signals_alternate() {
    let (_client, mut server) = pause_pair();
    assert_eq!(server.pause_step(false), None);
    assert_eq!(server.pause_step(true), Some(Reply::Pause));
    assert_eq!(server.pause_step(true), Some(Reply::Resume));
    assert_eq!(server.pause_step(true), Some(Reply::Pause));
}

#[test]
fn writes_pass_through_untracked_and_cost_their_bytes() {
    let (mut client, mut server) = credit_pair(128);
    handshake(&mut client, &mut server);
    let cmd = client.next_command(Some(Request::Write { address: 50, data: vec![7, 7] }));
    assert_eq!(cmd, Command::Write { address: 50, data: vec![7, 7] });
    // Not tracked: no completion is expected.
    assert_eq!(client.tracker.outstanding(), 0);
    match client.flow {
        ClientFlow::Credit { available } => assert_eq!(available, 128 - 11),
        _ => panic!("expected the credit strategy"),
    }
    assert_eq!(server.handle_command(&cmd), Ok(ServerStep::Open));
}

#[test]
fn write_of_unsupported_width_degrades_to_idle() {
    let (mut client, mut server) = credit_pair(128);
    handshake(&mut client, &mut server);
    let cmd = client.next_command(Some(Request::Write { address: 50, data: vec![1, 2, 3] }));
    assert_eq!(cmd, Command::Idle);
}

#[test]
fn session_ends_only_after_the_window_drains() {
    let (mut client, mut server) = credit_pair(128);
    handshake(&mut client, &mut server);
    let cmd = client.next_command(Some(Request::Read { width: 1, address: 5 }));
    assert_eq!(server.handle_command(&cmd), Ok(ServerStep::Open));
    // Workload exhausted, one read outstanding: idle, not EndSim.
    assert_eq!(client.next_command(None), Command::Idle);
    let reply = server.emit_reply(true, 0);
    client.handle_reply(reply).unwrap();
    assert_eq!(client.next_command(None), Command::EndSim);
    assert_eq!(server.handle_command(&Command::EndSim), Ok(ServerStep::Stop));
}

#[test]
fn ending_with_reads_pending_is_a_configurable_option() {
    let (mut client, mut server) = credit_pair(128);
    handshake(&mut client, &mut server);
    client.drain_before_stop = false;
    let cmd = client.next_command(Some(Request::Read { width: 1, address: 5 }));
    server.handle_command(&cmd).unwrap();
    assert_eq!(client.next_command(None), Command::EndSim);
}

#[test]
fn idle_reply_reports_drained_back_credits() {
    let (mut client, mut server) = credit_pair(128);
    handshake(&mut client, &mut server);
    let cmd = client.next_command(Some(Request::Read { width: 1, address: 5 }));
    server.handle_command(&cmd).unwrap();
    // The sink drains 3 bytes of the 9 held; an idle reply reports them.
    server.replenish(3);
    let reply = server.emit_reply(false, 0);
    assert_eq!(reply, Reply::Idle(3));
    assert_eq!(client.handle_reply(reply), Ok(None));
}

#[test]
fn sync_resets_a_session_mid_flight() {
    let (mut client, mut server) = credit_pair(128);
    handshake(&mut client, &mut server);
    for i in 0..4u64 {
        let cmd = client.next_command(Some(Request::Read { width: 2, address: i }));
        server.handle_command(&cmd).unwrap();
    }
    assert_eq!(client.tracker.outstanding(), 4);
    // The client re-syncs: pending reads are discarded unilaterally and
    // credits re-seed to full capacity.
    let step = server.handle_command(&Command::Sync).unwrap();
    let reply = match step {
        ServerStep::Reply(r) => r,
        other => panic!("expected a Synced reply, got {other:?}"),
    };
    assert_eq!(reply, Reply::Synced(128));
    client.handle_reply(reply).unwrap();
    assert_eq!(client.tracker.outstanding(), 0);
    assert_eq!(server.tracker.outstanding(), 0);
    // Tags restart at zero on both sides.
    let cmd = client.next_command(Some(Request::Read { width: 2, address: 9 }));
    assert_eq!(cmd, Command::Read { width: 2, address: 9 });
    assert_eq!(server.handle_command(&cmd), Ok(ServerStep::Open));
    let reply = server.emit_reply(true, 0);
    let (tag, _, _) = client.handle_reply(reply).unwrap().unwrap();
    assert_eq!(tag, 0);
}

#[test]
fn faulty_completion_leaves_the_session_unchanged() {
    let (mut client, mut server) = credit_pair(128);
    handshake(&mut client, &mut server);
    let cmd = client.next_command(Some(Request::Read { width: 4, address: 100 }));
    server.handle_command(&cmd).unwrap();
    // A completion for a tag that was never issued.
    let r = client.handle_reply(Reply::Data(5, vec![0u8; 4]));
    assert_eq!(r, Err(ProtocolFault::UnknownTag));
    // The pending read is still there and resolves normally.
    let reply = server.emit_reply(true, 0);
    let (tag, entry, _) = client.handle_reply(reply).unwrap().unwrap();
    assert_eq!((tag, entry.address), (0, 100));
}
