use aleo_pool::device::{hostname_from_buffer, hostname_from_wide, ConnectRetry, Device, RetryDecision};
use aleo_pool::pool::status_line;
use aleo_pool::prover::{Prover, RateSample, STATUS_LOG_LEN};

#[test]
fn connect_gives_up_at_the_thirtieth_failure() {
    let mut retry = ConnectRetry::new();
    for _ in 0..29 {
        assert_eq!(retry.on_failure(), RetryDecision::Retry);
    }
    assert_eq!(retry.on_failure(), RetryDecision::GiveUp);
}

#[test]
fn subscription_and_submission_params() {
    let device = Device::new("rig-1".to_string(), "aleozkpmarlin".to_string());
    let agent = Device::agent("aleodevice", "0.1.0");
    assert_eq!(agent, "aleodevice-0.1.0");
    assert_eq!(
        device.subscribe_params(agent),
        vec!["aleodevice-0.1.0", "AleoStratum-1.0.0", "rig-1", "aleozkpmarlin"]
    );
    assert_eq!(device.submit_params(100), ("rig-1".to_string(), "aleozkpmarlin".to_string(), 100));
    assert!(Device::submit_accepted(Some(true)));
    assert!(!Device::submit_accepted(Some(false)));
    assert!(!Device::submit_accepted(None));
}

#[test]
fn messages_from_the_pool() {
    let device = Device::new("w".to_string(), "k".to_string());
    assert_eq!(
        device.parse_message_to_miner(r#"["subscribe", "NONCE", "aleo1x"]"#),
        Some(vec!["subscribe".to_string(), "NONCE".to_string(), "aleo1x".to_string()])
    );
    assert_eq!(device.parse_message_to_miner("[]"), None);
    assert_eq!(device.parse_message_to_miner("not json"), None);
    assert_eq!(device.parse_message_to_miner(r#"[1, 2]"#), None);
}

#[test]
fn hostname_from_the_system_buffer() {
    let mut buf = b"miner-7".to_vec();
    buf.extend_from_slice(&[0; 10]);
    assert_eq!(hostname_from_buffer(0, buf.clone()), "miner-7");
    assert_eq!(hostname_from_buffer(-1, buf), "unknown");
    assert_eq!(hostname_from_buffer(0, b"full".to_vec()), "full");
    assert_eq!(hostname_from_buffer(0, vec![0, 65, 66]), "");
    assert_eq!(hostname_from_buffer(0, vec![0xff, 0xfe, 0]), "unknown");
}

#[test]
fn prover_degree_and_round() {
    let prover = Prover::new(3, 4);
    assert_eq!(prover.degree(), 16);
    assert_eq!(Prover::new(1, 0).degree(), 1);
    assert_eq!(Prover::new(1, 31).degree(), 1u32 << 31);
    assert_eq!(prover.prove_count_per_block(), 3);
    let mut round = prover.next_prove();
    let mut attempts = 0;
    for solved in [true, false, false, true, true, true] {
        if round.is_complete() {
            break;
        }
        round.record_attempt(solved);
        attempts += 1;
    }
    assert!(round.is_complete());
    assert_eq!(attempts, 5);
    assert!(Prover::new(0, 1).next_prove().is_complete());
}

#[test]
fn rate_window_over_sixty_samples() {
    let mut prover = Prover::new(1, 1);
    assert_eq!(STATUS_LOG_LEN, 60);
    assert_eq!(prover.latest_total(), 0);
    let r = prover.status_prove_shares(10);
    assert_eq!(
        r,
        vec![
            RateSample { minutes: 1, delta: 10 },
            RateSample { minutes: 5, delta: 10 },
            RateSample { minutes: 15, delta: 10 },
            RateSample { minutes: 30, delta: 10 },
            RateSample { minutes: 60, delta: 0 },
        ]
    );
    for t in 1..=59u32 {
        prover.status_prove_shares(10 + t);
    }
    // the window now holds 10, 11, ..., 69
    let r = prover.status_prove_shares(100);
    assert_eq!(r[0], RateSample { minutes: 1, delta: 100 - 11 });
    assert_eq!(r[1], RateSample { minutes: 5, delta: 100 - 15 });
    assert_eq!(r[2], RateSample { minutes: 15, delta: 100 - 25 });
    assert_eq!(r[3], RateSample { minutes: 30, delta: 100 - 40 });
    assert_eq!(r[4], RateSample { minutes: 60, delta: 0 });
    assert_eq!(prover.latest_total(), 100);
}

#[test]
fn pool_status_line() {
    assert_eq!(status_line("connected client count=2", "block count 5"), "connected client count=2 block count 5");
}

#[test]
fn hostname_from_the_wide_buffer() {
    let units: Vec<u16> = "miner-7".encode_utf16().collect();
    assert_eq!(hostname_from_wide(1, units.clone()), "miner-7");
    assert_eq!(hostname_from_wide(0, units), "unknown");
    assert_eq!(hostname_from_wide(1, vec![0xD800]), "unknown");
    assert_eq!(hostname_from_wide(1, vec![]), "");
}
