use coop_core::channel::{ChannelModel, Envelope, RecvOutcome, SendOutcome};
use coop_core::channel::{sensor_message, worker_message};
use coop_core::codec::{connection_step, respond_to_record, ConnectionEnd, LineDecoder};
use coop_core::counter::{visit_message, u64_to_decimal, VisitCounter};
use coop_core::supervisor::{first_arm, run_race, supervise, RaceArm, WorkerOutcome};
use coop_core::supervisor::{computation_result, heavy_task_result};

fn envelope(producer: u64, payload: &str) -> Envelope {
    Envelope { producer, payload: payload.to_string() }
}

#[test]
fn counter_three_sequential_clients() {
    let mut counter = VisitCounter::new();
    let mut messages = Vec::new();
    for _ in 0..3 {
        let (_, msg) = counter.visit_and_format();
        messages.push(msg);
    }
    assert_eq!(messages[0], "당신은 1번째 방문자입니다!\n");
    assert_eq!(messages[1], "당신은 2번째 방문자입니다!\n");
    assert_eq!(messages[2], "당신은 3번째 방문자입니다!\n");
}

#[test]
fn counter_hundred_clients_all_distinct() {
    let mut counter = VisitCounter::new();
    let mut seen = Vec::new();
    for _ in 0..100 {
        seen.push(counter.record_visit());
    }
    let expected: Vec<u64> = (1..=100).collect();
    assert_eq!(seen, expected);
}

#[test]
fn counter_equals_completed_connections() {
    let mut counter = VisitCounter::new();
    assert_eq!(counter.count_value(), 0);
    for k in 1..=10u64 {
        counter.record_visit();
        assert_eq!(counter.count_value(), k);
    }
}

#[test]
fn counter_message_matches_formatting() {
    for n in [1u64, 9, 10, 42, 100, 12345] {
        assert_eq!(visit_message(n), format!("당신은 {}번째 방문자입니다!\n", n));
    }
}

#[test]
fn decimal_rendering() {
    assert_eq!(u64_to_decimal(0), "0");
    assert_eq!(u64_to_decimal(7), "7");
    assert_eq!(u64_to_decimal(10), "10");
    assert_eq!(u64_to_decimal(90210), "90210");
    assert_eq!(u64_to_decimal(u64::MAX), format!("{}", u64::MAX));
}

#[test]
fn pipeline_five_producers_one_message_each() {
    let mut ch = ChannelModel::new(32);
    for i in 1..=5u64 {
        ch.clone_sender();
        let outcome = ch.try_send(envelope(i, &sensor_message(i)));
        assert_eq!(outcome, SendOutcome::Sent);
        ch.drop_sender();
    }
    // The entry point drops its original handle before consuming.
    ch.drop_sender();
    let mut received = Vec::new();
    loop {
        match ch.recv() {
            RecvOutcome::Received(e) => received.push(e),
            RecvOutcome::Closed => break,
            RecvOutcome::Pending => panic!("consumer would hang"),
        }
    }
    assert_eq!(received.len(), 5);
    for (k, e) in received.iter().enumerate() {
        let i = k as u64 + 1;
        assert_eq!(e.producer, i);
        assert_eq!(e.payload, format!("센서 {}의 측정값: {}", i, i * 10));
    }
}

#[test]
fn pipeline_backpressure_delivers_every_message_once() {
    // 64 producers, capacity 4: a full queue refuses the send, the model's
    // stand-in for suspension; the producer retries after the consumer
    // drains one message. Every message is delivered exactly once.
    let mut ch = ChannelModel::new(4);
    let mut received: Vec<Envelope> = Vec::new();
    for i in 1..=64u64 {
        ch.clone_sender();
        loop {
            match ch.try_send(envelope(i, &format!("payload {}", i))) {
                SendOutcome::Sent => break,
                SendOutcome::Full => match ch.recv() {
                    RecvOutcome::Received(e) => received.push(e),
                    other => panic!("unexpected recv outcome: {:?}", other),
                },
                SendOutcome::Disconnected => panic!("receiver is alive"),
            }
        }
        ch.drop_sender();
    }
    ch.drop_sender();
    loop {
        match ch.recv() {
            RecvOutcome::Received(e) => received.push(e),
            RecvOutcome::Closed => break,
            RecvOutcome::Pending => panic!("consumer would hang"),
        }
    }
    assert_eq!(received.len(), 64);
    for (k, e) in received.iter().enumerate() {
        assert_eq!(e.producer, k as u64 + 1);
    }
}

#[test]
fn channel_closes_exactly_when_last_sender_dropped() {
    let mut ch = ChannelModel::new(8);
    let outcome = ch.try_send(envelope(1, "only"));
    assert_eq!(outcome, SendOutcome::Sent);
    // A sender still exists: after draining, the consumer suspends.
    match ch.recv() {
        RecvOutcome::Received(e) => assert_eq!(e.payload, "only"),
        other => panic!("unexpected: {:?}", other),
    }
    assert_eq!(ch.recv(), RecvOutcome::Pending);
    ch.drop_sender();
    assert_eq!(ch.recv(), RecvOutcome::Closed);
}

#[test]
fn send_after_receiver_dropped_fails() {
    let mut ch = ChannelModel::new(8);
    ch.drop_receiver();
    assert_eq!(ch.try_send(envelope(1, "late")), SendOutcome::Disconnected);
}

#[test]
fn channel_is_fifo_for_a_producer() {
    let mut ch = ChannelModel::new(8);
    for j in 0..5u64 {
        assert_eq!(ch.try_send(envelope(7, &worker_message(7, j))), SendOutcome::Sent);
    }
    ch.drop_sender();
    let mut payloads = Vec::new();
    loop {
        match ch.recv() {
            RecvOutcome::Received(e) => payloads.push(e.payload),
            RecvOutcome::Closed => break,
            RecvOutcome::Pending => panic!("consumer would hang"),
        }
    }
    let expected: Vec<String> =
        (0..5).map(|j| format!("생산자 {}가 보낸 메시지 {}", 7, j)).collect();
    assert_eq!(payloads, expected);
}

#[test]
fn framed_echo_segments() {
    let mut decoder = LineDecoder::new();
    let (out, end) = connection_step(&mut decoder, b"a\nbc\nd");
    assert_eq!(end, None);
    assert_eq!(out, b"Echo: a\nEcho: bc\n".to_vec());
    let (out, end) = connection_step(&mut decoder, b"\n");
    assert_eq!(end, None);
    assert_eq!(out, b"Echo: d\n".to_vec());
}

#[test]
fn framing_is_independent_of_chunking() {
    let stream = "첫 줄\nsecond line\nthird\npartial".as_bytes();
    let mut whole = LineDecoder::new();
    let (out_whole, end) = connection_step(&mut whole, stream);
    assert_eq!(end, None);
    let mut chunked = LineDecoder::new();
    let mut out_chunked = Vec::new();
    for chunk in stream.chunks(1) {
        let (out, end) = connection_step(&mut chunked, chunk);
        assert_eq!(end, None);
        out_chunked.extend_from_slice(&out);
    }
    assert_eq!(out_whole, out_chunked);
    // One-byte chunks split the multi-byte characters of the first line;
    // the records still only form at terminators.
    assert_eq!(
        String::from_utf8(out_whole).unwrap(),
        "Echo: 첫 줄\nEcho: second line\nEcho: third\n"
    );
}

#[test]
fn echo_round_trip_multibyte() {
    let mut decoder = LineDecoder::new();
    let (out, end) = connection_step(&mut decoder, "안녕하세요\n".as_bytes());
    assert_eq!(end, None);
    assert_eq!(out, "Echo: 안녕하세요\n".as_bytes().to_vec());
}

#[test]
fn invalid_utf8_record_closes_the_connection() {
    let mut decoder = LineDecoder::new();
    let (out, end) = connection_step(&mut decoder, b"ok\n\xff\xfe\nnever\n");
    assert_eq!(end, Some(ConnectionEnd::DecodeFailed));
    assert_eq!(out, b"Echo: ok\n".to_vec());
}

#[test]
fn empty_record_is_echoed() {
    let mut decoder = LineDecoder::new();
    let (out, end) = connection_step(&mut decoder, b"\nx");
    assert_eq!(end, None);
    assert_eq!(out, b"Echo: \n".to_vec());
    let (out, end) = connection_step(&mut decoder, b"\n");
    assert_eq!(end, None);
    assert_eq!(out, b"Echo: x\n".to_vec());
}

#[test]
fn respond_to_record_appends_prefix_and_terminator() {
    assert_eq!(respond_to_record(b"hi".to_vec()), Some(b"Echo: hi\n".to_vec()));
    assert_eq!(respond_to_record(vec![0xff]), None);
}

#[test]
fn select_timeout_beats_slow_worker() {
    // A 2-second worker against a 1-second timer: the timeout arm wins,
    // and an interrupt before the 5-second shutdown wins the second race.
    let (first, second) = supervise(2000, 1000, 5000, Some(3000), heavy_task_result());
    assert_eq!(first, WorkerOutcome::TimedOut);
    assert_eq!(second, WorkerOutcome::Interrupted);
}

#[test]
fn select_shutdown_timer_fires_without_interrupt() {
    let (first, second) = supervise(2000, 1000, 5000, None, heavy_task_result());
    assert_eq!(first, WorkerOutcome::TimedOut);
    assert_eq!(second, WorkerOutcome::TimedOut);
}

#[test]
fn select_fast_worker_wins() {
    let outcome = run_race(500, 1000, None, heavy_task_result());
    assert_eq!(outcome, WorkerOutcome::WorkerDone("작업 완료!".to_string()));
}

#[test]
fn select_first_arm_is_earliest() {
    assert_eq!(first_arm(2000, 1000, None), RaceArm::Timeout);
    assert_eq!(first_arm(500, 1000, Some(250)), RaceArm::Interrupt);
    assert_eq!(first_arm(500, 1000, Some(800)), RaceArm::Worker);
    // Ties go to the arm listed first.
    assert_eq!(first_arm(1000, 1000, None), RaceArm::Worker);
}

#[test]
fn computation_result_names_the_task() {
    assert_eq!(computation_result("작업 1"), format!("{}의 결과물", "작업 1"));
    assert_eq!(heavy_task_result(), "작업 완료!");
}

#[test]
fn sensor_message_formatting() {
    for i in [1u64, 3, 5, 12] {
        assert_eq!(sensor_message(i), format!("센서 {}의 측정값: {}", i, i * 10));
    }
}
