use superbook_pdf::broadcast::Channel;
use superbook_pdf::broadcast::ProgressBroadcaster;
use superbook_pdf::broadcast::ProgressEvent;
use superbook_pdf::config::ServerConfig;
use superbook_pdf::job::JobStatus;
use superbook_pdf::DEFAULT_BIND;
use superbook_pdf::DEFAULT_JOB_TIMEOUT;
use superbook_pdf::DEFAULT_PORT;
use superbook_pdf::DEFAULT_UPLOAD_LIMIT;

fn event(job_id: u128, timestamp: u64) -> ProgressEvent {
    ProgressEvent { subject_id: job_id, status: JobStatus::Processing, progress: None, timestamp }
}

#[test]
fn test_default_constants() {
    assert_eq!(DEFAULT_PORT, 8080);
    assert_eq!(DEFAULT_BIND, "127.0.0.1");
    assert_eq!(DEFAULT_UPLOAD_LIMIT, 500 * 1024 * 1024);
    assert_eq!(DEFAULT_JOB_TIMEOUT, 3600);
}

#[test]
fn test_server_config_builder_chain() {
    let config = ServerConfig::default()
        .with_port(9000)
        .with_bind("0.0.0.0")
        .with_upload_limit(100 * 1024 * 1024);
    assert_eq!(config.port, 9000);
    assert_eq!(config.bind, "0.0.0.0");
    assert_eq!(config.upload_limit, 100 * 1024 * 1024);
    assert_eq!(config.worker_count, 4);
}

#[test]
fn test_broadcaster_delivers_to_matching_channels() {
    let mut bus = ProgressBroadcaster::new();
    let on_job = bus.subscribe(Channel::Job(7), 10).unwrap();
    let on_other = bus.subscribe(Channel::Job(8), 10).unwrap();
    let global = bus.subscribe(Channel::Global, 10).unwrap();

    bus.publish(Channel::Job(7), &event(7, 1_000));

    assert_eq!(bus.drain(on_job).unwrap().len(), 1);
    assert_eq!(bus.drain(on_other).unwrap().len(), 0);
    let got = bus.drain(global).unwrap();
    assert_eq!(got.len(), 1);
    assert_eq!(got[0].subject_id, 7);
    assert_eq!(got[0].timestamp, 1_000);
}

#[test]
fn test_broadcaster_drops_oldest_when_full() {
    let mut bus = ProgressBroadcaster::new();
    let slow = bus.subscribe(Channel::Global, 2).unwrap();
    for t in 0..5u64 {
        bus.publish(Channel::Job(1), &event(1, t));
    }
    // Bounded buffer: only the two newest events survive, publishing never
    // waited for the slow consumer.
    let got = bus.drain(slow).unwrap();
    assert_eq!(got.len(), 2);
    assert_eq!(got[0].timestamp, 3);
    assert_eq!(got[1].timestamp, 4);
}

#[test]
fn test_broadcaster_drain_empties_the_buffer() {
    let mut bus = ProgressBroadcaster::new();
    let s = bus.subscribe(Channel::Global, 4).unwrap();
    bus.publish(Channel::Job(1), &event(1, 10));
    assert_eq!(bus.drain(s).unwrap().len(), 1);
    assert_eq!(bus.drain(s).unwrap().len(), 0);
    assert!(bus.drain(9999).is_none());
}

#[test]
fn test_broadcaster_unsubscribe_drops_consumer() {
    let mut bus = ProgressBroadcaster::new();
    let s = bus.subscribe(Channel::Global, 4).unwrap();
    assert!(bus.unsubscribe(s));
    assert!(!bus.unsubscribe(s));
    assert!(bus.drain(s).is_none());
}

#[test]
fn test_broadcaster_zero_capacity_keeps_nothing() {
    let mut bus = ProgressBroadcaster::new();
    let s = bus.subscribe(Channel::Global, 0).unwrap();
    bus.publish(Channel::Job(1), &event(1, 10));
    assert_eq!(bus.drain(s).unwrap().len(), 0);
}
