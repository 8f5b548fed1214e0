use hello::channel::{JobChannel, Received};

#[test]
fn new_channel_is_open_and_empty() {
    let mut channel: JobChannel<u32> = JobChannel::new();
    assert!(channel.is_open());
    assert_eq!(channel.len(), 0);
    assert_eq!(channel.recv(), Received::Empty);
}

#[test]
fn channel_is_first_in_first_out() {
    let mut channel: JobChannel<&'static str> = JobChannel::new();
    assert_eq!(channel.send("a"), Ok(()));
    assert_eq!(channel.send("b"), Ok(()));
    assert_eq!(channel.send("c"), Ok(()));
    assert_eq!(channel.len(), 3);
    assert_eq!(channel.recv(), Received::Job("a"));
    assert_eq!(channel.send("d"), Ok(()));
    assert_eq!(channel.recv(), Received::Job("b"));
    assert_eq!(channel.recv(), Received::Job("c"));
    assert_eq!(channel.recv(), Received::Job("d"));
    assert_eq!(channel.recv(), Received::Empty);
    assert_eq!(channel.len(), 0);
}

#[test]
fn closed_channel_hands_the_job_back() {
    let mut channel: JobChannel<u32> = JobChannel::new();
    channel.close();
    assert!(!channel.is_open());
    assert_eq!(channel.send(9), Err(9));
    assert_eq!(channel.len(), 0);
    assert_eq!(channel.recv(), Received::Disconnected);
}

#[test]
fn closed_channel_still_delivers_what_is_pending() {
    let mut channel: JobChannel<u32> = JobChannel::new();
    assert_eq!(channel.send(1), Ok(()));
    assert_eq!(channel.send(2), Ok(()));
    channel.close();
    channel.close();
    assert_eq!(channel.len(), 2);
    assert_eq!(channel.recv(), Received::Job(1));
    assert_eq!(channel.recv(), Received::Job(2));
    assert_eq!(channel.recv(), Received::Disconnected);
    assert_eq!(channel.recv(), Received::Disconnected);
}
