use nat_predict::{predict_port_window, sample_udp_port, Reception, SampleStep};

const MS: u128 = 1_000_000;

#[test]
fn no_sample_without_a_request() {
    assert!(sample_udp_port(false, 0, 1000).is_none());
}

#[test]
fn observed_port_ends_the_sample() {
    let sampler = sample_udp_port(true, 0, 1000).unwrap();
    assert_eq!(
        sampler.received(Reception::TestNatResponse { port: 45678 }),
        SampleStep::Done(Some(45678))
    );
    assert_eq!(
        sampler.received(Reception::TestNatResponse { port: 1 }),
        SampleStep::Done(Some(1))
    );
    assert_eq!(
        sampler.received(Reception::TestNatResponse { port: 65535 }),
        SampleStep::Done(Some(65535))
    );
}

#[test]
fn number_that_is_no_port_ends_the_sample_without_one() {
    let sampler = sample_udp_port(true, 0, 1000).unwrap();
    for port in [0, -1, 65536, i32::MAX, i32::MIN] {
        assert_eq!(
            sampler.received(Reception::TestNatResponse { port }),
            SampleStep::Done(None)
        );
    }
}

#[test]
fn failure_ends_the_sample_and_chatter_does_not() {
    let sampler = sample_udp_port(true, 0, 1000).unwrap();
    assert_eq!(sampler.received(Reception::Failed), SampleStep::Done(None));
    assert_eq!(sampler.received(Reception::Other), SampleStep::Listen);
}

#[test]
fn waits_are_over_by_the_deadline() {
    let sampler = sample_udp_port(true, 500 * MS, 1000).unwrap();
    assert_eq!(sampler.wait_ms(500 * MS), Some(1000));
    assert_eq!(sampler.wait_ms(700 * MS), Some(800));
    assert_eq!(sampler.wait_ms(700 * MS + 1), Some(799));
    assert_eq!(sampler.wait_ms(1500 * MS - 1), Some(0));
    assert_eq!(sampler.wait_ms(1500 * MS), None);
    assert_eq!(sampler.wait_ms(9000 * MS), None);
}

#[test]
fn sample_without_time_is_given_up_at_once() {
    let sampler = sample_udp_port(true, 500 * MS, 0).unwrap();
    assert_eq!(sampler.wait_ms(500 * MS), None);
}

#[test]
fn longest_timeout_is_kept() {
    let sampler = sample_udp_port(true, 0, u64::MAX).unwrap();
    assert_eq!(sampler.wait_ms(0), Some(u64::MAX));
}

#[test]
fn sampled_port_anchors_a_window() {
    let sampler = sample_udp_port(true, 0, 1000).unwrap();
    let step = sampler.received(Reception::TestNatResponse { port: 45678 });
    let SampleStep::Done(Some(port)) = step else {
        panic!("no port");
    };
    assert_eq!(predict_port_window(&[port as i32]), Some(45678..=45934));
}
