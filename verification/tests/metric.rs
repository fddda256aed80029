use nylon::metric::{INF, metric_of_ping_ms};
use nylon::state::PING_INF_MS;

#[test]
fn metric_clamps_into_the_engine_range() {
    // a measured link never reports zero
    assert_eq!(metric_of_ping_ms(0), 1);
    assert_eq!(metric_of_ping_ms(1), 1);
    assert_eq!(metric_of_ping_ms(20), 20);
    assert_eq!(metric_of_ping_ms(65534), 65534);
    // anything that does not fit is the unreachable sentinel
    assert_eq!(metric_of_ping_ms(65535), INF);
    assert_eq!(metric_of_ping_ms(300_000), INF);
    assert_eq!(metric_of_ping_ms(PING_INF_MS), INF);
}
