use kobuleti::commands::{host_text, port_parser, PortError, DEFAULT_TCP_PORT};
use kobuleti::server::{on_accept_error, AcceptStep, MAX_ACCEPT_BACKOFF};

#[test]
fn ports_are_decimal_u16() {
    assert_eq!(port_parser("8000"), Ok(8000));
    assert_eq!(port_parser("+80"), Ok(80));
    assert_eq!(port_parser("0065535"), Ok(65535));
    assert_eq!(port_parser("0"), Ok(0));
    assert_eq!(port_parser("65536"), Err(PortError));
    assert_eq!(port_parser(""), Err(PortError));
    assert_eq!(port_parser("+"), Err(PortError));
    assert_eq!(port_parser("-1"), Err(PortError));
    assert_eq!(port_parser(" 80"), Err(PortError));
    assert_eq!(port_parser("8_000"), Err(PortError));
    assert_eq!(DEFAULT_TCP_PORT, 8000);
}

#[test]
fn localhost_keyword() {
    assert_eq!(host_text("localhost"), "127.0.0.1");
    assert_eq!(host_text("::1"), "::1");
    assert_eq!(host_text("localhosts"), "localhosts");
    assert_eq!(host_text("Localhost"), "Localhost");
}

#[test]
fn accept_gives_up_after_eight_failures() {
    let mut backoff = 1;
    let mut waited = 0;
    let mut failures = 0;
    loop {
        failures += 1;
        match on_accept_error(backoff) {
            AcceptStep::Retry { wait_secs, next_backoff } => {
                waited += wait_secs;
                backoff = next_backoff;
            }
            AcceptStep::GiveUp => break,
        }
    }
    assert_eq!(failures, 8);
    assert_eq!(waited, 127);
    assert_eq!(on_accept_error(MAX_ACCEPT_BACKOFF), AcceptStep::Retry { wait_secs: 64, next_backoff: 128 });
}
