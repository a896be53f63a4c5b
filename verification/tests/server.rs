use argon::server::{DisplayScan, DisplayStep};
use argon::server::{display_name, x11_socket_path, DISPLAY_SCAN_LIMIT};
use argon::cli::{default_host, Stream, DEFAULT_PORT};
use argon::server::{listen_address, ready_line, StreamDaemon};

#[test]
fn ready_line_announces_port() {
    assert_eq!(ready_line(7286), "stream_port:7286");
    assert_eq!(ready_line(0), "stream_port:0");
    assert_eq!(ready_line(65535), "stream_port:65535");
    let port: u16 = ready_line(4321).strip_prefix("stream_port:").unwrap().parse().unwrap();
    assert_eq!(port, 4321);
}

#[test]
fn listen_address_joins_host_and_port() {
    assert_eq!(listen_address("127.0.0.1", 7286), "127.0.0.1:7286");
    assert_eq!(listen_address("localhost", 10), "localhost:10");
}

#[test]
fn defaults() {
    assert_eq!(default_host(), "127.0.0.1");
    assert_eq!(DEFAULT_PORT, 7286);
    let s = Stream::new(default_host(), DEFAULT_PORT, "tok".to_string());
    assert_eq!(s.host, "127.0.0.1");
    assert_eq!(s.port, 7286);
    assert_eq!(s.stream_token, "tok");
    let _daemon = StreamDaemon;
}

#[test]
fn x11_display_candidates() {
    assert_eq!(DISPLAY_SCAN_LIMIT, 10);
    assert_eq!(x11_socket_path(0), "/tmp/.X11-unix/X0");
    assert_eq!(x11_socket_path(9), "/tmp/.X11-unix/X9");
    assert_eq!(display_name(0), ":0");
    assert_eq!(display_name(7), ":7");
}

#[test]
fn display_scan_order() {
    let mut scan = DisplayScan::new();
    assert_eq!(scan.step, DisplayStep::ConnectDefault);
    scan.connect_failed();
    assert_eq!(scan.step, DisplayStep::CheckSocket(0));
    scan.socket_checked(false);
    assert_eq!(scan.step, DisplayStep::CheckSocket(1));
    scan.socket_checked(true);
    assert_eq!(scan.step, DisplayStep::ConnectDisplay(1));
    scan.connect_failed();
    assert_eq!(scan.step, DisplayStep::CheckSocket(2));
    for n in 2..9 {
        assert_eq!(scan.step, DisplayStep::CheckSocket(n));
        scan.socket_checked(false);
    }
    assert_eq!(scan.step, DisplayStep::CheckSocket(9));
    scan.socket_checked(true);
    assert_eq!(scan.step, DisplayStep::ConnectDisplay(9));
    scan.connect_failed();
    assert_eq!(scan.step, DisplayStep::GiveUp);
}
