use autocoder::control_socket::socket_path;
use autocoder::path::DaemonPaths;

#[test]
fn socket_path_is_under_runtime_dir() {
    let paths = DaemonPaths { state: "/var/lib/x".to_string(), runtime: "/run/x".to_string() };
    let s = socket_path(&paths);
    assert!(s.ends_with("control.sock"), "expected `control.sock` suffix: {s}");
    assert_eq!(s, "/run/x/control.sock");
}
