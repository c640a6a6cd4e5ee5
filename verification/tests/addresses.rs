use linkerd2_proxy::addr::{IpAddr, SocketAddr};

#[test]
fn socket_addresses_are_written_with_ports() {
    let v4 = SocketAddr { ip: IpAddr::V4("1.2.3.4".to_string()), port: 5678 };
    assert_eq!(v4.to_text(), "1.2.3.4:5678");
    let v6 = SocketAddr { ip: IpAddr::V6("::1".to_string()), port: 80 };
    assert_eq!(v6.to_text(), "[::1]:80");
}
