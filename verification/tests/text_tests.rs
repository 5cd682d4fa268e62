use port_sentinel::text::{dec_u64, format_addr};

#[test]
fn decimal_rendering_is_exact() {
    assert_eq!(dec_u64(0), "0");
    assert_eq!(dec_u64(7), "7");
    assert_eq!(dec_u64(100), "100");
    assert_eq!(dec_u64(65535), "65535");
}

#[test]
fn probe_addresses_are_ip_colon_port() {
    assert_eq!(format_addr("192.168.1.100", 22), "192.168.1.100:22");
    assert_eq!(format_addr("example.invalid", 443), "example.invalid:443");
}
