//! The per-register packed codecs: packing then unpacking any value is
//! the identity, at the all-clear, all-set and mixed boundary patterns.

use snapctl::registers::{packed_from_bytes, write_packed_request, PackedRegister, RegisterAddress};
use snapctl::tengbe::{CoreType, GatewayAddress, IpAddress, Port, PromiscRstEn, Status};
use snapctl::wire::base64_encode;

#[test]
fn core_type_packs_and_unpacks() {
    for value in [
        CoreType { cpu_tx_enable: false, cpu_rx_enable: false, revision: 0, core_type: 0 },
        CoreType { cpu_tx_enable: true, cpu_rx_enable: true, revision: 0xff, core_type: 0xff },
        CoreType { cpu_tx_enable: true, cpu_rx_enable: false, revision: 3, core_type: 9 },
    ] {
        assert_eq!(CoreType::unpack(value.pack()), value);
    }
    let packed = CoreType { cpu_tx_enable: true, cpu_rx_enable: false, revision: 2, core_type: 5 }
        .pack();
    assert_eq!(packed, 0x0100_0205);
}

#[test]
fn ip_and_gateway_pack_big_endian() {
    let ip = IpAddress { octet0: 192, octet1: 168, octet2: 5, octet3: 20 };
    assert_eq!(ip.pack(), 0xc0a8_0514);
    assert_eq!(IpAddress::unpack(0xc0a8_0514), ip);
    let gw = GatewayAddress { octet0: 192, octet1: 168, octet2: 5, octet3: 1 };
    assert_eq!(gw.pack(), 0xc0a8_0501);
    assert_eq!(GatewayAddress::unpack(gw.pack()), gw);
    for value in [
        IpAddress { octet0: 0, octet1: 0, octet2: 0, octet3: 0 },
        IpAddress { octet0: 0xff, octet1: 0xff, octet2: 0xff, octet3: 0xff },
    ] {
        assert_eq!(IpAddress::unpack(value.pack()), value);
    }
}

#[test]
fn port_packs_and_unpacks() {
    for value in [
        Port { port_mask: 0, port: 0 },
        Port { port_mask: 0xffff, port: 0xffff },
        Port { port_mask: 0, port: 6000 },
    ] {
        assert_eq!(Port::unpack(value.pack()), value);
    }
    assert_eq!(Port { port_mask: 0, port: 6000 }.pack(), 6000);
}

#[test]
fn control_and_status_pack_and_unpack() {
    for value in [
        PromiscRstEn { soft_rst: false, promisc: false, enable: false },
        PromiscRstEn { soft_rst: true, promisc: true, enable: true },
        PromiscRstEn { soft_rst: true, promisc: false, enable: true },
    ] {
        assert_eq!(PromiscRstEn::unpack(value.pack()), value);
    }
    assert_eq!(Status::unpack(Status { link_up: true }.pack()), Status { link_up: true });
    assert_eq!(Status::unpack(0), Status { link_up: false });
}

#[test]
fn packed_writes_spell_address_and_payload() {
    let m = write_packed_request("gbe0", &(PromiscRstEn { soft_rst: false, promisc: false, enable: true }));
    assert_eq!(m.name, "write");
    assert_eq!(m.arguments[0], "gbe0");
    assert_eq!(m.arguments[1], "44");
    assert_eq!(m.arguments[2], base64_encode(&[0, 0, 0, 1]));
    assert_eq!(PromiscRstEn::address(), 0x2c);
}

#[test]
fn packed_values_decode_from_reply_bytes() {
    let st: Status = packed_from_bytes(&[0, 0, 0, 1]).unwrap();
    assert!(st.link_up);
    let st: Status = packed_from_bytes(&[0, 0, 0, 0]).unwrap();
    assert!(!st.link_up);
    assert!(packed_from_bytes::<Status>(&[0, 0, 1]).is_err());
}
