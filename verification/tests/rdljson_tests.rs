//! Tests for the secondary schema's homogeneous-interface splitting.

use zermiolib::rdljson::{Device, Interface, Memory, Peripheral, Register, RegisterField, SoC};

fn status_field() -> RegisterField {
    RegisterField {
        name: String::from("READY"),
        desc: String::from("ready flag"),
        lsb: 0,
        msb: 0,
        enum_field: None,
        sw_writable: false,
        sw_readable: true,
        set_onread: false,
        clear_onread: false,
    }
}

fn iface_register(slot_offset: u32) -> Register {
    Register {
        name: String::from("STATUS"),
        type_: String::from("status"),
        desc: None,
        offsets: vec![0xfc + slot_offset],
        fields: vec![status_field()],
        sw_writable: true,
        sw_readable: true,
        reset: 0,
    }
}

fn iface(slot_offset: u32) -> Interface {
    Interface { name: Some(String::from("serial")), regs: vec![iface_register(slot_offset)] }
}

#[test]
fn homogeneous_interfaces_split_into_devices() {
    // Three byte-identical interfaces (the comparison ignores offsets)
    // of size 0x100 at base 0x1000 become three devices of one type at
    // 0x1000, 0x1100 and 0x1200.
    let dev = Peripheral {
        name: String::from("SERIAL"),
        type_: String::from("serial"),
        offsets: vec![0x1000],
        size: 0,
        interfaces: vec![iface(0), iface(0x100), iface(0x200)],
    };
    let mut soc = SoC { name: String::from("soc"), devices: vec![Device::Device(dev)] };
    soc.homogeneous_interfaces_to_periperals();

    assert_eq!(soc.devices.len(), 3);
    let mut offsets = Vec::new();
    for d in &soc.devices {
        match d {
            Device::Device(p) => {
                assert_eq!(p.type_, "serial");
                assert_eq!(p.interfaces.len(), 1);
                offsets.push(p.offsets[0]);
            },
            Device::Mem(_) => panic!("no memory devices expected"),
        }
    }
    assert_eq!(offsets, vec![0x1000, 0x1100, 0x1200]);
}

#[test]
fn heterogeneous_interfaces_stay_together() {
    let mut other = iface(0x100);
    other.regs[0].name = String::from("CONTROL");
    let dev = Peripheral {
        name: String::from("MIXED"),
        type_: String::from("mixed"),
        offsets: vec![0x2000],
        size: 0,
        interfaces: vec![iface(0), other],
    };
    let mut soc = SoC { name: String::from("soc"), devices: vec![Device::Device(dev)] };
    soc.homogeneous_interfaces_to_periperals();

    assert_eq!(soc.devices.len(), 1);
    match &soc.devices[0] {
        Device::Device(p) => assert_eq!(p.interfaces.len(), 2),
        Device::Mem(_) => panic!("no memory devices expected"),
    }
}

#[test]
fn devices_reorder_by_ascending_address() {
    let mem = Memory {
        name: String::from("sram"),
        entries: 1024,
        sw_writable: true,
        sw_readable: true,
        width: 32,
        offset: 0x1080,
        size: 0x1000,
    };
    let dev = Peripheral {
        name: String::from("SERIAL"),
        type_: String::from("serial"),
        offsets: vec![0x1000],
        size: 0,
        interfaces: vec![iface(0), iface(0x100)],
    };
    let mut soc = SoC {
        name: String::from("soc"),
        devices: vec![Device::Mem(mem), Device::Device(dev)],
    };
    soc.homogeneous_interfaces_to_periperals();

    let offsets: Vec<u32> = soc.devices.iter().map(|d| d.get_offset()).collect();
    assert_eq!(offsets, vec![0x1000, 0x1080, 0x1100]);
}

#[test]
fn interface_comparison_ignores_offsets() {
    let a = iface(0);
    let b = iface(0x700);
    assert!(a.equivalent(&b));
    let mut c = iface(0);
    c.regs[0].reset = 5;
    assert!(!a.equivalent(&c));
    let mut d = iface(0);
    d.regs[0].fields[0].msb = 3;
    assert!(!a.equivalent(&d));
}

#[test]
fn split_devices_take_interface_names() {
    let mut second = iface(0x100);
    second.name = None;
    let dev = Peripheral {
        name: String::from("SERIAL"),
        type_: String::from("serial"),
        offsets: vec![0x1000],
        size: 0,
        interfaces: vec![iface(0), second],
    };
    let mut soc = SoC { name: String::from("soc"), devices: vec![Device::Device(dev)] };
    soc.homogeneous_interfaces_to_periperals();

    assert_eq!(soc.devices.len(), 2);
    match &soc.devices[1] {
        Device::Device(p) => {
            assert_eq!(p.name, "device");
            assert_eq!(p.size, 0x100);
            assert_eq!(p.offsets, vec![0x1100]);
        },
        Device::Mem(_) => panic!("no memory devices expected"),
    }
}
