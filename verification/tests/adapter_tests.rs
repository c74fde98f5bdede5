//! Tests for the normalization engine: naming, expansion, permissions,
//! literal parsing and whole-document conversion.

use zermiolib::mmio::bitfield::Bitfield;
use zermiolib::mmio::permissions::Permissions;
use zermiolib::mmio::register::Register;
use zermiolib::mmio::platform::Platform;
use zermiolib::mmio::report::FatalError;
use zermiolib::mmio::{device_cluster_name, device_type};
use zermiolib::schema::{from_bitrange, from_hex_string};
use zermiolib::svd;
use zermiolib::text::pascal_case;

fn ctrl_register(name: &str) -> svd::RegisterInfo {
    svd::RegisterInfo {
        name: String::from(name),
        description: None,
        address_offset: 0x0,
        fields: None,
    }
}

#[test]
fn device_type_strips_digits_and_lowercases() {
    assert_eq!(device_type("UART2"), "uart");
    assert_eq!(device_type("SPI0"), "spi");
    assert_eq!(device_type("TIMER"), "timer");
    assert_eq!(device_type("I2C1"), "i2c");
}

#[test]
fn cluster_name_splices_index_and_elides_duplicate() {
    assert_eq!(device_cluster_name("TIMER%s", "0", "TIMER_CTRL"), "TIMER0_CTRL");
    assert_eq!(device_cluster_name("GPIO", "2", "DATA"), "GPIO2DATA");
    assert_eq!(device_cluster_name("%s", "1", "STATUS"), "1STATUS");
}

#[test]
fn cluster_expansion_names_and_offsets() {
    // A 4-element cluster `TIMER%s` of `TIMER%s_CTRL` registers at base
    // offset 0x0 with increment 0x10 and indices 0..3: the names splice
    // the index without doubling `TIMER`, and the offsets step by 0x10.
    let cluster = svd::ClusterInfo {
        name: String::from("TIMER%s"),
        children: vec![svd::RegisterCluster::Register(svd::Register::Single(ctrl_register(
            "TIMER%s_CTRL",
        )))],
    };
    let dim = svd::DimElement {
        dim: 4,
        dim_increment: 0x10,
        dim_index: Some(vec![
            String::from("0"),
            String::from("1"),
            String::from("2"),
            String::from("3"),
        ]),
        dim_name: Some(String::from("timer")),
    };
    let regs = Register::from_cluster(&cluster, &dim, 32).unwrap();
    assert_eq!(regs.len(), 1);
    let reg = &regs[0];
    assert_eq!(reg.info.len(), 4);
    let names: Vec<&str> = reg.info.iter().map(|i| i.name.as_str()).collect();
    assert_eq!(names, vec!["TIMER0_CTRL", "TIMER1_CTRL", "TIMER2_CTRL", "TIMER3_CTRL"]);
    let offsets: Vec<u32> = reg.info.iter().map(|i| i.offset).collect();
    assert_eq!(offsets, vec![0x0, 0x10, 0x20, 0x30]);
    assert_eq!(reg.info[1].type_, "TIMER_CTRL");
}

#[test]
fn register_array_default_indices() {
    let reg = svd::Register::Array(
        ctrl_register("CH%s_DATA"),
        svd::DimElement { dim: 3, dim_increment: 4, dim_index: None, dim_name: None },
    );
    let out = Register::from_register(&reg, 32).unwrap();
    let names: Vec<&str> = out.info.iter().map(|i| i.name.as_str()).collect();
    assert_eq!(names, vec!["CH_DATA0", "CH_DATA1", "CH_DATA2"]);
    let offsets: Vec<u32> = out.info.iter().map(|i| i.offset).collect();
    assert_eq!(offsets, vec![0, 4, 8]);
}

#[test]
fn register_without_fields_gets_full_width_value_field() {
    let out = Register::from_info(&ctrl_register("STATUS"), 32).unwrap();
    assert_eq!(out.bitfields.len(), 1);
    assert_eq!(out.bitfields[0].name, "value");
    assert_eq!(out.bitfields[0].offset, 0);
    assert_eq!(out.bitfields[0].bit_size, 32);
    assert!(out.bitfields[0].permissions.is_readable());
    assert!(out.bitfields[0].permissions.is_writable());
}

#[test]
fn field_array_is_fatal() {
    let mut reg = ctrl_register("CTRL");
    reg.fields = Some(vec![svd::Field::Array(
        svd::FieldInfo {
            name: String::from("EN%s"),
            description: None,
            bit_offset: 0,
            bit_width: 1,
            access: None,
        },
        svd::DimElement { dim: 2, dim_increment: 1, dim_index: None, dim_name: None },
    )]);
    match Register::from_info(&reg, 32) {
        Err(FatalError::FieldArray { register }) => assert_eq!(register, "CTRL"),
        other => panic!("expected a field-array error, got {:?}", other),
    }
}

#[test]
fn nested_cluster_is_fatal() {
    let inner = svd::ClusterInfo { name: String::from("INNER"), children: vec![] };
    let outer = svd::ClusterInfo {
        name: String::from("OUTER"),
        children: vec![svd::RegisterCluster::Cluster(svd::Cluster::Single(inner))],
    };
    let dim = svd::DimElement { dim: 1, dim_increment: 4, dim_index: None, dim_name: None };
    match Register::from_cluster(&outer, &dim, 32) {
        Err(FatalError::NestedCluster { cluster }) => assert_eq!(cluster, "OUTER"),
        other => panic!("expected a nested-cluster error, got {:?}", other),
    }
}

#[test]
fn permissions_partition() {
    assert!(Permissions::Read.is_readable());
    assert!(!Permissions::Read.is_writable());
    assert!(Permissions::Write.is_writable());
    assert!(!Permissions::Write.is_readable());
    assert!(Permissions::WriteOnce.is_writable());
    assert!(!Permissions::WriteOnce.is_readable());
    assert!(Permissions::ReadWrite.is_readable());
    assert!(Permissions::ReadWrite.is_writable());
    assert!(Permissions::ReadWriteOnce.is_readable());
    assert!(Permissions::ReadWriteOnce.is_writable());
}

#[test]
fn permissions_from_tokens() {
    assert!(matches!(Permissions::from_source_token("read-only"), Ok(Permissions::Read)));
    assert!(matches!(Permissions::from_source_token("write-only"), Ok(Permissions::Write)));
    assert!(matches!(Permissions::from_source_token("read-write"), Ok(Permissions::ReadWrite)));
    match Permissions::from_source_token("read-writeOnce") {
        Err(FatalError::UnknownAccessToken(t)) => assert_eq!(t, "read-writeOnce"),
        other => panic!("expected an unknown-token error, got {:?}", other),
    }
}

#[test]
fn numeric_literals() {
    assert_eq!(from_hex_string("0x1F").unwrap(), 31);
    assert_eq!(from_hex_string("0x0").unwrap(), 0);
    assert_eq!(from_hex_string("123").unwrap(), 123);
    assert_eq!(from_hex_string("0xffffffffffffffff").unwrap(), u64::MAX);
    assert!(matches!(from_hex_string("12a"), Err(FatalError::MalformedNumber(_))));
    assert!(matches!(from_hex_string(""), Err(FatalError::MalformedNumber(_))));
    assert!(matches!(from_hex_string("0x"), Err(FatalError::MalformedNumber(_))));
}

#[test]
fn bit_range_literals() {
    let ab = from_bitrange("[7:4]").unwrap();
    assert_eq!(ab.offset, 4);
    assert_eq!(ab.size, 4);
    assert_eq!(ab.usage, "bitfield");
    let ab = from_bitrange("[0:0]").unwrap();
    assert_eq!(ab.offset, 0);
    assert_eq!(ab.size, 1);
    assert!(matches!(from_bitrange("7:4"), Err(FatalError::MalformedBitRange(_))));
    assert!(matches!(from_bitrange("[4:7]"), Err(FatalError::MalformedBitRange(_))));
    assert!(matches!(from_bitrange("[:4]"), Err(FatalError::MalformedBitRange(_))));
}

#[test]
fn pascal_case_identifiers() {
    assert_eq!(pascal_case("test_platform"), "TestPlatform");
    assert_eq!(pascal_case("uart"), "Uart");
    assert_eq!(pascal_case("__double"), "Double");
    assert_eq!(pascal_case("MIXED_case"), "MixedCase");
}

#[test]
fn platform_conversion_groups_and_namespaces() {
    let uart0 = svd::Peripheral::Single(svd::PeripheralInfo {
        name: String::from("UART0"),
        base_address: 0x4000_0000,
        derived_from: None,
        interrupt: vec![svd::Interrupt {
            name: String::from("RX"),
            description: None,
            value: 7,
        }],
        registers: Some(vec![svd::RegisterCluster::Register(svd::Register::Single(
            svd::RegisterInfo {
                name: String::from("CTRL"),
                description: Some(String::from("control register")),
                address_offset: 0x4,
                fields: Some(vec![svd::Field::Single(svd::FieldInfo {
                    name: String::from("EN"),
                    description: None,
                    bit_offset: 0,
                    bit_width: 1,
                    access: Some(svd::Access::ReadWrite),
                })]),
            },
        ))]),
    });
    let uart1 = svd::Peripheral::Single(svd::PeripheralInfo {
        name: String::from("UART1"),
        base_address: 0x4000_1000,
        derived_from: Some(String::from("UART0")),
        interrupt: vec![],
        registers: None,
    });
    let doc = svd::Device {
        name: String::from("test_platform"),
        width: 32,
        peripherals: vec![uart0, uart1],
    };
    let (platform, warnings) = Platform::try_from(&doc).unwrap();
    assert!(warnings.is_empty());
    assert_eq!(platform.name, "test_platform");
    assert_eq!(platform.bus_width, 32);

    // Both instances land in one `uart` group, addresses hex-formatted.
    assert_eq!(platform.device_types.len(), 1);
    assert_eq!(platform.device_types[0].type_, "uart");
    assert_eq!(platform.device_types[0].devices.len(), 2);
    assert_eq!(platform.device_types[0].devices[0].name, "UART0");
    assert_eq!(platform.device_types[0].devices[0].address, "0x40000000");
    assert_eq!(platform.device_types[0].devices[1].name, "UART1");
    assert_eq!(platform.device_types[0].devices[1].address, "0x40001000");

    // The derived instance contributes no device template.
    assert_eq!(platform.devices.len(), 1);
    assert_eq!(platform.devices[0].name, "UART0");
    assert_eq!(platform.devices[0].type_, "uart");
    assert_eq!(platform.devices[0].registers.len(), 1);
    let reg = &platform.devices[0].registers[0];
    assert_eq!(reg.info[0].name, "CTRL");
    assert_eq!(reg.info[0].desc, "control register");
    assert_eq!(reg.info[0].offset, 0x4);
    assert_eq!(reg.bitfields.len(), 1);
    assert_eq!(reg.bitfields[0].name, "EN");

    // Interrupts are namespaced by their device.
    assert_eq!(platform.interrupts.len(), 1);
    assert_eq!(platform.interrupts[0].name, "UART0_RX");
    assert_eq!(platform.interrupts[0].value, 7);
}

#[test]
fn platform_conversion_skips_peripheral_array() {
    let arr = svd::Peripheral::Array(
        svd::PeripheralInfo {
            name: String::from("DMA%s"),
            base_address: 0x5000_0000,
            derived_from: None,
            interrupt: vec![],
            registers: None,
        },
        svd::DimElement { dim: 2, dim_increment: 0x1000, dim_index: None, dim_name: None },
    );
    let doc = svd::Device {
        name: String::from("soc"),
        width: 32,
        peripherals: vec![arr],
    };
    let (platform, warnings) = Platform::try_from(&doc).unwrap();
    assert_eq!(platform.devices.len(), 0);
    assert_eq!(platform.device_types.len(), 0);
    assert_eq!(warnings.len(), 1);
    assert_eq!(warnings[0].device, "DMA%S");
    assert_eq!(
        warnings[0].message(),
        "Warning: Peripheral array not supported in DMA%S, skipping."
    );
}

#[test]
fn platform_add_register_grouping() {
    let mut platform = Platform {
        name: String::from("p"),
        device_types: Vec::new(),
        interrupts: Vec::new(),
        bus_width: 32,
        devices: Vec::new(),
    };
    platform.add_register(String::from("uart"), String::from("UART0"), 0x10);
    platform.add_register(String::from("spi"), String::from("SPI0"), 0x20);
    platform.add_register(String::from("uart"), String::from("UART1"), 0x30);
    assert_eq!(platform.device_types.len(), 2);
    assert_eq!(platform.device_types[0].type_, "uart");
    assert_eq!(platform.device_types[0].devices.len(), 2);
    assert_eq!(platform.device_types[0].devices[1].name, "UART1");
    assert_eq!(platform.device_types[0].devices[1].address, "0x30");
    assert_eq!(platform.device_types[1].type_, "spi");
    assert_eq!(platform.device_types[1].devices.len(), 1);
}

#[test]
fn bitfield_from_secondary_schema_field() {
    let field = zermiolib::rdljson::RegisterField {
        name: String::from("BAUD"),
        desc: String::from("baud rate"),
        lsb: 4,
        msb: 11,
        enum_field: None,
        sw_writable: true,
        sw_readable: true,
        set_onread: false,
        clear_onread: false,
    };
    let b = Bitfield::from_register_field(&field).unwrap();
    assert_eq!(b.name, "BAUD");
    assert_eq!(b.offset, 4);
    assert_eq!(b.bit_size, 8);
    assert_eq!(b.permissions, Permissions::ReadWrite);

    let mut inaccessible = field;
    inaccessible.sw_writable = false;
    inaccessible.sw_readable = false;
    match Bitfield::from_register_field(&inaccessible) {
        Err(FatalError::NoAccess { field }) => assert_eq!(field, "BAUD"),
        other => panic!("expected a no-access error, got {:?}", other),
    }
}

#[test]
fn numeric_literals_accept_leading_plus() {
    assert_eq!(from_hex_string("+5").unwrap(), 5);
    assert_eq!(from_hex_string("0x+a").unwrap(), 10);
}

#[test]
fn default_bitfield_matches_bus_width() {
    let b = Bitfield::default_for_width(32);
    assert_eq!(b.name, "value");
    assert_eq!(b.desc, "value");
    assert_eq!(b.offset, 0);
    assert_eq!(b.bit_size, 32);
}
