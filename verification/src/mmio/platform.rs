//! The platform entity of the intermediate representation, and the
//! top-level conversion of a whole source document into it.

use crate::mmio::device::{
    spec_children_fold, spec_device_name, spec_device_type_of, Device, DeviceView,
};
use crate::mmio::interrupt::{converted_interrupts, spec_interrupt, Interrupt, InterruptView};
use crate::mmio::register::RegisterView;
use crate::mmio::report::{FatalError, FatalErrorView, SkipReason, Warning, WarningView};
use crate::mmio::{device_type, spec_device_type};
use crate::seq_view;
use crate::svd;
use crate::text::{hex_str, replace_str, str_eq, to_upper, u64_to_hex};
use vstd::prelude::*;

verus! {

/// One device instance of a type: its name and its hex-formatted base
/// address.
#[derive(Debug, Clone)]
pub struct DeviceAddr {
    pub name: String,
    /// `0x`-prefixed lowercase hexadecimal base address.
    pub address: String,
}

/// The mathematical value of a [`DeviceAddr`].
pub ghost struct DeviceAddrView {
    pub name: Seq<char>,
    pub address: Seq<char>,
}

impl View for DeviceAddr {
    type V = DeviceAddrView;

    open spec fn view(&self) -> DeviceAddrView {
        DeviceAddrView { name: self.name@, address: self.address@ }
    }
}

/// All instances of one device type, with their addresses.
#[derive(Debug, Clone)]
pub struct DeviceTypes {
    pub type_: String,
    pub devices: Vec<DeviceAddr>,
}

/// The mathematical value of a [`DeviceTypes`].
pub ghost struct DeviceTypesView {
    pub type_: Seq<char>,
    pub devices: Seq<DeviceAddrView>,
}

impl View for DeviceTypes {
    type V = DeviceTypesView;

    open spec fn view(&self) -> DeviceTypesView {
        DeviceTypesView { type_: self.type_@, devices: seq_view(self.devices@) }
    }
}

/// The canonical model of a whole hardware platform.
#[derive(Debug, Clone)]
pub struct Platform {
    pub name: String,
    /// Device instances grouped by type.
    pub device_types: Vec<DeviceTypes>,
    pub interrupts: Vec<Interrupt>,
    /// Data bit-width of the maximum single transfer supported by the
    /// bus infrastructure.
    pub bus_width: u32,
    /// Device templates that own register definitions.
    pub devices: Vec<Device>,
}

/// The mathematical value of a [`Platform`].
pub ghost struct PlatformView {
    pub name: Seq<char>,
    pub device_types: Seq<DeviceTypesView>,
    pub interrupts: Seq<InterruptView>,
    pub bus_width: u32,
    pub devices: Seq<DeviceView>,
}

impl View for Platform {
    type V = PlatformView;

    open spec fn view(&self) -> PlatformView {
        PlatformView {
            name: self.name@,
            device_types: seq_view(self.device_types@),
            interrupts: seq_view(self.interrupts@),
            bus_width: self.bus_width,
            devices: seq_view(self.devices@),
        }
    }
}

/// The hex-formatted form of a base address, as `format!("{:#x}", a)`
/// renders it.
pub open spec fn spec_hex_addr(a: u64) -> Seq<char> {
    "0x"@ + hex_str(a as nat)
}

/// The result of registering one instance in a type→instances grouping:
/// the instance joins the first group of its type, or founds a new group
/// at the end.
pub open spec fn spec_add_group(
    groups: Seq<DeviceTypesView>,
    type_: Seq<char>,
    da: DeviceAddrView,
) -> Seq<DeviceTypesView>
    decreases groups.len(),
{
    if groups.len() == 0 {
        seq![DeviceTypesView { type_, devices: seq![da] }]
    } else if groups[0].type_ == type_ {
        seq![DeviceTypesView { type_: groups[0].type_, devices: groups[0].devices.push(da) }]
            + groups.skip(1)
    } else {
        seq![groups[0]] + spec_add_group(groups.skip(1), type_, da)
    }
}

proof fn lemma_add_group_found(
    groups: Seq<DeviceTypesView>,
    type_: Seq<char>,
    da: DeviceAddrView,
    j: int,
)
    requires
        0 <= j < groups.len(),
        groups[j].type_ == type_,
        forall|k: int| 0 <= k < j ==> groups[k].type_ != type_,
    ensures
        spec_add_group(groups, type_, da) == groups.update(
            j,
            DeviceTypesView {
                type_: groups[j].type_,
                devices: groups[j].devices.push(da),
            },
        ),
    decreases j,
{
    if j == 0 {
        assert(spec_add_group(groups, type_, da) =~= groups.update(
            0,
            DeviceTypesView {
                type_: groups[0].type_,
                devices: groups[0].devices.push(da),
            },
        ));
    } else {
        lemma_add_group_found(groups.skip(1), type_, da, j - 1);
        assert(spec_add_group(groups, type_, da) =~= groups.update(
            j,
            DeviceTypesView {
                type_: groups[j].type_,
                devices: groups[j].devices.push(da),
            },
        ));
    }
}

proof fn lemma_add_group_missing(groups: Seq<DeviceTypesView>, type_: Seq<char>, da: DeviceAddrView)
    requires
        forall|k: int| 0 <= k < groups.len() ==> groups[k].type_ != type_,
    ensures
        spec_add_group(groups, type_, da) == groups.push(
            DeviceTypesView { type_, devices: seq![da] },
        ),
    decreases groups.len(),
{
    if groups.len() == 0 {
        assert(spec_add_group(groups, type_, da) =~= groups.push(
            DeviceTypesView { type_, devices: seq![da] },
        ));
    } else {
        lemma_add_group_missing(groups.skip(1), type_, da);
        assert(spec_add_group(groups, type_, da) =~= groups.push(
            DeviceTypesView { type_, devices: seq![da] },
        ));
    }
}

impl Platform {
    /// Registers one device instance in the type→instances grouping: it
    /// joins the first group with its type name, or founds a new group.
    /// The address is stored hex-formatted.
    pub fn add_register(&mut self, type_: String, device_name: String, address: u64)
        ensures
            final(self)@.device_types == spec_add_group(
                old(self)@.device_types,
                type_@,
                (DeviceAddrView { name: device_name@, address: spec_hex_addr(address) }),
            ),
            final(self)@.name == old(self)@.name,
            final(self)@.interrupts == old(self)@.interrupts,
            final(self)@.bus_width == old(self)@.bus_width,
            final(self)@.devices == old(self)@.devices,
    {
        let new_device = DeviceAddr { name: device_name, address: u64_to_hex(address) };
        let ghost groups = seq_view(self.device_types@);
        let n = self.device_types.len();
        let mut idx: usize = 0;
        while idx < n && !str_eq(self.device_types[idx].type_.as_str(), type_.as_str())
            invariant
                idx <= n,
                n == self.device_types.len(),
                groups == seq_view(self.device_types@),
                forall|k: int| 0 <= k < idx ==> groups[k].type_ != type_@,
            decreases n - idx,
        {
            idx += 1;
        }
        if idx < n {
            proof {
                lemma_add_group_found(
                    groups,
                    type_@,
                    (DeviceAddrView { name: new_device.name@, address: new_device.address@ }),
                    idx as int,
                );
            }
            let group: &mut DeviceTypes = &mut self.device_types[idx];
            group.devices.push(new_device);
            proof {
                assert(seq_view(final(group).devices@) =~= groups[idx as int].devices.push(
                    (DeviceAddrView { name: new_device.name@, address: new_device.address@ }),
                ));
                assert(seq_view(self.device_types@) =~= groups.update(
                    idx as int,
                    (DeviceTypesView {
                        type_: groups[idx as int].type_,
                        devices: groups[idx as int].devices.push(
                            (DeviceAddrView {
                                name: new_device.name@,
                                address: new_device.address@,
                            }),
                        ),
                    }),
                ));
            }
        } else {
            proof {
                lemma_add_group_missing(
                    groups,
                    type_@,
                    (DeviceAddrView { name: new_device.name@, address: new_device.address@ }),
                );
            }
            let mut devices: Vec<DeviceAddr> = Vec::new();
            devices.push(new_device);
            let group = DeviceTypes { type_, devices };
            proof {
                assert(seq_view(group.devices@) =~= seq![group.devices@[0]@]);
            }
            self.device_types.push(group);
            proof {
                assert(seq_view(self.device_types@) =~= groups.push(
                    seq_view(self.device_types@).last(),
                ));
            }
        }
    }
}

/// The state a conversion run accumulates while walking the peripherals.
pub ghost struct PlatAcc {
    pub device_types: Seq<DeviceTypesView>,
    pub interrupts: Seq<InterruptView>,
    pub devices: Seq<DeviceView>,
    pub warnings: Seq<WarningView>,
}

/// The empty accumulator a conversion run starts from.
pub open spec fn spec_empty_acc() -> PlatAcc {
    PlatAcc {
        device_types: Seq::<DeviceTypesView>::empty(),
        interrupts: Seq::<InterruptView>::empty(),
        devices: Seq::<DeviceView>::empty(),
        warnings: Seq::<WarningView>::empty(),
    }
}

/// What one peripheral contributes to the platform under construction.
///
/// A peripheral array is skipped with a warning. A plain peripheral
/// always registers its address and its interrupts; it contributes a
/// device template only when it carries its own register list.
pub open spec fn spec_peripheral_step(acc: PlatAcc, p: svd::Peripheral, width: u32) -> Result<
    PlatAcc,
    FatalErrorView,
> {
    match p {
        svd::Peripheral::Array(info, _) => Ok(
            PlatAcc {
                device_types: acc.device_types,
                interrupts: acc.interrupts,
                devices: acc.devices,
                warnings: acc.warnings.push(
                    WarningView {
                        device: spec_device_name(info.name@),
                        reason: SkipReason::PeripheralArray,
                    },
                ),
            },
        ),
        svd::Peripheral::Single(info) => {
            let name = spec_device_name(info.name@);
            let ty = spec_device_type_of(info);
            let dts = spec_add_group(
                acc.device_types,
                ty,
                DeviceAddrView { name, address: spec_hex_addr(info.base_address) },
            );
            let ints = acc.interrupts + Seq::new(
                info.interrupt@.len(),
                |i: int| spec_interrupt(info.interrupt@[i], name),
            );
            match info.registers {
                None => Ok(
                    PlatAcc {
                        device_types: dts,
                        interrupts: ints,
                        devices: acc.devices,
                        warnings: acc.warnings,
                    },
                ),
                Some(children) => match spec_children_fold(children@, width, name) {
                    Err(e) => Err(e),
                    Ok((rs, ws)) => Ok(
                        PlatAcc {
                            device_types: dts,
                            interrupts: ints,
                            devices: acc.devices.push(
                                DeviceView { name, type_: ty, registers: rs },
                            ),
                            warnings: acc.warnings + ws,
                        },
                    ),
                },
            }
        },
    }
}

/// Folds [`spec_peripheral_step`] over the peripherals in order,
/// stopping at the first fatal error.
pub open spec fn spec_platform_fold(acc: PlatAcc, peris: Seq<svd::Peripheral>, width: u32) -> Result<
    PlatAcc,
    FatalErrorView,
>
    decreases peris.len(),
{
    if peris.len() == 0 {
        Ok(acc)
    } else {
        match spec_peripheral_step(acc, peris[0], width) {
            Ok(a) => spec_platform_fold(a, peris.skip(1), width),
            Err(e) => Err(e),
        }
    }
}

impl Platform {
    /// Converts a whole source document.
    ///
    /// Returns the fully built platform together with the warnings
    /// accumulated for skipped constructs, or the first fatal error.
    pub fn try_from(dev: &svd::Device) -> (r: Result<(Platform, Vec<Warning>), FatalError>)
        ensures
            match spec_platform_fold(spec_empty_acc(), dev.peripherals@, dev.width) {
                Ok(acc) => r matches Ok((p, w)) && p@ == (PlatformView {
                    name: dev.name@,
                    device_types: acc.device_types,
                    interrupts: acc.interrupts,
                    bus_width: dev.width,
                    devices: acc.devices,
                }) && seq_view(w@) == acc.warnings,
                Err(e) => r matches Err(err) && err@ == e,
            },
    {
        let mut this = Platform {
            name: dev.name.clone(),
            device_types: Vec::new(),
            interrupts: Vec::new(),
            bus_width: dev.width,
            devices: Vec::new(),
        };
        let mut warnings: Vec<Warning> = Vec::new();
        let ghost peris = dev.peripherals@;
        let ghost full = spec_platform_fold(spec_empty_acc(), peris, dev.width);
        proof {
            assert(seq_view(this.device_types@) =~= Seq::<DeviceTypesView>::empty());
            assert(seq_view(this.interrupts@) =~= Seq::<InterruptView>::empty());
            assert(seq_view(this.devices@) =~= Seq::<DeviceView>::empty());
            assert(seq_view(warnings@) =~= Seq::<WarningView>::empty());
            assert(peris.skip(0) =~= peris);
        }
        let mut i: usize = 0;
        while i < dev.peripherals.len()
            invariant
                i <= peris.len(),
                peris == dev.peripherals@,
                this.name@ == dev.name@,
                this.bus_width == dev.width,
                full == spec_platform_fold(spec_empty_acc(), peris, dev.width),
                full == spec_platform_fold(
                    (PlatAcc {
                        device_types: seq_view(this.device_types@),
                        interrupts: seq_view(this.interrupts@),
                        devices: seq_view(this.devices@),
                        warnings: seq_view(warnings@),
                    }),
                    peris.skip(i as int),
                    dev.width,
                ),
            decreases peris.len() - i,
        {
            let ghost rest = peris.skip(i as int);
            let ghost acc0 = PlatAcc {
                device_types: seq_view(this.device_types@),
                interrupts: seq_view(this.interrupts@),
                devices: seq_view(this.devices@),
                warnings: seq_view(warnings@),
            };
            proof {
                assert(rest[0] == peris[i as int]);
                assert(rest.skip(1) =~= peris.skip(i + 1));
            }
            match &dev.peripherals[i] {
                svd::Peripheral::Array(info, _) => {
                    proof {
                        reveal_strlit(" ");
                    }
                    let device_name = to_upper(replace_str(info.name.as_str(), " ", "_").as_str());
                    let ghost prev = seq_view(warnings@);
                    warnings.push(
                        Warning { device: device_name, reason: SkipReason::PeripheralArray },
                    );
                    proof {
                        assert(seq_view(warnings@) =~= prev.push(
                            (WarningView {
                                device: spec_device_name(info.name@),
                                reason: SkipReason::PeripheralArray,
                            }),
                        ));
                        assert(spec_peripheral_step(acc0, peris[i as int], dev.width)
                            == Ok::<PlatAcc, FatalErrorView>(
                            (PlatAcc {
                                device_types: seq_view(this.device_types@),
                                interrupts: seq_view(this.interrupts@),
                                devices: seq_view(this.devices@),
                                warnings: seq_view(warnings@),
                            }),
                        ));
                    }
                },
                svd::Peripheral::Single(info) => {
                    proof {
                        reveal_strlit(" ");
                    }
                    let device_name = to_upper(replace_str(info.name.as_str(), " ", "_").as_str());
                    let ty = match &info.derived_from {
                        Some(d) => device_type(d.as_str()),
                        None => device_type(device_name.as_str()),
                    };
                    this.add_register(ty.clone(), device_name.clone(), info.base_address);
                    let ghost ints0 = seq_view(this.interrupts@);
                    let mut new_ints = converted_interrupts(&info.interrupt, device_name.as_str());
                    let ghost new_views = seq_view(new_ints@);
                    this.interrupts.append(&mut new_ints);
                    proof {
                        assert(seq_view(this.interrupts@) =~= ints0 + new_views);
                    }
                    match &info.registers {
                        None => {
                            proof {
                                assert(spec_peripheral_step(acc0, peris[i as int], dev.width)
                                    == Ok::<PlatAcc, FatalErrorView>(
                                    (PlatAcc {
                                        device_types: seq_view(this.device_types@),
                                        interrupts: seq_view(this.interrupts@),
                                        devices: seq_view(this.devices@),
                                        warnings: seq_view(warnings@),
                                    }),
                                ));
                            }
                        },
                        Some(children) => {
                            match crate::mmio::device::device_registers(
                                children,
                                dev.width,
                                device_name.as_str(),
                            ) {
                                Ok((regs, mut warns)) => {
                                    let ghost devs0 = seq_view(this.devices@);
                                    let ghost regviews = seq_view(regs@);
                                    let d = Device { name: device_name, type_: ty, registers: regs };
                                    this.devices.push(d);
                                    let ghost warns0 = seq_view(warnings@);
                                    let ghost wviews = seq_view(warns@);
                                    warnings.append(&mut warns);
                                    proof {
                                        assert(seq_view(this.devices@) =~= devs0.push(
                                            (DeviceView {
                                                name: spec_device_name(info.name@),
                                                type_: spec_device_type_of(*info),
                                                registers: regviews,
                                            }),
                                        ));
                                        assert(seq_view(warnings@) =~= warns0 + wviews);
                                        assert(spec_peripheral_step(
                                            acc0,
                                            peris[i as int],
                                            dev.width,
                                        ) == Ok::<PlatAcc, FatalErrorView>(
                                            (PlatAcc {
                                                device_types: seq_view(this.device_types@),
                                                interrupts: seq_view(this.interrupts@),
                                                devices: seq_view(this.devices@),
                                                warnings: seq_view(warnings@),
                                            }),
                                        ));
                                    }
                                },
                                Err(e) => {
                                    proof {
                                        assert(spec_peripheral_step(
                                            acc0,
                                            peris[i as int],
                                            dev.width,
                                        ) == Err::<PlatAcc, FatalErrorView>(e@));
                                    }
                                    return Err(e);
                                },
                            }
                        },
                    }
                },
            }
            i += 1;
        }
        proof {
            assert(peris.skip(peris.len() as int) =~= Seq::<svd::Peripheral>::empty());
        }
        Ok((this, warnings))
    }
}

} // verus!
