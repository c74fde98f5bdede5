//! The device entity of the intermediate representation, and the
//! conversion of a source peripheral's register list into it.

use crate::mmio::register::{
    spec_cluster_fold, spec_expand, spec_expand_overflow, spec_fields_fatal, spec_indices,
    spec_register_of_info, Register, RegisterView,
};
use crate::mmio::report::{FatalError, FatalErrorView, SkipReason, Warning, WarningView};
use crate::mmio::{device_cluster_name, device_type, spec_cluster_name, spec_device_type};
use crate::seq_view;
use crate::svd;
use crate::text::{replace_str, spec_replace, to_upper, upper_of};
use vstd::prelude::*;

verus! {

/// One device template of the platform: an instance name, a shared type
/// identifier, and the registers the device owns.
#[derive(Debug, Clone)]
pub struct Device {
    /// Instance name, upper-cased with spaces replaced by underscores.
    pub name: String,
    /// Shared template identifier, such as `uart` for `UART0`.
    pub type_: String,
    pub registers: Vec<Register>,
}

/// The mathematical value of a [`Device`].
pub ghost struct DeviceView {
    pub name: Seq<char>,
    pub type_: Seq<char>,
    pub registers: Seq<RegisterView>,
}

impl View for Device {
    type V = DeviceView;

    open spec fn view(&self) -> DeviceView {
        DeviceView { name: self.name@, type_: self.type_@, registers: seq_view(self.registers@) }
    }
}

/// The normalized instance name of a device: spaces replaced by
/// underscores, then upper-cased.
pub open spec fn spec_device_name(raw: Seq<char>) -> Seq<char> {
    upper_of(spec_replace(raw, " "@, "_"@))
}

/// The type identifier of a peripheral: derived from its derivation
/// reference when it has one, else from its own normalized name.
pub open spec fn spec_device_type_of(p: svd::PeripheralInfo) -> Seq<char> {
    spec_device_type(
        match p.derived_from {
            Some(d) => d@,
            None => spec_device_name(p.name@),
        },
    )
}

/// The value of converting a peripheral's register list: registers and
/// expanded clusters in declaration order, a warning for each skipped
/// construct, or the first fatal error.
pub open spec fn spec_children_fold(
    children: Seq<svd::RegisterCluster>,
    width: u32,
    devname: Seq<char>,
) -> Result<(Seq<RegisterView>, Seq<WarningView>), FatalErrorView>
    decreases children.len(),
{
    if children.len() == 0 {
        Ok((Seq::<RegisterView>::empty(), Seq::<WarningView>::empty()))
    } else {
        let tail = spec_children_fold(children.skip(1), width, devname);
        match children[0] {
            svd::RegisterCluster::Register(r) => {
                match r {
                    svd::Register::Single(f) => {
                        if spec_fields_fatal(f.fields) {
                            Err(FatalErrorView::FieldArray { register: f.name@ })
                        } else {
                            match tail {
                                Ok((rs, ws)) => Ok((seq![spec_register_of_info(f, width)] + rs, ws)),
                                Err(e) => Err(e),
                            }
                        }
                    },
                    svd::Register::Array(f, dim) => {
                        if spec_fields_fatal(f.fields) {
                            Err(FatalErrorView::FieldArray { register: f.name@ })
                        } else if spec_indices(dim).len() == 0 {
                            Err(FatalErrorView::EmptyDimIndex { register: f.name@ })
                        } else if spec_expand_overflow(f, dim) {
                            Err(FatalErrorView::OffsetOverflow { register: f.name@ })
                        } else {
                            match tail {
                                Ok((rs, ws)) => Ok((seq![spec_expand(f, dim, width)] + rs, ws)),
                                Err(e) => Err(e),
                            }
                        }
                    },
                }
            },
            svd::RegisterCluster::Cluster(c) => {
                match c {
                    svd::Cluster::Single(_) => {
                        match tail {
                            Ok((rs, ws)) => Ok(
                                (
                                    rs,
                                    seq![
                                        WarningView {
                                            device: devname,
                                            reason: SkipReason::UnsupportedCluster,
                                        },
                                    ] + ws,
                                ),
                            ),
                            Err(e) => Err(e),
                        }
                    },
                    svd::Cluster::Array(cinfo, cdim) => {
                        match spec_cluster_fold(cinfo.children@, cdim, width, cinfo.name@) {
                            Err(e) => Err(e),
                            Ok(cregs) => match tail {
                                Ok((rs, ws)) => Ok((cregs + rs, ws)),
                                Err(e) => Err(e),
                            },
                        }
                    },
                }
            },
        }
    }
}

/// Converts a peripheral's register list, skipping what cannot be
/// represented with a warning and aborting on fatal constructs.
pub(crate) fn device_registers(children: &Vec<svd::RegisterCluster>, width: u32, devname: &str) -> (r: Result<
    (Vec<Register>, Vec<Warning>),
    FatalError,
>)
    ensures
        match spec_children_fold(children@, width, devname@) {
            Ok((rs, ws)) => r matches Ok((regs, warns)) && seq_view(regs@) == rs && seq_view(
                warns@,
            ) == ws,
            Err(e) => r matches Err(err) && err@ == e,
        },
{
    let mut regs: Vec<Register> = Vec::new();
    let mut warns: Vec<Warning> = Vec::new();
    let mut i: usize = 0;
    let ghost cs = children@;
    let ghost full = spec_children_fold(cs, width, devname@);
    proof {
        assert(cs.skip(0) =~= cs);
    }
    while i < children.len()
        invariant
            i <= cs.len(),
            cs == children@,
            full == spec_children_fold(cs, width, devname@),
            full == (match spec_children_fold(cs.skip(i as int), width, devname@) {
                Ok((rs, ws)) => Ok::<_, FatalErrorView>(
                    (seq_view(regs@) + rs, seq_view(warns@) + ws),
                ),
                Err(e) => Err::<(Seq<RegisterView>, Seq<WarningView>), _>(e),
            }),
        decreases cs.len() - i,
    {
        let ghost rest = cs.skip(i as int);
        proof {
            assert(rest[0] == cs[i as int]);
            assert(rest.skip(1) =~= cs.skip(i + 1));
        }
        let ghost prev_regs = seq_view(regs@);
        let ghost prev_warns = seq_view(warns@);
        match &children[i] {
            svd::RegisterCluster::Register(r) => {
                match Register::from_register(r, width) {
                    Ok(reg) => {
                        regs.push(reg);
                        proof {
                            let tail = spec_children_fold(cs.skip(i + 1), width, devname@);
                            if tail is Ok {
                                let rs = tail->Ok_0.0;
                                assert(seq_view(regs@) + rs =~= prev_regs + (seq![reg@] + rs));
                            }
                        }
                    },
                    Err(e) => {
                        return Err(e);
                    },
                }
            },
            svd::RegisterCluster::Cluster(c) => {
                match c {
                    svd::Cluster::Single(_) => {
                        warns.push(
                            Warning {
                                device: devname.to_owned(),
                                reason: SkipReason::UnsupportedCluster,
                            },
                        );
                        proof {
                            let tail = spec_children_fold(cs.skip(i + 1), width, devname@);
                            if tail is Ok {
                                let ws = tail->Ok_0.1;
                                assert(seq_view(warns@) + ws =~= prev_warns + (seq![
                                    WarningView {
                                        device: devname@,
                                        reason: SkipReason::UnsupportedCluster,
                                    },
                                ] + ws));
                            }
                        }
                    },
                    svd::Cluster::Array(cinfo, cdim) => {
                        match Register::from_cluster(cinfo, cdim, width) {
                            Ok(mut cregs) => {
                                let ghost cviews = seq_view(cregs@);
                                regs.append(&mut cregs);
                                proof {
                                    let tail = spec_children_fold(cs.skip(i + 1), width, devname@);
                                    assert(seq_view(regs@) =~= prev_regs + cviews);
                                    if tail is Ok {
                                        let rs = tail->Ok_0.0;
                                        assert(seq_view(regs@) + rs =~= prev_regs + (cviews + rs));
                                    }
                                }
                            },
                            Err(e) => {
                                return Err(e);
                            },
                        }
                    },
                }
            },
        }
        i += 1;
    }
    proof {
        assert(cs.skip(cs.len() as int) =~= Seq::<svd::RegisterCluster>::empty());
        if full is Ok {
            assert(seq_view(regs@) + Seq::<RegisterView>::empty() =~= seq_view(regs@));
            assert(seq_view(warns@) + Seq::<WarningView>::empty() =~= seq_view(warns@));
        }
    }
    Ok((regs, warns))
}

impl Device {
    /// A device template with the given instance name and type, owning no
    /// registers yet.
    pub fn new(name: String, type_: String) -> (r: Self)
        ensures
            r@.name == name@,
            r@.type_ == type_@,
            r@.registers == Seq::<RegisterView>::empty(),
    {
        let d = Self { name, type_: type_, registers: Vec::new() };
        proof {
            assert(seq_view(d.registers@) =~= Seq::<RegisterView>::empty());
        }
        d
    }

    /// The shared template identifier for a device name.
    pub fn get_type(s: &str) -> (r: String)
        ensures
            r@ == spec_device_type(s@),
    {
        device_type(s)
    }

    /// The name of one element of an expanded register array or cluster.
    pub fn get_cluster_name(base: &str, index: &str, reg: &str) -> (r: String)
        ensures
            r@ == spec_cluster_name(base@, index@, reg@),
    {
        device_cluster_name(base, index, reg)
    }

    /// Converts one peripheral declaration into a device template.
    ///
    /// A peripheral without a register list converts to a device with no
    /// registers; register constructs that cannot be represented are
    /// skipped with a warning; fatal constructs abort the run.
    pub fn try_from_info(p: &svd::PeripheralInfo, width: u32) -> (r: Result<
        (Device, Vec<Warning>),
        FatalError,
    >)
        ensures
            p.registers is None ==> (r matches Ok((d, w)) && d@ == (DeviceView {
                name: spec_device_name(p.name@),
                type_: spec_device_type_of(*p),
                registers: Seq::<RegisterView>::empty(),
            }) && w@.len() == 0),
            p.registers matches Some(children) ==> match spec_children_fold(
                children@,
                width,
                spec_device_name(p.name@),
            ) {
                Ok((rs, ws)) => r matches Ok((d, w)) && d@ == (DeviceView {
                    name: spec_device_name(p.name@),
                    type_: spec_device_type_of(*p),
                    registers: rs,
                }) && seq_view(w@) == ws,
                Err(e) => r matches Err(err) && err@ == e,
            },
    {
        proof {
            reveal_strlit(" ");
        }
        let device_name = to_upper(replace_str(p.name.as_str(), " ", "_").as_str());
        let ty = match &p.derived_from {
            Some(d) => device_type(d.as_str()),
            None => device_type(device_name.as_str()),
        };
        match &p.registers {
            None => {
                let d = Device::new(device_name, ty);
                Ok((d, Vec::new()))
            },
            Some(children) => {
                match device_registers(children, width, device_name.as_str()) {
                    Ok((regs, warns)) => {
                        let d = Device { name: device_name, type_: ty, registers: regs };
                        Ok((d, warns))
                    },
                    Err(e) => Err(e),
                }
            },
        }
    }
}

} // verus!
