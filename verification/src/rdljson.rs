//! Model of the secondary JSON-based hardware description schema and the
//! homogeneous-interface splitting normalization.
//!
//! A device of this schema may expose several register interfaces. When
//! all interfaces beyond the first are structurally identical to the
//! first — comparing name, fields, writability, readability and reset
//! value, but not raw offsets — the device is split into one device per
//! interface, each at `base + i × interface size`, and the device list is
//! reordered by ascending address.

use crate::seq_view;
use crate::text::str_eq;
use vstd::prelude::*;

verus! {

/// One bitfield of a register of the secondary schema.
#[derive(Debug)]
pub struct RegisterField {
    pub name: String,
    pub desc: String,
    /// Least significant bit of the field.
    pub lsb: u32,
    /// Most significant bit of the field.
    pub msb: u32,
    pub enum_field: Option<String>,
    pub sw_writable: bool,
    pub sw_readable: bool,
    pub set_onread: bool,
    pub clear_onread: bool,
}

/// The mathematical value of a [`RegisterField`].
#[verifier::ext_equal]
pub ghost struct RegisterFieldView {
    pub name: Seq<char>,
    pub desc: Seq<char>,
    pub lsb: u32,
    pub msb: u32,
    pub enum_field: Option<Seq<char>>,
    pub sw_writable: bool,
    pub sw_readable: bool,
    pub set_onread: bool,
    pub clear_onread: bool,
}

impl View for RegisterField {
    type V = RegisterFieldView;

    open spec fn view(&self) -> RegisterFieldView {
        RegisterFieldView {
            name: self.name@,
            desc: self.desc@,
            lsb: self.lsb,
            msb: self.msb,
            enum_field: match self.enum_field {
                Some(ref e) => Some(e@),
                None => None,
            },
            sw_writable: self.sw_writable,
            sw_readable: self.sw_readable,
            set_onread: self.set_onread,
            clear_onread: self.clear_onread,
        }
    }
}

/// One register of an interface.
#[derive(Debug)]
pub struct Register {
    pub name: String,
    pub type_: String,
    pub desc: Option<String>,
    /// One offset per interface slot the register appears in.
    pub offsets: Vec<u32>,
    pub fields: Vec<RegisterField>,
    pub sw_writable: bool,
    pub sw_readable: bool,
    pub reset: u32,
}

/// The mathematical value of a [`Register`].
#[verifier::ext_equal]
pub ghost struct RegisterView {
    pub name: Seq<char>,
    pub type_: Seq<char>,
    pub desc: Option<Seq<char>>,
    pub offsets: Seq<u32>,
    pub fields: Seq<RegisterFieldView>,
    pub sw_writable: bool,
    pub sw_readable: bool,
    pub reset: u32,
}

impl View for Register {
    type V = RegisterView;

    open spec fn view(&self) -> RegisterView {
        RegisterView {
            name: self.name@,
            type_: self.type_@,
            desc: match self.desc {
                Some(ref d) => Some(d@),
                None => None,
            },
            offsets: self.offsets@,
            fields: seq_view(self.fields@),
            sw_writable: self.sw_writable,
            sw_readable: self.sw_readable,
            reset: self.reset,
        }
    }
}

/// One register interface of a peripheral.
#[derive(Debug)]
pub struct Interface {
    pub name: Option<String>,
    pub regs: Vec<Register>,
}

/// The mathematical value of an [`Interface`].
#[verifier::ext_equal]
pub ghost struct InterfaceView {
    pub name: Option<Seq<char>>,
    pub regs: Seq<RegisterView>,
}

impl View for Interface {
    type V = InterfaceView;

    open spec fn view(&self) -> InterfaceView {
        InterfaceView {
            name: match self.name {
                Some(ref n) => Some(n@),
                None => None,
            },
            regs: seq_view(self.regs@),
        }
    }
}

/// A peripheral of the secondary schema.
#[derive(Debug)]
pub struct Peripheral {
    pub name: String,
    pub type_: String,
    pub offsets: Vec<u32>,
    pub size: u32,
    pub interfaces: Vec<Interface>,
}

/// The mathematical value of a [`Peripheral`].
#[verifier::ext_equal]
pub ghost struct PeripheralView {
    pub name: Seq<char>,
    pub type_: Seq<char>,
    pub offsets: Seq<u32>,
    pub size: u32,
    pub interfaces: Seq<InterfaceView>,
}

impl View for Peripheral {
    type V = PeripheralView;

    open spec fn view(&self) -> PeripheralView {
        PeripheralView {
            name: self.name@,
            type_: self.type_@,
            offsets: self.offsets@,
            size: self.size,
            interfaces: seq_view(self.interfaces@),
        }
    }
}

/// A plain memory block of the secondary schema.
#[derive(Debug)]
pub struct Memory {
    pub name: String,
    pub entries: u32,
    pub sw_writable: bool,
    pub sw_readable: bool,
    pub width: u8,
    pub offset: u32,
    pub size: u32,
}

/// The mathematical value of a [`Memory`].
#[verifier::ext_equal]
pub ghost struct MemoryView {
    pub name: Seq<char>,
    pub entries: u32,
    pub sw_writable: bool,
    pub sw_readable: bool,
    pub width: u8,
    pub offset: u32,
    pub size: u32,
}

impl View for Memory {
    type V = MemoryView;

    open spec fn view(&self) -> MemoryView {
        MemoryView {
            name: self.name@,
            entries: self.entries,
            sw_writable: self.sw_writable,
            sw_readable: self.sw_readable,
            width: self.width,
            offset: self.offset,
            size: self.size,
        }
    }
}

/// One entry of the device list: a memory block or a peripheral.
#[derive(Debug)]
pub enum Device {
    Mem(Memory),
    Device(Peripheral),
}

/// The mathematical value of a [`Device`].
#[verifier::ext_equal]
pub ghost enum DeviceView {
    Mem(MemoryView),
    Device(PeripheralView),
}

impl View for Device {
    type V = DeviceView;

    open spec fn view(&self) -> DeviceView {
        match *self {
            Device::Mem(ref m) => DeviceView::Mem(m@),
            Device::Device(ref p) => DeviceView::Device(p@),
        }
    }
}

/// A whole system-on-chip description of the secondary schema.
#[derive(Debug)]
pub struct SoC {
    pub name: String,
    pub devices: Vec<Device>,
}

/// The base address a device sorts by.
pub open spec fn spec_offset(d: DeviceView) -> u32 {
    match d {
        DeviceView::Mem(m) => m.offset,
        DeviceView::Device(p) => p.offsets[0],
    }
}

/// Whether sorting by address can read this device's offset.
pub open spec fn spec_offset_wf(d: DeviceView) -> bool {
    match d {
        DeviceView::Mem(_) => true,
        DeviceView::Device(p) => p.offsets.len() > 0,
    }
}

/// Structural register equality as the splitting comparison uses it:
/// raw offsets, the type name and the description are ignored.
pub open spec fn spec_reg_eq(a: RegisterView, b: RegisterView) -> bool {
    &&& a.name == b.name
    &&& a.fields == b.fields
    &&& a.sw_writable == b.sw_writable
    &&& a.sw_readable == b.sw_readable
    &&& a.reset == b.reset
}

/// Interface equality: registers compare pairwise by [`spec_reg_eq`].
pub open spec fn spec_iface_eq(a: InterfaceView, b: InterfaceView) -> bool {
    &&& a.regs.len() == b.regs.len()
    &&& forall|i: int| 0 <= i < a.regs.len() ==> spec_reg_eq(a.regs[i], b.regs[i])
}

/// Whether every interface beyond the first is structurally identical to
/// the first.
pub open spec fn spec_all_equal(p: PeripheralView) -> bool {
    forall|k: int| 1 <= k < p.interfaces.len() ==> spec_iface_eq(p.interfaces[k], p.interfaces[0])
}

/// Whether a peripheral is split: it has several interfaces and they are
/// all structurally identical.
pub open spec fn spec_splits(p: PeripheralView) -> bool {
    p.interfaces.len() > 1 && spec_all_equal(p)
}

/// The byte size of one interface: four bytes past the last offset of
/// the last register of the first interface.
pub open spec fn spec_iface_size(p: PeripheralView) -> int {
    p.interfaces[0].regs.last().offsets.last() + 4
}

/// What the splitting needs of a device: a peripheral always carries at
/// least one base address, and a peripheral that is split has a
/// measurable first interface and offsets that stay within 32 bits.
pub open spec fn spec_split_wf(d: DeviceView) -> bool {
    match d {
        DeviceView::Mem(_) => true,
        DeviceView::Device(p) => {
            &&& p.offsets.len() > 0
            &&& (spec_splits(p) ==> {
                &&& p.interfaces[0].regs.len() > 0
                &&& p.interfaces[0].regs.last().offsets.len() > 0
                &&& spec_iface_size(p) <= u32::MAX
                &&& p.offsets[0] + spec_iface_size(p) * (p.interfaces.len() - 1) <= u32::MAX
            })
        },
    }
}

/// A split device keeps its identity but is truncated to one interface.
pub open spec fn spec_transformed(d: DeviceView) -> DeviceView {
    match d {
        DeviceView::Mem(m) => DeviceView::Mem(m),
        DeviceView::Device(p) => {
            if spec_splits(p) {
                DeviceView::Device(
                    PeripheralView {
                        name: p.name,
                        type_: p.type_,
                        offsets: p.offsets,
                        size: p.size,
                        interfaces: seq![p.interfaces[0]],
                    },
                )
            } else {
                DeviceView::Device(p)
            }
        },
    }
}

/// The devices a split device adds: one per interface beyond the first,
/// of the same type, each at `base + index × interface size` and holding
/// exactly that interface.
pub open spec fn spec_added(d: DeviceView) -> Seq<DeviceView> {
    match d {
        DeviceView::Mem(_) => Seq::<DeviceView>::empty(),
        DeviceView::Device(p) => {
            if spec_splits(p) {
                Seq::new(
                    (p.interfaces.len() - 1) as nat,
                    |t: int|
                        DeviceView::Device(
                            PeripheralView {
                                name: match p.interfaces[t + 1].name {
                                    Some(n) => n,
                                    None => "device"@,
                                },
                                type_: p.type_,
                                offsets: seq![
                                    (p.offsets[0] + spec_iface_size(p) * (t + 1)) as u32,
                                ],
                                size: spec_iface_size(p) as u32,
                                interfaces: seq![p.interfaces[t + 1]],
                            },
                        ),
                )
            } else {
                Seq::<DeviceView>::empty()
            }
        },
    }
}

/// All devices the splitting adds, in device order.
pub open spec fn spec_added_all(devs: Seq<DeviceView>) -> Seq<DeviceView>
    decreases devs.len(),
{
    if devs.len() == 0 {
        Seq::<DeviceView>::empty()
    } else {
        spec_added_all(devs.drop_last()) + spec_added(devs.last())
    }
}

/// The device list after splitting, before reordering: every device
/// transformed in place, then every added device.
pub open spec fn spec_split_all(devs: Seq<DeviceView>) -> Seq<DeviceView> {
    Seq::new(devs.len(), |i: int| spec_transformed(devs[i])) + spec_added_all(devs)
}

impl RegisterField {
    /// Full structural equality of two fields.
    pub fn equivalent(&self, other: &Self) -> (r: bool)
        ensures
            r == (self@ == other@),
    {
        let names_eq = self.name == other.name && self.desc == other.desc;
        let enums_eq = match (&self.enum_field, &other.enum_field) {
            (Some(a), Some(b)) => str_eq(a.as_str(), b.as_str()),
            (None, None) => true,
            _ => false,
        };
        names_eq && enums_eq && self.lsb == other.lsb && self.msb == other.msb && self.sw_writable
            == other.sw_writable && self.sw_readable == other.sw_readable && self.set_onread
            == other.set_onread && self.clear_onread == other.clear_onread
    }
}

impl Register {
    /// Structural equality as the splitting uses it: the name, the
    /// fields, the capability flags and the reset value; offsets are
    /// ignored.
    pub fn equivalent(&self, other: &Self) -> (r: bool)
        ensures
            r == spec_reg_eq(self@, other@),
    {
        if !(self.name == other.name && self.sw_writable == other.sw_writable && self.sw_readable
            == other.sw_readable && self.reset == other.reset) {
            return false;
        }
        if self.fields.len() != other.fields.len() {
            proof {
                assert(self@.fields.len() == self.fields@.len());
                assert(other@.fields.len() == other.fields@.len());
            }
            return false;
        }
        let n = self.fields.len();
        let mut i: usize = 0;
        while i < n
            invariant
                n == self.fields@.len(),
                n == other.fields@.len(),
                i <= n,
                forall|j: int| 0 <= j < i ==> self.fields@[j]@ == other.fields@[j]@,
            decreases n - i,
        {
            if !self.fields[i].equivalent(&other.fields[i]) {
                proof {
                    assert(self@.fields[i as int] == self.fields@[i as int]@);
                    assert(other@.fields[i as int] == other.fields@[i as int]@);
                }
                return false;
            }
            i += 1;
        }
        proof {
            assert(self@.fields =~= other@.fields);
        }
        true
    }
}

impl Interface {
    /// Structural equality of two interfaces, register by register.
    pub fn equivalent(&self, other: &Self) -> (r: bool)
        ensures
            r == spec_iface_eq(self@, other@),
    {
        if self.regs.len() != other.regs.len() {
            proof {
                assert(self@.regs.len() == self.regs@.len());
                assert(other@.regs.len() == other.regs@.len());
            }
            return false;
        }
        let n = self.regs.len();
        let mut i: usize = 0;
        while i < n
            invariant
                n == self.regs@.len(),
                n == other.regs@.len(),
                i <= n,
                forall|j: int| 0 <= j < i ==> spec_reg_eq(self.regs@[j]@, other.regs@[j]@),
            decreases n - i,
        {
            if !self.regs[i].equivalent(&other.regs[i]) {
                proof {
                    assert(self@.regs[i as int] == self.regs@[i as int]@);
                    assert(other@.regs[i as int] == other.regs@[i as int]@);
                }
                return false;
            }
            i += 1;
        }
        proof {
            assert(forall|j: int|
                0 <= j < self@.regs.len() ==> #[trigger] self@.regs[j] == self.regs@[j]@
                    && other@.regs[j] == other.regs@[j]@);
        }
        true
    }
}

/// An exact copy of a field.
fn clone_field(f: &RegisterField) -> (r: RegisterField)
    ensures
        r@ == f@,
{
    RegisterField {
        name: f.name.clone(),
        desc: f.desc.clone(),
        lsb: f.lsb,
        msb: f.msb,
        enum_field: match &f.enum_field {
            Some(e) => Some(e.clone()),
            None => None,
        },
        sw_writable: f.sw_writable,
        sw_readable: f.sw_readable,
        set_onread: f.set_onread,
        clear_onread: f.clear_onread,
    }
}

/// An exact copy of a register.
fn clone_register(g: &Register) -> (r: Register)
    ensures
        r@ == g@,
{
    let mut offsets: Vec<u32> = Vec::new();
    let mut i: usize = 0;
    while i < g.offsets.len()
        invariant
            i <= g.offsets@.len(),
            offsets@ == g.offsets@.take(i as int),
        decreases g.offsets@.len() - i,
    {
        offsets.push(g.offsets[i]);
        proof {
            assert(offsets@ =~= g.offsets@.take(i + 1));
        }
        i += 1;
    }
    proof {
        assert(g.offsets@.take(g.offsets@.len() as int) =~= g.offsets@);
    }
    let mut fields: Vec<RegisterField> = Vec::new();
    let mut j: usize = 0;
    while j < g.fields.len()
        invariant
            j <= g.fields@.len(),
            fields@.len() == j,
            forall|t: int| 0 <= t < j ==> fields@[t]@ == g.fields@[t]@,
        decreases g.fields@.len() - j,
    {
        fields.push(clone_field(&g.fields[j]));
        j += 1;
    }
    let r = Register {
        name: g.name.clone(),
        type_: g.type_.clone(),
        desc: match &g.desc {
            Some(d) => Some(d.clone()),
            None => None,
        },
        offsets,
        fields,
        sw_writable: g.sw_writable,
        sw_readable: g.sw_readable,
        reset: g.reset,
    };
    proof {
        assert(seq_view(r.fields@) =~= seq_view(g.fields@));
    }
    r
}

/// An exact copy of an interface.
fn clone_interface(iface: &Interface) -> (r: Interface)
    ensures
        r@ == iface@,
{
    let mut regs: Vec<Register> = Vec::new();
    let mut i: usize = 0;
    while i < iface.regs.len()
        invariant
            i <= iface.regs@.len(),
            regs@.len() == i,
            forall|t: int| 0 <= t < i ==> regs@[t]@ == iface.regs@[t]@,
        decreases iface.regs@.len() - i,
    {
        regs.push(clone_register(&iface.regs[i]));
        i += 1;
    }
    let r = Interface {
        name: match &iface.name {
            Some(n) => Some(n.clone()),
            None => None,
        },
        regs,
    };
    proof {
        assert(seq_view(r.regs@) =~= seq_view(iface.regs@));
    }
    r
}

impl Peripheral {
    /// A fresh single-interface peripheral wrapping `iface`, named after
    /// it or `device` when it is anonymous, with no type, size or
    /// addresses yet.
    pub fn from_interface(iface: &Interface) -> (r: Self)
        ensures
            r@ == (PeripheralView {
                name: match iface@.name {
                    Some(n) => n,
                    None => "device"@,
                },
                type_: Seq::<char>::empty(),
                offsets: Seq::<u32>::empty(),
                size: 0,
                interfaces: seq![iface@],
            }),
    {
        let name = match &iface.name {
            Some(n) => n.clone(),
            None => String::from_str("device"),
        };
        proof {
            reveal_strlit("");
        }
        let mut interfaces: Vec<Interface> = Vec::new();
        interfaces.push(clone_interface(iface));
        let r = Peripheral {
            name,
            type_: String::from_str(""),
            offsets: Vec::new(),
            size: 0,
            interfaces,
        };
        proof {
            assert(seq_view(r.interfaces@) =~= seq![iface@]);
            assert(r.offsets@ =~= Seq::<u32>::empty());
            assert(""@ =~= Seq::<char>::empty());
        }
        r
    }
}

impl Device {
    /// The base address this device sorts by.
    pub fn get_offset(&self) -> (r: u32)
        requires
            spec_offset_wf(self@),
        ensures
            r == spec_offset(self@),
    {
        match self {
            Device::Mem(m) => m.offset,
            Device::Device(p) => p.offsets[0],
        }
    }
}

/// Reorders devices by ascending base address with a stable selection
/// sort: the result holds the same devices, ordered by
/// [`spec_offset`].
fn sort_by_offset(input: Vec<Device>) -> (r: Vec<Device>)
    requires
        forall|i: int| 0 <= i < input@.len() ==> spec_offset_wf(#[trigger] input@[i]@),
    ensures
        seq_view(r@).to_multiset() == seq_view(input@).to_multiset(),
        forall|i: int, j: int|
            0 <= i < j < r@.len() ==> spec_offset(#[trigger] r@[i]@) <= spec_offset(
                #[trigger] r@[j]@,
            ),
{
    let mut rest = input;
    let mut out: Vec<Device> = Vec::new();
    let ghost orig = seq_view(rest@);
    proof {
        broadcast use vstd::seq_lib::group_to_multiset_ensures;

        assert(seq_view(out@) =~= Seq::<DeviceView>::empty());
        assert(seq_view(out@).to_multiset().add(seq_view(rest@).to_multiset())
            =~= orig.to_multiset());
    }
    while rest.len() > 0
        invariant
            seq_view(out@).to_multiset().add(seq_view(rest@).to_multiset()) == orig.to_multiset(),
            forall|i: int| 0 <= i < rest@.len() ==> spec_offset_wf(#[trigger] rest@[i]@),
            forall|i: int, j: int|
                0 <= i < j < out@.len() ==> spec_offset(#[trigger] out@[i]@) <= spec_offset(
                    #[trigger] out@[j]@,
                ),
            forall|i: int, j: int|
                0 <= i < out@.len() && 0 <= j < rest@.len() ==> spec_offset(#[trigger] out@[i]@)
                    <= spec_offset(#[trigger] rest@[j]@),
        decreases rest@.len(),
    {
        let mut min_idx: usize = 0;
        let mut k: usize = 1;
        while k < rest.len()
            invariant
                min_idx < k <= rest@.len(),
                rest@.len() > 0,
                forall|i: int| 0 <= i < rest@.len() ==> spec_offset_wf(#[trigger] rest@[i]@),
                forall|t: int|
                    0 <= t < k ==> spec_offset(rest@[min_idx as int]@) <= spec_offset(
                        #[trigger] rest@[t]@,
                    ),
            decreases rest@.len() - k,
        {
            if rest[k].get_offset() < rest[min_idx].get_offset() {
                min_idx = k;
            }
            k += 1;
        }
        let ghost out_before = seq_view(out@);
        let ghost rest_before = seq_view(rest@);
        let x = rest.remove(min_idx);
        out.push(x);
        proof {
            broadcast use vstd::seq_lib::group_to_multiset_ensures;

            assert(seq_view(rest@) =~= rest_before.remove(min_idx as int));
            assert(seq_view(out@) =~= out_before.push(x@));
            assert(rest_before[min_idx as int] == x@);
            assert(seq_view(out@).to_multiset() =~= out_before.to_multiset().insert(x@));
            assert(seq_view(rest@).to_multiset() =~= rest_before.to_multiset().remove(x@));
            assert(rest_before.to_multiset().count(x@) > 0);
            assert(seq_view(out@).to_multiset().add(seq_view(rest@).to_multiset())
                =~= out_before.to_multiset().add(rest_before.to_multiset()));
        }
    }
    proof {
        assert(seq_view(rest@) =~= Seq::<DeviceView>::empty());
        assert(seq_view(out@).to_multiset().add(seq_view(rest@).to_multiset())
            =~= seq_view(out@).to_multiset());
    }
    out
}

impl SoC {
    /// Splits every device whose interfaces beyond the first are
    /// structurally identical to the first into one device per
    /// interface, each at `base + index × interface size`, truncates the
    /// original to one interface, and reorders the device list by
    /// ascending address.
    ///
    /// The devices afterwards are exactly a reordering, by ascending
    /// base address, of [`spec_split_all`] applied to the devices
    /// before.
    pub fn homogeneous_interfaces_to_periperals(&mut self)
        requires
            forall|i: int|
                0 <= i < old(self).devices@.len() ==> spec_split_wf(
                    #[trigger] old(self).devices@[i]@,
                ),
        ensures
            final(self).name@ == old(self).name@,
            seq_view(final(self).devices@).to_multiset() == spec_split_all(
                seq_view(old(self).devices@),
            ).to_multiset(),
            forall|i: int, j: int|
                0 <= i < j < final(self).devices@.len() ==> spec_offset(
                    #[trigger] final(self).devices@[i]@,
                ) <= spec_offset(#[trigger] final(self).devices@[j]@),
    {
        let ghost devs0 = seq_view(self.devices@);
        let mut combined: Vec<Device> = Vec::new();
        let mut added: Vec<Device> = Vec::new();
        let n = self.devices.len();
        let mut i: usize = 0;
        proof {
            assert(spec_added_all(devs0.take(0)) =~= Seq::<DeviceView>::empty());
            assert(seq_view(added@) =~= Seq::<DeviceView>::empty());
        }
        while i < n
            invariant
                i <= n,
                n == self.devices@.len(),
                devs0 == seq_view(self.devices@),
                forall|t: int| 0 <= t < n ==> spec_split_wf(#[trigger] devs0[t]),
                combined@.len() == i,
                forall|t: int| 0 <= t < i ==> combined@[t]@ == spec_transformed(devs0[t]),
                seq_view(added@) == spec_added_all(devs0.take(i as int)),
            decreases n - i,
        {
            let ghost added_before = seq_view(added@);
            proof {
                assert(devs0.take(i + 1).drop_last() =~= devs0.take(i as int));
                assert(devs0.take(i + 1).last() == devs0[i as int]);
            }
            match &self.devices[i] {
                Device::Mem(m) => {
                    proof {
                        assert(devs0[i as int] == self.devices@[i as int]@);
                        assert(devs0[i as int] == DeviceView::Mem(m@));
                    }
                    combined.push(Device::Mem(clone_memory(m)));
                    proof {
                        assert(seq_view(added@) =~= added_before + spec_added(devs0[i as int]));
                    }
                },
                Device::Device(p) => {
                    proof {
                        assert(devs0[i as int] == self.devices@[i as int]@);
                        assert(devs0[i as int] == DeviceView::Device(p@));
                        assert(spec_split_wf(DeviceView::Device(p@)));
                    }
                    let iface_count = p.interfaces.len();
                    let homogeneous = iface_count > 1 && all_interfaces_equal(p);
                    if !homogeneous {
                        combined.push(Device::Device(clone_peripheral(p)));
                        proof {
                            assert(!spec_splits(p@));
                            assert(seq_view(added@) =~= added_before + spec_added(devs0[i as int]));
                        }
                    } else {
                        proof {
                            assert(spec_splits(p@));
                        }
                        let base = p.offsets[0];
                        proof {
                            assert(p@.interfaces[0] == p.interfaces@[0]@);
                            assert(p@.interfaces[0].regs.last() == p.interfaces@[0].regs@[(
                            p.interfaces@[0].regs@.len() - 1) as int]@);
                        }
                        let last_reg = &p.interfaces[0].regs[p.interfaces[0].regs.len() - 1];
                        let size = last_reg.offsets[last_reg.offsets.len() - 1] + 4;
                        proof {
                            assert(last_reg@ == p@.interfaces[0].regs.last());
                            assert(size == spec_iface_size(p@));
                        }
                        let mut idx: usize = 1;
                        let ghost news = spec_added(devs0[i as int]);
                        while idx < iface_count
                            invariant
                                1 <= idx <= iface_count,
                                iface_count == p.interfaces@.len(),
                                spec_splits(p@),
                                spec_split_wf(DeviceView::Device(p@)),
                                devs0[i as int] == DeviceView::Device(p@),
                                0 <= i < devs0.len(),
                                base == p@.offsets[0],
                                size == spec_iface_size(p@),
                                news == spec_added(devs0[i as int]),
                                added@.len() == added_before.len() + idx - 1,
                                seq_view(added@) == added_before + news.take(idx - 1),
                            decreases iface_count - idx,
                        {
                            let ghost prev_views = seq_view(added@);
                            let mut fresh = Peripheral::from_interface(&p.interfaces[idx]);
                            fresh.type_ = p.type_.clone();
                            fresh.size = size;
                            let off = checked_slot_offset(base, size, idx, iface_count);
                            let mut offsets: Vec<u32> = Vec::new();
                            offsets.push(off);
                            fresh.offsets = offsets;
                            added.push(Device::Device(fresh));
                            proof {
                                assert(fresh.offsets@ =~= seq![off]);
                                assert(p@.interfaces[idx as int] == p.interfaces@[idx as int]@);
                                assert(news[idx - 1] == DeviceView::Device(
                                    (PeripheralView {
                                        name: match p@.interfaces[idx as int].name {
                                            Some(nm) => nm,
                                            None => "device"@,
                                        },
                                        type_: p@.type_,
                                        offsets: seq![
                                            (p@.offsets[0] + spec_iface_size(p@) * (idx as int)) as u32,
                                        ],
                                        size: spec_iface_size(p@) as u32,
                                        interfaces: seq![p@.interfaces[idx as int]],
                                    }),
                                ));
                                assert(added@.last()@ == news[idx - 1]);
                                assert(news.len() == iface_count - 1);
                                assert(seq_view(added@).len() == added_before.len() + idx);
                                assert(forall|t: int|
                                    0 <= t < added@.len() ==> #[trigger] seq_view(added@)[t]
                                        == added@[t]@);
                                assert(forall|t: int|
                                    0 <= t < prev_views.len() ==> #[trigger] prev_views[t]
                                        == added@[t]@);
                                assert(news.take(idx as int) =~= news.take(idx - 1).push(
                                    news[idx - 1],
                                ));
                                assert(seq_view(added@) =~= prev_views.push(news[idx - 1]));
                                assert(prev_views.push(news[idx - 1]) =~= added_before + news.take(
                                    idx as int,
                                ));
                            }
                            idx += 1;
                        }
                        let mut kept = clone_peripheral(p);
                        kept.interfaces.truncate(1);
                        combined.push(Device::Device(kept));
                        proof {
                            assert(news.take((iface_count - 1) as int) =~= news);
                            assert(p@.interfaces[0] == p.interfaces@[0]@);
                            assert(seq_view(kept.interfaces@) =~= seq![p@.interfaces[0]]);
                            assert(kept@ == (PeripheralView {
                                name: p@.name,
                                type_: p@.type_,
                                offsets: p@.offsets,
                                size: p@.size,
                                interfaces: seq![p@.interfaces[0]],
                            }));
                            assert(seq_view(added@) =~= added_before + spec_added(devs0[i as int]));
                        }
                    }
                },
            }
            i += 1;
        }
        proof {
            assert(devs0.take(n as int) =~= devs0);
        }
        let mut all = combined;
        all.append(&mut added);
        proof {
            assert(seq_view(all@) =~= spec_split_all(devs0));
            lemma_added_all_wf(devs0);
            assert forall|t: int| 0 <= t < all@.len() implies spec_offset_wf(
                #[trigger] all@[t]@,
            ) by {
                assert(all@[t]@ == seq_view(all@)[t]);
                if t < devs0.len() {
                    assert(spec_split_all(devs0)[t] == spec_transformed(devs0[t]));
                    assert(spec_split_wf(devs0[t]));
                } else {
                    assert(spec_split_all(devs0)[t] == spec_added_all(devs0)[t - devs0.len()]);
                }
            }
        }
        let sorted = sort_by_offset(all);
        self.devices = sorted;
    }
}

/// Every device the splitting adds carries exactly one base address.
proof fn lemma_added_all_wf(devs: Seq<DeviceView>)
    requires
        forall|t: int| 0 <= t < devs.len() ==> spec_split_wf(#[trigger] devs[t]),
    ensures
        forall|t: int|
            0 <= t < spec_added_all(devs).len() ==> spec_offset_wf(
                #[trigger] spec_added_all(devs)[t],
            ),
    decreases devs.len(),
{
    if devs.len() > 0 {
        assert(forall|t: int|
            0 <= t < devs.drop_last().len() ==> spec_split_wf(#[trigger] devs.drop_last()[t]));
        lemma_added_all_wf(devs.drop_last());
        let front = spec_added_all(devs.drop_last());
        let tail = spec_added(devs.last());
        assert(forall|t: int| 0 <= t < tail.len() ==> spec_offset_wf(#[trigger] tail[t]));
        assert forall|t: int| 0 <= t < spec_added_all(devs).len() implies spec_offset_wf(
            #[trigger] spec_added_all(devs)[t],
        ) by {
            if t < front.len() {
                assert(spec_added_all(devs)[t] == front[t]);
            } else {
                assert(spec_added_all(devs)[t] == tail[t - front.len()]);
            }
        }
    }
}

/// Whether every interface of the peripheral beyond the first equals
/// the first.
fn all_interfaces_equal(p: &Peripheral) -> (r: bool)
    requires
        p.interfaces@.len() > 0,
    ensures
        r == spec_all_equal(p@),
{
    let mut k: usize = 1;
    while k < p.interfaces.len()
        invariant
            1 <= k <= p.interfaces@.len(),
            forall|t: int|
                1 <= t < k ==> spec_iface_eq(#[trigger] p@.interfaces[t], p@.interfaces[0]),
        decreases p.interfaces@.len() - k,
    {
        if !p.interfaces[k].equivalent(&p.interfaces[0]) {
            proof {
                assert(p@.interfaces[k as int] == p.interfaces@[k as int]@);
                assert(p@.interfaces[0] == p.interfaces@[0]@);
            }
            return false;
        }
        proof {
            assert(p@.interfaces[k as int] == p.interfaces@[k as int]@);
            assert(p@.interfaces[0] == p.interfaces@[0]@);
        }
        k += 1;
    }
    true
}

/// The base address of interface slot `idx` of a split device.
fn checked_slot_offset(base: u32, size: u32, idx: usize, iface_count: usize) -> (r: u32)
    requires
        1 <= idx < iface_count,
        base + (size as int) * (iface_count - 1) <= u32::MAX,
    ensures
        r == (base + (size as int) * (idx as int)) as u32,
{
    proof {
        assert((size as int) * (idx as int) <= (size as int) * (iface_count - 1)) by (nonlinear_arith)
            requires
                0 <= size,
                idx <= iface_count - 1,
        ;
        assert(0 <= (size as int) * (idx as int)) by (nonlinear_arith)
            requires
                0 <= size,
                0 <= idx,
        ;
    }
    let off64: u64 = (base as u64) + (size as u64) * (idx as u64);
    off64 as u32
}

/// An exact copy of a memory block.
fn clone_memory(m: &Memory) -> (r: Memory)
    ensures
        r@ == m@,
{
    Memory {
        name: m.name.clone(),
        entries: m.entries,
        sw_writable: m.sw_writable,
        sw_readable: m.sw_readable,
        width: m.width,
        offset: m.offset,
        size: m.size,
    }
}

/// An exact copy of a peripheral.
fn clone_peripheral(p: &Peripheral) -> (r: Peripheral)
    ensures
        r@ == p@,
{
    let mut offsets: Vec<u32> = Vec::new();
    let mut i: usize = 0;
    while i < p.offsets.len()
        invariant
            i <= p.offsets@.len(),
            offsets@ == p.offsets@.take(i as int),
        decreases p.offsets@.len() - i,
    {
        offsets.push(p.offsets[i]);
        proof {
            assert(offsets@ =~= p.offsets@.take(i + 1));
        }
        i += 1;
    }
    proof {
        assert(p.offsets@.take(p.offsets@.len() as int) =~= p.offsets@);
    }
    let mut interfaces: Vec<Interface> = Vec::new();
    let mut j: usize = 0;
    while j < p.interfaces.len()
        invariant
            j <= p.interfaces@.len(),
            interfaces@.len() == j,
            forall|t: int| 0 <= t < j ==> interfaces@[t]@ == p.interfaces@[t]@,
        decreases p.interfaces@.len() - j,
    {
        interfaces.push(clone_interface(&p.interfaces[j]));
        j += 1;
    }
    let r = Peripheral {
        name: p.name.clone(),
        type_: p.type_.clone(),
        offsets,
        size: p.size,
        interfaces,
    };
    proof {
        assert(seq_view(r.interfaces@) =~= seq_view(p.interfaces@));
    }
    r
}

} // verus!
