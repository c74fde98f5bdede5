//! The register entity of the intermediate representation, and the
//! conversion of source register declarations into it, including
//! array/cluster expansion.

use crate::mmio::bitfield::{spec_bitfield_of_field, spec_value_field, Bitfield, BitfieldView};
use crate::mmio::report::{FatalError, FatalErrorView};
use crate::mmio::{device_cluster_name, spec_cluster_name};
use crate::seq_view;
use crate::svd;
use crate::text::{dec_str, remove_all, spec_replace, u32_to_dec};
use vstd::prelude::*;

verus! {

/// One name/offset record of a register; a register expanded from an
/// array carries one record per element.
#[derive(Debug, Clone)]
pub struct RegisterInfo {
    pub name: String,
    /// Shared template identifier of the register's layout.
    pub type_: String,
    /// Human-readable description; defaults to the name.
    pub desc: String,
    /// Byte offset from the owning device's base address.
    pub offset: u32,
}

/// The mathematical value of a [`RegisterInfo`].
pub ghost struct RegisterInfoView {
    pub name: Seq<char>,
    pub type_: Seq<char>,
    pub desc: Seq<char>,
    pub offset: u32,
}

impl View for RegisterInfo {
    type V = RegisterInfoView;

    open spec fn view(&self) -> RegisterInfoView {
        RegisterInfoView {
            name: self.name@,
            type_: self.type_@,
            desc: self.desc@,
            offset: self.offset,
        }
    }
}

/// One register of a device: one or more name/offset records sharing a
/// single bitfield layout. `info` always holds at least one record.
#[derive(Debug, Clone)]
pub struct Register {
    pub info: Vec<RegisterInfo>,
    pub bitfields: Vec<Bitfield>,
}

/// The mathematical value of a [`Register`].
pub ghost struct RegisterView {
    pub info: Seq<RegisterInfoView>,
    pub bitfields: Seq<BitfieldView>,
}

impl View for Register {
    type V = RegisterView;

    open spec fn view(&self) -> RegisterView {
        RegisterView { info: seq_view(self.info@), bitfields: seq_view(self.bitfields@) }
    }
}

impl RegisterInfo {
    /// The type name defaults to the name with any `%s` placeholder
    /// removed; the description defaults to the name.
    pub fn new(name: String, type_: Option<String>, desc: Option<String>, offset: u32) -> (r:
        Self)
        ensures
            r@ == (RegisterInfoView {
                name: name@,
                type_: match type_ {
                    Some(t) => t@,
                    None => spec_replace(name@, "%s"@, Seq::<char>::empty()),
                },
                desc: match desc {
                    Some(d) => d@,
                    None => name@,
                },
                offset,
            }),
    {
        let type_ = match type_ {
            Some(t) => t,
            None => remove_all(name.as_str(), "%s"),
        };
        let desc = match desc {
            Some(d) => d,
            None => name.clone(),
        };
        RegisterInfo { name, type_, desc, offset }
    }
}

impl Register {
    /// Wraps one record and a shared bitfield list.
    pub fn new(name: String, offset: u32, desc: Option<String>, bitfields: Vec<Bitfield>) -> (r:
        Self)
        ensures
            r@ == (RegisterView {
                info: seq![
                    RegisterInfoView {
                        name: name@,
                        type_: spec_replace(name@, "%s"@, Seq::<char>::empty()),
                        desc: match desc {
                            Some(d) => d@,
                            None => name@,
                        },
                        offset,
                    },
                ],
                bitfields: seq_view(bitfields@),
            }),
    {
        let mut info: Vec<RegisterInfo> = Vec::new();
        info.push(RegisterInfo::new(name, None, desc, offset));
        let r = Register { info, bitfields };
        proof {
            assert(r@.info =~= seq![r.info@[0]@]);
        }
        r
    }
}

/// Whether a field sequence contains a field array.
pub open spec fn spec_field_list_fatal(fs: Seq<svd::Field>) -> bool {
    exists|i: int| 0 <= i < fs.len() && fs[i] is Array
}

/// The bitfields a field sequence without field arrays converts to.
pub open spec fn spec_field_list_bitfields(fs: Seq<svd::Field>) -> Seq<BitfieldView> {
    Seq::new(fs.len(), |i: int| spec_bitfield_of_field(fs[i]->Single_0))
}

/// Whether a declared field list contains a field array, which cannot be
/// represented and aborts the run.
pub open spec fn spec_fields_fatal(fields: Option<Vec<svd::Field>>) -> bool {
    match fields {
        Some(v) => spec_field_list_fatal(v@),
        None => false,
    }
}

/// The bitfields of a converted register; a register that declares no
/// fields gets one synthetic full-width field.
pub open spec fn spec_bitfields_of(fields: Option<Vec<svd::Field>>, width: u32) -> Seq<
    BitfieldView,
> {
    match fields {
        Some(v) => spec_field_list_bitfields(v@),
        None => seq![spec_value_field(width)],
    }
}

/// The value of converting one plain register declaration.
pub open spec fn spec_register_of_info(f: svd::RegisterInfo, width: u32) -> RegisterView {
    RegisterView {
        info: seq![
            RegisterInfoView {
                name: f.name@,
                type_: spec_replace(f.name@, "%s"@, Seq::<char>::empty()),
                desc: match f.description {
                    Some(d) => d@,
                    None => f.name@,
                },
                offset: f.address_offset,
            },
        ],
        bitfields: spec_bitfields_of(f.fields, width),
    }
}

/// Index labels of an expansion: the declared list, else `0..dim` as
/// decimal strings.
pub open spec fn spec_indices(dim: svd::DimElement) -> Seq<Seq<char>> {
    match dim.dim_index {
        Some(v) => seq_view(v@),
        None => Seq::new(dim.dim as nat, |i: int| dec_str(i as nat)),
    }
}

/// The shared type name of an expansion's elements: the register's own
/// name with any `%s` placeholder removed.
pub open spec fn spec_reg_type(f: svd::RegisterInfo) -> Seq<char> {
    spec_replace(f.name@, "%s"@, Seq::<char>::empty())
}

/// The base name an expansion splices indices into.
pub open spec fn spec_base_name(f: svd::RegisterInfo, dim: svd::DimElement) -> Seq<char> {
    match dim.dim_name {
        Some(n) => n@,
        None => f.name@,
    }
}

/// Whether an expansion's last element offset overflows 32 bits.
pub open spec fn spec_expand_overflow_core(f: svd::RegisterInfo, n: nat, increment: u32) -> bool {
    n >= 2 && f.address_offset + (n - 1) * increment > u32::MAX
}

/// See [`spec_expand_overflow_core`].
pub open spec fn spec_expand_overflow(f: svd::RegisterInfo, dim: svd::DimElement) -> bool {
    spec_expand_overflow_core(f, spec_indices(dim).len(), dim.dim_increment)
}

/// The value of expanding a register array: element `i` sits at
/// `base offset + i × increment` and is named by [`spec_cluster_name`].
pub open spec fn spec_expand_core(
    f: svd::RegisterInfo,
    idx: Seq<Seq<char>>,
    increment: u32,
    width: u32,
    base: Seq<char>,
) -> RegisterView {
    let type_ = spec_reg_type(f);
    RegisterView {
        info: Seq::new(
            idx.len(),
            |i: int|
                if i == 0 {
                    RegisterInfoView {
                        name: spec_cluster_name(base, idx[0], type_),
                        type_: type_,
                        desc: match f.description {
                            Some(d) => d@,
                            None => f.name@,
                        },
                        offset: f.address_offset,
                    }
                } else {
                    RegisterInfoView {
                        name: spec_cluster_name(base, idx[i], type_),
                        type_: type_,
                        desc: spec_cluster_name(base, idx[i], type_),
                        offset: (f.address_offset + i * increment) as u32,
                    }
                },
        ),
        bitfields: spec_bitfields_of(f.fields, width),
    }
}

/// See [`spec_expand_core`]; the base name comes from the repetition
/// description, else from the register itself.
pub open spec fn spec_expand(f: svd::RegisterInfo, dim: svd::DimElement, width: u32) -> RegisterView {
    spec_expand_core(f, spec_indices(dim), dim.dim_increment, width, spec_base_name(f, dim))
}

/// The register properties a register declaration carries, array or not.
pub open spec fn spec_reg_info_of(r: svd::Register) -> svd::RegisterInfo {
    match r {
        svd::Register::Single(f) => f,
        svd::Register::Array(f, _) => f,
    }
}

/// The value of expanding the children of a cluster array: each child
/// register is expanded by the cluster's repetition, with the cluster's
/// name as the base name. A nested cluster aborts the run.
pub open spec fn spec_cluster_fold(
    children: Seq<svd::RegisterCluster>,
    dim: svd::DimElement,
    width: u32,
    base: Seq<char>,
) -> Result<Seq<RegisterView>, FatalErrorView>
    decreases children.len(),
{
    if children.len() == 0 {
        Ok(Seq::<RegisterView>::empty())
    } else {
        match children[0] {
            svd::RegisterCluster::Cluster(_) => Err(
                FatalErrorView::NestedCluster { cluster: base },
            ),
            svd::RegisterCluster::Register(r) => {
                let f = spec_reg_info_of(r);
                if spec_fields_fatal(f.fields) {
                    Err(FatalErrorView::FieldArray { register: f.name@ })
                } else if spec_indices(dim).len() == 0 {
                    Err(FatalErrorView::EmptyDimIndex { register: f.name@ })
                } else if spec_expand_overflow(f, dim) {
                    Err(FatalErrorView::OffsetOverflow { register: f.name@ })
                } else {
                    match spec_cluster_fold(children.skip(1), dim, width, base) {
                        Ok(rest) => Ok(
                            seq![
                                spec_expand_core(
                                    f,
                                    spec_indices(dim),
                                    dim.dim_increment,
                                    width,
                                    base,
                                ),
                            ] + rest,
                        ),
                        Err(e) => Err(e),
                    }
                }
            },
        }
    }
}

/// A register that declares no fields gets exactly one synthesized
/// bitfield: named `value`, spanning the full bus width at offset zero,
/// with the default read-write permission.
pub proof fn lemma_default_bitfield(f: svd::RegisterInfo, width: u32)
    requires
        f.fields is None,
    ensures
        spec_register_of_info(f, width).bitfields.len() == 1,
        spec_register_of_info(f, width).bitfields[0].offset == 0,
        spec_register_of_info(f, width).bitfields[0].bit_size == width,
        spec_register_of_info(f, width).bitfields[0].permissions
            == crate::mmio::permissions::Permissions::ReadWrite,
{
}

/// Concatenation with a shared prefix and suffix is injective in the
/// spliced middle part.
proof fn lemma_concat_middle_injective(a: Seq<char>, x: Seq<char>, y: Seq<char>, b: Seq<char>)
    requires
        a + x + b == a + y + b,
    ensures
        x == y,
{
    assert((a + x + b).len() == a.len() + x.len() + b.len());
    assert((a + y + b).len() == a.len() + y.len() + b.len());
    assert forall|t: int| 0 <= t < x.len() implies x[t] == y[t] by {
        assert((a + x + b)[a.len() + t] == x[t]);
        assert((a + y + b)[a.len() + t] == y[t]);
    }
    assert(x =~= y);
}

/// Distinct index labels yield distinct spliced names.
proof fn lemma_cluster_name_injective(base: Seq<char>, i1: Seq<char>, i2: Seq<char>, reg: Seq<char>)
    requires
        spec_cluster_name(base, i1, reg) == spec_cluster_name(base, i2, reg),
    ensures
        i1 == i2,
{
    let name = spec_replace(base, "%s"@, Seq::<char>::empty());
    let stripped = spec_replace(reg, name, Seq::<char>::empty());
    lemma_concat_middle_injective(name, i1, i2, stripped);
}

/// In an array expansion with pairwise distinct index labels, the
/// expanded names are pairwise distinct, and the offsets form an
/// arithmetic sequence whose common difference is the declared
/// increment.
pub proof fn lemma_expansion_shape(
    f: svd::RegisterInfo,
    idx: Seq<Seq<char>>,
    increment: u32,
    width: u32,
    base: Seq<char>,
)
    requires
        forall|i: int, j: int| 0 <= i < j < idx.len() ==> idx[i] != idx[j],
        idx.len() >= 1 ==> f.address_offset + (idx.len() - 1) * increment <= u32::MAX,
    ensures
        forall|i: int|
            0 <= i < idx.len() ==> spec_expand_core(f, idx, increment, width, base).info[i].offset
                == f.address_offset + i * increment,
        forall|i: int, j: int|
            0 <= i < j < idx.len() ==> spec_expand_core(f, idx, increment, width, base).info[i].name
                != spec_expand_core(f, idx, increment, width, base).info[j].name,
{
    let out = spec_expand_core(f, idx, increment, width, base);
    let n = idx.len() as int;
    assert forall|i: int| 0 <= i < n implies out.info[i].offset == f.address_offset + i * increment by {
        assert(0 <= i * increment <= (n - 1) * increment) by (nonlinear_arith)
            requires
                0 <= i <= n - 1,
                0 <= increment,
        ;
        if i == 0 {
            assert(i * increment == 0) by (nonlinear_arith)
                requires
                    i == 0,
            ;
        }
    }
    assert forall|i: int, j: int| 0 <= i < j < n implies out.info[i].name != out.info[j].name by {
        let type_ = spec_reg_type(f);
        assert(out.info[i].name == spec_cluster_name(base, idx[i], type_));
        assert(out.info[j].name == spec_cluster_name(base, idx[j], type_));
        if out.info[i].name == out.info[j].name {
            lemma_cluster_name_injective(base, idx[i], idx[j], type_);
        }
    }
}

/// Converts a declared field sequence; a field array is a fatal error
/// naming the register.
fn bitfields_of_list(fs: &Vec<svd::Field>, reg_name: &str) -> (r: Result<Vec<Bitfield>, FatalError>)
    ensures
        !spec_field_list_fatal(fs@) ==> (r matches Ok(v) && seq_view(v@)
            == spec_field_list_bitfields(fs@)),
        spec_field_list_fatal(fs@) ==> (r matches Err(e) && e@ == (FatalErrorView::FieldArray {
            register: reg_name@,
        })),
{
    let mut v: Vec<Bitfield> = Vec::new();
    let mut i: usize = 0;
    while i < fs.len()
        invariant
            i <= fs@.len(),
            v@.len() == i,
            forall|j: int|
                0 <= j < i ==> fs@[j] is Single && v@[j]@ == spec_bitfield_of_field(
                    fs@[j]->Single_0,
                ),
        decreases fs@.len() - i,
    {
        match &fs[i] {
            svd::Field::Single(info) => {
                v.push(Bitfield::from_field_info(info));
            },
            svd::Field::Array(_, _) => {
                proof {
                    assert(fs@[i as int] is Array);
                }
                return Err(FatalError::FieldArray { register: reg_name.to_owned() });
            },
        }
        i += 1;
    }
    proof {
        assert(seq_view(v@) =~= spec_field_list_bitfields(fs@));
    }
    Ok(v)
}

/// Converts a declared field list; a register without one gets the
/// synthetic full-width field.
fn bitfields_of(fields: &Option<Vec<svd::Field>>, width: u32, reg_name: &str) -> (r: Result<
    Vec<Bitfield>,
    FatalError,
>)
    ensures
        !spec_fields_fatal(*fields) ==> (r matches Ok(v) && seq_view(v@) == spec_bitfields_of(
            *fields,
            width,
        )),
        spec_fields_fatal(*fields) ==> (r matches Err(e) && e@ == (FatalErrorView::FieldArray {
            register: reg_name@,
        })),
{
    match fields {
        None => {
            let mut v: Vec<Bitfield> = Vec::new();
            v.push(Bitfield::default_for_width(width));
            proof {
                assert(seq_view(v@) =~= seq![spec_value_field(width)]);
            }
            Ok(v)
        },
        Some(fs) => bitfields_of_list(fs, reg_name),
    }
}

impl Register {
    /// Converts one plain register declaration.
    pub fn from_info(f: &svd::RegisterInfo, width: u32) -> (r: Result<Register, FatalError>)
        ensures
            !spec_fields_fatal(f.fields) ==> (r matches Ok(reg) && reg@ == spec_register_of_info(
                *f,
                width,
            )),
            spec_fields_fatal(f.fields) ==> (r matches Err(e) && e@ == (FatalErrorView::FieldArray {
                register: f.name@,
            })),
    {
        let bitfields = match bitfields_of(&f.fields, width, f.name.as_str()) {
            Ok(b) => b,
            Err(e) => {
                return Err(e);
            },
        };
        let desc = match &f.description {
            Some(d) => Some(d.clone()),
            None => None,
        };
        Ok(Self::new(f.name.clone(), f.address_offset, desc, bitfields))
    }

    /// Expands a register array into one register carrying an info record
    /// per element, with `base` as the naming base.
    fn expand_with_base(f: &svd::RegisterInfo, dim: &svd::DimElement, width: u32, base: &str) -> (r:
        Result<Register, FatalError>)
        ensures
            spec_fields_fatal(f.fields) ==> (r matches Err(e) && e@ == (FatalErrorView::FieldArray {
                register: f.name@,
            })),
            !spec_fields_fatal(f.fields) && spec_indices(*dim).len() == 0 ==> (r matches Err(e)
                && e@ == (FatalErrorView::EmptyDimIndex { register: f.name@ })),
            !spec_fields_fatal(f.fields) && spec_indices(*dim).len() > 0 && spec_expand_overflow(
                *f,
                *dim,
            ) ==> (r matches Err(e) && e@ == (FatalErrorView::OffsetOverflow {
                register: f.name@,
            })),
            !spec_fields_fatal(f.fields) && spec_indices(*dim).len() > 0 && !spec_expand_overflow(
                *f,
                *dim,
            ) ==> (r matches Ok(reg) && reg@ == spec_expand_core(
                *f,
                spec_indices(*dim),
                dim.dim_increment,
                width,
                base@,
            )),
    {
        let bitfields = match bitfields_of(&f.fields, width, f.name.as_str()) {
            Ok(b) => b,
            Err(e) => {
                return Err(e);
            },
        };
        let type_ = remove_all(f.name.as_str(), "%s");
        let indices: Vec<String> = match &dim.dim_index {
            Some(v) => {
                let c = v.clone();
                proof {
                    assert(seq_view(c@) =~= seq_view(v@));
                }
                c
            },
            None => {
                let mut out: Vec<String> = Vec::new();
                let mut k: u32 = 0;
                while k < dim.dim
                    invariant
                        k <= dim.dim,
                        out@.len() == k,
                        forall|j: int| 0 <= j < k ==> out@[j]@ == dec_str(j as nat),
                    decreases dim.dim - k,
                {
                    out.push(u32_to_dec(k));
                    k += 1;
                }
                proof {
                    assert(seq_view(out@) =~= Seq::new(dim.dim as nat, |i: int| dec_str(i as nat)));
                }
                out
            },
        };
        let ghost idx = spec_indices(*dim);
        proof {
            assert(seq_view(indices@) == idx);
        }
        if indices.len() == 0 {
            return Err(FatalError::EmptyDimIndex { register: f.name.clone() });
        }
        let ghost target = spec_expand_core(*f, idx, dim.dim_increment, width, base@);
        let mut info: Vec<RegisterInfo> = Vec::new();
        let first_name = device_cluster_name(base, indices[0].as_str(), type_.as_str());
        let first_desc = match &f.description {
            Some(d) => d.clone(),
            None => f.name.clone(),
        };
        info.push(
            RegisterInfo {
                name: first_name,
                type_: type_.clone(),
                desc: first_desc,
                offset: f.address_offset,
            },
        );
        proof {
            assert(seq_view(info@) =~= target.info.take(1));
        }
        let mut offset: u32 = f.address_offset;
        let mut k: usize = 1;
        while k < indices.len()
            invariant
                1 <= k <= indices.len(),
                indices@.len() == idx.len(),
                idx == spec_indices(*dim),
                seq_view(indices@) == idx,
                type_@ == spec_reg_type(*f),
                !spec_fields_fatal(f.fields),
                seq_view(bitfields@) == spec_bitfields_of(f.fields, width),
                target == spec_expand_core(*f, idx, dim.dim_increment, width, base@),
                offset as int == f.address_offset + (k - 1) * (dim.dim_increment as int),
                info@.len() == k,
                seq_view(info@) == target.info.take(k as int),
            decreases indices.len() - k,
        {
            let ghost d = dim.dim_increment as int;
            let next = match offset.checked_add(dim.dim_increment) {
                Some(n) => n,
                None => {
                    proof {
                        let ghost n = idx.len() as int;
                        assert(f.address_offset + (k - 1) * d + d == f.address_offset + k * d)
                            by (nonlinear_arith);
                        assert(k * d <= (n - 1) * d) by (nonlinear_arith)
                            requires
                                1 <= k,
                                k <= n - 1,
                                0 <= d,
                        ;
                        assert(spec_expand_overflow(*f, *dim));
                    }
                    return Err(FatalError::OffsetOverflow { register: f.name.clone() });
                },
            };
            offset = next;
            let nm = device_cluster_name(base, indices[k].as_str(), type_.as_str());
            let desc_k = nm.clone();
            info.push(RegisterInfo { name: nm, type_: type_.clone(), desc: desc_k, offset });
            proof {
                assert(f.address_offset + (k - 1) * d + d == f.address_offset + k * d)
                    by (nonlinear_arith);
                assert(seq_view(info@) =~= target.info.take(k + 1));
            }
            k += 1;
        }
        proof {
            assert(target.info.take(idx.len() as int) =~= target.info);
        }
        let reg = Register { info, bitfields };
        proof {
            assert(reg@.info == target.info);
            assert(reg@.bitfields == target.bitfields);
        }
        Ok(reg)
    }

    /// Converts a register declaration, expanding an array into one
    /// register with an info record per element.
    pub fn from_register(reg: &svd::Register, width: u32) -> (r: Result<Register, FatalError>)
        ensures
            (*reg) matches svd::Register::Single(f) ==> ({
                &&& !spec_fields_fatal(f.fields) ==> (r matches Ok(out) && out@
                    == spec_register_of_info(f, width))
                &&& spec_fields_fatal(f.fields) ==> (r matches Err(e) && e@
                    == (FatalErrorView::FieldArray { register: f.name@ }))
            }),
            (*reg) matches svd::Register::Array(f, dim) ==> ({
                &&& spec_fields_fatal(f.fields) ==> (r matches Err(e) && e@
                    == (FatalErrorView::FieldArray { register: f.name@ }))
                &&& !spec_fields_fatal(f.fields) && spec_indices(dim).len() == 0 ==> (r matches Err(
                    e,
                ) && e@ == (FatalErrorView::EmptyDimIndex { register: f.name@ }))
                &&& !spec_fields_fatal(f.fields) && spec_indices(dim).len() > 0
                    && spec_expand_overflow(f, dim) ==> (r matches Err(e) && e@
                    == (FatalErrorView::OffsetOverflow { register: f.name@ }))
                &&& !spec_fields_fatal(f.fields) && spec_indices(dim).len() > 0
                    && !spec_expand_overflow(f, dim) ==> (r matches Ok(out) && out@ == spec_expand(
                    f,
                    dim,
                    width,
                ))
            }),
    {
        match reg {
            svd::Register::Single(f) => Self::from_info(f, width),
            svd::Register::Array(f, dim) => {
                let base: &str = match &dim.dim_name {
                    Some(n) => n.as_str(),
                    None => f.name.as_str(),
                };
                Self::expand_with_base(f, dim, width, base)
            },
        }
    }

    /// Expands the register children of a cluster array; every child
    /// shares the cluster's repetition, with the cluster's name as the
    /// naming base. A nested cluster is fatal.
    pub fn from_cluster(info: &svd::ClusterInfo, dim: &svd::DimElement, width: u32) -> (r: Result<
        Vec<Register>,
        FatalError,
    >)
        ensures
            match spec_cluster_fold(info.children@, *dim, width, info.name@) {
                Ok(regs) => r matches Ok(v) && seq_view(v@) == regs,
                Err(e) => r matches Err(err) && err@ == e,
            },
    {
        let mut out: Vec<Register> = Vec::new();
        let mut i: usize = 0;
        let ghost children = info.children@;
        let ghost full = spec_cluster_fold(children, *dim, width, info.name@);
        proof {
            assert(children.skip(0) =~= children);
        }
        while i < info.children.len()
            invariant
                i <= children.len(),
                children == info.children@,
                full == spec_cluster_fold(children, *dim, width, info.name@),
                full == (match spec_cluster_fold(children.skip(i as int), *dim, width, info.name@) {
                    Ok(rest) => Ok::<Seq<RegisterView>, FatalErrorView>(seq_view(out@) + rest),
                    Err(e) => Err::<Seq<RegisterView>, FatalErrorView>(e),
                }),
            decreases children.len() - i,
        {
            let ghost rest = children.skip(i as int);
            proof {
                assert(rest[0] == children[i as int]);
                assert(rest.skip(1) =~= children.skip(i + 1));
            }
            match &info.children[i] {
                svd::RegisterCluster::Cluster(_) => {
                    return Err(FatalError::NestedCluster { cluster: info.name.clone() });
                },
                svd::RegisterCluster::Register(r) => {
                    let f: &svd::RegisterInfo = match r {
                        svd::Register::Single(f) => f,
                        svd::Register::Array(f, _) => f,
                    };
                    match Self::expand_with_base(f, dim, width, info.name.as_str()) {
                        Ok(reg) => {
                            let ghost prev = seq_view(out@);
                            out.push(reg);
                            proof {
                                let tail = spec_cluster_fold(
                                    children.skip(i + 1),
                                    *dim,
                                    width,
                                    info.name@,
                                );
                                if tail is Ok {
                                    let after = tail->Ok_0;
                                    assert(seq_view(out@) + after =~= prev + (seq![reg@] + after));
                                }
                            }
                        },
                        Err(e) => {
                            return Err(e);
                        },
                    }
                },
            }
            i += 1;
        }
        proof {
            assert(children.skip(children.len() as int) =~= Seq::<svd::RegisterCluster>::empty());
            if full is Ok {
                assert(seq_view(out@) + Seq::<RegisterView>::empty() =~= seq_view(out@));
            }
        }
        Ok(out)
    }
}

} // verus!
