//! The interrupt entity of the intermediate representation.

use crate::seq_view;
use crate::svd;
use vstd::prelude::*;

verus! {

/// One interrupt line of the platform, namespaced by its device.
#[derive(Debug, Clone)]
pub struct Interrupt {
    /// `<device>_<interrupt>`.
    pub name: String,
    /// Human-readable description; defaults to the source interrupt name.
    pub description: String,
    /// Interrupt number.
    pub value: u32,
}

/// The mathematical value of an [`Interrupt`].
pub ghost struct InterruptView {
    pub name: Seq<char>,
    pub description: Seq<char>,
    pub value: u32,
}

impl View for Interrupt {
    type V = InterruptView;

    open spec fn view(&self) -> InterruptView {
        InterruptView { name: self.name@, description: self.description@, value: self.value }
    }
}

/// The interrupt a source interrupt of the named device converts to.
pub open spec fn spec_interrupt(i: svd::Interrupt, device: Seq<char>) -> InterruptView {
    InterruptView {
        name: device + "_"@ + i.name@,
        description: match i.description {
            Some(d) => d@,
            None => i.name@,
        },
        value: i.value,
    }
}

impl Interrupt {
    /// Converts a source interrupt, namespacing its name by the owning
    /// device.
    pub fn from_source(i: &svd::Interrupt, device: &str) -> (r: Self)
        ensures
            r@ == spec_interrupt(*i, device@),
    {
        let description = match &i.description {
            Some(d) => d.clone(),
            None => i.name.clone(),
        };
        Self {
            name: String::from_str(device).concat("_").concat(i.name.as_str()),
            description,
            value: i.value,
        }
    }
}

/// The converted interrupts of one device, in declaration order.
pub(crate) fn converted_interrupts(src: &Vec<svd::Interrupt>, device: &str) -> (r: Vec<Interrupt>)
    ensures
        seq_view(r@) == Seq::new(src@.len(), |t: int| spec_interrupt(src@[t], device@)),
{
    let mut out: Vec<Interrupt> = Vec::new();
    let mut j: usize = 0;
    while j < src.len()
        invariant
            j <= src@.len(),
            out@.len() == j,
            forall|t: int| 0 <= t < j ==> out@[t]@ == spec_interrupt(src@[t], device@),
        decreases src@.len() - j,
    {
        out.push(Interrupt::from_source(&src[j], device));
        j += 1;
    }
    proof {
        assert(seq_view(out@) =~= Seq::new(src@.len(), |t: int| spec_interrupt(src@[t], device@)));
    }
    out
}

} // verus!
