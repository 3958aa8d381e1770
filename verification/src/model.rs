//! The entity model: a network, its multiplexes, their delivery parameters
//! and the services they carry. Plain state, built once and then only read.

use crate::output::{Output, OutputView};
use crate::text::same_text;
use vstd::prelude::*;

verus! {

/// The views of the elements of `items`, in order.
pub open spec fn views<T: View>(items: Seq<T>) -> Seq<T::V> {
    Seq::new(items.len(), |i: int| items[i]@)
}

/// Appending an element appends its view.
pub proof fn lemma_views_push<T: View>(items: Seq<T>, item: T)
    ensures
        views(items.push(item)) == views(items).push(item@),
{
    assert(views(items.push(item)) =~= views(items).push(item@));
}

/// The modulation scheme of a cable multiplex.
#[derive(Debug, Clone, Copy, PartialEq, Eq, Structural)]
pub enum Modulation {
    /// No scheme is given, or its name was not recognised.
    NotDefined,
    Qam16,
    Qam32,
    Qam64,
    Qam128,
    Qam256,
}

impl Modulation {
    /// The scheme that `name` stands for. A name that is none of `QAM16`,
    /// `QAM32`, `QAM64`, `QAM128`, `QAM256` stands for no scheme; it is no error.
    pub open spec fn named(name: Seq<char>) -> Modulation {
        if name == "QAM16"@ {
            Modulation::Qam16
        } else if name == "QAM32"@ {
            Modulation::Qam32
        } else if name == "QAM64"@ {
            Modulation::Qam64
        } else if name == "QAM128"@ {
            Modulation::Qam128
        } else if name == "QAM256"@ {
            Modulation::Qam256
        } else {
            Modulation::NotDefined
        }
    }

    /// Reads the name of a modulation scheme.
    pub fn from_name(name: &str) -> (modulation: Modulation)
        ensures
            modulation == Modulation::named(name@),
    {
        if same_text(name, "QAM16") {
            Modulation::Qam16
        } else if same_text(name, "QAM32") {
            Modulation::Qam32
        } else if same_text(name, "QAM64") {
            Modulation::Qam64
        } else if same_text(name, "QAM128") {
            Modulation::Qam128
        } else if same_text(name, "QAM256") {
            Modulation::Qam256
        } else {
            Modulation::NotDefined
        }
    }

    /// The code of the scheme in a cable delivery descriptor.
    pub open spec fn code_of(self) -> u8 {
        match self {
            Modulation::NotDefined => 0u8,
            Modulation::Qam16 => 1u8,
            Modulation::Qam32 => 2u8,
            Modulation::Qam64 => 3u8,
            Modulation::Qam128 => 4u8,
            Modulation::Qam256 => 5u8,
        }
    }

    /// The code of the scheme in a cable delivery descriptor.
    pub fn code(self) -> (code: u8)
        ensures
            code == self.code_of(),
    {
        match self {
            Modulation::NotDefined => 0,
            Modulation::Qam16 => 1,
            Modulation::Qam32 => 2,
            Modulation::Qam64 => 3,
            Modulation::Qam128 => 4,
            Modulation::Qam256 => 5,
        }
    }
}

/// The physical-layer parameters of one multiplex.
#[derive(Debug, Clone, Copy, PartialEq, Eq, Structural)]
pub struct Delivery {
    /// Frequency in MHz.
    pub frequency: u32,
    pub symbol_rate: u32,
    /// Inner forward-error-correction scheme, 0 to 15.
    pub fec: u8,
    pub modulation: Modulation,
    /// Outer forward-error-correction scheme: reserved, zero.
    pub fec_outer: u8,
}

impl Delivery {
    /// A delivery record with nothing set.
    pub open spec fn initial() -> Delivery {
        Delivery {
            frequency: 0,
            symbol_rate: 0,
            fec: 0,
            modulation: Modulation::NotDefined,
            fec_outer: 0,
        }
    }

    /// Whether the codes are in range.
    pub open spec fn valid(self) -> bool {
        self.fec <= 15 && self.fec_outer == 0
    }

    /// A delivery record with nothing set.
    pub fn new() -> (delivery: Delivery)
        ensures
            delivery == Delivery::initial(),
    {
        Delivery {
            frequency: 0,
            symbol_rate: 0,
            fec: 0,
            modulation: Modulation::NotDefined,
            fec_outer: 0,
        }
    }
}

impl Default for Delivery {
    fn default() -> (delivery: Delivery)
        ensures
            delivery == Delivery::initial(),
    {
        Delivery::new()
    }
}

/// One program carried by a multiplex.
#[derive(Debug, Clone, PartialEq, Eq)]
pub struct Service {
    /// Program number, 1 to 65535.
    pub pnr: u16,
    /// Service type; 1 is digital television.
    pub service_type: u8,
    /// Logical channel number, 0 to 1000; 0 is unset.
    pub lcn: u16,
    /// Display name. No descriptor carries it.
    pub name: String,
}

/// The mathematical value of a [`Service`].
pub struct ServiceView {
    pub pnr: u16,
    pub service_type: u8,
    pub lcn: u16,
    pub name: Seq<char>,
}

impl View for Service {
    type V = ServiceView;

    open spec fn view(&self) -> ServiceView {
        ServiceView {
            pnr: self.pnr,
            service_type: self.service_type,
            lcn: self.lcn,
            name: self.name@,
        }
    }
}

impl ServiceView {
    /// A service as it is before any of its keys is read: a digital
    /// television service without number, channel or name.
    pub open spec fn initial() -> ServiceView {
        ServiceView { pnr: 0, service_type: 1, lcn: 0, name: Seq::empty() }
    }

    /// Whether the numbers are in range.
    pub open spec fn valid(self) -> bool {
        self.pnr >= 1 && self.lcn <= 1000
    }
}

impl Service {
    /// A service with the defaults applied: type 1, channel unset.
    pub fn new() -> (service: Service)
        ensures
            service@ == ServiceView::initial(),
    {
        Service { pnr: 0, service_type: 1, lcn: 0, name: String::new() }
    }

    /// Whether the numbers are in range.
    pub fn is_valid(&self) -> (valid: bool)
        ensures
            valid == self@.valid(),
    {
        self.pnr >= 1 && self.lcn <= 1000
    }
}

impl Default for Service {
    fn default() -> (service: Service)
        ensures
            service@ == ServiceView::initial(),
    {
        Service::new()
    }
}

/// One physical transport stream of the network.
///
/// The transport-stream identifier is meant to be the only one of its value
/// in the network. The model does not see to that: two multiplexes of one
/// identifier are kept, and both reach the table.
#[derive(Debug, Clone, PartialEq, Eq)]
pub struct Multiplex {
    /// Transport-stream identifier, 1 to 65535.
    pub tsid: u16,
    /// Original-network identifier, 1 to 65535.
    pub onid: u16,
    /// A multiplex that is not enabled stays in the model and out of the table.
    pub enable: bool,
    pub delivery: Delivery,
    pub service_list: Vec<Service>,
}

/// The mathematical value of a [`Multiplex`].
pub struct MultiplexView {
    pub tsid: u16,
    pub onid: u16,
    pub enable: bool,
    pub delivery: Delivery,
    pub services: Seq<ServiceView>,
}

impl View for Multiplex {
    type V = MultiplexView;

    open spec fn view(&self) -> MultiplexView {
        MultiplexView {
            tsid: self.tsid,
            onid: self.onid,
            enable: self.enable,
            delivery: self.delivery,
            services: views(self.service_list@),
        }
    }
}

impl MultiplexView {
    /// A multiplex as it is before any of its keys is read: enabled, under
    /// the network's original-network identifier, without services.
    pub open spec fn initial(onid: u16) -> MultiplexView {
        MultiplexView {
            tsid: 0,
            onid,
            enable: true,
            delivery: Delivery::initial(),
            services: Seq::empty(),
        }
    }

    /// Whether the identifiers, the delivery record and every service are in range.
    pub open spec fn valid(self) -> bool {
        &&& self.tsid >= 1
        &&& self.onid >= 1
        &&& self.delivery.valid()
        &&& forall|i: int| 0 <= i < self.services.len() ==> (#[trigger] self.services[i]).valid()
    }
}

impl Multiplex {
    /// An enabled multiplex under the original-network identifier `onid`,
    /// without services.
    pub fn new(onid: u16) -> (multiplex: Multiplex)
        ensures
            multiplex@ == MultiplexView::initial(onid),
    {
        let multiplex = Multiplex {
            tsid: 0,
            onid,
            enable: true,
            delivery: Delivery::new(),
            service_list: Vec::new(),
        };
        assert(multiplex@.services =~= Seq::empty());
        multiplex
    }

    /// Whether the identifiers, the delivery record and every service are in range.
    pub fn is_valid(&self) -> (valid: bool)
        ensures
            valid == self@.valid(),
    {
        if self.tsid < 1 || self.onid < 1 || self.delivery.fec > 15 || self.delivery.fec_outer
            != 0 {
            return false;
        }
        let mut i: usize = 0;
        while i < self.service_list.len()
            invariant
                i <= self.service_list.len(),
                forall|k: int| 0 <= k < i ==> (#[trigger] self@.services[k]).valid(),
            decreases self.service_list.len() - i,
        {
            if !self.service_list[i].is_valid() {
                assert(!self@.services[i as int].valid());
                return false;
            }
            i += 1;
        }
        true
    }
}

impl Default for Multiplex {
    fn default() -> (multiplex: Multiplex)
        ensures
            multiplex@ == MultiplexView::initial(1),
    {
        Multiplex::new(1)
    }
}

/// Whether `codepage` names a character encoding for name fields: 0 to 11,
/// 13 to 15, or 21.
pub open spec fn codepage_known(codepage: u8) -> bool {
    codepage <= 11 || (13 <= codepage <= 15) || codepage == 21
}

/// The network: the root of the model.
#[derive(Debug, Clone, PartialEq, Eq)]
pub struct Instance {
    /// Table version, 0 to 31.
    pub nit_version: u8,
    pub network_id: u16,
    /// Network name; empty where the network has none.
    pub network: String,
    /// The character encoding of name fields.
    pub codepage: u8,
    /// The original-network identifier of a multiplex that names none, 1 to 65535.
    pub onid: u16,
    pub output: Output,
    pub multiplex_list: Vec<Multiplex>,
}

/// The mathematical value of an [`Instance`].
pub struct InstanceView {
    pub nit_version: u8,
    pub network_id: u16,
    pub network: Seq<char>,
    pub codepage: u8,
    pub onid: u16,
    pub output: OutputView,
    pub multiplexes: Seq<MultiplexView>,
}

impl View for Instance {
    type V = InstanceView;

    open spec fn view(&self) -> InstanceView {
        InstanceView {
            nit_version: self.nit_version,
            network_id: self.network_id,
            network: self.network@,
            codepage: self.codepage,
            onid: self.onid,
            output: self.output@,
            multiplexes: views(self.multiplex_list@),
        }
    }
}

impl InstanceView {
    /// A network with the defaults applied: version 0, network 1,
    /// original network 1, Latin names, no sink, no multiplex.
    pub open spec fn initial() -> InstanceView {
        InstanceView {
            nit_version: 0,
            network_id: 1,
            network: Seq::empty(),
            codepage: 0,
            onid: 1,
            output: OutputView::Unopened,
            multiplexes: Seq::empty(),
        }
    }

    /// Whether no two multiplexes share a transport-stream identifier.
    /// Nothing in the model sees to it: it is for whoever fills the model.
    pub open spec fn tsids_unique(self) -> bool {
        forall|i: int, j: int|
            0 <= i < j < self.multiplexes.len() ==> self.multiplexes[i].tsid
                != self.multiplexes[j].tsid
    }

    /// Whether every number of the model is in its range.
    pub open spec fn valid(self) -> bool {
        &&& self.nit_version <= 31
        &&& self.onid >= 1
        &&& codepage_known(self.codepage)
        &&& forall|i: int|
            0 <= i < self.multiplexes.len() ==> (#[trigger] self.multiplexes[i]).valid()
    }
}

impl Instance {
    /// A network with the defaults applied.
    pub fn new() -> (instance: Instance)
        ensures
            instance@ == InstanceView::initial(),
    {
        let instance = Instance {
            nit_version: 0,
            network_id: 1,
            network: String::new(),
            codepage: 0,
            onid: 1,
            output: Output::Unopened,
            multiplex_list: Vec::new(),
        };
        assert(instance@.multiplexes =~= Seq::empty());
        instance
    }

    /// Whether every number of the model is in its range.
    pub fn is_valid(&self) -> (valid: bool)
        ensures
            valid == self@.valid(),
    {
        let codepage = self.codepage;
        let known = codepage <= 11 || (13 <= codepage && codepage <= 15) || codepage == 21;
        if self.nit_version > 31 || self.onid < 1 || !known {
            return false;
        }
        let mut i: usize = 0;
        while i < self.multiplex_list.len()
            invariant
                i <= self.multiplex_list.len(),
                forall|k: int| 0 <= k < i ==> (#[trigger] self@.multiplexes[k]).valid(),
            decreases self.multiplex_list.len() - i,
        {
            if !self.multiplex_list[i].is_valid() {
                assert(!self@.multiplexes[i as int].valid());
                return false;
            }
            i += 1;
        }
        true
    }
}

impl Instance {
    /// Whether no two multiplexes share a transport-stream identifier.
    pub fn has_unique_tsids(&self) -> (unique: bool)
        ensures
            unique == self@.tsids_unique(),
    {
        let n = self.multiplex_list.len();
        let mut j: usize = 0;
        while j < n
            invariant
                n == self.multiplex_list.len(),
                j <= n,
                forall|a: int, b: int|
                    0 <= a < b < j ==> self@.multiplexes[a].tsid != self@.multiplexes[b].tsid,
            decreases n - j,
        {
            let mut i: usize = 0;
            while i < j
                invariant
                    n == self.multiplex_list.len(),
                    i <= j < n,
                    forall|a: int|
                        0 <= a < i ==> self@.multiplexes[a].tsid != self@.multiplexes[j as int].tsid,
                decreases j - i,
            {
                if self.multiplex_list[i].tsid == self.multiplex_list[j].tsid {
                    assert(self@.multiplexes[i as int].tsid == self@.multiplexes[j as int].tsid);
                    return false;
                }
                i += 1;
            }
            j += 1;
        }
        true
    }
}

impl Default for Instance {
    fn default() -> (instance: Instance)
        ensures
            instance@ == InstanceView::initial(),
    {
        Instance::new()
    }
}

} // verus!
