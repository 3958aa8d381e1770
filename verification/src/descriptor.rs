//! The descriptor builder: from the records of the entity model to the four
//! kinds of descriptor that the table carries.

use crate::model::{views, Delivery, Instance, InstanceView, Modulation, Service, ServiceView};
use vstd::prelude::*;

verus! {

/// The number of Hz in one MHz.
pub const HZ_PER_MHZ: u64 = 1_000_000;

/// The flag of a logical channel that receivers show.
pub const VISIBLE: u8 = 1;

/// One descriptor of the table or of one of its items.
#[derive(Debug, Clone, PartialEq, Eq)]
pub enum Descriptor {
    /// The name of the network, with the character encoding it is sent in.
    NetworkName { name: String, codepage: u8 },
    /// The cable delivery parameters of a multiplex; the frequency is in Hz.
    CableDelivery { frequency: u64, fec_outer: u8, modulation: Modulation, symbol_rate: u32, fec: u8 },
    /// The services of a multiplex: program number and service type.
    ServiceList { services: Vec<(u16, u8)> },
    /// The logical channels of a multiplex: program number, visible flag and
    /// channel number.
    LogicalChannels { channels: Vec<(u16, u8, u16)> },
}

/// The mathematical value of a [`Descriptor`].
pub enum DescriptorView {
    NetworkName { name: Seq<char>, codepage: u8 },
    CableDelivery { frequency: u64, fec_outer: u8, modulation: Modulation, symbol_rate: u32, fec: u8 },
    ServiceList { services: Seq<(u16, u8)> },
    LogicalChannels { channels: Seq<(u16, u8, u16)> },
}

impl View for Descriptor {
    type V = DescriptorView;

    open spec fn view(&self) -> DescriptorView {
        match self {
            Descriptor::NetworkName { name, codepage } => DescriptorView::NetworkName {
                name: name@,
                codepage: *codepage,
            },
            Descriptor::CableDelivery { frequency, fec_outer, modulation, symbol_rate, fec } => {
                DescriptorView::CableDelivery {
                    frequency: *frequency,
                    fec_outer: *fec_outer,
                    modulation: *modulation,
                    symbol_rate: *symbol_rate,
                    fec: *fec,
                }
            },
            Descriptor::ServiceList { services } => DescriptorView::ServiceList {
                services: services@,
            },
            Descriptor::LogicalChannels { channels } => DescriptorView::LogicalChannels {
                channels: channels@,
            },
        }
    }
}

/// Whether a builder built the descriptor that `expected` names, or none
/// where it names none.
pub open spec fn built(descriptor: Option<Descriptor>, expected: Option<DescriptorView>) -> bool {
    match descriptor {
        Some(descriptor) => expected == Some(descriptor@),
        None => expected is None,
    }
}

/// The descriptor that is attached, if any, as a sequence.
pub open spec fn attached(descriptor: Option<DescriptorView>) -> Seq<DescriptorView> {
    match descriptor {
        Some(descriptor) => seq![descriptor],
        None => Seq::empty(),
    }
}

/// The network-name descriptor of a network: its name under its codepage.
/// A network without a name has none.
pub open spec fn network_name_descriptor(instance: InstanceView) -> Option<DescriptorView> {
    if instance.network.len() == 0 {
        None
    } else {
        Some(DescriptorView::NetworkName { name: instance.network, codepage: instance.codepage })
    }
}

/// A frequency of `mhz` MHz, in Hz.
pub open spec fn frequency_hz(mhz: u32) -> u64 {
    (mhz * 1_000_000) as u64
}

/// The delivery descriptor of a delivery record.
pub open spec fn delivery_descriptor(delivery: Delivery) -> DescriptorView {
    DescriptorView::CableDelivery {
        frequency: frequency_hz(delivery.frequency),
        fec_outer: delivery.fec_outer,
        modulation: delivery.modulation,
        symbol_rate: delivery.symbol_rate,
        fec: delivery.fec,
    }
}

/// One pair of program number and service type for each service, in order.
pub open spec fn service_pairs(services: Seq<ServiceView>) -> Seq<(u16, u8)> {
    Seq::new(services.len(), |i: int| (services[i].pnr, services[i].service_type))
}

/// One triple of program number, visible flag and channel number for each
/// service, in order.
pub open spec fn channel_triples(services: Seq<ServiceView>) -> Seq<(u16, u8, u16)> {
    Seq::new(services.len(), |i: int| (services[i].pnr, 1u8, services[i].lcn))
}

/// The service-list descriptor of the services of a multiplex. Without a
/// service there is none: no empty list is sent.
pub open spec fn service_list_descriptor(services: Seq<ServiceView>) -> Option<DescriptorView> {
    if services.len() == 0 {
        None
    } else {
        Some(DescriptorView::ServiceList { services: service_pairs(services) })
    }
}

/// The logical-channel descriptor of the services of a multiplex. Without a
/// service there is none.
pub open spec fn logical_channel_descriptor(services: Seq<ServiceView>) -> Option<
    DescriptorView,
> {
    if services.len() == 0 {
        None
    } else {
        Some(DescriptorView::LogicalChannels { channels: channel_triples(services) })
    }
}

/// Where a multiplex carries a service, its service list holds one pair of
/// program number and service type for each service, in the order of the
/// services, and its logical channels hold one triple of program number,
/// visible flag and channel number for each service, in the same order.
pub proof fn lemma_one_entry_per_service(services: Seq<ServiceView>)
    requires
        services.len() > 0,
    ensures
        service_list_descriptor(services) matches Some(DescriptorView::ServiceList { services: pairs })
            && pairs.len() == services.len() && forall|i: int|
            0 <= i < services.len() ==> pairs[i] == (services[i].pnr, services[i].service_type),
        logical_channel_descriptor(services) matches Some(
            DescriptorView::LogicalChannels { channels },
        ) && channels.len() == services.len() && forall|i: int|
            0 <= i < services.len() ==> channels[i] == (services[i].pnr, 1u8, services[i].lcn),
{
}

/// A multiplex without services has neither a service list nor logical
/// channels.
pub proof fn lemma_no_entry_without_service(services: Seq<ServiceView>)
    requires
        services.len() == 0,
    ensures
        service_list_descriptor(services) is None,
        logical_channel_descriptor(services) is None,
{
}

/// The frequency of a delivery descriptor is the frequency of the delivery
/// record times one million, exactly: no frequency in MHz is too large.
pub proof fn lemma_frequency_exact(delivery: Delivery)
    ensures
        delivery_descriptor(delivery) matches DescriptorView::CableDelivery { frequency, .. }
            && frequency == delivery.frequency * 1_000_000,
{
}

/// Builds the network-name descriptor of a network.
pub fn build_network_name(instance: &Instance) -> (descriptor: Option<Descriptor>)
    ensures
        built(descriptor, network_name_descriptor(instance@)),
{
    if instance.network.as_str().is_empty() {
        None
    } else {
        Some(
            Descriptor::NetworkName {
                name: instance.network.clone(),
                codepage: instance.codepage,
            },
        )
    }
}

/// Builds the delivery descriptor of a delivery record: the frequency goes
/// from MHz to Hz, exactly.
pub fn build_delivery(delivery: &Delivery) -> (descriptor: Descriptor)
    ensures
        descriptor@ == delivery_descriptor(*delivery),
{
    Descriptor::CableDelivery {
        frequency: (delivery.frequency as u64) * HZ_PER_MHZ,
        fec_outer: delivery.fec_outer,
        modulation: delivery.modulation,
        symbol_rate: delivery.symbol_rate,
        fec: delivery.fec,
    }
}

/// Builds the service-list descriptor of the services of a multiplex.
pub fn build_service_list(services: &Vec<Service>) -> (descriptor: Option<Descriptor>)
    ensures
        built(descriptor, service_list_descriptor(views(services@))),
{
    if services.len() == 0 {
        return None;
    }
    let mut pairs: Vec<(u16, u8)> = Vec::new();
    let mut i: usize = 0;
    while i < services.len()
        invariant
            i <= services.len(),
            pairs@.len() == i,
            forall|k: int| 0 <= k < i ==> pairs@[k] == (services@[k].pnr, services@[k].service_type),
        decreases services.len() - i,
    {
        pairs.push((services[i].pnr, services[i].service_type));
        i += 1;
    }
    assert(pairs@ =~= service_pairs(views(services@)));
    Some(Descriptor::ServiceList { services: pairs })
}

/// Builds the logical-channel descriptor of the services of a multiplex.
/// Every channel is visible.
pub fn build_logical_channels(services: &Vec<Service>) -> (descriptor: Option<Descriptor>)
    ensures
        built(descriptor, logical_channel_descriptor(views(services@))),
{
    if services.len() == 0 {
        return None;
    }
    let mut channels: Vec<(u16, u8, u16)> = Vec::new();
    let mut i: usize = 0;
    while i < services.len()
        invariant
            i <= services.len(),
            channels@.len() == i,
            forall|k: int|
                0 <= k < i ==> channels@[k] == (services@[k].pnr, 1u8, services@[k].lcn),
        decreases services.len() - i,
    {
        channels.push((services[i].pnr, VISIBLE, services[i].lcn));
        i += 1;
    }
    assert(channels@ =~= channel_triples(views(services@)));
    Some(Descriptor::LogicalChannels { channels })
}

} // verus!
