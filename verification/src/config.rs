//! The configuration loader: from the sections of a configuration source to
//! the entity model.
//!
//! A source is a list of named sections, each a list of keys with their
//! values, in the order in which they were written. The section without a name
//! describes the network. Each `multiplex` section opens a multiplex; the
//! `dvb-c` and `service` sections that follow it belong to it. Keys that a
//! section does not know are passed over.
//!
//! Every section is held to the ranges of the model when its keys have been
//! read: a multiplex needs its transport-stream identifier, a service its
//! program number, and no number outside its range enters the model.

use crate::error::{Error, ErrorView};
use crate::model::{
    codepage_known, lemma_views_push, views, Delivery, Instance, InstanceView, Modulation,
    Multiplex, MultiplexView, Service, ServiceView,
};
use crate::output::{opened, Output, OutputView};
use crate::text::{number_u16, number_u32, number_u8, parse_u16, parse_u32, parse_u8, same_text};
use vstd::prelude::*;
use vstd::string::StringExecFns;

verus! {

/// One section of a configuration source.
#[derive(Debug, Clone, PartialEq, Eq)]
pub struct Section {
    pub name: String,
    /// The keys of the section with their values, in the order of the source.
    pub entries: Vec<(String, String)>,
}

/// Keys with their values.
pub type Entries = Seq<(Seq<char>, Seq<char>)>;

/// The mathematical value of a [`Section`].
pub struct SectionView {
    pub name: Seq<char>,
    pub entries: Entries,
}

/// The keys and values of `entries` as texts.
pub open spec fn entry_views(entries: Seq<(String, String)>) -> Entries {
    Seq::new(entries.len(), |i: int| (entries[i].0@, entries[i].1@))
}

impl View for Section {
    type V = SectionView;

    open spec fn view(&self) -> SectionView {
        SectionView { name: self.name@, entries: entry_views(self.entries@) }
    }
}

/// What reading one key makes of a state: the next state, or a fault.
pub type Reader<T> = spec_fn(T, Seq<char>, Seq<char>) -> Result<T, ErrorView>;

/// Reads `entries` one after the other, from the state `start`, up to the
/// first fault: the state that was reached, and the fault if there was one.
pub open spec fn read_entries<T>(start: T, entries: Entries, read: Reader<T>) -> (
    T,
    Option<ErrorView>,
)
    decreases entries.len(),
{
    if entries.len() == 0 {
        (start, None)
    } else {
        let (state, fault) = read_entries(start, entries.drop_last(), read);
        if fault is Some {
            (state, fault)
        } else {
            match read(state, entries.last().0, entries.last().1) {
                Ok(next) => (next, None),
                Err(fault) => (state, Some(fault)),
            }
        }
    }
}

/// What the entry at index `n` adds to the reading of the entries before it.
pub proof fn lemma_read_next<T>(start: T, entries: Entries, read: Reader<T>, n: int)
    requires
        0 <= n < entries.len(),
    ensures
        read_entries(start, entries.take(n + 1), read) == ({
            let (state, fault) = read_entries(start, entries.take(n), read);
            if fault is Some {
                (state, fault)
            } else {
                match read(state, entries[n].0, entries[n].1) {
                    Ok(next) => (next, None::<ErrorView>),
                    Err(fault) => (state, Some(fault)),
                }
            }
        }),
{
    assert(entries.take(n + 1).drop_last() == entries.take(n));
}

/// Nothing is read after a fault.
pub proof fn lemma_fault_ends_reading<T>(start: T, entries: Entries, read: Reader<T>, n: int)
    requires
        0 <= n <= entries.len(),
        read_entries(start, entries.take(n), read).1 is Some,
    ensures
        read_entries(start, entries, read) == read_entries(start, entries.take(n), read),
    decreases entries.len() - n,
{
    if n < entries.len() {
        lemma_read_next(start, entries, read, n);
        lemma_fault_ends_reading(start, entries, read, n + 1);
    } else {
        assert(entries.take(n) == entries);
    }
}

/// What a key of the section without a name makes of the network.
pub open spec fn read_base_key(instance: InstanceView, key: Seq<char>, value: Seq<char>) -> Result<
    InstanceView,
    ErrorView,
> {
    if key == "output"@ {
        match opened(value) {
            Ok(output) => Ok(InstanceView { output, ..instance }),
            Err(fault) => Err(fault),
        }
    } else if key == "nit_version"@ {
        match number_u8(value) {
            Ok(nit_version) => Ok(InstanceView { nit_version, ..instance }),
            Err(kind) => Err(ErrorView::ParseInt(kind)),
        }
    } else if key == "network_id"@ {
        match number_u16(value) {
            Ok(network_id) => Ok(InstanceView { network_id, ..instance }),
            Err(kind) => Err(ErrorView::ParseInt(kind)),
        }
    } else if key == "network"@ {
        Ok(InstanceView { network: instance.network + value, ..instance })
    } else if key == "codepage"@ {
        match number_u8(value) {
            Ok(codepage) => Ok(InstanceView { codepage, ..instance }),
            Err(kind) => Err(ErrorView::ParseInt(kind)),
        }
    } else if key == "onid"@ {
        match number_u16(value) {
            Ok(onid) => Ok(InstanceView { onid, ..instance }),
            Err(kind) => Err(ErrorView::ParseInt(kind)),
        }
    } else {
        Ok(instance)
    }
}

/// What a key of a `multiplex` section makes of the multiplex. The multiplex
/// is enabled where `enable` is the word `true`, and not where it is anything
/// else.
pub open spec fn read_multiplex_key(multiplex: MultiplexView, key: Seq<char>, value: Seq<char>)
    -> Result<MultiplexView, ErrorView> {
    if key == "tsid"@ {
        match number_u16(value) {
            Ok(tsid) => Ok(MultiplexView { tsid, ..multiplex }),
            Err(kind) => Err(ErrorView::ParseInt(kind)),
        }
    } else if key == "onid"@ {
        match number_u16(value) {
            Ok(onid) => Ok(MultiplexView { onid, ..multiplex }),
            Err(kind) => Err(ErrorView::ParseInt(kind)),
        }
    } else if key == "enable"@ {
        Ok(MultiplexView { enable: value == "true"@, ..multiplex })
    } else {
        Ok(multiplex)
    }
}

/// What a key of a `dvb-c` section makes of the delivery record. A
/// modulation that is not recognised is not defined; it is no fault.
pub open spec fn read_delivery_key(delivery: Delivery, key: Seq<char>, value: Seq<char>) -> Result<
    Delivery,
    ErrorView,
> {
    if key == "frequency"@ {
        match number_u32(value) {
            Ok(frequency) => Ok(Delivery { frequency, ..delivery }),
            Err(kind) => Err(ErrorView::ParseInt(kind)),
        }
    } else if key == "symbolrate"@ {
        match number_u32(value) {
            Ok(symbol_rate) => Ok(Delivery { symbol_rate, ..delivery }),
            Err(kind) => Err(ErrorView::ParseInt(kind)),
        }
    } else if key == "fec"@ {
        match number_u8(value) {
            Ok(fec) => Ok(Delivery { fec, ..delivery }),
            Err(kind) => Err(ErrorView::ParseInt(kind)),
        }
    } else if key == "modulation"@ {
        Ok(Delivery { modulation: Modulation::named(value), ..delivery })
    } else {
        Ok(delivery)
    }
}

/// What a key of a `service` section makes of the service.
pub open spec fn read_service_key(service: ServiceView, key: Seq<char>, value: Seq<char>) -> Result<
    ServiceView,
    ErrorView,
> {
    if key == "type"@ {
        match number_u8(value) {
            Ok(service_type) => Ok(ServiceView { service_type, ..service }),
            Err(kind) => Err(ErrorView::ParseInt(kind)),
        }
    } else if key == "pnr"@ {
        match number_u16(value) {
            Ok(pnr) => Ok(ServiceView { pnr, ..service }),
            Err(kind) => Err(ErrorView::ParseInt(kind)),
        }
    } else if key == "lcn"@ {
        match number_u16(value) {
            Ok(lcn) => Ok(ServiceView { lcn, ..service }),
            Err(kind) => Err(ErrorView::ParseInt(kind)),
        }
    } else if key == "name"@ {
        Ok(ServiceView { name: service.name + value, ..service })
    } else {
        Ok(service)
    }
}

/// The reader of the section without a name.
pub open spec fn base_reader() -> Reader<InstanceView> {
    |instance: InstanceView, key: Seq<char>, value: Seq<char>| read_base_key(instance, key, value)
}

/// The reader of a `multiplex` section.
pub open spec fn multiplex_reader() -> Reader<MultiplexView> {
    |multiplex: MultiplexView, key: Seq<char>, value: Seq<char>|
        read_multiplex_key(multiplex, key, value)
}

/// The reader of a `dvb-c` section.
pub open spec fn delivery_reader() -> Reader<Delivery> {
    |delivery: Delivery, key: Seq<char>, value: Seq<char>| read_delivery_key(delivery, key, value)
}

/// The reader of a `service` section.
pub open spec fn service_reader() -> Reader<ServiceView> {
    |service: ServiceView, key: Seq<char>, value: Seq<char>| read_service_key(service, key, value)
}

/// The model after a section was read, and the fault that ended the reading
/// if there was one.
pub struct Loaded {
    pub instance: InstanceView,
    pub fault: Option<ErrorView>,
}

/// What a loader made of the model and what it returned, as one value.
pub open spec fn outcome(instance: InstanceView, result: Result<(), Error>) -> Loaded {
    Loaded {
        instance,
        fault: match result {
            Ok(_) => None,
            Err(fault) => Some(fault@),
        },
    }
}

/// The message of a section that needs a multiplex before it and has none.
pub open spec fn no_multiplex() -> ErrorView {
    ErrorView::Custom("multiplex section not found"@)
}

/// The fault of a network whose own numbers are not all in range: a version
/// above 31, an original-network identifier of 0, or a codepage that is not
/// known. The first of these that holds is named.
pub open spec fn base_complaint(instance: InstanceView) -> Option<ErrorView> {
    if instance.nit_version > 31 {
        Some(ErrorView::Config("nit_version is out of range 0 .. 31"@))
    } else if instance.onid < 1 {
        Some(ErrorView::Config("onid is out of range 1 .. 65535"@))
    } else if !codepage_known(instance.codepage) {
        Some(ErrorView::Config("codepage is not known"@))
    } else {
        None
    }
}

/// The fault of a multiplex that is not valid. A transport-stream
/// identifier of 0 is that of a section that names none.
pub open spec fn multiplex_complaint(multiplex: MultiplexView) -> Option<ErrorView> {
    if multiplex.tsid < 1 {
        Some(ErrorView::Config("tsid is required, in range 1 .. 65535"@))
    } else if multiplex.onid < 1 {
        Some(ErrorView::Config("onid is out of range 1 .. 65535"@))
    } else if !multiplex.valid() {
        Some(ErrorView::Config("multiplex holds a value out of range"@))
    } else {
        None
    }
}

/// The fault of a delivery record that is not valid.
pub open spec fn delivery_complaint(delivery: Delivery) -> Option<ErrorView> {
    if delivery.fec > 15 {
        Some(ErrorView::Config("fec is out of range 0 .. 15"@))
    } else if delivery.fec_outer != 0 {
        Some(ErrorView::Config("outer fec is reserved"@))
    } else {
        None
    }
}

/// The fault of a service that is not valid. A program number of 0 is that
/// of a section that names none.
pub open spec fn service_complaint(service: ServiceView) -> Option<ErrorView> {
    if service.pnr < 1 {
        Some(ErrorView::Config("pnr is required, in range 1 .. 65535"@))
    } else if service.lcn > 1000 {
        Some(ErrorView::Config("lcn is out of range 0 .. 1000"@))
    } else {
        None
    }
}

/// A record has no fault exactly where it is valid; a network has none
/// exactly where its own numbers are in range.
pub proof fn lemma_complaints(
    instance: InstanceView,
    multiplex: MultiplexView,
    delivery: Delivery,
    service: ServiceView,
)
    ensures
        base_complaint(instance) is None <==> instance.nit_version <= 31 && instance.onid >= 1
            && codepage_known(instance.codepage),
        multiplex_complaint(multiplex) is None <==> multiplex.valid(),
        delivery_complaint(delivery) is None <==> delivery.valid(),
        service_complaint(service) is None <==> service.valid(),
{
}

/// The section without a name: version, network and original network go
/// back to 0, 1 and 1, then the keys are read in order, and then the numbers
/// of the network are held to their ranges. A fault ends the reading; what
/// the keys before it made of the network stays.
pub open spec fn base_read(instance: InstanceView, entries: Entries) -> Loaded {
    let start = InstanceView { nit_version: 0, network_id: 1, onid: 1, ..instance };
    let (reached, fault) = read_entries(start, entries, base_reader());
    Loaded {
        instance: reached,
        fault: if fault is Some {
            fault
        } else {
            base_complaint(reached)
        },
    }
}

/// A `multiplex` section: a new multiplex, enabled and under the network's
/// original-network identifier, is read and, where it is valid, added behind
/// the others. After a fault the network is as it was.
pub open spec fn multiplex_read(instance: InstanceView, entries: Entries) -> Loaded {
    let (multiplex, fault) = read_entries(
        MultiplexView::initial(instance.onid),
        entries,
        multiplex_reader(),
    );
    if fault is Some {
        Loaded { instance, fault }
    } else if multiplex_complaint(multiplex) is Some {
        Loaded { instance, fault: multiplex_complaint(multiplex) }
    } else {
        Loaded {
            instance: InstanceView {
                multiplexes: instance.multiplexes.push(multiplex),
                ..instance
            },
            fault: None,
        }
    }
}

/// A `dvb-c` section: a new delivery record is read and, where it is valid,
/// given to the last multiplex. Without a multiplex, and after a fault, the
/// network is as it was.
pub open spec fn delivery_read(instance: InstanceView, entries: Entries) -> Loaded {
    if instance.multiplexes.len() == 0 {
        Loaded { instance, fault: Some(no_multiplex()) }
    } else {
        let (delivery, fault) = read_entries(Delivery::initial(), entries, delivery_reader());
        if fault is Some {
            Loaded { instance, fault }
        } else if delivery_complaint(delivery) is Some {
            Loaded { instance, fault: delivery_complaint(delivery) }
        } else {
            let last = instance.multiplexes.last();
            Loaded {
                instance: InstanceView {
                    multiplexes: instance.multiplexes.drop_last().push(
                        MultiplexView { delivery, ..last },
                    ),
                    ..instance
                },
                fault: None,
            }
        }
    }
}

/// A `service` section: a new service of type 1 is read and, where it is
/// valid, added behind the services of the last multiplex. Without a
/// multiplex, and after a fault, the network is as it was.
pub open spec fn service_read(instance: InstanceView, entries: Entries) -> Loaded {
    if instance.multiplexes.len() == 0 {
        Loaded { instance, fault: Some(no_multiplex()) }
    } else {
        let (service, fault) = read_entries(ServiceView::initial(), entries, service_reader());
        if fault is Some {
            Loaded { instance, fault }
        } else if service_complaint(service) is Some {
            Loaded { instance, fault: service_complaint(service) }
        } else {
            let last = instance.multiplexes.last();
            Loaded {
                instance: InstanceView {
                    multiplexes: instance.multiplexes.drop_last().push(
                        MultiplexView { services: last.services.push(service), ..last },
                    ),
                    ..instance
                },
                fault: None,
            }
        }
    }
}

/// One section, read by its name. A section of another name changes nothing.
pub open spec fn section_read(instance: InstanceView, section: SectionView) -> Loaded {
    if section.name == ""@ {
        base_read(instance, section.entries)
    } else if section.name == "multiplex"@ {
        multiplex_read(instance, section.entries)
    } else if section.name == "dvb-c"@ {
        delivery_read(instance, section.entries)
    } else if section.name == "service"@ {
        service_read(instance, section.entries)
    } else {
        Loaded { instance, fault: None }
    }
}

/// The sections of a source, read in order up to the first fault.
pub open spec fn config_read(instance: InstanceView, sections: Seq<SectionView>) -> Loaded
    decreases sections.len(),
{
    if sections.len() == 0 {
        Loaded { instance, fault: None }
    } else {
        let before = config_read(instance, sections.drop_last());
        if before.fault is Some {
            before
        } else {
            section_read(before.instance, sections.last())
        }
    }
}

/// No section is read after a fault.
pub proof fn lemma_fault_ends_loading(instance: InstanceView, sections: Seq<SectionView>, n: int)
    requires
        0 <= n <= sections.len(),
        config_read(instance, sections.take(n)).fault is Some,
    ensures
        config_read(instance, sections) == config_read(instance, sections.take(n)),
    decreases sections.len() - n,
{
    if n < sections.len() {
        assert(sections.take(n + 1).drop_last() == sections.take(n));
        lemma_fault_ends_loading(instance, sections, n + 1);
    } else {
        assert(sections.take(n) == sections);
    }
}

/// What every key keeps, the reading of a section keeps.
pub proof fn lemma_read_keeps<T>(
    start: T,
    entries: Entries,
    read: Reader<T>,
    kept: spec_fn(T) -> bool,
)
    requires
        kept(start),
        forall|state: T, key: Seq<char>, value: Seq<char>|
            kept(state) && (#[trigger] read(state, key, value)) is Ok ==> kept(
                read(state, key, value)->Ok_0,
            ),
    ensures
        kept(read_entries(start, entries, read).0),
    decreases entries.len(),
{
    if entries.len() > 0 {
        lemma_read_keeps(start, entries.drop_last(), read, kept);
    }
}

/// A section that is read without fault leaves a valid network valid.
pub proof fn lemma_section_keeps_valid(instance: InstanceView, section: SectionView)
    requires
        instance.valid(),
    ensures
        section_read(instance, section).fault is None ==> section_read(
            instance,
            section,
        ).instance.valid(),
{
    let entries = section.entries;
    if section.name == ""@ {
        let start = InstanceView { nit_version: 0, network_id: 1, onid: 1, ..instance };
        let kept = |read: InstanceView| read.multiplexes == instance.multiplexes;
        lemma_read_keeps(start, entries, base_reader(), kept);
    } else if section.name == "multiplex"@ {
        let (multiplex, fault) = read_entries(
            MultiplexView::initial(instance.onid),
            entries,
            multiplex_reader(),
        );
        if fault is None && multiplex_complaint(multiplex) is None {
            let after = instance.multiplexes.push(multiplex);
            assert forall|i: int| 0 <= i < after.len() implies (#[trigger] after[i]).valid() by {
                if i < instance.multiplexes.len() {
                    assert(after[i] == instance.multiplexes[i]);
                }
            }
        }
    } else if section.name == "dvb-c"@ {
        if instance.multiplexes.len() > 0 {
            let (delivery, fault) = read_entries(Delivery::initial(), entries, delivery_reader());
            if fault is None && delivery_complaint(delivery) is None {
                let last = instance.multiplexes.last();
                let changed = MultiplexView { delivery, ..last };
                let after = instance.multiplexes.drop_last().push(changed);
                assert(last.valid());
                assert(changed.valid());
                assert forall|i: int| 0 <= i < after.len() implies (#[trigger] after[i]).valid() by {
                    if i < after.len() - 1 {
                        assert(after[i] == instance.multiplexes[i]);
                    }
                }
            }
        }
    } else if section.name == "service"@ {
        if instance.multiplexes.len() > 0 {
            let (service, fault) = read_entries(ServiceView::initial(), entries, service_reader());
            if fault is None && service_complaint(service) is None {
                let last = instance.multiplexes.last();
                let changed = MultiplexView { services: last.services.push(service), ..last };
                let after = instance.multiplexes.drop_last().push(changed);
                assert(last.valid());
                assert forall|i: int| 0 <= i < changed.services.len() implies (
                #[trigger] changed.services[i]).valid() by {
                    if i < last.services.len() {
                        assert(changed.services[i] == last.services[i]);
                    }
                }
                assert(changed.valid());
                assert forall|i: int| 0 <= i < after.len() implies (#[trigger] after[i]).valid() by {
                    if i < after.len() - 1 {
                        assert(after[i] == instance.multiplexes[i]);
                    }
                }
            }
        }
    }
}

/// A source that is read without fault leaves a valid network valid: no
/// number outside its range enters the model through the loader.
pub proof fn lemma_loading_keeps_valid(instance: InstanceView, sections: Seq<SectionView>)
    requires
        instance.valid(),
    ensures
        config_read(instance, sections).fault is None ==> config_read(
            instance,
            sections,
        ).instance.valid(),
    decreases sections.len(),
{
    if sections.len() > 0 {
        let before = config_read(instance, sections.drop_last());
        lemma_loading_keeps_valid(instance, sections.drop_last());
        if before.fault is None {
            lemma_section_keeps_valid(before.instance, sections.last());
        }
    }
}

/// The message of a source that names no output.
pub open spec fn no_output() -> ErrorView {
    ErrorView::Custom("output not defined"@)
}

/// The network that a source describes: its sections are read, in order,
/// into a network with the defaults applied. A source that is read with a
/// fault, and one that opens no output, describes none.
pub open spec fn loaded(sections: Seq<SectionView>) -> Result<InstanceView, ErrorView> {
    let read = config_read(InstanceView::initial(), sections);
    if read.fault is Some {
        Err(read.fault->0)
    } else if read.instance.output == OutputView::Unopened {
        Err(no_output())
    } else {
        Ok(read.instance)
    }
}

/// The network that a source describes is valid and has its output.
pub proof fn lemma_loaded_is_valid(sections: Seq<SectionView>)
    ensures
        loaded(sections) matches Ok(instance) ==> instance.valid() && instance.output
            != OutputView::Unopened,
{
    lemma_loading_keeps_valid(InstanceView::initial(), sections);
}

/// Whether an entry reader did to `after` what `read` says of `before`.
pub open spec fn entry_read<T>(
    read: Result<T, ErrorView>,
    before: T,
    after: T,
    result: Result<(), Error>,
) -> bool {
    match read {
        Ok(next) => result is Ok && after == next,
        Err(fault) => result is Err && result->Err_0@ == fault && after == before,
    }
}

/// Reads one key of the section without a name.
fn read_base_entry(instance: &mut Instance, key: &str, value: &str) -> (result: Result<(), Error>)
    ensures
        entry_read(
            read_base_key(old(instance)@, key@, value@),
            old(instance)@,
            final(instance)@,
            result,
        ),
{
    if same_text(key, "output") {
        match Output::open(value) {
            Ok(output) => {
                instance.output = output;
            },
            Err(fault) => {
                return Err(fault);
            },
        }
    } else if same_text(key, "nit_version") {
        match parse_u8(value) {
            Ok(nit_version) => {
                instance.nit_version = nit_version;
            },
            Err(kind) => {
                return Err(Error::ParseInt(kind));
            },
        }
    } else if same_text(key, "network_id") {
        match parse_u16(value) {
            Ok(network_id) => {
                instance.network_id = network_id;
            },
            Err(kind) => {
                return Err(Error::ParseInt(kind));
            },
        }
    } else if same_text(key, "network") {
        instance.network.append(value);
    } else if same_text(key, "codepage") {
        match parse_u8(value) {
            Ok(codepage) => {
                instance.codepage = codepage;
            },
            Err(kind) => {
                return Err(Error::ParseInt(kind));
            },
        }
    } else if same_text(key, "onid") {
        match parse_u16(value) {
            Ok(onid) => {
                instance.onid = onid;
            },
            Err(kind) => {
                return Err(Error::ParseInt(kind));
            },
        }
    }
    Ok(())
}

/// Reads one key of a `multiplex` section.
fn read_multiplex_entry(multiplex: &mut Multiplex, key: &str, value: &str) -> (result: Result<
    (),
    Error,
>)
    ensures
        entry_read(
            read_multiplex_key(old(multiplex)@, key@, value@),
            old(multiplex)@,
            final(multiplex)@,
            result,
        ),
{
    if same_text(key, "tsid") {
        match parse_u16(value) {
            Ok(tsid) => {
                multiplex.tsid = tsid;
            },
            Err(kind) => {
                return Err(Error::ParseInt(kind));
            },
        }
    } else if same_text(key, "onid") {
        match parse_u16(value) {
            Ok(onid) => {
                multiplex.onid = onid;
            },
            Err(kind) => {
                return Err(Error::ParseInt(kind));
            },
        }
    } else if same_text(key, "enable") {
        multiplex.enable = same_text(value, "true");
    }
    Ok(())
}

/// Reads one key of a `dvb-c` section.
fn read_delivery_entry(delivery: &mut Delivery, key: &str, value: &str) -> (result: Result<
    (),
    Error,
>)
    ensures
        entry_read(
            read_delivery_key(*old(delivery), key@, value@),
            *old(delivery),
            *final(delivery),
            result,
        ),
{
    if same_text(key, "frequency") {
        match parse_u32(value) {
            Ok(frequency) => {
                delivery.frequency = frequency;
            },
            Err(kind) => {
                return Err(Error::ParseInt(kind));
            },
        }
    } else if same_text(key, "symbolrate") {
        match parse_u32(value) {
            Ok(symbol_rate) => {
                delivery.symbol_rate = symbol_rate;
            },
            Err(kind) => {
                return Err(Error::ParseInt(kind));
            },
        }
    } else if same_text(key, "fec") {
        match parse_u8(value) {
            Ok(fec) => {
                delivery.fec = fec;
            },
            Err(kind) => {
                return Err(Error::ParseInt(kind));
            },
        }
    } else if same_text(key, "modulation") {
        delivery.modulation = Modulation::from_name(value);
    }
    Ok(())
}

/// Reads one key of a `service` section.
fn read_service_entry(service: &mut Service, key: &str, value: &str) -> (result: Result<
    (),
    Error,
>)
    ensures
        entry_read(
            read_service_key(old(service)@, key@, value@),
            old(service)@,
            final(service)@,
            result,
        ),
{
    if same_text(key, "type") {
        match parse_u8(value) {
            Ok(service_type) => {
                service.service_type = service_type;
            },
            Err(kind) => {
                return Err(Error::ParseInt(kind));
            },
        }
    } else if same_text(key, "pnr") {
        match parse_u16(value) {
            Ok(pnr) => {
                service.pnr = pnr;
            },
            Err(kind) => {
                return Err(Error::ParseInt(kind));
            },
        }
    } else if same_text(key, "lcn") {
        match parse_u16(value) {
            Ok(lcn) => {
                service.lcn = lcn;
            },
            Err(kind) => {
                return Err(Error::ParseInt(kind));
            },
        }
    } else if same_text(key, "name") {
        service.name.append(value);
    }
    Ok(())
}

/// Whether a check returned the fault that `complaint` names, or none
/// where it names none.
pub open spec fn complained(result: Result<(), Error>, complaint: Option<ErrorView>) -> bool {
    match complaint {
        Some(fault) => result is Err && result->Err_0@ == fault,
        None => result is Ok,
    }
}

/// Holds the numbers of the network itself to their ranges.
fn check_base(instance: &Instance) -> (result: Result<(), Error>)
    ensures
        complained(result, base_complaint(instance@)),
{
    let codepage = instance.codepage;
    if instance.nit_version > 31 {
        Err(Error::Config("nit_version is out of range 0 .. 31".to_owned()))
    } else if instance.onid < 1 {
        Err(Error::Config("onid is out of range 1 .. 65535".to_owned()))
    } else if !(codepage <= 11 || (13 <= codepage && codepage <= 15) || codepage == 21) {
        Err(Error::Config("codepage is not known".to_owned()))
    } else {
        Ok(())
    }
}

/// Holds a multiplex to its ranges.
fn check_multiplex(multiplex: &Multiplex) -> (result: Result<(), Error>)
    ensures
        complained(result, multiplex_complaint(multiplex@)),
{
    if multiplex.tsid < 1 {
        Err(Error::Config("tsid is required, in range 1 .. 65535".to_owned()))
    } else if multiplex.onid < 1 {
        Err(Error::Config("onid is out of range 1 .. 65535".to_owned()))
    } else if !multiplex.is_valid() {
        Err(Error::Config("multiplex holds a value out of range".to_owned()))
    } else {
        Ok(())
    }
}

/// Holds a delivery record to its ranges.
fn check_delivery(delivery: &Delivery) -> (result: Result<(), Error>)
    ensures
        complained(result, delivery_complaint(*delivery)),
{
    if delivery.fec > 15 {
        Err(Error::Config("fec is out of range 0 .. 15".to_owned()))
    } else if delivery.fec_outer != 0 {
        Err(Error::Config("outer fec is reserved".to_owned()))
    } else {
        Ok(())
    }
}

/// Holds a service to its ranges.
fn check_service(service: &Service) -> (result: Result<(), Error>)
    ensures
        complained(result, service_complaint(service@)),
{
    if service.pnr < 1 {
        Err(Error::Config("pnr is required, in range 1 .. 65535".to_owned()))
    } else if service.lcn > 1000 {
        Err(Error::Config("lcn is out of range 0 .. 1000".to_owned()))
    } else {
        Ok(())
    }
}

/// Reads the section without a name into the network.
pub fn parse_base(instance: &mut Instance, section: &Section) -> (result: Result<(), Error>)
    ensures
        outcome(final(instance)@, result) == base_read(old(instance)@, section@.entries),
{
    instance.nit_version = 0;
    instance.network_id = 1;
    instance.onid = 1;
    let ghost start = instance@;
    let ghost entries = section@.entries;
    assert(entries.take(0) =~= Seq::empty());
    let mut i: usize = 0;
    while i < section.entries.len()
        invariant
            i <= section.entries.len(),
            entries == section@.entries,
            start == (InstanceView { nit_version: 0, network_id: 1, onid: 1, ..old(instance)@ }),
            read_entries(start, entries.take(i as int), base_reader()) == (
                instance@,
                None::<ErrorView>,
            ),
        decreases section.entries.len() - i,
    {
        let key = section.entries[i].0.as_str();
        let value = section.entries[i].1.as_str();
        proof {
            lemma_read_next(start, entries, base_reader(), i as int);
        }
        match read_base_entry(instance, key, value) {
            Ok(_) => {},
            Err(fault) => {
                proof {
                    lemma_fault_ends_reading(start, entries, base_reader(), i + 1);
                }
                return Err(fault);
            },
        }
        i += 1;
    }
    assert(entries.take(i as int) == entries);
    check_base(instance)
}

/// Reads a `multiplex` section and adds its multiplex to the network.
pub fn parse_multiplex(instance: &mut Instance, section: &Section) -> (result: Result<(), Error>)
    ensures
        outcome(final(instance)@, result) == multiplex_read(old(instance)@, section@.entries),
{
    let mut multiplex = Multiplex::new(instance.onid);
    let ghost start = multiplex@;
    let ghost entries = section@.entries;
    assert(entries.take(0) =~= Seq::empty());
    let mut i: usize = 0;
    while i < section.entries.len()
        invariant
            i <= section.entries.len(),
            entries == section@.entries,
            instance@ == old(instance)@,
            start == MultiplexView::initial(instance@.onid),
            read_entries(start, entries.take(i as int), multiplex_reader()) == (
                multiplex@,
                None::<ErrorView>,
            ),
        decreases section.entries.len() - i,
    {
        let key = section.entries[i].0.as_str();
        let value = section.entries[i].1.as_str();
        proof {
            lemma_read_next(start, entries, multiplex_reader(), i as int);
        }
        match read_multiplex_entry(&mut multiplex, key, value) {
            Ok(_) => {},
            Err(fault) => {
                proof {
                    lemma_fault_ends_reading(start, entries, multiplex_reader(), i + 1);
                }
                return Err(fault);
            },
        }
        i += 1;
    }
    assert(entries.take(i as int) == entries);
    match check_multiplex(&multiplex) {
        Ok(_) => {},
        Err(fault) => {
            return Err(fault);
        },
    }
    proof {
        lemma_views_push(instance.multiplex_list@, multiplex);
    }
    instance.multiplex_list.push(multiplex);
    Ok(())
}

/// Reads a `dvb-c` section and gives its delivery record to the last
/// multiplex of the network.
pub fn parse_dvb_c(instance: &mut Instance, section: &Section) -> (result: Result<(), Error>)
    ensures
        outcome(final(instance)@, result) == delivery_read(old(instance)@, section@.entries),
{
    if instance.multiplex_list.len() == 0 {
        return Err(Error::from("multiplex section not found"));
    }
    let mut delivery = Delivery::new();
    let ghost start = delivery;
    let ghost entries = section@.entries;
    assert(entries.take(0) =~= Seq::empty());
    let mut i: usize = 0;
    while i < section.entries.len()
        invariant
            i <= section.entries.len(),
            entries == section@.entries,
            instance@ == old(instance)@,
            instance@.multiplexes.len() > 0,
            start == Delivery::initial(),
            read_entries(start, entries.take(i as int), delivery_reader()) == (
                delivery,
                None::<ErrorView>,
            ),
        decreases section.entries.len() - i,
    {
        let key = section.entries[i].0.as_str();
        let value = section.entries[i].1.as_str();
        proof {
            lemma_read_next(start, entries, delivery_reader(), i as int);
        }
        match read_delivery_entry(&mut delivery, key, value) {
            Ok(_) => {},
            Err(fault) => {
                proof {
                    lemma_fault_ends_reading(start, entries, delivery_reader(), i + 1);
                }
                return Err(fault);
            },
        }
        i += 1;
    }
    assert(entries.take(i as int) == entries);
    match check_delivery(&delivery) {
        Ok(_) => {},
        Err(fault) => {
            return Err(fault);
        },
    }
    let ghost before = instance.multiplex_list@;
    let mut last = instance.multiplex_list.pop().unwrap();
    last.delivery = delivery;
    proof {
        lemma_views_push(instance.multiplex_list@, last);
        assert(views(before.drop_last()) =~= views(before).drop_last());
    }
    instance.multiplex_list.push(last);
    Ok(())
}

/// Reads a `service` section and adds its service to the last multiplex of
/// the network.
pub fn parse_service(instance: &mut Instance, section: &Section) -> (result: Result<(), Error>)
    ensures
        outcome(final(instance)@, result) == service_read(old(instance)@, section@.entries),
{
    if instance.multiplex_list.len() == 0 {
        return Err(Error::from("multiplex section not found"));
    }
    let mut service = Service::new();
    let ghost start = service@;
    let ghost entries = section@.entries;
    assert(entries.take(0) =~= Seq::empty());
    let mut i: usize = 0;
    while i < section.entries.len()
        invariant
            i <= section.entries.len(),
            entries == section@.entries,
            instance@ == old(instance)@,
            instance@.multiplexes.len() > 0,
            start == ServiceView::initial(),
            read_entries(start, entries.take(i as int), service_reader()) == (
                service@,
                None::<ErrorView>,
            ),
        decreases section.entries.len() - i,
    {
        let key = section.entries[i].0.as_str();
        let value = section.entries[i].1.as_str();
        proof {
            lemma_read_next(start, entries, service_reader(), i as int);
        }
        match read_service_entry(&mut service, key, value) {
            Ok(_) => {},
            Err(fault) => {
                proof {
                    lemma_fault_ends_reading(start, entries, service_reader(), i + 1);
                }
                return Err(fault);
            },
        }
        i += 1;
    }
    assert(entries.take(i as int) == entries);
    match check_service(&service) {
        Ok(_) => {},
        Err(fault) => {
            return Err(fault);
        },
    }
    let ghost before = instance.multiplex_list@;
    let mut last = instance.multiplex_list.pop().unwrap();
    proof {
        lemma_views_push(last.service_list@, service);
    }
    last.service_list.push(service);
    proof {
        lemma_views_push(instance.multiplex_list@, last);
        assert(views(before.drop_last()) =~= views(before).drop_last());
    }
    instance.multiplex_list.push(last);
    Ok(())
}

/// Reads one section into the network, by its name.
pub fn parse_section(instance: &mut Instance, section: &Section) -> (result: Result<(), Error>)
    ensures
        outcome(final(instance)@, result) == section_read(old(instance)@, section@),
{
    let name = section.name.as_str();
    if same_text(name, "") {
        parse_base(instance, section)
    } else if same_text(name, "multiplex") {
        parse_multiplex(instance, section)
    } else if same_text(name, "dvb-c") {
        parse_dvb_c(instance, section)
    } else if same_text(name, "service") {
        parse_service(instance, section)
    } else {
        Ok(())
    }
}

/// Reads the sections of a configuration source into the network, in order.
/// The first fault ends the loading and is returned; the network then holds
/// what was read before it and is not to be used.
pub fn parse_config(instance: &mut Instance, sections: &Vec<Section>) -> (result: Result<
    (),
    Error,
>)
    ensures
        outcome(final(instance)@, result) == config_read(old(instance)@, views(sections@)),
{
    let ghost start = instance@;
    let ghost all = views(sections@);
    assert(all.take(0) =~= Seq::empty());
    let mut i: usize = 0;
    while i < sections.len()
        invariant
            i <= sections.len(),
            all == views(sections@),
            start == old(instance)@,
            config_read(start, all.take(i as int)) == (Loaded { instance: instance@, fault: None }),
        decreases sections.len() - i,
    {
        proof {
            assert(all.take(i + 1).drop_last() == all.take(i as int));
            assert(all.take(i + 1).last() == sections@[i as int]@);
        }
        match parse_section(instance, &sections[i]) {
            Ok(_) => {},
            Err(fault) => {
                proof {
                    lemma_fault_ends_loading(start, all, i + 1);
                }
                return Err(fault);
            },
        }
        i += 1;
    }
    assert(all.take(i as int) == all);
    Ok(())
}

/// Loads the network that the sections of a configuration source
/// describe. The first fault is returned: a text that is no number of its
/// type, a number outside its range, a section that needs a multiplex and
/// has none before it, an output of unknown type, or no output at all.
pub fn load(sections: &Vec<Section>) -> (result: Result<Instance, Error>)
    ensures
        match loaded(views(sections@)) {
            Ok(instance) => result is Ok && result->Ok_0@ == instance,
            Err(fault) => result is Err && result->Err_0@ == fault,
        },
        result matches Ok(instance) ==> instance@.valid() && instance@.output
            != OutputView::Unopened,
{
    proof {
        lemma_loaded_is_valid(views(sections@));
    }
    let mut instance = Instance::new();
    match parse_config(&mut instance, sections) {
        Ok(_) => {},
        Err(fault) => {
            return Err(fault);
        },
    }
    if !instance.output.is_open() {
        return Err(Error::from("output not defined"));
    }
    Ok(instance)
}

} // verus!
