use nit_stream::model::{Delivery, Instance, Modulation, Multiplex, Service};
use nit_stream::output::Output;

#[test]
fn a_new_network_has_the_documented_defaults() {
    let instance = Instance::new();
    assert_eq!(instance.nit_version, 0);
    assert_eq!(instance.network_id, 1);
    assert_eq!(instance.onid, 1);
    assert_eq!(instance.codepage, 0);
    assert_eq!(instance.network, "");
    assert_eq!(instance.output, Output::Unopened);
    assert!(instance.multiplex_list.is_empty());
    assert_eq!(Instance::default(), instance);
}

#[test]
fn a_new_multiplex_is_enabled_under_the_given_original_network() {
    let multiplex = Multiplex::new(3);
    assert_eq!(multiplex.tsid, 0);
    assert_eq!(multiplex.onid, 3);
    assert!(multiplex.enable);
    assert_eq!(multiplex.delivery, Delivery::new());
    assert!(multiplex.service_list.is_empty());
    assert_eq!(Multiplex::default(), Multiplex::new(1));
}

#[test]
fn a_new_service_is_digital_television_without_channel() {
    let service = Service::new();
    assert_eq!(service.pnr, 0);
    assert_eq!(service.service_type, 1);
    assert_eq!(service.lcn, 0);
    assert_eq!(service.name, "");
    assert_eq!(Service::default(), service);
}

#[test]
fn a_new_delivery_record_has_nothing_set() {
    let delivery = Delivery::new();
    assert_eq!(delivery.frequency, 0);
    assert_eq!(delivery.symbol_rate, 0);
    assert_eq!(delivery.fec, 0);
    assert_eq!(delivery.fec_outer, 0);
    assert_eq!(delivery.modulation, Modulation::NotDefined);
    assert_eq!(Delivery::default(), delivery);
}

#[test]
fn modulation_names_are_read_exactly() {
    assert_eq!(Modulation::from_name("QAM16"), Modulation::Qam16);
    assert_eq!(Modulation::from_name("QAM32"), Modulation::Qam32);
    assert_eq!(Modulation::from_name("QAM64"), Modulation::Qam64);
    assert_eq!(Modulation::from_name("QAM128"), Modulation::Qam128);
    assert_eq!(Modulation::from_name("QAM256"), Modulation::Qam256);
}

#[test]
fn an_unknown_modulation_name_is_not_defined_and_no_error() {
    assert_eq!(Modulation::from_name(""), Modulation::NotDefined);
    assert_eq!(Modulation::from_name("qam64"), Modulation::NotDefined);
    assert_eq!(Modulation::from_name("QAM512"), Modulation::NotDefined);
    assert_eq!(Modulation::from_name("QAM64 "), Modulation::NotDefined);
    assert_eq!(Modulation::from_name("QPSK"), Modulation::NotDefined);
}

#[test]
fn modulation_codes_follow_the_cable_delivery_descriptor() {
    assert_eq!(Modulation::NotDefined.code(), 0);
    assert_eq!(Modulation::Qam16.code(), 1);
    assert_eq!(Modulation::Qam32.code(), 2);
    assert_eq!(Modulation::Qam64.code(), 3);
    assert_eq!(Modulation::Qam128.code(), 4);
    assert_eq!(Modulation::Qam256.code(), 5);
}

fn plain_service(pnr: u16, lcn: u16) -> Service {
    Service { pnr, service_type: 1, lcn, name: String::new() }
}

fn plain_multiplex(tsid: u16, onid: u16) -> Multiplex {
    Multiplex { tsid, onid, enable: true, delivery: Delivery::new(), service_list: Vec::new() }
}

#[test]
fn a_service_is_valid_with_a_program_number_and_a_channel_up_to_1000() {
    assert!(plain_service(1, 0).is_valid());
    assert!(plain_service(65535, 1000).is_valid());
    assert!(!plain_service(0, 0).is_valid());
    assert!(!plain_service(1, 1001).is_valid());
}

#[test]
fn a_multiplex_is_valid_with_identifiers_from_one_and_codes_in_range() {
    assert!(plain_multiplex(1, 1).is_valid());
    assert!(plain_multiplex(65535, 65535).is_valid());
    assert!(!plain_multiplex(0, 1).is_valid());
    assert!(!plain_multiplex(1, 0).is_valid());

    let mut high_fec = plain_multiplex(1, 1);
    high_fec.delivery.fec = 15;
    assert!(high_fec.is_valid());
    high_fec.delivery.fec = 16;
    assert!(!high_fec.is_valid());

    let mut outer = plain_multiplex(1, 1);
    outer.delivery.fec_outer = 1;
    assert!(!outer.is_valid());
}

#[test]
fn a_multiplex_is_valid_only_if_every_service_is() {
    let mut carrier = plain_multiplex(101, 3);
    carrier.service_list.push(plain_service(5001, 12));
    carrier.service_list.push(plain_service(5002, 0));
    assert!(carrier.is_valid());
    carrier.service_list.push(plain_service(0, 0));
    assert!(!carrier.is_valid());
}

#[test]
fn a_disabled_multiplex_is_held_to_the_same_ranges() {
    let mut off = plain_multiplex(0, 1);
    off.enable = false;
    assert!(!off.is_valid());
}

#[test]
fn a_network_is_valid_with_version_up_to_31() {
    let mut instance = Instance::new();
    assert!(instance.is_valid());
    instance.nit_version = 31;
    assert!(instance.is_valid());
    instance.nit_version = 32;
    assert!(!instance.is_valid());
}

#[test]
fn a_network_is_valid_with_any_network_identifier() {
    let mut instance = Instance::new();
    instance.network_id = 0;
    assert!(instance.is_valid());
    instance.network_id = 65535;
    assert!(instance.is_valid());
}

#[test]
fn a_network_needs_an_original_network_identifier_from_one() {
    let mut instance = Instance::new();
    instance.onid = 0;
    assert!(!instance.is_valid());
    instance.onid = 65535;
    assert!(instance.is_valid());
}

#[test]
fn a_network_needs_a_known_codepage() {
    let mut instance = Instance::new();
    for codepage in 0..=255u8 {
        instance.codepage = codepage;
        let known = codepage <= 11 || (13..=15).contains(&codepage) || codepage == 21;
        assert_eq!(instance.is_valid(), known, "codepage {}", codepage);
    }
}

#[test]
fn a_network_is_valid_only_if_every_multiplex_is() {
    let mut instance = Instance::new();
    instance.multiplex_list.push(plain_multiplex(101, 3));
    instance.multiplex_list.push(plain_multiplex(202, 3));
    assert!(instance.is_valid());
    instance.multiplex_list.push(plain_multiplex(0, 3));
    assert!(!instance.is_valid());
}

#[test]
fn shared_transport_stream_identifiers_are_found() {
    let mut instance = Instance::new();
    assert!(instance.has_unique_tsids());
    instance.multiplex_list.push(plain_multiplex(101, 3));
    assert!(instance.has_unique_tsids());
    instance.multiplex_list.push(plain_multiplex(202, 3));
    instance.multiplex_list.push(plain_multiplex(303, 3));
    assert!(instance.has_unique_tsids());
    instance.multiplex_list.push(plain_multiplex(202, 4));
    assert!(!instance.has_unique_tsids());
    assert!(instance.is_valid());
}
