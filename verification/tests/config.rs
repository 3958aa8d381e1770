use nit_stream::config::{
    load, parse_base, parse_config, parse_dvb_c, parse_multiplex, parse_section, parse_service,
    Section,
};
use nit_stream::error::{Error, IntError};
use nit_stream::model::{Delivery, Instance, Modulation, Multiplex, Service};
use nit_stream::output::Output;
use nit_stream::descriptor::Descriptor;
use nit_stream::order::ItemOrder;
use nit_stream::table::assemble;

fn section(name: &str, entries: &[(&str, &str)]) -> Section {
    Section {
        name: name.to_string(),
        entries: entries.iter().map(|(key, value)| (key.to_string(), value.to_string())).collect(),
    }
}

fn with_one_multiplex() -> Instance {
    let mut instance = Instance::new();
    instance.multiplex_list.push(Multiplex::new(1));
    instance
}

#[test]
fn the_base_section_reads_every_key_of_the_network() {
    let mut instance = Instance::new();
    let base = section(
        "",
        &[
            ("output", "udp://239.255.1.1:10000"),
            ("nit_version", "5"),
            ("network_id", "7"),
            ("network", "Cable North"),
            ("codepage", "5"),
            ("onid", "3"),
        ],
    );
    assert_eq!(parse_base(&mut instance, &base), Ok(()));
    assert_eq!(
        instance,
        Instance {
            nit_version: 5,
            network_id: 7,
            network: "Cable North".to_string(),
            codepage: 5,
            onid: 3,
            output: Output::Udp("239.255.1.1:10000".to_string()),
            multiplex_list: Vec::new(),
        }
    );
}

#[test]
fn the_base_section_applies_the_defaults_where_a_key_is_absent() {
    let mut instance = Instance::new();
    instance.nit_version = 9;
    instance.network_id = 9;
    instance.onid = 9;
    instance.codepage = 9;
    assert_eq!(parse_base(&mut instance, &section("", &[])), Ok(()));
    assert_eq!(instance.nit_version, 0);
    assert_eq!(instance.network_id, 1);
    assert_eq!(instance.onid, 1);
    assert_eq!(instance.codepage, 9);
    assert_eq!(instance.network, "");
    assert_eq!(instance.output, Output::Unopened);
}

#[test]
fn the_base_section_passes_over_keys_it_does_not_know() {
    let mut instance = Instance::new();
    let base = section("", &[("comment", "x"), ("tsid", "nonsense"), ("Onid", "5")]);
    assert_eq!(parse_base(&mut instance, &base), Ok(()));
    assert_eq!(instance, Instance::new());
}

#[test]
fn the_last_of_a_repeated_key_stands_and_the_name_grows() {
    let mut instance = Instance::new();
    let base = section(
        "",
        &[("onid", "3"), ("network", "Cable"), ("onid", "4"), ("network", " North")],
    );
    assert_eq!(parse_base(&mut instance, &base), Ok(()));
    assert_eq!(instance.onid, 4);
    assert_eq!(instance.network, "Cable North");
}

#[test]
fn a_fault_in_the_base_section_keeps_what_was_read_before_it() {
    let mut instance = Instance::new();
    let base = section("", &[("network_id", "7"), ("nit_version", "x"), ("onid", "3")]);
    assert_eq!(parse_base(&mut instance, &base), Err(Error::ParseInt(IntError::InvalidDigit)));
    assert_eq!(instance.network_id, 7);
    assert_eq!(instance.nit_version, 0);
    assert_eq!(instance.onid, 1);
}

#[test]
fn the_base_section_holds_each_number_to_its_width() {
    let mut instance = Instance::new();
    assert_eq!(
        parse_base(&mut instance, &section("", &[("nit_version", "256")])),
        Err(Error::ParseInt(IntError::PosOverflow))
    );
    assert_eq!(
        parse_base(&mut instance, &section("", &[("network_id", "65536")])),
        Err(Error::ParseInt(IntError::PosOverflow))
    );
    assert_eq!(
        parse_base(&mut instance, &section("", &[("onid", "")])),
        Err(Error::ParseInt(IntError::Empty))
    );
    assert_eq!(
        parse_base(&mut instance, &section("", &[("codepage", "-1")])),
        Err(Error::ParseInt(IntError::InvalidDigit))
    );
    assert_eq!(parse_base(&mut instance, &section("", &[("network_id", "65535")])), Ok(()));
    assert_eq!(instance.network_id, 65535);
}

#[test]
fn an_output_of_unknown_type_is_a_fault_of_the_base_section() {
    let mut instance = Instance::new();
    let base = section("", &[("output", "tcp://10.0.0.1:1234"), ("network_id", "7")]);
    assert_eq!(
        parse_base(&mut instance, &base),
        Err(Error::Custom("unknown output type [tcp]".to_string()))
    );
    assert_eq!(instance.output, Output::Unopened);
    assert_eq!(instance.network_id, 1);
}

#[test]
fn a_multiplex_section_adds_an_enabled_multiplex_under_the_networks_onid() {
    let mut instance = Instance::new();
    instance.onid = 3;
    assert_eq!(parse_multiplex(&mut instance, &section("multiplex", &[("tsid", "101")])), Ok(()));
    assert_eq!(
        instance.multiplex_list,
        vec![Multiplex {
            tsid: 101,
            onid: 3,
            enable: true,
            delivery: Delivery::new(),
            service_list: Vec::new(),
        }]
    );
}

#[test]
fn a_multiplex_section_can_name_its_own_onid() {
    let mut instance = Instance::new();
    instance.onid = 3;
    let multiplex = section("multiplex", &[("tsid", "101"), ("onid", "8")]);
    assert_eq!(parse_multiplex(&mut instance, &multiplex), Ok(()));
    assert_eq!(instance.multiplex_list[0].onid, 8);
    assert_eq!(instance.onid, 3);
}

#[test]
fn a_multiplex_is_enabled_by_the_word_true_only() {
    for (value, enabled) in [
        ("true", true),
        ("false", false),
        ("True", false),
        ("1", false),
        ("yes", false),
        ("", false),
        (" true", false),
    ] {
        let mut instance = Instance::new();
        let multiplex = section("multiplex", &[("tsid", "1"), ("enable", value)]);
        assert_eq!(parse_multiplex(&mut instance, &multiplex), Ok(()));
        assert_eq!(instance.multiplex_list[0].enable, enabled, "enable = {:?}", value);
    }
}

#[test]
fn multiplex_sections_add_their_multiplexes_in_order() {
    let mut instance = Instance::new();
    for tsid in ["303", "101", "202"] {
        assert_eq!(parse_multiplex(&mut instance, &section("multiplex", &[("tsid", tsid)])), Ok(()));
    }
    let tsids: Vec<u16> = instance.multiplex_list.iter().map(|multiplex| multiplex.tsid).collect();
    assert_eq!(tsids, vec![303, 101, 202]);
}

#[test]
fn a_fault_in_a_multiplex_section_adds_no_multiplex() {
    let mut instance = with_one_multiplex();
    let before = instance.clone();
    let multiplex = section("multiplex", &[("tsid", "101"), ("onid", "70000")]);
    assert_eq!(
        parse_multiplex(&mut instance, &multiplex),
        Err(Error::ParseInt(IntError::PosOverflow))
    );
    assert_eq!(instance, before);
}

#[test]
fn a_delivery_section_sets_the_record_of_the_last_multiplex() {
    let mut instance = Instance::new();
    instance.multiplex_list.push(Multiplex::new(1));
    instance.multiplex_list.push(Multiplex::new(2));
    let delivery = section(
        "dvb-c",
        &[("frequency", "474"), ("symbolrate", "6875"), ("fec", "3"), ("modulation", "QAM256")],
    );
    assert_eq!(parse_dvb_c(&mut instance, &delivery), Ok(()));
    assert_eq!(instance.multiplex_list[0].delivery, Delivery::new());
    assert_eq!(
        instance.multiplex_list[1].delivery,
        Delivery {
            frequency: 474,
            symbol_rate: 6875,
            fec: 3,
            modulation: Modulation::Qam256,
            fec_outer: 0,
        }
    );
}

#[test]
fn the_frequency_stays_in_mhz_in_the_model() {
    let mut instance = with_one_multiplex();
    assert_eq!(parse_dvb_c(&mut instance, &section("dvb-c", &[("frequency", "474")])), Ok(()));
    assert_eq!(instance.multiplex_list[0].delivery.frequency, 474);
}

#[test]
fn a_later_delivery_section_replaces_the_record() {
    let mut instance = with_one_multiplex();
    assert_eq!(
        parse_dvb_c(&mut instance, &section("dvb-c", &[("frequency", "474"), ("fec", "3")])),
        Ok(())
    );
    assert_eq!(parse_dvb_c(&mut instance, &section("dvb-c", &[("symbolrate", "6900")])), Ok(()));
    assert_eq!(
        instance.multiplex_list[0].delivery,
        Delivery {
            frequency: 0,
            symbol_rate: 6900,
            fec: 0,
            modulation: Modulation::NotDefined,
            fec_outer: 0,
        }
    );
}

#[test]
fn an_unknown_modulation_is_accepted_as_not_defined() {
    let mut instance = with_one_multiplex();
    let delivery = section("dvb-c", &[("modulation", "QAM64"), ("modulation", "qam-1024")]);
    assert_eq!(parse_dvb_c(&mut instance, &delivery), Ok(()));
    assert_eq!(instance.multiplex_list[0].delivery.modulation, Modulation::NotDefined);
}

#[test]
fn a_fault_in_a_delivery_section_leaves_the_record_as_it_was() {
    let mut instance = with_one_multiplex();
    instance.multiplex_list[0].delivery.frequency = 300;
    let before = instance.clone();
    let delivery = section("dvb-c", &[("frequency", "474"), ("symbolrate", "fast")]);
    assert_eq!(parse_dvb_c(&mut instance, &delivery), Err(Error::ParseInt(IntError::InvalidDigit)));
    assert_eq!(instance, before);
}

#[test]
fn a_delivery_section_before_any_multiplex_is_a_structural_fault() {
    let mut instance = Instance::new();
    assert_eq!(
        parse_dvb_c(&mut instance, &section("dvb-c", &[("frequency", "474")])),
        Err(Error::Custom("multiplex section not found".to_string()))
    );
    assert_eq!(instance, Instance::new());
}

#[test]
fn a_service_section_adds_a_service_to_the_last_multiplex() {
    let mut instance = Instance::new();
    instance.multiplex_list.push(Multiplex::new(1));
    instance.multiplex_list.push(Multiplex::new(1));
    let service =
        section("service", &[("pnr", "5001"), ("type", "2"), ("lcn", "12"), ("name", "News")]);
    assert_eq!(parse_service(&mut instance, &service), Ok(()));
    assert!(instance.multiplex_list[0].service_list.is_empty());
    assert_eq!(
        instance.multiplex_list[1].service_list,
        vec![Service { pnr: 5001, service_type: 2, lcn: 12, name: "News".to_string() }]
    );
}

#[test]
fn a_service_defaults_to_type_one_and_no_channel() {
    let mut instance = with_one_multiplex();
    assert_eq!(parse_service(&mut instance, &section("service", &[("pnr", "5001")])), Ok(()));
    assert_eq!(
        instance.multiplex_list[0].service_list,
        vec![Service { pnr: 5001, service_type: 1, lcn: 0, name: String::new() }]
    );
}

#[test]
fn services_are_added_in_the_order_of_their_sections() {
    let mut instance = with_one_multiplex();
    for pnr in ["30", "10", "20"] {
        assert_eq!(parse_service(&mut instance, &section("service", &[("pnr", pnr)])), Ok(()));
    }
    let pnrs: Vec<u16> =
        instance.multiplex_list[0].service_list.iter().map(|service| service.pnr).collect();
    assert_eq!(pnrs, vec![30, 10, 20]);
}

#[test]
fn a_fault_in_a_service_section_adds_no_service() {
    let mut instance = with_one_multiplex();
    let service = section("service", &[("pnr", "5001"), ("type", "256")]);
    assert_eq!(parse_service(&mut instance, &service), Err(Error::ParseInt(IntError::PosOverflow)));
    assert!(instance.multiplex_list[0].service_list.is_empty());
}

#[test]
fn a_service_section_before_any_multiplex_is_a_structural_fault() {
    let mut instance = Instance::new();
    assert_eq!(
        parse_service(&mut instance, &section("service", &[("pnr", "5001")])),
        Err(Error::Custom("multiplex section not found".to_string()))
    );
    assert_eq!(instance, Instance::new());
}

#[test]
fn a_section_is_read_by_its_name() {
    let mut instance = Instance::new();
    assert_eq!(parse_section(&mut instance, &section("", &[("onid", "3")])), Ok(()));
    assert_eq!(parse_section(&mut instance, &section("multiplex", &[("tsid", "101")])), Ok(()));
    assert_eq!(parse_section(&mut instance, &section("dvb-c", &[("frequency", "474")])), Ok(()));
    assert_eq!(parse_section(&mut instance, &section("service", &[("pnr", "5001")])), Ok(()));
    assert_eq!(instance.onid, 3);
    assert_eq!(instance.multiplex_list.len(), 1);
    assert_eq!(instance.multiplex_list[0].onid, 3);
    assert_eq!(instance.multiplex_list[0].delivery.frequency, 474);
    assert_eq!(instance.multiplex_list[0].service_list.len(), 1);
}

#[test]
fn a_section_of_another_name_changes_nothing() {
    let mut instance = with_one_multiplex();
    let before = instance.clone();
    for name in ["Multiplex", "dvb-t", "services", " service", "default"] {
        assert_eq!(parse_section(&mut instance, &section(name, &[("tsid", "x")])), Ok(()));
    }
    assert_eq!(instance, before);
}

#[test]
fn a_source_is_read_section_by_section() {
    let mut instance = Instance::new();
    let sections = vec![
        section("", &[("network_id", "7"), ("onid", "3"), ("network", "Cable North")]),
        section("multiplex", &[("tsid", "101")]),
        section("dvb-c", &[("frequency", "474"), ("symbolrate", "6875"), ("modulation", "QAM64")]),
        section("service", &[("pnr", "5001"), ("lcn", "12")]),
        section("service", &[("pnr", "5002"), ("type", "2")]),
        section("multiplex", &[("tsid", "202"), ("onid", "4"), ("enable", "false")]),
        section("dvb-c", &[("frequency", "482")]),
        section("service", &[("pnr", "6001")]),
    ];
    assert_eq!(parse_config(&mut instance, &sections), Ok(()));
    assert_eq!(instance.network_id, 7);
    assert_eq!(instance.onid, 3);
    assert_eq!(instance.network, "Cable North");
    assert_eq!(
        instance.multiplex_list,
        vec![
            Multiplex {
                tsid: 101,
                onid: 3,
                enable: true,
                delivery: Delivery {
                    frequency: 474,
                    symbol_rate: 6875,
                    fec: 0,
                    modulation: Modulation::Qam64,
                    fec_outer: 0,
                },
                service_list: vec![
                    Service { pnr: 5001, service_type: 1, lcn: 12, name: String::new() },
                    Service { pnr: 5002, service_type: 2, lcn: 0, name: String::new() },
                ],
            },
            Multiplex {
                tsid: 202,
                onid: 4,
                enable: false,
                delivery: Delivery {
                    frequency: 482,
                    symbol_rate: 0,
                    fec: 0,
                    modulation: Modulation::NotDefined,
                    fec_outer: 0,
                },
                service_list: vec![Service {
                    pnr: 6001,
                    service_type: 1,
                    lcn: 0,
                    name: String::new(),
                }],
            },
        ]
    );
    assert!(instance.is_valid());
}

#[test]
fn an_empty_source_leaves_the_network_as_it_was() {
    let mut instance = Instance::new();
    instance.nit_version = 9;
    assert_eq!(parse_config(&mut instance, &Vec::new()), Ok(()));
    assert_eq!(instance.nit_version, 9);
}

#[test]
fn a_multiplex_takes_the_onid_that_stands_when_its_section_is_read() {
    let mut instance = Instance::new();
    let sections = vec![
        section("multiplex", &[("tsid", "101")]),
        section("", &[("onid", "3")]),
        section("multiplex", &[("tsid", "202")]),
    ];
    assert_eq!(parse_config(&mut instance, &sections), Ok(()));
    assert_eq!(instance.multiplex_list[0].onid, 1);
    assert_eq!(instance.multiplex_list[1].onid, 3);
}

#[test]
fn the_first_fault_ends_the_loading() {
    let mut instance = Instance::new();
    let sections = vec![
        section("", &[("network_id", "7")]),
        section("service", &[("pnr", "5001")]),
        section("multiplex", &[("tsid", "101")]),
    ];
    assert_eq!(
        parse_config(&mut instance, &sections),
        Err(Error::Custom("multiplex section not found".to_string()))
    );
    assert_eq!(instance.network_id, 7);
    assert!(instance.multiplex_list.is_empty());
}

#[test]
fn a_number_fault_in_a_later_section_ends_the_loading_there() {
    let mut instance = Instance::new();
    let sections = vec![
        section("multiplex", &[("tsid", "101")]),
        section("service", &[("pnr", "")]),
        section("multiplex", &[("tsid", "202")]),
    ];
    assert_eq!(parse_config(&mut instance, &sections), Err(Error::ParseInt(IntError::Empty)));
    assert_eq!(instance.multiplex_list.len(), 1);
    assert!(instance.multiplex_list[0].service_list.is_empty());
}

#[test]
fn a_loaded_source_assembles_into_its_table() {
    let mut instance = Instance::new();
    let sections = vec![
        section("", &[("network_id", "7"), ("onid", "3")]),
        section("multiplex", &[("tsid", "101")]),
        section("dvb-c", &[("frequency", "474")]),
        section("service", &[("pnr", "5001"), ("type", "1"), ("lcn", "12")]),
        section("multiplex", &[("tsid", "202"), ("enable", "false")]),
    ];
    assert_eq!(parse_config(&mut instance, &sections), Ok(()));
    let table = assemble(&instance, ItemOrder::Insertion);
    assert_eq!(table.network_id, 7);
    assert_eq!(table.items.len(), 1);
    assert_eq!((table.items[0].tsid, table.items[0].onid), (101, 3));
    assert_eq!(
        table.items[0].descriptors,
        vec![
            Descriptor::CableDelivery {
                frequency: 474_000_000,
                fec_outer: 0,
                modulation: Modulation::NotDefined,
                symbol_rate: 0,
                fec: 0,
            },
            Descriptor::ServiceList { services: vec![(5001, 1)] },
            Descriptor::LogicalChannels { channels: vec![(5001, 1, 12)] },
        ]
    );
}

fn range_fault(message: &str) -> Result<(), Error> {
    Err(Error::Config(message.to_string()))
}

#[test]
fn a_multiplex_section_without_tsid_is_refused_and_adds_nothing() {
    let mut instance = with_one_multiplex();
    let before = instance.clone();
    assert_eq!(
        parse_multiplex(&mut instance, &section("multiplex", &[])),
        range_fault("tsid is required, in range 1 .. 65535")
    );
    assert_eq!(instance, before);
    assert_eq!(
        parse_multiplex(&mut instance, &section("multiplex", &[("onid", "5"), ("enable", "true")])),
        range_fault("tsid is required, in range 1 .. 65535")
    );
    assert_eq!(instance, before);
}

#[test]
fn a_multiplex_identifier_of_zero_is_refused() {
    let mut instance = Instance::new();
    assert_eq!(
        parse_multiplex(&mut instance, &section("multiplex", &[("tsid", "0")])),
        range_fault("tsid is required, in range 1 .. 65535")
    );
    assert_eq!(
        parse_multiplex(&mut instance, &section("multiplex", &[("tsid", "101"), ("onid", "0")])),
        range_fault("onid is out of range 1 .. 65535")
    );
    assert!(instance.multiplex_list.is_empty());
    assert_eq!(
        parse_multiplex(&mut instance, &section("multiplex", &[("tsid", "1"), ("onid", "1")])),
        Ok(())
    );
    assert_eq!(
        parse_multiplex(
            &mut instance,
            &section("multiplex", &[("tsid", "65535"), ("onid", "65535")])
        ),
        Ok(())
    );
    assert_eq!(instance.multiplex_list.len(), 2);
}

#[test]
fn a_multiplex_under_a_network_without_onid_is_refused() {
    let mut instance = Instance::new();
    instance.onid = 0;
    assert_eq!(
        parse_multiplex(&mut instance, &section("multiplex", &[("tsid", "101")])),
        range_fault("onid is out of range 1 .. 65535")
    );
    assert!(instance.multiplex_list.is_empty());
}

#[test]
fn a_service_section_without_pnr_is_refused_and_adds_nothing() {
    let mut instance = with_one_multiplex();
    let before = instance.clone();
    assert_eq!(
        parse_service(&mut instance, &section("service", &[])),
        range_fault("pnr is required, in range 1 .. 65535")
    );
    assert_eq!(
        parse_service(&mut instance, &section("service", &[("type", "1"), ("lcn", "12")])),
        range_fault("pnr is required, in range 1 .. 65535")
    );
    assert_eq!(
        parse_service(&mut instance, &section("service", &[("pnr", "0")])),
        range_fault("pnr is required, in range 1 .. 65535")
    );
    assert_eq!(instance, before);
}

#[test]
fn a_logical_channel_above_1000_is_refused() {
    let mut instance = with_one_multiplex();
    assert_eq!(
        parse_service(&mut instance, &section("service", &[("pnr", "1"), ("lcn", "1001")])),
        range_fault("lcn is out of range 0 .. 1000")
    );
    assert!(instance.multiplex_list[0].service_list.is_empty());
    assert_eq!(
        parse_service(&mut instance, &section("service", &[("pnr", "1"), ("lcn", "1000")])),
        Ok(())
    );
    assert_eq!(
        parse_service(&mut instance, &section("service", &[("pnr", "65535"), ("type", "255")])),
        Ok(())
    );
    assert_eq!(instance.multiplex_list[0].service_list.len(), 2);
}

#[test]
fn a_table_version_above_31_is_refused() {
    let mut instance = Instance::new();
    assert_eq!(
        parse_base(&mut instance, &section("", &[("nit_version", "32")])),
        range_fault("nit_version is out of range 0 .. 31")
    );
    assert_eq!(
        parse_base(&mut instance, &section("", &[("nit_version", "255")])),
        range_fault("nit_version is out of range 0 .. 31")
    );
    assert_eq!(parse_base(&mut instance, &section("", &[("nit_version", "31")])), Ok(()));
    assert_eq!(instance.nit_version, 31);
    assert_eq!(parse_base(&mut instance, &section("", &[("nit_version", "0")])), Ok(()));
    assert_eq!(instance.nit_version, 0);
}

#[test]
fn an_original_network_of_zero_is_refused() {
    let mut instance = Instance::new();
    assert_eq!(
        parse_base(&mut instance, &section("", &[("onid", "0")])),
        range_fault("onid is out of range 1 .. 65535")
    );
    assert_eq!(parse_base(&mut instance, &section("", &[("onid", "0"), ("onid", "2")])), Ok(()));
    assert_eq!(instance.onid, 2);
}

#[test]
fn a_network_identifier_of_zero_is_accepted() {
    let mut instance = Instance::new();
    assert_eq!(parse_base(&mut instance, &section("", &[("network_id", "0")])), Ok(()));
    assert_eq!(instance.network_id, 0);
}

#[test]
fn a_codepage_is_accepted_only_where_it_is_known() {
    for codepage in 0..=255u8 {
        let mut instance = Instance::new();
        let text = codepage.to_string();
        let known = codepage <= 11 || (13..=15).contains(&codepage) || codepage == 21;
        let expected =
            if known { Ok(()) } else { range_fault("codepage is not known") };
        assert_eq!(
            parse_base(&mut instance, &section("", &[("codepage", text.as_str())])),
            expected,
            "codepage {}",
            codepage
        );
    }
}

#[test]
fn the_first_number_out_of_range_is_named() {
    let mut instance = Instance::new();
    let base = section("", &[("codepage", "12"), ("onid", "0"), ("nit_version", "40")]);
    assert_eq!(
        parse_base(&mut instance, &base),
        range_fault("nit_version is out of range 0 .. 31")
    );
}

#[test]
fn an_inner_fec_above_15_is_refused() {
    let mut instance = with_one_multiplex();
    let before = instance.clone();
    assert_eq!(
        parse_dvb_c(&mut instance, &section("dvb-c", &[("frequency", "474"), ("fec", "16")])),
        range_fault("fec is out of range 0 .. 15")
    );
    assert_eq!(instance, before);
    assert_eq!(parse_dvb_c(&mut instance, &section("dvb-c", &[("fec", "15")])), Ok(()));
    assert_eq!(instance.multiplex_list[0].delivery.fec, 15);
}

#[test]
fn a_delivery_section_may_leave_every_key_out() {
    let mut instance = with_one_multiplex();
    assert_eq!(parse_dvb_c(&mut instance, &section("dvb-c", &[])), Ok(()));
    assert_eq!(instance.multiplex_list[0].delivery, Delivery::new());
}

#[test]
fn an_empty_multiplex_section_ends_the_loading() {
    let mut instance = Instance::new();
    let sections = vec![section("multiplex", &[])];
    assert_eq!(
        parse_config(&mut instance, &sections),
        range_fault("tsid is required, in range 1 .. 65535")
    );
    assert!(instance.multiplex_list.is_empty());
    assert!(instance.is_valid());
    assert!(assemble(&instance, ItemOrder::Insertion).items.is_empty());
}

#[test]
fn a_source_is_loaded_into_a_valid_network_with_its_output() {
    let sections = vec![
        section("", &[("output", "udp://239.255.1.1:10000"), ("network_id", "7"), ("onid", "3")]),
        section("multiplex", &[("tsid", "101")]),
        section("service", &[("pnr", "5001"), ("lcn", "12")]),
        section("multiplex", &[("tsid", "202"), ("enable", "false")]),
    ];
    let instance = load(&sections).unwrap();
    assert!(instance.is_valid());
    assert!(instance.output.is_open());
    assert_eq!(instance.output, Output::Udp("239.255.1.1:10000".to_string()));
    assert_eq!(instance.network_id, 7);
    assert_eq!(instance.multiplex_list.len(), 2);
    assert_eq!(instance.multiplex_list[0].onid, 3);
    assert_eq!(instance.multiplex_list[0].service_list.len(), 1);
}

#[test]
fn a_source_without_output_is_refused() {
    assert_eq!(load(&Vec::new()), Err(Error::Custom("output not defined".to_string())));
    let sections = vec![section("", &[("network_id", "7")]), section("multiplex", &[("tsid", "1")])];
    assert_eq!(load(&sections), Err(Error::Custom("output not defined".to_string())));
}

#[test]
fn a_fault_of_the_source_comes_before_the_missing_output() {
    let sections = vec![section("multiplex", &[])];
    assert_eq!(
        load(&sections),
        Err(Error::Config("tsid is required, in range 1 .. 65535".to_string()))
    );
    let sections = vec![section("", &[("output", "udp://a:1"), ("nit_version", "32")])];
    assert_eq!(
        load(&sections),
        Err(Error::Config("nit_version is out of range 0 .. 31".to_string()))
    );
    let sections = vec![section("", &[("output", "udp://a:1")]), section("service", &[("pnr", "1")])];
    assert_eq!(load(&sections), Err(Error::Custom("multiplex section not found".to_string())));
    let sections = vec![section("", &[("output", "udp://a:1")]), section("multiplex", &[("tsid", "x")])];
    assert_eq!(load(&sections), Err(Error::ParseInt(IntError::InvalidDigit)));
}

#[test]
fn loading_starts_from_the_defaults_every_time() {
    let sections = vec![section("", &[("output", "udp://a:1")])];
    let instance = load(&sections).unwrap();
    let mut expected = Instance::new();
    expected.output = Output::Udp("a:1".to_string());
    assert_eq!(instance, expected);
}
