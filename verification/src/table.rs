//! The table assembler: from the entity model to the one table object that
//! describes the network.

use crate::descriptor::{
    attached, build_delivery, build_logical_channels, build_network_name, build_service_list,
    delivery_descriptor, logical_channel_descriptor, network_name_descriptor,
    service_list_descriptor, Descriptor, DescriptorView,
};
use crate::model::{lemma_views_push, views, Instance, InstanceView, Multiplex, MultiplexView};
use crate::order::{
    lemma_sort_ascending, lemma_sort_permutes, ordered, sort_items, ItemOrder,
};
use vstd::prelude::*;
use vstd::seq_lib::to_multiset_contains;

verus! {

/// The table identifier of a Network Information Table of the actual network.
pub const NIT_TABLE_ID: u8 = 0x40;

/// The packet identifier on which the Network Information Table is carried.
pub const NIT_PID: u16 = 0x0010;

/// One item of the table: one multiplex of the network.
#[derive(Debug, Clone, PartialEq, Eq)]
pub struct TableItem {
    pub tsid: u16,
    pub onid: u16,
    pub descriptors: Vec<Descriptor>,
}

/// The mathematical value of a [`TableItem`].
pub struct TableItemView {
    pub tsid: u16,
    pub onid: u16,
    pub descriptors: Seq<DescriptorView>,
}

impl View for TableItem {
    type V = TableItemView;

    open spec fn view(&self) -> TableItemView {
        TableItemView { tsid: self.tsid, onid: self.onid, descriptors: views(self.descriptors@) }
    }
}

/// The Network Information Table as an object, before it is encoded.
#[derive(Debug, Clone, PartialEq, Eq)]
pub struct Table {
    pub table_id: u8,
    pub version: u8,
    pub network_id: u16,
    pub descriptors: Vec<Descriptor>,
    pub items: Vec<TableItem>,
}

/// The mathematical value of a [`Table`].
pub struct TableView {
    pub table_id: u8,
    pub version: u8,
    pub network_id: u16,
    pub descriptors: Seq<DescriptorView>,
    pub items: Seq<TableItemView>,
}

impl View for Table {
    type V = TableView;

    open spec fn view(&self) -> TableView {
        TableView {
            table_id: self.table_id,
            version: self.version,
            network_id: self.network_id,
            descriptors: views(self.descriptors@),
            items: views(self.items@),
        }
    }
}

/// The descriptors of the item of a multiplex: its delivery descriptor, then,
/// where it carries a service, its service list and its logical channels.
pub open spec fn item_descriptors(multiplex: MultiplexView) -> Seq<DescriptorView> {
    seq![delivery_descriptor(multiplex.delivery)] + attached(
        service_list_descriptor(multiplex.services),
    ) + attached(logical_channel_descriptor(multiplex.services))
}

/// The table item of a multiplex.
pub open spec fn item_of(multiplex: MultiplexView) -> TableItemView {
    TableItemView {
        tsid: multiplex.tsid,
        onid: multiplex.onid,
        descriptors: item_descriptors(multiplex),
    }
}

/// The enabled multiplexes among `multiplexes`, in order.
pub open spec fn enabled(multiplexes: Seq<MultiplexView>) -> Seq<MultiplexView> {
    multiplexes.filter(|m: MultiplexView| m.enable)
}

/// One table item for each enabled multiplex, in the order of the model.
pub open spec fn items_of(multiplexes: Seq<MultiplexView>) -> Seq<TableItemView> {
    enabled(multiplexes).map_values(|m: MultiplexView| item_of(m))
}

/// The table of a network, its items in the order that `order` names.
pub open spec fn table_of(instance: InstanceView, order: ItemOrder) -> TableView {
    TableView {
        table_id: NIT_TABLE_ID,
        version: instance.nit_version,
        network_id: instance.network_id,
        descriptors: attached(network_name_descriptor(instance)),
        items: ordered(items_of(instance.multiplexes), order),
    }
}

/// What one more multiplex at the end of the model adds to the items.
pub proof fn lemma_items_of_push(multiplexes: Seq<MultiplexView>, last: MultiplexView)
    ensures
        items_of(multiplexes.push(last)) == if last.enable {
            items_of(multiplexes).push(item_of(last))
        } else {
            items_of(multiplexes)
        },
{
    reveal(Seq::filter);
    let all = multiplexes.push(last);
    assert(all.drop_last() == multiplexes);
    assert(all.last() == last);
    if last.enable {
        assert(enabled(all) == enabled(multiplexes).push(last));
        assert(items_of(all) =~= items_of(multiplexes).push(item_of(last)));
    } else {
        assert(enabled(all) == enabled(multiplexes));
    }
}

/// Every item that `items_of` yields is the item of an enabled multiplex.
pub proof fn lemma_items_come_from_enabled(multiplexes: Seq<MultiplexView>, item: TableItemView)
    requires
        items_of(multiplexes).contains(item),
    ensures
        exists|j: int|
            0 <= j < multiplexes.len() && (#[trigger] multiplexes[j]).enable && item == item_of(
                multiplexes[j],
            ),
{
    let on = |m: MultiplexView| m.enable;
    let k = choose|k: int| 0 <= k < items_of(multiplexes).len() && items_of(multiplexes)[k] == item;
    let source = enabled(multiplexes)[k];
    multiplexes.lemma_filter_pred(on, k);
    assert(enabled(multiplexes).contains(source));
    multiplexes.lemma_filter_contains_rev(on, source);
    let j = choose|j: int| 0 <= j < multiplexes.len() && multiplexes[j] == source;
    assert(multiplexes[j].enable && item == item_of(multiplexes[j]));
}

/// The table has as many items as the model has enabled multiplexes, and
/// each of its items is the item of an enabled multiplex: a multiplex that is
/// not enabled has none. This holds in either order.
pub proof fn lemma_one_item_per_enabled_multiplex(instance: InstanceView, order: ItemOrder)
    ensures
        table_of(instance, order).items.len() == enabled(instance.multiplexes).len(),
        table_of(instance, order).items.to_multiset() == items_of(
            instance.multiplexes,
        ).to_multiset(),
        forall|k: int|
            0 <= k < table_of(instance, order).items.len() ==> exists|j: int|
                0 <= j < instance.multiplexes.len() && (#[trigger] instance.multiplexes[j]).enable
                    && (#[trigger] table_of(instance, order).items[k]) == item_of(
                    instance.multiplexes[j],
                ),
{
    let all = items_of(instance.multiplexes);
    let items = table_of(instance, order).items;
    lemma_sort_ascending(all);
    lemma_sort_permutes(all);
    assert forall|k: int| 0 <= k < items.len() implies exists|j: int|
        0 <= j < instance.multiplexes.len() && (#[trigger] instance.multiplexes[j]).enable && (
        #[trigger] items[k]) == item_of(instance.multiplexes[j]) by {
        assert(items.contains(items[k]));
        to_multiset_contains(items, items[k]);
        to_multiset_contains(all, items[k]);
        lemma_items_come_from_enabled(instance.multiplexes, items[k]);
    }
}

/// The item of a multiplex that carries a service has three descriptors, in
/// this order: delivery, service list, logical channels. The item of a
/// multiplex without services has its delivery descriptor and nothing else.
pub proof fn lemma_item_descriptors(multiplex: MultiplexView)
    ensures
        multiplex.services.len() > 0 ==> item_of(multiplex).descriptors == seq![
            delivery_descriptor(multiplex.delivery),
            service_list_descriptor(multiplex.services)->0,
            logical_channel_descriptor(multiplex.services)->0,
        ],
        multiplex.services.len() == 0 ==> item_of(multiplex).descriptors == seq![
            delivery_descriptor(multiplex.delivery),
        ],
        forall|i: int|
            0 <= i < item_of(multiplex).descriptors.len() && (item_of(multiplex).descriptors[i]
                is ServiceList || item_of(multiplex).descriptors[i] is LogicalChannels)
                ==> multiplex.services.len() > 0,
{
    if multiplex.services.len() > 0 {
        assert(item_of(multiplex).descriptors =~= seq![
            delivery_descriptor(multiplex.delivery),
            service_list_descriptor(multiplex.services)->0,
            logical_channel_descriptor(multiplex.services)->0,
        ]);
    } else {
        assert(item_of(multiplex).descriptors =~= seq![delivery_descriptor(multiplex.delivery)]);
    }
}

/// Assembling again from a model that has not changed yields the same table.
pub proof fn lemma_assembly_repeats(
    instance: InstanceView,
    order: ItemOrder,
    first: TableView,
    second: TableView,
)
    requires
        first == table_of(instance, order),
        second == table_of(instance, order),
    ensures
        first == second,
{
}

/// Builds the table item of a multiplex.
pub fn build_item(multiplex: &Multiplex) -> (item: TableItem)
    ensures
        item@ == item_of(multiplex@),
{
    let mut descriptors: Vec<Descriptor> = Vec::new();
    descriptors.push(build_delivery(&multiplex.delivery));
    match build_service_list(&multiplex.service_list) {
        Some(descriptor) => descriptors.push(descriptor),
        None => {},
    }
    match build_logical_channels(&multiplex.service_list) {
        Some(descriptor) => descriptors.push(descriptor),
        None => {},
    }
    assert(views(descriptors@) =~= item_descriptors(multiplex@));
    TableItem { tsid: multiplex.tsid, onid: multiplex.onid, descriptors }
}

/// Assembles the table of a network: one item for each enabled multiplex, in
/// the order that `order` names; a multiplex that is not enabled leaves no
/// trace.
pub fn assemble(instance: &Instance, order: ItemOrder) -> (table: Table)
    ensures
        table@ == table_of(instance@, order),
{
    let mut descriptors: Vec<Descriptor> = Vec::new();
    match build_network_name(instance) {
        Some(descriptor) => descriptors.push(descriptor),
        None => {},
    }
    assert(views(descriptors@) =~= attached(network_name_descriptor(instance@)));
    let mut items: Vec<TableItem> = Vec::new();
    let mut i: usize = 0;
    assert(instance@.multiplexes.take(0) =~= Seq::empty());
    assert(views(items@) =~= items_of(Seq::empty())) by {
        reveal(Seq::filter);
    }
    while i < instance.multiplex_list.len()
        invariant
            i <= instance.multiplex_list.len(),
            views(items@) == items_of(instance@.multiplexes.take(i as int)),
        decreases instance.multiplex_list.len() - i,
    {
        let multiplex = &instance.multiplex_list[i];
        proof {
            let before = instance@.multiplexes.take(i as int);
            lemma_items_of_push(before, multiplex@);
            assert(instance@.multiplexes.take(i + 1) == before.push(multiplex@));
        }
        if multiplex.enable {
            let item = build_item(multiplex);
            proof {
                lemma_views_push(items@, item);
            }
            items.push(item);
        }
        i += 1;
    }
    assert(instance@.multiplexes.take(i as int) == instance@.multiplexes);
    let items = match order {
        ItemOrder::Insertion => items,
        ItemOrder::Tsid => sort_items(items),
    };
    Table {
        table_id: NIT_TABLE_ID,
        version: instance.nit_version,
        network_id: instance.network_id,
        descriptors,
        items,
    }
}

} // verus!
