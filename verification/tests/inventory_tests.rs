use ttrpg_tool::inventory::{PlayerEquipSlot, PlayerInventory};
use ttrpg_tool::item::{Encumbrance, Item, ItemType};

fn thing(name: &str, encumbrance: Encumbrance, count: u32) -> Item {
    let mut t = ItemType::default();
    t.name = name.to_owned();
    t.encumbrance = encumbrance;
    Item::from_type(t, count)
}

#[test]
fn weight_follows_the_items() {
    let mut inv = PlayerInventory::empty();
    assert_eq!(inv.total_weight(), 0);
    inv.add(thing("rope", Encumbrance::OneSixth, 2));
    assert_eq!(inv.total_weight(), 2000);
    inv.add(thing("armor", Encumbrance::VeryHeavy(2), 1));
    assert_eq!(inv.total_weight(), 14000);
    let removed = inv.remove(0).unwrap();
    assert_eq!(removed.item_type.name, "rope");
    assert_eq!(inv.total_weight(), 12000);
    assert!(inv.remove(5).is_none());
}

#[test]
fn coins_join_their_stack() {
    let mut inv = PlayerInventory::empty();
    inv.add(Item::from_type(ItemType::gold(), 10));
    inv.add(thing("rope", Encumbrance::OneSixth, 1));
    inv.add(Item::from_type(ItemType::gold(), 5));
    assert_eq!(inv.items().len(), 2);
    assert_eq!(inv.items()[0].count, 15);
    assert_eq!(inv.total_weight(), 15 * 6 + 1000);
    assert_eq!(inv.get_equip_slot(PlayerEquipSlot::GP).unwrap().count, 15);
    assert!(inv.get_equip_slot(PlayerEquipSlot::SP).is_none());
}

#[test]
fn slots_follow_moves_and_removals() {
    let mut inv = PlayerInventory::empty();
    inv.add(thing("a", Encumbrance::Negligible, 1));
    inv.add(thing("b", Encumbrance::Negligible, 1));
    inv.add(thing("c", Encumbrance::Negligible, 1));
    inv.equip(PlayerEquipSlot::RightHand, 2);
    inv.move_up(2);
    assert_eq!(inv.items()[1].item_type.name, "c");
    assert_eq!(inv.get_equip_slot(PlayerEquipSlot::RightHand).unwrap().item_type.name, "c");
    inv.move_down(1);
    assert_eq!(inv.items()[2].item_type.name, "c");
    assert_eq!(inv.is_equipped(2), Some(PlayerEquipSlot::RightHand));
    inv.remove(0);
    assert_eq!(inv.is_equipped(1), Some(PlayerEquipSlot::RightHand));
    inv.remove(1);
    assert_eq!(inv.is_equipped(1), None);
    assert!(inv.get_equip_slot(PlayerEquipSlot::RightHand).is_none());
}

#[test]
fn moving_down_then_up_restores_the_order() {
    let mut inv = PlayerInventory::empty();
    inv.add(thing("a", Encumbrance::OneHalf, 1));
    inv.add(thing("b", Encumbrance::OneStone, 1));
    inv.move_down(0);
    inv.move_up(1);
    assert_eq!(inv.items()[0].item_type.name, "a");
    assert_eq!(inv.items()[1].item_type.name, "b");
    assert_eq!(inv.total_weight(), 9000);
}

#[test]
fn equipping_hands() {
    let mut inv = PlayerInventory::empty();
    inv.add(thing("sword", Encumbrance::OneSixth, 1));
    inv.add(thing("shield", Encumbrance::OneSixth, 1));
    inv.equip(PlayerEquipSlot::BothHands, 0);
    assert_eq!(inv.is_equipped(0), Some(PlayerEquipSlot::BothHands));
    inv.equip(PlayerEquipSlot::LeftHand, 1);
    assert_eq!(inv.is_equipped(0), Some(PlayerEquipSlot::RightHand));
    assert_eq!(inv.is_equipped(1), Some(PlayerEquipSlot::LeftHand));
    inv.unequip(PlayerEquipSlot::RightHand);
    assert_eq!(inv.is_equipped(0), None);
    inv.equip(PlayerEquipSlot::Armor, 1);
    assert_eq!(inv.get_equip_slot(PlayerEquipSlot::Armor).unwrap().item_type.name, "shield");
    assert_eq!(PlayerEquipSlot::BothHands.label(), "Both Hands");
}

#[test]
fn worn_clothes_are_items() {
    let mut inv = PlayerInventory::empty();
    inv.add(thing("cloak", Encumbrance::OneSixth, 1));
    inv.clothes.push(0);
    inv.clothes.push(7);
    assert_eq!(inv.worn_clothes(), vec![0]);
}
