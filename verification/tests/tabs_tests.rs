use ttrpg_tool::map::{DungeonMap, Room, RoomConnection, RoomContainer};
use ttrpg_tool::party::Party;
use ttrpg_tool::tabs::{CharacterSheetTab, DMTab, MapTab, PlayerTab, TabIcon, TabValue};

#[test]
fn character_sheet_tabs_in_order() {
    let all = CharacterSheetTab::iterate();
    assert_eq!(all.len(), 6);
    assert_eq!(all[0], CharacterSheetTab::Stats);
    assert_eq!(all[5], CharacterSheetTab::Notes);
    assert_eq!(CharacterSheetTab::Proficiencies.display(), "Proficiencies");
    assert_eq!(CharacterSheetTab::default(), CharacterSheetTab::Stats);
}

#[test]
fn dm_tab_titles() {
    let t = DMTab::PlayerCharacter("bob".to_owned(), "Hero".to_owned()).title();
    assert_eq!(t.text, "Hero (bob)");
    assert_eq!(t.icon, None);
    assert_eq!(DMTab::Player("bob".to_owned()).title().text, "Player (bob)");
    let c = DMTab::Combat.title();
    assert_eq!(c.icon, Some(TabIcon::Sword));
    assert_eq!(c.text, "");
    assert_eq!(DMTab::DiceRoller.title().text, "Dice Roller");
}

#[test]
fn map_tab_titles() {
    assert_eq!(MapTab::Room("A".to_owned()).title().text, "Room A");
    let t = MapTab::RoomItems("A".to_owned()).title();
    assert_eq!(t.icon, Some(TabIcon::Coins));
    assert_eq!(t.text, " (Room A)");
    assert_eq!(MapTab::Main.title().icon, Some(TabIcon::MapTrifold));
}

#[test]
fn player_tab_labels() {
    assert_eq!(PlayerTab::Character("Hero".to_owned()).label(), "Hero");
    assert_eq!(PlayerTab::CharacterGenerator.label(), "Character Generator");
}

#[test]
fn new_maps_and_parties_are_empty() {
    let m = DungeonMap::new();
    assert!(m.rooms.is_empty() && m.connections.is_empty() && m.name.is_empty());
    let r = Room::new();
    assert!(r.enemies.is_empty() && r.items.loose_items.is_empty());
    let c = RoomConnection::new();
    assert!(!c.passable && !c.locked && !c.one_way && c.trapped.is_none());
    assert!(RoomContainer::new().sections.is_empty());
    let p = Party::new();
    assert_eq!(p.color, [255, 255, 255, 255]);
    assert_eq!(p.temporary_xp, 0);
}
