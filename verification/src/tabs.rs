use vstd::prelude::*;
use vstd::string::*;

verus! {

/// A kind of tab that a tab bar lists.
pub trait TabValue: PartialEq + Sized + Copy {
    /// Returns a list of all tabs, in order.
    fn iterate() -> Vec<Self>;
    /// The display name of the tab.
    fn display(&self) -> String;
}

#[derive(Debug, Clone, Copy, PartialEq, Eq, Structural)]
pub enum CharacterSheetTab {
    Stats,
    Class,
    Inventory,
    Proficiencies,
    Spells,
    Notes,
}

impl CharacterSheetTab {
    pub open spec fn name(self) -> Seq<char> {
        match self {
            Self::Stats => "Stats"@,
            Self::Class => "Class"@,
            Self::Inventory => "Inventory"@,
            Self::Proficiencies => "Proficiencies"@,
            Self::Spells => "Spells"@,
            Self::Notes => "Notes"@,
        }
    }

    /// The tab a character sheet opens on.
    pub fn default() -> (t: Self)
        ensures
            t == CharacterSheetTab::Stats,
    {
        Self::Stats
    }
}

impl TabValue for CharacterSheetTab {
    fn iterate() -> (all: Vec<Self>)
        ensures
            all@ == seq![Self::Stats, Self::Class, Self::Inventory, Self::Proficiencies, Self::Spells, Self::Notes],
    {
        let all = vec![Self::Stats, Self::Class, Self::Inventory, Self::Proficiencies, Self::Spells, Self::Notes];
        assert(all@ =~= seq![Self::Stats, Self::Class, Self::Inventory, Self::Proficiencies, Self::Spells, Self::Notes]);
        all
    }

    fn display(&self) -> (s: String)
        ensures
            s@ == self.name(),
    {
        match self {
            Self::Stats => "Stats",
            Self::Class => "Class",
            Self::Inventory => "Inventory",
            Self::Proficiencies => "Proficiencies",
            Self::Spells => "Spells",
            Self::Notes => "Notes",
        }.to_owned()
    }
}

#[derive(Debug, Clone, Copy, PartialEq, Eq, Hash, Structural)]
pub enum TabCallbackMode {
    AddOrFocus,
    AddOrMove,
    Remove,
}

/// An icon of the interface's icon font.
#[derive(Debug, Clone, Copy, PartialEq, Eq, Hash, Structural)]
pub enum TabIcon {
    Sword,
    SneakerMove,
    ChatText,
    MapTrifold,
    Coins,
    DoorOpen,
}

/// A tab's title: an icon, if it has one, then text.
pub struct TabTitle {
    pub icon: Option<TabIcon>,
    pub text: String,
}

/// The tabs of the DM's window.
pub enum DMTab {
    DiceRoller,
    PlayerList,
    Player(String),
    PlayerCharacter(String, String),
    Chat,
    EnemyViewer,
    EnemyCreator,
    ItemViewer,
    ItemCreator,
    ProficiencyViewer,
    ProficiencyCreator,
    SpellViewer,
    SpellCreator,
    ClassViewer,
    ClassCreator,
    Combat,
    Parties,
    MapViewer,
    MapCreator,
}

impl DMTab {
    pub open spec fn title_icon(&self) -> Option<TabIcon> {
        match *self {
            DMTab::Combat => Some(TabIcon::Sword),
            DMTab::Chat => Some(TabIcon::ChatText),
            _ => None,
        }
    }

    pub open spec fn title_text(&self) -> Seq<char> {
        match *self {
            DMTab::DiceRoller => "Dice Roller"@,
            DMTab::PlayerList => "Player List"@,
            DMTab::EnemyViewer => "Enemy Viewer"@,
            DMTab::EnemyCreator => "Enemy Creator"@,
            DMTab::ItemViewer => "Item Viewer"@,
            DMTab::ItemCreator => "Item Creator"@,
            DMTab::ProficiencyViewer => "Proficiency Viewer"@,
            DMTab::ProficiencyCreator => "Proficiency Creator"@,
            DMTab::SpellViewer => "Spell Viewer"@,
            DMTab::SpellCreator => "Spell Creator"@,
            DMTab::ClassViewer => "Class Viewer"@,
            DMTab::ClassCreator => "Class Creator"@,
            DMTab::Parties => "Parties"@,
            DMTab::Combat => Seq::empty(),
            DMTab::Chat => Seq::empty(),
            DMTab::MapViewer => "Map Viewer"@,
            DMTab::MapCreator => "Map Creator"@,
            DMTab::PlayerCharacter(player, name) => name@ + " ("@ + player@ + ")"@,
            DMTab::Player(player) => "Player ("@ + player@ + ")"@,
        }
    }

    /// The title the tab shows.
    pub fn title(&self) -> (t: TabTitle)
        ensures
            t.icon == self.title_icon(),
            t.text@ == self.title_text(),
    {
        proof { reveal_strlit(" ("); reveal_strlit(")"); reveal_strlit("Player ("); }
        match self {
            DMTab::DiceRoller => TabTitle { icon: None, text: "Dice Roller".to_owned() },
            DMTab::PlayerList => TabTitle { icon: None, text: "Player List".to_owned() },
            DMTab::EnemyViewer => TabTitle { icon: None, text: "Enemy Viewer".to_owned() },
            DMTab::EnemyCreator => TabTitle { icon: None, text: "Enemy Creator".to_owned() },
            DMTab::ItemViewer => TabTitle { icon: None, text: "Item Viewer".to_owned() },
            DMTab::ItemCreator => TabTitle { icon: None, text: "Item Creator".to_owned() },
            DMTab::ProficiencyViewer => TabTitle { icon: None, text: "Proficiency Viewer".to_owned() },
            DMTab::ProficiencyCreator => TabTitle { icon: None, text: "Proficiency Creator".to_owned() },
            DMTab::SpellViewer => TabTitle { icon: None, text: "Spell Viewer".to_owned() },
            DMTab::SpellCreator => TabTitle { icon: None, text: "Spell Creator".to_owned() },
            DMTab::ClassViewer => TabTitle { icon: None, text: "Class Viewer".to_owned() },
            DMTab::ClassCreator => TabTitle { icon: None, text: "Class Creator".to_owned() },
            DMTab::Parties => TabTitle { icon: None, text: "Parties".to_owned() },
            DMTab::Combat => TabTitle { icon: Some(TabIcon::Sword), text: String::new() },
            DMTab::Chat => TabTitle { icon: Some(TabIcon::ChatText), text: String::new() },
            DMTab::MapViewer => TabTitle { icon: None, text: "Map Viewer".to_owned() },
            DMTab::MapCreator => TabTitle { icon: None, text: "Map Creator".to_owned() },
            DMTab::PlayerCharacter(player, name) => {
                let mut text = name.clone();
                text.append(" (");
                text.append(player.as_str());
                text.append(")");
                TabTitle { icon: None, text }
            },
            DMTab::Player(player) => {
                let mut text = "Player (".to_owned();
                text.append(player.as_str());
                text.append(")");
                TabTitle { icon: None, text }
            },
        }
    }
}

/// The tabs of a map's window.
pub enum MapTab {
    Main,
    Room(String),
    RoomEnemies(String),
    RoomItems(String),
    RoomConnections(String),
}

impl MapTab {
    pub open spec fn title_icon(&self) -> Option<TabIcon> {
        match *self {
            MapTab::Main => Some(TabIcon::MapTrifold),
            MapTab::Room(_) => None,
            MapTab::RoomEnemies(_) => Some(TabIcon::Sword),
            MapTab::RoomItems(_) => Some(TabIcon::Coins),
            MapTab::RoomConnections(_) => Some(TabIcon::DoorOpen),
        }
    }

    pub open spec fn title_text(&self) -> Seq<char> {
        match *self {
            MapTab::Main => Seq::empty(),
            MapTab::Room(room) => "Room "@ + room@,
            MapTab::RoomEnemies(room) => " (Room "@ + room@ + ")"@,
            MapTab::RoomItems(room) => " (Room "@ + room@ + ")"@,
            MapTab::RoomConnections(room) => " (Room "@ + room@ + ")"@,
        }
    }

    /// The title the tab shows.
    pub fn title(&self) -> (t: TabTitle)
        ensures
            t.icon == self.title_icon(),
            t.text@ == self.title_text(),
    {
        proof { reveal_strlit("Room "); reveal_strlit(" (Room "); reveal_strlit(")"); }
        match self {
            MapTab::Main => TabTitle { icon: Some(TabIcon::MapTrifold), text: String::new() },
            MapTab::Room(room) => {
                let mut text = "Room ".to_owned();
                text.append(room.as_str());
                TabTitle { icon: None, text }
            },
            MapTab::RoomEnemies(room) => TabTitle { icon: Some(TabIcon::Sword), text: in_room(room) },
            MapTab::RoomItems(room) => TabTitle { icon: Some(TabIcon::Coins), text: in_room(room) },
            MapTab::RoomConnections(room) => TabTitle { icon: Some(TabIcon::DoorOpen), text: in_room(room) },
        }
    }
}

fn in_room(room: &String) -> (s: String)
    ensures
        s@ == " (Room "@ + room@ + ")"@,
{
    let mut text = " (Room ".to_owned();
    text.append(room.as_str());
    text.append(")");
    text
}

/// The tabs of a player's window.
pub enum PlayerTab {
    Chat,
    Notes,
    Characters,
    Character(String),
    CharacterGenerator,
    ClassViewer,
    ProficiencyViewer,
    SpellViewer,
}

impl PlayerTab {
    pub open spec fn name(&self) -> Seq<char> {
        match *self {
            PlayerTab::Chat => "Chat"@,
            PlayerTab::Notes => "Notes"@,
            PlayerTab::Characters => "Characters"@,
            PlayerTab::Character(name) => name@,
            PlayerTab::CharacterGenerator => "Character Generator"@,
            PlayerTab::ClassViewer => "Class Viewer"@,
            PlayerTab::ProficiencyViewer => "Proficiency Viewer"@,
            PlayerTab::SpellViewer => "Spell Viewer"@,
        }
    }

    /// The title the tab shows.
    pub fn label(&self) -> (s: String)
        ensures
            s@ == self.name(),
    {
        match self {
            PlayerTab::Chat => "Chat".to_owned(),
            PlayerTab::Notes => "Notes".to_owned(),
            PlayerTab::Characters => "Characters".to_owned(),
            PlayerTab::Character(name) => name.clone(),
            PlayerTab::CharacterGenerator => "Character Generator".to_owned(),
            PlayerTab::ClassViewer => "Class Viewer".to_owned(),
            PlayerTab::ProficiencyViewer => "Proficiency Viewer".to_owned(),
            PlayerTab::SpellViewer => "Spell Viewer".to_owned(),
        }
    }
}

} // verus!
