use ttrpg_tool::chat::{ChatMessage, MessageColor, MessageSender, VAlign};
use ttrpg_tool::combat::{saving_throw_message, SavingThrowType};
use ttrpg_tool::commands::{command_readable, parse_command, tokenize, CommandAction, CommandContext, Tone};
use ttrpg_tool::dice::{DiceRoll, Drop, ModifierType};

fn context() -> CommandContext {
    CommandContext {
        known_users: vec!["alice".to_owned(), "bob".to_owned()],
        connected_users: vec!["alice".to_owned()],
        characters: vec![("bob".to_owned(), vec!["Hero".to_owned()])],
    }
}

fn log_line(a: &CommandAction) -> (String, Tone) {
    match a {
        CommandAction::Log(n) => {
            assert!(n.private);
            (n.text.clone(), n.tone)
        },
        _ => panic!("not a log line"),
    }
}

#[test]
fn tokens_keep_quoted_spaces() {
    let t = tokenize("/say \"hello world\" x");
    assert_eq!(t, vec!["say".to_owned(), "hello world".to_owned(), "x".to_owned()]);
}

#[test]
fn tokens_skip_the_leading_character() {
    assert_eq!(tokenize("/roll pub 2d6"), vec!["roll".to_owned(), "pub".to_owned(), "2d6".to_owned()]);
}

#[test]
fn roll_command_reads_notation() {
    let out = parse_command("/r 2d6+3", &context());
    assert_eq!(out.len(), 1);
    match &out[0] {
        CommandAction::Roll(public, roll) => {
            assert!(!public);
            assert_eq!(*roll, DiceRoll { amount: 2, sides: 6, modifier: 3, modifier_type: ModifierType::Add,
                apply_modifier_to_all: false, drop: Drop::Nothing, min_value: 1 });
        },
        _ => panic!("expected a roll"),
    }
}

#[test]
fn public_roll_is_public() {
    let out = parse_command("/roll pub d20", &context());
    match &out[0] {
        CommandAction::Roll(public, roll) => {
            assert!(*public);
            assert_eq!(roll.sides, 20);
            assert_eq!(roll.amount, 1);
        },
        _ => panic!("expected a roll"),
    }
}

#[test]
fn roll_without_notation_is_refused() {
    let out = parse_command("/r", &context());
    assert_eq!(log_line(&out[0]), ("You must enter dice notation. Run /help roll for more info.".to_owned(), Tone::LightRed));
    let out = parse_command("/r priv", &context());
    assert_eq!(log_line(&out[0]).0, "You must enter dice notation. Run /help roll for more info.");
}

#[test]
fn roll_with_bad_notation_reports_the_error() {
    let out = parse_command("/r 0d6", &context());
    assert_eq!(log_line(&out[0]), ("Error: Cannot roll zero dice.".to_owned(), Tone::LightRed));
}

#[test]
fn overflowing_roll_is_unreadable() {
    assert!(!command_readable("/r 1d6-2147483648"));
    assert!(!command_readable("/roll pub 1d6>2147483647"));
    assert!(command_readable("/r 1d6>=2147483647"));
    assert!(command_readable("/say 1d6-2147483648"));
    assert!(DiceRoll::notation_overflows("1d6>-2147483648"));
    assert!(!DiceRoll::notation_overflows("1d6-2147483647"));
}

#[test]
fn xp_command_awards_experience() {
    let out = parse_command("/xp bob Hero 100", &context());
    assert_eq!(out.len(), 2);
    match &out[0] {
        CommandAction::AddXp(u, c, a) => {
            assert_eq!(u, "bob");
            assert_eq!(c, "Hero");
            assert_eq!(*a, 100);
        },
        _ => panic!("expected an award"),
    }
    assert_eq!(log_line(&out[1]), ("Added XP".to_owned(), Tone::Green));
}

#[test]
fn xp_command_refuses_bad_input() {
    let out = parse_command("/xp bob Hero abc", &context());
    assert_eq!(log_line(&out[0]).0, "The token \"abc\" could not be interpreted as a number.");
    let out = parse_command("/xp bob Villain 5", &context());
    assert_eq!(log_line(&out[0]).0,
        "The character \"Villain\" doesn't appear to exist. If their name contains a space, remember to wrap it in \"quotes\".");
    let out = parse_command("/xp carol Hero 5", &context());
    assert_eq!(log_line(&out[0]).0,
        "The user \"carol\" doesn't appear to exist. If their name contains a space, remember to wrap it in \"quotes\".");
    let out = parse_command("/xp", &context());
    assert_eq!(log_line(&out[0]).0, "You must specify a user.");
    let out = parse_command("/xp bob", &context());
    assert_eq!(log_line(&out[0]), ("You must specify a character.".to_owned(), Tone::Plain));
    let out = parse_command("/xp bob Hero", &context());
    assert_eq!(log_line(&out[0]).0, "You must specify an amount of XP to add.");
}

#[test]
fn user_kick_needs_a_connected_user() {
    let out = parse_command("/user alice kick", &context());
    match &out[0] {
        CommandAction::Kick(u) => assert_eq!(u, "alice"),
        _ => panic!("expected a kick"),
    }
    let out = parse_command("/user bob kick", &context());
    assert_eq!(log_line(&out[0]).0, "The user \"bob\" is not connected.");
    let out = parse_command("/user bob", &context());
    assert_eq!(log_line(&out[0]).0, "You must specify a command. What are you trying to do with \"bob\"?");
    let out = parse_command("/user bob wave", &context());
    assert_eq!(log_line(&out[0]).0, "Unknown command \"wave\".");
}

#[test]
fn unknown_command_is_named() {
    let out = parse_command("/frob", &context());
    assert_eq!(out.len(), 1);
    assert_eq!(log_line(&out[0]), ("Unknown command \"frob\".".to_owned(), Tone::LightRed));
}

#[test]
fn help_lists_commands() {
    let out = parse_command("/help", &context());
    assert_eq!(log_line(&out[0]).0,
        "List of all known commands (run /help <command> for more info):\n- help\n- kick\n- known_users\n- players\n- save\n- load\n- xp\n- roll");
    let out = parse_command("/help roll", &context());
    assert_eq!(out.len(), 13);
    assert_eq!(log_line(&out[12]), ("/roll <visibility> <string>".to_owned(), Tone::White));
}

#[test]
fn save_and_load() {
    assert!(matches!(parse_command("/save", &context())[0], CommandAction::Save));
    assert!(matches!(parse_command("/load", &context())[0], CommandAction::Load));
}

#[test]
fn player_lists() {
    let empty = CommandContext { known_users: vec![], connected_users: vec![], characters: vec![] };
    let out = parse_command("/players", &empty);
    assert_eq!(out.len(), 1);
    assert_eq!(log_line(&out[0]).0, "There are no connected players!");
    let out = parse_command("/known_users", &context());
    assert_eq!(out.len(), 3);
    assert_eq!(log_line(&out[2]).0, "List of all known users:");
}

#[test]
fn say_reads_options_and_text() {
    let out = parse_command("/say -i -c #00FFAA \"hi there\"", &context());
    assert_eq!(out.len(), 1);
    match &out[0] {
        CommandAction::Say(m) => {
            assert_eq!(m.text, "hi there");
            assert!(m.italics);
            assert!(!m.underline);
            assert_eq!(m.color, Some((0, 255, 170)));
            assert!(matches!(m.sender, MessageSender::Nobody));
        },
        _ => panic!("expected a message"),
    }
}

#[test]
fn say_refuses_bad_color_and_missing_text() {
    let out = parse_command("/say -c zz hello", &context());
    assert_eq!(log_line(&out[0]).0, "Token \"zz\" is not a valid color.");
    let out = parse_command("/say -u", &context());
    assert_eq!(log_line(&out[0]).0, "You must provide text. Make sure to put it in \"quotes\".");
}

#[test]
fn chat_messages_are_built_up() {
    let m = ChatMessage::player("bob".to_owned(), "hi".to_owned()).italics().private().red();
    assert_eq!(m.message, "hi");
    assert!(matches!(m.sender, MessageSender::Player(ref p) if p == "bob"));
    assert!(m.italics && !m.underline);
    assert!(m.flags.private && !m.flags.dice_roll);
    assert_eq!(m.color, MessageColor::Red);
    assert_eq!(m.valign, VAlign::Bottom);
    let d = ChatMessage::default();
    assert_eq!(d.color, MessageColor::Gray);
    assert!(d.size.is_none());
    assert!(matches!(d.sender, MessageSender::Nobody));
    let s = ChatMessage::server("x".to_owned()).size("20".to_owned()).valign(VAlign::Top).combat().blue();
    assert_eq!(s.size, Some("20".to_owned()));
    assert_eq!(s.valign, VAlign::Top);
    assert!(s.flags.combat);
    assert_eq!(s.color, MessageColor::Blue);
}

#[test]
fn saving_throw_lines() {
    let made = saving_throw_message(&"Hero".to_owned(), SavingThrowType::PoisonDeath, true);
    assert_eq!(made.message, "Hero successfully made a saving throw against Poison & Death!");
    assert_eq!(made.color, MessageColor::LightGreen);
    assert!(made.flags.dice_roll);
    let failed = saving_throw_message(&"Hero".to_owned(), SavingThrowType::Spells, false);
    assert_eq!(failed.message, "Hero failed a saving throw against Spells!");
    assert_eq!(failed.color, MessageColor::LightRed);
}
