use vstd::prelude::*;

verus! {

/// The kinds a chat message can be marked with.
#[derive(Debug, Clone, Copy, PartialEq, Eq, Structural)]
pub struct ChatFlags {
    pub private: bool,
    pub dice_roll: bool,
    pub combat: bool,
    pub parties: bool,
}

impl Default for ChatFlags {
    fn default() -> (f: Self)
        ensures
            f == (ChatFlags { private: false, dice_roll: false, combat: false, parties: false }),
    {
        Self { private: false, dice_roll: false, combat: false, parties: false }
    }
}

/// Who a chat message is shown as coming from.
pub enum MessageSender {
    Server,
    Player(String),
    /// Nobody: the message is shown without a sender.
    Nobody,
}

/// Who a chat message comes from, by name.
pub enum SenderView {
    Server,
    Player(Seq<char>),
    Nobody,
}

impl View for MessageSender {
    type V = SenderView;

    open spec fn view(&self) -> SenderView {
        match *self {
            MessageSender::Server => SenderView::Server,
            MessageSender::Player(name) => SenderView::Player(name@),
            MessageSender::Nobody => SenderView::Nobody,
        }
    }
}

/// The vertical alignment of a chat message's text.
#[derive(Debug, Clone, Copy, PartialEq, Eq, Structural)]
pub enum VAlign {
    Top,
    Center,
    Bottom,
}

/// The color of a chat message's text: one of the named colors of the chat, or red, green and blue.
#[derive(Debug, Clone, Copy, PartialEq, Eq, Structural)]
pub enum MessageColor {
    /// The chat's usual color.
    Gray,
    White,
    Red,
    LightRed,
    Green,
    LightGreen,
    Blue,
    Rgb(u8, u8, u8),
}

/// A message in the chat log, with how it is shown.
pub struct ChatMessage {
    pub message: String,
    pub sender: MessageSender,
    pub flags: ChatFlags,
    pub color: MessageColor,
    /// The size of the text as written, when it is not the usual one.
    pub size: Option<String>,
    pub italics: bool,
    pub strikethrough: bool,
    pub underline: bool,
    pub valign: VAlign,
}

/// A chat message as plain values.
pub struct MessageView {
    pub message: Seq<char>,
    pub sender: SenderView,
    pub flags: ChatFlags,
    pub color: MessageColor,
    pub size: Option<Seq<char>>,
    pub italics: bool,
    pub strikethrough: bool,
    pub underline: bool,
    pub valign: VAlign,
}

impl View for ChatMessage {
    type V = MessageView;

    open spec fn view(&self) -> MessageView {
        MessageView {
            message: self.message@,
            sender: self.sender@,
            flags: self.flags,
            color: self.color,
            size: match self.size { Some(t) => Some(t@), None => None },
            italics: self.italics,
            strikethrough: self.strikethrough,
            underline: self.underline,
            valign: self.valign,
        }
    }
}

/// A message with the usual look: gray, of the usual size, at the bottom, with no flag.
pub open spec fn plain_message(sender: SenderView, message: Seq<char>) -> MessageView {
    MessageView {
        message,
        sender,
        flags: ChatFlags { private: false, dice_roll: false, combat: false, parties: false },
        color: MessageColor::Gray,
        size: None,
        italics: false,
        strikethrough: false,
        underline: false,
        valign: VAlign::Bottom,
    }
}

impl Default for ChatMessage {
    fn default() -> (m: Self)
        ensures
            m@ == plain_message(SenderView::Nobody, Seq::empty()),
    {
        ChatMessage::new(MessageSender::Nobody, String::new())
    }
}

impl ChatMessage {
    pub fn new(sender: MessageSender, message: String) -> (m: Self)
        ensures
            m@ == plain_message(sender@, message@),
    {
        ChatMessage {
            message,
            sender,
            flags: ChatFlags::default(),
            color: MessageColor::Gray,
            size: None,
            italics: false,
            strikethrough: false,
            underline: false,
            valign: VAlign::Bottom,
        }
    }

    /// A message from the server.
    pub fn server(message: String) -> (m: Self)
        ensures
            m@ == plain_message(SenderView::Server, message@),
    {
        Self::new(MessageSender::Server, message)
    }

    /// A message from a player.
    pub fn player(player: String, message: String) -> (m: Self)
        ensures
            m@ == plain_message(SenderView::Player(player@), message@),
    {
        Self::new(MessageSender::Player(player), message)
    }

    /// A message shown without a sender.
    pub fn no_sender(message: String) -> (m: Self)
        ensures
            m@ == plain_message(SenderView::Nobody, message@),
    {
        Self::new(MessageSender::Nobody, message)
    }

    pub fn color(self, color: MessageColor) -> (m: Self)
        ensures
            m@ == (MessageView { color, ..self@ }),
    {
        ChatMessage { color, ..self }
    }

    pub fn size(self, size: String) -> (m: Self)
        ensures
            m@ == (MessageView { size: Some(size@), ..self@ }),
    {
        ChatMessage { size: Some(size), ..self }
    }

    pub fn valign(self, valign: VAlign) -> (m: Self)
        ensures
            m@ == (MessageView { valign, ..self@ }),
    {
        ChatMessage { valign, ..self }
    }

    pub fn italics(self) -> (m: Self)
        ensures
            m@ == (MessageView { italics: true, ..self@ }),
    {
        ChatMessage { italics: true, ..self }
    }

    pub fn strikethrough(self) -> (m: Self)
        ensures
            m@ == (MessageView { strikethrough: true, ..self@ }),
    {
        ChatMessage { strikethrough: true, ..self }
    }

    pub fn underline(self) -> (m: Self)
        ensures
            m@ == (MessageView { underline: true, ..self@ }),
    {
        ChatMessage { underline: true, ..self }
    }

    /// Marks the message as shown to the DM only.
    pub fn private(self) -> (m: Self)
        ensures
            m@ == (MessageView { flags: ChatFlags { private: true, ..self.flags }, ..self@ }),
    {
        let flags = ChatFlags { private: true, ..self.flags };
        ChatMessage { flags, ..self }
    }

    pub fn dice_roll(self) -> (m: Self)
        ensures
            m@ == (MessageView { flags: ChatFlags { dice_roll: true, ..self.flags }, ..self@ }),
    {
        let flags = ChatFlags { dice_roll: true, ..self.flags };
        ChatMessage { flags, ..self }
    }

    pub fn combat(self) -> (m: Self)
        ensures
            m@ == (MessageView { flags: ChatFlags { combat: true, ..self.flags }, ..self@ }),
    {
        let flags = ChatFlags { combat: true, ..self.flags };
        ChatMessage { flags, ..self }
    }

    pub fn parties(self) -> (m: Self)
        ensures
            m@ == (MessageView { flags: ChatFlags { parties: true, ..self.flags }, ..self@ }),
    {
        let flags = ChatFlags { parties: true, ..self.flags };
        ChatMessage { flags, ..self }
    }

    pub fn strong(self) -> (m: Self)
        ensures
            m@ == (MessageView { color: MessageColor::White, ..self@ }),
    {
        self.color(MessageColor::White)
    }

    pub fn red(self) -> (m: Self)
        ensures
            m@ == (MessageView { color: MessageColor::Red, ..self@ }),
    {
        self.color(MessageColor::Red)
    }

    pub fn light_red(self) -> (m: Self)
        ensures
            m@ == (MessageView { color: MessageColor::LightRed, ..self@ }),
    {
        self.color(MessageColor::LightRed)
    }

    pub fn green(self) -> (m: Self)
        ensures
            m@ == (MessageView { color: MessageColor::Green, ..self@ }),
    {
        self.color(MessageColor::Green)
    }

    pub fn light_green(self) -> (m: Self)
        ensures
            m@ == (MessageView { color: MessageColor::LightGreen, ..self@ }),
    {
        self.color(MessageColor::LightGreen)
    }

    pub fn blue(self) -> (m: Self)
        ensures
            m@ == (MessageView { color: MessageColor::Blue, ..self@ }),
    {
        self.color(MessageColor::Blue)
    }
}

/// The count of unread messages a chat tab shows: none while nothing is unread or the first
/// unread message has only just arrived.
pub fn unread_badge(unread_messages: u32, just_arrived: bool) -> (shown: Option<u32>)
    ensures
        shown == if unread_messages == 0 || just_arrived { None } else { Some(unread_messages) },
{
    if unread_messages == 0 || just_arrived { None } else { Some(unread_messages) }
}

} // verus!
