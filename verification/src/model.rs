//! The records that mail and channels are made of.
use crate::text;
use vstd::prelude::*;

verus! {

/// How much attention a direct mail asks for.
#[derive(Debug, Clone, Copy, PartialEq, Eq, Structural)]
pub enum MailKind {
    Letter,
    Note,
    Signal,
}

impl MailKind {
    pub open spec fn name(self) -> Seq<char> {
        match self {
            MailKind::Letter => "letter"@,
            MailKind::Note => "note"@,
            MailKind::Signal => "signal"@,
        }
    }

    /// The name of the kind on the wire and in text output.
    pub fn as_str(self) -> (r: &'static str)
        ensures
            r@ == self.name(),
    {
        match self {
            MailKind::Letter => "letter",
            MailKind::Note => "note",
            MailKind::Signal => "signal",
        }
    }
}

/// The head of a direct mail.
#[derive(Debug, PartialEq, Eq)]
pub struct Envelope {
    pub id: String,
    pub from: String,
    pub to: String,
    pub kind: MailKind,
    pub subject: String,
    pub sent: String,
    /// The sender's display name as of send time. Presentation only: identity is `from`.
    pub display_name: Option<String>,
    /// The sender's emoji sigil as of send time. Presentation only.
    pub pfp: Option<String>,
    /// The per-launch address that the sender declared, verbatim.
    pub sender_address: Option<String>,
    /// How `from` came to be: the name of a [`SenderProvenance`].
    pub sender_provenance: Option<String>,
}

pub ghost struct EnvelopeView {
    pub id: Seq<char>,
    pub from: Seq<char>,
    pub to: Seq<char>,
    pub kind: MailKind,
    pub subject: Seq<char>,
    pub sent: Seq<char>,
    pub display_name: Option<Seq<char>>,
    pub pfp: Option<Seq<char>>,
    pub sender_address: Option<Seq<char>>,
    pub sender_provenance: Option<Seq<char>>,
}

impl View for Envelope {
    type V = EnvelopeView;

    open spec fn view(&self) -> EnvelopeView {
        EnvelopeView {
            id: self.id@,
            from: self.from@,
            to: self.to@,
            kind: self.kind,
            subject: self.subject@,
            sent: self.sent@,
            display_name: text::opt(self.display_name),
            pfp: text::opt(self.pfp),
            sender_address: text::opt(self.sender_address),
            sender_provenance: text::opt(self.sender_provenance),
        }
    }
}

impl Clone for Envelope {
    fn clone(&self) -> (r: Envelope)
        ensures
            r@ == self@,
    {
        Envelope {
            id: self.id.clone(),
            from: self.from.clone(),
            to: self.to.clone(),
            kind: self.kind,
            subject: self.subject.clone(),
            sent: self.sent.clone(),
            display_name: text::opt_clone(&self.display_name),
            pfp: text::opt_clone(&self.pfp),
            sender_address: text::opt_clone(&self.sender_address),
            sender_provenance: text::opt_clone(&self.sender_provenance),
        }
    }
}

/// Where a sender's name came from: evidence for the reader, never a credential.
#[derive(Debug, Clone, Copy, PartialEq, Eq, Structural)]
pub enum SenderProvenance {
    DeclaredEnv,
    DeclaredFlag,
    InferredCwd,
    InferredBasename,
}

impl SenderProvenance {
    pub open spec fn name(self) -> Seq<char> {
        match self {
            SenderProvenance::DeclaredEnv => "declared-env"@,
            SenderProvenance::DeclaredFlag => "declared-flag"@,
            SenderProvenance::InferredCwd => "inferred-cwd"@,
            SenderProvenance::InferredBasename => "inferred-basename"@,
        }
    }

    /// The name of the provenance on the wire.
    pub fn as_str(self) -> (r: &'static str)
        ensures
            r@ == self.name(),
    {
        match self {
            SenderProvenance::DeclaredEnv => "declared-env",
            SenderProvenance::DeclaredFlag => "declared-flag",
            SenderProvenance::InferredCwd => "inferred-cwd",
            SenderProvenance::InferredBasename => "inferred-basename",
        }
    }
}

/// A direct mail: envelope and body.
#[derive(Debug)]
pub struct ParsedMail {
    pub envelope: Envelope,
    pub body: String,
}

/// A route that the operator has closed.
#[derive(Debug)]
pub struct BlockingRule {
    pub from: String,
    pub to: String,
    pub reason: String,
}

pub ghost struct RuleView {
    pub from: Seq<char>,
    pub to: Seq<char>,
    pub reason: Seq<char>,
}

impl View for BlockingRule {
    type V = RuleView;

    open spec fn view(&self) -> RuleView {
        RuleView { from: self.from@, to: self.to@, reason: self.reason@ }
    }
}

/// The rules of a list, as values.
pub open spec fn rules_view(rules: Seq<BlockingRule>) -> Seq<RuleView> {
    rules.map_values(|r: BlockingRule| r@)
}

impl RuleView {
    /// Whether the rule's recipient side covers a room.
    pub open spec fn covers(self, recipient: Seq<char>) -> bool {
        self.to == "*"@ || self.to == recipient
    }

    /// Whether the rule closes the route from a sender to a recipient.
    pub open spec fn blocks(self, sender: Seq<char>, recipient: Seq<char>) -> bool {
        (self.from == "*"@ || self.from == sender) && self.covers(recipient)
    }
}

impl BlockingRule {
    /// Whether the rule closes the route from `sender` to `recipient`.
    pub fn matches_route(&self, sender: &str, recipient: &str) -> (r: bool)
        ensures
            r == self@.blocks(sender@, recipient@),
            r == ((self.from@ == "*"@ || self.from@ == sender@) && (self.to@ == "*"@ || self.to@
                == recipient@)),
    {
        (text::same(self.from.as_str(), "*") || text::same(self.from.as_str(), sender))
            && self.targets(recipient)
    }

    /// Whether the rule's recipient side covers `recipient`.
    pub fn targets(&self, recipient: &str) -> (r: bool)
        ensures
            r == self@.covers(recipient@),
            r == (self.to@ == "*"@ || self.to@ == recipient@),
    {
        text::same(self.to.as_str(), "*") || text::same(self.to.as_str(), recipient)
    }
}

impl Clone for BlockingRule {
    fn clone(&self) -> (r: BlockingRule)
        ensures
            r@ == self@,
    {
        BlockingRule {
            from: self.from.clone(),
            to: self.to.clone(),
            reason: self.reason.clone(),
        }
    }
}

/// A message of a channel. It has no kind and no single recipient.
#[derive(Debug, PartialEq, Eq)]
pub struct ChannelMessage {
    pub id: String,
    pub from: String,
    pub channel: String,
    pub subject: String,
    pub sent: String,
    /// `join` or `profile` on system lines; absent on ordinary messages.
    pub event: Option<String>,
    /// The sender's display name as of send time. Presentation only: identity is `from`.
    pub display_name: Option<String>,
    /// The sender's emoji sigil as of send time. Presentation only.
    pub pfp: Option<String>,
    /// The id of the message that this one replies to.
    pub re: Option<String>,
    /// The registered rooms that the body mentions.
    pub mentions: Vec<String>,
    /// The locator of a detached signature, as the JSON text that stood in the message. A
    /// present `null` is kept, so that a broken locator stays visible.
    pub signature_ref: Option<String>,
}

pub ghost struct MessageView {
    pub id: Seq<char>,
    pub from: Seq<char>,
    pub channel: Seq<char>,
    pub subject: Seq<char>,
    pub sent: Seq<char>,
    pub event: Option<Seq<char>>,
    pub display_name: Option<Seq<char>>,
    pub pfp: Option<Seq<char>>,
    pub re: Option<Seq<char>>,
    pub mentions: Seq<Seq<char>>,
    pub signature_ref: Option<Seq<char>>,
}

impl View for ChannelMessage {
    type V = MessageView;

    open spec fn view(&self) -> MessageView {
        MessageView {
            id: self.id@,
            from: self.from@,
            channel: self.channel@,
            subject: self.subject@,
            sent: self.sent@,
            event: text::opt(self.event),
            display_name: text::opt(self.display_name),
            pfp: text::opt(self.pfp),
            re: text::opt(self.re),
            mentions: text::texts(self.mentions@),
            signature_ref: text::opt(self.signature_ref),
        }
    }
}

impl Clone for ChannelMessage {
    fn clone(&self) -> (r: ChannelMessage)
        ensures
            r@ == self@,
    {
        ChannelMessage {
            id: self.id.clone(),
            from: self.from.clone(),
            channel: self.channel.clone(),
            subject: self.subject.clone(),
            sent: self.sent.clone(),
            event: text::opt_clone(&self.event),
            display_name: text::opt_clone(&self.display_name),
            pfp: text::opt_clone(&self.pfp),
            re: text::opt_clone(&self.re),
            mentions: text::texts_clone(&self.mentions),
            signature_ref: text::opt_clone(&self.signature_ref),
        }
    }
}

/// A channel message and its body.
#[derive(Debug)]
pub struct ParsedChannelMessage {
    pub message: ChannelMessage,
    pub body: String,
}

pub ghost struct PostView {
    pub message: MessageView,
    pub body: Seq<char>,
}

impl View for ParsedChannelMessage {
    type V = PostView;

    open spec fn view(&self) -> PostView {
        PostView { message: self.message@, body: self.body@ }
    }
}

impl Clone for ParsedChannelMessage {
    fn clone(&self) -> (r: ParsedChannelMessage)
        ensures
            r@ == self@,
    {
        ParsedChannelMessage { message: self.message.clone(), body: self.body.clone() }
    }
}

/// The posts of a list, as values.
pub open spec fn posts_view(posts: Seq<ParsedChannelMessage>) -> Seq<PostView> {
    posts.map_values(|p: ParsedChannelMessage| p@)
}

/// The operator's routing rules.
#[derive(Debug)]
pub struct RulesConfig {
    pub blocked: Vec<BlockingRule>,
}

} // verus!
