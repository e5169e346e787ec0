use vstd::prelude::*;

verus! {

/// One name/value entry of an embed.
#[derive(Clone, Debug)]
pub struct EmbedField {
    pub name: String,
    pub value: String,
    pub inline: bool,
}

/// A rich-content block of a message.
#[derive(Clone, Debug)]
pub struct Embed {
    pub title: String,
    pub description: String,
    pub fields: Vec<EmbedField>,
    pub footer: String,
    pub color: u32,
    pub thumbnail: Option<String>,
}

/// What a message carries: plain text, embeds, or both.
#[derive(Debug)]
pub enum PayloadMessageType {
    TextNoEmbed(String),
    TextWithEmbed(String, Vec<Embed>),
    EmbedNoText(Vec<Embed>),
}

/// A message ready for delivery, together with the endpoint it goes to. The
/// endpoint is routing data only and is not part of the body that is sent.
#[derive(Clone, Debug)]
pub struct MessagePayload {
    pub content: Option<String>,
    pub embeds: Option<Vec<Embed>>,
    pub webhook_url: String,
}

/// What the delivery queue carries: a message, or the end-of-stream marker.
#[derive(Debug)]
pub enum WorkerMessage {
    Data(MessagePayload),
    Shutdown,
}

/// The text part of a message of the given kind.
pub open spec fn content_of(p: PayloadMessageType) -> Option<String> {
    match p {
        PayloadMessageType::TextNoEmbed(t) => Some(t),
        PayloadMessageType::TextWithEmbed(t, _) => Some(t),
        PayloadMessageType::EmbedNoText(_) => None,
    }
}

/// The embeds of a message of the given kind.
pub open spec fn embeds_of(p: PayloadMessageType) -> Option<Vec<Embed>> {
    match p {
        PayloadMessageType::TextNoEmbed(_) => None,
        PayloadMessageType::TextWithEmbed(_, e) => Some(e),
        PayloadMessageType::EmbedNoText(e) => Some(e),
    }
}

impl MessagePayload {
    /// A message of the given kind for the given endpoint; at least one of
    /// text and embeds is present.
    pub fn new(payload: PayloadMessageType, webhook_url: String) -> (r: Self)
        ensures
            r.content == content_of(payload),
            r.embeds == embeds_of(payload),
            r.webhook_url == webhook_url,
            r.content.is_some() || r.embeds.is_some(),
    {
        let text;
        let embed;
        match payload {
            PayloadMessageType::TextNoEmbed(t) => {
                text = Some(t);
                embed = None;
            },
            PayloadMessageType::TextWithEmbed(t, e) => {
                text = Some(t);
                embed = Some(e);
            },
            PayloadMessageType::EmbedNoText(e) => {
                text = None;
                embed = Some(e);
            },
        }
        MessagePayload { content: text, embeds: embed, webhook_url }
    }

    /// The endpoint this message is sent to.
    pub fn webhook_url(&self) -> (r: &str)
        ensures
            r@ == self.webhook_url@,
    {
        self.webhook_url.as_str()
    }
}

} // verus!
