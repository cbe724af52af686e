//! Replies as plain values: what a command sends back to Discord, before it is
//! turned into the client library's message builders.
use vstd::prelude::*;

verus! {

/// One field of an embed.
pub struct EmbedField {
    pub name: String,
    pub value: String,
    pub inline: bool,
}

/// An embed: the rich box that a reply may carry.
pub struct Embed {
    pub title: Option<String>,
    pub url: Option<String>,
    pub description: Option<String>,
    pub thumbnail: Option<String>,
    pub color: Option<u32>,
    pub fields: Vec<EmbedField>,
    /// Whether the embed is stamped with the time at which it is sent.
    pub timestamp_now: bool,
}

/// A button of an action row.
pub struct Button {
    pub custom_id: String,
    pub label: String,
    /// Green (success) when set, red (danger) otherwise.
    pub success: bool,
}

/// A reply to a command.
pub struct Reply {
    pub content: Option<String>,
    pub embed: Option<Embed>,
    pub button: Option<Button>,
    pub ephemeral: bool,
}

pub struct EmbedFieldView {
    pub name: Seq<char>,
    pub value: Seq<char>,
    pub inline: bool,
}

pub struct EmbedView {
    pub title: Option<Seq<char>>,
    pub url: Option<Seq<char>>,
    pub description: Option<Seq<char>>,
    pub thumbnail: Option<Seq<char>>,
    pub color: Option<u32>,
    pub fields: Seq<EmbedFieldView>,
    pub timestamp_now: bool,
}

pub struct ButtonView {
    pub custom_id: Seq<char>,
    pub label: Seq<char>,
    pub success: bool,
}

pub struct ReplyView {
    pub content: Option<Seq<char>>,
    pub embed: Option<EmbedView>,
    pub button: Option<ButtonView>,
    pub ephemeral: bool,
}

impl DeepView for EmbedField {
    type V = EmbedFieldView;

    open spec fn deep_view(&self) -> EmbedFieldView {
        EmbedFieldView { name: self.name@, value: self.value@, inline: self.inline }
    }
}

impl View for EmbedField {
    type V = EmbedFieldView;

    open spec fn view(&self) -> EmbedFieldView {
        self.deep_view()
    }
}

impl DeepView for Embed {
    type V = EmbedView;

    open spec fn deep_view(&self) -> EmbedView {
        EmbedView {
            title: self.title.deep_view(),
            url: self.url.deep_view(),
            description: self.description.deep_view(),
            thumbnail: self.thumbnail.deep_view(),
            color: self.color,
            fields: self.fields.deep_view(),
            timestamp_now: self.timestamp_now,
        }
    }
}

impl View for Embed {
    type V = EmbedView;

    open spec fn view(&self) -> EmbedView {
        self.deep_view()
    }
}

impl DeepView for Button {
    type V = ButtonView;

    open spec fn deep_view(&self) -> ButtonView {
        ButtonView { custom_id: self.custom_id@, label: self.label@, success: self.success }
    }
}

impl View for Button {
    type V = ButtonView;

    open spec fn view(&self) -> ButtonView {
        self.deep_view()
    }
}

impl View for Reply {
    type V = ReplyView;

    open spec fn view(&self) -> ReplyView {
        ReplyView {
            content: self.content.deep_view(),
            embed: self.embed.deep_view(),
            button: self.button.deep_view(),
            ephemeral: self.ephemeral,
        }
    }
}

/// An embed with nothing set.
pub open spec fn empty_embed() -> EmbedView {
    EmbedView {
        title: None,
        url: None,
        description: None,
        thumbnail: None,
        color: None,
        fields: Seq::empty(),
        timestamp_now: false,
    }
}

/// A reply with text only.
pub open spec fn text_reply(content: Seq<char>) -> ReplyView {
    ReplyView { content: Some(content), embed: None, button: None, ephemeral: false }
}

/// A reply with an embed only.
pub open spec fn embed_reply(embed: EmbedView) -> ReplyView {
    ReplyView { content: None, embed: Some(embed), button: None, ephemeral: false }
}

impl Embed {
    /// An embed with nothing set.
    pub fn new() -> (e: Embed)
        ensures
            e@ == empty_embed(),
    {
        let e = Embed {
            title: None,
            url: None,
            description: None,
            thumbnail: None,
            color: None,
            fields: Vec::new(),
            timestamp_now: false,
        };
        proof {
            assert(e.fields.deep_view() =~= Seq::<EmbedFieldView>::empty());
        }
        e
    }

    /// Appends a field.
    pub fn add_field(&mut self, name: String, value: String, inline: bool)
        ensures
            final(self)@ == (EmbedView {
                fields: old(self)@.fields.push(
                    EmbedFieldView { name: name@, value: value@, inline: inline },
                ),
                ..old(self)@
            }),
    {
        let ghost before = self.fields.deep_view();
        self.fields.push(EmbedField { name, value, inline });
        proof {
            assert(self.fields.deep_view() =~= before.push(
                EmbedFieldView { name: name@, value: value@, inline: inline },
            ));
        }
    }
}

impl Reply {
    /// A reply with text only.
    pub fn text(content: String) -> (r: Reply)
        ensures
            r@ == text_reply(content@),
    {
        Reply { content: Some(content), embed: None, button: None, ephemeral: false }
    }

    /// A reply with an embed only.
    pub fn with_embed(embed: Embed) -> (r: Reply)
        ensures
            r@ == embed_reply(embed@),
    {
        Reply { content: None, embed: Some(embed), button: None, ephemeral: false }
    }
}

} // verus!
