//! A builder for replies: text content, an embed built from plain data, and
//! whether only the caller sees the reply.
use vstd::prelude::*;

use crate::embed::{empty_embed, Embed, EmbedFieldView, EmbedView};

verus! {

/// What an embed is built from.
pub struct EmbedData {
    pub title: String,
    pub description: String,
    pub color: u32,
    /// Name, value and whether the field is inline.
    pub fields: Vec<(String, String, bool)>,
    pub pages: Vec<(String, String)>,
    pub footer: String,
    pub thumbnail: String,
    pub image: String,
    pub highlighting: bool,
}

/// A reply being put together.
pub struct Builder {
    pub content: Option<String>,
    pub embed_data: Option<EmbedData>,
    pub embed: Option<Embed>,
    pub ephemeral: bool,
}

/// The text a new builder holds.
pub open spec fn placeholder() -> Seq<char> {
    "<PlaceHolder>"@
}

impl Default for Builder {
    fn default() -> (b: Self)
        ensures
            b.content.deep_view() == Some(placeholder()),
            b.embed_data is None,
            b.embed is None,
            !b.ephemeral,
    {
        Self {
            content: Some(String::from_str("<PlaceHolder>")),
            embed_data: None,
            embed: None,
            ephemeral: false,
        }
    }
}

/// The fields of an embed built from `(name, value, inline)` triples.
pub open spec fn data_fields(fields: Seq<(Seq<char>, Seq<char>, bool)>) -> Seq<EmbedFieldView> {
    fields.map_values(
        |f: (Seq<char>, Seq<char>, bool)| EmbedFieldView { name: f.0, value: f.1, inline: f.2 },
    )
}

/// The embed built from `d`: its title, description, colour and fields.
pub open spec fn embed_of(d: EmbedData) -> EmbedView {
    EmbedView {
        title: Some(d.title@),
        description: Some(d.description@),
        color: Some(d.color),
        fields: data_fields(d.fields.deep_view()),
        ..empty_embed()
    }
}

impl Builder {
    pub fn set_embed(&mut self, embed: Embed)
        ensures
            final(self).embed == Some(embed),
            final(self).content == old(self).content,
            final(self).embed_data == old(self).embed_data,
            final(self).ephemeral == old(self).ephemeral,
    {
        self.embed = Some(embed);
    }

    pub fn set_content(&mut self, content: String)
        ensures
            final(self).content == Some(content),
            final(self).embed == old(self).embed,
            final(self).embed_data == old(self).embed_data,
            final(self).ephemeral == old(self).ephemeral,
    {
        self.content = Some(content);
    }

    pub fn set_ephemeral(&mut self, ephemeral: bool)
        ensures
            final(self).ephemeral == ephemeral,
            final(self).content == old(self).content,
            final(self).embed == old(self).embed,
            final(self).embed_data == old(self).embed_data,
    {
        self.ephemeral = ephemeral;
    }

    /// Builds the embed from the embed data.
    pub fn build_embed(&mut self)
        requires
            old(self).embed_data is Some,
        ensures
            final(self).embed matches Some(e) && e@ == embed_of(old(self).embed_data->0),
            final(self).content == old(self).content,
            final(self).embed_data == old(self).embed_data,
            final(self).ephemeral == old(self).ephemeral,
    {
        let data = self.embed_data.as_ref().unwrap();
        let mut e = Embed::new();
        e.title = Some(data.title.clone());
        e.description = Some(data.description.clone());
        e.color = Some(data.color);
        let mut i: usize = 0;
        proof {
            assert(data_fields(data.fields.deep_view().take(0)) =~= Seq::<EmbedFieldView>::empty());
        }
        while i < data.fields.len()
            invariant
                i <= data.fields.len(),
                e@ == (EmbedView {
                    fields: data_fields(data.fields.deep_view().take(i as int)),
                    ..embed_of(*data)
                }),
            decreases data.fields.len() - i,
        {
            let f = &data.fields[i];
            e.add_field(f.0.clone(), f.1.clone(), f.2);
            proof {
                assert(data.fields.deep_view().take(i + 1) =~= data.fields.deep_view().take(
                    i as int,
                ).push(data.fields.deep_view()[i as int]));
                assert(data_fields(data.fields.deep_view().take(i + 1)) =~= data_fields(
                    data.fields.deep_view().take(i as int),
                ).push(EmbedFieldView { name: f.0@, value: f.1@, inline: f.2 }));
            }
            i = i + 1;
        }
        proof {
            assert(data.fields.deep_view().take(i as int) =~= data.fields.deep_view());
        }
        self.embed = Some(e);
    }
}

} // verus!
