//! What the bot sends: plain texts and cards.

use vstd::prelude::*;

verus! {

/// One labelled entry of a card.
#[derive(Clone, Debug, PartialEq, Eq)]
pub struct Field {
    pub label: String,
    pub value: String,
    pub inline: bool,
}

/// The model of a [`Field`].
pub struct FieldView {
    pub label: Seq<char>,
    pub value: Seq<char>,
    pub inline: bool,
}

impl View for Field {
    type V = FieldView;

    open spec fn view(&self) -> FieldView {
        FieldView { label: self.label@, value: self.value@, inline: self.inline }
    }
}

/// A structured message: a title, and whatever else of description, fields,
/// colour, link, image, footer and timestamp it carries.
#[derive(Clone, Debug, PartialEq, Eq)]
pub struct Card {
    pub title: String,
    pub description: Option<String>,
    pub fields: Vec<Field>,
    /// The accent colour, as `0xRRGGBB`.
    pub colour: Option<u32>,
    pub url: Option<String>,
    pub image: Option<String>,
    pub footer: Option<String>,
    /// The instant shown under the card, in RFC 3339 form.
    pub timestamp: Option<String>,
}

/// The model of a [`Card`].
pub struct CardView {
    pub title: Seq<char>,
    pub description: Option<Seq<char>>,
    pub fields: Seq<FieldView>,
    pub colour: Option<u32>,
    pub url: Option<Seq<char>>,
    pub image: Option<Seq<char>>,
    pub footer: Option<Seq<char>>,
    pub timestamp: Option<Seq<char>>,
}

/// The characters of an optional text.
pub open spec fn optional_text(text: Option<String>) -> Option<Seq<char>> {
    match text {
        Some(t) => Some(t@),
        None => None,
    }
}

/// The models of a sequence of fields, in order.
pub open spec fn field_views(fields: Seq<Field>) -> Seq<FieldView> {
    Seq::new(fields.len(), |i: int| fields[i]@)
}

impl View for Card {
    type V = CardView;

    open spec fn view(&self) -> CardView {
        CardView {
            title: self.title@,
            description: optional_text(self.description),
            fields: field_views(self.fields@),
            colour: self.colour,
            url: optional_text(self.url),
            image: optional_text(self.image),
            footer: optional_text(self.footer),
            timestamp: optional_text(self.timestamp),
        }
    }
}

impl Field {
    /// A field that is not shown inline.
    pub fn block(label: &str, value: &str) -> (field: Field)
        ensures
            field@ == (FieldView { label: label@, value: value@, inline: false }),
    {
        Field { label: label.to_owned(), value: value.to_owned(), inline: false }
    }
}

impl Card {
    /// A card that carries a title and nothing else.
    pub fn titled(title: &str) -> (card: Card)
        ensures
            card@ == CardView::titled(title@),
    {
        let card = Card {
            title: title.to_owned(),
            description: None,
            fields: Vec::new(),
            colour: None,
            url: None,
            image: None,
            footer: None,
            timestamp: None,
        };
        assert(card@.fields =~= Seq::<FieldView>::empty());
        card
    }

    /// Appends a field after those the card already has.
    pub fn push_field(&mut self, field: Field)
        ensures
            final(self)@ == (CardView { fields: old(self)@.fields.push(field@), ..old(self)@ }),
    {
        self.fields.push(field);
        assert(field_views(self.fields@) =~= field_views(old(self).fields@).push(field@));
    }
}

impl CardView {
    /// The model of a card that carries a title and nothing else.
    pub open spec fn titled(title: Seq<char>) -> CardView {
        CardView {
            title,
            description: None,
            fields: Seq::empty(),
            colour: None,
            url: None,
            image: None,
            footer: None,
            timestamp: None,
        }
    }
}

/// A message for the originating channel.
#[derive(Clone, Debug, PartialEq, Eq)]
pub enum OutgoingMessage {
    Text(String),
    Card(Card),
}

/// The model of an [`OutgoingMessage`].
pub enum MessageView {
    Text(Seq<char>),
    Card(CardView),
}

impl View for OutgoingMessage {
    type V = MessageView;

    open spec fn view(&self) -> MessageView {
        match self {
            OutgoingMessage::Text(text) => MessageView::Text(text@),
            OutgoingMessage::Card(card) => MessageView::Card(card@),
        }
    }
}

} // verus!
