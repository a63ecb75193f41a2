//! The actions a card can be bound to.

use vstd::prelude::*;

verus! {

/// The behaviour bound to a card identity.
#[derive(Debug, PartialEq, Eq)]
pub enum Card {
    /// Play the track stored under this path.
    Play(String),
    Pause,
    Resume,
    Next,
    Previous,
    /// Run the action of a randomly chosen bound card.
    Shuffle,
    /// Switch between the maintenance hotspot and the pairing web server.
    ToggleHotspot,
    VolumeUp,
    VolumeDown,
}

/// Mathematical model of a [`Card`]: the track path is a sequence of characters.
pub enum CardView {
    Play(Seq<char>),
    Pause,
    Resume,
    Next,
    Previous,
    Shuffle,
    ToggleHotspot,
    VolumeUp,
    VolumeDown,
}

impl View for Card {
    type V = CardView;

    open spec fn view(&self) -> CardView {
        match self {
            Card::Play(track) => CardView::Play(track@),
            Card::Pause => CardView::Pause,
            Card::Resume => CardView::Resume,
            Card::Next => CardView::Next,
            Card::Previous => CardView::Previous,
            Card::Shuffle => CardView::Shuffle,
            Card::ToggleHotspot => CardView::ToggleHotspot,
            Card::VolumeUp => CardView::VolumeUp,
            Card::VolumeDown => CardView::VolumeDown,
        }
    }
}

/// Model of an optional action, as stored in a library entry.
pub open spec fn option_card_view(card: Option<Card>) -> Option<CardView> {
    match card {
        Some(c) => Some(c@),
        None => None,
    }
}

impl Clone for Card {
    fn clone(&self) -> (copy: Card)
        ensures
            copy == *self,
    {
        match self {
            Card::Play(track) => Card::Play(track.clone()),
            Card::Pause => Card::Pause,
            Card::Resume => Card::Resume,
            Card::Next => Card::Next,
            Card::Previous => Card::Previous,
            Card::Shuffle => Card::Shuffle,
            Card::ToggleHotspot => Card::ToggleHotspot,
            Card::VolumeUp => Card::VolumeUp,
            Card::VolumeDown => Card::VolumeDown,
        }
    }
}

impl Card {
    /// The card that plays the track stored under `music_file`.
    pub fn play(music_file: &str) -> (card: Card)
        ensures
            card@ == CardView::Play(music_file@),
    {
        Card::Play(music_file.to_owned())
    }
}

impl From<&str> for Card {
    /// The card that plays the track stored under `music_file`.
    fn from(music_file: &str) -> (card: Card)
        ensures
            card@ == CardView::Play(music_file@),
    {
        Card::play(music_file)
    }
}

/// What `Card::from` gives for a path is stated by its `ensures`, over the
/// card's model; it is not named as a value, since a `String` cannot be made
/// of a `str` in ghost code.
impl vstd::std_specs::convert::FromSpecImpl<&str> for Card {
    open spec fn obeys_from_spec() -> bool {
        false
    }

    open spec fn from_spec(music_file: &str) -> Card {
        arbitrary()
    }
}

impl From<&Card> for Option<Card> {
    /// A copy of the card, as the action of a library entry.
    fn from(card: &Card) -> (bound: Option<Card>) {
        Some(card.clone())
    }
}

impl vstd::std_specs::convert::FromSpecImpl<&Card> for Option<Card> {
    open spec fn obeys_from_spec() -> bool {
        true
    }

    open spec fn from_spec(card: &Card) -> Option<Card> {
        Some(*card)
    }
}

} // verus!
