//! The mapping from card identities to the actions bound to them.

use crate::card::{option_card_view, Card, CardView};
use rand::seq::SliceRandom;
use vstd::prelude::*;

verus! {

/// One card of the library: its identity and the action bound to it, if any.
#[derive(Debug)]
struct Entry {
    card_id: String,
    card: Option<Card>,
}

/// The cards the jukebox knows.
///
/// A card is *bound* when an action is stored for it and *reserved* (known but
/// unbound) when it is present without one.  The model is a map from card
/// identity to optional action.
#[derive(Debug)]
pub struct Library {
    music: Vec<Entry>,
}

/// What a random selection among the bound actions of `library` may give:
/// some action that a card is bound to, and nothing only where no card is bound.
pub open spec fn is_random_pick(
    library: Map<Seq<char>, Option<CardView>>,
    pick: Option<CardView>,
) -> bool {
    match pick {
        Some(card) => exists|card_id: Seq<char>|
            #[trigger] library.contains_key(card_id) && library[card_id] == Some(card),
        None => forall|card_id: Seq<char>| #[trigger]
            library.contains_key(card_id) ==> library[card_id] is None,
    }
}

/// Draws one element of `candidates` at random.
///
/// Calls `rand::seq::SliceRandom::choose` on the slice with the generator of
/// `rand::thread_rng()`.  That method returns `None` for an empty slice and
/// otherwise a reference to the element at an index it draws below the length;
/// this is all the contract claims.  Which element comes back is not stated.
#[verifier::external_body]
fn choose_one(candidates: &Vec<usize>) -> (picked: Option<usize>)
    ensures
        candidates@.len() == 0 ==> picked is None,
        candidates@.len() > 0 ==> picked is Some && candidates@.contains(picked->0),
{
    candidates.choose(&mut rand::thread_rng()).copied()
}

/// One line of a library's listing: a card identity and what is bound to it.
pub type Line = (Seq<char>, Option<CardView>);

/// Model of a listing as it is handed in and out.
pub open spec fn listing_view(entries: Seq<(String, Option<Card>)>) -> Seq<Line> {
    entries.map_values(|entry: (String, Option<Card>)| (entry.0@, option_card_view(entry.1)))
}

/// The library that a listing describes.  Where a card is listed twice, the
/// later line counts.
pub open spec fn library_of(listing: Seq<Line>) -> Map<Seq<char>, Option<CardView>>
    decreases listing.len(),
{
    if listing.len() == 0 {
        Map::empty()
    } else {
        library_of(listing.drop_last()).insert(listing.last().0, listing.last().1)
    }
}

/// Line `i` of `listing` is the line of the card `card_id`.
pub open spec fn listed_at(listing: Seq<Line>, card_id: Seq<char>, i: int) -> bool {
    0 <= i < listing.len() && listing[i].0 == card_id
}

/// `listing` lists `library`: every card once, with what is bound to it, in
/// whatever order.
pub open spec fn is_listing_of(
    listing: Seq<Line>,
    library: Map<Seq<char>, Option<CardView>>,
) -> bool {
    &&& forall|i: int, j: int| 0 <= i < j < listing.len() ==> listing[i].0 != listing[j].0
    &&& forall|i: int|
        0 <= i < listing.len() ==> library.contains_key(#[trigger] listing[i].0)
            && library[listing[i].0] == listing[i].1
    &&& forall|card_id: Seq<char>| #[trigger]
        library.contains_key(card_id) ==> exists|i: int| listed_at(listing, card_id, i)
}

/// The cards of `library_of(listing)` are the listed ones, and each has what
/// its last line says.
proof fn lemma_library_of(listing: Seq<Line>, card_id: Seq<char>)
    ensures
        library_of(listing).contains_key(card_id) <==> exists|i: int|
            listed_at(listing, card_id, i),
        forall|i: int|
            listed_at(listing, card_id, i) && (forall|j: int|
                i < j < listing.len() ==> !listed_at(listing, card_id, j)) ==> library_of(
                listing,
            )[card_id] == listing[i].1,
    decreases listing.len(),
{
    if listing.len() > 0 {
        let shorter = listing.drop_last();
        let last = listing.len() - 1;
        lemma_library_of(shorter, card_id);
        if card_id == listing.last().0 {
            assert(listed_at(listing, card_id, last));
        } else {
            if library_of(shorter).contains_key(card_id) {
                let i = choose|i: int| listed_at(shorter, card_id, i);
                assert(listed_at(listing, card_id, i));
            }
            if exists|i: int| listed_at(listing, card_id, i) {
                let i = choose|i: int| listed_at(listing, card_id, i);
                assert(listed_at(shorter, card_id, i));
            }
        }
        assert forall|i: int|
            listed_at(listing, card_id, i) && (forall|j: int|
                i < j < listing.len() ==> !listed_at(listing, card_id, j)) implies library_of(
                listing,
            )[card_id] == listing[i].1 by {
            if i < last {
                assert(!listed_at(listing, card_id, last));
                assert(listed_at(shorter, card_id, i));
                assert forall|j: int| i < j < shorter.len() implies !listed_at(
                    shorter,
                    card_id,
                    j,
                ) by {
                    assert(!listed_at(listing, card_id, j));
                }
            }
        }
    }
}

/// A library is what its listing describes: written out card by card and
/// built up again from the lines, in any order, it is the same mapping.
pub proof fn lemma_listing_round_trip(
    library: Map<Seq<char>, Option<CardView>>,
    listing: Seq<Line>,
)
    requires
        is_listing_of(listing, library),
    ensures
        library_of(listing) == library,
{
    assert forall|card_id: Seq<char>|
        library_of(listing).dom().contains(card_id) == library.dom().contains(card_id) by {
        lemma_library_of(listing, card_id);
        if library_of(listing).contains_key(card_id) {
            let i = choose|i: int| listed_at(listing, card_id, i);
            assert(library.contains_key(listing[i].0));
        }
    }
    assert forall|card_id: Seq<char>| library.dom().contains(card_id) implies library_of(
        listing,
    )[card_id] == library[card_id] by {
        lemma_library_of(listing, card_id);
        assert(library.contains_key(card_id));
        let i = choose|i: int| listed_at(listing, card_id, i);
        assert(library.contains_key(listing[i].0));
        assert forall|j: int| i < j < listing.len() implies !listed_at(listing, card_id, j) by {}
    }
    assert(library_of(listing) =~= library);
}

/// Entry `i` of `entries` belongs to the card `card_id`.
spec fn key_at(entries: Seq<Entry>, card_id: Seq<char>, i: int) -> bool {
    0 <= i < entries.len() && entries[i].card_id@ == card_id
}

/// No card identity occurs in two entries.
spec fn distinct_keys(entries: Seq<Entry>) -> bool {
    forall|i: int, j: int|
        0 <= i < j < entries.len() ==> entries[i].card_id@ != entries[j].card_id@
}

/// The map that a list of entries stands for.
spec fn mapping(entries: Seq<Entry>) -> Map<Seq<char>, Option<CardView>> {
    Map::new(
        |card_id: Seq<char>| exists|i: int| key_at(entries, card_id, i),
        |card_id: Seq<char>|
            option_card_view(entries[choose|i: int| key_at(entries, card_id, i)].card),
    )
}

/// With distinct keys, every entry is what the map holds for its identity.
proof fn lemma_mapping_at(entries: Seq<Entry>, i: int)
    requires
        distinct_keys(entries),
        0 <= i < entries.len(),
    ensures
        mapping(entries).contains_key(entries[i].card_id@),
        mapping(entries)[entries[i].card_id@] == option_card_view(entries[i].card),
{
    let card_id = entries[i].card_id@;
    assert(key_at(entries, card_id, i));
    let chosen = choose|j: int| key_at(entries, card_id, j);
    assert(key_at(entries, card_id, chosen));
    assert(chosen == i);
}

/// The position of the entry of `card_id`, if the card is known.
fn find(music: &Vec<Entry>, card_id: &String) -> (found: Option<usize>)
    ensures
        match found {
            Some(i) => key_at(music@, card_id@, i as int),
            None => forall|i: int| !key_at(music@, card_id@, i),
        },
{
    let mut i: usize = 0;
    while i < music.len()
        invariant
            i <= music.len(),
            forall|j: int| 0 <= j < i ==> !key_at(music@, card_id@, j),
        decreases music.len() - i,
    {
        if music[i].card_id == *card_id {
            return Some(i);
        }
        i += 1;
    }
    None
}

impl View for Library {
    type V = Map<Seq<char>, Option<CardView>>;

    closed spec fn view(&self) -> Map<Seq<char>, Option<CardView>> {
        mapping(self.music@)
    }
}

impl Library {
    #[verifier::type_invariant]
    spec fn well_formed(self) -> bool {
        distinct_keys(self.music@)
    }

    /// The empty library.
    #[must_use]
    pub fn new() -> (library: Library)
        ensures
            library@ == Map::<Seq<char>, Option<CardView>>::empty(),
    {
        let library = Library { music: Vec::new() };
        assert(library@ =~= Map::<Seq<char>, Option<CardView>>::empty());
        library
    }

    /// Whether the card is known, bound or not.
    pub fn contains(&self, card_id: &str) -> (known: bool)
        ensures
            known == self@.contains_key(card_id@),
    {
        let key = card_id.to_owned();
        match find(&self.music, &key) {
            Some(i) => {
                assert(key_at(self.music@, card_id@, i as int));
                true
            },
            None => false,
        }
    }

    /// The action bound to the card.  A reserved card and an unknown card both
    /// have none.
    #[must_use]
    pub fn get(&self, card_id: &str) -> (card: Option<&Card>)
        ensures
            match card {
                Some(c) => self@.contains_key(card_id@) && self@[card_id@] == Some(c@),
                None => !self@.contains_key(card_id@) || self@[card_id@] is None,
            },
    {
        let key = card_id.to_owned();
        match find(&self.music, &key) {
            Some(i) => {
                proof {
                    use_type_invariant(self);
                    lemma_mapping_at(self.music@, i as int);
                }
                self.music[i].card.as_ref()
            },
            None => None,
        }
    }

    /// One of the bound actions, drawn at random with equal chances; `None`
    /// where no card is bound.
    #[must_use]
    pub fn get_random(&self) -> (card: Option<&Card>)
        ensures
            is_random_pick(
                self@,
                match card {
                    Some(c) => Some(c@),
                    None => None,
                },
            ),
    {
        proof {
            use_type_invariant(self);
        }
        let mut bound: Vec<usize> = Vec::new();
        let mut i: usize = 0;
        while i < self.music.len()
            invariant
                i <= self.music.len(),
                forall|n: int|
                    0 <= n < bound.len() ==> bound[n] < self.music.len()
                        && self.music[bound[n] as int].card is Some,
                forall|j: int| 0 <= j < i && self.music[j].card is Some ==> bound@.contains(j as usize),
            decreases self.music.len() - i,
        {
            if self.music[i].card.is_some() {
                let ghost earlier = bound@;
                bound.push(i);
                assert(bound@.last() == i);
                assert forall|j: int| 0 <= j < i + 1 && self.music[j].card is Some implies bound@.contains(
                    j as usize,
                ) by {
                    if j < i {
                        let n = choose|n: int| 0 <= n < earlier.len() && earlier[n] == j as usize;
                        assert(bound@[n] == j as usize);
                    } else {
                        assert(bound@[bound.len() - 1] == j as usize);
                    }
                }
            }
            i += 1;
        }
        match choose_one(&bound) {
            Some(chosen) => {
                proof {
                    let n = choose|n: int| 0 <= n < bound.len() && bound[n] == chosen;
                    assert(bound[n] == chosen);
                    lemma_mapping_at(self.music@, chosen as int);
                }
                self.music[chosen].card.as_ref()
            },
            None => {
                assert forall|card_id: Seq<char>| #[trigger]
                    self@.contains_key(card_id) implies self@[card_id] is None by {
                    let j = choose|j: int| key_at(self.music@, card_id, j);
                    lemma_mapping_at(self.music@, j);
                    if self.music[j].card is Some {
                        assert(bound@.contains(j as usize));
                    }
                }
                None
            },
        }
    }

    /// The library as a listing: every card once, with a copy of what is
    /// bound to it.
    pub fn entries(&self) -> (entries: Vec<(String, Option<Card>)>)
        ensures
            is_listing_of(listing_view(entries@), self@),
    {
        proof {
            use_type_invariant(self);
        }
        let mut entries: Vec<(String, Option<Card>)> = Vec::new();
        let mut i: usize = 0;
        while i < self.music.len()
            invariant
                i <= self.music.len(),
                entries.len() == i,
                forall|j: int|
                    0 <= j < i ==> entries[j].0@ == self.music[j].card_id@ && option_card_view(
                        entries[j].1,
                    ) == option_card_view(self.music[j].card),
            decreases self.music.len() - i,
        {
            let card = match &self.music[i].card {
                Some(card) => Some(card.clone()),
                None => None,
            };
            entries.push((self.music[i].card_id.clone(), card));
            i += 1;
        }
        proof {
            let listing = listing_view(entries@);
            assert forall|j: int| 0 <= j < listing.len() implies self@.contains_key(
                #[trigger] listing[j].0,
            ) && self@[listing[j].0] == listing[j].1 by {
                lemma_mapping_at(self.music@, j);
            }
            assert forall|card_id: Seq<char>| #[trigger]
                self@.contains_key(card_id) implies exists|j: int|
                listed_at(listing, card_id, j) by {
                let j = choose|j: int| key_at(self.music@, card_id, j);
                assert(listed_at(listing, card_id, j));
            }
        }
        entries
    }

    /// The library that a listing describes.  Where a card is listed twice,
    /// the later line counts.
    pub fn from_entries(entries: &Vec<(String, Option<Card>)>) -> (library: Library)
        ensures
            library@ == library_of(listing_view(entries@)),
    {
        let mut library = Library::new();
        let mut i: usize = 0;
        while i < entries.len()
            invariant
                i <= entries.len(),
                library@ == library_of(listing_view(entries@).take(i as int)),
            decreases entries.len() - i,
        {
            let card = match &entries[i].1 {
                Some(card) => Some(card.clone()),
                None => None,
            };
            proof {
                let longer = listing_view(entries@).take(i + 1);
                assert(longer.drop_last() =~= listing_view(entries@).take(i as int));
                assert(longer.last() == (entries[i as int].0@, option_card_view(card)));
            }
            library.update(entries[i].0.as_str(), card);
            i += 1;
        }
        assert(listing_view(entries@).take(entries.len() as int) =~= listing_view(entries@));
        library
    }

    /// Reserves the card: it is known afterwards and has no action.
    pub fn add(&mut self, card_id: &str)
        ensures
            final(self)@ == old(self)@.insert(card_id@, None),
    {
        self.update(card_id, None);
    }

    /// Forgets the card and hands back the action that was bound to it, if any.
    pub fn remove(&mut self, card_id: &str) -> (card: Option<Card>)
        ensures
            final(self)@ == old(self)@.remove(card_id@),
            option_card_view(card) == if old(self)@.contains_key(card_id@) {
                old(self)@[card_id@]
            } else {
                None
            },
    {
        proof {
            use_type_invariant(&*self);
        }
        let key = card_id.to_owned();
        let mut music: Vec<Entry> = Vec::new();
        core::mem::swap(&mut self.music, &mut music);
        let ghost before = music@;
        let card = match find(&music, &key) {
            Some(i) => {
                proof {
                    lemma_mapping_at(before, i as int);
                    lemma_mapping_removed(before, i as int);
                }
                let entry = music.remove(i);
                entry.card
            },
            None => {
                assert(mapping(before) =~= mapping(before).remove(card_id@));
                None
            },
        };
        core::mem::swap(&mut self.music, &mut music);
        card
    }

    /// Binds the card to `music_file`, or reserves it where that is `None`.
    pub fn update(&mut self, card_id: &str, music_file: Option<Card>)
        ensures
            final(self)@ == old(self)@.insert(card_id@, option_card_view(music_file)),
    {
        proof {
            use_type_invariant(&*self);
        }
        let key = card_id.to_owned();
        let mut music: Vec<Entry> = Vec::new();
        core::mem::swap(&mut self.music, &mut music);
        let ghost before = music@;
        match find(&music, &key) {
            Some(i) => {
                music[i].card = music_file;
                proof {
                    lemma_mapping_stored(before, music@, i as int);
                }
            },
            None => {
                music.push(Entry { card_id: key, card: music_file });
                proof {
                    lemma_mapping_pushed(before, music@);
                }
            },
        }
        core::mem::swap(&mut self.music, &mut music);
    }
}

/// Taking entry `i` out removes its identity from the map and nothing else.
proof fn lemma_mapping_removed(before: Seq<Entry>, i: int)
    requires
        distinct_keys(before),
        0 <= i < before.len(),
    ensures
        distinct_keys(before.remove(i)),
        mapping(before.remove(i)) == mapping(before).remove(before[i].card_id@),
{
    let after = before.remove(i);
    let expected = mapping(before).remove(before[i].card_id@);
    assert forall|j: int| 0 <= j < after.len() implies after[j] == before[if j < i {
        j
    } else {
        j + 1
    }] by {}
    assert forall|card_id: Seq<char>|
        mapping(after).dom().contains(card_id) == expected.dom().contains(card_id) by {
        if mapping(after).dom().contains(card_id) {
            let j = choose|j: int| key_at(after, card_id, j);
            let k = if j < i {
                j
            } else {
                j + 1
            };
            assert(key_at(before, card_id, k));
        }
        if expected.dom().contains(card_id) {
            let k = choose|k: int| key_at(before, card_id, k);
            let j = if k < i {
                k
            } else {
                k - 1
            };
            assert(key_at(after, card_id, j));
        }
    }
    assert forall|card_id: Seq<char>| mapping(after).dom().contains(card_id) implies mapping(
        after,
    )[card_id] == expected[card_id] by {
        let j = choose|j: int| key_at(after, card_id, j);
        let k = if j < i {
            j
        } else {
            j + 1
        };
        assert(key_at(before, card_id, k));
        lemma_mapping_at(after, j);
        lemma_mapping_at(before, k);
    }
    assert(mapping(after) =~= expected);
}

/// Replacing the action of entry `i` stores that action under the entry's identity.
proof fn lemma_mapping_stored(before: Seq<Entry>, after: Seq<Entry>, i: int)
    requires
        distinct_keys(before),
        0 <= i < before.len(),
        after.len() == before.len(),
        forall|j: int| 0 <= j < before.len() ==> after[j].card_id@ == before[j].card_id@,
        forall|j: int| 0 <= j < before.len() && j != i ==> after[j].card == before[j].card,
    ensures
        distinct_keys(after),
        mapping(after) == mapping(before).insert(
            before[i].card_id@,
            option_card_view(after[i].card),
        ),
{
    assert forall|a: int, b: int| 0 <= a < b < after.len() implies after[a].card_id@
        != after[b].card_id@ by {
        assert(after[a].card_id@ == before[a].card_id@);
        assert(after[b].card_id@ == before[b].card_id@);
    }
    let expected = mapping(before).insert(before[i].card_id@, option_card_view(after[i].card));
    assert forall|card_id: Seq<char>|
        mapping(after).dom().contains(card_id) == expected.dom().contains(card_id) by {
        if mapping(after).dom().contains(card_id) {
            let j = choose|j: int| key_at(after, card_id, j);
            assert(key_at(before, card_id, j));
        }
        if expected.dom().contains(card_id) {
            if card_id == before[i].card_id@ {
                assert(key_at(after, card_id, i));
            } else {
                let j = choose|j: int| key_at(before, card_id, j);
                assert(key_at(after, card_id, j));
            }
        }
    }
    assert forall|card_id: Seq<char>| mapping(after).dom().contains(card_id) implies mapping(
        after,
    )[card_id] == expected[card_id] by {
        let j = choose|j: int| key_at(after, card_id, j);
        assert(key_at(before, card_id, j));
        lemma_mapping_at(after, j);
        lemma_mapping_at(before, j);
    }
    assert(mapping(after) =~= expected);
}

/// Appending an entry for an unknown card stores its action under its identity.
proof fn lemma_mapping_pushed(before: Seq<Entry>, after: Seq<Entry>)
    requires
        distinct_keys(before),
        after.len() == before.len() + 1,
        forall|j: int| 0 <= j < before.len() ==> after[j] == before[j],
        forall|j: int| !key_at(before, after.last().card_id@, j),
    ensures
        distinct_keys(after),
        mapping(after) == mapping(before).insert(
            after.last().card_id@,
            option_card_view(after.last().card),
        ),
{
    let last = before.len() as int;
    assert forall|a: int, b: int| 0 <= a < b < after.len() implies after[a].card_id@
        != after[b].card_id@ by {
        if b == last {
            assert(!key_at(before, after.last().card_id@, a));
        }
    }
    let expected = mapping(before).insert(
        after.last().card_id@,
        option_card_view(after.last().card),
    );
    assert forall|card_id: Seq<char>|
        mapping(after).dom().contains(card_id) == expected.dom().contains(card_id) by {
        if mapping(after).dom().contains(card_id) {
            let j = choose|j: int| key_at(after, card_id, j);
            if j < last {
                assert(key_at(before, card_id, j));
            }
        }
        if expected.dom().contains(card_id) {
            if card_id == after.last().card_id@ {
                assert(key_at(after, card_id, last));
            } else {
                let j = choose|j: int| key_at(before, card_id, j);
                assert(key_at(after, card_id, j));
            }
        }
    }
    assert forall|card_id: Seq<char>| mapping(after).dom().contains(card_id) implies mapping(
        after,
    )[card_id] == expected[card_id] by {
        let j = choose|j: int| key_at(after, card_id, j);
        lemma_mapping_at(after, j);
        if j < last {
            assert(key_at(before, card_id, j));
            lemma_mapping_at(before, j);
        }
    }
    assert(mapping(after) =~= expected);
}

impl Default for Library {
    fn default() -> (library: Library)
        ensures
            library@ == Map::<Seq<char>, Option<CardView>>::empty(),
    {
        Library::new()
    }
}

} // verus!
