//! The control loop's decisions.
//!
//! The loop itself polls channels, drives the audio sink and writes files; none
//! of that happens here.  A [`Service`] takes what a poll delivered and answers
//! with the next state and the [`Command`]s to carry out, in order.  Saving the
//! library is the one step whose result the loop needs back: a winning pairing
//! observation yields a [`PendingSave`], and the state is only handed out again
//! once the outcome of the save has been reported to it.

use crate::card::{Card, CardView};
use crate::library::{is_random_pick, Library};
use vstd::prelude::*;

verus! {

/// Number of times an unknown card has to be presented during pairing before
/// it is reserved.
pub const PAIRING_THRESHOLD: usize = 3;

/// Volume level of a fresh audio sink, in steps.
pub const INITIAL_VOLUME: u8 = 1;

/// What the caller of the control loop has to carry out.
#[derive(Debug, PartialEq, Eq)]
pub enum Command {
    /// Stop the current playback.
    Stop,
    /// Open the track stored under this path and start playing it.
    Append(String),
    /// Pause the playback.
    Pause,
    /// Resume paused playback.
    Resume,
    /// Set the sink's volume to this number of steps.
    SetVolume(u8),
    /// Tell the running network manager to shut down.
    ShutdownManager,
    /// Switch the maintenance hotspot on.
    EnableHotspot,
    /// Switch the maintenance hotspot off.
    DisableHotspot,
    /// Start a fresh network manager.
    SpawnManager,
}

/// Mathematical model of a [`Command`].
pub enum CommandView {
    Stop,
    Append(Seq<char>),
    Pause,
    Resume,
    SetVolume(u8),
    ShutdownManager,
    EnableHotspot,
    DisableHotspot,
    SpawnManager,
}

impl View for Command {
    type V = CommandView;

    open spec fn view(&self) -> CommandView {
        match self {
            Command::Stop => CommandView::Stop,
            Command::Append(track) => CommandView::Append(track@),
            Command::Pause => CommandView::Pause,
            Command::Resume => CommandView::Resume,
            Command::SetVolume(level) => CommandView::SetVolume(*level),
            Command::ShutdownManager => CommandView::ShutdownManager,
            Command::EnableHotspot => CommandView::EnableHotspot,
            Command::DisableHotspot => CommandView::DisableHotspot,
            Command::SpawnManager => CommandView::SpawnManager,
        }
    }
}

/// Model of a list of commands.
pub open spec fn commands_view(commands: Seq<Command>) -> Seq<CommandView> {
    commands.map_values(|command: Command| command@)
}

/// Path of the sound that confirms a pairing.
pub open spec fn success_sound() -> Seq<char> {
    "sounds/positive_confirmation.wav"@
}

/// Path of the sound that reports a failed pairing.
pub open spec fn failure_sound() -> Seq<char> {
    "sounds/negative_confirmation.wav"@
}

/// Playing a sound file: whatever plays is stopped, then the file is started.
pub open spec fn sound_commands(file_path: Seq<char>) -> Seq<CommandView> {
    seq![CommandView::Stop, CommandView::Append(file_path)]
}

/// The volume one step up; it stays at the highest level.
pub open spec fn louder(volume: u8) -> u8 {
    if volume < u8::MAX {
        (volume + 1) as u8
    } else {
        volume
    }
}

/// The volume one step down; it stays at silence.
pub open spec fn quieter(volume: u8) -> u8 {
    if volume > 0 {
        (volume - 1) as u8
    } else {
        volume
    }
}

/// How often `card_id` occurs among the observed cards.
pub open spec fn occurrences(observed: Seq<Seq<char>>, card_id: Seq<char>) -> nat
    decreases observed.len(),
{
    if observed.len() == 0 {
        0
    } else {
        occurrences(observed.drop_last(), card_id) + if observed.last() == card_id {
            1nat
        } else {
            0nat
        }
    }
}

/// Mathematical model of a [`Service`].
pub struct ServiceView {
    /// Whether a pairing session is running.
    pub is_pairing: bool,
    /// The unknown cards seen in the running pairing session, oldest first.
    pub observed: Seq<Seq<char>>,
    /// Whether the maintenance hotspot is switched on.
    pub hotspot_enabled: bool,
    /// Whether a network manager has been started and not been told to shut
    /// down since.
    pub manager_running: bool,
    /// The sink's volume, in steps.
    pub volume: u8,
}

impl ServiceView {
    /// The state of a control loop that has just started.
    pub open spec fn initial() -> ServiceView {
        ServiceView {
            is_pairing: false,
            observed: Seq::empty(),
            hotspot_enabled: false,
            manager_running: false,
            volume: INITIAL_VOLUME,
        }
    }

    /// What holds of every state a control loop can be in: cards are observed
    /// only while pairing, no observed card has reached the threshold, and no
    /// network manager runs while the hotspot is on.
    pub open spec fn well_formed(self) -> bool {
        &&& !self.is_pairing ==> self.observed.len() == 0
        &&& forall|card_id: Seq<char>| #[trigger]
            occurrences(self.observed, card_id) < PAIRING_THRESHOLD
        &&& self.manager_running ==> !self.hotspot_enabled
    }

    /// The state after a pairing request: the session starts or ends, and
    /// either way nothing is observed yet or any more.
    pub open spec fn toggle_pairing(self) -> ServiceView {
        ServiceView { is_pairing: !self.is_pairing, observed: Seq::empty(), ..self }
    }

    /// The state after a pairing session has come to its result.
    pub open spec fn end_pairing(self) -> ServiceView {
        ServiceView { is_pairing: false, observed: Seq::empty(), ..self }
    }

    /// What a card does to the audio sink.  `Shuffle` and `ToggleHotspot` do
    /// nothing to it.
    pub open spec fn play_card(self, card: CardView) -> (ServiceView, Seq<CommandView>) {
        match card {
            CardView::Play(track) => (self, sound_commands(track)),
            CardView::Pause => (self, seq![CommandView::Pause]),
            CardView::Resume => (self, seq![CommandView::Resume]),
            CardView::Next | CardView::Previous => (self, seq![CommandView::Stop]),
            CardView::VolumeUp => (
                ServiceView { volume: louder(self.volume), ..self },
                seq![CommandView::SetVolume(louder(self.volume))],
            ),
            CardView::VolumeDown => (
                ServiceView { volume: quieter(self.volume), ..self },
                seq![CommandView::SetVolume(quieter(self.volume))],
            ),
            CardView::Shuffle | CardView::ToggleHotspot => (self, Seq::empty()),
        }
    }

    /// Flipping the hotspot flag.  Hotspot and network manager want the same
    /// interface: a running manager is told to shut down before the hotspot
    /// comes up, and a fresh one is started once the hotspot is down.
    pub open spec fn toggle_hotspot(self) -> (ServiceView, Seq<CommandView>) {
        if self.hotspot_enabled {
            (
                ServiceView { hotspot_enabled: false, manager_running: true, ..self },
                seq![CommandView::DisableHotspot, CommandView::SpawnManager],
            )
        } else {
            (
                ServiceView { hotspot_enabled: true, manager_running: false, ..self },
                if self.manager_running {
                    seq![CommandView::ShutdownManager, CommandView::EnableHotspot]
                } else {
                    seq![CommandView::EnableHotspot]
                },
            )
        }
    }

    /// Carrying out an action that is not resolved any further: a `Shuffle`
    /// here does nothing.
    pub open spec fn apply(self, card: CardView) -> (ServiceView, Seq<CommandView>) {
        match card {
            CardView::ToggleHotspot => self.toggle_hotspot(),
            _ => self.play_card(card),
        }
    }

    /// Carrying out the action of a scanned card.  `Shuffle` stands for the
    /// action `pick` drawn from the library, carried out once.
    pub open spec fn execute(self, card: CardView, pick: Option<CardView>) -> (
        ServiceView,
        Seq<CommandView>,
    ) {
        match card {
            CardView::Shuffle => match pick {
                Some(chosen) => self.apply(chosen),
                None => (self, Seq::empty()),
            },
            _ => self.apply(card),
        }
    }

    /// One turn of the loop.  A pairing request is served first, so that a
    /// card that arrives with it already meets the new pairing state.
    pub open spec fn poll(self, pairing_requested: bool, card: PollView) -> TickView {
        let state = if pairing_requested {
            self.toggle_pairing()
        } else {
            self
        };
        match card {
            PollView::Card(card_id) => TickView::Scanned(state, card_id),
            PollView::Empty => TickView::Idle(state),
            PollView::Closed => TickView::Closed,
        }
    }

    /// What a scanned card leads to, and the library afterwards.
    ///
    /// A bound card is carried out, pairing or not.  An unknown card is
    /// observed while pairing, and reserved once it has been seen
    /// [`PAIRING_THRESHOLD`] times; the session then ends with the save.  A
    /// reserved card, and an unknown card outside of pairing, do nothing.
    pub open spec fn card_scanned(
        self,
        library: Map<Seq<char>, Option<CardView>>,
        card_id: Seq<char>,
        pick: Option<CardView>,
    ) -> (StepView, Map<Seq<char>, Option<CardView>>) {
        if library.contains_key(card_id) && library[card_id] is Some {
            let (state, commands) = self.execute(library[card_id]->0, pick);
            (StepView::Ready(state, commands), library)
        } else if !library.contains_key(card_id) && self.is_pairing {
            let observed = self.observed.push(card_id);
            if occurrences(observed, card_id) >= PAIRING_THRESHOLD {
                (
                    StepView::Saving(PendingSaveView { service: self.end_pairing(), card_id }),
                    library.insert(card_id, None),
                )
            } else {
                (StepView::Ready(ServiceView { observed, ..self }, Seq::empty()), library)
            }
        } else {
            (StepView::Ready(self, Seq::empty()), library)
        }
    }
}

/// What polling the card channel gave.
#[derive(Debug, PartialEq, Eq)]
pub enum Poll {
    /// A card was scanned; this is its identity.
    Card(String),
    /// Nothing is waiting.
    Empty,
    /// The reader is gone for good.
    Closed,
}

/// Mathematical model of a [`Poll`].
pub enum PollView {
    Card(Seq<char>),
    Empty,
    Closed,
}

impl View for Poll {
    type V = PollView;

    open spec fn view(&self) -> PollView {
        match self {
            Poll::Card(card_id) => PollView::Card(card_id@),
            Poll::Empty => PollView::Empty,
            Poll::Closed => PollView::Closed,
        }
    }
}

/// Mathematical model of a [`Tick`].
pub enum TickView {
    Idle(ServiceView),
    Scanned(ServiceView, Seq<char>),
    Closed,
}

/// Mathematical model of a [`PendingSave`].
pub struct PendingSaveView {
    /// The state the loop goes on with once the save is over.
    pub service: ServiceView,
    /// The card that was reserved for the save.
    pub card_id: Seq<char>,
}

impl PendingSaveView {
    /// The end of a pairing session: the confirming sound after a save that
    /// succeeded; after one that failed the reservation is taken back and the
    /// failure sound is played.
    pub open spec fn finish(self, library: Map<Seq<char>, Option<CardView>>, saved: bool) -> (
        ServiceView,
        Seq<CommandView>,
        Map<Seq<char>, Option<CardView>>,
    ) {
        if saved {
            (self.service, sound_commands(success_sound()), library)
        } else {
            (self.service, sound_commands(failure_sound()), library.remove(self.card_id))
        }
    }
}

/// Mathematical model of a [`Step`].
pub enum StepView {
    Ready(ServiceView, Seq<CommandView>),
    Saving(PendingSaveView),
}

/// The control loop's own state: the pairing session, the hotspot flag and the
/// volume level.
#[derive(Debug)]
pub struct Service {
    is_pairing: bool,
    pairing_cards: Vec<String>,
    hotspot_enabled: bool,
    manager_running: bool,
    volume: u8,
}

impl View for Service {
    type V = ServiceView;

    closed spec fn view(&self) -> ServiceView {
        ServiceView {
            is_pairing: self.is_pairing,
            observed: self.pairing_cards.deep_view(),
            hotspot_enabled: self.hotspot_enabled,
            manager_running: self.manager_running,
            volume: self.volume,
        }
    }
}

/// What one turn of the loop came to.
#[derive(Debug)]
pub enum Tick {
    /// Nothing to dispatch; the loop goes on with this state.
    Idle(Service),
    /// A card was scanned: look it up in the library and hand both to
    /// [`Service::card_scanned`].
    Scanned(Service, String),
    /// The reader is gone: the loop ends in good order.
    Closed,
}

impl View for Tick {
    type V = TickView;

    open spec fn view(&self) -> TickView {
        match self {
            Tick::Idle(service) => TickView::Idle(service@),
            Tick::Scanned(service, card_id) => TickView::Scanned(service@, card_id@),
            Tick::Closed => TickView::Closed,
        }
    }
}

/// A pairing session that waits for its library to be saved.
///
/// The card has been reserved in the library.  The caller saves the library
/// and reports with [`PendingSave::finish`] how that went; only then does it
/// get the loop's state back.
#[derive(Debug)]
pub struct PendingSave {
    service: Service,
    card_id: String,
}

impl View for PendingSave {
    type V = PendingSaveView;

    closed spec fn view(&self) -> PendingSaveView {
        PendingSaveView { service: self.service@, card_id: self.card_id@ }
    }
}

/// What a scanned card led to.
#[derive(Debug)]
pub enum Step {
    /// The loop goes on with this state once the commands are carried out.
    Ready(Service, Vec<Command>),
    /// The library has to be saved first.
    Saving(PendingSave),
}

impl View for Step {
    type V = StepView;

    open spec fn view(&self) -> StepView {
        match self {
            Step::Ready(service, commands) => StepView::Ready(service@, commands_view(commands@)),
            Step::Saving(pending) => StepView::Saving(pending@),
        }
    }
}

/// One more observation adds one to the count of the observed card and leaves
/// the other counts as they were.
pub proof fn lemma_occurrences_push(observed: Seq<Seq<char>>, seen: Seq<char>, card_id: Seq<char>)
    ensures
        occurrences(observed.push(seen), card_id) == occurrences(observed, card_id) + if seen
            == card_id {
            1nat
        } else {
            0nat
        },
{
    assert(observed.push(seen).drop_last() =~= observed);
}

/// How often `card_id` occurs in `cards`.
fn count_occurrences(cards: &Vec<String>, card_id: &String) -> (count: usize)
    ensures
        count == occurrences(cards.deep_view(), card_id@),
{
    let mut count: usize = 0;
    let mut i: usize = 0;
    while i < cards.len()
        invariant
            i <= cards.len(),
            count <= i,
            count == occurrences(cards.deep_view().take(i as int), card_id@),
        decreases cards.len() - i,
    {
        proof {
            let longer = cards.deep_view().take(i + 1);
            assert(longer.drop_last() =~= cards.deep_view().take(i as int));
            assert(longer.last() == cards[i as int]@);
        }
        if cards[i] == *card_id {
            count += 1;
        }
        i += 1;
    }
    assert(cards.deep_view().take(cards.len() as int) =~= cards.deep_view());
    count
}

/// The commands that play the sound file `file_path`.
pub fn play_sound(file_path: &str) -> (commands: Vec<Command>)
    ensures
        commands_view(commands@) == sound_commands(file_path@),
{
    let mut commands: Vec<Command> = Vec::new();
    commands.push(Command::Stop);
    commands.push(Command::Append(file_path.to_owned()));
    assert(commands_view(commands@) =~= sound_commands(file_path@));
    commands
}

/// A list of one command.
fn single(command: Command) -> (commands: Vec<Command>)
    ensures
        commands_view(commands@) == seq![command@],
{
    let mut commands: Vec<Command> = Vec::new();
    commands.push(command);
    assert(commands_view(commands@) =~= seq![command@]);
    commands
}

/// The empty list of commands.
fn nothing() -> (commands: Vec<Command>)
    ensures
        commands_view(commands@) == Seq::<CommandView>::empty(),
{
    let commands: Vec<Command> = Vec::new();
    assert(commands_view(commands@) =~= Seq::<CommandView>::empty());
    commands
}

impl Service {
    #[verifier::type_invariant]
    spec fn consistent(self) -> bool {
        self@.well_formed()
    }

    /// The state in which the control loop starts: not pairing, the hotspot
    /// off, no network manager started.
    pub fn new() -> (service: Service)
        ensures
            service@ == ServiceView::initial(),
    {
        let pairing_cards: Vec<String> = Vec::new();
        assert(pairing_cards.deep_view() =~= Seq::<Seq<char>>::empty());
        Service {
            is_pairing: false,
            pairing_cards,
            hotspot_enabled: false,
            manager_running: false,
            volume: INITIAL_VOLUME,
        }
    }

    /// Whether a pairing session is running.
    pub fn is_pairing(&self) -> (pairing: bool)
        ensures
            pairing == self@.is_pairing,
    {
        self.is_pairing
    }

    /// Whether the maintenance hotspot is switched on.
    pub fn hotspot_enabled(&self) -> (enabled: bool)
        ensures
            enabled == self@.hotspot_enabled,
    {
        self.hotspot_enabled
    }

    /// Whether a network manager has been started and not been told to shut
    /// down since.
    pub fn manager_running(&self) -> (running: bool)
        ensures
            running == self@.manager_running,
    {
        self.manager_running
    }

    /// The sink's volume, in steps.
    pub fn volume(&self) -> (volume: u8)
        ensures
            volume == self@.volume,
    {
        self.volume
    }

    /// The unknown cards seen in the running pairing session, oldest first.
    pub fn observed_cards(&self) -> (cards: &Vec<String>)
        ensures
            cards.deep_view() == self@.observed,
    {
        &self.pairing_cards
    }

    /// What the card does to the audio sink, as commands in the order in which
    /// they are to be carried out.
    pub fn play_card(self, card: &Card) -> (next: (Service, Vec<Command>))
        ensures
            (next.0@, commands_view(next.1@)) == self@.play_card(card@),
    {
        proof {
            use_type_invariant(&self);
        }
        match card {
            Card::Play(music_file) => {
                let commands = play_sound(music_file.as_str());
                (self, commands)
            },
            Card::Pause => (self, single(Command::Pause)),
            Card::Resume => (self, single(Command::Resume)),
            Card::Next | Card::Previous => (self, single(Command::Stop)),
            Card::ToggleHotspot | Card::Shuffle => (self, nothing()),
            Card::VolumeUp => {
                let volume = if self.volume < u8::MAX {
                    self.volume + 1
                } else {
                    self.volume
                };
                (self.with_volume(volume), single(Command::SetVolume(volume)))
            },
            Card::VolumeDown => {
                let volume = if self.volume > 0 {
                    self.volume - 1
                } else {
                    self.volume
                };
                (self.with_volume(volume), single(Command::SetVolume(volume)))
            },
        }
    }

    /// The same state at another volume level.
    fn with_volume(self, volume: u8) -> (service: Service)
        ensures
            service@ == (ServiceView { volume, ..self@ }),
    {
        proof {
            use_type_invariant(&self);
        }
        Service {
            is_pairing: self.is_pairing,
            pairing_cards: self.pairing_cards,
            hotspot_enabled: self.hotspot_enabled,
            manager_running: self.manager_running,
            volume,
        }
    }

    /// Flips the hotspot flag and says what has to happen for it.
    pub fn toggle_hotspot(self) -> (next: (Service, Vec<Command>))
        ensures
            (next.0@, commands_view(next.1@)) == self@.toggle_hotspot(),
    {
        proof {
            use_type_invariant(&self);
        }
        let mut commands: Vec<Command> = Vec::new();
        if self.hotspot_enabled {
            commands.push(Command::DisableHotspot);
            commands.push(Command::SpawnManager);
            assert(commands_view(commands@) =~= seq![
                CommandView::DisableHotspot,
                CommandView::SpawnManager,
            ]);
        } else if self.manager_running {
            commands.push(Command::ShutdownManager);
            commands.push(Command::EnableHotspot);
            assert(commands_view(commands@) =~= seq![
                CommandView::ShutdownManager,
                CommandView::EnableHotspot,
            ]);
        } else {
            commands.push(Command::EnableHotspot);
            assert(commands_view(commands@) =~= seq![CommandView::EnableHotspot]);
        }
        (
            Service {
                is_pairing: self.is_pairing,
                pairing_cards: self.pairing_cards,
                hotspot_enabled: !self.hotspot_enabled,
                manager_running: self.hotspot_enabled,
                volume: self.volume,
            },
            commands,
        )
    }

    /// Carries out the action of a scanned card.  `pick` is what the library's
    /// random selection gave; it is looked at only where `card` is `Shuffle`.
    pub fn execute(self, card: &Card, pick: Option<&Card>) -> (next: (Service, Vec<Command>))
        ensures
            (next.0@, commands_view(next.1@)) == self@.execute(
                card@,
                match pick {
                    Some(chosen) => Some(chosen@),
                    None => None,
                },
            ),
    {
        match card {
            Card::Shuffle => match pick {
                Some(chosen) => self.apply(chosen),
                None => (self, nothing()),
            },
            _ => self.apply(card),
        }
    }

    /// Carries out an action that is not resolved any further.
    fn apply(self, card: &Card) -> (next: (Service, Vec<Command>))
        ensures
            (next.0@, commands_view(next.1@)) == self@.apply(card@),
    {
        match card {
            Card::ToggleHotspot => self.toggle_hotspot(),
            _ => self.play_card(card),
        }
    }

    /// Starts a pairing session, or ends the one that is running.
    pub fn toggle_pairing(self) -> (service: Service)
        ensures
            service@ == self@.toggle_pairing(),
    {
        proof {
            use_type_invariant(&self);
        }
        let pairing_cards: Vec<String> = Vec::new();
        assert(pairing_cards.deep_view() =~= Seq::<Seq<char>>::empty());
        Service {
            is_pairing: !self.is_pairing,
            pairing_cards,
            hotspot_enabled: self.hotspot_enabled,
            manager_running: self.manager_running,
            volume: self.volume,
        }
    }

    /// One turn of the loop: `pairing_requested` says whether a pairing
    /// request was waiting, `card` what the card channel held.
    pub fn poll(self, pairing_requested: bool, card: Poll) -> (tick: Tick)
        ensures
            tick@ == self@.poll(pairing_requested, card@),
    {
        let service = if pairing_requested {
            self.toggle_pairing()
        } else {
            self
        };
        match card {
            Poll::Card(card_id) => Tick::Scanned(service, card_id),
            Poll::Empty => Tick::Idle(service),
            Poll::Closed => Tick::Closed,
        }
    }

    /// Dispatches a scanned card.
    ///
    /// The step is the one that [`ServiceView::card_scanned`] gives for some
    /// outcome of the library's random selection; the selection is made, and
    /// matters, only where the card is bound to `Shuffle`.
    pub fn card_scanned(self, library: &mut Library, card_id: &str) -> (step: Step)
        ensures
            exists|pick: Option<CardView>|
                is_random_pick(old(library)@, pick) && (step@, final(library)@)
                    == #[trigger] self@.card_scanned(old(library)@, card_id@, pick),
    {
        proof {
            use_type_invariant(&self);
        }
        let ghost before = library@;
        match library.get(card_id) {
            Some(card) => {
                let ghost pick;
                let next = match card {
                    Card::Shuffle => {
                        let drawn = library.get_random();
                        proof {
                            pick =
                            match drawn {
                                Some(chosen) => Some(chosen@),
                                None => None,
                            };
                        }
                        self.execute(card, drawn)
                    },
                    _ => {
                        proof {
                            pick = Some(card@);
                            assert(before.contains_key(card_id@) && before[card_id@] == pick);
                        }
                        self.execute(card, None)
                    },
                };
                let step = Step::Ready(next.0, next.1);
                assert(is_random_pick(before, pick));
                assert((step@, library@) == self@.card_scanned(before, card_id@, pick));
                step
            },
            None => {
                proof {
                    lemma_some_pick(before);
                }
                let ghost pick = choose|pick: Option<CardView>| is_random_pick(before, pick);
                if self.is_pairing && !library.contains(card_id) {
                    let key = card_id.to_owned();
                    let ghost observed = self@.observed;
                    let mut pairing_cards = self.pairing_cards;
                    pairing_cards.push(key.clone());
                    assert(pairing_cards.deep_view() =~= observed.push(card_id@));
                    let count = count_occurrences(&pairing_cards, &key);
                    if count >= PAIRING_THRESHOLD {
                        library.add(card_id);
                        let cleared: Vec<String> = Vec::new();
                        assert(cleared.deep_view() =~= Seq::<Seq<char>>::empty());
                        let step = Step::Saving(
                            PendingSave {
                                service: Service {
                                    is_pairing: false,
                                    pairing_cards: cleared,
                                    hotspot_enabled: self.hotspot_enabled,
                                    manager_running: self.manager_running,
                                    volume: self.volume,
                                },
                                card_id: key,
                            },
                        );
                        assert((step@, library@) == self@.card_scanned(before, card_id@, pick));
                        step
                    } else {
                        assert forall|other: Seq<char>| #[trigger]
                            occurrences(pairing_cards.deep_view(), other)
                                < PAIRING_THRESHOLD by {
                            lemma_occurrences_push(observed, card_id@, other);
                        }
                        let step = Step::Ready(
                            Service {
                                is_pairing: self.is_pairing,
                                pairing_cards,
                                hotspot_enabled: self.hotspot_enabled,
                                manager_running: self.manager_running,
                                volume: self.volume,
                            },
                            nothing(),
                        );
                        assert((step@, library@) == self@.card_scanned(before, card_id@, pick));
                        step
                    }
                } else {
                    let step = Step::Ready(self, nothing());
                    assert((step@, library@) == self@.card_scanned(before, card_id@, pick));
                    step
                }
            },
        }
    }
}

/// Every library admits some outcome of a random selection.
proof fn lemma_some_pick(library: Map<Seq<char>, Option<CardView>>)
    ensures
        exists|pick: Option<CardView>| is_random_pick(library, pick),
{
    if exists|card_id: Seq<char>| #[trigger]
        library.contains_key(card_id) && library[card_id] is Some {
        let card_id = choose|card_id: Seq<char>| #[trigger]
            library.contains_key(card_id) && library[card_id] is Some;
        assert(is_random_pick(library, Some(library[card_id]->0)));
    } else {
        assert(is_random_pick(library, None));
    }
}

impl PendingSave {
    /// The card that was reserved and waits for the save.
    pub fn card_id(&self) -> (card_id: &str)
        ensures
            card_id@ == self@.card_id,
    {
        self.card_id.as_str()
    }

    /// Ends the pairing session once the library has been saved, or could not
    /// be.  A failed save takes the reservation back.
    pub fn finish(self, library: &mut Library, saved: bool) -> (next: (Service, Vec<Command>))
        ensures
            (next.0@, commands_view(next.1@), final(library)@) == self@.finish(
                old(library)@,
                saved,
            ),
    {
        if saved {
            (self.service, play_sound("sounds/positive_confirmation.wav"))
        } else {
            let _ = library.remove(self.card_id.as_str());
            (self.service, play_sound("sounds/negative_confirmation.wav"))
        }
    }
}

/// `command` stands at position `at` of `commands` and nowhere else.
pub open spec fn occurs_only_at(commands: Seq<CommandView>, command: CommandView, at: int) -> bool {
    &&& 0 <= at < commands.len()
    &&& forall|i: int| 0 <= i < commands.len() ==> (commands[i] == command <==> i == at)
}

/// `command` is not among `commands`.
pub open spec fn never_occurs(commands: Seq<CommandView>, command: CommandView) -> bool {
    forall|i: int| 0 <= i < commands.len() ==> commands[i] != command
}

/// Every step of the control loop keeps its state well formed.
pub proof fn lemma_well_formed_is_kept(
    state: ServiceView,
    library: Map<Seq<char>, Option<CardView>>,
    card_id: Seq<char>,
    card: CardView,
    pick: Option<CardView>,
)
    requires
        state.well_formed(),
    ensures
        ServiceView::initial().well_formed(),
        state.toggle_pairing().well_formed(),
        state.execute(card, pick).0.well_formed(),
        match state.card_scanned(library, card_id, pick).0 {
            StepView::Ready(next, _) => next.well_formed(),
            StepView::Saving(pending) => pending.service.well_formed(),
        },
{
    assert forall|other: Seq<char>|
        occurrences(state.observed.push(card_id), card_id) < PAIRING_THRESHOLD implies #[trigger]
        occurrences(state.observed.push(card_id), other) < PAIRING_THRESHOLD by {
        lemma_occurrences_push(state.observed, card_id, other);
    }
}

/// While pairing, the card that was just observed is the only one that can
/// have reached the threshold: to look at its count is to look at them all.
pub proof fn lemma_only_the_newcomer_wins(
    state: ServiceView,
    card_id: Seq<char>,
    other: Seq<char>,
)
    requires
        state.well_formed(),
        occurrences(state.observed.push(card_id), other) >= PAIRING_THRESHOLD,
    ensures
        other == card_id,
        occurrences(state.observed, card_id) == PAIRING_THRESHOLD - 1,
{
    lemma_occurrences_push(state.observed, card_id, other);
}

/// A bound card is carried out whether or not a pairing session is running:
/// the library and the observed cards stay as they are.
pub proof fn lemma_bound_card_comes_first(
    state: ServiceView,
    library: Map<Seq<char>, Option<CardView>>,
    card_id: Seq<char>,
    pick: Option<CardView>,
)
    requires
        library.contains_key(card_id),
        library[card_id] is Some,
    ensures
        ({
            let (step, after) = state.card_scanned(library, card_id, pick);
            let (next, commands) = state.execute(library[card_id]->0, pick);
            &&& after == library
            &&& step == StepView::Ready(next, commands)
            &&& next.is_pairing == state.is_pairing
            &&& next.observed == state.observed
        }),
{
}

/// A save that fails after the winning observation leaves the library as it
/// was before the card was reserved; the session is over and its observations
/// are gone.  A save that succeeds leaves the card reserved.
pub proof fn lemma_failed_save_rolls_back(
    state: ServiceView,
    library: Map<Seq<char>, Option<CardView>>,
    card_id: Seq<char>,
    pick: Option<CardView>,
)
    requires
        state.card_scanned(library, card_id, pick).0 is Saving,
    ensures
        ({
            let (step, reserved) = state.card_scanned(library, card_id, pick);
            let pending = step->Saving_0;
            let failed = pending.finish(reserved, false);
            let succeeded = pending.finish(reserved, true);
            &&& !library.contains_key(card_id)
            &&& pending.card_id == card_id
            &&& reserved == library.insert(card_id, None)
            &&& failed == (state.end_pairing(), sound_commands(failure_sound()), library)
            &&& succeeded == (state.end_pairing(), sound_commands(success_sound()), reserved)
        }),
{
    assert(library.insert(card_id, None).remove(card_id) =~= library);
}

/// `Shuffle` draws once.  Where the draw gives `Shuffle` again, or nothing,
/// nothing happens; any other action is carried out as if its own card had
/// been scanned, and no second draw is looked at.
pub proof fn lemma_shuffle_draws_once(
    state: ServiceView,
    chosen: CardView,
    second_pick: Option<CardView>,
)
    ensures
        state.execute(CardView::Shuffle, None) == (state, Seq::<CommandView>::empty()),
        state.execute(CardView::Shuffle, Some(CardView::Shuffle)) == (
            state,
            Seq::<CommandView>::empty(),
        ),
        chosen != CardView::Shuffle ==> state.execute(CardView::Shuffle, Some(chosen))
            == state.execute(chosen, second_pick),
{
}

/// Hotspot and network manager exclude each other.  Switching the hotspot on
/// while a manager runs sends one shutdown signal, and sends it before the
/// hotspot is enabled; without a manager nothing is signalled.  Switching the
/// hotspot off starts one fresh manager, after the hotspot is disabled.  In
/// the state that follows no manager runs beside the hotspot.
pub proof fn lemma_hotspot_excludes_manager(state: ServiceView, pick: Option<CardView>)
    ensures
        state.execute(CardView::ToggleHotspot, pick) == state.toggle_hotspot(),
        ({
            let (next, commands) = state.toggle_hotspot();
            &&& next.hotspot_enabled == !state.hotspot_enabled
            &&& next.manager_running == !next.hotspot_enabled
            &&& next.is_pairing == state.is_pairing
            &&& next.observed == state.observed
            &&& next.volume == state.volume
            &&& !state.hotspot_enabled && state.manager_running ==> {
                &&& commands.len() == 2
                &&& occurs_only_at(commands, CommandView::ShutdownManager, 0)
                &&& occurs_only_at(commands, CommandView::EnableHotspot, 1)
                &&& never_occurs(commands, CommandView::SpawnManager)
                &&& never_occurs(commands, CommandView::DisableHotspot)
            }
            &&& !state.hotspot_enabled && !state.manager_running ==> {
                &&& commands.len() == 1
                &&& occurs_only_at(commands, CommandView::EnableHotspot, 0)
                &&& never_occurs(commands, CommandView::ShutdownManager)
                &&& never_occurs(commands, CommandView::SpawnManager)
                &&& never_occurs(commands, CommandView::DisableHotspot)
            }
            &&& state.hotspot_enabled ==> {
                &&& commands.len() == 2
                &&& occurs_only_at(commands, CommandView::DisableHotspot, 0)
                &&& occurs_only_at(commands, CommandView::SpawnManager, 1)
                &&& never_occurs(commands, CommandView::ShutdownManager)
                &&& never_occurs(commands, CommandView::EnableHotspot)
            }
        }),
{
}

} // verus!
