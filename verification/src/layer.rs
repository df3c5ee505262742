//! What is done to layers.
//!
//! The surface does not draw into the layer of the window's view, the root layer, as setting the
//! contents of a layer that a view controls is brittle. It adds a layer of its own below the root
//! layer, and keeps the two in step by observing the root layer.
use vstd::prelude::*;

verus! {

/// A key of the root layer that is observed.
#[derive(Clone, Copy, Debug, PartialEq, Eq, Structural)]
pub enum KeyPath {
    /// The scale factor, which changes with the monitor or its settings.
    ContentsScale,
    /// The position and size in the layer's own coordinates.
    Bounds,
}

impl KeyPath {
    /// The name of the key.
    pub open spec fn spec_name(self) -> Seq<char> {
        match self {
            KeyPath::ContentsScale => "contentsScale"@,
            KeyPath::Bounds => "bounds"@,
        }
    }

    /// The key of a name, if it is one that is observed.
    pub open spec fn spec_parse(name: Seq<char>) -> Option<KeyPath> {
        if name == "contentsScale"@ {
            Some(KeyPath::ContentsScale)
        } else if name == "bounds"@ {
            Some(KeyPath::Bounds)
        } else {
            None
        }
    }

    /// The name of the key.
    pub fn name(self) -> (name: &'static str)
        ensures
            name@ == self.spec_name(),
            self is ContentsScale ==> name@ == "contentsScale"@,
            self is Bounds ==> name@ == "bounds"@,
    {
        match self {
            KeyPath::ContentsScale => "contentsScale",
            KeyPath::Bounds => "bounds",
        }
    }

    /// The key of a name, if it is one that is observed.
    pub fn parse(name: &str) -> (key: Option<KeyPath>)
        ensures
            key == Self::spec_parse(name@),
            key == Some(KeyPath::ContentsScale) <==> name@ == "contentsScale"@,
            key == Some(KeyPath::Bounds) <==> name@ == "bounds"@,
    {
        proof {
            law_keys_are_told_by_their_names(name@);
        }
        let name: String = name.to_owned();
        if name == "contentsScale".to_owned() {
            Some(KeyPath::ContentsScale)
        } else if name == "bounds".to_owned() {
            Some(KeyPath::Bounds)
        } else {
            None
        }
    }
}

/// Something to do to the surface's layer, to its place below the root layer, or to the
/// transaction that changes to layers are part of.
#[derive(Debug, PartialEq, Eq)]
pub enum LayerCommand<'a, S> {
    /// Add the layer to the root layer.
    AddSublayer,
    /// Remove the layer from the root layer.
    RemoveFromSuperlayer,
    /// Put the anchor point to the corner where coordinates are zero.
    AnchorAtOrigin,
    /// Have vertical coordinates count downwards.
    SetGeometryFlipped(bool),
    /// Observe a key of the root layer, both for its value now and for new values.
    AddObserver(KeyPath),
    /// Stop observing a key of the root layer.
    RemoveObserver(KeyPath),
    /// Stretch the contents to fill the layer.
    ResizeContents,
    /// Enlarge by nearest neighbour, so that what is scaled stays crisp.
    MagnifyNearest,
    /// Shrink by nearest neighbour.
    MinifyNearest,
    /// Have the contents count as opaque, or not.
    SetOpaque(bool),
    /// Begin a transaction.
    BeginTransaction,
    /// Whether actions, that is animations, are disabled in the current transaction.
    SetDisableActions(bool),
    /// Show a surface.
    SetContents(&'a S),
    /// Commit the current transaction.
    CommitTransaction,
}

/// How a new layer is set up. The default alpha mode is opaque.
pub open spec fn setup_list<'a, S>() -> Seq<LayerCommand<'a, S>> {
    seq![
        LayerCommand::AddSublayer,
        LayerCommand::AnchorAtOrigin,
        LayerCommand::SetGeometryFlipped(true),
        LayerCommand::AddObserver(KeyPath::ContentsScale),
        LayerCommand::AddObserver(KeyPath::Bounds),
        LayerCommand::ResizeContents,
        LayerCommand::MagnifyNearest,
        LayerCommand::MinifyNearest,
        LayerCommand::SetOpaque(true),
    ]
}

/// How the layer is taken down.
pub open spec fn teardown_list<'a, S>() -> Seq<LayerCommand<'a, S>> {
    seq![
        LayerCommand::RemoveObserver(KeyPath::ContentsScale),
        LayerCommand::RemoveObserver(KeyPath::Bounds),
        LayerCommand::RemoveFromSuperlayer,
    ]
}

/// How a surface is shown.
pub open spec fn show_list<'a, S>(surface: S) -> Seq<LayerCommand<'a, S>> {
    seq![
        LayerCommand::BeginTransaction,
        LayerCommand::SetDisableActions(true),
        LayerCommand::SetContents(&surface),
        LayerCommand::CommitTransaction,
    ]
}

/// The commands that set up a new layer, in order.
///
/// Observing a key reports its present value at once, so the layer has the scale factor and bounds
/// of the root layer when these are done. The layer has no auto-resizing mask: where a view's
/// layout sets fractional bounds these would not propagate properly.
pub(crate) fn setup_commands<'a, S>() -> (commands: Vec<LayerCommand<'a, S>>)
    ensures
        commands@ == setup_list::<S>(),
{
    let mut commands: Vec<LayerCommand<'a, S>> = Vec::new();
    commands.push(LayerCommand::AddSublayer);
    commands.push(LayerCommand::AnchorAtOrigin);
    commands.push(LayerCommand::SetGeometryFlipped(true));
    commands.push(LayerCommand::AddObserver(KeyPath::ContentsScale));
    commands.push(LayerCommand::AddObserver(KeyPath::Bounds));
    commands.push(LayerCommand::ResizeContents);
    commands.push(LayerCommand::MagnifyNearest);
    commands.push(LayerCommand::MinifyNearest);
    commands.push(LayerCommand::SetOpaque(true));
    commands
}

/// The commands that take the layer down, in order.
///
/// The observer must not be deallocated while it is registered.
pub(crate) fn teardown_commands<'a, S>() -> (commands: Vec<LayerCommand<'a, S>>)
    ensures
        commands@ == teardown_list::<S>(),
{
    let mut commands: Vec<LayerCommand<'a, S>> = Vec::new();
    commands.push(LayerCommand::RemoveObserver(KeyPath::ContentsScale));
    commands.push(LayerCommand::RemoveObserver(KeyPath::Bounds));
    commands.push(LayerCommand::RemoveFromSuperlayer);
    commands
}

/// The commands that show a surface, in order.
///
/// A change of contents would by default be faded in over a quarter of a second. Disabling actions
/// for the transaction that it is part of avoids that.
pub(crate) fn show_commands<'a, S>(surface: &'a S) -> (commands: Vec<LayerCommand<'a, S>>)
    ensures
        commands@ == show_list(*surface),
{
    let mut commands: Vec<LayerCommand<'a, S>> = Vec::new();
    commands.push(LayerCommand::BeginTransaction);
    commands.push(LayerCommand::SetDisableActions(true));
    commands.push(LayerCommand::SetContents(surface));
    commands.push(LayerCommand::CommitTransaction);
    commands
}

/// What the commands do to a layer.
#[verifier::ext_equal]
pub struct LayerState<S> {
    /// Whether the layer is below the root layer.
    pub attached: bool,
    /// The keys of the root layer that are observed.
    pub observed: Set<KeyPath>,
    /// Whether a key was to be no longer observed that was not observed.
    pub bad_removal: bool,
    pub anchored_at_origin: bool,
    pub geometry_flipped: bool,
    pub contents_resized: bool,
    pub magnified_nearest: bool,
    pub minified_nearest: bool,
    pub opaque: bool,
    /// What is shown.
    pub contents: Option<S>,
    /// Everything that was shown so far, the latest last.
    pub history: Seq<S>,
    /// Whether a change of contents was animated.
    pub animated: bool,
    /// The open transactions, from the outermost to the current one: whether actions are disabled.
    pub transactions: Seq<bool>,
}

impl<S> LayerState<S> {
    /// A layer that nothing was done to.
    pub open spec fn created() -> Self {
        LayerState {
            attached: false,
            observed: Set::empty(),
            bad_removal: false,
            anchored_at_origin: false,
            geometry_flipped: false,
            contents_resized: false,
            magnified_nearest: false,
            minified_nearest: false,
            opaque: false,
            contents: None,
            history: Seq::empty(),
            animated: false,
            transactions: Seq::empty(),
        }
    }

    /// The layer after a command.
    pub open spec fn after(self, command: LayerCommand<S>) -> Self {
        match command {
            LayerCommand::AddSublayer => LayerState { attached: true, ..self },
            LayerCommand::RemoveFromSuperlayer => LayerState { attached: false, ..self },
            LayerCommand::AnchorAtOrigin => LayerState { anchored_at_origin: true, ..self },
            LayerCommand::SetGeometryFlipped(flipped) => LayerState {
                geometry_flipped: flipped,
                ..self
            },
            LayerCommand::AddObserver(key) => LayerState {
                observed: self.observed.insert(key),
                ..self
            },
            LayerCommand::RemoveObserver(key) => LayerState {
                observed: self.observed.remove(key),
                bad_removal: self.bad_removal || !self.observed.contains(key),
                ..self
            },
            LayerCommand::ResizeContents => LayerState { contents_resized: true, ..self },
            LayerCommand::MagnifyNearest => LayerState { magnified_nearest: true, ..self },
            LayerCommand::MinifyNearest => LayerState { minified_nearest: true, ..self },
            LayerCommand::SetOpaque(opaque) => LayerState { opaque, ..self },
            LayerCommand::BeginTransaction => LayerState {
                transactions: self.transactions.push(false),
                ..self
            },
            LayerCommand::SetDisableActions(disabled) => if self.transactions.len() == 0 {
                self
            } else {
                LayerState {
                    transactions: self.transactions.drop_last().push(disabled),
                    ..self
                }
            },
            LayerCommand::SetContents(surface) => LayerState {
                contents: Some(*surface),
                history: self.history.push(*surface),
                animated: self.animated || self.transactions.len() == 0
                    || !self.transactions.last(),
                ..self
            },
            LayerCommand::CommitTransaction => if self.transactions.len() == 0 {
                self
            } else {
                LayerState { transactions: self.transactions.drop_last(), ..self }
            },
        }
    }

    /// The layer after a list of commands.
    pub open spec fn after_all(self, commands: Seq<LayerCommand<S>>) -> Self
        decreases commands.len(),
    {
        if commands.len() == 0 {
            self
        } else {
            self.after(commands.first()).after_all(commands.drop_first())
        }
    }
}

/// A command that a surface gives between setting its layer up and taking it down.
pub open spec fn in_between<S>(command: LayerCommand<S>) -> bool {
    command is SetOpaque || command is BeginTransaction || command is SetDisableActions
        || command is SetContents || command is CommitTransaction
}

proof fn lemma_after_all_append<S>(
    state: LayerState<S>,
    first: Seq<LayerCommand<S>>,
    second: Seq<LayerCommand<S>>,
)
    ensures
        state.after_all(first + second) == state.after_all(first).after_all(second),
    decreases first.len(),
{
    if first.len() == 0 {
        assert(first + second =~= second);
    } else {
        assert((first + second).drop_first() =~= first.drop_first() + second);
        lemma_after_all_append(state.after(first.first()), first.drop_first(), second);
    }
}

proof fn lemma_in_between_keeps_place<S>(state: LayerState<S>, commands: Seq<LayerCommand<S>>)
    requires
        forall|i: int| 0 <= i < commands.len() ==> in_between(#[trigger] commands[i]),
    ensures
        state.after_all(commands).attached == state.attached,
        state.after_all(commands).observed == state.observed,
        state.after_all(commands).bad_removal == state.bad_removal,
    decreases commands.len(),
{
    if commands.len() > 0 {
        assert(in_between(commands[0]));
        let rest = commands.drop_first();
        assert forall|i: int| 0 <= i < rest.len() implies in_between(#[trigger] rest[i]) by {
            assert(rest[i] == commands[i + 1]);
        }
        lemma_in_between_keeps_place(state.after(commands.first()), rest);
    }
}

/// Setting up puts a new layer below the root layer, with its origin at the top left, both keys
/// observed, its contents stretched to fill it and scaled by nearest neighbour, and opaque.
pub proof fn law_setup_configures_the_layer<S>()
    ensures
        LayerState::<S>::created().after_all(setup_list()) == (LayerState {
            attached: true,
            observed: set![KeyPath::ContentsScale, KeyPath::Bounds],
            anchored_at_origin: true,
            geometry_flipped: true,
            contents_resized: true,
            magnified_nearest: true,
            minified_nearest: true,
            opaque: true,
            ..LayerState::<S>::created()
        }),
{
    reveal_with_fuel(LayerState::<_>::after_all, 10);
    let list = setup_list::<S>();
    let l1 = list.drop_first();
    let l2 = l1.drop_first();
    let l3 = l2.drop_first();
    let l4 = l3.drop_first();
    let l5 = l4.drop_first();
    let l6 = l5.drop_first();
    let l7 = l6.drop_first();
    let l8 = l7.drop_first();
    let l9 = l8.drop_first();
    assert(l9.len() == 0);
    let end = LayerState::<S>::created().after_all(list);
    assert(end.observed =~= set![KeyPath::ContentsScale, KeyPath::Bounds]);
}

/// Taking down a layer that is in place, with both keys observed.
pub(crate) proof fn lemma_teardown<S>(state: LayerState<S>)
    requires
        state.observed == set![KeyPath::ContentsScale, KeyPath::Bounds],
    ensures
        ({
            let end = state.after_all(teardown_list());
            &&& !end.attached
            &&& end.observed == Set::<KeyPath>::empty()
            &&& end.bad_removal == state.bad_removal
        }),
{
    reveal_with_fuel(LayerState::<_>::after_all, 4);
    let list = teardown_list::<S>();
    let l1 = list.drop_first();
    let l2 = l1.drop_first();
    let l3 = l2.drop_first();
    assert(l3.len() == 0);
    assert(state.after_all(list).observed =~= Set::<KeyPath>::empty());
}

/// Taking down undoes setting up, whatever was shown and however opaque the layer was made in
/// between: the layer is no longer below the root layer, no key is observed any more, and no
/// observer was removed that was not registered.
pub proof fn law_teardown_undoes_setup<S>(between: Seq<LayerCommand<S>>)
    requires
        forall|i: int| 0 <= i < between.len() ==> in_between(#[trigger] between[i]),
    ensures
        ({
            let end = LayerState::<S>::created().after_all(
                setup_list() + between + teardown_list(),
            );
            !end.attached && end.observed == Set::<KeyPath>::empty() && !end.bad_removal
        }),
{
    let created = LayerState::<S>::created();
    lemma_after_all_append(created, setup_list() + between, teardown_list());
    lemma_after_all_append(created, setup_list(), between);
    law_setup_configures_the_layer::<S>();
    lemma_in_between_keeps_place(created.after_all(setup_list()), between);
    lemma_teardown(created.after_all(setup_list()).after_all(between));
}

/// Showing a surface changes what the layer shows, at once and without an animation, and leaves
/// every transaction that was open as it was.
pub proof fn law_showing_is_not_animated<S>(state: LayerState<S>, surface: S)
    ensures
        state.after_all(show_list(surface)) == (LayerState {
            contents: Some(surface),
            history: state.history.push(surface),
            ..state
        }),
        forall|i: int|
            0 <= i < show_list(surface).len() ==> in_between(#[trigger] show_list(surface)[i]),
{
    reveal_with_fuel(LayerState::<_>::after_all, 5);
    let list = show_list(surface);
    let l1 = list.drop_first();
    let l2 = l1.drop_first();
    let l3 = l2.drop_first();
    let l4 = l3.drop_first();
    assert(l4.len() == 0);
    let end = state.after_all(list);
    assert(end.transactions =~= state.transactions);
}

/// The names of keys are told apart: each is read back as the key it is the name of.
pub proof fn law_key_names_are_read_back(key: KeyPath)
    ensures
        KeyPath::spec_parse(key.spec_name()) == Some(key),
{
    reveal_strlit("contentsScale");
    reveal_strlit("bounds");
    assert("bounds"@.len() != "contentsScale"@.len());
}

/// A key is told by its name alone: one name is that of the scale factor, another that of the
/// bounds, and no other name is that of a key that is observed.
pub proof fn law_keys_are_told_by_their_names(name: Seq<char>)
    ensures
        KeyPath::spec_parse(name) == Some(KeyPath::ContentsScale) <==> name == "contentsScale"@,
        KeyPath::spec_parse(name) == Some(KeyPath::Bounds) <==> name == "bounds"@,
        KeyPath::ContentsScale.spec_name() == "contentsScale"@,
        KeyPath::Bounds.spec_name() == "bounds"@,
        "contentsScale"@ != "bounds"@,
{
    reveal_strlit("contentsScale");
    reveal_strlit("bounds");
    assert("bounds"@.len() != "contentsScale"@.len());
}

} // verus!
