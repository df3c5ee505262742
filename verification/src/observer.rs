//! Keeping the surface's layer in step with the root layer.
//!
//! The bounds and the scale factor of the layer follow the root layer. The size of the buffers does
//! not: that is for the user of the surface to choose.
use vstd::prelude::*;

use crate::layer::KeyPath;

verus! {

/// A value that an observer was told. Numbers are values too, but none that hold a rectangle.
#[derive(Debug, PartialEq, Eq)]
pub enum ObservedValue<N, R> {
    /// A number.
    Number(N),
    /// A value other than a number, with the rectangle that it holds, if it holds one.
    Value(Option<R>),
    /// Anything else.
    Other,
}

/// What to do to the layer. A transaction is under way while an observer runs, so there is no need
/// for another to suppress animations.
#[derive(Debug, PartialEq, Eq)]
pub enum LayerUpdate<N, R> {
    /// Set the scale factor.
    ContentsScale(N),
    /// Set bounds and position so that the layer covers this part of the root layer. Unlike bounds
    /// alone, this takes a translation of the root layer into account.
    Frame(R),
}

/// A notification that cannot have come from the way that observing was asked for.
#[derive(Clone, Copy, Debug, PartialEq, Eq, Structural)]
pub enum ObserverError {
    /// There is no change dictionary.
    NoChange,
    /// The change dictionary does not hold the new value.
    NoNewValue,
    /// The new value is not of the class that the key has.
    WrongClass,
    /// The new bounds are not a rectangle.
    NotARect,
    /// The key path is none that was asked for.
    UnknownKeyPath,
}

/// What a new value for a key leads to.
pub open spec fn update_for_key<N, R>(key: Option<KeyPath>, new: ObservedValue<N, R>) -> Result<
    LayerUpdate<N, R>,
    ObserverError,
> {
    match (key, new) {
        (Some(KeyPath::ContentsScale), ObservedValue::Number(scale)) => Ok(
            LayerUpdate::ContentsScale(scale),
        ),
        (Some(KeyPath::ContentsScale), _) => Err(ObserverError::WrongClass),
        (Some(KeyPath::Bounds), ObservedValue::Value(Some(bounds))) => Ok(
            LayerUpdate::Frame(bounds),
        ),
        (Some(KeyPath::Bounds), ObservedValue::Other) => Err(ObserverError::WrongClass),
        (Some(KeyPath::Bounds), _) => Err(ObserverError::NotARect),
        (None, _) => Err(ObserverError::UnknownKeyPath),
    }
}

/// What a notification leads to. `change` is the change dictionary, reduced to the new value in it.
pub open spec fn update_for<N, R>(
    key_path: Option<Seq<char>>,
    change: Option<Option<ObservedValue<N, R>>>,
) -> Result<LayerUpdate<N, R>, ObserverError> {
    match change {
        None => Err(ObserverError::NoChange),
        Some(None) => Err(ObserverError::NoNewValue),
        Some(Some(new)) => match key_path {
            None => Err(ObserverError::UnknownKeyPath),
            Some(name) => update_for_key(KeyPath::spec_parse(name), new),
        },
    }
}

/// The characters of a string, where there is one.
pub open spec fn chars_of(text: Option<&str>) -> Option<Seq<char>> {
    match text {
        Some(text) => Some(text@),
        None => None,
    }
}

/// Decides what a change to the root layer means for the surface's layer.
pub fn update<N, R>(
    key_path: Option<&str>,
    change: Option<Option<ObservedValue<N, R>>>,
) -> (result: Result<LayerUpdate<N, R>, ObserverError>)
    ensures
        result == update_for(chars_of(key_path), change),
        match change {
            None => result == Err::<LayerUpdate<N, R>, _>(ObserverError::NoChange),
            Some(None) => result == Err::<LayerUpdate<N, R>, _>(ObserverError::NoNewValue),
            Some(Some(new)) => {
                &&& (key_path matches Some(name) && name@ == "contentsScale"@) ==> result
                    == (match new {
                    ObservedValue::Number(scale) => Ok(
                        LayerUpdate::<N, R>::ContentsScale(scale),
                    ),
                    ObservedValue::Value(_) => Err(ObserverError::WrongClass),
                    ObservedValue::Other => Err(ObserverError::WrongClass),
                })
                &&& (key_path matches Some(name) && name@ == "bounds"@) ==> result == (match new {
                    ObservedValue::Value(Some(bounds)) => Ok(LayerUpdate::<N, R>::Frame(bounds)),
                    ObservedValue::Value(None) => Err(ObserverError::NotARect),
                    ObservedValue::Number(_) => Err(ObserverError::NotARect),
                    ObservedValue::Other => Err(ObserverError::WrongClass),
                })
                &&& (key_path matches Some(name) ==> name@ != "contentsScale"@ && name@
                    != "bounds"@) ==> result == Err::<LayerUpdate<N, R>, _>(
                    ObserverError::UnknownKeyPath,
                )
            },
        },
{
    proof {
        law_notifications_are_understood(chars_of(key_path), change);
    }
    let new = match change {
        None => return Err(ObserverError::NoChange),
        Some(None) => return Err(ObserverError::NoNewValue),
        Some(Some(new)) => new,
    };
    let key = match key_path {
        None => None,
        Some(name) => KeyPath::parse(name),
    };
    match key {
        Some(KeyPath::ContentsScale) => match new {
            ObservedValue::Number(scale) => Ok(LayerUpdate::ContentsScale(scale)),
            _ => Err(ObserverError::WrongClass),
        },
        Some(KeyPath::Bounds) => match new {
            ObservedValue::Value(Some(bounds)) => Ok(LayerUpdate::Frame(bounds)),
            ObservedValue::Other => Err(ObserverError::WrongClass),
            _ => Err(ObserverError::NotARect),
        },
        None => Err(ObserverError::UnknownKeyPath),
    }
}

/// Every key that setting up a layer observes is one that notifications are understood for.
pub proof fn law_observed_keys_are_known<N, R>(key: KeyPath, new: ObservedValue<N, R>)
    ensures
        update_for(Some(key.spec_name()), Some(Some(new))) != Err::<LayerUpdate<N, R>, _>(
            ObserverError::UnknownKeyPath,
        ),
        key is ContentsScale && new is Number ==> update_for(
            Some(key.spec_name()),
            Some(Some(new)),
        ) == Ok::<_, ObserverError>(LayerUpdate::<N, R>::ContentsScale(new->Number_0)),
        key is Bounds && (new matches ObservedValue::Value(Some(_))) ==> update_for(
            Some(key.spec_name()),
            Some(Some(new)),
        ) == Ok::<_, ObserverError>(LayerUpdate::<N, R>::Frame(new->Value_0->0)),
{
    crate::layer::law_key_names_are_read_back(key);
}

/// What a notification leads to, for every key path and every change dictionary. A number for the
/// scale factor and a rectangle for the bounds are passed on as they are. All else is an error.
pub proof fn law_notifications_are_understood<N, R>(
    key_path: Option<Seq<char>>,
    change: Option<Option<ObservedValue<N, R>>>,
)
    ensures
        ({
            let result = update_for(key_path, change);
            match change {
                None => result == Err::<LayerUpdate<N, R>, _>(ObserverError::NoChange),
                Some(None) => result == Err::<LayerUpdate<N, R>, _>(ObserverError::NoNewValue),
                Some(Some(new)) => {
                    &&& (key_path matches Some(name) && name == "contentsScale"@) ==> result
                        == (match new {
                        ObservedValue::Number(scale) => Ok(
                            LayerUpdate::<N, R>::ContentsScale(scale),
                        ),
                        ObservedValue::Value(_) => Err(ObserverError::WrongClass),
                        ObservedValue::Other => Err(ObserverError::WrongClass),
                    })
                    &&& (key_path matches Some(name) && name == "bounds"@) ==> result
                        == (match new {
                        ObservedValue::Value(Some(bounds)) => Ok(
                            LayerUpdate::<N, R>::Frame(bounds),
                        ),
                        ObservedValue::Value(None) => Err(ObserverError::NotARect),
                        ObservedValue::Number(_) => Err(ObserverError::NotARect),
                        ObservedValue::Other => Err(ObserverError::WrongClass),
                    })
                    &&& (key_path matches Some(name) ==> name != "contentsScale"@ && name
                        != "bounds"@) ==> result == Err::<LayerUpdate<N, R>, _>(
                        ObserverError::UnknownKeyPath,
                    )
                },
            }
        }),
{
    if let Some(name) = key_path {
        crate::layer::law_keys_are_told_by_their_names(name);
    }
}

/// A notification: the key path, and the change dictionary reduced to the new value in it.
pub struct Notification<N, R> {
    pub key_path: Option<Seq<char>>,
    pub change: Option<Option<ObservedValue<N, R>>>,
}

impl<N, R> Notification<N, R> {
    /// What the notification leads to.
    pub open spec fn update(self) -> Result<LayerUpdate<N, R>, ObserverError> {
        update_for(self.key_path, self.change)
    }

    /// Whether this tells of the given key.
    pub open spec fn is_of(self, key: KeyPath) -> bool {
        self.key_path matches Some(name) && KeyPath::spec_parse(name) == Some(key)
    }
}

/// The scale factor and the frame of the surface's layer, as far as they were set.
#[verifier::ext_equal]
pub struct LayerGeometry<N, R> {
    pub scale: Option<N>,
    pub frame: Option<R>,
}

impl<N, R> LayerGeometry<N, R> {
    /// Nothing was set yet.
    pub open spec fn unset() -> Self {
        LayerGeometry { scale: None, frame: None }
    }

    /// The geometry once the layer was updated as a notification asks for.
    pub open spec fn after(self, notification: Notification<N, R>) -> Self {
        match notification.update() {
            Ok(LayerUpdate::ContentsScale(scale)) => LayerGeometry { scale: Some(scale), ..self },
            Ok(LayerUpdate::Frame(frame)) => LayerGeometry { frame: Some(frame), ..self },
            Err(_) => self,
        }
    }

    /// The geometry after a number of notifications.
    pub open spec fn after_all(self, notifications: Seq<Notification<N, R>>) -> Self
        decreases notifications.len(),
    {
        if notifications.len() == 0 {
            self
        } else {
            self.after_all(notifications.drop_last()).after(notifications.last())
        }
    }
}

/// The reports that observing gives at once: the values that the keys have when they come to be
/// observed, in the order in which setting up a layer observes them.
pub open spec fn initial_reports<N, R>(scale: N, bounds: R) -> Seq<Notification<N, R>> {
    seq![
        Notification {
            key_path: Some(KeyPath::ContentsScale.spec_name()),
            change: Some(Some(ObservedValue::Number(scale))),
        },
        Notification {
            key_path: Some(KeyPath::Bounds.spec_name()),
            change: Some(Some(ObservedValue::Value(Some(bounds)))),
        },
    ]
}

/// A layer that was just set up has the scale factor and the bounds of the root layer: the initial
/// reports set both.
pub proof fn law_initial_reports_set_the_geometry<N, R>(
    geometry: LayerGeometry<N, R>,
    scale: N,
    bounds: R,
)
    ensures
        geometry.after_all(initial_reports(scale, bounds)) == (LayerGeometry {
            scale: Some(scale),
            frame: Some(bounds),
        }),
        all_understood(initial_reports(scale, bounds)),
{
    crate::layer::law_key_names_are_read_back(KeyPath::ContentsScale);
    crate::layer::law_key_names_are_read_back(KeyPath::Bounds);
    reveal_with_fuel(LayerGeometry::<_, _>::after_all, 3);
    let reports = initial_reports(scale, bounds);
    assert(reports.drop_last().len() == 1);
    assert(reports.drop_last().last() == reports[0]);
    assert(reports.drop_last().drop_last().len() == 0);
}

/// The value that was told last of a key, if any was.
pub open spec fn latest<N, R>(notifications: Seq<Notification<N, R>>, key: KeyPath) -> Option<
    ObservedValue<N, R>,
>
    decreases notifications.len(),
{
    if notifications.len() == 0 {
        None
    } else if notifications.last().is_of(key) {
        match notifications.last().change {
            Some(new) => new,
            None => None,
        }
    } else {
        latest(notifications.drop_last(), key)
    }
}

/// The geometry `after` notifications is what they told last, and otherwise that `before`: the scale
/// factor is the number told last of the scale factor, and the frame the rectangle told last of the
/// bounds.
pub open spec fn follows<N, R>(
    before: LayerGeometry<N, R>,
    notifications: Seq<Notification<N, R>>,
    after: LayerGeometry<N, R>,
) -> bool {
    &&& match latest(notifications, KeyPath::ContentsScale) {
        Some(ObservedValue::Number(scale)) => after.scale == Some(scale),
        Some(_) => false,
        None => after.scale == before.scale,
    }
    &&& match latest(notifications, KeyPath::Bounds) {
        Some(ObservedValue::Value(Some(bounds))) => after.frame == Some(bounds),
        Some(_) => false,
        None => after.frame == before.frame,
    }
}

/// Every notification was understood.
pub open spec fn all_understood<N, R>(notifications: Seq<Notification<N, R>>) -> bool {
    forall|i: int| 0 <= i < notifications.len() ==> (#[trigger] notifications[i]).update() is Ok
}

/// The layer follows the root layer. After any notifications that were all understood, in whatever
/// order, its scale factor and its frame are what was told last of each.
pub proof fn law_layer_follows_the_root_layer<N, R>(
    geometry: LayerGeometry<N, R>,
    notifications: Seq<Notification<N, R>>,
)
    requires
        all_understood(notifications),
    ensures
        follows(geometry, notifications, geometry.after_all(notifications)),
    decreases notifications.len(),
{
    if notifications.len() > 0 {
        let earlier = notifications.drop_last();
        assert forall|i: int| 0 <= i < earlier.len() implies (#[trigger] earlier[i]).update()
            is Ok by {
            assert(earlier[i] == notifications[i]);
        }
        law_layer_follows_the_root_layer(geometry, earlier);
        assert(notifications[notifications.len() - 1].update() is Ok);
    }
}

} // verus!
