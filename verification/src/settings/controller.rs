//! Keeps the settings in force in step with the files.
//!
//! The program looks at the files now and then, by their names and the times of
//! their last change; the controller says whether anything is new.
use crate::controller::Poll;
use crate::settings::layers::{
    origin_of, resolved, resolved_as_of, Layer, Layers, LayersView,
};
use crate::settings::overlay::SettingsOverlay;
use crate::settings::Settings;
use crate::text::{joined, same};
use vstd::prelude::*;

verus! {

/// How long the files are left alone between two looks, in milliseconds.
pub const CHECK_INTERVAL: u64 = 1000;

/// A settings file with the time of its last change; `None` where it does not
/// exist.
pub struct Stamp {
    pub path: String,
    pub modified: Option<u64>,
}

/// The view of the stamps of all files. The names are part of it, so a file
/// that appears or goes counts as a change.
pub open spec fn stamp_views(stamps: Seq<Stamp>) -> Seq<(Seq<char>, Option<u64>)> {
    stamps.map_values(|s: Stamp| (s.path@, s.modified))
}

/// The settings in force and where they came from.
pub struct SettingsController {
    pub current: Settings,
    /// What each source says, so that one scope can be read.
    pub layers: Layers,
    pub seen: Vec<Stamp>,
    /// When to look next.
    pub next_check: u64,
    pub overlay: Option<SettingsOverlay>,
}

/// The view of a [`SettingsController`].
pub struct ControllerView {
    pub current: Settings<Seq<char>>,
    pub layers: LayersView,
    pub seen: Seq<(Seq<char>, Option<u64>)>,
    pub next_check: u64,
}

impl View for SettingsController {
    type V = ControllerView;

    open spec fn view(&self) -> ControllerView {
        ControllerView {
            current: self.current@,
            layers: self.layers@,
            seen: stamp_views(self.seen@),
            next_check: self.next_check,
        }
    }
}

/// A time later by the interval.
pub open spec fn after_interval(now: u64) -> u64 {
    if now + CHECK_INTERVAL > u64::MAX {
        u64::MAX
    } else {
        (now + CHECK_INTERVAL) as u64
    }
}

/// The settings after the files were read anew. Files that cannot be read
/// change nothing.
pub open spec fn reloaded(
    before: ControllerView,
    loaded: Result<LayersView, Seq<char>>,
) -> (ControllerView, Result<bool, Seq<char>>) {
    match loaded {
        Err(error) => (before, Err(error + " — previous settings kept"@)),
        Ok(layers) => (
            ControllerView { current: resolved(layers), layers, ..before },
            Ok(resolved(layers) != before.current),
        ),
    }
}

/// The settings after a look at the files.
pub open spec fn polled(
    before: ControllerView,
    now: u64,
    stamps: Seq<(Seq<char>, Option<u64>)>,
    loaded: Result<LayersView, Seq<char>>,
) -> (ControllerView, Result<Poll, Seq<char>>) {
    if now < before.next_check {
        (before, Ok(Poll::Idle))
    } else {
        let looked = ControllerView { next_check: after_interval(now), ..before };
        if stamps == before.seen {
            (looked, Ok(Poll::Idle))
        } else {
            let (after, result) = reloaded(ControllerView { seen: stamps, ..looked }, loaded);
            (
                after,
                match result {
                    Ok(true) => Ok(Poll::Changed),
                    Ok(false) => Ok(Poll::Idle),
                    Err(error) => Err(error),
                },
            )
        }
    }
}

/// The view of what came of reading the files.
pub open spec fn loaded_view(loaded: Result<Layers, String>) -> Result<LayersView, Seq<char>> {
    match loaded {
        Ok(layers) => Ok(layers@),
        Err(error) => Err(error@),
    }
}

fn same_stamps(a: &Vec<Stamp>, b: &Vec<Stamp>) -> (out: bool)
    ensures
        out == (stamp_views(a@) == stamp_views(b@)),
{
    assert(stamp_views(a@).len() == a@.len());
    assert(stamp_views(b@).len() == b@.len());
    if a.len() != b.len() {
        return false;
    }
    let mut i: usize = 0;
    while i < a.len()
        invariant
            i <= a@.len() == b@.len(),
            forall|k: int| 0 <= k < i ==> #[trigger] stamp_views(a@)[k] == stamp_views(b@)[k],
        decreases a@.len() - i,
    {
        let same_time = match (a[i].modified, b[i].modified) {
            (Some(x), Some(y)) => x == y,
            (None, None) => true,
            _ => false,
        };
        if !same_time || !same(a[i].path.as_str(), b[i].path.as_str()) {
            assert(stamp_views(a@)[i as int] != stamp_views(b@)[i as int]);
            return false;
        }
        i += 1;
    }
    assert(stamp_views(a@) =~= stamp_views(b@));
    true
}

impl SettingsController {
    /// The settings of the files as they were just read.
    pub fn new(layers: Layers, seen: Vec<Stamp>, now: u64) -> (out: SettingsController)
        ensures
            out@ == (ControllerView {
                current: resolved(layers@),
                layers: layers@,
                seen: stamp_views(seen@),
                next_check: after_interval(now),
            }),
            out.overlay is None,
    {
        SettingsController {
            current: layers.resolve(),
            layers,
            seen,
            next_check: now.saturating_add(CHECK_INTERVAL),
            overlay: None,
        }
    }

    /// What a row in `scope` shows and edits, rather than the value in force.
    pub fn as_of(&self, scope: Layer) -> (out: Settings)
        ensures
            out@ == resolved_as_of(self@.layers, scope),
    {
        self.layers.resolve_as_of(scope)
    }

    /// The values in force.
    pub fn current(&self) -> (out: &Settings)
        ensures
            *out == self.current,
    {
        &self.current
    }

    /// Which source supplies a key's value.
    pub fn origin(&self, key: &str) -> (out: Layer)
        ensures
            out == origin_of(self@.layers, key@),
    {
        self.layers.origin_layer(key)
    }

    /// Where a write in a scope lands: in the project's file, or where one would
    /// be made, and else in the global file.
    pub fn path(scope: Layer, project_file: Option<String>, target: String, global: String) -> (out:
        String)
        ensures
            out == if scope == Layer::Project {
                match project_file {
                    Some(path) => path,
                    None => target,
                }
            } else {
                global
            },
    {
        match scope {
            Layer::Project => match project_file {
                Some(path) => path,
                None => target,
            },
            _ => global,
        }
    }

    /// Whether it is time to look at the files.
    pub fn is_due(&self, now: u64) -> (out: bool)
        ensures
            out == (now >= self.next_check),
    {
        now >= self.next_check
    }

    /// Take in a look at the files: `Changed` means that the values in force are
    /// others now. A file that is broken is reported once for each change of it,
    /// and the values stay.
    pub fn poll(
        &mut self,
        now: u64,
        stamps: Vec<Stamp>,
        loaded: Result<Layers, String>,
    ) -> (out: Result<Poll, String>)
        ensures
            final(self).overlay == old(self).overlay,
            (
                final(self)@,
                match out {
                    Ok(poll) => Ok(poll),
                    Err(error) => Err(error@),
                },
            ) == polled(old(self)@, now, stamp_views(stamps@), loaded_view(loaded)),
    {
        if now < self.next_check {
            return Ok(Poll::Idle);
        }
        self.next_check = now.saturating_add(CHECK_INTERVAL);
        if same_stamps(&stamps, &self.seen) {
            return Ok(Poll::Idle);
        }
        self.seen = stamps;
        match self.reload(loaded) {
            Ok(true) => Ok(Poll::Changed),
            Ok(false) => Ok(Poll::Idle),
            Err(error) => Err(error),
        }
    }

    /// Take in the files as they were read after a write to one of them.
    pub fn written(&mut self, stamps: Vec<Stamp>, loaded: Result<Layers, String>) -> (out: Result<
        bool,
        String,
    >)
        ensures
            final(self).overlay == old(self).overlay,
            (
                final(self)@,
                match out {
                    Ok(changed) => Ok(changed),
                    Err(error) => Err(error@),
                },
            ) == reloaded(
                ControllerView { seen: stamp_views(stamps@), ..old(self)@ },
                loaded_view(loaded),
            ),
    {
        self.seen = stamps;
        self.reload(loaded)
    }

    fn reload(&mut self, loaded: Result<Layers, String>) -> (out: Result<bool, String>)
        ensures
            final(self).overlay == old(self).overlay,
            (
                final(self)@,
                match out {
                    Ok(changed) => Ok(changed),
                    Err(error) => Err(error@),
                },
            ) == reloaded(old(self)@, loaded_view(loaded)),
    {
        match loaded {
            Err(error) => Err(joined(error.as_str(), " — previous settings kept")),
            Ok(layers) => {
                let next = layers.resolve();
                self.layers = layers;
                if next.same_as(&self.current) {
                    Ok(false)
                } else {
                    self.current = next;
                    Ok(true)
                }
            },
        }
    }
}

/// A broken file leaves the values in force as they were, and is not reported
/// again until it changes.
pub proof fn a_broken_file_is_reported_once(
    before: ControllerView,
    now: u64,
    later: u64,
    stamps: Seq<(Seq<char>, Option<u64>)>,
    error: Seq<char>,
    again: Result<LayersView, Seq<char>>,
)
    requires
        now >= before.next_check,
        stamps != before.seen,
    ensures
        ({
            let (first, reported) = polled(before, now, stamps, Err(error));
            let (second, silence) = polled(first, later, stamps, again);
            &&& reported is Err
            &&& first.current == before.current
            &&& first.layers == before.layers
            &&& silence == Ok::<Poll, Seq<char>>(Poll::Idle)
            &&& second.current == before.current
        }),
{
}

/// The values in force are always those of the sources that were read last.
pub proof fn the_values_in_force_are_the_sources(
    before: ControllerView,
    now: u64,
    stamps: Seq<(Seq<char>, Option<u64>)>,
    loaded: Result<LayersView, Seq<char>>,
)
    requires
        before.current == resolved(before.layers),
    ensures
        ({
            let (after, result) = polled(before, now, stamps, loaded);
            &&& after.current == resolved(after.layers)
            &&& result == Ok::<Poll, Seq<char>>(Poll::Changed) <==> after.current
                != before.current
        }),
{
}

/// A file that has changed and can be read is applied: its values are in force from
/// then on, and the caller is told exactly where they differ from those before.
pub proof fn changed_files_are_applied(
    before: ControllerView,
    now: u64,
    stamps: Seq<(Seq<char>, Option<u64>)>,
    layers: LayersView,
)
    requires
        now >= before.next_check,
        stamps != before.seen,
    ensures
        ({
            let (after, result) = polled(before, now, stamps, Ok(layers));
            &&& after.layers == layers
            &&& after.current == resolved(layers)
            &&& after.seen == stamps
            &&& result == Ok::<Poll, Seq<char>>(
                if resolved(layers) != before.current {
                    Poll::Changed
                } else {
                    Poll::Idle
                },
            )
        }),
{
}

/// Files are looked at no more than once in a second, and ones that have not changed
/// are not read.
pub proof fn files_are_looked_at_once_in_a_second(
    before: ControllerView,
    now: u64,
    stamps: Seq<(Seq<char>, Option<u64>)>,
    loaded: Result<LayersView, Seq<char>>,
)
    ensures
        now < before.next_check ==> polled(before, now, stamps, loaded) == (
            before,
            Ok::<Poll, Seq<char>>(Poll::Idle),
        ),
        now >= before.next_check && now + 1000 <= u64::MAX ==> polled(
            before,
            now,
            stamps,
            loaded,
        ).0.next_check == now + 1000,
        stamps == before.seen ==> {
            let (after, result) = polled(before, now, stamps, loaded);
            &&& result == Ok::<Poll, Seq<char>>(Poll::Idle)
            &&& after.current == before.current
            &&& after.layers == before.layers
        },
{
}

/// An error says that the settings before it were kept.
pub proof fn errors_say_what_was_kept(before: ControllerView, error: Seq<char>)
    ensures
        reloaded(before, Err(error)).0 == before,
        reloaded(before, Err(error)).1 is Err,
        error.is_prefix_of(reloaded(before, Err(error)).1->Err_0),
{
    let told = reloaded(before, Err(error)).1->Err_0;
    assert(error =~= told.take(error.len() as int));
}

} // verus!
