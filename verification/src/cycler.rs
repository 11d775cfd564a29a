//! The skybox cycler: a timed state machine that selects the next cube-map
//! texture a device can show, asks for it to be loaded, and applies it once
//! the load has completed.
//!
//! The cycler decides; its caller acts. A load request and a cube to set up
//! come back as values, and the caller reports what the asset system says.

use crate::catalog::{
    as_ints, next_index, skipped_entries, support_of, Catalog, EntryView, Scan,
};
use crate::formats::{device_formats, FormatSet};
use crate::schedule::{SwapTimer, SWAP_DELAY_MS};
use vstd::prelude::*;

verus! {

/// Edge length of the cube that carries the skybox texture.
pub const SKYBOX_CUBE_SIZE: u32 = 10_000;

/// What the asset system reports of a requested asset.
#[derive(Clone, Copy, Debug, PartialEq, Eq, Structural)]
pub enum LoadState {
    /// The load has not begun.
    NotLoaded,
    /// The load is under way.
    Loading,
    /// The asset is loaded and can be used.
    Loaded,
    /// The load has failed. The cycler goes on waiting: it neither retries
    /// nor gives up.
    Failed,
}

/// The size of a decoded image: its width and height in texels and the number
/// of array layers it is split into.
#[derive(Clone, Copy, Debug, PartialEq, Eq)]
pub struct ImageLayout {
    pub width: u32,
    pub height: u32,
    pub array_layers: u32,
}

impl ImageLayout {
    /// The number of layers to restack the image into before it can serve as a
    /// cube-map. An image of a single layer holds its square faces stacked
    /// vertically, one face for each multiple of its width in its height. An
    /// image that has array layers already is left as it is.
    pub open spec fn stack_layers(self) -> Option<u32> {
        if self.array_layers == 1 {
            Some((self.height / self.width) as u32)
        } else {
            None
        }
    }

    /// Computes [`Self::stack_layers`].
    pub fn restack(&self) -> (r: Option<u32>)
        requires
            self.array_layers == 1 ==> self.width > 0,
        ensures
            r == self.stack_layers(),
    {
        if self.array_layers == 1 {
            Some(self.height / self.width)
        } else {
            None
        }
    }
}

/// What to do once a texture has loaded: show catalog entry `index` on the
/// skybox cube, after restacking its image where `restack` says so.
#[derive(Clone, Copy, Debug, PartialEq, Eq)]
pub struct CubeSetup {
    /// The catalog entry whose texture goes onto the cube.
    pub index: usize,
    /// `Some(layers)`: reinterpret the image as an array of `layers` layers
    /// and view it as a cube-map. `None`: use the image as it is.
    pub restack: Option<u32>,
}

/// What one advance of the cycler did.
#[derive(Debug)]
pub struct Advance {
    /// The entries passed over as unsupported, in scan order: one notice is
    /// due for each.
    pub skipped: Vec<usize>,
    /// The entry to request from the asset system, when the selection moved.
    pub load: Option<usize>,
}

/// Which texture is selected, whether it is on display yet, and which one is.
#[derive(Clone, Copy, Debug, PartialEq, Eq)]
pub struct CubemapState {
    /// Whether the selected texture has finished loading and is applied to
    /// the skybox cube.
    pub loaded: bool,
    /// The catalog entry that is selected.
    pub index: usize,
    /// The catalog entry whose texture the skybox cube shows; `None` while no
    /// cube has been set up.
    pub shown: Option<usize>,
}

impl CubemapState {
    /// The entry an advance moves the selection to.
    pub open spec fn advance_target(self, support: Seq<bool>) -> int {
        next_index(support, self.index as int)
    }

    /// The load request that an advance makes: the new entry where the
    /// selection moves, none where the scan ends on the selected entry.
    pub open spec fn load_request(self, support: Seq<bool>) -> Option<usize> {
        if self.advance_target(support) != self.index {
            Some(self.advance_target(support) as usize)
        } else {
            None
        }
    }

    /// The state after an advance. Where the selection moves the new texture
    /// is not loaded yet, and the cube goes on showing what it showed; where
    /// the selection stays nothing changes.
    pub open spec fn after_advance(self, support: Seq<bool>) -> CubemapState {
        if self.advance_target(support) != self.index {
            CubemapState {
                loaded: false,
                index: self.advance_target(support) as usize,
                shown: self.shown,
            }
        } else {
            self
        }
    }

    /// Whether a completion check that observes `load` applies the texture:
    /// the selected texture is not applied yet, and its load has completed.
    pub open spec fn completion_due(self, load: LoadState) -> bool {
        !self.loaded && load == LoadState::Loaded
    }

    /// The state after a completion check that observes `load`. Where the
    /// check applies the texture, the cube shows the selected entry from now
    /// on; otherwise nothing changes.
    pub open spec fn after_load_check(self, load: LoadState) -> CubemapState {
        if self.completion_due(load) {
            CubemapState { loaded: true, index: self.index, shown: Some(self.index) }
        } else {
            self
        }
    }

    /// The cube to set up in a completion check that observes `load` on an
    /// image of layout `layout`.
    pub open spec fn cube_setup(self, load: LoadState, layout: ImageLayout) -> Option<CubeSetup> {
        if self.completion_due(load) {
            Some(CubeSetup { index: self.index, restack: layout.stack_layers() })
        } else {
            None
        }
    }

    /// A texture that counts as loaded is the one on display.
    pub open spec fn displays_selection(self) -> bool {
        self.loaded ==> self.shown == Some(self.index)
    }

    /// The state after a run of completion checks, one for each observation.
    pub open spec fn after_load_checks(self, observed: Seq<LoadState>) -> CubemapState
        decreases observed.len(),
    {
        if observed.len() == 0 {
            self
        } else {
            self.after_load_checks(observed.drop_last()).after_load_check(observed.last())
        }
    }

    /// How many checks of a run of completion checks apply the texture.
    pub open spec fn completions(self, observed: Seq<LoadState>) -> nat
        decreases observed.len(),
    {
        if observed.len() == 0 {
            0
        } else {
            let before = self.completions(observed.drop_last());
            if self.after_load_checks(observed.drop_last()).completion_due(observed.last()) {
                before + 1
            } else {
                before
            }
        }
    }
}

/// A completion check never takes `loaded` from true to false, and never
/// touches the selection. Where it changes the state at all, it takes `loaded`
/// from false to true and puts the selected texture on display.
pub proof fn lemma_load_check_monotone(state: CubemapState, load: LoadState)
    ensures
        state.after_load_check(load).index == state.index,
        state.loaded ==> state.after_load_check(load) == state,
        state.after_load_check(load) != state ==> {
            &&& !state.loaded
            &&& load == LoadState::Loaded
            &&& state.after_load_check(load).loaded
            &&& state.after_load_check(load).shown == Some(state.index)
        },
{
}

/// Once per load request. Over any run of completion checks on one selection,
/// the texture is applied exactly once if it was pending and its load was ever
/// seen complete, and never otherwise; later observations change nothing.
pub proof fn lemma_completes_once(state: CubemapState, observed: Seq<LoadState>)
    ensures
        state.completions(observed) == if !state.loaded && observed.contains(LoadState::Loaded) {
            1nat
        } else {
            0nat
        },
        state.after_load_checks(observed).index == state.index,
        state.after_load_checks(observed).loaded == (state.loaded || observed.contains(
            LoadState::Loaded,
        )),
        state.after_load_checks(observed).shown == if !state.loaded && observed.contains(
            LoadState::Loaded,
        ) {
            Some(state.index)
        } else {
            state.shown
        },
    decreases observed.len(),
{
    if observed.len() > 0 {
        let front = observed.drop_last();
        lemma_completes_once(state, front);
        assert(observed.contains(LoadState::Loaded) <==> (front.contains(LoadState::Loaded)
            || observed.last() == LoadState::Loaded)) by {
            if front.contains(LoadState::Loaded) {
                let i = choose|i: int| 0 <= i < front.len() && front[i] == LoadState::Loaded;
                assert(observed[i] == LoadState::Loaded);
            }
            if observed.last() == LoadState::Loaded {
                assert(observed[observed.len() - 1] == LoadState::Loaded);
            }
            if observed.contains(LoadState::Loaded) {
                let i = choose|i: int| 0 <= i < observed.len() && observed[i] == LoadState::Loaded;
                if i < front.len() {
                    assert(front[i] == LoadState::Loaded);
                }
            }
        }
    }
}

/// The cube is never swapped before the new texture has loaded. An advance
/// leaves on display what was on display, and so does every completion check
/// but one that sees the load complete. And where a texture that counts as
/// loaded is the one on display, that is still so after an advance and after a
/// completion check.
pub proof fn lemma_display_kept(state: CubemapState, support: Seq<bool>, load: LoadState)
    ensures
        state.after_advance(support).shown == state.shown,
        load != LoadState::Loaded ==> state.after_load_check(load).shown == state.shown,
        state.displays_selection() ==> state.after_advance(support).displays_selection()
            && state.after_load_check(load).displays_selection(),
{
}

/// What a [`Cycler`] is: its catalog, its selection and its schedule.
pub struct CyclerView {
    pub catalog: Seq<EntryView>,
    pub state: CubemapState,
    pub timer: SwapTimer,
}

impl CyclerView {
    /// The selection is an entry of the catalog, and so is what the cube
    /// shows; and a texture that counts as loaded is the one on display.
    pub open spec fn wf(self) -> bool {
        &&& self.state.index < self.catalog.len()
        &&& self.state.shown matches Some(shown) ==> shown < self.catalog.len()
        &&& self.state.displays_selection()
    }
}

/// The skybox cycler. It owns the catalog, the selection and the swap
/// schedule, and is changed only through its own methods.
#[derive(Debug)]
pub struct Cycler {
    catalog: Catalog,
    state: CubemapState,
    timer: SwapTimer,
}

impl View for Cycler {
    type V = CyclerView;

    closed spec fn view(&self) -> CyclerView {
        CyclerView { catalog: self.catalog@, state: self.state, timer: self.timer }
    }
}

impl Cycler {
    #[verifier::type_invariant]
    spec fn well_formed(self) -> bool {
        self@.wf()
    }

    /// A cycler at its start: the first entry of `catalog` is selected and not
    /// loaded yet, and no swap is scheduled. The caller requests the load of
    /// that entry, see [`Self::pending_load`]. A catalog without entries has
    /// nothing to select and gives `None`.
    pub fn new(catalog: Catalog) -> (r: Option<Cycler>)
        ensures
            catalog@.len() == 0 <==> r is None,
            r matches Some(c) ==> {
                &&& c@.wf()
                &&& c@.catalog == catalog@
                &&& c@.state == (CubemapState { loaded: false, index: 0, shown: None })
                &&& c@.timer.next_swap is None
            },
    {
        if catalog.len() == 0 {
            None
        } else {
            Some(
                Cycler {
                    catalog,
                    state: CubemapState { loaded: false, index: 0, shown: None },
                    timer: SwapTimer::new(),
                },
            )
        }
    }

    /// The catalog.
    pub fn catalog(&self) -> (r: &Catalog)
        ensures
            r@ == self@.catalog,
    {
        &self.catalog
    }

    /// The selection.
    pub fn state(&self) -> (r: CubemapState)
        ensures
            r == self@.state,
            self@.wf(),
    {
        proof {
            use_type_invariant(self);
        }
        self.state
    }

    /// The swap schedule.
    pub fn timer(&self) -> (r: SwapTimer)
        ensures
            r == self@.timer,
    {
        self.timer
    }

    /// The entry whose load is awaited: the selected one while it is not
    /// applied yet.
    pub fn pending_load(&self) -> (r: Option<usize>)
        ensures
            self@.wf(),
            r == if self@.state.loaded {
                None
            } else {
                Some(self@.state.index)
            },
    {
        proof {
            use_type_invariant(self);
        }
        if self.state.loaded {
            None
        } else {
            Some(self.state.index)
        }
    }

    /// Advances the selection to the next entry that a device supporting
    /// `supported` can show, scanning circularly from the selected entry.
    /// Where the scan ends on the selected entry again, nothing changes.
    /// Where the selection moves, the new entry is to be loaded and counts as
    /// not loaded until a completion check applies it.
    pub fn advance(&mut self, supported: FormatSet) -> (r: Advance)
        ensures
            final(self)@.wf(),
            final(self)@.catalog == old(self)@.catalog,
            final(self)@.timer == old(self)@.timer,
            final(self)@.state == old(self)@.state.after_advance(
                support_of(old(self)@.catalog, supported@),
            ),
            r.load == old(self)@.state.load_request(support_of(old(self)@.catalog, supported@)),
            as_ints(r.skipped@) == skipped_entries(
                support_of(old(self)@.catalog, supported@),
                old(self)@.state.index as int,
            ),
    {
        proof {
            use_type_invariant(&*self);
        }
        let Scan { index, skipped } = self.catalog.scan(self.state.index, supported);
        if index == self.state.index {
            Advance { skipped, load: None }
        } else {
            self.state = CubemapState { loaded: false, index, shown: self.state.shown };
            Advance { skipped, load: Some(index) }
        }
    }

    /// One frame of the cycler at time `now`, in milliseconds since start, on
    /// a device that reports the feature bits `device_features`. Polls the
    /// swap schedule, and advances the selection when a swap is due, see
    /// [`Self::advance`]. On a frame without a due swap the selection stays
    /// and nothing is reported.
    pub fn tick(&mut self, now: u64, device_features: u64) -> (r: Advance)
        requires
            now + SWAP_DELAY_MS <= u64::MAX,
        ensures
            final(self)@.wf(),
            final(self)@.catalog == old(self)@.catalog,
            final(self)@.timer == old(self)@.timer.after_poll(now),
            old(self)@.timer.due(now) ==> {
                &&& final(self)@.state == old(self)@.state.after_advance(
                    support_of(old(self)@.catalog, device_formats(device_features)),
                )
                &&& r.load == old(self)@.state.load_request(
                    support_of(old(self)@.catalog, device_formats(device_features)),
                )
                &&& as_ints(r.skipped@) == skipped_entries(
                    support_of(old(self)@.catalog, device_formats(device_features)),
                    old(self)@.state.index as int,
                )
            },
            !old(self)@.timer.due(now) ==> {
                &&& final(self)@.state == old(self)@.state
                &&& r.load is None
                &&& r.skipped@.len() == 0
            },
    {
        proof {
            use_type_invariant(&*self);
        }
        let mut timer: SwapTimer = self.timer;
        let due: bool = timer.poll(now);
        self.timer = timer;
        if due {
            let supported: FormatSet = FormatSet::from_device_features(device_features);
            self.advance(supported)
        } else {
            Advance { skipped: Vec::new(), load: None }
        }
    }

    /// Whether a completion check that observes `load` would apply the
    /// selected texture.
    pub fn completion_due(&self, load: LoadState) -> (r: bool)
        ensures
            r == self@.state.completion_due(load),
    {
        !self.state.loaded && matches!(load, LoadState::Loaded)
    }

    /// The completion check, run after the advance step of a frame. `load` is
    /// what the asset system reports of the selected texture, `layout` the
    /// layout of its decoded image. Where the texture is pending and its load
    /// has completed, the texture counts as loaded from now on and the cube to
    /// set up is returned. Otherwise nothing changes and nothing is returned.
    pub fn check_loaded(&mut self, load: LoadState, layout: ImageLayout) -> (r: Option<CubeSetup>)
        requires
            old(self)@.state.completion_due(load) && layout.array_layers == 1 ==> layout.width > 0,
        ensures
            final(self)@.wf(),
            final(self)@.catalog == old(self)@.catalog,
            final(self)@.timer == old(self)@.timer,
            final(self)@.state == old(self)@.state.after_load_check(load),
            r == old(self)@.state.cube_setup(load, layout),
    {
        proof {
            use_type_invariant(&*self);
        }
        if self.completion_due(load) {
            let restack: Option<u32> = layout.restack();
            let index: usize = self.state.index;
            self.state = CubemapState { loaded: true, index, shown: Some(index) };
            Some(CubeSetup { index, restack })
        } else {
            None
        }
    }
}

} // verus!
