//! Plot display settings, input-channel descriptors, and plot-view
//! descriptors, together with the id generator that keeps plot ids unique.
//!
//! Quantities are carried as fixed-point integers: microseconds for the
//! rolling time window, micro-units for the vertical scale bounds and color
//! components, whole pixels for plot heights.

use vstd::prelude::*;
use vstd::string::StringExecFns;

verus! {

/// How a plot advances through time.
#[derive(Clone, Copy, PartialEq, Eq, Structural, Debug)]
pub enum PlotMode {
    Continous,
    Cyclic,
    SingleShot,
}

impl PlotMode {
    /// Canonical debug-style text of the mode.
    pub fn label(&self) -> (r: &'static str)
        ensures
            *self == PlotMode::Continous ==> r@ == "Continous"@,
            *self == PlotMode::Cyclic ==> r@ == "Cyclic"@,
            *self == PlotMode::SingleShot ==> r@ == "SingleShot"@,
    {
        match self {
            PlotMode::Continous => "Continous",
            PlotMode::Cyclic => "Cyclic",
            PlotMode::SingleShot => "SingleShot",
        }
    }
}

/// How a plot's vertical scale is chosen.
#[derive(Clone, Copy, PartialEq, Eq, Structural, Debug)]
pub enum PlotScaleMode {
    Auto,
    AutoMax,
    Manual,
}

impl PlotScaleMode {
    /// Canonical debug-style text of the scale mode.
    pub fn label(&self) -> (r: &'static str)
        ensures
            *self == PlotScaleMode::Auto ==> r@ == "Auto"@,
            *self == PlotScaleMode::AutoMax ==> r@ == "AutoMax"@,
            *self == PlotScaleMode::Manual ==> r@ == "Manual"@,
    {
        match self {
            PlotScaleMode::Auto => "Auto",
            PlotScaleMode::AutoMax => "AutoMax",
            PlotScaleMode::Manual => "Manual",
        }
    }
}

/// Display parameters shared by all plots: the active mode, the rolling time
/// window (microseconds), the vertical scale mode, and the manual scale
/// bounds (micro-units).
#[derive(Clone, Copy, PartialEq, Eq, Structural, Debug)]
pub struct PlotConfig {
    pub mode: PlotMode,
    pub window_us: i64,
    pub scale_mode: PlotScaleMode,
    pub y_min: i64,
    pub y_max: i64,
}

/// The default display: continuous mode, a 5-second window, automatic
/// scaling, manual bounds [0, 1] in whole units.
pub open spec fn is_default_plot_config(c: PlotConfig) -> bool {
    c == (PlotConfig {
        mode: PlotMode::Continous,
        window_us: 5_000_000,
        scale_mode: PlotScaleMode::Auto,
        y_min: 0,
        y_max: 1_000_000,
    })
}

impl Default for PlotConfig {
    fn default() -> (r: Self)
        ensures
            is_default_plot_config(r),
    {
        PlotConfig {
            mode: PlotMode::Continous,
            window_us: 5_000_000,
            scale_mode: PlotScaleMode::Auto,
            y_min: 0,
            y_max: 1_000_000,
        }
    }
}

/// An RGB color, each component a micro-unit fraction in [0, 1_000_000].
#[derive(Clone, Copy, PartialEq, Eq, Structural, Debug)]
pub struct Rgb {
    pub r: u32,
    pub g: u32,
    pub b: u32,
}

/// A named, colored, indexed logical channel mapped to a position in the
/// live sample-buffer list.  `value` is the transient current sample value
/// (micro-units); it is runtime state, excluded from the persisted form.
#[derive(Clone, PartialEq, Debug)]
pub struct InputSlot {
    pub index: usize,
    pub name: String,
    pub color: Rgb,
    pub value: i64,
}

impl Default for InputSlot {
    /// A zeroed slot: index 0, empty name, black color, zero current value.
    fn default() -> (r: Self)
        ensures
            r.index == 0,
            r.name@ == Seq::<char>::empty(),
            r.color == (Rgb { r: 0, g: 0, b: 0 }),
            r.value == 0,
    {
        InputSlot { index: 0, name: String::new(), color: Rgb { r: 0, g: 0, b: 0 }, value: 0 }
    }
}

/// One named plot view: a process-unique id, the indices of input slots
/// hidden from this view, a display height in whole pixels, and a flag
/// marking the dedicated console view.
#[derive(Clone, PartialEq, Debug)]
pub struct PlotData {
    pub id: usize,
    pub name: String,
    pub hidden: Vec<usize>,
    pub height: u32,
    pub console: bool,
}

/// The source of plot ids: a counter that starts at 1 and only ever grows,
/// so every id it hands out is distinct from every id it handed out before.
///
/// The set of ids already issued is carried as ghost state; the invariant
/// [`PlotIdGen::wf`] says every issued id lies below the counter, which is
/// what makes the next id fresh.
pub struct PlotIdGen {
    next: usize,
    issued: Ghost<Set<usize>>,
}

impl PlotIdGen {
    /// The id the next construction will receive.
    pub closed spec fn next_id(self) -> int {
        self.next as int
    }

    /// The ids handed out so far by this generator.
    pub closed spec fn issued_ids(self) -> Set<usize> {
        self.issued@
    }

    /// Every issued id lies strictly below the counter.
    pub open spec fn wf(self) -> bool {
        forall|i: usize| self.issued_ids().contains(i) ==> (i as int) < self.next_id()
    }

    /// A fresh generator: ids start at 1, nothing issued yet.
    pub fn new() -> (g: PlotIdGen)
        ensures
            g.next_id() == 1,
            g.issued_ids() == Set::<usize>::empty(),
            g.wf(),
    {
        PlotIdGen { next: 1, issued: Ghost(Set::empty()) }
    }

    /// Draws the next id: returns the counter and advances it, recording the
    /// id as issued.  The id returned was never issued before.
    fn draw(&mut self) -> (id: usize)
        requires
            old(self).wf(),
            old(self).next_id() < usize::MAX as int,
        ensures
            id as int == old(self).next_id(),
            !old(self).issued_ids().contains(id),
            final(self).next_id() == old(self).next_id() + 1,
            final(self).issued_ids() == old(self).issued_ids().insert(id),
            final(self).wf(),
    {
        let id = self.next;
        self.next = self.next + 1;
        proof {
            self.issued@ = self.issued@.insert(id);
            assert forall|i: usize| self.issued@.contains(i) implies (i as int) < self.next
                as int by {
                if i != id {
                    assert(old(self).issued_ids().contains(i));
                    assert((i as int) < old(self).next_id());
                }
            }
        }
        id
    }
}

/// Freshness law: at a well-formed generator state, the id the next
/// construction will draw differs from every id the generator ever issued.
/// With the constructors' contracts — the drawn id is the counter, the
/// counter then advances, and every drawn id joins the issued set — this
/// makes the ids of any number of constructions, however interleaved,
/// pairwise distinct.
pub proof fn lemma_next_id_fresh(g: PlotIdGen, prior: usize)
    requires
        g.wf(),
        g.issued_ids().contains(prior),
    ensures
        (prior as int) != g.next_id(),
{
}

/// Loaded-ids law: once the generator is reconciled with a loaded plot list
/// (every loaded id below the counter), any construction at that state or a
/// later one — the counter never moves backward — draws an id strictly above
/// every loaded id, the loaded maximum included.
pub proof fn lemma_drawn_id_exceeds_loaded(
    reconciled: PlotIdGen,
    later: PlotIdGen,
    plots: Seq<PlotData>,
    drawn: usize,
)
    requires
        forall|i: int|
            0 <= i < plots.len() ==> ((#[trigger] plots[i].id) as int) < reconciled.next_id(),
        later.next_id() >= reconciled.next_id(),
        drawn as int == later.next_id(),
    ensures
        forall|i: int| 0 <= i < plots.len() ==> (#[trigger] plots[i].id) < drawn,
{
}

impl PlotData {
    /// A new plot view with the given name: it draws a fresh id from the
    /// generator (an id never issued before, so ids stay unique however
    /// constructions interleave), shows every slot, and is 256 pixels tall.
    pub fn new(gen: &mut PlotIdGen, name: &str) -> (r: PlotData)
        requires
            old(gen).wf(),
            old(gen).next_id() < usize::MAX as int,
        ensures
            r.id as int == old(gen).next_id(),
            !old(gen).issued_ids().contains(r.id),
            final(gen).next_id() == old(gen).next_id() + 1,
            final(gen).issued_ids() == old(gen).issued_ids().insert(r.id),
            final(gen).wf(),
            r.name@ == name@,
            r.hidden@ == Seq::<usize>::empty(),
            r.height == 256,
            r.console == false,
    {
        let id = gen.draw();
        PlotData {
            id,
            name: String::from_str(name),
            hidden: Vec::new(),
            height: 256,
            console: false,
        }
    }

    /// The dedicated "Console" plot view: a fresh id as in [`PlotData::new`],
    /// 192 pixels tall, console flag set.
    pub fn console(gen: &mut PlotIdGen) -> (r: PlotData)
        requires
            old(gen).wf(),
            old(gen).next_id() < usize::MAX as int,
        ensures
            r.id as int == old(gen).next_id(),
            !old(gen).issued_ids().contains(r.id),
            final(gen).next_id() == old(gen).next_id() + 1,
            final(gen).issued_ids() == old(gen).issued_ids().insert(r.id),
            final(gen).wf(),
            r.name@ == "Console"@,
            r.hidden@ == Seq::<usize>::empty(),
            r.height == 192,
            r.console == true,
    {
        let id = gen.draw();
        PlotData {
            id,
            name: String::from_str("Console"),
            hidden: Vec::new(),
            height: 192,
            console: true,
        }
    }

    /// Reconciles the id generator with a loaded plot list: advances the
    /// counter past the largest id present, never moving it backward, so
    /// plots constructed afterwards collide neither with the loaded ones nor
    /// with plots constructed before the load.
    pub fn update_internal_ids(gen: &mut PlotIdGen, plots: &Vec<PlotData>)
        requires
            old(gen).wf(),
            forall|i: int| 0 <= i < plots@.len() ==> (#[trigger] plots@[i].id) < usize::MAX,
        ensures
            final(gen).wf(),
            final(gen).issued_ids() == old(gen).issued_ids(),
            final(gen).next_id() >= old(gen).next_id(),
            forall|i: int|
                0 <= i < plots@.len()
                    ==> ((#[trigger] plots@[i].id) as int) < final(gen).next_id(),
            plots@.len() == 0 ==> final(gen).next_id() == old(gen).next_id(),
    {
        let mut k: usize = 0;
        while k < plots.len()
            invariant
                gen.wf(),
                k <= plots.len(),
                gen.issued_ids() == old(gen).issued_ids(),
                gen.next_id() >= old(gen).next_id(),
                forall|i: int| 0 <= i < plots@.len() ==> (#[trigger] plots@[i].id) < usize::MAX,
                forall|i: int| 0 <= i < k ==> ((#[trigger] plots@[i].id) as int) < gen.next_id(),
                k == 0 ==> gen.next_id() == old(gen).next_id(),
            decreases plots.len() - k,
        {
            let id = plots[k].id;
            if id >= gen.next {
                gen.next = id + 1;
            }
            k = k + 1;
        }
    }
}

} // verus!
