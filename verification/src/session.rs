//! The root aggregate of a monitoring session: everything the application
//! persists as one document.

use vstd::prelude::*;

use crate::config::ConnectionConfig;
use crate::detector::TriggerConfig;
use crate::plot::{InputSlot, PlotConfig, PlotData};

verus! {

/// One whole session: connection settings, plot display settings, trigger
/// settings, the ordered list of input slots, and the ordered list of plot
/// views.  This is the unit of persistence; relations between the parts are
/// by positional index (slots) and numeric id (plots) only.
#[derive(Clone, PartialEq, Debug)]
pub struct SerialMonitorData {
    pub conn_config: ConnectionConfig,
    pub plot_config: PlotConfig,
    pub trigger_config: TriggerConfig,
    pub inp_slots: Vec<InputSlot>,
    pub plots: Vec<PlotData>,
}

impl Default for SerialMonitorData {
    /// A fresh session: every child at its default, no slots, no plots.
    fn default() -> (r: Self)
        ensures
            crate::config::is_default_connection(r.conn_config),
            crate::plot::is_default_plot_config(r.plot_config),
            crate::detector::is_default_trigger_config(r.trigger_config),
            r.inp_slots@ == Seq::<InputSlot>::empty(),
            r.plots@ == Seq::<PlotData>::empty(),
    {
        let r = SerialMonitorData {
            conn_config: ConnectionConfig::default(),
            plot_config: PlotConfig::default(),
            trigger_config: TriggerConfig::default(),
            inp_slots: Vec::new(),
            plots: Vec::new(),
        };
        proof {
            assert(r.inp_slots@ =~= Seq::<InputSlot>::empty());
            assert(r.plots@ =~= Seq::<PlotData>::empty());
        }
        r
    }
}

} // verus!
