//! The schedule overlay: groups of systems a host mounts into dedicated
//! sub-schedules of the primary application, swapped out wholesale whenever
//! the closure that defines them is re-invoked after a hot patch.
//!
//! Each designated phase owns one mounted graph.  A rebuild replaces a
//! phase's graph only when the freshly extracted one initialized against the
//! live world; a failed initialization keeps the previous — last good —
//! graph, and a phase the rebuild did not populate keeps its graph too.

use vstd::prelude::*;

verus! {

/// The run phases an overlay can mount systems into.
#[derive(Clone, Copy, Debug, PartialEq, Eq, Structural)]
pub enum Phase {
    PreUpdate,
    Update,
    PostUpdate,
    /// The startup schedule, rerun after every hot patch.
    StartupRerun,
}

/// The four mounted schedule graphs, one per phase.  A graph is the ordered
/// list of mounted system identities.
pub struct OverlaySchedules {
    pre_update: Vec<u64>,
    update: Vec<u64>,
    post_update: Vec<u64>,
    startup_rerun: Vec<u64>,
}

/// The mathematical value of the overlay.
pub struct OverlayModel {
    pub pre_update: Seq<u64>,
    pub update: Seq<u64>,
    pub post_update: Seq<u64>,
    pub startup_rerun: Seq<u64>,
}

impl View for OverlaySchedules {
    type V = OverlayModel;

    closed spec fn view(&self) -> OverlayModel {
        OverlayModel {
            pre_update: self.pre_update@,
            update: self.update@,
            post_update: self.post_update@,
            startup_rerun: self.startup_rerun@,
        }
    }
}

/// The graph mounted at one phase.
pub open spec fn phase_of(m: OverlayModel, phase: Phase) -> Seq<u64> {
    match phase {
        Phase::PreUpdate => m.pre_update,
        Phase::Update => m.update,
        Phase::PostUpdate => m.post_update,
        Phase::StartupRerun => m.startup_rerun,
    }
}

/// The overlay with one phase's graph replaced.
pub open spec fn with_phase(m: OverlayModel, phase: Phase, graph: Seq<u64>) -> OverlayModel {
    match phase {
        Phase::PreUpdate => OverlayModel { pre_update: graph, ..m },
        Phase::Update => OverlayModel { update: graph, ..m },
        Phase::PostUpdate => OverlayModel { post_update: graph, ..m },
        Phase::StartupRerun => OverlayModel { startup_rerun: graph, ..m },
    }
}

/// The extracted graph of one phase, as a value: present when the rebuilt
/// closure populated that phase.
pub open spec fn graph_view(extracted: Option<Vec<u64>>) -> Option<Seq<u64>> {
    match extracted {
        Some(g) => Some(g@),
        None => None,
    }
}

/// What a rebuild leaves mounted at one phase: the extracted graph when there
/// is one and it initialized against the live world; the previous, last-good
/// graph otherwise.
pub open spec fn rebuild_model(
    m: OverlayModel,
    phase: Phase,
    extracted: Option<Seq<u64>>,
    init_ok: bool,
) -> OverlayModel {
    match extracted {
        Some(graph) => if init_ok {
            with_phase(m, phase, graph)
        } else {
            m
        },
        None => m,
    }
}

impl OverlaySchedules {
    /// An overlay with nothing mounted anywhere.
    pub fn new() -> (r: Self)
        ensures
            phase_of(r@, Phase::PreUpdate) =~= Seq::<u64>::empty(),
            phase_of(r@, Phase::Update) =~= Seq::<u64>::empty(),
            phase_of(r@, Phase::PostUpdate) =~= Seq::<u64>::empty(),
            phase_of(r@, Phase::StartupRerun) =~= Seq::<u64>::empty(),
    {
        OverlaySchedules {
            pre_update: Vec::new(),
            update: Vec::new(),
            post_update: Vec::new(),
            startup_rerun: Vec::new(),
        }
    }

    /// The graph currently mounted at a phase — what the primary schedule's
    /// stand-in system runs inside its own phase.
    pub fn mounted(&self, phase: Phase) -> (r: &Vec<u64>)
        ensures
            r@ == phase_of(self@, phase),
    {
        match phase {
            Phase::PreUpdate => &self.pre_update,
            Phase::Update => &self.update,
            Phase::PostUpdate => &self.post_update,
            Phase::StartupRerun => &self.startup_rerun,
        }
    }

    /// Splice one phase's freshly extracted graph in: mounted when extraction
    /// produced one and it initialized; the last-good graph kept otherwise.
    pub fn apply_phase_rebuild(&mut self, phase: Phase, extracted: Option<Vec<u64>>, init_ok: bool)
        ensures
            final(self)@ == rebuild_model(old(self)@, phase, graph_view(extracted), init_ok),
    {
        match extracted {
            None => {},
            Some(graph) => {
                if init_ok {
                    match phase {
                        Phase::PreUpdate => {
                            self.pre_update = graph;
                        },
                        Phase::Update => {
                            self.update = graph;
                        },
                        Phase::PostUpdate => {
                            self.post_update = graph;
                        },
                        Phase::StartupRerun => {
                            self.startup_rerun = graph;
                        },
                    }
                }
            },
        }
    }
}

/// Decides whether the host's closure runs this tick: once at startup and
/// then again on every tick that observed a hot-patch notification, never
/// otherwise.
pub fn rebuild_gate(ran_once: &mut bool, notified: bool) -> (run: bool)
    ensures
        run == (notified || !*old(ran_once)),
        *final(ran_once) == (*old(ran_once) || !notified),
{
    if !notified {
        if *ran_once {
            return false;
        }
        *ran_once = true;
    }
    true
}

} // verus!
