//! Executes a sort plan one filesystem step at a time: the machine says which
//! step comes next (create a folder, probe a name, rename), the caller performs
//! it and reports the outcome. Names that are taken get a ` (n)` suffix.

use crate::models::{op_views, text_pairs, OpView, SortOperation};
use crate::paths::{extension_part, extension_text, join_path, joined, stem_part, stem_text};
use vstd::prelude::*;

verus! {

pub open spec fn digit_text_of(d: nat) -> Seq<char> {
    if d == 0 {
        "0"@
    } else if d == 1 {
        "1"@
    } else if d == 2 {
        "2"@
    } else if d == 3 {
        "3"@
    } else if d == 4 {
        "4"@
    } else if d == 5 {
        "5"@
    } else if d == 6 {
        "6"@
    } else if d == 7 {
        "7"@
    } else if d == 8 {
        "8"@
    } else {
        "9"@
    }
}

/// Decimal digits of `n`, most significant first.
pub open spec fn decimal(n: nat) -> Seq<char>
    decreases n,
{
    if n < 10 {
        digit_text_of(n)
    } else {
        decimal(n / 10) + digit_text_of(n % 10)
    }
}

/// `stem (k).ext`, or `stem (k)` for a name without extension.
pub open spec fn numbered_name(name: Seq<char>, k: nat) -> Seq<char> {
    let ext = extension_part(name);
    let base = stem_part(name) + " ("@ + decimal(k);
    if ext.len() == 0 {
        base + ")"@
    } else {
        base + ")."@ + ext
    }
}

/// Path tried for `name` in `folder` at attempt `k`: the name itself first, then
/// the numbered names.
pub open spec fn candidate_path(folder: Seq<char>, name: Seq<char>, k: nat) -> Seq<char> {
    if k == 0 {
        joined(folder, name)
    } else {
        joined(folder, numbered_name(name, k))
    }
}

fn digit_text(d: u64) -> (r: &'static str)
    requires
        d < 10,
    ensures
        r@ == digit_text_of(d as nat),
{
    if d == 0 {
        "0"
    } else if d == 1 {
        "1"
    } else if d == 2 {
        "2"
    } else if d == 3 {
        "3"
    } else if d == 4 {
        "4"
    } else if d == 5 {
        "5"
    } else if d == 6 {
        "6"
    } else if d == 7 {
        "7"
    } else if d == 8 {
        "8"
    } else {
        "9"
    }
}

/// Decimal text of `n`.
pub fn decimal_text(n: u64) -> (r: String)
    ensures
        r@ == decimal(n as nat),
    decreases n,
{
    if n < 10 {
        String::from_str(digit_text(n))
    } else {
        let mut s = decimal_text(n / 10);
        s.append(digit_text(n % 10));
        s
    }
}

/// The path tried for `file_name` in `folder` at attempt `attempt`.
pub fn collision_candidate(folder: &str, file_name: &str, attempt: u64) -> (r: String)
    ensures
        r@ == candidate_path(folder@, file_name@, attempt as nat),
{
    if attempt == 0 {
        return join_path(folder, file_name);
    }
    let mut name = stem_text(file_name);
    let ext = extension_text(file_name);
    name.append(" (");
    name.append(decimal_text(attempt).as_str());
    if ext.unicode_len() == 0 {
        name.append(")");
    } else {
        name.append(").");
        name.append(ext.as_str());
    }
    join_path(folder, name.as_str())
}

/// Where an execution stands.
#[derive(Clone, Copy, Debug, PartialEq, Eq, Structural)]
pub enum Phase {
    Create,
    Probe,
    Rename,
    Finished,
}

/// The step that the caller performs next.
#[derive(Clone, Debug, PartialEq, Eq)]
pub enum MoveStep {
    CreateFolder { folder: String },
    Probe { path: String },
    Rename { from: String, to: String },
    Finished,
}

pub ghost enum StepView {
    CreateFolder { folder: Seq<char> },
    Probe { path: Seq<char> },
    Rename { from: Seq<char>, to: Seq<char> },
    Finished,
}

impl View for MoveStep {
    type V = StepView;

    open spec fn view(&self) -> StepView {
        match self {
            MoveStep::CreateFolder { folder } => StepView::CreateFolder { folder: folder@ },
            MoveStep::Probe { path } => StepView::Probe { path: path@ },
            MoveStep::Rename { from, to } => StepView::Rename { from: from@, to: to@ },
            MoveStep::Finished => StepView::Finished,
        }
    }
}

/// What came of the step: done, a probed path that exists or not, or a failure.
#[derive(Clone, Debug, PartialEq, Eq)]
pub enum MoveEvent {
    Done,
    Exists(bool),
    Failed(String),
}

pub ghost enum EventView {
    Done,
    Exists(bool),
    Failed(Seq<char>),
}

impl View for MoveEvent {
    type V = EventView;

    open spec fn view(&self) -> EventView {
        match self {
            MoveEvent::Done => EventView::Done,
            MoveEvent::Exists(b) => EventView::Exists(*b),
            MoveEvent::Failed(e) => EventView::Failed(e@),
        }
    }
}

/// A plan being executed: the plan, the item at hand, the attempt at a free
/// name for it, the moves made so far and the failure that ended it, if any.
pub struct SortExecution {
    plan: Vec<SortOperation>,
    index: usize,
    attempt: u64,
    phase: Phase,
    moves: Vec<(String, String)>,
    error: Option<String>,
}

pub ghost struct ExecView {
    pub plan: Seq<OpView>,
    pub index: int,
    pub attempt: nat,
    pub phase: Phase,
    pub moves: Seq<(Seq<char>, Seq<char>)>,
    pub error: Option<Seq<char>>,
}

pub open spec fn no_free_name() -> Seq<char> {
    "no free file name"@
}

/// The path being tried for the item at hand.
pub open spec fn current_target(s: ExecView) -> Seq<char> {
    candidate_path(
        s.plan[s.index].destination_folder,
        s.plan[s.index].file_name,
        s.attempt,
    )
}

/// The state after the item at hand, or the end after the last one.
pub open spec fn begin_item(s: ExecView, index: int) -> ExecView {
    ExecView {
        index,
        attempt: 0,
        phase: if index < s.plan.len() {
            Phase::Create
        } else {
            Phase::Finished
        },
        ..s
    }
}

pub open spec fn fail_with(s: ExecView, e: Seq<char>) -> ExecView {
    ExecView { phase: Phase::Finished, error: Some(e), ..s }
}

/// The next state, given what came of the step asked for. An event that does
/// not answer the step leaves the state as it is.
pub open spec fn transition(s: ExecView, ev: EventView) -> ExecView {
    match (s.phase, ev) {
        (Phase::Create, EventView::Done) => ExecView { phase: Phase::Probe, attempt: 0, ..s },
        (Phase::Create, EventView::Failed(e)) => fail_with(s, e),
        (Phase::Probe, EventView::Exists(true)) => if s.attempt >= u64::MAX {
            fail_with(s, no_free_name())
        } else {
            ExecView { attempt: s.attempt + 1, ..s }
        },
        (Phase::Probe, EventView::Exists(false)) => ExecView { phase: Phase::Rename, ..s },
        (Phase::Probe, EventView::Failed(e)) => fail_with(s, e),
        (Phase::Rename, EventView::Done) => begin_item(
            ExecView {
                moves: s.moves.push((s.plan[s.index].source_path, current_target(s))),
                ..s
            },
            s.index + 1,
        ),
        (Phase::Rename, EventView::Failed(e)) => fail_with(s, e),
        _ => s,
    }
}

/// The step that a state asks for.
pub open spec fn step_of(s: ExecView) -> StepView {
    match s.phase {
        Phase::Create => StepView::CreateFolder { folder: s.plan[s.index].destination_folder },
        Phase::Probe => StepView::Probe { path: current_target(s) },
        Phase::Rename => StepView::Rename {
            from: s.plan[s.index].source_path,
            to: current_target(s),
        },
        Phase::Finished => StepView::Finished,
    }
}

impl SortExecution {
    pub closed spec fn view(&self) -> ExecView {
        ExecView {
            plan: op_views(self.plan@),
            index: self.index as int,
            attempt: self.attempt as nat,
            phase: self.phase,
            moves: text_pairs(self.moves@),
            error: match self.error {
                Some(e) => Some(e@),
                None => None,
            },
        }
    }

    pub open spec fn wf(&self) -> bool {
        exec_wf(self.view())
    }

    /// Starts executing `plan` at its first item.
    pub fn new(plan: Vec<SortOperation>) -> (r: SortExecution)
        ensures
            r.wf(),
            r.view() == begin_item(
                ExecView {
                    plan: op_views(plan@),
                    index: 0,
                    attempt: 0,
                    phase: Phase::Finished,
                    moves: Seq::empty(),
                    error: None,
                },
                0,
            ),
    {
        let phase = if plan.len() > 0 {
            Phase::Create
        } else {
            Phase::Finished
        };
        let r = SortExecution {
            plan,
            index: 0,
            attempt: 0,
            phase,
            moves: Vec::new(),
            error: None,
        };
        assert(r.view().moves =~= Seq::empty());
        r
    }

    /// The step to perform next.
    pub fn next_step(&self) -> (r: MoveStep)
        requires
            self.wf(),
        ensures
            r@ == step_of(self.view()),
    {
        match self.phase {
            Phase::Create => MoveStep::CreateFolder {
                folder: self.plan[self.index].destination_folder.clone(),
            },
            Phase::Probe => MoveStep::Probe { path: self.target() },
            Phase::Rename => MoveStep::Rename {
                from: self.plan[self.index].source_path.clone(),
                to: self.target(),
            },
            Phase::Finished => MoveStep::Finished,
        }
    }

    fn target(&self) -> (r: String)
        requires
            self.wf(),
            self.phase != Phase::Finished,
        ensures
            r@ == current_target(self.view()),
    {
        let op = &self.plan[self.index];
        assert(self.view().plan[self.index as int] == op@);
        collision_candidate(op.destination_folder.as_str(), op.file_name.as_str(), self.attempt)
    }

    /// Takes in what came of the step asked for.
    pub fn on_event(&mut self, ev: MoveEvent)
        requires
            old(self).wf(),
        ensures
            final(self).wf(),
            final(self).view() == transition(old(self).view(), ev@),
    {
        let ghost s = self.view();
        match (self.phase, ev) {
            (Phase::Create, MoveEvent::Done) => {
                self.phase = Phase::Probe;
                self.attempt = 0;
            },
            (Phase::Create, MoveEvent::Failed(e)) => {
                self.phase = Phase::Finished;
                self.error = Some(e);
            },
            (Phase::Probe, MoveEvent::Exists(true)) => {
                if self.attempt == u64::MAX {
                    self.phase = Phase::Finished;
                    self.error = Some(String::from_str("no free file name"));
                } else {
                    self.attempt = self.attempt + 1;
                }
            },
            (Phase::Probe, MoveEvent::Exists(false)) => {
                self.phase = Phase::Rename;
            },
            (Phase::Probe, MoveEvent::Failed(e)) => {
                self.phase = Phase::Finished;
                self.error = Some(e);
            },
            (Phase::Rename, MoveEvent::Done) => {
                assert(self.index < self.plan.len());
                let to = self.target();
                let from = self.plan[self.index].source_path.clone();
                assert(s.plan[s.index] == self.plan@[self.index as int]@);
                self.moves.push((from, to));
                assert(self.view().moves =~= s.moves.push(
                    (s.plan[s.index].source_path, current_target(s)),
                ));
                self.index = self.index + 1;
                self.attempt = 0;
                self.phase = if self.index < self.plan.len() {
                    Phase::Create
                } else {
                    Phase::Finished
                };
            },
            (Phase::Rename, MoveEvent::Failed(e)) => {
                self.phase = Phase::Finished;
                self.error = Some(e);
            },
            _ => {},
        }
    }

    /// Whether the execution has ended, by completing the plan or by a failure.
    pub fn is_finished(&self) -> (r: bool)
        ensures
            r == (self.view().phase == Phase::Finished),
    {
        self.phase == Phase::Finished
    }

    /// The moves made so far, as (original path, new path), in plan order.
    pub fn moves(&self) -> (r: Vec<(String, String)>)
        ensures
            text_pairs(r@) == self.view().moves,
    {
        let mut out: Vec<(String, String)> = Vec::new();
        let mut i: usize = 0;
        while i < self.moves.len()
            invariant
                i <= self.moves.len(),
                text_pairs(out@) == text_pairs(self.moves@.subrange(0, i as int)),
            decreases self.moves.len() - i,
        {
            let m = &self.moves[i];
            let ghost before = text_pairs(out@);
            out.push((m.0.clone(), m.1.clone()));
            assert(text_pairs(out@) =~= before.push((m.0@, m.1@)));
            assert(text_pairs(self.moves@.subrange(0, i + 1)) =~= text_pairs(
                self.moves@.subrange(0, i as int),
            ).push((m.0@, m.1@)));
            i = i + 1;
        }
        assert(self.moves@.subrange(0, i as int) =~= self.moves@);
        out
    }

    /// The failure that ended the execution, if one did.
    pub fn error(&self) -> (r: Option<String>)
        ensures
            r matches Some(e) ==> self.view().error == Some(e@),
            r is None ==> self.view().error is None,
    {
        match &self.error {
            Some(e) => Some(e.clone()),
            None => None,
        }
    }
}

/// Invariant of an execution: the item at hand lies in the plan while the
/// execution runs, and one move has been made for each item before it.
pub open spec fn exec_wf(s: ExecView) -> bool {
    &&& 0 <= s.index <= s.plan.len()
    &&& s.phase != Phase::Finished ==> s.index < s.plan.len()
    &&& s.moves.len() == s.index
    &&& forall|k: int| 0 <= k < s.index ==> #[trigger] s.moves[k].0 == s.plan[k].source_path
}

/// A rename is only ever asked for onto the path that the last probe found
/// free: the machine enters its rename step only from a probe answered with
/// "does not exist", and keeps the probed path as the target.
pub proof fn lemma_rename_only_to_free_path(s: ExecView, ev: EventView)
    requires
        exec_wf(s),
        transition(s, ev).phase == Phase::Rename,
        s.phase != Phase::Rename,
    ensures
        s.phase == Phase::Probe,
        ev == EventView::Exists(false),
        step_of(s) == (StepView::Probe { path: current_target(transition(s, ev)) }),
        current_target(transition(s, ev)) == current_target(s),
{
}

} // verus!
