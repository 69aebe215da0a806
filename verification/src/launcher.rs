//! The terminal launcher: an ordered registry of emulator candidates and a
//! step-by-step launch plan.  The plan decides, from each probe or spawn
//! outcome, which candidate to try next; the caller performs the actual
//! process operations and feeds the outcomes back.

use vstd::prelude::*;
use vstd::std_specs::vec::axiom_spec_len;
use vstd::string::StringExecFns;
use crate::wrapper::build_posix_wrapper;
use crate::wrapper::posix_wrapper;

verus! {

/// One terminal-emulator candidate: its program name and the flag that
/// precedes an inline shell invocation when launching it.
pub struct Candidate {
    pub program: String,
    pub flag: String,
}

/// The fixed, ordered emulator registry.  The order encodes the fallback
/// preference and the launcher commits to the first available match.
pub fn candidates() -> (v: Vec<Candidate>)
    ensures
        v@.len() == 6,
        v@[0].program@ == "gnome-terminal"@ && v@[0].flag@ == "--"@,
        v@[1].program@ == "konsole"@ && v@[1].flag@ == "-e"@,
        v@[2].program@ == "xfce4-terminal"@ && v@[2].flag@ == "-x"@,
        v@[3].program@ == "xterm"@ && v@[3].flag@ == "-e"@,
        v@[4].program@ == "alacritty"@ && v@[4].flag@ == "-e"@,
        v@[5].program@ == "kitty"@ && v@[5].flag@ == "-e"@,
{
    let mut v: Vec<Candidate> = Vec::new();
    v.push(Candidate { program: "gnome-terminal".to_owned(), flag: "--".to_owned() });
    v.push(Candidate { program: "konsole".to_owned(), flag: "-e".to_owned() });
    v.push(Candidate { program: "xfce4-terminal".to_owned(), flag: "-x".to_owned() });
    v.push(Candidate { program: "xterm".to_owned(), flag: "-e".to_owned() });
    v.push(Candidate { program: "alacritty".to_owned(), flag: "-e".to_owned() });
    v.push(Candidate { program: "kitty".to_owned(), flag: "-e".to_owned() });
    v
}

/// The supported candidate names joined with a comma separator.
pub open spec fn joined_names(cs: Seq<Candidate>) -> Seq<char>
    decreases cs.len(),
{
    if cs.len() == 0 {
        Seq::empty()
    } else if cs.len() == 1 {
        cs[0].program@
    } else {
        joined_names(cs.drop_last()) + ", "@ + cs.last().program@
    }
}

/// The failure message reported when no candidate is available.
pub open spec fn no_terminal_message(cs: Seq<Candidate>) -> Seq<char> {
    "Nenhum terminal encontrado. Terminais suportados: "@ + joined_names(cs)
}

/// Build the no-candidate failure message for a registry.
pub fn no_terminal_message_of(cs: &Vec<Candidate>) -> (r: String)
    ensures
        r@ == no_terminal_message(cs@),
{
    let mut out: String = "Nenhum terminal encontrado. Terminais suportados: ".to_owned();
    let mut i: usize = 0;
    while i < cs.len()
        invariant
            i <= cs@.len(),
            out@ == "Nenhum terminal encontrado. Terminais suportados: "@ + joined_names(
                cs@.subrange(0, i as int),
            ),
        decreases cs@.len() - i,
    {
        if i > 0 {
            out.append(", ");
        }
        out.append(cs[i].program.as_str());
        proof {
            let pre = cs@.subrange(0, i as int);
            let cur = cs@.subrange(0, i as int + 1);
            if i == 0 {
                assert(cur.len() == 1);
                assert(cur[0] == cs@[0]);
            } else {
                assert(cur.drop_last() =~= pre);
                assert(cur.last() == cs@[i as int]);
            }
        }
        i += 1;
    }
    proof {
        assert(cs@.subrange(0, cs@.len() as int) =~= cs@);
    }
    out
}

/// Where a launch plan stands: probing candidates, about to spawn the
/// selected one, or done.
pub enum LaunchPhase {
    Probing,
    Spawning,
    Succeeded,
}

/// What the caller must do next for a launch plan.
pub enum LaunchAction {
    /// Probe whether this program is on the PATH (a `which`-style lookup).
    Probe(String),
    /// Spawn this program with its flag, followed by a `sh -c` invocation
    /// of the wrapper script as one argument-vector element.
    Spawn(String, String, String),
    /// The launch has succeeded; nothing is left to do.
    Succeed,
    /// No candidate was available; fail with this message.
    Fail(String),
}

/// A launch in progress: the registry, the wrapper script built once from
/// the command, and the position reached in the fallback order.
pub struct LaunchPlan {
    pub candidates: Vec<Candidate>,
    pub wrapper: String,
    pub idx: usize,
    pub phase: LaunchPhase,
}

impl LaunchPlan {
    /// The plan never walks past the end of the registry, and only spawns
    /// a candidate that exists.
    pub open spec fn wf(self) -> bool {
        &&& self.idx <= self.candidates@.len()
        &&& (self.phase is Spawning ==> self.idx < self.candidates@.len())
    }

    /// A plan is finished once it has succeeded or run out of candidates.
    pub open spec fn finished(self) -> bool {
        self.phase is Succeeded || (self.phase is Probing && self.idx == self.candidates@.len())
    }

    /// The transition taken when the caller reports the outcome of the
    /// current probe or spawn.
    pub open spec fn step_spec(self, ok: bool) -> LaunchPlan {
        match self.phase {
            LaunchPhase::Probing => if ok {
                LaunchPlan { phase: LaunchPhase::Spawning, ..self }
            } else {
                LaunchPlan { idx: (self.idx + 1) as usize, ..self }
            },
            LaunchPhase::Spawning => if ok {
                LaunchPlan { phase: LaunchPhase::Succeeded, ..self }
            } else {
                LaunchPlan { idx: (self.idx + 1) as usize, phase: LaunchPhase::Probing, ..self }
            },
            LaunchPhase::Succeeded => self,
        }
    }

    /// The action that belongs to the plan's current state.
    pub open spec fn action_ok(self, a: LaunchAction) -> bool {
        match a {
            LaunchAction::Probe(p) => self.phase is Probing && self.idx < self.candidates@.len()
                && p@ == self.candidates@[self.idx as int].program@,
            LaunchAction::Spawn(p, f, w) => self.phase is Spawning && p@ == self.candidates@[self.idx as int].program@
                && f@ == self.candidates@[self.idx as int].flag@ && w@ == self.wrapper@,
            LaunchAction::Succeed => self.phase is Succeeded,
            LaunchAction::Fail(m) => self.phase is Probing && self.idx == self.candidates@.len()
                && m@ == no_terminal_message(self.candidates@),
        }
    }

    /// Start a launch over a registry: the wrapper script is built once
    /// and the plan begins probing at the head of the fallback order.
    pub fn new(candidates: Vec<Candidate>, command: &str) -> (p: LaunchPlan)
        ensures
            p.wf(),
            p.phase is Probing,
            p.idx == 0,
            p.candidates == candidates,
            p.wrapper@ == posix_wrapper(command@),
    {
        LaunchPlan {
            candidates,
            wrapper: build_posix_wrapper(command),
            idx: 0,
            phase: LaunchPhase::Probing,
        }
    }

    /// What the caller must do next.
    pub fn current_action(&self) -> (a: LaunchAction)
        requires
            self.wf(),
        ensures
            self.action_ok(a),
    {
        match self.phase {
            LaunchPhase::Probing => {
                if self.idx < self.candidates.len() {
                    LaunchAction::Probe(self.candidates[self.idx].program.clone())
                } else {
                    LaunchAction::Fail(no_terminal_message_of(&self.candidates))
                }
            },
            LaunchPhase::Spawning => LaunchAction::Spawn(
                self.candidates[self.idx].program.clone(),
                self.candidates[self.idx].flag.clone(),
                self.wrapper.clone(),
            ),
            LaunchPhase::Succeeded => LaunchAction::Succeed,
        }
    }

    /// Record the outcome of the current probe or spawn.
    pub fn advance(&mut self, ok: bool)
        requires
            old(self).wf(),
            !old(self).finished(),
        ensures
            *final(self) == old(self).step_spec(ok),
            final(self).wf(),
    {
        proof {
            axiom_spec_len(&self.candidates);
        }
        match self.phase {
            LaunchPhase::Probing => {
                if ok {
                    self.phase = LaunchPhase::Spawning;
                } else {
                    self.idx = self.idx + 1;
                }
            },
            LaunchPhase::Spawning => {
                if ok {
                    self.phase = LaunchPhase::Succeeded;
                } else {
                    self.idx = self.idx + 1;
                    self.phase = LaunchPhase::Probing;
                }
            },
            LaunchPhase::Succeeded => {},
        }
    }
}

/// Start a launch of one command over the fixed emulator registry.
pub fn plan_launch(command: &str) -> (p: LaunchPlan)
    ensures
        p.wf(),
        p.phase is Probing,
        p.idx == 0,
        p.wrapper@ == posix_wrapper(command@),
        p.candidates@.len() == 6,
        p.candidates@[0].program@ == "gnome-terminal"@ && p.candidates@[0].flag@ == "--"@,
        p.candidates@[1].program@ == "konsole"@ && p.candidates@[1].flag@ == "-e"@,
        p.candidates@[2].program@ == "xfce4-terminal"@ && p.candidates@[2].flag@ == "-x"@,
        p.candidates@[3].program@ == "xterm"@ && p.candidates@[3].flag@ == "-e"@,
        p.candidates@[4].program@ == "alacritty"@ && p.candidates@[4].flag@ == "-e"@,
        p.candidates@[5].program@ == "kitty"@ && p.candidates@[5].flag@ == "-e"@,
{
    LaunchPlan::new(candidates(), command)
}

/// The state a probing plan reaches when the caller answers each probe
/// from a fixed availability assignment, one entry per candidate.
pub open spec fn run_probes(p: LaunchPlan, avail: Seq<bool>) -> LaunchPlan
    decreases p.candidates@.len() - p.idx,
        when p.candidates@.len() <= usize::MAX
{
    if p.phase is Probing && p.idx < p.candidates@.len() {
        if avail[p.idx as int] {
            p.step_spec(true)
        } else {
            run_probes(p.step_spec(false), avail)
        }
    } else {
        p
    }
}

/// The candidate positions such a run probes, in order.
pub open spec fn probed_indices(p: LaunchPlan, avail: Seq<bool>) -> Seq<int>
    decreases p.candidates@.len() - p.idx,
        when p.candidates@.len() <= usize::MAX
{
    if p.phase is Probing && p.idx < p.candidates@.len() {
        if avail[p.idx as int] {
            seq![p.idx as int]
        } else {
            seq![p.idx as int] + probed_indices(p.step_spec(false), avail)
        }
    } else {
        Seq::empty()
    }
}

/// Law: the launcher commits to the first available candidate.  If `j` is
/// the first available position at or after the plan's own, the run ends
/// about to spawn candidate `j`, having probed exactly the positions up to
/// and including `j` — later candidates are never probed or spawned.
pub proof fn lemma_first_available_selected(p: LaunchPlan, avail: Seq<bool>, j: int)
    requires
        p.wf(),
        p.phase is Probing,
        avail.len() == p.candidates@.len(),
        p.idx <= j < avail.len(),
        avail[j],
        forall|k: int| p.idx <= k < j ==> !avail[k],
    ensures
        run_probes(p, avail).phase is Spawning,
        run_probes(p, avail).idx == j,
        run_probes(p, avail).candidates == p.candidates,
        run_probes(p, avail).wrapper == p.wrapper,
        probed_indices(p, avail) == Seq::new((j - p.idx + 1) as nat, |n: int| p.idx + n),
    decreases j - p.idx,
{
    axiom_spec_len(&p.candidates);
    if p.idx == j {
        assert(probed_indices(p, avail) =~= Seq::new(1, |n: int| p.idx + n));
    } else {
        let q = p.step_spec(false);
        assert(q.idx == p.idx + 1);
        assert(q.phase is Probing);
        assert(q.candidates == p.candidates);
        assert(q.wrapper == p.wrapper);
        assert(forall|k: int| q.idx <= k < j ==> !avail[k]);
        lemma_first_available_selected(q, avail, j);
        assert(probed_indices(p, avail) =~= Seq::new((j - p.idx + 1) as nat, |n: int| p.idx + n));
    }
}

/// Law: when no candidate at or after the plan's position is available the
/// run probes every remaining candidate and ends in the failure state,
/// whose action carries the message naming the supported candidates.
pub proof fn lemma_no_terminal(p: LaunchPlan, avail: Seq<bool>)
    requires
        p.wf(),
        p.phase is Probing,
        avail.len() == p.candidates@.len(),
        forall|k: int| p.idx <= k < avail.len() ==> !avail[k],
    ensures
        run_probes(p, avail).phase is Probing,
        run_probes(p, avail).idx == p.candidates@.len(),
        run_probes(p, avail).candidates == p.candidates,
        run_probes(p, avail).finished(),
        probed_indices(p, avail) == Seq::new((p.candidates@.len() - p.idx) as nat, |n: int| p.idx + n),
    decreases p.candidates@.len() - p.idx,
{
    axiom_spec_len(&p.candidates);
    if p.idx < p.candidates@.len() {
        let q = p.step_spec(false);
        assert(q.idx == p.idx + 1);
        assert(q.phase is Probing);
        assert(q.candidates == p.candidates);
        assert(forall|k: int| q.idx <= k < avail.len() ==> !avail[k]);
        lemma_no_terminal(q, avail);
        assert(probed_indices(p, avail) =~= Seq::new(
            (p.candidates@.len() - p.idx) as nat,
            |n: int| p.idx + n,
        ));
    } else {
        assert(probed_indices(p, avail) =~= Seq::new(0, |n: int| p.idx + n));
    }
}

/// One string occurs inside another.
pub open spec fn contains_seq(hay: Seq<char>, needle: Seq<char>) -> bool {
    exists|i: int, j: int| 0 <= i <= j <= hay.len() && #[trigger] hay.subrange(i, j) == needle
}

/// Each candidate name occurs in the joined name list.
proof fn lemma_joined_contains(cs: Seq<Candidate>, k: int)
    requires
        0 <= k < cs.len(),
    ensures
        contains_seq(joined_names(cs), cs[k].program@),
    decreases cs.len(),
{
    let hay = joined_names(cs);
    let needle = cs[k].program@;
    if cs.len() == 1 {
        assert(hay.subrange(0, needle.len() as int) =~= needle);
        assert(contains_seq(hay, needle));
    } else if k == cs.len() - 1 {
        let w = hay.len() - needle.len();
        assert(hay.subrange(w as int, hay.len() as int) =~= needle);
        assert(contains_seq(hay, needle));
    } else {
        lemma_joined_contains(cs.drop_last(), k);
        let pre = joined_names(cs.drop_last());
        let (i, j) = choose|i: int, j: int|
            0 <= i <= j <= pre.len() && #[trigger] pre.subrange(i, j) == needle;
        assert(hay.subrange(i, j) =~= pre.subrange(i, j));
        assert(contains_seq(hay, needle));
    }
}

/// Law: the no-candidate failure message names every supported candidate.
pub proof fn lemma_message_lists_candidates(cs: Seq<Candidate>, k: int)
    requires
        0 <= k < cs.len(),
    ensures
        contains_seq(no_terminal_message(cs), cs[k].program@),
{
    lemma_joined_contains(cs, k);
    let hay = no_terminal_message(cs);
    let joined = joined_names(cs);
    let needle = cs[k].program@;
    let pre = "Nenhum terminal encontrado. Terminais suportados: "@;
    let (i, j) = choose|i: int, j: int|
        0 <= i <= j <= joined.len() && #[trigger] joined.subrange(i, j) == needle;
    assert(hay.subrange(pre.len() + i, pre.len() + j) =~= joined.subrange(i, j));
    assert(contains_seq(hay, needle));
}

/// How a launch fails: no emulator present, or the host refused to create
/// the process or run the automation instruction.
pub enum LaunchError {
    NoTerminalFound(String),
    SpawnFailed(String),
}

impl LaunchError {
    /// The human-readable message carried by the error.
    pub open spec fn message_spec(self) -> Seq<char> {
        match self {
            LaunchError::NoTerminalFound(m) => m@,
            LaunchError::SpawnFailed(m) => m@,
        }
    }

    /// Read the message out of the error.
    pub fn message(&self) -> (r: String)
        ensures
            r@ == self.message_spec(),
    {
        match self {
            LaunchError::NoTerminalFound(m) => m.clone(),
            LaunchError::SpawnFailed(m) => m.clone(),
        }
    }
}

/// The spawn-failure message for one candidate, carrying the host's own
/// error text.
pub fn spawn_error_message(program: &str, detail: &str) -> (r: String)
    ensures
        r@ == "Erro ao abrir "@ + program@ + ": "@ + detail@,
{
    let mut out: String = "Erro ao abrir ".to_owned();
    out.append(program);
    out.append(": ");
    out.append(detail);
    out
}

/// The spawn-failure message used where no candidate name applies.
pub fn spawn_error_message_generic(detail: &str) -> (r: String)
    ensures
        r@ == "Erro ao abrir terminal: "@ + detail@,
{
    let mut out: String = "Erro ao abrir terminal: ".to_owned();
    out.append(detail);
    out
}

} // verus!
