//! The capability contract shared by every action collaborator, and the
//! dispatch of a batch of requested command names.
//!
//! Dispatch is planned before anything executes: the whole batch is
//! validated first, and if any requested name is recognized by no
//! registered runner the batch fails with the full list of unsupported
//! names — no runner is invoked for any name of such a batch.  A validated
//! batch yields exactly one invocation per requested name, routed to the
//! first registered runner that recognizes it.  Whoever executes the plan
//! performs the invocations in order and stops at the first failure.

use vstd::prelude::*;

use crate::client::Client;
use crate::errors::TopLevelError;

verus! {

/// The capability contract: a collaborator states which command names it
/// recognizes, and is asked before it is ever invoked.
pub trait Runner {
    /// Which names this runner recognizes.
    spec fn supports(&self, name: Seq<char>) -> bool;

    /// Whether this runner recognizes `cmd`.
    fn has_command(&self, cmd: &String) -> (r: bool)
        ensures
            r == self.supports(cmd@),
    ;
}

/// The local collaborator that opens the configured link in a browser.
/// It recognizes exactly the name `open`; the opening itself is an
/// outside action performed by whoever executes the plan.
#[derive(Debug)]
pub struct Opener {
    pub link: String,
}

impl Runner for Opener {
    open spec fn supports(&self, name: Seq<char>) -> bool {
        name == "open"@
    }

    fn has_command(&self, cmd: &String) -> (r: bool) {
        let open_name: String = "open".to_owned();
        *cmd == open_name
    }
}

/// The registered collaborators, behind one dispatchable type.
#[derive(Debug)]
pub enum RunnerHandle {
    Remote(Client),
    Opener(Opener),
}

impl Runner for RunnerHandle {
    open spec fn supports(&self, name: Seq<char>) -> bool {
        match self {
            RunnerHandle::Remote(c) => c.supports(name),
            RunnerHandle::Opener(o) => o.supports(name),
        }
    }

    fn has_command(&self, cmd: &String) -> (r: bool) {
        match self {
            RunnerHandle::Remote(c) => c.has_command(cmd),
            RunnerHandle::Opener(o) => o.has_command(cmd),
        }
    }
}

/// Whether some registered runner recognizes `name`.
pub open spec fn any_supports<R: Runner>(mods: Seq<R>, name: Seq<char>) -> bool {
    exists|j: int| 0 <= j < mods.len() && (#[trigger] mods[j]).supports(name)
}

/// The requested names among the first `k` entries of the invocation
/// (the entry at index zero names the program, not a command) that no
/// registered runner recognizes, in the order requested.
pub open spec fn unsupported_among<R: Runner>(
    commands: Seq<String>,
    mods: Seq<R>,
    k: int,
) -> Seq<String>
    decreases k,
{
    if k <= 1 {
        Seq::empty()
    } else {
        unsupported_among(commands, mods, k - 1) + (if any_supports(mods, commands[k - 1]@) {
            Seq::empty()
        } else {
            seq![commands[k - 1]]
        })
    }
}

/// One planned invocation: the index of the runner to invoke, and the
/// requested name to hand it.
#[derive(Debug)]
pub struct PlanStep {
    pub runner: usize,
    pub name: String,
}

/// The index of the first registered runner, among the first `k`, that
/// recognizes `name`; nothing when none of them does.
pub open spec fn first_capable<R: Runner>(mods: Seq<R>, name: Seq<char>, k: int) -> Option<int>
    decreases k,
{
    if k <= 0 {
        None
    } else {
        match first_capable(mods, name, k - 1) {
            Some(i) => Some(i),
            None => if mods[k - 1].supports(name) {
                Some(k - 1)
            } else {
                None
            },
        }
    }
}

proof fn lemma_first_capable_grows<R: Runner>(mods: Seq<R>, name: Seq<char>, k1: int, k2: int)
    requires
        k1 <= k2,
        first_capable(mods, name, k1) is Some,
    ensures
        first_capable(mods, name, k2) == first_capable(mods, name, k1),
    decreases k2 - k1,
{
    if k1 < k2 {
        lemma_first_capable_grows(mods, name, k1, k2 - 1);
    }
}

proof fn lemma_first_capable_iff_any<R: Runner>(mods: Seq<R>, name: Seq<char>, k: int)
    ensures
        first_capable(mods, name, k) is Some <==> exists|j: int|
            0 <= j < k && (#[trigger] mods[j]).supports(name),
    decreases k,
{
    if k > 0 {
        lemma_first_capable_iff_any(mods, name, k - 1);
        if exists|j: int| 0 <= j < k && (#[trigger] mods[j]).supports(name) {
            let j = choose|j: int| 0 <= j < k && (#[trigger] mods[j]).supports(name);
            if j < k - 1 {
                assert(exists|t: int| 0 <= t < k - 1 && (#[trigger] mods[t]).supports(name));
            }
        }
    }
}

/// A name is routed to the first capable runner alone: its plan is one
/// step naming that runner, or nothing when no runner recognizes it.
pub open spec fn plan_for_name<R: Runner>(mods: Seq<R>, name: String) -> Seq<PlanStep> {
    match first_capable(mods, name@, mods.len() as int) {
        Some(i) => seq![PlanStep { runner: i as usize, name: name }],
        None => Seq::empty(),
    }
}

/// The invocations the first `k` entries of the invocation give rise to:
/// for each requested name in order, its step on the first capable runner.
pub open spec fn plan_among<R: Runner>(commands: Seq<String>, mods: Seq<R>, k: int) -> Seq<
    PlanStep,
>
    decreases k,
{
    if k <= 1 {
        Seq::empty()
    } else {
        plan_among(commands, mods, k - 1) + plan_for_name(mods, commands[k - 1])
    }
}

proof fn lemma_plan_among_len<R: Runner>(commands: Seq<String>, mods: Seq<R>, k: int)
    requires
        forall|t: int| 1 <= t < k ==> any_supports(mods, #[trigger] commands[t]@),
    ensures
        k <= 1 ==> plan_among(commands, mods, k).len() == 0,
        k > 1 ==> plan_among(commands, mods, k).len() == k - 1,
    decreases k,
{
    if k > 1 {
        lemma_plan_among_len(commands, mods, k - 1);
        lemma_first_capable_iff_any(mods, commands[k - 1]@, mods.len() as int);
    }
}

/// Validate a whole batch of requested names before anything executes:
/// every name some runner recognizes passes; otherwise the batch fails
/// with exactly the unrecognized names, in the order requested.
#[verifier::loop_isolation(false)]
pub fn check_commands<R: Runner>(commands: &Vec<String>, mods: &Vec<R>) -> (r: Result<
    (),
    TopLevelError,
>)
    ensures
        r is Ok <==> unsupported_among(commands@, mods@, commands@.len() as int).len() == 0,
        r is Ok <==> (forall|t: int|
            1 <= t < commands@.len() ==> any_supports(mods@, commands@[t]@)),
        r matches Err(e) ==> (e matches TopLevelError::UnsupportedCommands(u) && u@
            == unsupported_among(commands@, mods@, commands@.len() as int)),
{
    let mut unsupported: Vec<String> = Vec::new();
    let n = commands.len();
    let mut i: usize = 1;
    while i < n
        invariant
            1 <= i,
            i <= n || i == 1,
            unsupported@ == unsupported_among(commands@, mods@, i as int),
            unsupported@.len() == 0 <==> (forall|t: int|
                1 <= t < i ==> any_supports(mods@, commands@[t]@)),
        decreases n - i,
    {
        let mut found = false;
        let m = mods.len();
        let mut j: usize = 0;
        while j < m
            invariant
                0 <= j <= m,
                found <==> exists|t: int|
                    0 <= t < j && (#[trigger] mods@[t]).supports(commands@[i as int]@),
            decreases m - j,
        {
            if mods[j].has_command(&commands[i]) {
                found = true;
            }
            j += 1;
        }
        if !found {
            let ghost before = unsupported@;
            unsupported.push(commands[i].clone());
            proof {
                assert(unsupported@ =~= before + seq![commands@[i as int]]);
            }
        }
        i += 1;
    }
    if unsupported.len() == 0 {
        Ok(())
    } else {
        Err(TopLevelError::UnsupportedCommands(unsupported))
    }
}

/// The first registered runner that recognizes `name`, asked in
/// registration order.
#[verifier::loop_isolation(false)]
fn find_first_capable<R: Runner>(mods: &Vec<R>, name: &String) -> (r: Option<usize>)
    ensures
        (match first_capable(mods@, name@, mods@.len() as int) {
            Some(i) => r == Some(i as usize),
            None => r is None,
        }),
{
    let m = mods.len();
    let mut j: usize = 0;
    while j < m
        invariant
            0 <= j <= m,
            first_capable(mods@, name@, j as int) is None,
        decreases m - j,
    {
        if mods[j].has_command(name) {
            proof {
                lemma_first_capable_grows(mods@, name@, j as int + 1, mods@.len() as int);
            }
            return Some(j);
        }
        j += 1;
    }
    None
}

/// Lay out the invocations of an already validated batch: for each
/// requested name in order, one step on the first registered runner that
/// recognizes it; a name no runner recognizes contributes no step.
#[verifier::loop_isolation(false)]
pub fn plan_commands<R: Runner>(commands: &Vec<String>, mods: &Vec<R>) -> (r: Vec<PlanStep>)
    ensures
        r@ == plan_among(commands@, mods@, commands@.len() as int),
{
    let mut plan: Vec<PlanStep> = Vec::new();
    let n = commands.len();
    let mut i: usize = 1;
    while i < n
        invariant
            1 <= i,
            i <= n || i == 1,
            plan@ == plan_among(commands@, mods@, i as int),
        decreases n - i,
    {
        let ghost before = plan@;
        match find_first_capable(mods, &commands[i]) {
            Some(j) => {
                plan.push(PlanStep { runner: j, name: commands[i].clone() });
                proof {
                    assert(plan@ =~= before + plan_for_name(mods@, commands@[i as int]));
                }
            },
            None => {
                proof {
                    assert(plan@ =~= before + plan_for_name(mods@, commands@[i as int]));
                }
            },
        }
        i += 1;
    }
    plan
}

/// Dispatch a batch: validate every requested name first, and only when
/// the whole batch is recognized lay out the invocations — exactly one
/// step per requested name, on the first capable runner.  A batch with
/// any unsupported name yields no plan at all, so no runner is invoked
/// for any name in it.
pub fn dispatch_commands<R: Runner>(commands: &Vec<String>, mods: &Vec<R>) -> (r: Result<
    Vec<PlanStep>,
    TopLevelError,
>)
    ensures
        r is Ok <==> (forall|t: int|
            1 <= t < commands@.len() ==> any_supports(mods@, commands@[t]@)),
        r matches Ok(p) ==> p@ == plan_among(commands@, mods@, commands@.len() as int),
        r matches Ok(p) ==> p@.len() == (if commands@.len() <= 1 {
            0int
        } else {
            commands@.len() - 1
        }),
        r matches Err(e) ==> (e matches TopLevelError::UnsupportedCommands(u) && u@
            == unsupported_among(commands@, mods@, commands@.len() as int) && u@.len() > 0),
{
    match check_commands(commands, mods) {
        Ok(()) => {
            proof {
                lemma_plan_among_len(commands@, mods@, commands@.len() as int);
            }
            Ok(plan_commands(commands, mods))
        },
        Err(e) => Err(e),
    }
}

} // verus!
