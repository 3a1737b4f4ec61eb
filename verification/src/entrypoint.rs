//! The entrypoint: what the binary does as the first process of a container.
//!
//! Every step of privileged setup runs, in the order of the aspects. Only
//! then is the argument vector looked at: it must name a command beyond the
//! program itself. Then the privilege escalator is looked up and the command
//! handed over to it. The first failure ends the entrypoint.
//!
//! The steps themselves, the lookup and the handover happen outside: the
//! entrypoint says what is to be done next, and is told how it went.

use vstd::prelude::*;
use vstd::string::StringExecFns;
use crate::aspects::{AspectView, ContainerAspect, StepView};
use crate::error::Error;
use crate::escalator::which_program;
use crate::strings::{append_strings, copy_strings};

verus! {

/// The privilege escalator.
pub const ESCALATOR: &'static str = "sudo";

/// What separates the escalator's own arguments from the command.
pub const SEPARATOR: &'static str = "--";

/// A step of privileged setup, as the entrypoint has it planned.
#[derive(Debug)]
pub struct PlannedStep {
    /// The name of the aspect that declares the step.
    pub aspect: String,
    /// What the step is for.
    pub description: String,
    /// The arguments that the step hands to the escalator.
    pub sudo_args: Vec<String>,
}

/// The mathematical value of a [`PlannedStep`].
pub struct PlannedStepView {
    pub aspect: Seq<char>,
    pub description: Seq<char>,
    pub sudo_args: Seq<Seq<char>>,
}

impl View for PlannedStep {
    type V = PlannedStepView;

    open spec fn view(&self) -> PlannedStepView {
        PlannedStepView {
            aspect: self.aspect@,
            description: self.description@,
            sudo_args: self.sudo_args.deep_view(),
        }
    }
}

impl DeepView for PlannedStep {
    type V = PlannedStepView;

    open spec fn deep_view(&self) -> PlannedStepView {
        self@
    }
}

/// Where an entrypoint stands.
#[derive(Debug)]
pub enum EntrypointState {
    /// The steps before `next` have succeeded; step `next` is due.
    Setup { next: usize },
    /// All steps have succeeded and a command was given; the escalator is
    /// being looked up.
    Resolving,
    /// The escalator was found at `program`; the command is handed over.
    Handover { program: String },
    /// The entrypoint has failed.
    Failed(Error),
}

/// The mathematical value of an [`EntrypointState`].
pub enum StateView {
    Setup { next: int },
    Resolving,
    Handover { program: Seq<char> },
    Failed(Error),
}

impl View for EntrypointState {
    type V = StateView;

    open spec fn view(&self) -> StateView {
        match self {
            EntrypointState::Setup { next } => StateView::Setup { next: *next as int },
            EntrypointState::Resolving => StateView::Resolving,
            EntrypointState::Handover { program } => StateView::Handover { program: program@ },
            EntrypointState::Failed(e) => StateView::Failed(*e),
        }
    }
}

/// What the driver of an entrypoint is to do next.
#[derive(Debug)]
pub enum EntrypointAction {
    /// Run the action of the planned step `index`, then report with
    /// [`Entrypoint::step_finished`].
    RunStep { index: usize, aspect: String, description: String },
    /// Look `program` up on the path, then report with
    /// [`Entrypoint::escalator_resolved`].
    Resolve { program: String },
    /// Run `program` with `args`, wait for it and exit with its status.
    Exec { program: String, args: Vec<String> },
    /// Give up with this error.
    Fail(Error),
}

/// The mathematical value of an [`EntrypointAction`].
pub enum ActionView {
    RunStep { index: int, aspect: Seq<char>, description: Seq<char> },
    Resolve { program: Seq<char> },
    Exec { program: Seq<char>, args: Seq<Seq<char>> },
    Fail(Error),
}

impl View for EntrypointAction {
    type V = ActionView;

    open spec fn view(&self) -> ActionView {
        match self {
            EntrypointAction::RunStep { index, aspect, description } => ActionView::RunStep {
                index: *index as int,
                aspect: aspect@,
                description: description@,
            },
            EntrypointAction::Resolve { program } => ActionView::Resolve { program: program@ },
            EntrypointAction::Exec { program, args } => ActionView::Exec {
                program: program@,
                args: args.deep_view(),
            },
            EntrypointAction::Fail(e) => ActionView::Fail(*e),
        }
    }
}

/// The mathematical value of an [`Entrypoint`].
pub struct EntrypointView {
    /// The planned steps, in the order in which they run.
    pub plan: Seq<PlannedStepView>,
    /// The raw argument vector: the program's name, then the command.
    pub args: Seq<Seq<char>>,
    /// Where the entrypoint stands.
    pub state: StateView,
}

/// The steps that `aspects` declare, in the order of the aspects and, within
/// one aspect, in the order of its declaration.
pub open spec fn planned_steps(aspects: Seq<AspectView>) -> Seq<PlannedStepView> {
    aspects.flat_map(|aspect: AspectView| steps_of(aspect))
}

/// The steps that one aspect declares.
pub open spec fn steps_of(aspect: AspectView) -> Seq<PlannedStepView> {
    aspect.entrypoint_fns.map_values(
        |step: StepView|
            PlannedStepView {
                aspect: aspect.name,
                description: step.description,
                sudo_args: step.sudo_args,
            },
    )
}

/// The state of an entrypoint of which `done` steps have succeeded. While a
/// step is left, that step is due, whatever the argument vector holds. After
/// the last step the argument vector decides: without a command the
/// entrypoint has failed, with one it goes on to look up the escalator.
pub open spec fn settled(plan: Seq<PlannedStepView>, args: Seq<Seq<char>>, done: int) -> StateView {
    if done < plan.len() {
        StateView::Setup { next: done }
    } else if args.len() < 2 {
        StateView::Failed(Error::MissingEntrypointArgs)
    } else {
        StateView::Resolving
    }
}

/// The arguments that the escalator is run with: what the steps contribute,
/// in their order, the separator, and the command with its arguments.
pub open spec fn handover_args(plan: Seq<PlannedStepView>, args: Seq<Seq<char>>) -> Seq<
    Seq<char>,
> {
    plan.flat_map(|step: PlannedStepView| step.sudo_args) + seq![SEPARATOR@] + args.skip(1)
}

/// What is to be done in a state.
pub open spec fn action_in(entrypoint: EntrypointView) -> ActionView {
    match entrypoint.state {
        StateView::Setup { next } => ActionView::RunStep {
            index: next,
            aspect: entrypoint.plan[next].aspect,
            description: entrypoint.plan[next].description,
        },
        StateView::Resolving => ActionView::Resolve { program: ESCALATOR@ },
        StateView::Handover { program } => ActionView::Exec {
            program,
            args: handover_args(entrypoint.plan, entrypoint.args),
        },
        StateView::Failed(e) => ActionView::Fail(e),
    }
}

/// The state after a step has finished. The report counts only while a step
/// is due.
pub open spec fn after_step(entrypoint: EntrypointView, outcome: Result<(), Error>) -> StateView {
    match entrypoint.state {
        StateView::Setup { next } => match outcome {
            Ok(_) => settled(entrypoint.plan, entrypoint.args, next + 1),
            Err(e) => StateView::Failed(e),
        },
        _ => entrypoint.state,
    }
}

/// The state after the lookup of the escalator. The report counts only
/// while the lookup is due.
pub open spec fn after_lookup(entrypoint: EntrypointView, found: Result<Seq<char>, Error>) -> StateView {
    match entrypoint.state {
        StateView::Resolving => match found {
            Ok(program) => StateView::Handover { program },
            Err(e) => StateView::Failed(e),
        },
        _ => entrypoint.state,
    }
}

/// Setup comes before the look at the argument vector: as long as a step is
/// left, that step is due, also where the argument vector names no command.
/// The want of a command shows only when every step has succeeded.
pub proof fn law_setup_precedes_validation(
    plan: Seq<PlannedStepView>,
    args: Seq<Seq<char>>,
    done: int,
)
    requires
        0 <= done <= plan.len(),
    ensures
        done < plan.len() ==> settled(plan, args, done) == (StateView::Setup { next: done }),
        settled(plan, args, done) == StateView::Failed(Error::MissingEntrypointArgs) <==> done
            == plan.len() && args.len() < 2,
{
}

/// An entrypoint in progress.
#[derive(Debug)]
pub struct Entrypoint {
    plan: Vec<PlannedStep>,
    args: Vec<String>,
    state: EntrypointState,
}

impl View for Entrypoint {
    type V = EntrypointView;

    closed spec fn view(&self) -> EntrypointView {
        EntrypointView {
            plan: self.plan.deep_view(),
            args: self.args.deep_view(),
            state: self.state@,
        }
    }
}

/// The steps that `aspects` declare, in the order in which they are to
/// run.
pub fn plan_steps(aspects: &Vec<ContainerAspect>) -> (plan: Vec<PlannedStep>)
    ensures
        plan.deep_view() == planned_steps(aspects.deep_view()),
{
    let ghost all = aspects.deep_view();
    let ghost per_aspect = |aspect: AspectView| steps_of(aspect);
    let mut plan: Vec<PlannedStep> = Vec::new();
    let mut i: usize = 0;
    proof {
        assert(all.take(0).flat_map(per_aspect) =~= Seq::empty()) by {
            assert(all.take(0).map_values(per_aspect) =~= Seq::empty());
        }
        assert(plan.deep_view() =~= Seq::empty());
    }
    while i < aspects.len()
        invariant
            i <= aspects.len(),
            all == aspects.deep_view(),
            per_aspect == |aspect: AspectView| steps_of(aspect),
            plan.deep_view() == all.take(i as int).flat_map(per_aspect),
        decreases aspects.len() - i,
    {
        proof {
            all.lemma_flat_map_take_append(per_aspect, i as int);
        }
        let ghost done = plan.deep_view();
        let aspect = &aspects[i];
        let mut k: usize = 0;
        assert(plan.deep_view() =~= done + steps_of(all[i as int]).take(0));
        while k < aspect.entrypoint_fns.len()
            invariant
                k <= aspect.entrypoint_fns.len(),
                aspect@ == all[i as int],
                plan.deep_view() == done + steps_of(all[i as int]).take(k as int),
            decreases aspect.entrypoint_fns.len() - k,
        {
            let ghost before = plan.deep_view();
            let step = &aspect.entrypoint_fns[k];
            plan.push(
                PlannedStep {
                    aspect: aspect.name.clone(),
                    description: step.description.clone(),
                    sudo_args: copy_strings(&step.sudo_args),
                },
            );
            assert(plan.deep_view() =~= before.push(steps_of(all[i as int])[k as int]));
            assert(done + steps_of(all[i as int]).take(k + 1) =~= before.push(
                steps_of(all[i as int])[k as int],
            ));
            k = k + 1;
        }
        assert(steps_of(all[i as int]).take(k as int) =~= steps_of(all[i as int]));
        i = i + 1;
    }
    assert(all.take(i as int) =~= all);
    plan
}

impl Entrypoint {
    #[verifier::type_invariant]
    spec fn state_fits(&self) -> bool {
        match self.state {
            EntrypointState::Setup { next } => next < self.plan@.len(),
            EntrypointState::Resolving => self.args@.len() >= 2,
            EntrypointState::Handover { .. } => self.args@.len() >= 2,
            EntrypointState::Failed(_) => true,
        }
    }

    /// The state that `done` finished steps lead to.
    fn settle(plan: &Vec<PlannedStep>, args: &Vec<String>, done: usize) -> (state: EntrypointState)
        requires
            done <= plan.len(),
        ensures
            state@ == settled(plan.deep_view(), args.deep_view(), done as int),
            state matches EntrypointState::Setup { next } ==> next < plan@.len(),
            state is Resolving ==> args@.len() >= 2,
            !(state is Handover),
    {
        if done < plan.len() {
            EntrypointState::Setup { next: done }
        } else if args.len() < 2 {
            EntrypointState::Failed(Error::MissingEntrypointArgs)
        } else {
            EntrypointState::Resolving
        }
    }

    /// An entrypoint that has `plan` before it and was started with the
    /// argument vector `args`. No step has run yet.
    pub fn begin(plan: Vec<PlannedStep>, args: Vec<String>) -> (entrypoint: Entrypoint)
        ensures
            entrypoint@ == (EntrypointView {
                plan: plan.deep_view(),
                args: args.deep_view(),
                state: settled(plan.deep_view(), args.deep_view(), 0),
            }),
    {
        let state = Entrypoint::settle(&plan, &args, 0);
        Entrypoint { plan, args, state }
    }

    /// What is to be done next.
    pub fn action(&self) -> (action: EntrypointAction)
        ensures
            action@ == action_in(self@),
    {
        proof {
            use_type_invariant(self);
        }
        match &self.state {
            EntrypointState::Setup { next } => EntrypointAction::RunStep {
                index: *next,
                aspect: self.plan[*next].aspect.clone(),
                description: self.plan[*next].description.clone(),
            },
            EntrypointState::Resolving => EntrypointAction::Resolve {
                program: String::from_str(ESCALATOR),
            },
            EntrypointState::Handover { program } => EntrypointAction::Exec {
                program: program.clone(),
                args: self.handover(),
            },
            EntrypointState::Failed(e) => EntrypointAction::Fail(e.duplicate()),
        }
    }

    /// The arguments for the escalator.
    fn handover(&self) -> (line: Vec<String>)
        requires
            self.args@.len() >= 2,
        ensures
            line.deep_view() == handover_args(self@.plan, self@.args),
    {
        let ghost plan = self.plan.deep_view();
        let ghost contributed = |step: PlannedStepView| step.sudo_args;
        let mut line: Vec<String> = Vec::new();
        let mut i: usize = 0;
        proof {
            assert(plan.take(0).flat_map(contributed) =~= Seq::empty()) by {
                assert(plan.take(0).map_values(contributed) =~= Seq::empty());
            }
            assert(line.deep_view() =~= Seq::empty());
        }
        while i < self.plan.len()
            invariant
                i <= self.plan.len(),
                plan == self.plan.deep_view(),
                contributed == |step: PlannedStepView| step.sudo_args,
                line.deep_view() == plan.take(i as int).flat_map(contributed),
            decreases self.plan.len() - i,
        {
            proof {
                plan.lemma_flat_map_take_append(contributed, i as int);
            }
            append_strings(&mut line, &self.plan[i].sudo_args);
            i = i + 1;
        }
        assert(plan.take(i as int) =~= plan);
        let ghost head = line.deep_view();
        line.push(String::from_str(SEPARATOR));
        let mut k: usize = 1;
        assert(line.deep_view() =~= head + seq![SEPARATOR@] + self.args.deep_view().subrange(
            1,
            1,
        ));
        while k < self.args.len()
            invariant
                1 <= k <= self.args.len(),
                line.deep_view() == head + seq![SEPARATOR@] + self.args.deep_view().subrange(
                    1,
                    k as int,
                ),
            decreases self.args.len() - k,
        {
            let ghost before = line.deep_view();
            line.push(self.args[k].clone());
            assert(line.deep_view() =~= before.push(self.args.deep_view()[k as int]));
            assert(self.args.deep_view().subrange(1, k + 1) =~= self.args.deep_view().subrange(
                1,
                k as int,
            ).push(self.args.deep_view()[k as int]));
            k = k + 1;
        }
        assert(self.args.deep_view().subrange(1, k as int) =~= self.args.deep_view().skip(1));
        line
    }

    /// Takes note of how the step that was due went. Success makes the next
    /// step due or, after the last one, brings the look at the argument
    /// vector; a failure is the entrypoint's failure.
    pub fn step_finished(&mut self, outcome: Result<(), Error>)
        ensures
            final(self)@ == (EntrypointView { state: after_step(old(self)@, outcome), ..old(self)@ }),
    {
        proof {
            use_type_invariant(&*self);
        }
        let next = match &self.state {
            EntrypointState::Setup { next } => Some(*next),
            _ => None,
        };
        if let Some(next) = next {
            assert(next < self.plan.len());
            match outcome {
                Ok(_) => {
                    self.state = Entrypoint::settle(&self.plan, &self.args, next + 1);
                },
                Err(e) => {
                    self.state = EntrypointState::Failed(e);
                },
            }
        }
    }

    /// Takes note of how the lookup of the escalator went.
    pub fn escalator_resolved(&mut self, found: Result<String, Error>)
        ensures
            final(self)@ == (EntrypointView {
                state: after_lookup(
                    old(self)@,
                    match found {
                        Ok(program) => Ok(program@),
                        Err(e) => Err(e),
                    },
                ),
                ..old(self)@
            }),
    {
        proof {
            use_type_invariant(&*self);
        }
        let due = match &self.state {
            EntrypointState::Resolving => true,
            _ => false,
        };
        if due {
            match found {
                Ok(program) => {
                    self.state = EntrypointState::Handover { program };
                },
                Err(e) => {
                    self.state = EntrypointState::Failed(e);
                },
            }
        }
    }
}

/// Looks the executable `program` up on the path. Where it is not found
/// the error is [`Error::WhichError`].
pub fn resolve(program: &str) -> (found: Result<String, Error>)
    ensures
        found matches Err(e) ==> e is WhichError,
{
    lookup_outcome(which_program(program))
}

/// What a search for the escalator comes to: the path where it was found,
/// or [`Error::WhichError`] with the reason why it was not.
pub fn lookup_outcome(found: Result<String, String>) -> (outcome: Result<String, Error>)
    ensures
        match found {
            Ok(path) => outcome == Ok::<String, Error>(path),
            Err(reason) => outcome == Err::<String, Error>(Error::WhichError(reason)),
        },
{
    match found {
        Ok(path) => Ok(path),
        Err(reason) => Err(Error::WhichError(reason)),
    }
}

} // verus!
