//! Plans: what a job has to do on the host, step by step.

use crate::text;
use vstd::prelude::*;
use vstd::string::StringExecFns;

verus! {

/// A program to run.
#[derive(Debug)]
pub struct Command {
    /// The program and its arguments.
    pub argv: Vec<String>,
    /// Variables that are added to its environment.
    pub env: Vec<(String, String)>,
    /// Variables that are taken out of its environment.
    pub env_remove: Vec<String>,
    /// The directory that it runs in, if not the current one.
    pub current_dir: Option<String>,
    /// The seconds after which it is stopped, if it is still running then.
    pub timeout_sec: Option<u64>,
}

/// A program to run.
#[verifier::ext_equal]
pub struct CommandView {
    pub argv: Seq<Seq<char>>,
    pub env: Seq<(Seq<char>, Seq<char>)>,
    pub env_remove: Seq<Seq<char>>,
    pub current_dir: Option<Seq<char>>,
    pub timeout_sec: Option<u64>,
}

impl View for Command {
    type V = CommandView;

    open spec fn view(&self) -> CommandView {
        CommandView {
            argv: text::views(self.argv@),
            env: Seq::new(self.env@.len(), |i: int| (self.env@[i].0@, self.env@[i].1@)),
            env_remove: text::views(self.env_remove@),
            current_dir: text::opt_view(self.current_dir),
            timeout_sec: self.timeout_sec,
        }
    }
}

impl CommandView {
    /// A program without arguments.
    pub open spec fn program(name: Seq<char>) -> CommandView {
        CommandView {
            argv: seq![name],
            env: Seq::empty(),
            env_remove: Seq::empty(),
            current_dir: None,
            timeout_sec: None,
        }
    }

    /// With one more argument.
    pub open spec fn arg(self, arg: Seq<char>) -> CommandView {
        CommandView { argv: self.argv.push(arg), ..self }
    }

    /// With one more variable.
    pub open spec fn env(self, name: Seq<char>, value: Seq<char>) -> CommandView {
        CommandView { env: self.env.push((name, value)), ..self }
    }

    /// With one more variable taken out.
    pub open spec fn env_remove(self, name: Seq<char>) -> CommandView {
        CommandView { env_remove: self.env_remove.push(name), ..self }
    }

    /// In a directory.
    pub open spec fn current_dir(self, dir: Seq<char>) -> CommandView {
        CommandView { current_dir: Some(dir), ..self }
    }

    /// With several more arguments.
    pub open spec fn args(self, args: Seq<Seq<char>>) -> CommandView {
        CommandView { argv: self.argv + args, ..self }
    }

    /// With arguments that each stand behind the same option.
    pub open spec fn options(self, option: Seq<char>, values: Seq<Seq<char>>) -> CommandView
        decreases values.len(),
    {
        if values.len() == 0 {
            self
        } else {
            self.options(option, values.drop_last()).arg(option).arg(values.last())
        }
    }

    /// Stopped after some seconds.
    pub open spec fn timeout(self, seconds: u64) -> CommandView {
        CommandView { timeout_sec: Some(seconds), ..self }
    }
}

impl Command {
    /// A program without arguments.
    pub fn new(program: &str) -> (command: Command)
        ensures
            command@ == CommandView::program(program@),
    {
        let argv: Vec<String> = vec![String::from_str(program)];
        let command = Command {
            argv,
            env: Vec::new(),
            env_remove: Vec::new(),
            current_dir: None,
            timeout_sec: None,
        };
        proof {
            assert(command@ =~= CommandView::program(program@));
        }
        command
    }

    /// With one more argument.
    pub fn arg(self, arg: &str) -> (command: Command)
        ensures
            command@ == self@.arg(arg@),
    {
        let mut command = self;
        command.argv.push(String::from_str(arg));
        proof {
            assert(command@ =~= self@.arg(arg@));
        }
        command
    }

    /// With one more variable.
    pub fn env(self, name: &str, value: &str) -> (command: Command)
        ensures
            command@ == self@.env(name@, value@),
    {
        let mut command = self;
        command.env.push((String::from_str(name), String::from_str(value)));
        proof {
            assert(command@ =~= self@.env(name@, value@));
        }
        command
    }

    /// With one more variable taken out.
    pub fn env_remove(self, name: &str) -> (command: Command)
        ensures
            command@ == self@.env_remove(name@),
    {
        let mut command = self;
        command.env_remove.push(String::from_str(name));
        proof {
            assert(command@ =~= self@.env_remove(name@));
        }
        command
    }

    /// In a directory.
    pub fn current_dir(self, dir: &str) -> (command: Command)
        ensures
            command@ == self@.current_dir(dir@),
    {
        let mut command = self;
        command.current_dir = Some(String::from_str(dir));
        proof {
            assert(command@ =~= self@.current_dir(dir@));
        }
        command
    }

    /// With several more arguments.
    pub fn args(self, args: &Vec<String>) -> (command: Command)
        ensures
            command@ == self@.args(text::views(args@)),
    {
        let ghost before = self@;
        let ghost all = text::views(args@);
        let mut command = self;
        let mut i: usize = 0;
        proof {
            assert(before.args(all.take(0)) =~= before);
        }
        while i < args.len()
            invariant
                i <= args@.len(),
                all == text::views(args@),
                command@ == before.args(all.take(i as int)),
            decreases args@.len() - i,
        {
            command = command.arg(args[i].as_str());
            proof {
                assert(before.args(all.take(i as int)).arg(all[i as int]) =~= before.args(
                    all.take(i + 1),
                ));
            }
            i = i + 1;
        }
        proof {
            assert(all.take(i as int) =~= all);
        }
        command
    }

    /// With arguments that each stand behind the same option.
    pub fn options(self, option: &str, values: &Vec<String>) -> (command: Command)
        ensures
            command@ == self@.options(option@, text::views(values@)),
    {
        let ghost before = self@;
        let ghost all = text::views(values@);
        let mut command = self;
        let mut i: usize = 0;
        while i < values.len()
            invariant
                i <= values@.len(),
                all == text::views(values@),
                command@ == before.options(option@, all.take(i as int)),
            decreases values@.len() - i,
        {
            command = command.arg(option).arg(values[i].as_str());
            proof {
                assert(all.take(i + 1).drop_last() =~= all.take(i as int));
            }
            i = i + 1;
        }
        proof {
            assert(all.take(i as int) =~= all);
        }
        command
    }

    /// Stopped after some seconds.
    pub fn timeout(self, seconds: u64) -> (command: Command)
        ensures
            command@ == self@.timeout(seconds),
    {
        let mut command = self;
        command.timeout_sec = Some(seconds);
        proof {
            assert(command@ =~= self@.timeout(seconds));
        }
        command
    }
}

/// One thing to do.
#[derive(Debug)]
pub enum Action {
    /// Run a program, which has to succeed. The text says what failed if it
    /// does not, where there is more to say than the program's own error.
    Run { command: Command, context: Option<String> },
    /// Run a program, unless a path exists.
    RunUnlessExists { path: String, command: Command },
    /// Run a program, whether it succeeds or not.
    TryRun(Command),
    /// Run a program that has to start, whether it succeeds or not. The text
    /// says what failed if it does not start.
    RunLeniently { command: Command, failure: String },
    /// Run a program that has to succeed. One text stands before its status if
    /// it does not, and another before the error if it does not start.
    RunChecked { command: Command, failed: String, not_started: String },
    /// Run a program that has to succeed, and copy what it prints to a file. The
    /// text is the error if it does not succeed.
    RunLogged { command: Command, log: String, failure: String },
    /// Make a directory and those above it, where they are missing.
    CreateDirAll(String),
    /// Copy a file. The text says what failed if that fails, where there is more
    /// to say than the error itself.
    Copy { from: String, to: String, context: Option<String> },
    /// Go to a directory.
    ChangeDir(String),
    /// A path has to exist. The text is the error if it does not.
    Require { path: String, error: String },
    /// Tell the user something.
    Tell(String),
    /// Give up, with an error.
    Fail(String),
}

/// One thing to do.
#[verifier::ext_equal]
pub enum ActionView {
    Run { command: CommandView, context: Option<Seq<char>> },
    RunUnlessExists { path: Seq<char>, command: CommandView },
    TryRun(CommandView),
    RunLeniently { command: CommandView, failure: Seq<char> },
    RunChecked { command: CommandView, failed: Seq<char>, not_started: Seq<char> },
    RunLogged { command: CommandView, log: Seq<char>, failure: Seq<char> },
    CreateDirAll(Seq<char>),
    Copy { from: Seq<char>, to: Seq<char>, context: Option<Seq<char>> },
    ChangeDir(Seq<char>),
    Require { path: Seq<char>, error: Seq<char> },
    Tell(Seq<char>),
    Fail(Seq<char>),
}

impl ActionView {
    /// Whether a program is run, or the job gives up.
    pub open spec fn is_effort(self) -> bool {
        match self {
            ActionView::Run { .. } => true,
            ActionView::RunUnlessExists { .. } => true,
            ActionView::TryRun(_) => true,
            ActionView::RunLeniently { .. } => true,
            ActionView::RunChecked { .. } => true,
            ActionView::RunLogged { .. } => true,
            ActionView::Fail(_) => true,
            _ => false,
        }
    }
}

/// A program to run.
pub open spec fn run(command: CommandView) -> ActionView {
    ActionView::Run { command, context: None }
}

/// A program to run, and what to say if it fails.
pub open spec fn run_or(command: CommandView, context: Seq<char>) -> ActionView {
    ActionView::Run { command, context: Some(context) }
}

impl View for Action {
    type V = ActionView;

    open spec fn view(&self) -> ActionView {
        match self {
            Action::Run { command, context } => ActionView::Run {
                command: command@,
                context: text::opt_view(*context),
            },
            Action::RunUnlessExists { path, command } => ActionView::RunUnlessExists {
                path: path@,
                command: command@,
            },
            Action::TryRun(command) => ActionView::TryRun(command@),
            Action::RunLeniently { command, failure } => ActionView::RunLeniently {
                command: command@,
                failure: failure@,
            },
            Action::RunChecked { command, failed, not_started } => ActionView::RunChecked {
                command: command@,
                failed: failed@,
                not_started: not_started@,
            },
            Action::RunLogged { command, log, failure } => ActionView::RunLogged {
                command: command@,
                log: log@,
                failure: failure@,
            },
            Action::CreateDirAll(path) => ActionView::CreateDirAll(path@),
            Action::Copy { from, to, context } => ActionView::Copy {
                from: from@,
                to: to@,
                context: text::opt_view(*context),
            },
            Action::ChangeDir(path) => ActionView::ChangeDir(path@),
            Action::Require { path, error } => ActionView::Require { path: path@, error: error@ },
            Action::Tell(line) => ActionView::Tell(line@),
            Action::Fail(error) => ActionView::Fail(error@),
        }
    }
}

/// Things to do, one after the other.
#[derive(Debug)]
pub struct Actions {
    pub actions: Vec<Action>,
}

impl View for Actions {
    type V = Seq<ActionView>;

    open spec fn view(&self) -> Seq<ActionView> {
        Seq::new(self.actions@.len(), |i: int| self.actions@[i]@)
    }
}

impl Actions {
    /// Nothing to do.
    pub fn new() -> (actions: Actions)
        ensures
            actions@ == Seq::<ActionView>::empty(),
    {
        let actions = Actions { actions: Vec::new() };
        proof {
            assert(actions@ =~= Seq::empty());
        }
        actions
    }

    /// One more thing to do.
    pub fn push(&mut self, action: Action)
        ensures
            final(self)@ == old(self)@.push(action@),
    {
        let ghost before = self@;
        self.actions.push(action);
        proof {
            assert(self@ =~= before.push(action@));
        }
    }

    /// A program to run.
    pub fn run(&mut self, command: Command)
        ensures
            final(self)@ == old(self)@.push(
                ActionView::Run { command: command@, context: None },
            ),
    {
        self.push(Action::Run { command, context: None });
    }

    /// A program to run, and what to say if it fails.
    pub fn run_with_context(&mut self, command: Command, context: String)
        ensures
            final(self)@ == old(self)@.push(
                ActionView::Run { command: command@, context: Some(context@) },
            ),
    {
        self.push(Action::Run { command, context: Some(context) });
    }

    /// A directory to make.
    pub fn create_dir_all(&mut self, path: &str)
        ensures
            final(self)@ == old(self)@.push(ActionView::CreateDirAll(path@)),
    {
        self.push(Action::CreateDirAll(String::from_str(path)));
    }

    /// A file to copy.
    pub fn copy(&mut self, from: &str, to: &str)
        ensures
            final(self)@ == old(self)@.push(
                ActionView::Copy { from: from@, to: to@, context: None },
            ),
    {
        self.push(
            Action::Copy { from: String::from_str(from), to: String::from_str(to), context: None },
        );
    }

    /// A directory to go to.
    pub fn change_dir(&mut self, path: &str)
        ensures
            final(self)@ == old(self)@.push(ActionView::ChangeDir(path@)),
    {
        self.push(Action::ChangeDir(String::from_str(path)));
    }

    /// A path that has to exist.
    pub fn require(&mut self, path: &str, error: String)
        ensures
            final(self)@ == old(self)@.push(ActionView::Require { path: path@, error: error@ }),
    {
        self.push(Action::Require { path: String::from_str(path), error });
    }

    /// Something to tell the user.
    pub fn tell(&mut self, line: String)
        ensures
            final(self)@ == old(self)@.push(ActionView::Tell(line@)),
    {
        self.push(Action::Tell(line));
    }
}

/// One step of a plan: what to do if a path is missing, and what to do if it
/// exists; or, without a path, what to do in any case.
#[derive(Debug)]
pub struct Step {
    pub path: Option<String>,
    pub missing: Actions,
    pub present: Actions,
}

/// One step of a plan.
#[verifier::ext_equal]
pub struct StepView {
    pub path: Option<Seq<char>>,
    pub missing: Seq<ActionView>,
    pub present: Seq<ActionView>,
}

impl View for Step {
    type V = StepView;

    open spec fn view(&self) -> StepView {
        StepView {
            path: text::opt_view(self.path),
            missing: self.missing@,
            present: self.present@,
        }
    }
}

impl StepView {
    /// A step that is taken in any case.
    pub open spec fn always(actions: Seq<ActionView>) -> StepView {
        StepView { path: None, missing: Seq::empty(), present: actions }
    }

    /// A step that is taken if a path is missing.
    pub open spec fn if_missing(path: Seq<char>, actions: Seq<ActionView>) -> StepView {
        StepView { path: Some(path), missing: actions, present: Seq::empty() }
    }

    /// A step that is taken if a path exists.
    pub open spec fn if_present(path: Seq<char>, actions: Seq<ActionView>) -> StepView {
        StepView { path: Some(path), missing: Seq::empty(), present: actions }
    }

    /// What has to be done, given which paths exist.
    pub open spec fn actions(self, is_there: spec_fn(Seq<char>) -> bool) -> Seq<ActionView> {
        match self.path {
            Some(path) if !is_there(path) => self.missing,
            _ => self.present,
        }
    }
}

/// What a job has to do.
#[derive(Debug)]
pub struct Plan {
    pub steps: Vec<Step>,
}

impl View for Plan {
    type V = Seq<StepView>;

    open spec fn view(&self) -> Seq<StepView> {
        Seq::new(self.steps@.len(), |i: int| self.steps@[i]@)
    }
}

impl Plan {
    pub fn new() -> (plan: Plan)
        ensures
            plan@ == Seq::<StepView>::empty(),
    {
        let plan = Plan { steps: Vec::new() };
        proof {
            assert(plan@ =~= Seq::empty());
        }
        plan
    }

    fn push(&mut self, step: Step)
        ensures
            final(self)@ == old(self)@.push(step@),
    {
        let ghost before = self@;
        self.steps.push(step);
        proof {
            assert(self@ =~= before.push(step@));
        }
    }

    /// A step that is taken in any case.
    pub fn always(&mut self, actions: Actions)
        ensures
            final(self)@ == old(self)@.push(StepView::always(actions@)),
    {
        let step = Step { path: None, missing: Actions::new(), present: actions };
        self.push(step);
    }

    /// A step that is taken if a path is missing.
    pub fn if_missing(&mut self, path: &str, actions: Actions)
        ensures
            final(self)@ == old(self)@.push(StepView::if_missing(path@, actions@)),
    {
        let step = Step {
            path: Some(String::from_str(path)),
            missing: actions,
            present: Actions::new(),
        };
        self.push(step);
    }

    /// A step that is taken if a path exists.
    pub fn if_present(&mut self, path: &str, actions: Actions)
        ensures
            final(self)@ == old(self)@.push(StepView::if_present(path@, actions@)),
    {
        let step = Step {
            path: Some(String::from_str(path)),
            missing: Actions::new(),
            present: actions,
        };
        self.push(step);
    }

    /// A step that does one thing if a path is missing, and another if it
    /// exists.
    pub fn either(&mut self, path: &str, missing: Actions, present: Actions)
        ensures
            final(self)@ == old(self)@.push(
                StepView { path: Some(path@), missing: missing@, present: present@ },
            ),
    {
        self.push(Step { path: Some(String::from_str(path)), missing, present });
    }
}

} // verus!
