//! The decisions of the loop that walks a command plan.
//!
//! The loop itself runs outside this library: it asks `Walk::pending` what to
//! do next, does it, and reports with `Walk::record` whether it succeeded.
//! Within a group a failure ends the group; the next group starts whatever
//! the one before it came to.

use vstd::prelude::*;
use vstd::string::*;
use crate::tokens::{CommandModel, DependentCommand, plan_is_sound, plan_model};
use crate::words::texts;

verus! {

/// The status with which the built-in `exit` ends the process.
pub const EXIT_STATUS: i32 = 0;

/// What the loop is to do for one dependent command.
#[derive(Debug, Clone, PartialEq, Eq)]
pub enum Action {
    /// Save the history, then end the process with `EXIT_STATUS`.
    Exit,
    /// Make `path` the working directory. Nothing is launched.
    ChangeDir { path: String },
    /// `cd` came without a directory: a failure that changes nothing.
    MissingDirectory,
    /// Launch `program` with `args`, and wait for it unless `background` is set.
    Launch { program: String, args: Vec<String>, background: bool },
}

/// An action as plain values.
pub ghost enum ActionModel {
    Exit,
    ChangeDir { path: Seq<char> },
    MissingDirectory,
    Launch { program: Seq<char>, args: Seq<Seq<char>>, background: bool },
}

impl View for Action {
    type V = ActionModel;

    open spec fn view(&self) -> ActionModel {
        match *self {
            Action::Exit => ActionModel::Exit,
            Action::ChangeDir { path } => ActionModel::ChangeDir { path: path@ },
            Action::MissingDirectory => ActionModel::MissingDirectory,
            Action::Launch { program, args, background } => ActionModel::Launch {
                program: program@,
                args: texts(args@),
                background,
            },
        }
    }
}

/// The name of the built-in that ends the shell.
pub open spec fn exit_word() -> Seq<char> {
    seq!['e', 'x', 'i', 't']
}

/// The name of the built-in that changes the working directory.
pub open spec fn cd_word() -> Seq<char> {
    seq!['c', 'd']
}

/// The action that a command asks for. The two built-ins go by the first
/// token alone; every other command is launched with the tokens after the
/// first as its arguments.
pub open spec fn action_of(command: CommandModel) -> ActionModel
    recommends
        command.tokens.len() > 0,
{
    if command.tokens[0] == exit_word() {
        ActionModel::Exit
    } else if command.tokens[0] == cd_word() {
        if command.tokens.len() >= 2 {
            ActionModel::ChangeDir { path: command.tokens[1] }
        } else {
            ActionModel::MissingDirectory
        }
    } else {
        ActionModel::Launch {
            program: command.tokens[0],
            args: command.tokens.skip(1),
            background: command.background,
        }
    }
}

/// Whether two texts hold the same characters.
pub fn same_text(a: &str, b: &str) -> (r: bool)
    ensures
        r == (a@ == b@),
{
    let n: usize = a.unicode_len();
    if b.unicode_len() != n {
        return false;
    }
    let mut i: usize = 0;
    while i < n
        invariant
            n == a@.len(),
            n == b@.len(),
            i <= n,
            forall|k: int| 0 <= k < i ==> a@[k] == b@[k],
        decreases n - i,
    {
        if a.get_char(i) != b.get_char(i) {
            return false;
        }
        i += 1;
    }
    assert(a@ =~= b@);
    true
}

/// Decides what is to be done for `command`.
pub fn decide(command: &DependentCommand) -> (action: Action)
    requires
        command@.tokens.len() > 0,
    ensures
        action@ == action_of(command@),
{
    let count: usize = command.tokens.len();
    let name = command.tokens[0].as_str();
    proof {
        reveal_strlit("exit");
        reveal_strlit("cd");
        assert("exit"@ =~= exit_word());
        assert("cd"@ =~= cd_word());
    }
    if same_text(name, "exit") {
        Action::Exit
    } else if same_text(name, "cd") {
        if count >= 2 {
            Action::ChangeDir { path: command.tokens[1].clone() }
        } else {
            Action::MissingDirectory
        }
    } else {
        let mut args: Vec<String> = Vec::new();
        let mut k: usize = 1;
        while k < count
            invariant
                count == command.tokens@.len(),
                1 <= k <= count,
                args@.len() == k - 1,
                texts(args@) == texts(command.tokens@).subrange(1, k as int),
            decreases count - k,
        {
            let token = command.tokens[k].clone();
            proof {
                let grown = texts(args@.push(token));
                let wanted = texts(command.tokens@).subrange(1, k + 1);
                assert(token@ == command.tokens@[k as int]@);
                assert(grown.len() == wanted.len());
                assert forall|i: int| 0 <= i < grown.len() implies grown[i] == wanted[i] by {
                    if i < k - 1 {
                        assert(grown[i] == texts(args@)[i]);
                        assert(wanted[i] == texts(command.tokens@).subrange(1, k as int)[i]);
                    }
                }
                assert(grown =~= wanted);
            }
            args.push(token);
            k += 1;
        }
        proof {
            assert(texts(command.tokens@).subrange(1, count as int) =~= command@.tokens.skip(1));
        }
        Action::Launch { program: command.tokens[0].clone(), args, background: command.background }
    }
}

/// Where the loop stands in a plan, and how the last command ended.
#[derive(Debug, Clone, Copy, PartialEq, Eq)]
pub struct Walk {
    /// Whether the command that ran last succeeded.
    pub exit_state: bool,
    /// The index of the group that is being run.
    pub group: usize,
    /// The index, within that group, of the command that is to run next.
    pub command: usize,
}

/// A walk as plain values.
pub ghost struct Position {
    pub exit_state: bool,
    pub group: int,
    pub command: int,
}

impl View for Walk {
    type V = Position;

    open spec fn view(&self) -> Position {
        Position {
            exit_state: self.exit_state,
            group: self.group as int,
            command: self.command as int,
        }
    }
}

impl Position {
    /// Whether the position is that of a command of `plan`, or the one
    /// behind its last group.
    pub open spec fn fits(&self, plan: Seq<Seq<CommandModel>>) -> bool {
        if 0 <= self.group < plan.len() {
            0 <= self.command < plan[self.group].len()
        } else {
            self.group == plan.len() && self.command == 0
        }
    }

    /// Whether every command of the plan has been dealt with.
    pub open spec fn finished(&self, plan: Seq<Seq<CommandModel>>) -> bool {
        self.group >= plan.len()
    }

    /// The position after the command at this one has ended with `success`:
    /// on to the next command of the group after a success, if there is one,
    /// and else to the start of the next group.
    pub open spec fn after(&self, plan: Seq<Seq<CommandModel>>, success: bool) -> Position {
        if success && self.command + 1 < plan[self.group].len() {
            Position { exit_state: success, group: self.group, command: self.command + 1 }
        } else {
            Position { exit_state: success, group: self.group + 1, command: 0 }
        }
    }
}

impl Walk {
    /// The walk before the first command of `plan`. The exit state is carried
    /// over from the line before, and stays as it is where the plan is empty.
    pub fn begin(plan: &Vec<Vec<DependentCommand>>, exit_state: bool) -> (walk: Walk)
        requires
            plan_is_sound(plan_model(plan@)),
        ensures
            walk == (Walk { exit_state, group: 0, command: 0 }),
            walk@.fits(plan_model(plan@)),
    {
        Walk { exit_state, group: 0, command: 0 }
    }

    /// The action for the command that is to run next, or `None` when the
    /// plan has been walked to its end.
    pub fn pending(&self, plan: &Vec<Vec<DependentCommand>>) -> (next: Option<Action>)
        requires
            plan_is_sound(plan_model(plan@)),
            self@.fits(plan_model(plan@)),
        ensures
            self@.finished(plan_model(plan@)) <==> next is None,
            !self@.finished(plan_model(plan@)) ==> next->0@ == action_of(
                plan_model(plan@)[self.group as int][self.command as int],
            ),
    {
        if self.group >= plan.len() {
            return None;
        }
        let ghost model = plan_model(plan@);
        assert(model[self.group as int].len() == plan@[self.group as int]@.len());
        let command = &plan[self.group][self.command];
        assert(model[self.group as int][self.command as int] == command@);
        Some(decide(command))
    }

    /// Takes note of how the pending command ended, and moves on.
    pub fn record(&mut self, plan: &Vec<Vec<DependentCommand>>, success: bool)
        requires
            plan_is_sound(plan_model(plan@)),
            old(self)@.fits(plan_model(plan@)),
            !old(self)@.finished(plan_model(plan@)),
        ensures
            final(self)@ == old(self)@.after(plan_model(plan@), success),
            final(self)@.fits(plan_model(plan@)),
            final(self).exit_state == success,
            !success ==> final(self).group == old(self).group + 1 && final(self).command == 0,
    {
        let ghost model = plan_model(plan@);
        assert(model.len() == plan@.len());
        assert(model[self.group as int].len() == plan@[self.group as int]@.len());
        let groups: usize = plan.len();
        let group: usize = self.group;
        let command: usize = self.command;
        let size: usize = plan[group].len();
        assert(group < groups);
        if success && size - command > 1 {
            *self = Walk { exit_state: success, group, command: command + 1 };
        } else {
            *self = Walk { exit_state: success, group: group + 1, command: 0 };
        }
    }
}

/// The walk after the commands it meets have ended as `outcomes` says, one
/// after the other. Outcomes that are left over when the plan ends are not
/// looked at.
pub open spec fn walk_through(
    plan: Seq<Seq<CommandModel>>,
    walk: Position,
    outcomes: Seq<bool>,
) -> Position
    decreases outcomes.len(),
{
    if outcomes.len() == 0 || walk.finished(plan) {
        walk
    } else {
        walk_through(plan, walk.after(plan, outcomes[0]), outcomes.skip(1))
    }
}

/// A step of the walk keeps it within the plan and never leads back: it
/// stays in the group only after a success, one command further on.
pub proof fn lemma_step_goes_forward(plan: Seq<Seq<CommandModel>>, walk: Position, success: bool)
    requires
        plan_is_sound(plan),
        walk.fits(plan),
        !walk.finished(plan),
    ensures
        walk.after(plan, success).fits(plan),
        walk.after(plan, success).exit_state == success,
        walk.after(plan, success).group == walk.group ==> success && walk.after(
            plan,
            success,
        ).command == walk.command + 1,
        walk.after(plan, success).group != walk.group ==> walk.after(plan, success).group
            == walk.group + 1 && walk.after(plan, success).command == 0,
{
}

/// Short-circuit: once a command has failed, no later command of its group
/// is ever reached, however the commands that follow end.
pub proof fn lemma_failure_ends_group(
    plan: Seq<Seq<CommandModel>>,
    walk: Position,
    outcomes: Seq<bool>,
)
    requires
        plan_is_sound(plan),
        walk.fits(plan),
        !walk.finished(plan),
    ensures
        walk_through(plan, walk.after(plan, false), outcomes).group > walk.group,
{
    lemma_step_goes_forward(plan, walk, false);
    lemma_walk_keeps_going(plan, walk.after(plan, false), outcomes, walk.group);
}

/// A walk that is past group `floor` stays past it.
pub proof fn lemma_walk_keeps_going(
    plan: Seq<Seq<CommandModel>>,
    walk: Position,
    outcomes: Seq<bool>,
    floor: int,
)
    requires
        plan_is_sound(plan),
        walk.fits(plan),
        walk.group > floor,
    ensures
        walk_through(plan, walk, outcomes).group > floor,
        walk_through(plan, walk, outcomes).fits(plan),
    decreases outcomes.len(),
{
    if outcomes.len() == 0 || walk.finished(plan) {
    } else {
        lemma_step_goes_forward(plan, walk, outcomes[0]);
        lemma_walk_keeps_going(plan, walk.after(plan, outcomes[0]), outcomes.skip(1), floor);
    }
}

/// The exit state is that of the command that ran last: after a walk in
/// which every outcome belonged to a command, it is the last outcome.
pub proof fn lemma_exit_state_is_last_outcome(
    plan: Seq<Seq<CommandModel>>,
    walk: Position,
    outcomes: Seq<bool>,
)
    requires
        outcomes.len() > 0,
        !walk_through(plan, walk, outcomes.drop_last()).finished(plan),
    ensures
        walk_through(plan, walk, outcomes).exit_state == outcomes.last(),
    decreases outcomes.len(),
{
    let shorter = outcomes.drop_last();
    let next = walk.after(plan, outcomes[0]);
    let rest = outcomes.skip(1);
    if walk.finished(plan) {
        assert(walk_through(plan, walk, shorter) == walk);
    } else if outcomes.len() == 1 {
        assert(rest.len() == 0);
        assert(walk_through(plan, next, rest) == next);
    } else {
        assert(shorter[0] == outcomes[0]);
        assert(shorter.skip(1) =~= rest.drop_last());
        assert(walk_through(plan, walk, shorter) == walk_through(plan, next, rest.drop_last()));
        lemma_exit_state_is_last_outcome(plan, next, rest);
        assert(rest.last() == outcomes.last());
    }
}

/// Groups are independent: when the last command of a group has ended, the
/// first command of the next group is the one to run, whether the group
/// succeeded or not.
pub proof fn lemma_next_group_always_starts(
    plan: Seq<Seq<CommandModel>>,
    walk: Position,
    success: bool,
)
    requires
        plan_is_sound(plan),
        walk.fits(plan),
        !walk.finished(plan),
        walk.command + 1 == plan[walk.group as int].len(),
    ensures
        walk.after(plan, success).group == walk.group + 1,
        walk.after(plan, success).command == 0,
{
}

/// A command whose first token is `exit` asks for the exit and nothing else,
/// whatever its other tokens are and however the command before it ended;
/// the process then ends with status 0.
pub proof fn lemma_exit_is_unconditional(command: CommandModel)
    requires
        command.tokens.len() > 0,
        command.tokens[0] == exit_word(),
    ensures
        action_of(command) == ActionModel::Exit,
        EXIT_STATUS == 0,
{
}

/// The background mark is no argument: a command that is made from tokens
/// which end in the mark is launched in the background, with the tokens
/// between the first and the mark as its arguments.
pub proof fn lemma_background_mark_is_no_argument(words: Seq<Seq<char>>)
    requires
        words.len() > 1,
        words.last() == crate::tokens::background_mark(),
        words[0] != exit_word(),
        words[0] != cd_word(),
    ensures
        crate::tokens::command_of(words) is Some,
        action_of(crate::tokens::command_of(words)->0) == (ActionModel::Launch {
            program: words[0],
            args: words.subrange(1, words.len() - 1),
            background: true,
        }),
{
    assert(words.drop_last().skip(1) =~= words.subrange(1, words.len() - 1));
}

} // verus!
