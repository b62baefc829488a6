use vstd::prelude::*;

use crate::text::{join, join_with, strings_view};

verus! {

/// A secret that a host command needs, named by where its value comes from.
#[derive(Debug, Clone, Copy, PartialEq, Eq, Structural)]
pub enum SecretSlot {
    ChapUsername,
    ChapPassword,
    LuksPassphrase,
}

/// One argument of a host command: either plain text or a reference to a secret.
#[derive(Debug, Clone, PartialEq, Eq)]
pub enum CommandArg {
    Literal(String),
    Secret(SecretSlot),
}

/// The mathematical form of a [`CommandArg`].
pub enum ArgView {
    Literal(Seq<char>),
    Secret(SecretSlot),
}

impl View for CommandArg {
    type V = ArgView;

    open spec fn view(&self) -> ArgView {
        match self {
            CommandArg::Literal(s) => ArgView::Literal(s@),
            CommandArg::Secret(slot) => ArgView::Secret(*slot),
        }
    }
}

/// A program to run on the host, its arguments, and the secret fed to its stdin.
#[derive(Debug, Clone, PartialEq, Eq)]
pub struct HostCommand {
    pub program: String,
    pub args: Vec<CommandArg>,
    pub stdin: Option<SecretSlot>,
}

/// The mathematical form of a [`HostCommand`].
pub struct CommandView {
    pub program: Seq<char>,
    pub args: Seq<ArgView>,
    pub stdin: Option<SecretSlot>,
}

pub open spec fn args_view(args: Seq<CommandArg>) -> Seq<ArgView> {
    args.map_values(|a: CommandArg| a@)
}

impl View for HostCommand {
    type V = CommandView;

    open spec fn view(&self) -> CommandView {
        CommandView { program: self.program@, args: args_view(self.args@), stdin: self.stdin }
    }
}

pub open spec fn commands_view(cmds: Seq<HostCommand>) -> Seq<CommandView> {
    cmds.map_values(|c: HostCommand| c@)
}

/// Literal arguments made of the given texts, in order.
pub open spec fn lits(texts: Seq<Seq<char>>) -> Seq<ArgView> {
    texts.map_values(|t: Seq<char>| ArgView::Literal(t))
}

pub open spec fn strs_view(texts: Seq<&str>) -> Seq<Seq<char>> {
    texts.map_values(|t: &str| t@)
}

/// Builds literal arguments from the given texts.
pub fn literals(texts: &[&str]) -> (out: Vec<CommandArg>)
    ensures
        args_view(out@) == lits(strs_view(texts@)),
{
    let mut out: Vec<CommandArg> = Vec::new();
    for i in 0..texts.len()
        invariant
            args_view(out@) == lits(strs_view(texts@.take(i as int))),
    {
        let text: &str = texts[i];
        let owned = text.to_owned();
        assert(owned@ == texts@[i as int]@);
        let ghost prev = out@;
        out.push(CommandArg::Literal(owned));
        assert(texts@.take(i + 1) == texts@.take(i as int).push(texts@[i as int]));
        assert(args_view(out@) =~= args_view(prev).push(ArgView::Literal(owned@)));
        assert(args_view(out@) =~= lits(strs_view(texts@.take(i + 1))));
    }
    assert(texts@.take(texts@.len() as int) == texts@);
    out
}


/// The text that stands for a secret argument wherever a command is shown.
pub open spec fn redacted_marker() -> Seq<char> {
    "<redacted>"@
}

/// What an argument shows in a redacted command line.
pub open spec fn redact(arg: ArgView) -> Seq<char> {
    match arg {
        ArgView::Literal(text) => text,
        ArgView::Secret(_) => redacted_marker(),
    }
}

impl CommandView {
    /// The arguments as shown: literals as they are, secrets as the marker.
    pub open spec fn redacted_args(self) -> Seq<Seq<char>> {
        self.args.map_values(|a: ArgView| redact(a))
    }

    /// The program followed by the redacted arguments.
    pub open spec fn redacted_argv(self) -> Seq<Seq<char>> {
        seq![self.program] + self.redacted_args()
    }

    /// The redacted argv joined with single spaces.
    pub open spec fn redacted_command_line(self) -> Seq<char> {
        join_with(self.redacted_argv(), " "@)
    }

    /// The arguments with every secret replaced by its value, or the first
    /// secret slot, from the left, that has no value.
    pub open spec fn materialized_args(self, secrets: SecretValues) -> Result<Seq<Seq<char>>, SecretSlot> {
        materialize(self.args, secrets)
    }
}

pub open spec fn opt_string_view(o: Option<String>) -> Option<Seq<char>> {
    match o {
        Some(s) => Some(s@),
        None => None,
    }
}

pub open spec fn opt_str_view(o: Option<&str>) -> Option<Seq<char>> {
    match o {
        Some(s) => Some(s@),
        None => None,
    }
}

/// Values for the secret slots; a slot may have no value.
#[derive(Debug, Clone, Default, PartialEq, Eq)]
pub struct SecretValues {
    pub chap_username: Option<String>,
    pub chap_password: Option<String>,
    pub luks_passphrase: Option<String>,
}

impl SecretValues {
    /// The value held for a slot.
    pub open spec fn value_of(self, slot: SecretSlot) -> Option<Seq<char>> {
        match slot {
            SecretSlot::ChapUsername => opt_string_view(self.chap_username),
            SecretSlot::ChapPassword => opt_string_view(self.chap_password),
            SecretSlot::LuksPassphrase => opt_string_view(self.luks_passphrase),
        }
    }

    /// The value held for a slot, if any.
    pub fn get(&self, slot: SecretSlot) -> (value: Option<&str>)
        ensures
            opt_str_view(value) == self.value_of(slot),
    {
        let held = match slot {
            SecretSlot::ChapUsername => &self.chap_username,
            SecretSlot::ChapPassword => &self.chap_password,
            SecretSlot::LuksPassphrase => &self.luks_passphrase,
        };
        match held {
            Some(v) => Some(v.as_str()),
            None => None,
        }
    }
}

/// Resolves one argument against the secret values.
pub open spec fn resolve_arg(arg: ArgView, secrets: SecretValues) -> Result<Seq<char>, SecretSlot> {
    match arg {
        ArgView::Literal(text) => Ok(text),
        ArgView::Secret(slot) => match secrets.value_of(slot) {
            Some(v) => Ok(v),
            None => Err(slot),
        },
    }
}

/// Resolves the arguments in order, stopping at the first missing secret.
pub open spec fn materialize(args: Seq<ArgView>, secrets: SecretValues) -> Result<Seq<Seq<char>>, SecretSlot>
    decreases args.len(),
{
    if args.len() == 0 {
        Ok(Seq::empty())
    } else {
        match materialize(args.drop_last(), secrets) {
            Err(slot) => Err(slot),
            Ok(done) => match resolve_arg(args.last(), secrets) {
                Ok(v) => Ok(done.push(v)),
                Err(slot) => Err(slot),
            },
        }
    }
}

/// What a host command printed and how it exited.
#[derive(Debug, Clone, PartialEq, Eq)]
pub struct CommandOutput {
    pub status: Option<i32>,
    pub stdout: String,
    pub stderr: String,
}

/// Why a host command could not be run.
#[derive(Debug, PartialEq, Eq)]
pub enum CommandRunError {
    MissingSecret { slot: SecretSlot },
    Spawn { command: String, message: String },
    Stdin { command: String, message: String },
    Wait { command: String, message: String },
}

/// Runs host commands. Implementations decide how; the planner only builds
/// the commands and reads back their output.
pub trait HostRunner {
    /// Whether running `command` with `secrets` can give `out`. Each
    /// implementation says what its runs give; one that does not define it
    /// claims nothing of them.
    closed spec fn ran(&self, command: CommandView, secrets: SecretValues, out: Result<CommandOutput, CommandRunError>) -> bool {
        true
    }

    /// Runs the command, feeding it the secret values it names.
    fn output(&self, command: &HostCommand, secrets: &SecretValues) -> (out: Result<CommandOutput, CommandRunError>)
        ensures
            self.ran(command@, *secrets, out),
    ;
}

/// A runner borrowed for a run of probes. Each command handed to it goes
/// to the runner, and the commands, with their secret values, are kept in
/// order as ghost state, so that a caller can say which commands ran.
pub struct TracedRunner<'a, R: HostRunner> {
    runner: &'a R,
    trace: Ghost<Seq<(CommandView, SecretValues)>>,
}

impl<'a, R: HostRunner> TracedRunner<'a, R> {
    /// The runner the commands go to.
    pub closed spec fn runner(&self) -> R {
        *self.runner
    }

    /// The commands handed over so far, oldest first, each with its secret values.
    pub closed spec fn trace(&self) -> Seq<(CommandView, SecretValues)> {
        self.trace@
    }

    /// Starts a run on `runner` with nothing handed over yet.
    pub fn new(runner: &'a R) -> (out: Self)
        ensures
            out.runner() == *runner,
            out.trace() == Seq::<(CommandView, SecretValues)>::empty(),
    {
        TracedRunner { runner, trace: Ghost(Seq::empty()) }
    }

    /// Hands the command to the runner and records it.
    pub fn output(&mut self, command: &HostCommand, secrets: &SecretValues) -> (out: Result<CommandOutput, CommandRunError>)
        ensures
            final(self).runner() == old(self).runner(),
            final(self).trace() == old(self).trace().push((command@, *secrets)),
            old(self).runner().ran(command@, *secrets, out),
    {
        let out = self.runner.output(command, secrets);
        self.trace = Ghost(self.trace@.push((command@, *secrets)));
        out
    }
}

/// Secret values with no value for any slot.
pub open spec fn no_secrets() -> SecretValues {
    SecretValues { chap_username: None, chap_password: None, luks_passphrase: None }
}

impl HostCommand {
    /// The arguments with every secret shown as `<redacted>`.
    pub fn redacted_args(&self) -> (out: Vec<String>)
        ensures
            strings_view(out@) == self@.redacted_args(),
    {
        let mut out: Vec<String> = Vec::new();
        for i in 0..self.args.len()
            invariant
                strings_view(out@) == self@.redacted_args().take(i as int),
        {
            let shown = match &self.args[i] {
                CommandArg::Literal(value) => value.clone(),
                CommandArg::Secret(_) => "<redacted>".to_owned(),
            };
            let ghost prev = out@;
            out.push(shown);
            assert(strings_view(out@) =~= strings_view(prev).push(shown@));
            assert(self@.redacted_args().take(i + 1) =~= self@.redacted_args().take(i as int).push(shown@));
        }
        assert(self@.redacted_args().take(self.args@.len() as int) =~= self@.redacted_args());
        out
    }

    /// The program followed by the redacted arguments.
    pub fn redacted_argv(&self) -> (out: Vec<String>)
        ensures
            strings_view(out@) == self@.redacted_argv(),
    {
        let mut argv: Vec<String> = Vec::new();
        argv.push(self.program.clone());
        let mut rest = self.redacted_args();
        let ghost first = argv@;
        let ghost tail = rest@;
        argv.append(&mut rest);
        assert(strings_view(argv@) =~= strings_view(first) + strings_view(tail));
        argv
    }

    /// The redacted argv joined with single spaces, safe to show in errors and logs.
    pub fn redacted_command_line(&self) -> (line: String)
        ensures
            line@ == self@.redacted_command_line(),
    {
        join(&self.redacted_argv(), " ")
    }

    /// The arguments with every secret replaced by its value; fails on the
    /// first secret, from the left, that has no value.
    pub fn materialized_args(&self, secrets: &SecretValues) -> (out: Result<Vec<String>, CommandRunError>)
        ensures
            match self@.materialized_args(*secrets) {
                Ok(values) => out matches Ok(v) && strings_view(v@) == values,
                Err(slot) => out == Err::<Vec<String>, CommandRunError>(CommandRunError::MissingSecret { slot }),
            },
    {
        let mut out: Vec<String> = Vec::new();
        assert(args_view(self.args@).take(0) =~= Seq::<ArgView>::empty());
        assert(strings_view(out@) =~= Seq::<Seq<char>>::empty());
        for i in 0..self.args.len()
            invariant
                materialize(args_view(self.args@).take(i as int), *secrets) == Ok::<Seq<Seq<char>>, SecretSlot>(strings_view(out@)),
        {
            let ghost prefix = args_view(self.args@).take(i as int);
            assert(args_view(self.args@).take(i + 1).drop_last() =~= prefix);
            let value = match &self.args[i] {
                CommandArg::Literal(value) => value.clone(),
                CommandArg::Secret(slot) => match secrets.get(*slot) {
                    Some(v) => v.to_owned(),
                    None => {
                        proof {
                            lemma_materialize_error_persists(args_view(self.args@), i + 1, *secrets);
                        }
                        return Err(CommandRunError::MissingSecret { slot: *slot });
                    },
                },
            };
            let ghost prev = out@;
            out.push(value);
            assert(strings_view(out@) =~= strings_view(prev).push(value@));
        }
        assert(args_view(self.args@).take(self.args@.len() as int) =~= args_view(self.args@));
        Ok(out)
    }

    /// The value to feed on stdin: none when the command takes none, else the
    /// value of its stdin slot, which must be present.
    pub fn stdin_value<'a>(&self, secrets: &'a SecretValues) -> (out: Result<Option<&'a str>, CommandRunError>)
        ensures
            match self.stdin {
                None => out == Ok::<Option<&str>, CommandRunError>(None),
                Some(slot) => match secrets.value_of(slot) {
                    Some(v) => out matches Ok(Some(s)) && s@ == v,
                    None => out == Err::<Option<&str>, CommandRunError>(CommandRunError::MissingSecret { slot }),
                },
            },
    {
        match self.stdin {
            None => Ok(None),
            Some(slot) => match secrets.get(slot) {
                Some(v) => Ok(Some(v)),
                None => Err(CommandRunError::MissingSecret { slot }),
            },
        }
    }
}

/// Once resolving a prefix of the arguments fails, resolving any longer
/// prefix fails with the same slot.
proof fn lemma_materialize_error_persists(args: Seq<ArgView>, k: int, secrets: SecretValues)
    requires
        0 < k <= args.len(),
        materialize(args.take(k), secrets) is Err,
    ensures
        materialize(args, secrets) == materialize(args.take(k), secrets),
    decreases args.len() - k,
{
    if k < args.len() {
        assert(args.take(k + 1).drop_last() =~= args.take(k));
        lemma_materialize_error_persists(args, k + 1, secrets);
    } else {
        assert(args.take(k) =~= args);
    }
}

} // verus!
