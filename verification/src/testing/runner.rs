//! The description of a subprocess to run: the program, its arguments and
//! how its output is handled.

use vstd::prelude::*;
use vstd::string::*;
use core::time::Duration;
use crate::error::join;

verus! {

/// Name of the `cargo` program.
pub const CARGO_CMD: &'static str = "cargo";

/// The default timeout in seconds (30 minutes).
pub const DEFAULT_TIMEOUT: u64 = 1800;

/// The duration of the given number of whole seconds.
pub uninterp spec fn duration_of_secs(secs: u64) -> Duration;

/// `Duration::from_secs`: the duration of the given number of whole
/// seconds, a function of that number alone.
#[verifier::external_body]
fn from_secs(secs: u64) -> (r: Duration)
    ensures
        r == duration_of_secs(secs),
{
    Duration::from_secs(secs)
}

/// A command to run, by default via `cargo run`.
#[derive(Clone, Debug, PartialEq, Eq)]
pub struct CmdRunner {
    /// Program to run.
    pub program: String,
    /// Arguments to pass to the program.
    pub args: Vec<String>,
    /// Time after which the command should have completed.
    pub timeout: Option<Duration>,
    /// Capture standard output to a pipe.
    pub capture_stdout: bool,
    /// Capture standard error to a pipe.
    pub capture_stderr: bool,
    /// Print the invocation before running.
    pub print_info: bool,
    /// Run only one copy of the command at a time.
    pub exclusive: bool,
}

/// The views of a list of strings.
pub open spec fn texts(list: Seq<String>) -> Seq<Seq<char>> {
    list.map_values(|s: String| s@)
}

impl Default for CmdRunner {
    /// A runner for `cargo run --`, one copy at a time.
    fn default() -> (r: CmdRunner)
        ensures
            r.is("cargo"@, seq!["run"@, "--"@], None, false, false, true, true),
    {
        let mut cmd = Self::new(CARGO_CMD);
        cmd.exclusive();
        cmd.arg("run");
        cmd.arg("--");
        assert(texts(cmd.args@) =~= seq!["run"@, "--"@]);
        cmd
    }
}

impl CmdRunner {
    /// The runner holds exactly these settings.
    pub open spec fn is(
        &self,
        program: Seq<char>,
        args: Seq<Seq<char>>,
        timeout: Option<Duration>,
        capture_stdout: bool,
        capture_stderr: bool,
        print_info: bool,
        exclusive: bool,
    ) -> bool {
        &&& self.program@ == program
        &&& texts(self.args@) == args
        &&& self.timeout == timeout
        &&& self.capture_stdout == capture_stdout
        &&& self.capture_stderr == capture_stderr
        &&& self.print_info == print_info
        &&& self.exclusive == exclusive
    }

    /// A runner for the program at the given path: no arguments, no
    /// timeout of its own, nothing captured, the invocation printed.
    pub fn new(program: &str) -> (r: CmdRunner)
        ensures
            r.is(program@, Seq::empty(), None, false, false, true, false),
    {
        let r = CmdRunner {
            program: program.to_owned(),
            args: Vec::new(),
            timeout: None,
            capture_stdout: false,
            capture_stderr: false,
            print_info: true,
            exclusive: false,
        };
        assert(texts(r.args@) =~= Seq::<Seq<char>>::empty());
        r
    }

    /// A runner for `cargo run --bin <bin> --`, one copy at a time.
    pub fn target_bin(bin: &str) -> (r: CmdRunner)
        ensures
            r.is("cargo"@, seq!["run"@, "--bin"@, bin@, "--"@], None, false, false, true, true),
    {
        let mut cmd = Self::default();
        cmd.args.clear();
        cmd.arg("run");
        cmd.arg("--bin");
        cmd.arg(bin);
        cmd.arg("--");
        assert(texts(cmd.args@) =~= seq!["run"@, "--bin"@, bin@, "--"@]);
        cmd
    }

    /// Appends an argument.
    pub fn arg(&mut self, arg: &str)
        ensures
            texts(final(self).args@) == texts(old(self).args@).push(arg@),
            final(self).is(
                old(self).program@,
                texts(old(self).args@).push(arg@),
                old(self).timeout,
                old(self).capture_stdout,
                old(self).capture_stderr,
                old(self).print_info,
                old(self).exclusive,
            ),
    {
        self.args.push(arg.to_owned());
        assert(texts(self.args@) =~= texts(old(self).args@).push(arg@));
    }

    /// Appends several arguments, in their order.
    pub fn args(&mut self, args: &Vec<String>)
        ensures
            final(self).is(
                old(self).program@,
                texts(old(self).args@) + texts(args@),
                old(self).timeout,
                old(self).capture_stdout,
                old(self).capture_stderr,
                old(self).print_info,
                old(self).exclusive,
            ),
    {
        let mut k: usize = 0;
        while k < args.len()
            invariant
                k <= args.len(),
                texts(self.args@) == texts(old(self).args@) + texts(args@.take(k as int)),
                self.program == old(self).program,
                self.timeout == old(self).timeout,
                self.capture_stdout == old(self).capture_stdout,
                self.capture_stderr == old(self).capture_stderr,
                self.print_info == old(self).print_info,
                self.exclusive == old(self).exclusive,
            decreases args.len() - k,
        {
            let ghost before = texts(self.args@);
            self.args.push(args[k].clone());
            assert(texts(self.args@) =~= before.push(args@[k as int]@));
            k += 1;
        }
        assert(args@.take(args.len() as int) =~= args@);
    }

    /// Sets the time after which the command should have completed.
    pub fn timeout(&mut self, duration: Duration)
        ensures
            *final(self) == (CmdRunner { timeout: Some(duration), ..*old(self) }),
    {
        self.timeout = Some(duration);
    }

    /// Enables capturing of standard output.
    pub fn capture_stdout(&mut self)
        ensures
            *final(self) == (CmdRunner { capture_stdout: true, ..*old(self) }),
    {
        self.capture_stdout = true;
    }

    /// Enables capturing of standard error.
    pub fn capture_stderr(&mut self)
        ensures
            *final(self) == (CmdRunner { capture_stderr: true, ..*old(self) }),
    {
        self.capture_stderr = true;
    }

    /// Disables printing the invocation before running.
    pub fn quiet(&mut self)
        ensures
            *final(self) == (CmdRunner { print_info: false, ..*old(self) }),
    {
        self.print_info = false;
    }

    /// Lets only one copy of the command run at a time.
    pub fn exclusive(&mut self)
        ensures
            *final(self) == (CmdRunner { exclusive: true, ..*old(self) }),
    {
        self.exclusive = true;
    }

    /// The time after which the command should have completed: the timeout
    /// that was set, or `default` if none was.
    pub fn timeout_or(&self, default: Duration) -> (r: Duration)
        ensures
            r == match self.timeout {
                Some(duration) => duration,
                None => default,
            },
    {
        match self.timeout {
            Some(duration) => duration,
            None => default,
        }
    }

    /// The time after which the command should have completed: the timeout
    /// that was set, or the default of 30 minutes.
    pub fn effective_timeout(&self) -> (r: Duration)
        ensures
            r == match self.timeout {
                Some(duration) => duration,
                None => duration_of_secs(DEFAULT_TIMEOUT),
            },
    {
        self.timeout_or(from_secs(DEFAULT_TIMEOUT))
    }

    /// The command as it is shown before it runs: the program and the
    /// arguments, separated by spaces.
    pub fn command_line(&self) -> (r: String)
        ensures
            r@ == self.program@ + " "@ + join(texts(self.args@), " "@),
    {
        let ghost all = texts(self.args@);
        let mut listed = String::new();
        let mut k: usize = 0;
        while k < self.args.len()
            invariant
                k <= self.args.len(),
                all == texts(self.args@),
                listed@ == join(all.take(k as int), " "@),
            decreases self.args.len() - k,
        {
            if k > 0 {
                listed.append(" ");
            }
            listed.append(self.args[k].as_str());
            assert(all.take(k + 1).drop_last() =~= all.take(k as int));
            k += 1;
        }
        assert(all.take(self.args.len() as int) =~= all);
        self.program.clone().concat(" ").concat(listed.as_str())
    }
}

} // verus!
