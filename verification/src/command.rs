//! The console of the hosted program.  The process itself, its pipes and
//! the threads that read them live outside this crate; here is what the
//! console decides: which console commands start, stop or reach the
//! process, and how much of its output is kept.

use vstd::prelude::*;

use crate::text::{same_text, spec_trim, trim};

verus! {

/// What one round of console handling ends in.
#[derive(PartialEq, Eq, Structural, Debug)]
pub enum ServerResult {
    /// The process keeps running.
    Continue,
    /// The process has stopped, or was told to stop.
    Stopped,
    /// The process is to be started anew.
    Restart,
}

/// The state of the console: the lines shown so far (console commands and
/// process output), how many lines it means to keep, and whether the
/// process runs.
pub struct ServerCommand {
    pub text: Vec<String>,
    pub history: usize,
    pub running: bool,
}

/// What the caller is to do with the process after a round of handling.
pub enum HandleDecision {
    /// Nothing more: the round ends with this result.
    Finish(ServerResult),
    /// Forward these (trimmed) commands to the process, in order, each
    /// through `ServerCommand::forward`, stopping at the first write that
    /// fails; then, if `kill`, kill the process, else collect its output;
    /// the round ends as `round_result` says.
    Forward { commands: Vec<String>, kill: bool },
}

/// What a reader thread is to do with one attempt to read a line.
pub enum CatcherStep {
    /// Reading failed: end the thread.
    Stop,
    /// Read nothing worth passing on: read again.
    Skip,
    /// Pass this line on.
    Forward(String),
}

/// The texts of a sequence of strings.
pub open spec fn views(s: Seq<String>) -> Seq<Seq<char>> {
    s.map_values(|x: String| x@)
}

/// The received console lines that are not empty, in order.
pub open spec fn keep_nonempty(s: Seq<String>) -> Seq<String>
    decreases s.len(),
{
    if s.len() == 0 {
        s
    } else if s.last()@.len() > 0 {
        keep_nonempty(s.drop_last()).push(s.last())
    } else {
        keep_nonempty(s.drop_last())
    }
}

/// Whether a console command, once trimmed, is `ctrl-c`.
pub open spec fn is_kill_command(c: Seq<char>) -> bool {
    spec_trim(c) == "ctrl-c"@
}

/// Whether a console command, once trimmed, is `start`.
pub open spec fn is_start_command(c: Seq<char>) -> bool {
    spec_trim(c) == "start"@
}

/// The position of the first `ctrl-c` command, or the number of commands
/// when there is none.
pub open spec fn first_kill(cmds: Seq<String>) -> nat
    decreases cmds.len(),
{
    if cmds.len() == 0 {
        0
    } else if is_kill_command(cmds[0]@) {
        0
    } else {
        1 + first_kill(cmds.skip(1))
    }
}

/// The first `k` console commands, trimmed: what a round forwards.
pub open spec fn forwarded_commands(cmds: Seq<String>, k: nat) -> Seq<Seq<char>> {
    Seq::new(k, |i: int| spec_trim(cmds[i]@))
}

/// The console lines after one output line is recorded: it is appended,
/// and if the lines then number more than `history`, only positions
/// `len - history` up to (not including) `history` are kept.
pub open spec fn record_output<T>(text: Seq<T>, history: nat, line: T) -> Seq<T> {
    let t = text.push(line);
    if t.len() > history {
        t.subrange(t.len() - history, history as int)
    } else {
        t
    }
}

/// Whether recording one more output line stays within the lines there
/// are: once `len + 1` exceeds `history`, the kept range starts at
/// `len + 1 - history`, which must not pass `history`.
pub open spec fn spec_output_fits(len: nat, history: nat) -> bool {
    len + 1 > history ==> len + 1 <= 2 * history
}

proof fn lemma_keep_nonempty_push(s: Seq<String>, x: String)
    ensures
        keep_nonempty(s.push(x)) == (if x@.len() > 0 {
            keep_nonempty(s).push(x)
        } else {
            keep_nonempty(s)
        }),
{
    assert(s.push(x).drop_last() =~= s);
}

proof fn lemma_first_kill(cmds: Seq<String>, k: int)
    requires
        0 <= k <= cmds.len(),
        forall|j: int| 0 <= j < k ==> !is_kill_command(#[trigger] cmds[j]@),
        k == cmds.len() || is_kill_command(cmds[k]@),
    ensures
        first_kill(cmds) == k,
    decreases k,
{
    if k > 0 {
        let t = cmds.skip(1);
        assert forall|j: int| 0 <= j < k - 1 implies !is_kill_command(#[trigger] t[j]@) by {
            assert(t[j] == cmds[j + 1]);
            assert(!is_kill_command(cmds[j + 1]@));
        }
        if k < cmds.len() {
            assert(t[k - 1] == cmds[k]);
        }
        assert(!is_kill_command(cmds[0]@));
        lemma_first_kill(t, k - 1);
    }
}

/// A console that has never held more than `history` lines (with room for
/// at least one) never does: recording an output line is always allowed
/// and leaves at most `history` lines.
pub proof fn lemma_output_within_history<T>(text: Seq<T>, history: nat, line: T)
    requires
        history >= 1,
        text.len() <= history,
    ensures
        spec_output_fits(text.len(), history),
        record_output(text, history, line).len() <= history,
{
}

/// Once the console would exceed its history (at most twice over), one
/// recorded line keeps exactly the old lines from position
/// `len + 1 - history` up to `history`: `2 * history - len - 1` of them, in
/// order.  Below the history the line is simply appended; a full console
/// of `history` lines keeps its lines after the first.
pub proof fn lemma_record_output_keeps<T>(text: Seq<T>, history: nat, line: T)
    requires
        history >= 1,
    ensures
        text.len() + 1 <= history ==> record_output(text, history, line) == text.push(line),
        text.len() + 1 > history && text.len() + 1 <= 2 * history ==> {
            &&& record_output(text, history, line).len() == 2 * history - text.len() - 1
            &&& forall|i: int|
                0 <= i < record_output(text, history, line).len() ==> #[trigger] record_output(
                    text,
                    history,
                    line,
                )[i] == text[text.len() + 1 - history + i]
        },
        text.len() == history ==> record_output(text, history, line) == text.skip(1),
{
    if text.len() + 1 > history && text.len() + 1 <= 2 * history {
        let r = record_output(text, history, line);
        assert forall|i: int| 0 <= i < r.len() implies #[trigger] r[i] == text[text.len() + 1
            - history + i] by {
            assert(text.push(line)[text.len() + 1 - history + i] == text[text.len() + 1 - history
                + i]);
        }
    }
    if text.len() == history {
        assert(record_output(text, history, line) =~= text.skip(1));
    }
}

/// A console command asks for a start exactly when, trimmed, it is the five
/// characters `start`; a command that trims to anything else (`stop`, say)
/// does not.
pub proof fn lemma_start_command_is_start(c: Seq<char>)
    ensures
        is_start_command(c) <==> spec_trim(c) == seq!['s', 't', 'a', 'r', 't'],
{
    reveal_strlit("start");
    assert("start"@ =~= seq!['s', 't', 'a', 'r', 't']);
}

/// A console command kills the process exactly when, trimmed, it is the
/// six characters `ctrl-c`.
pub proof fn lemma_kill_command_is_ctrl_c(c: Seq<char>)
    ensures
        is_kill_command(c) <==> spec_trim(c) == seq!['c', 't', 'r', 'l', '-', 'c'],
{
    reveal_strlit("ctrl-c");
    assert("ctrl-c"@ =~= seq!['c', 't', 'r', 'l', '-', 'c']);
}

/// A round of a stopped process in which no received command trims to
/// `start` ends `Stopped` (see `handle`): it never restarts the process.
pub proof fn lemma_stopped_round_without_start(cmds: Seq<String>)
    requires
        forall|i: int|
            0 <= i < cmds.len() ==> spec_trim(#[trigger] cmds[i]@) != seq!['s', 't', 'a', 'r', 't'],
    ensures
        (if exists|i: int| 0 <= i < cmds.len() && is_start_command(#[trigger] cmds[i]@) {
            ServerResult::Restart
        } else {
            ServerResult::Stopped
        }) == ServerResult::Stopped,
{
    assert forall|i: int| 0 <= i < cmds.len() implies !is_start_command(#[trigger] cmds[i]@) by {
        lemma_start_command_is_start(cmds[i]@);
    }
}

impl ServerCommand {
    /// A console for a freshly started process, keeping `history` lines.
    pub fn new(history: usize) -> (r: Self)
        ensures
            r.text@ == Seq::<String>::empty(),
            r.history == history,
            r.running,
    {
        ServerCommand { text: Vec::new(), history, running: true }
    }

    /// The received console lines worth handling: those that are not empty.
    pub fn handle_input(&self, received: Vec<String>) -> (r: Vec<String>)
        ensures
            r@ == keep_nonempty(received@),
    {
        let mut inputs: Vec<String> = Vec::new();
        let mut i: usize = 0;
        assert(received@.take(0) =~= Seq::<String>::empty());
        while i < received.len()
            invariant
                i <= received@.len(),
                inputs@ == keep_nonempty(received@.take(i as int)),
            decreases received@.len() - i,
        {
            let item = received[i].clone();
            proof {
                assert(received@.take(i + 1) =~= received@.take(i as int).push(item));
                lemma_keep_nonempty_push(received@.take(i as int), item);
            }
            if item.as_str().unicode_len() > 0 {
                inputs.push(item);
            }
            i = i + 1;
        }
        assert(received@.take(received@.len() as int) =~= received@);
        inputs
    }

    /// Records a console command as a line of the console and returns the
    /// line to write to the process: the command followed by a newline.
    pub fn send_string(&mut self, write: String) -> (r: String)
        ensures
            r@ == write@ + seq!['\n'],
            final(self).text@ == old(self).text@.push(r),
            final(self).history == old(self).history,
            final(self).running == old(self).running,
    {
        let mut write = write;
        write.append("\n");
        proof {
            reveal_strlit("\n");
        }
        let line = write.clone();
        self.text.push(line);
        write
    }

    /// Handles one round of received console lines.  The empty ones are
    /// dropped and the others trimmed.  While the process is stopped, the
    /// round asks for a restart if some command is `start`.  While it runs,
    /// the commands up to the first `ctrl-c` are to be forwarded, and a
    /// `ctrl-c` asks for the process to be killed.  The console is left as
    /// it was: a command is recorded only as it is forwarded.
    pub fn handle(&mut self, received: Vec<String>) -> (r: HandleDecision)
        ensures
            *final(self) == *old(self),
            ({
                let cmds = keep_nonempty(received@);
                if !old(self).running {
                    r == HandleDecision::Finish(
                        if exists|i: int| 0 <= i < cmds.len() && is_start_command(#[trigger] cmds[i]@) {
                            ServerResult::Restart
                        } else {
                            ServerResult::Stopped
                        },
                    )
                } else {
                    let k = first_kill(cmds);
                    &&& r matches HandleDecision::Forward { commands, kill }
                    &&& views(commands@) == forwarded_commands(cmds, k)
                    &&& kill == (k < cmds.len())
                }
            }),
    {
        let commands = self.handle_input(received);
        let ghost cmds = commands@;
        if !self.running {
            let mut i: usize = 0;
            while i < commands.len()
                invariant
                    cmds == commands@,
                    cmds == keep_nonempty(received@),
                    !self.running,
                    *self == *old(self),
                    i <= cmds.len(),
                    forall|j: int| 0 <= j < i ==> !is_start_command(#[trigger] cmds[j]@),
                decreases cmds.len() - i,
            {
                let current = &commands[i];
                assert(*current == cmds[i as int]);
                let command = trim(current.as_str());
                if same_text(command.as_str(), "start") {
                    assert(is_start_command(cmds[i as int]@));
                    return HandleDecision::Finish(ServerResult::Restart);
                }
                i = i + 1;
            }
            HandleDecision::Finish(ServerResult::Stopped)
        } else {
            let mut forwarded: Vec<String> = Vec::new();
            let mut i: usize = 0;
            while i < commands.len()
                invariant
                    cmds == commands@,
                    cmds == keep_nonempty(received@),
                    old(self).running,
                    *self == *old(self),
                    i <= cmds.len(),
                    forall|j: int| 0 <= j < i ==> !is_kill_command(#[trigger] cmds[j]@),
                    forwarded@.len() == i,
                    views(forwarded@) =~= forwarded_commands(cmds, i as nat),
                decreases cmds.len() - i,
            {
                let current = &commands[i];
                assert(*current == cmds[i as int]);
                let command = trim(current.as_str());
                assert(command@ == spec_trim(cmds[i as int]@));
                if same_text(command.as_str(), "ctrl-c") {
                    assert(is_kill_command(cmds[i as int]@));
                    proof {
                        lemma_first_kill(cmds, i as int);
                    }
                    return HandleDecision::Forward { commands: forwarded, kill: true };
                }
                let ghost before = forwarded@;
                forwarded.push(command);
                proof {
                    assert forall|j: int| 0 <= j < i + 1 implies views(forwarded@)[j]
                        == forwarded_commands(cmds, (i + 1) as nat)[j] by {
                        if j < i {
                            assert(forwarded@[j] == before[j]);
                            assert(views(before)[j] == forwarded_commands(cmds, i as nat)[j]);
                        } else {
                            assert(forwarded@[j] == command);
                        }
                    }
                    assert(views(forwarded@) =~= forwarded_commands(cmds, (i + 1) as nat));
                }
                i = i + 1;
            }
            proof {
                lemma_first_kill(cmds, i as int);
            }
            HandleDecision::Forward { commands: forwarded, kill: false }
        }
    }

    /// Forwards one console command: records it as a console line (the
    /// command and a newline) and gives that line to write to the process,
    /// unless the process has exited, in which case nothing is written.
    pub fn forward(&mut self, command: String, exited: bool) -> (r: Option<String>)
        ensures
            final(self).text@.len() == old(self).text@.len() + 1,
            final(self).text@.drop_last() == old(self).text@,
            final(self).text@.last()@ == command@ + seq!['\n'],
            final(self).history == old(self).history,
            final(self).running == old(self).running,
            exited ==> r is None,
            !exited ==> r == Some(final(self).text@.last()),
    {
        let line = self.send_string(command);
        assert(self.text@.drop_last() =~= old(self).text@);
        if exited {
            None
        } else {
            Some(line)
        }
    }

    /// Whether one more output line can be recorded (see `spec_output_fits`).
    pub fn output_fits(&self) -> (r: bool)
        ensures
            r == spec_output_fits(self.text@.len(), self.history as nat),
    {
        let len: usize = self.text.len();
        if len >= self.history {
            len - self.history < self.history
        } else {
            true
        }
    }

    /// Records one line of the process's output (see `record_output`).
    pub fn handle_output(&mut self, received: String)
        requires
            spec_output_fits(old(self).text@.len(), old(self).history as nat),
        ensures
            final(self).text@ == record_output(old(self).text@, old(self).history as nat, received),
            final(self).history == old(self).history,
            final(self).running == old(self).running,
    {
        self.text.push(received);
        if self.text.len() > self.history {
            let start: usize = self.text.len() - self.history;
            let mut kept = self.text.split_off(start);
            kept.truncate(self.history - start);
            assert(kept@ =~= old(self).text@.push(received).subrange(
                start as int,
                self.history as int,
            ));
            self.text = kept;
        }
    }

    /// Applies the end of a round: a stopped process is marked so, a
    /// restarted one starts with an empty console.
    pub fn settle(&mut self, result: ServerResult)
        ensures
            match result {
                ServerResult::Continue => *final(self) == *old(self),
                ServerResult::Stopped => final(self).text == old(self).text && final(self).history
                    == old(self).history && !final(self).running,
                ServerResult::Restart => final(self).text@ == Seq::<String>::empty()
                    && final(self).history == old(self).history && final(self).running,
            },
    {
        match result {
            ServerResult::Continue => {},
            ServerResult::Stopped => {
                self.running = false;
            },
            ServerResult::Restart => {
                *self = ServerCommand::new(self.history);
            },
        }
    }
}

/// How a round of a running process ends once its commands are forwarded:
/// `Stopped` if the round killed the process or the process has exited,
/// `Continue` otherwise.  A running process's round never asks for a
/// restart.
pub fn round_result(killed: bool, exited: bool) -> (r: ServerResult)
    ensures
        r == (if killed || exited { ServerResult::Stopped } else { ServerResult::Continue }),
        r != ServerResult::Restart,
{
    if killed || exited {
        ServerResult::Stopped
    } else {
        ServerResult::Continue
    }
}

/// What the thread reading the process's output does with one read: a
/// failed read ends it, a line that is only white space is skipped, any
/// other line is passed on.
pub fn output_catcher(read: Option<String>) -> (r: CatcherStep)
    ensures
        match read {
            None => r is Stop,
            Some(line) => if spec_trim(line@).len() == 0 {
                r is Skip
            } else {
                r == CatcherStep::Forward(line)
            },
        },
{
    match read {
        None => CatcherStep::Stop,
        Some(line) => {
            let trimmed = trim(line.as_str());
            if trimmed.as_str().unicode_len() == 0 {
                CatcherStep::Skip
            } else {
                CatcherStep::Forward(line)
            }
        },
    }
}

/// What the thread reading the console's input does with one read: a
/// failed read ends it, any line is passed on as read.
pub fn input_catcher(read: Option<String>) -> (r: CatcherStep)
    ensures
        match read {
            None => r is Stop,
            Some(line) => r == CatcherStep::Forward(line),
        },
{
    match read {
        None => CatcherStep::Stop,
        Some(line) => CatcherStep::Forward(line),
    }
}

} // verus!
