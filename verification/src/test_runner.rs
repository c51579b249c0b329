//! The test harness: runs compiled test cases in order, reports each over
//! the serial channel, and drives the exit signal from the aggregate
//! outcome.
//!
//! The harness is a small state machine. It starts by reporting the total
//! case count, then for each case reports its name, and after the case
//! returns normally reports success. An uncaught fault ends the whole run:
//! the failure and its description are reported, the exit signal owes the
//! host a failure, and no later case is ever reported. There is no test
//! isolation and no catch-and-continue.
//!
//! The loop that actually executes the case bodies lives outside the
//! library; it feeds each outcome back into these transitions.

use vstd::prelude::*;
use vstd::string::StringExecFns;

use crate::qemu::QemuExitCode;
use crate::serial::SerialChannel;

verus! {

/// The digit character for one decimal digit.
pub open spec fn spec_digit_char(d: int) -> char {
    if d == 1 {
        '1'
    } else if d == 2 {
        '2'
    } else if d == 3 {
        '3'
    } else if d == 4 {
        '4'
    } else if d == 5 {
        '5'
    } else if d == 6 {
        '6'
    } else if d == 7 {
        '7'
    } else if d == 8 {
        '8'
    } else if d == 9 {
        '9'
    } else {
        '0'
    }
}

/// The decimal rendering of a number, most significant digit first.
pub open spec fn spec_decimal(n: int) -> Seq<char>
    decreases n,
{
    if n < 10 {
        seq![spec_digit_char(n)]
    } else {
        spec_decimal(n / 10).push(spec_digit_char(n % 10))
    }
}

/// Appends one decimal digit character.
fn push_digit(out: &mut String, d: u8)
    requires
        d < 10,
    ensures
        final(out)@ == old(out)@ + seq![spec_digit_char(d as int)],
{
    if d == 0 {
        proof {
            reveal_strlit("0");
            assert("0"@ =~= seq![spec_digit_char(0int)]);
        }
        out.append("0");
    } else if d == 1 {
        proof {
            reveal_strlit("1");
            assert("1"@ =~= seq![spec_digit_char(1int)]);
        }
        out.append("1");
    } else if d == 2 {
        proof {
            reveal_strlit("2");
            assert("2"@ =~= seq![spec_digit_char(2int)]);
        }
        out.append("2");
    } else if d == 3 {
        proof {
            reveal_strlit("3");
            assert("3"@ =~= seq![spec_digit_char(3int)]);
        }
        out.append("3");
    } else if d == 4 {
        proof {
            reveal_strlit("4");
            assert("4"@ =~= seq![spec_digit_char(4int)]);
        }
        out.append("4");
    } else if d == 5 {
        proof {
            reveal_strlit("5");
            assert("5"@ =~= seq![spec_digit_char(5int)]);
        }
        out.append("5");
    } else if d == 6 {
        proof {
            reveal_strlit("6");
            assert("6"@ =~= seq![spec_digit_char(6int)]);
        }
        out.append("6");
    } else if d == 7 {
        proof {
            reveal_strlit("7");
            assert("7"@ =~= seq![spec_digit_char(7int)]);
        }
        out.append("7");
    } else if d == 8 {
        proof {
            reveal_strlit("8");
            assert("8"@ =~= seq![spec_digit_char(8int)]);
        }
        out.append("8");
    } else {
        proof {
            reveal_strlit("9");
            assert("9"@ =~= seq![spec_digit_char(9int)]);
        }
        out.append("9");
    }
}

/// Appends the decimal rendering of a count.
pub fn push_decimal(out: &mut String, n: usize)
    ensures
        final(out)@ == old(out)@ + spec_decimal(n as int),
    decreases n,
{
    if n >= 10 {
        push_decimal(out, n / 10);
        push_digit(out, (n % 10) as u8);
        proof {
            assert(spec_decimal(n as int) =~= spec_decimal(n as int / 10) + seq![spec_digit_char(
                n as int % 10,
            )]);
            assert(old(out)@ + spec_decimal(n as int) =~= old(out)@ + spec_decimal(n as int / 10)
                + seq![spec_digit_char(n as int % 10)]);
        }
    } else {
        push_digit(out, n as u8);
    }
}

/// Where a run stands: not yet entered, under way, or in one of the two
/// terminal outcomes.
#[derive(Debug, Copy, Clone, PartialEq, Eq, Structural)]
pub enum HarnessState {
    NotStarted,
    Running,
    AllPassed,
    OneFailed,
}

/// The sequential runner: how many cases the binary compiled in, how many
/// have returned normally, and where the run stands.
pub struct TestRunner {
    state: HarnessState,
    total: usize,
    completed: usize,
}

impl TestRunner {
    /// Where the run stands.
    pub closed spec fn state(&self) -> HarnessState {
        self.state
    }

    /// How many cases the run holds in all.
    pub closed spec fn total(&self) -> int {
        self.total as int
    }

    /// How many cases have returned normally so far.
    pub closed spec fn completed(&self) -> int {
        self.completed as int
    }

    /// A harness over the compiled case count; nothing has run or been
    /// reported yet.
    pub fn new(total: usize) -> (r: TestRunner)
        ensures
            r.state() == HarnessState::NotStarted,
            r.total() == total as int,
            r.completed() == 0,
    {
        TestRunner { state: HarnessState::NotStarted, total, completed: 0 }
    }

    /// Entry to the test binary: reports the total case count over the
    /// serial channel and begins the run. A run with no cases at all is
    /// already complete, and passed.
    pub fn start(&mut self, serial: &mut SerialChannel)
        requires
            old(self).state() == HarnessState::NotStarted,
            old(self).completed() == 0,
        ensures
            final(self).total() == old(self).total(),
            final(self).completed() == 0,
            final(self).state() == (if old(self).total() == 0 {
                HarnessState::AllPassed
            } else {
                HarnessState::Running
            }),
            final(serial)@ == old(serial)@ + "Running "@ + spec_decimal(old(self).total())
                + " tests\n"@,
    {
        serial.write_str("Running ");
        let mut count = String::new();
        push_decimal(&mut count, self.total);
        serial.write_str(count.as_str());
        serial.write_str(" tests\n");
        if self.total == 0 {
            self.state = HarnessState::AllPassed;
        } else {
            self.state = HarnessState::Running;
        }
    }

    /// Reports the name of the case about to execute.
    pub fn begin_case(&mut self, name: &str, serial: &mut SerialChannel)
        requires
            old(self).state() == HarnessState::Running,
            old(self).completed() < old(self).total(),
        ensures
            final(self).state() == old(self).state(),
            final(self).total() == old(self).total(),
            final(self).completed() == old(self).completed(),
            final(serial)@ == old(serial)@ + name@ + "... "@,
    {
        serial.write_str(name);
        serial.write_str("... ");
    }

    /// The case returned normally: reports success and moves on; once every
    /// case has returned normally the whole run has passed.
    pub fn case_passed(&mut self, serial: &mut SerialChannel)
        requires
            old(self).state() == HarnessState::Running,
            old(self).completed() < old(self).total(),
        ensures
            final(self).total() == old(self).total(),
            final(self).completed() == old(self).completed() + 1,
            final(self).state() == (if old(self).completed() + 1 == old(self).total() {
                HarnessState::AllPassed
            } else {
                HarnessState::Running
            }),
            final(serial)@ == old(serial)@ + "[ok]\n"@,
    {
        serial.write_str("[ok]\n");
        self.completed = self.completed + 1;
        if self.completed == self.total {
            self.state = HarnessState::AllPassed;
        }
    }

    /// An uncaught fault during a case body: reports the failure with its
    /// description and ends the run in its failure terminal state. The
    /// returned code is what the exit signal owes the host; no later case is
    /// ever reported.
    pub fn case_faulted(&mut self, description: &str, serial: &mut SerialChannel) -> (code:
        QemuExitCode)
        requires
            old(self).state() == HarnessState::Running,
        ensures
            final(self).state() == HarnessState::OneFailed,
            final(self).total() == old(self).total(),
            final(self).completed() == old(self).completed(),
            final(serial)@ == old(serial)@ + "[failed]\n"@ + description@ + "\n"@,
            code == QemuExitCode::Failed,
    {
        serial.write_str("[failed]\n");
        serial.write_str(description);
        serial.write_str("\n");
        self.state = HarnessState::OneFailed;
        QemuExitCode::Failed
    }

    /// The exit signal owed to the host: success or failure once the run has
    /// reached a terminal state, nothing while it is still under way.
    pub fn exit_code(&self) -> (r: Option<QemuExitCode>)
        ensures
            r == (match self.state() {
                HarnessState::AllPassed => Some(QemuExitCode::Success),
                HarnessState::OneFailed => Some(QemuExitCode::Failed),
                _ => None::<QemuExitCode>,
            }),
    {
        match self.state {
            HarnessState::AllPassed => Some(QemuExitCode::Success),
            HarnessState::OneFailed => Some(QemuExitCode::Failed),
            _ => None,
        }
    }

    /// Where the run stands, for the driving loop.
    pub fn current_state(&self) -> (s: HarnessState)
        ensures
            s == self.state(),
    {
        self.state
    }
}

} // verus!
