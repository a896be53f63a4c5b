//! The address the daemon listens on, the line that announces its port and the
//! X displays it looks for.
use vstd::prelude::*;

verus! {

/// The streaming daemon.
pub struct StreamDaemon;

/// Appends one character (`String::push`).
#[verifier::external_body]
fn push_char(s: &mut String, c: char)
    ensures
        final(s)@ == old(s)@.push(c),
{
    s.push(c)
}

/// The character of the decimal digit `d`.
pub open spec fn digit_char(d: nat) -> char {
    (48 + d) as char
}

/// The decimal digits of `n`, most significant first, without leading zeros.
pub open spec fn decimal(n: nat) -> Seq<char>
    decreases n,
{
    if n < 10 {
        seq![digit_char(n)]
    } else {
        decimal(n / 10).push(digit_char(n % 10))
    }
}

/// The number that a string of decimal digits spells.
pub open spec fn decimal_value(s: Seq<char>) -> int
    decreases s.len(),
{
    if s.len() == 0 {
        0
    } else {
        decimal_value(s.drop_last()) * 10 + (s.last() as int - 48)
    }
}

fn push_decimal(s: &mut String, n: u16)
    ensures
        final(s)@ == old(s)@ + decimal(n as nat),
    decreases n,
{
    if n >= 10 {
        push_decimal(s, n / 10);
    }
    let d = (n % 10) as u8;
    let c = (48u8 + d) as char;
    push_char(s, c);
    proof {
        if n >= 10 {
            assert(decimal(n as nat) == decimal((n / 10) as nat).push(digit_char((n % 10) as nat)));
        }
    }
    assert(final(s)@ =~= old(s)@ + decimal(n as nat));
}

/// The address to bind: the host, a colon and the port in decimal.
pub fn listen_address(host: &str, port: u16) -> (addr: String)
    ensures
        addr@ == host@ + seq![':'] + decimal(port as nat),
{
    let mut addr = host.to_owned();
    push_char(&mut addr, ':');
    push_decimal(&mut addr, port);
    addr
}

/// The line printed once the listener is bound, announcing the bound port.
pub fn ready_line(port: u16) -> (line: String)
    ensures
        line@ == "stream_port:"@ + decimal(port as nat),
{
    let mut line = "stream_port:".to_owned();
    push_decimal(&mut line, port);
    line
}

/// Decimal digits are read back as the number they were written from, and the
/// digits are ASCII digits.
pub proof fn lemma_decimal_round_trip(n: nat)
    ensures
        decimal_value(decimal(n)) == n,
        forall|i: int| 0 <= i < decimal(n).len() ==> '0' <= #[trigger] decimal(n)[i] <= '9',
    decreases n,
{
    let d = n % 10;
    assert(digit_char(d) as int == 48 + d);
    if n >= 10 {
        lemma_decimal_round_trip(n / 10);
        let s = decimal(n);
        assert(s.drop_last() =~= decimal(n / 10));
        assert(s.last() == digit_char(d));
        assert(s.len() > 0);
        assert(decimal_value(s) == decimal_value(decimal(n / 10)) * 10 + d);
        assert((n / 10) * 10 + d == n);
    } else {
        let s = decimal(n);
        assert(s.drop_last() =~= Seq::<char>::empty());
        assert(s.last() == digit_char(d));
        assert(decimal_value(s.drop_last()) == 0);
        assert(decimal_value(s) == d);
    }
}


/// The port announced by the ready line is read back from the digits after its
/// `stream_port:` prefix.
pub proof fn lemma_ready_line_port(port: u16)
    ensures
        ("stream_port:"@ + decimal(port as nat)).subrange(0, 12) == "stream_port:"@,
        decimal_value(("stream_port:"@ + decimal(port as nat)).skip(12)) == port,
{
    reveal_strlit("stream_port:");
    let line = "stream_port:"@ + decimal(port as nat);
    assert(line.skip(12) =~= decimal(port as nat));
    assert(line.subrange(0, 12) =~= "stream_port:"@);
    lemma_decimal_round_trip(port as nat);
}


/// Number of X displays (`:0` to `:9`) scanned for an XWayland socket when
/// `$DISPLAY` does not connect.
pub const DISPLAY_SCAN_LIMIT: u8 = 10;

/// The socket path of X display number `n`.
pub fn x11_socket_path(n: u8) -> (path: String)
    ensures
        path@ == "/tmp/.X11-unix/X"@ + decimal(n as nat),
{
    let mut path = "/tmp/.X11-unix/X".to_owned();
    push_decimal(&mut path, n as u16);
    path
}

/// The display name of X display number `n`.
pub fn display_name(n: u8) -> (name: String)
    ensures
        name@ == seq![':'] + decimal(n as nat),
{
    let mut name = String::new();
    push_char(&mut name, ':');
    push_decimal(&mut name, n as u16);
    proof {
        assert(name@ =~= seq![':'] + decimal(n as nat));
    }
    name
}


/// What finding an X display tries next.
#[derive(PartialEq, Eq, Structural, Clone, Copy, Debug)]
pub enum DisplayStep {
    /// Connect to the display that `$DISPLAY` names.
    ConnectDefault,
    /// Check whether the socket of display `n` exists.
    CheckSocket(u8),
    /// Connect to display `n`, whose socket exists.
    ConnectDisplay(u8),
    /// No display can be reached.
    GiveUp,
}

/// A search for an X display: `$DISPLAY` first, then the displays `:0` to `:9`
/// that have a socket, in order; the first connection that succeeds ends it.
pub struct DisplayScan {
    pub step: DisplayStep,
}

/// The step after display `n` is passed over.
pub open spec fn after_display(n: u8) -> DisplayStep {
    if n + 1 < DISPLAY_SCAN_LIMIT {
        DisplayStep::CheckSocket((n + 1) as u8)
    } else {
        DisplayStep::GiveUp
    }
}

/// The step after a failed connection, or after a socket check that found the
/// socket (`present`) or not.
pub open spec fn spec_display_next(step: DisplayStep, present: bool) -> DisplayStep {
    match step {
        DisplayStep::ConnectDefault => DisplayStep::CheckSocket(0),
        DisplayStep::CheckSocket(n) => if present {
            DisplayStep::ConnectDisplay(n)
        } else {
            after_display(n)
        },
        DisplayStep::ConnectDisplay(n) => after_display(n),
        DisplayStep::GiveUp => DisplayStep::GiveUp,
    }
}

/// The display numbers a scan names stay below the scan limit.
pub open spec fn display_step_ok(step: DisplayStep) -> bool {
    match step {
        DisplayStep::CheckSocket(n) => n < DISPLAY_SCAN_LIMIT,
        DisplayStep::ConnectDisplay(n) => n < DISPLAY_SCAN_LIMIT,
        _ => true,
    }
}

fn next_display(n: u8) -> (step: DisplayStep)
    requires
        n < DISPLAY_SCAN_LIMIT,
    ensures
        step == after_display(n),
{
    if n + 1 < DISPLAY_SCAN_LIMIT {
        DisplayStep::CheckSocket(n + 1)
    } else {
        DisplayStep::GiveUp
    }
}

impl DisplayScan {
    /// A scan that starts with `$DISPLAY`.
    pub fn new() -> (scan: Self)
        ensures
            scan.step == DisplayStep::ConnectDefault,
    {
        DisplayScan { step: DisplayStep::ConnectDefault }
    }

    /// Records that the connection the current step asked for failed.
    pub fn connect_failed(&mut self)
        requires
            display_step_ok(old(self).step),
            old(self).step is ConnectDefault || old(self).step is ConnectDisplay,
        ensures
            final(self).step == spec_display_next(old(self).step, false),
            display_step_ok(final(self).step),
    {
        self.step = match self.step {
            DisplayStep::ConnectDisplay(n) => next_display(n),
            _ => DisplayStep::CheckSocket(0),
        };
    }

    /// Records whether the socket the current step asked about exists.
    pub fn socket_checked(&mut self, present: bool)
        requires
            display_step_ok(old(self).step),
            old(self).step is CheckSocket,
        ensures
            final(self).step == spec_display_next(old(self).step, present),
            display_step_ok(final(self).step),
    {
        if let DisplayStep::CheckSocket(n) = self.step {
            self.step = if present {
                DisplayStep::ConnectDisplay(n)
            } else {
                next_display(n)
            };
        }
    }
}

/// The scan tries the displays in increasing order and ends: past `$DISPLAY`,
/// each step names a display at least as high as the one before, a step that
/// moves on names a higher display or gives up, and giving up is final.
pub proof fn lemma_display_scan_advances(step: DisplayStep, present: bool)
    requires
        display_step_ok(step),
    ensures
        display_step_ok(spec_display_next(step, present)),
        step is GiveUp ==> spec_display_next(step, present) is GiveUp,
        match (step, spec_display_next(step, present)) {
            (DisplayStep::CheckSocket(n), DisplayStep::ConnectDisplay(m)) => m == n,
            (DisplayStep::CheckSocket(n), DisplayStep::CheckSocket(m)) => m == n + 1,
            (DisplayStep::ConnectDisplay(n), DisplayStep::CheckSocket(m)) => m == n + 1,
            (DisplayStep::ConnectDefault, next) => next == DisplayStep::CheckSocket(0),
            (_, DisplayStep::ConnectDefault) => false,
            _ => true,
        },
{
}

} // verus!
