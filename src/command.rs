//! The command-line surface as plain data, and the [`Operation`] each
//! subcommand asks a session to perform.
use vstd::prelude::*;
use vstd::string::StrSliceExecFns;
use crate::session::Operation;

verus! {

/// Arguments of the program.
pub struct Hacklet {
    /// Enables debug logging.
    pub debug: bool,
    pub command: Commands,
}

/// The subcommands.
pub enum Commands {
    On(OnCommand),
    Off(OffCommand),
    Read(ReadCommand),
    Commission(CommissionCommand),
}

/// Turn on the specified socket.
pub struct OnCommand {
    /// The network id in hexadecimal, after `0x` (`0x1234`).
    pub network: String,
    /// The socket id in decimal.
    pub socket: String,
}

/// Turn off the specified socket.
pub struct OffCommand {
    /// The network id in hexadecimal, after `0x` (`0x1234`).
    pub network: String,
    /// The socket id in decimal.
    pub socket: String,
}

/// Read all available samples from the specified socket.
pub struct ReadCommand {
    /// The network id in hexadecimal, after `0x` (`0x1234`).
    pub network: String,
    /// The socket id in decimal.
    pub socket: String,
}

/// Add a new device to the network.
pub struct CommissionCommand {}

/// An argument that does not parse.
#[derive(Debug, Clone, Copy, PartialEq, Eq, Structural)]
pub enum CommandError {
    MalformedNetwork,
    MalformedSocket,
}

/// The value of `c` as a digit in base `radix` (10 or 16), if it is one.
pub open spec fn digit_value(c: char, radix: u32) -> Option<u32> {
    if '0' <= c && c <= '9' {
        Some((c as u32 - '0' as u32) as u32)
    } else if radix == 16 && 'a' <= c && c <= 'f' {
        Some((c as u32 - 'a' as u32 + 10) as u32)
    } else if radix == 16 && 'A' <= c && c <= 'F' {
        Some((c as u32 - 'A' as u32 + 10) as u32)
    } else {
        None
    }
}

/// Every character of `s` is a digit in base `radix`.
pub open spec fn all_digits(s: Seq<char>, radix: u32) -> bool {
    forall|i: int| 0 <= i < s.len() ==> (#[trigger] digit_value(s[i], radix)) is Some
}

/// The number the digits of `s` spell in base `radix`, most significant first.
pub open spec fn digits_value(s: Seq<char>, radix: u32) -> int
    decreases s.len(),
{
    if s.len() == 0 {
        0
    } else {
        digits_value(s.drop_last(), radix) * radix + digit_value(s.last(), radix)->Some_0
    }
}

/// `s` read as an unsigned 16-bit number in base `radix`: one digit or more,
/// nothing else, and a value that fits.
pub open spec fn parse_u16(s: Seq<char>, radix: u32) -> Option<u16> {
    if s.len() > 0 && all_digits(s, radix) && digits_value(s, radix) <= 0xFFFF {
        Some(digits_value(s, radix) as u16)
    } else {
        None
    }
}

/// A network argument: `0x` or `0X`, then hexadecimal digits.
pub open spec fn network_arg(s: Seq<char>) -> Option<u16> {
    if s.len() < 2 || s[0] != '0' || (s[1] != 'x' && s[1] != 'X') {
        None
    } else {
        parse_u16(s.subrange(2, s.len() as int), 16)
    }
}

/// A socket argument: decimal digits.
pub open spec fn socket_arg(s: Seq<char>) -> Option<u16> {
    parse_u16(s, 10)
}

/// The operation that a network and a socket argument name, or the first of
/// them that does not parse.
pub open spec fn target(
    network: Seq<char>,
    socket: Seq<char>,
) -> Result<(u16, u16), CommandError> {
    match network_arg(network) {
        None => Err(CommandError::MalformedNetwork),
        Some(n) => match socket_arg(socket) {
            None => Err(CommandError::MalformedSocket),
            Some(c) => Ok((n, c)),
        },
    }
}

proof fn lemma_digits_value_grows(s: Seq<char>, k: int, radix: u32)
    requires
        0 <= k <= s.len(),
        all_digits(s, radix),
        radix == 10 || radix == 16,
    ensures
        digits_value(s, radix) >= digits_value(s.subrange(0, k), radix) >= 0,
    decreases s.len(),
{
    if s.len() > 0 {
        let t = s.drop_last();
        assert(all_digits(t, radix)) by {
            assert forall|i: int| 0 <= i < t.len() implies (#[trigger] digit_value(t[i], radix)) is Some by {
                assert(t[i] == s[i]);
            }
        }
        assert(digit_value(s[s.len() - 1], radix) is Some);
        if k == s.len() {
            assert(s.subrange(0, k) =~= s);
            lemma_digits_value_grows(t, t.len() as int, radix);
            assert(t.subrange(0, t.len() as int) =~= t);
        } else {
            lemma_digits_value_grows(t, k, radix);
            assert(t.subrange(0, k) =~= s.subrange(0, k));
        }
        let v = digits_value(t, radix);
        assert(v * radix >= v) by (nonlinear_arith)
            requires v >= 0, radix >= 1;
    }
}

/// Parses `s` as an unsigned 16-bit number in base `radix`.
fn parse_digits(s: &str, radix: u32) -> (r: Option<u16>)
    requires
        radix == 10 || radix == 16,
    ensures
        r == parse_u16(s@, radix),
{
    let n = s.unicode_len();
    if n == 0 {
        return None;
    }
    let mut acc: u32 = 0;
    let mut i: usize = 0;
    while i < n
        invariant
            n == s@.len(),
            i <= n,
            radix == 10 || radix == 16,
            all_digits(s@.subrange(0, i as int), radix),
            acc as int == digits_value(s@.subrange(0, i as int), radix),
            acc <= 0xFFFF,
        decreases n - i,
    {
        let c = s.get_char(i);
        let d: u32 = if '0' <= c && c <= '9' {
            c as u32 - '0' as u32
        } else if radix == 16 && 'a' <= c && c <= 'f' {
            c as u32 - 'a' as u32 + 10
        } else if radix == 16 && 'A' <= c && c <= 'F' {
            c as u32 - 'A' as u32 + 10
        } else {
            assert(!all_digits(s@, radix)) by {
                assert(digit_value(s@[i as int], radix) is None);
            }
            return None;
        };
        let ghost pre = s@.subrange(0, i as int);
        let ghost next = s@.subrange(0, i as int + 1);
        assert(next.drop_last() =~= pre);
        assert(next.last() == c);
        assert(all_digits(next, radix)) by {
            assert forall|j: int| 0 <= j < next.len() implies (#[trigger] digit_value(next[j], radix)) is Some by {
                if j < i {
                    assert(next[j] == pre[j]);
                }
            }
        }
        assert(d < 16);
        assert(acc as int * radix as int <= 0xFFFF * 16) by (nonlinear_arith)
            requires
                acc <= 0xFFFF,
                radix <= 16,
        ;
        let wide: u64 = acc as u64 * radix as u64 + d as u64;
        if wide > 0xFFFF {
            proof {
                if all_digits(s@, radix) {
                    lemma_digits_value_grows(s@, i as int + 1, radix);
                }
            }
            return None;
        }
        acc = wide as u32;
        i = i + 1;
    }
    assert(s@.subrange(0, i as int) =~= s@);
    Some(acc as u16)
}

/// Parses a network argument: a `0x` or `0X` prefix, then hexadecimal.
pub fn parse_network(s: &str) -> (r: Option<u16>)
    ensures
        r == network_arg(s@),
{
    let n = s.unicode_len();
    if n < 2 {
        return None;
    }
    let zero = s.get_char(0);
    let x = s.get_char(1);
    if zero != '0' || (x != 'x' && x != 'X') {
        return None;
    }
    parse_digits(s.substring_char(2, n), 16)
}

/// Parses a socket argument as decimal.
pub fn parse_socket(s: &str) -> (r: Option<u16>)
    ensures
        r == socket_arg(s@),
{
    parse_digits(s, 10)
}

fn parse_target(network: &String, socket: &String) -> (r: Result<(u16, u16), CommandError>)
    ensures
        r == target(network@, socket@),
{
    match parse_network(network.as_str()) {
        None => Err(CommandError::MalformedNetwork),
        Some(n) => match parse_socket(socket.as_str()) {
            None => Err(CommandError::MalformedSocket),
            Some(c) => Ok((n, c)),
        },
    }
}

/// The operation that `cmd` asks for: `on` and `off` switch the socket,
/// `read` fetches its samples, `commission` looks for a device.
pub open spec fn operation_of(cmd: &Commands) -> Result<Operation, CommandError> {
    match cmd {
        Commands::On(c) => match target(c.network@, c.socket@) {
            Ok((n, s)) => Ok(Operation::Switch { network_id: n, channel_id: s, on: true }),
            Err(e) => Err(e),
        },
        Commands::Off(c) => match target(c.network@, c.socket@) {
            Ok((n, s)) => Ok(Operation::Switch { network_id: n, channel_id: s, on: false }),
            Err(e) => Err(e),
        },
        Commands::Read(c) => match target(c.network@, c.socket@) {
            Ok((n, s)) => Ok(Operation::ReadSamples { network_id: n, channel_id: s }),
            Err(e) => Err(e),
        },
        Commands::Commission(_) => Ok(Operation::Commission),
    }
}

impl Commands {
    /// The operation this subcommand asks for, or the argument that does not
    /// parse.
    pub fn operation(&self) -> (r: Result<Operation, CommandError>)
        ensures
            r == operation_of(self),
    {
        match self {
            Commands::On(c) => match parse_target(&c.network, &c.socket) {
                Ok((n, s)) => Ok(Operation::Switch { network_id: n, channel_id: s, on: true }),
                Err(e) => Err(e),
            },
            Commands::Off(c) => match parse_target(&c.network, &c.socket) {
                Ok((n, s)) => Ok(Operation::Switch { network_id: n, channel_id: s, on: false }),
                Err(e) => Err(e),
            },
            Commands::Read(c) => match parse_target(&c.network, &c.socket) {
                Ok((n, s)) => Ok(Operation::ReadSamples { network_id: n, channel_id: s }),
                Err(e) => Err(e),
            },
            Commands::Commission(_) => Ok(Operation::Commission),
        }
    }
}

} // verus!
