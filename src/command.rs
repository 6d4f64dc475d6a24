//! Text of the user commands that forward an editor command to this client.
use vstd::prelude::*;
use vstd::string::StringExecFns;

verus! {

/// The decimal digits, indexed by their value.
pub open spec fn digit_chars() -> Seq<char> {
    seq!['0', '1', '2', '3', '4', '5', '6', '7', '8', '9']
}

/// Decimal representation of `n`, without leading zeros.
pub open spec fn decimal(n: nat) -> Seq<char>
    decreases n,
{
    if n < 10 {
        seq![digit_chars()[n as int]]
    } else {
        decimal(n / 10).push(digit_chars()[(n % 10) as int])
    }
}

fn digit_str(d: u64) -> (r: &'static str)
    requires
        d < 10,
    ensures
        r@ == seq![digit_chars()[d as int]],
{
    proof {
        reveal_strlit("0");
        reveal_strlit("1");
        reveal_strlit("2");
        reveal_strlit("3");
        reveal_strlit("4");
        reveal_strlit("5");
        reveal_strlit("6");
        reveal_strlit("7");
        reveal_strlit("8");
        reveal_strlit("9");
    }
    if d == 0 {
        "0"
    } else if d == 1 {
        "1"
    } else if d == 2 {
        "2"
    } else if d == 3 {
        "3"
    } else if d == 4 {
        "4"
    } else if d == 5 {
        "5"
    } else if d == 6 {
        "6"
    } else if d == 7 {
        "7"
    } else if d == 8 {
        "8"
    } else {
        "9"
    }
}

/// Renders `n` in decimal.
pub fn decimal_string(n: u64) -> (r: String)
    ensures
        r@ == decimal(n as nat),
    decreases n,
{
    if n < 10 {
        String::from_str(digit_str(n))
    } else {
        let mut s = decimal_string(n / 10);
        s.append(digit_str(n % 10));
        s
    }
}

/// The `-nargs` value of a user command taking `num_args` arguments:
/// `+` for more than one, the count itself otherwise.
pub open spec fn nargs_text(num_args: nat) -> Seq<char> {
    if num_args > 1 {
        seq!['+']
    } else {
        decimal(num_args)
    }
}

/// The definition of user command `command` that notifies channel `channel`
/// of `neovide.<event>`, forwarding the command's arguments when it takes any.
pub open spec fn neovide_command_text(
    channel: nat,
    num_args: nat,
    command: Seq<char>,
    event: Seq<char>,
) -> Seq<char> {
    "command! -nargs="@ + nargs_text(num_args) + " -complete=expression "@ + command
        + " call rpcnotify("@ + decimal(channel) + ", 'neovide."@ + event + (if num_args == 0 {
        "')"@
    } else {
        "', <args>)"@
    })
}

/// Builds the editor command that defines user command `command`, which
/// notifies channel `channel` of the event `neovide.<event>`.
pub fn build_neovide_command(channel: u64, num_args: u64, command: &str, event: &str) -> (r:
    String)
    ensures
        r@ == neovide_command_text(channel as nat, num_args as nat, command@, event@),
{
    let mut s = String::from_str("command! -nargs=");
    if num_args > 1 {
        s.append("+");
    } else {
        let n = decimal_string(num_args);
        s.append(n.as_str());
    }
    s.append(" -complete=expression ");
    s.append(command);
    s.append(" call rpcnotify(");
    let c = decimal_string(channel);
    s.append(c.as_str());
    s.append(", 'neovide.");
    s.append(event);
    if num_args == 0 {
        s.append("')");
    } else {
        s.append("', <args>)");
    }
    proof {
        reveal_strlit("+");
    }
    s
}

} // verus!
