//! The `forge` invocation: its arguments, its echo, and the answer that
//! confirms it.

use crate::environment::{value_of, Environment, Table};
use crate::text::{chars_of, texts, trim, trimmed};
use vstd::prelude::*;
use vstd::string::*;

verus! {

/// The decimal digit for `d`.
pub open spec fn digit(d: int) -> char {
    if d == 0 {
        '0'
    } else if d == 1 {
        '1'
    } else if d == 2 {
        '2'
    } else if d == 3 {
        '3'
    } else if d == 4 {
        '4'
    } else if d == 5 {
        '5'
    } else if d == 6 {
        '6'
    } else if d == 7 {
        '7'
    } else if d == 8 {
        '8'
    } else {
        '9'
    }
}

/// `n` written in decimal, without leading zeros.
pub open spec fn decimal_text(n: nat) -> Seq<char>
    decreases n,
{
    if n < 10 {
        seq![digit(n as int)]
    } else {
        decimal_text(n / 10).push(digit((n % 10) as int))
    }
}

/// `n` written in decimal, with a minus sign where it is negative.
pub open spec fn signed_text(n: int) -> Seq<char> {
    if n < 0 {
        seq!['-'] + decimal_text((-n) as nat)
    } else {
        decimal_text(n as nat)
    }
}

/// Whether an answer to the confirmation prompt accepts: surrounding white
/// space aside, it is `y` or `yes`, in either case of each letter.
pub open spec fn accepts(line: Seq<char>) -> bool {
    let t = trim(line, None);
    ||| (t.len() == 1 && (t[0] == 'y' || t[0] == 'Y'))
    ||| (t.len() == 3 && (t[0] == 'y' || t[0] == 'Y') && (t[1] == 'e' || t[1] == 'E') && (t[2]
        == 's' || t[2] == 'S'))
}

/// The flag `flag` with the value of `name`, where `env` defines `name`;
/// nothing where it does not.
pub open spec fn credential(env: Table, flag: Seq<char>, name: Seq<char>) -> Seq<Seq<char>> {
    if env.contains_key(name) {
        seq![flag, env[name]]
    } else {
        Seq::empty()
    }
}

/// The arguments of the `forge` invocation: the script, the chain id, the
/// network by its name, the broadcast flag, the verification flag where the
/// network asks for it, a credential flag for each credential variable that
/// is defined, the resume flag, and then the extra arguments as they are.
pub open spec fn forge_args(
    network_name: Seq<char>,
    chain_id: u64,
    verify: bool,
    script_name: Seq<char>,
    env: Table,
    extra: Seq<Seq<char>>,
) -> Seq<Seq<char>> {
    seq![
        "script"@,
        "script/"@ + script_name,
        "--chain-id"@,
        decimal_text(chain_id as nat),
        "--rpc-url"@,
        network_name,
        "--broadcast"@,
    ] + (if verify {
        seq!["--verify"@]
    } else {
        Seq::empty()
    }) + credential(env, "--account"@, "KEYSTORE_ACCOUNT"@) + credential(
        env,
        "--password"@,
        "KEYSTORE_PASSWORD"@,
    ) + credential(env, "--sender"@, "BROADCAST_ACCOUNT"@) + seq!["--resume"@] + extra
}

/// The command as it is echoed before confirmation. It names the sender and
/// holds no password.
pub open spec fn command_echo(
    network_name: Seq<char>,
    chain_id: u64,
    verify: bool,
    script_name: Seq<char>,
    env: Table,
) -> Seq<char> {
    "forge script script/"@ + script_name + " --chain-id "@ + decimal_text(chain_id as nat)
        + " --rpc-url "@ + network_name + " --broadcast --sender "@ + value_of(
        env,
        "BROADCAST_ACCOUNT"@,
    ) + " "@ + (if verify {
        " --verify"@
    } else {
        Seq::empty()
    })
}

fn digit_str(d: u64) -> (r: &'static str)
    requires
        d < 10,
    ensures
        r@ == seq![digit(d as int)],
{
    proof {
        reveal_strlit("0");
        reveal_strlit("1");
        reveal_strlit("2");
        reveal_strlit("3");
        reveal_strlit("4");
        reveal_strlit("5");
        reveal_strlit("6");
        reveal_strlit("7");
        reveal_strlit("8");
        reveal_strlit("9");
    }
    let r = if d == 0 {
        "0"
    } else if d == 1 {
        "1"
    } else if d == 2 {
        "2"
    } else if d == 3 {
        "3"
    } else if d == 4 {
        "4"
    } else if d == 5 {
        "5"
    } else if d == 6 {
        "6"
    } else if d == 7 {
        "7"
    } else if d == 8 {
        "8"
    } else {
        "9"
    };
    assert(r@ =~= seq![digit(d as int)]);
    r
}

/// Writes `n` in decimal.
pub fn decimal(n: u64) -> (r: String)
    ensures
        r@ == decimal_text(n as nat),
    decreases n,
{
    if n < 10 {
        digit_str(n).to_owned()
    } else {
        let mut r: String = decimal(n / 10);
        r.append(digit_str(n % 10));
        assert(r@ =~= decimal_text(n as nat));
        r
    }
}

/// Writes `n` in decimal, with a minus sign where it is negative.
pub fn signed(n: i32) -> (r: String)
    ensures
        r@ == signed_text(n as int),
{
    if n < 0 {
        let magnitude: u64 = (-(n as i64)) as u64;
        let mut r: String = "-".to_owned();
        r.append(decimal(magnitude).as_str());
        proof {
            reveal_strlit("-");
            assert(r@ =~= signed_text(n as int));
        }
        r
    } else {
        decimal(n as u64)
    }
}

/// Whether `line`, an answer to the confirmation prompt, accepts.
pub fn is_accepted(line: &str) -> (b: bool)
    ensures
        b == accepts(line@),
{
    let t = chars_of(trimmed(line, None));
    if t.len() == 1 {
        t[0] == 'y' || t[0] == 'Y'
    } else if t.len() == 3 {
        (t[0] == 'y' || t[0] == 'Y') && (t[1] == 'e' || t[1] == 'E') && (t[2] == 's' || t[2]
            == 'S')
    } else {
        false
    }
}

/// Appends `s` to `list`.
pub fn push_text(list: &mut Vec<String>, s: String)
    ensures
        texts(final(list)@) == texts(old(list)@).push(s@),
{
    list.push(s);
    assert(texts(list@) =~= texts(old(list)@).push(s@));
}

/// Appends `flag` and the value of `name` to `list` where `env` defines
/// `name`.
pub fn push_credential(list: &mut Vec<String>, env: &Environment, flag: &str, name: &str)
    ensures
        texts(final(list)@) == texts(old(list)@) + credential(env@, flag@, name@),
{
    match env.get(name) {
        Some(value) => {
            push_text(list, flag.to_owned());
            push_text(list, value.clone());
            assert(texts(list@) =~= texts(old(list)@) + credential(env@, flag@, name@));
        },
        None => {
            assert(texts(list@) =~= texts(old(list)@) + credential(env@, flag@, name@));
        },
    }
}

/// A copy of `list`.
pub fn copy_texts(list: &Vec<String>) -> (r: Vec<String>)
    ensures
        texts(r@) == texts(list@),
{
    let mut r: Vec<String> = Vec::new();
    let mut i: usize = 0;
    while i < list.len()
        invariant
            i <= list@.len(),
            r@.len() == i,
            forall|k: int| 0 <= k < i ==> r@[k]@ == list@[k]@,
        decreases list@.len() - i,
    {
        r.push(list[i].clone());
        i += 1;
    }
    assert(texts(r@) =~= texts(list@));
    r
}

/// Builds the arguments of the `forge` invocation.
pub fn forge_command(
    network_name: &str,
    chain_id: u64,
    verify: bool,
    script_name: &str,
    env: &Environment,
    extra_args: &Vec<String>,
) -> (r: Vec<String>)
    ensures
        texts(r@) == forge_args(
            network_name@,
            chain_id,
            verify,
            script_name@,
            env@,
            texts(extra_args@),
        ),
{
    let mut r: Vec<String> = Vec::new();
    assert(texts(r@) =~= Seq::<Seq<char>>::empty());
    let mut path: String = "script/".to_owned();
    path.append(script_name);
    push_text(&mut r, "script".to_owned());
    push_text(&mut r, path);
    push_text(&mut r, "--chain-id".to_owned());
    push_text(&mut r, decimal(chain_id));
    push_text(&mut r, "--rpc-url".to_owned());
    push_text(&mut r, network_name.to_owned());
    push_text(&mut r, "--broadcast".to_owned());
    let ghost head = seq![
        "script"@,
        "script/"@ + script_name@,
        "--chain-id"@,
        decimal_text(chain_id as nat),
        "--rpc-url"@,
        network_name@,
        "--broadcast"@,
    ];
    assert(texts(r@) =~= head);
    if verify {
        push_text(&mut r, "--verify".to_owned());
    }
    let ghost with_verify = head + (if verify {
        seq!["--verify"@]
    } else {
        Seq::empty()
    });
    assert(texts(r@) =~= with_verify);
    push_credential(&mut r, env, "--account", "KEYSTORE_ACCOUNT");
    push_credential(&mut r, env, "--password", "KEYSTORE_PASSWORD");
    push_credential(&mut r, env, "--sender", "BROADCAST_ACCOUNT");
    push_text(&mut r, "--resume".to_owned());
    let ghost fixed = with_verify + credential(env@, "--account"@, "KEYSTORE_ACCOUNT"@)
        + credential(env@, "--password"@, "KEYSTORE_PASSWORD"@) + credential(
        env@,
        "--sender"@,
        "BROADCAST_ACCOUNT"@,
    ) + seq!["--resume"@];
    assert(texts(r@) =~= fixed);
    let mut i: usize = 0;
    while i < extra_args.len()
        invariant
            i <= extra_args@.len(),
            texts(r@) == fixed + texts(extra_args@).take(i as int),
        decreases extra_args@.len() - i,
    {
        push_text(&mut r, extra_args[i].clone());
        assert(texts(r@) =~= fixed + texts(extra_args@).take(i as int + 1));
        i += 1;
    }
    assert(texts(extra_args@).take(extra_args@.len() as int) =~= texts(extra_args@));
    r
}

/// Builds the echo of the command that is shown before confirmation.
pub fn command_line(
    network_name: &str,
    chain_id: u64,
    verify: bool,
    script_name: &str,
    env: &Environment,
) -> (r: String)
    ensures
        r@ == command_echo(network_name@, chain_id, verify, script_name@, env@),
{
    let mut r: String = "forge script script/".to_owned();
    r.append(script_name);
    r.append(" --chain-id ");
    r.append(decimal(chain_id).as_str());
    r.append(" --rpc-url ");
    r.append(network_name);
    r.append(" --broadcast --sender ");
    match env.get("BROADCAST_ACCOUNT") {
        Some(value) => {
            r.append(value.as_str());
        },
        None => {},
    }
    r.append(" ");
    if verify {
        r.append(" --verify");
    }
    assert(r@ =~= command_echo(network_name@, chain_id, verify, script_name@, env@));
    r
}

} // verus!
