use vstd::prelude::*;

verus! {

pub open spec fn digit_char(d: nat) -> char {
    if d == 0 {
        '0'
    } else if d == 1 {
        '1'
    } else if d == 2 {
        '2'
    } else if d == 3 {
        '3'
    } else if d == 4 {
        '4'
    } else if d == 5 {
        '5'
    } else if d == 6 {
        '6'
    } else if d == 7 {
        '7'
    } else if d == 8 {
        '8'
    } else {
        '9'
    }
}

/// The decimal digits of `n`, most significant first, without leading zeros.
pub open spec fn decimal(n: nat) -> Seq<char>
    decreases n,
{
    if n < 10 {
        seq![digit_char(n)]
    } else {
        decimal(n / 10).push(digit_char(n % 10))
    }
}

/// The name a binding has in the target program: its source name, or the
/// mangled `__{id}_{name}` when it is promoted.
pub open spec fn target_name(name: Seq<char>, global_id: Option<usize>) -> Seq<char> {
    match global_id {
        Some(id) => seq!['_', '_'] + decimal(id as nat) + seq!['_'] + name,
        None => name,
    }
}

/// The value-substitution form of a variable: `${name}`.
pub open spec fn read_form(name: Seq<char>, global_id: Option<usize>) -> Seq<char> {
    seq!['$', '{'] + target_name(name, global_id) + seq!['}']
}

/// The assignment form of a variable: `name=value`, with no substitution
/// syntax on the target.
pub open spec fn write_form(name: Seq<char>, global_id: Option<usize>, value: Seq<char>) -> Seq<char> {
    target_name(name, global_id) + seq!['='] + value
}

fn digit_str(d: usize) -> (r: &'static str)
    requires
        d < 10,
    ensures
        r@ == seq![digit_char(d as nat)],
{
    proof {
        reveal_strlit("0");
        reveal_strlit("1");
        reveal_strlit("2");
        reveal_strlit("3");
        reveal_strlit("4");
        reveal_strlit("5");
        reveal_strlit("6");
        reveal_strlit("7");
        reveal_strlit("8");
        reveal_strlit("9");
    }
    match d {
        0 => "0",
        1 => "1",
        2 => "2",
        3 => "3",
        4 => "4",
        5 => "5",
        6 => "6",
        7 => "7",
        8 => "8",
        _ => "9",
    }
}

/// Appends the decimal digits of `n` to `out`.
fn push_decimal(out: &mut String, n: usize)
    ensures
        final(out)@ == old(out)@ + decimal(n as nat),
    decreases n,
{
    if n >= 10 {
        push_decimal(out, n / 10);
    }
    out.append(digit_str(n % 10));
    assert(n >= 10 ==> decimal(n as nat) == decimal((n / 10) as nat).push(digit_char((n % 10) as nat)));
    assert(out@ =~= old(out)@ + decimal(n as nat));
}

/// Renders the name a binding has in the target program.
pub fn mangled_name(name: &String, global_id: Option<usize>) -> (r: String)
    ensures
        r@ == target_name(name@, global_id),
{
    match global_id {
        Some(id) => {
            let mut out = String::new();
            proof {
                reveal_strlit("__");
                reveal_strlit("_");
            }
            out.append("__");
            push_decimal(&mut out, id);
            out.append("_");
            out.append(name.as_str());
            assert(out@ =~= target_name(name@, global_id));
            out
        },
        None => name.clone(),
    }
}

} // verus!
