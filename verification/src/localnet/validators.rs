//! The validators of a chain.

use vstd::prelude::*;

verus! {

/// One validator: its address, its voting power, and the name it goes by.
pub struct ValidatorSetEntry {
    pub address: String,
    pub voting_power: String,
    pub name: String,
}

/// A validator set.
pub struct ValidatorsJson {
    pub validators: Vec<ValidatorSetEntry>,
}

/// The character of one decimal digit.
pub open spec fn digit(d: nat) -> char {
    if d == 0 {
        '0'
    } else if d == 1 {
        '1'
    } else if d == 2 {
        '2'
    } else if d == 3 {
        '3'
    } else if d == 4 {
        '4'
    } else if d == 5 {
        '5'
    } else if d == 6 {
        '6'
    } else if d == 7 {
        '7'
    } else if d == 8 {
        '8'
    } else {
        '9'
    }
}

/// A number written in decimal, without leading zeros.
pub open spec fn decimal(n: nat) -> Seq<char>
    decreases n,
{
    if n < 10 {
        seq![digit(n)]
    } else {
        decimal(n / 10).push(digit(n % 10))
    }
}

/// The name of the validator at a position of the set: `val1` for the
/// first, `val2` for the second, and so on.
pub open spec fn validator_name(position: nat) -> Seq<char> {
    "val"@ + decimal(position + 1)
}

/// One decimal digit as text.
fn digit_text(d: usize) -> (r: &'static str)
    requires
        d < 10,
    ensures
        r@ == seq![digit(d as nat)],
{
    proof {
        reveal_strlit("0");
        reveal_strlit("1");
        reveal_strlit("2");
        reveal_strlit("3");
        reveal_strlit("4");
        reveal_strlit("5");
        reveal_strlit("6");
        reveal_strlit("7");
        reveal_strlit("8");
        reveal_strlit("9");
    }
    let r = match d {
        0 => "0",
        1 => "1",
        2 => "2",
        3 => "3",
        4 => "4",
        5 => "5",
        6 => "6",
        7 => "7",
        8 => "8",
        _ => "9",
    };
    assert(r@ =~= seq![digit(d as nat)]);
    r
}

/// Writes a number in decimal.
pub fn decimal_text(n: usize) -> (r: String)
    ensures
        r@ == decimal(n as nat),
{
    let mut text = digit_text(n % 10).to_owned();
    let mut rest: usize = n / 10;
    proof {
        lemma_last_digit(n as nat);
    }
    // `text` holds the digits of `n` below those of `rest`.
    while rest > 0
        invariant
            rest == 0 ==> text@ == decimal(n as nat),
            rest > 0 ==> decimal(n as nat) == decimal(rest as nat) + text@,
        decreases rest,
    {
        let d = digit_text(rest % 10);
        let ghost before = text@;
        text = d.to_owned().concat(text.as_str());
        proof {
            let higher = (rest / 10) as nat;
            assert(decimal(rest as nat) == if rest < 10 {
                seq![digit(rest as nat)]
            } else {
                decimal(higher).push(digit((rest % 10) as nat))
            });
            if rest < 10 {
                assert(text@ =~= decimal(rest as nat) + before);
            } else {
                assert(decimal(higher) + text@ =~= decimal(rest as nat) + before);
            }
        }
        rest = rest / 10;
    }
    text
}

/// A number is written as the number without its last digit, then that
/// digit.
proof fn lemma_last_digit(n: nat)
    ensures
        n / 10 == 0 ==> decimal(n) == seq![digit(n % 10)],
        n / 10 > 0 ==> decimal(n) == decimal(n / 10) + seq![digit(n % 10)],
{
    if n >= 10 {
        assert(decimal(n / 10).push(digit(n % 10)) =~= decimal(n / 10) + seq![digit(n % 10)]);
    }
}

/// Names the validators of a set in their order: each keeps its address
/// and voting power and is called by its place, counted from one.
pub fn name_validators(members: Vec<(String, String)>) -> (r: Vec<ValidatorSetEntry>)
    ensures
        r@.len() == members@.len(),
        forall|i: int|
            0 <= i < r@.len() ==> {
                &&& (#[trigger] r@[i]).address@ == members@[i].0@
                &&& r@[i].voting_power@ == members@[i].1@
                &&& r@[i].name@ == validator_name(i as nat)
            },
{
    let mut entries: Vec<ValidatorSetEntry> = Vec::new();
    let mut i: usize = 0;
    while i < members.len()
        invariant
            i <= members.len(),
            entries@.len() == i,
            forall|k: int|
                0 <= k < i ==> {
                    &&& (#[trigger] entries@[k]).address@ == members@[k].0@
                    &&& entries@[k].voting_power@ == members@[k].1@
                    &&& entries@[k].name@ == validator_name(k as nat)
                },
        decreases members.len() - i,
    {
        let mut name = "val".to_owned();
        let number = decimal_text(i + 1);
        name.append(number.as_str());
        entries.push(
            ValidatorSetEntry {
                address: members[i].0.clone(),
                voting_power: members[i].1.clone(),
                name,
            },
        );
        i = i + 1;
    }
    entries
}

} // verus!
