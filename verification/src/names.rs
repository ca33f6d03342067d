use vstd::prelude::*;
use vstd::string::StringExecFns;
use vstd::arithmetic::div_mod::lemma_fundamental_div_mod;

verus! {

/// The character for one decimal digit.
pub open spec fn spec_digit_char(d: int) -> char {
    if d == 0 {
        '0'
    } else if d == 1 {
        '1'
    } else if d == 2 {
        '2'
    } else if d == 3 {
        '3'
    } else if d == 4 {
        '4'
    } else if d == 5 {
        '5'
    } else if d == 6 {
        '6'
    } else if d == 7 {
        '7'
    } else if d == 8 {
        '8'
    } else {
        '9'
    }
}

/// The usual decimal rendering of a natural number, most significant digit
/// first, without leading zeros (except for the number zero itself).
pub open spec fn spec_dec(n: nat) -> Seq<char>
    decreases n,
{
    if n < 10 {
        seq![spec_digit_char(n as int)]
    } else {
        spec_dec(n / 10).push(spec_digit_char((n % 10) as int))
    }
}

/// The name synthesized for the parameter at positional index `i` whose
/// pattern is not a simple identifier.
pub open spec fn spec_synth_name(i: nat) -> Seq<char> {
    "__p"@ + spec_dec(i)
}

/// One decimal digit as a string slice.
fn digit_str(d: u64) -> (r: &'static str)
    requires
        d < 10,
    ensures
        r@ == seq![spec_digit_char(d as int)],
{
    proof {
        reveal_strlit("0");
        reveal_strlit("1");
        reveal_strlit("2");
        reveal_strlit("3");
        reveal_strlit("4");
        reveal_strlit("5");
        reveal_strlit("6");
        reveal_strlit("7");
        reveal_strlit("8");
        reveal_strlit("9");
    }
    match d {
        0 => "0",
        1 => "1",
        2 => "2",
        3 => "3",
        4 => "4",
        5 => "5",
        6 => "6",
        7 => "7",
        8 => "8",
        _ => "9",
    }
}

/// Renders a number in decimal.
pub fn dec_string(n: u64) -> (r: String)
    ensures
        r@ == spec_dec(n as nat),
    decreases n,
{
    if n < 10 {
        let mut s = String::new();
        s.append(digit_str(n));
        proof {
            assert(s@ =~= spec_dec(n as nat));
        }
        s
    } else {
        let mut s = dec_string(n / 10);
        s.append(digit_str(n % 10));
        proof {
            assert(s@ =~= spec_dec(n as nat));
        }
        s
    }
}

/// Renders the synthesized name for the parameter at index `i`.
pub fn synth_name(i: usize) -> (r: String)
    ensures
        r@ == spec_synth_name(i as nat),
{
    let mut s = String::from_str("__p");
    s.append(dec_string(i as u64).as_str());
    s
}

pub proof fn lemma_dec_len(n: nat)
    ensures
        spec_dec(n).len() >= 1,
        n >= 10 ==> spec_dec(n).len() >= 2,
    decreases n,
{
    if n >= 10 {
        lemma_dec_len(n / 10);
    }
}

proof fn lemma_digit_char_injective(d1: int, d2: int)
    requires
        0 <= d1 < 10,
        0 <= d2 < 10,
        spec_digit_char(d1) == spec_digit_char(d2),
    ensures
        d1 == d2,
{
}

/// Two distinct numbers never render to the same decimal string, so the
/// synthesized names of distinct parameter indices never collide.
pub proof fn lemma_dec_injective(a: nat, b: nat)
    requires
        spec_dec(a) == spec_dec(b),
    ensures
        a == b,
    decreases a + b,
{
    lemma_dec_len(a);
    lemma_dec_len(b);
    if a < 10 && b < 10 {
        assert(spec_dec(a)[0] == spec_digit_char(a as int));
        assert(spec_dec(b)[0] == spec_digit_char(b as int));
        lemma_digit_char_injective(a as int, b as int);
    } else if a < 10 {
        assert(spec_dec(a).len() == 1);
        assert(spec_dec(b).len() >= 2);
    } else if b < 10 {
        assert(spec_dec(b).len() == 1);
        assert(spec_dec(a).len() >= 2);
    } else {
        let la = spec_dec(a).len();
        assert(spec_dec(a)[la - 1] == spec_digit_char((a % 10) as int));
        assert(spec_dec(b)[la - 1] == spec_digit_char((b % 10) as int));
        lemma_digit_char_injective((a % 10) as int, (b % 10) as int);
        assert(spec_dec(a / 10) =~= spec_dec(a).drop_last());
        assert(spec_dec(b / 10) =~= spec_dec(b).drop_last());
        lemma_dec_injective(a / 10, b / 10);
        lemma_fundamental_div_mod(a as int, 10);
        lemma_fundamental_div_mod(b as int, 10);
    }
}

pub proof fn lemma_synth_name_injective(i: nat, j: nat)
    requires
        spec_synth_name(i) == spec_synth_name(j),
    ensures
        i == j,
{
    assert(spec_dec(i) =~= spec_synth_name(i).skip("__p"@.len() as int));
    assert(spec_dec(j) =~= spec_synth_name(j).skip("__p"@.len() as int));
    lemma_dec_injective(i, j);
}

} // verus!
