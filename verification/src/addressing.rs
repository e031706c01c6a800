//! Variable and storage addressing conventions shared by both backends.
//!
//! Parameters occupy the first `num_param` slots of the per-function register
//! file and are named `param_<i>`; declared locals follow as `loc_<i>`;
//! temporary working slots are named `reg_<i>`.  Every helper states the exact
//! text it appends to the output buffer.

use vstd::prelude::*;
use vstd::string::StringExecFns;

verus! {

/// Concatenation of sequences is associative; as a rewriting rule this lets
/// the exact-text postconditions follow equationally from the appends that
/// built them, whatever the grouping.
pub broadcast proof fn lemma_seq_add_assoc<A>(s1: Seq<A>, s2: Seq<A>, s3: Seq<A>)
    ensures
        #[trigger] ((s1 + s2) + s3) == s1 + (s2 + s3),
{
    assert((s1 + s2) + s3 =~= s1 + (s2 + s3));
}

/// The character for one decimal digit value.
pub open spec fn digit_char(d: nat) -> char {
    if d == 0 {
        '0'
    } else if d == 1 {
        '1'
    } else if d == 2 {
        '2'
    } else if d == 3 {
        '3'
    } else if d == 4 {
        '4'
    } else if d == 5 {
        '5'
    } else if d == 6 {
        '6'
    } else if d == 7 {
        '7'
    } else if d == 8 {
        '8'
    } else {
        '9'
    }
}

/// The usual decimal rendering of `n`, without leading zeros.
pub open spec fn dec_spec(n: nat) -> Seq<char>
    decreases n,
{
    if n < 10 {
        seq![digit_char(n)]
    } else {
        dec_spec(n / 10).push(digit_char(n % 10))
    }
}

/// The name of slot `i` under `prefix`: `<prefix>_<i>`.
pub open spec fn slot_name_spec(prefix: Seq<char>, i: nat) -> Seq<char> {
    prefix + "_"@ + dec_spec(i)
}

/// The names of slots `start..end` under `prefix`, separated by `", "`.
pub open spec fn ascending_spec(prefix: Seq<char>, start: nat, end: nat) -> Seq<char>
    decreases end - start,
{
    if end <= start {
        Seq::<char>::empty()
    } else if end == start + 1 {
        slot_name_spec(prefix, start)
    } else {
        ascending_spec(prefix, start, (end - 1) as nat) + ", "@ + slot_name_spec(
            prefix,
            (end - 1) as nat,
        )
    }
}

/// `item` repeated `count` times, separated by `", "`.
pub open spec fn separated_spec(item: Seq<char>, count: nat) -> Seq<char>
    decreases count,
{
    if count == 0 {
        Seq::<char>::empty()
    } else if count == 1 {
        item
    } else {
        separated_spec(item, (count - 1) as nat) + ", "@ + item
    }
}

/// How a flat register-file slot is spelled: a parameter slot for the first
/// `num_param` indices, a declared local past them.  A trailing space follows
/// the name so that statements can be appended directly.
pub open spec fn variable_spec(var: nat, num_param: nat) -> Seq<char> {
    if var < num_param {
        slot_name_spec("param"@, var) + " "@
    } else {
        slot_name_spec("loc"@, (var - num_param) as nat) + " "@
    }
}

/// Appends the single decimal digit `d`.
pub fn push_digit(buf: &mut String, d: usize)
    requires
        d < 10,
    ensures
        final(buf)@ == old(buf)@ + seq![digit_char(d as nat)],
{
    proof {
        reveal_strlit("0");
        reveal_strlit("1");
        reveal_strlit("2");
        reveal_strlit("3");
        reveal_strlit("4");
        reveal_strlit("5");
        reveal_strlit("6");
        reveal_strlit("7");
        reveal_strlit("8");
        reveal_strlit("9");
    }
    if d == 0 {
        buf.append("0");
        assert(buf@ =~= old(buf)@ + seq![digit_char(d as nat)]);
    } else if d == 1 {
        buf.append("1");
        assert(buf@ =~= old(buf)@ + seq![digit_char(d as nat)]);
    } else if d == 2 {
        buf.append("2");
        assert(buf@ =~= old(buf)@ + seq![digit_char(d as nat)]);
    } else if d == 3 {
        buf.append("3");
        assert(buf@ =~= old(buf)@ + seq![digit_char(d as nat)]);
    } else if d == 4 {
        buf.append("4");
        assert(buf@ =~= old(buf)@ + seq![digit_char(d as nat)]);
    } else if d == 5 {
        buf.append("5");
        assert(buf@ =~= old(buf)@ + seq![digit_char(d as nat)]);
    } else if d == 6 {
        buf.append("6");
        assert(buf@ =~= old(buf)@ + seq![digit_char(d as nat)]);
    } else if d == 7 {
        buf.append("7");
        assert(buf@ =~= old(buf)@ + seq![digit_char(d as nat)]);
    } else if d == 8 {
        buf.append("8");
        assert(buf@ =~= old(buf)@ + seq![digit_char(d as nat)]);
    } else {
        buf.append("9");
        assert(buf@ =~= old(buf)@ + seq![digit_char(d as nat)]);
    }
}

/// Appends the decimal rendering of `n`.
pub fn push_dec(buf: &mut String, n: usize)
    ensures
        final(buf)@ == old(buf)@ + dec_spec(n as nat),
    decreases n,
{
    if n >= 10 {
        push_dec(buf, n / 10);
    }
    push_digit(buf, n % 10);
    proof {
        if n >= 10 {
            assert(dec_spec(n as nat) =~= dec_spec((n as nat) / 10) + seq![
                digit_char((n as nat) % 10),
            ]);
        }
    }
    assert(buf@ =~= old(buf)@ + dec_spec(n as nat));
}

/// Appends the names of slots `start..end` under `prefix`, `", "`-separated.
pub fn write_ascending(prefix: &str, start: usize, end: usize, buf: &mut String)
    ensures
        final(buf)@ == old(buf)@ + ascending_spec(prefix@, start as nat, end as nat),
{
    let mut i: usize = start;
    while i < end
        invariant
            start <= i,
            i <= end || i == start,
            buf@ == old(buf)@ + ascending_spec(prefix@, start as nat, i as nat),
        decreases end - i,
    {
        if i > start {
            buf.append(", ");
        }
        buf.append(prefix);
        buf.append("_");
        push_dec(buf, i);
        assert(buf@ =~= old(buf)@ + ascending_spec(prefix@, start as nat, (i + 1) as nat));
        i = i + 1;
    }
}

/// Appends `item` repeated `count` times, `", "`-separated.
pub fn write_separated(item: &str, count: usize, buf: &mut String)
    ensures
        final(buf)@ == old(buf)@ + separated_spec(item@, count as nat),
{
    let mut i: usize = 0;
    while i < count
        invariant
            i <= count,
            buf@ == old(buf)@ + separated_spec(item@, i as nat),
        decreases count - i,
    {
        if i > 0 {
            buf.append(", ");
        }
        buf.append(item);
        assert(buf@ =~= old(buf)@ + separated_spec(item@, (i + 1) as nat));
        i = i + 1;
    }
}

/// Appends the spelling of register-file slot `var` given the parameter count.
pub fn write_variable(var: usize, num_param: usize, buf: &mut String)
    ensures
        final(buf)@ == old(buf)@ + variable_spec(var as nat, num_param as nat),
{
    if var < num_param {
        buf.append("param");
        buf.append("_");
        push_dec(buf, var);
        buf.append(" ");
    } else {
        buf.append("loc");
        buf.append("_");
        push_dec(buf, var - num_param);
        buf.append(" ");
    }
    assert(buf@ =~= old(buf)@ + variable_spec(var as nat, num_param as nat));
}

} // verus!
