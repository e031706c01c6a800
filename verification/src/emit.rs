//! Statement emissions shared verbatim by both target dialects: calls,
//! register-file assignments, memory stores, early returns and the
//! unreachable trap.  Branch-related emission differs per dialect and lives
//! with each backend.

use vstd::prelude::*;
use vstd::string::StringExecFns;

use crate::addressing::{
    ascending_spec, dec_spec, push_dec, variable_spec, write_ascending, write_variable,
};
use crate::ast::{
    Call, CallIndirect, Expression, Return, SetGlobal, SetLocal, SetTemporary, StoreAt,
};

verus! {

/// The texts of the expressions in `l`, separated by `", "`.
pub open spec fn expr_list_text(l: Seq<Expression>) -> Seq<char>
    decreases l.len(),
{
    if l.len() == 0 {
        Seq::<char>::empty()
    } else if l.len() == 1 {
        l[0].text@
    } else {
        expr_list_text(l.drop_last()) + ", "@ + l.last().text@
    }
}

/// The ascending destination list of a call whose result slots are
/// `start..end`, or nothing when the range is empty.
pub open spec fn call_store_text(start: int, end: int) -> Seq<char> {
    if end <= start {
        Seq::<char>::empty()
    } else {
        ascending_spec("reg"@, start as nat, end as nat) + " = "@
    }
}

/// The text of a direct call.
pub open spec fn call_text(c: Call) -> Seq<char> {
    call_store_text(c.result.start as int, c.result.end as int) + "FUNC_LIST["@ + dec_spec(
        c.func as nat,
    ) + "]("@ + expr_list_text(c.param_list@) + ")"@
}

/// The text of a call through the externally indexed callable table.
pub open spec fn call_indirect_text(c: CallIndirect) -> Seq<char> {
    call_store_text(c.result.start as int, c.result.end as int) + "TABLE_LIST["@ + dec_spec(
        c.table as nat,
    ) + "].data["@ + c.index.text@ + "]("@ + expr_list_text(c.param_list@) + ")"@
}

/// The text of an assignment to a temporary register.
pub open spec fn set_temporary_text(s: SetTemporary) -> Seq<char> {
    "reg_"@ + dec_spec(s.var as nat) + " = "@ + s.value.text@
}

/// The text of an assignment to a parameter or local slot.
pub open spec fn set_local_text(s: SetLocal, num_param: nat) -> Seq<char> {
    variable_spec(s.var as nat, num_param) + "= "@ + s.value.text@
}

/// The text of an assignment to an externally indexed global.
pub open spec fn set_global_text(s: SetGlobal) -> Seq<char> {
    "GLOBAL_LIST["@ + dec_spec(s.var as nat) + "].value = "@ + s.value.text@
}

/// The text of a memory store; a zero offset is left implicit.
pub open spec fn store_at_text(s: StoreAt) -> Seq<char> {
    "store_"@ + s.what.name_spec() + "(memory_at_0, "@ + s.pointer.text@ + (if s.offset != 0 {
        "+ "@ + dec_spec(s.offset as nat)
    } else {
        Seq::<char>::empty()
    }) + ", "@ + s.value.text@ + ")"@
}

/// The text of an early return.
pub open spec fn return_text(r: Return) -> Seq<char> {
    "do return "@ + expr_list_text(r.list@) + "end "@
}

/// The text of the unreachable trap.
pub open spec fn unreachable_text() -> Seq<char> {
    "error(\"out of code bounds\")"@
}

/// Unfolds `expr_list_text` by one element from the front.
proof fn lemma_expr_list_text_take_succ(l: Seq<Expression>, i: int)
    requires
        0 <= i < l.len(),
    ensures
        expr_list_text(l.take(i + 1)) == if i == 0 {
            l[0].text@
        } else {
            expr_list_text(l.take(i)) + ", "@ + l[i].text@
        },
{
    assert(l.take(i + 1).drop_last() =~= l.take(i));
    assert(l.take(i + 1).last() == l[i]);
    if i == 0 {
        assert(l.take(1)[0] == l[0]);
    }
}

/// Appends the text of one expression, verbatim.
pub fn write_expression(e: &Expression, buf: &mut String)
    ensures
        final(buf)@ == old(buf)@ + e.text@,
{
    buf.append(e.text.as_str());
}

/// Appends the `", "`-separated texts of the expressions in `l`.
pub fn write_expression_list(l: &Vec<Expression>, buf: &mut String)
    ensures
        final(buf)@ == old(buf)@ + expr_list_text(l@),
{
    let mut i: usize = 0;
    while i < l.len()
        invariant
            i <= l@.len(),
            buf@ == old(buf)@ + expr_list_text(l@.take(i as int)),
        decreases l@.len() - i,
    {
        if i > 0 {
            buf.append(", ");
        }
        write_expression(&l[i], buf);
        proof {
            lemma_expr_list_text_take_succ(l@, i as int);
        }
        assert(buf@ =~= old(buf)@ + expr_list_text(l@.take(i + 1)));
        i = i + 1;
    }
    proof {
        assert(l@.take(l@.len() as int) =~= l@);
    }
}

/// Appends the ascending destination list of a call's result slots, or
/// nothing when the range is empty.
pub fn write_call_store(result: &core::ops::Range<usize>, buf: &mut String)
    ensures
        final(buf)@ == old(buf)@ + call_store_text(result.start as int, result.end as int),
{
    if result.end <= result.start {
        return ;
    }
    write_ascending("reg", result.start, result.end, buf);
    buf.append(" = ");
    assert(buf@ =~= old(buf)@ + call_store_text(result.start as int, result.end as int));
}

/// Appends the text of a direct call.
pub fn write_call(c: &Call, buf: &mut String)
    ensures
        final(buf)@ == old(buf)@ + call_text(*c),
{
    write_call_store(&c.result, buf);
    buf.append("FUNC_LIST[");
    push_dec(buf, c.func);
    buf.append("](");
    write_expression_list(&c.param_list, buf);
    buf.append(")");
    assert(buf@ =~= old(buf)@ + call_text(*c));
}

/// Appends the text of an indirect call.
pub fn write_call_indirect(c: &CallIndirect, buf: &mut String)
    ensures
        final(buf)@ == old(buf)@ + call_indirect_text(*c),
{
    write_call_store(&c.result, buf);
    buf.append("TABLE_LIST[");
    push_dec(buf, c.table);
    buf.append("].data[");
    write_expression(&c.index, buf);
    buf.append("](");
    write_expression_list(&c.param_list, buf);
    buf.append(")");
    assert(buf@ =~= old(buf)@ + call_indirect_text(*c));
}

/// Appends the text of an assignment to a temporary register.
pub fn write_set_temporary(s: &SetTemporary, buf: &mut String)
    ensures
        final(buf)@ == old(buf)@ + set_temporary_text(*s),
{
    buf.append("reg_");
    push_dec(buf, s.var);
    buf.append(" = ");
    write_expression(&s.value, buf);
    assert(buf@ =~= old(buf)@ + set_temporary_text(*s));
}

/// Appends the text of an assignment to a parameter or local slot.
pub fn write_set_local(s: &SetLocal, num_param: usize, buf: &mut String)
    ensures
        final(buf)@ == old(buf)@ + set_local_text(*s, num_param as nat),
{
    write_variable(s.var, num_param, buf);
    buf.append("= ");
    write_expression(&s.value, buf);
    assert(buf@ =~= old(buf)@ + set_local_text(*s, num_param as nat));
}

/// Appends the text of an assignment to a global.
pub fn write_set_global(s: &SetGlobal, buf: &mut String)
    ensures
        final(buf)@ == old(buf)@ + set_global_text(*s),
{
    buf.append("GLOBAL_LIST[");
    push_dec(buf, s.var);
    buf.append("].value = ");
    write_expression(&s.value, buf);
    assert(buf@ =~= old(buf)@ + set_global_text(*s));
}

/// Appends the text of a memory store.
pub fn write_store_at(s: &StoreAt, buf: &mut String)
    ensures
        final(buf)@ == old(buf)@ + store_at_text(*s),
{
    buf.append("store_");
    buf.append(s.what.name());
    buf.append("(memory_at_0, ");
    write_expression(&s.pointer, buf);
    if s.offset != 0 {
        buf.append("+ ");
        push_dec(buf, s.offset as usize);
    }
    buf.append(", ");
    write_expression(&s.value, buf);
    buf.append(")");
    assert(buf@ =~= old(buf)@ + store_at_text(*s));
}

/// Appends the text of an early return.
pub fn write_return(r: &Return, buf: &mut String)
    ensures
        final(buf)@ == old(buf)@ + return_text(*r),
{
    buf.append("do return ");
    write_expression_list(&r.list, buf);
    buf.append("end ");
    assert(buf@ =~= old(buf)@ + return_text(*r));
}

/// Appends the text of the unreachable trap.
pub fn write_unreachable(buf: &mut String)
    ensures
        final(buf)@ == old(buf)@ + unreachable_text(),
{
    buf.append("error(\"out of code bounds\")");
}

} // verus!
