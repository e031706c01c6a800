//! The structured-only backend: lowers the statement tree for a target
//! dialect that offers only block-scoped `break`/`continue` on loop-like
//! constructs and no labeled jump.
//!
//! Every `Forward`, `Backward` and `If` is wrapped in a single-iteration loop
//! purely so it gains a native exit primitive.  A branch of depth `0` lowers
//! directly to the innermost wrapper's native `break` (or `continue` for a
//! `Backward`).  A non-local branch writes the shared sentinel `desired` to
//! the target frame's depth and breaks the innermost wrapper; after each
//! wrapper a post-check emitted on behalf of the enclosing frame absorbs the
//! sentinel when it names that frame — re-entering it when loop-like,
//! breaking out of it otherwise — and re-raises the signal by breaking again
//! when it does not.  Branch tables become a runtime lookup of the target
//! depth followed by the same sentinel relay, with the depth-`0` fast path
//! kept.

use vstd::prelude::*;
use vstd::string::StringExecFns;

use crate::addressing::{
    ascending_spec, dec_spec, push_dec, separated_spec, write_ascending, write_separated,
};
use crate::ast::{
    Backward, BrIf, BrTable, Forward, FuncData, If, LocalRun, Statement, Terminator, ValueType,
};
use crate::emit::{
    call_indirect_text, call_text, return_text, set_global_text, set_local_text,
    set_temporary_text, store_at_text, unreachable_text, write_call, write_call_indirect,
    write_expression, write_return, write_set_global, write_set_local, write_set_temporary,
    write_store_at, write_unreachable,
};

verus! {

broadcast use crate::addressing::lemma_seq_add_assoc;

/// What kind of wrapper a scope frame is: only `Backward` wrappers are
/// loop-like and support a native `continue`.
#[derive(Clone, Copy, PartialEq, Eq, Structural)]
pub enum Label {
    Forward,
    Backward,
    If,
}

/// The scope stack of the structured-only lowering: the kinds of the active
/// wrapper frames, innermost last, plus the function's parameter count.
pub struct Manager {
    pub label_list: Vec<Label>,
    pub num_param: usize,
}

impl Manager {
    /// A fresh manager with no active frames.
    pub fn new() -> (m: Manager)
        ensures
            m.label_list@ == Seq::<Label>::empty(),
            m.num_param == 0,
    {
        let m = Manager { label_list: Vec::new(), num_param: 0 };
        proof {
            assert(m.label_list@ =~= Seq::<Label>::empty());
        }
        m
    }

    /// Enters a wrapper of the given kind; returns the new frame's depth.
    pub fn push_label(&mut self, label: Label) -> (rem: usize)
        ensures
            rem == old(self).label_list@.len(),
            final(self).label_list@ == old(self).label_list@.push(label),
            final(self).num_param == old(self).num_param,
    {
        let rem = self.label_list.len();
        self.label_list.push(label);
        rem
    }

    /// Exits the most recently entered wrapper, in strict LIFO order.
    pub fn pop_label(&mut self)
        requires
            old(self).label_list@.len() > 0,
        ensures
            final(self).label_list@ == old(self).label_list@.drop_last(),
            final(self).num_param == old(self).num_param,
    {
        let _ = self.label_list.pop();
    }
}

/// Well-formedness of a branch-table node at `depth` active frames.
pub open spec fn ok_br_table(bt: BrTable, depth: nat) -> bool {
    &&& bt.default < depth
    &&& forall|j: int| 0 <= j < bt.table@.len() ==> bt.table@[j] < depth
}

/// Well-formedness of a block tail at `depth` active frames.
pub open spec fn ok_term(t: Terminator, depth: nat) -> bool {
    match t {
        Terminator::Unreachable => true,
        Terminator::Br(b) => b.target < depth,
        Terminator::BrTable(bt) => ok_br_table(bt, depth),
    }
}

/// Well-formedness of a statement at `depth` active frames.  In this dialect
/// `Forward`, `Backward` and `If` all open a frame.
pub open spec fn ok_stmt(s: Statement, depth: nat) -> bool
    decreases s,
{
    match s {
        Statement::Forward(f) => ok_list(f.body@, depth + 1) && match f.tail {
            Some(t) => ok_term(t, depth + 1),
            None => true,
        },
        Statement::Backward(b) => ok_list(b.body@, depth + 1) && match b.tail {
            Some(t) => ok_term(t, depth + 1),
            None => true,
        },
        Statement::If(i) => ok_list(i.truthy@, depth + 1) && match i.falsey {
            Some(fl) => ok_list(fl@, depth + 1),
            None => true,
        },
        Statement::Br(b) => b.target < depth,
        Statement::BrIf(b) => b.target < depth,
        Statement::BrTable(bt) => ok_br_table(bt, depth),
        _ => true,
    }
}

/// Well-formedness of a statement sequence at `depth` active frames.
pub open spec fn ok_list(l: Seq<Statement>, depth: nat) -> bool
    decreases l,
{
    if l.len() == 0 {
        true
    } else {
        ok_list(l.drop_last(), depth) && ok_stmt(l.last(), depth)
    }
}

/// The post-check a wrapper emits on behalf of the enclosing frame at depth
/// `level`: absorb a sentinel naming that frame — clearing it and re-entering
/// the frame when it is loop-like — and re-raise any other sentinel by
/// breaking again.
pub open spec fn br_target_text(level: int, in_loop: bool) -> Seq<char> {
    "if desired then "@ + "if desired == "@ + dec_spec(level as nat) + " then "@
        + "desired = nil "@ + (if in_loop {
        "continue "@
    } else {
        Seq::<char>::empty()
    }) + "end "@ + "break "@ + "end "@
}

/// The post-check emitted after a wrapper, given the frames still active
/// around it: nothing at the outermost level, otherwise the check on behalf
/// of the now-innermost frame.
pub open spec fn gadget_text(labels: Seq<Label>) -> Seq<char> {
    if labels.len() == 0 {
        Seq::<char>::empty()
    } else {
        br_target_text(labels.len() - 1, labels.last() == Label::Backward)
    }
}

/// The lowering of a branch of relative depth `up`: the innermost wrapper's
/// native exit for depth `0`, otherwise a sentinel write naming the target
/// frame followed by a break of the innermost wrapper.
pub open spec fn br_at_text(labels: Seq<Label>, up: int) -> Seq<char> {
    "do "@ + (if up == 0 {
        if labels.last() == Label::Backward {
            "continue "@
        } else {
            "break "@
        }
    } else {
        "desired = "@ + dec_spec((labels.len() - 1 - up) as nat) + " "@ + "break "@
    }) + "end "@
}

/// The lowering of a conditional branch.
pub open spec fn br_if_text(b: BrIf, labels: Seq<Label>) -> Seq<char> {
    "if "@ + b.cond.text@ + "~= 0 then "@ + br_at_text(labels, b.target as int) + "end "@
}

/// The entries of the runtime lookup table, each a relative depth already
/// resolved to its absolute frame depth.
pub open spec fn entries_text(table: Seq<u32>, depth: int) -> Seq<char>
    decreases table.len(),
{
    if table.len() == 0 {
        Seq::<char>::empty()
    } else {
        entries_text(table.drop_last(), depth) + dec_spec((depth - 1 - table.last()) as nat)
            + ", "@
    }
}

/// The lowering of a branch table.  An empty table drops the side-effect-free
/// discriminant and lowers exactly like a plain branch to the default.
/// Otherwise the discriminant selects an absolute target depth from a lookup
/// table (falling back to the default), the depth-`0` fast path is kept at
/// runtime, and any other depth enters the sentinel relay.
pub open spec fn br_table_text(bt: BrTable, labels: Seq<Label>) -> Seq<char> {
    if bt.table@.len() == 0 {
        br_at_text(labels, bt.default as int)
    } else {
        "do local temp = {[0] = "@ + entries_text(bt.table@, labels.len() as int) + "} "@
            + "desired = temp["@ + bt.cond.text@ + "] or "@ + dec_spec(
            (labels.len() - 1 - bt.default) as nat,
        ) + " "@ + "if desired == "@ + dec_spec((labels.len() - 1) as nat)
            + " then desired = nil "@ + (if labels.last() == Label::Backward {
            "continue "@
        } else {
            "break "@
        }) + "else break end "@ + "end "@
    }
}

/// The lowering of a block tail.
pub open spec fn term_text(t: Terminator, labels: Seq<Label>) -> Seq<char> {
    match t {
        Terminator::Unreachable => unreachable_text(),
        Terminator::Br(b) => br_at_text(labels, b.target as int),
        Terminator::BrTable(bt) => br_table_text(bt, labels),
    }
}

/// The lowering of one statement, given the active frame kinds and the
/// parameter count.
pub open spec fn stmt_text(s: Statement, labels: Seq<Label>, np: nat) -> Seq<char>
    decreases s,
{
    match s {
        Statement::Forward(f) => "while true do "@ + list_text(
            f.body@,
            labels.push(Label::Forward),
            np,
        ) + match f.tail {
            Some(t) => term_text(t, labels.push(Label::Forward)),
            None => Seq::<char>::empty(),
        } + "break "@ + "end "@ + gadget_text(labels),
        Statement::Backward(b) => "while true do "@ + list_text(
            b.body@,
            labels.push(Label::Backward),
            np,
        ) + match b.tail {
            Some(t) => term_text(t, labels.push(Label::Backward)),
            None => Seq::<char>::empty(),
        } + "break "@ + "end "@ + gadget_text(labels),
        Statement::If(i) => "while true do "@ + "if "@ + i.cond.text@ + "~= 0 then "@ + list_text(
            i.truthy@,
            labels.push(Label::If),
            np,
        ) + match i.falsey {
            Some(fl) => "else "@ + list_text(fl@, labels.push(Label::If), np),
            None => Seq::<char>::empty(),
        } + "end "@ + "break "@ + "end "@ + gadget_text(labels),
        Statement::Br(b) => br_at_text(labels, b.target as int),
        Statement::BrIf(b) => br_if_text(b, labels),
        Statement::BrTable(bt) => br_table_text(bt, labels),
        Statement::Call(c) => call_text(c),
        Statement::CallIndirect(c) => call_indirect_text(c),
        Statement::SetTemporary(st) => set_temporary_text(st),
        Statement::SetLocal(sl) => set_local_text(sl, np),
        Statement::SetGlobal(sg) => set_global_text(sg),
        Statement::StoreAt(sa) => store_at_text(sa),
        Statement::Return(r) => return_text(r),
        Statement::Unreachable => unreachable_text(),
    }
}

/// The lowering of a statement sequence, in order.
pub open spec fn list_text(l: Seq<Statement>, labels: Seq<Label>, np: nat) -> Seq<char>
    decreases l,
{
    if l.len() == 0 {
        Seq::<char>::empty()
    } else {
        list_text(l.drop_last(), labels, np) + stmt_text(l.last(), labels, np)
    }
}

/// Where control settles once the sentinel relay has run its course, given
/// that the wrapper at depth `i` has just exited with the sentinel naming
/// frame `s`.  Each post-check — the one `write_br_gadget` emits after that
/// wrapper, on behalf of the frame at depth `i - 1` — either absorbs the
/// sentinel, when it names that frame (re-entering a loop-like frame,
/// breaking out of any other), or re-raises it by breaking again, so the
/// next wrapper out exits with the sentinel unchanged.  The result is the
/// depth of the frame where control resumes, paired with whether that frame
/// is re-entered (true) or fallen out of (false).
pub open spec fn relay_resume(frames: Seq<Label>, i: int, s: int) -> (int, bool)
    decreases i,
{
    if i <= 0 || s >= i - 1 {
        (s, 0 <= s < frames.len() && frames[s] == Label::Backward)
    } else {
        relay_resume(frames, i - 1, s)
    }
}

/// The sentinel relay reaches exactly the frame a non-local branch names.
///
/// A branch of relative depth `up > 0` writes the sentinel to the target
/// frame's depth and breaks the innermost wrapper; relaying outward from
/// there, every intermediate post-check re-raises, and the target frame's
/// own post-check absorbs: control re-enters the target when it is
/// loop-like (`Backward`) and falls out past it otherwise — the same
/// next-statement position that direct branch semantics prescribe.  (A
/// depth-`0` branch takes the native fast path of `br_at_text` with no
/// sentinel at all.)
pub proof fn lemma_relay_reaches_branch_target(frames: Seq<Label>, up: int)
    requires
        0 < up < frames.len(),
    ensures
        relay_resume(frames, frames.len() - 1, frames.len() - 1 - up) == (
            frames.len() - 1 - up,
            frames[frames.len() - 1 - up] == Label::Backward,
        ),
{
    lemma_relay_step(frames, frames.len() - 1, frames.len() - 1 - up);
}

/// Relaying from any wrapper strictly outside the sentinel's target settles
/// at the target.
proof fn lemma_relay_step(frames: Seq<Label>, i: int, s: int)
    requires
        0 <= s < i < frames.len(),
    ensures
        relay_resume(frames, i, s) == (s, frames[s] == Label::Backward),
    decreases i,
{
    if s < i - 1 {
        lemma_relay_step(frames, i - 1, s);
    }
}

/// Every element of a well-formed sequence is well formed.
proof fn lemma_ok_list_index(l: Seq<Statement>, depth: nat, i: int)
    requires
        ok_list(l, depth),
        0 <= i < l.len(),
    ensures
        ok_stmt(l[i], depth),
    decreases l.len(),
{
    if i == l.len() - 1 {
    } else {
        assert(l.drop_last()[i] == l[i]);
        lemma_ok_list_index(l.drop_last(), depth, i);
    }
}

/// Unfolds the lowering of a prefix by one statement.
proof fn lemma_list_text_take_succ(l: Seq<Statement>, labels: Seq<Label>, np: nat, i: int)
    requires
        0 <= i < l.len(),
    ensures
        list_text(l.take(i + 1), labels, np) == list_text(l.take(i), labels, np) + stmt_text(
            l[i],
            labels,
            np,
        ),
{
    assert(l.take(i + 1).drop_last() =~= l.take(i));
    assert(l.take(i + 1).last() == l[i]);
}

/// Appends the post-check on behalf of the frame at depth `level`.
pub fn br_target(level: usize, in_loop: bool, buf: &mut String)
    ensures
        final(buf)@ == old(buf)@ + br_target_text(level as int, in_loop),
{
    buf.append("if desired then ");
    buf.append("if desired == ");
    push_dec(buf, level);
    buf.append(" then ");
    buf.append("desired = nil ");
    if in_loop {
        buf.append("continue ");
    }
    buf.append("end ");
    buf.append("break ");
    buf.append("end ");
    assert(buf@ == old(buf)@ + br_target_text(level as int, in_loop));
}

/// Appends the post-check after a wrapper whose frame was at depth `rem`,
/// given the frames still active around it: nothing at the outermost level,
/// otherwise the check on behalf of the enclosing frame, loop-like when that
/// frame is a `Backward`.
pub fn write_br_gadget(label_list: &Vec<Label>, rem: usize, buf: &mut String)
    requires
        rem == label_list@.len(),
    ensures
        final(buf)@ == old(buf)@ + gadget_text(label_list@),
{
    if label_list.len() == 0 {
        return ;
    }
    match &label_list[label_list.len() - 1] {
        Label::Forward | Label::If => br_target(rem - 1, false, buf),
        Label::Backward => br_target(rem - 1, true, buf),
    }
}

/// Appends the lowering of a branch of relative depth `up`: the native exit
/// of the innermost wrapper for depth `0`, otherwise the sentinel write and
/// relay.
pub fn write_br_at(up: usize, mng: &Manager, buf: &mut String)
    requires
        up < mng.label_list@.len(),
    ensures
        final(buf)@ == old(buf)@ + br_at_text(mng.label_list@, up as int),
{
    buf.append("do ");
    if up == 0 {
        match &mng.label_list[mng.label_list.len() - 1] {
            Label::Backward => buf.append("continue "),
            _ => buf.append("break "),
        }
    } else {
        buf.append("desired = ");
        push_dec(buf, mng.label_list.len() - 1 - up);
        buf.append(" ");
        buf.append("break ");
    }
    buf.append("end ");
    assert(buf@ == old(buf)@ + br_at_text(mng.label_list@, up as int));
}

/// Appends the lowering of a conditional branch.
pub fn write_br_if(b: &BrIf, mng: &Manager, buf: &mut String)
    requires
        b.target < mng.label_list@.len(),
    ensures
        final(buf)@ == old(buf)@ + br_if_text(*b, mng.label_list@),
{
    buf.append("if ");
    write_expression(&b.cond, buf);
    buf.append("~= 0 then ");
    write_br_at(b.target, mng, buf);
    buf.append("end ");
    assert(buf@ == old(buf)@ + br_if_text(*b, mng.label_list@));
}

/// Appends the lowering of a branch table: nothing but the plain branch to
/// the default for an empty table, otherwise the runtime lookup and relay.
#[verifier::rlimit(100)]
pub fn write_br_table(bt: &BrTable, mng: &Manager, buf: &mut String)
    requires
        ok_br_table(*bt, mng.label_list@.len() as nat),
    ensures
        final(buf)@ == old(buf)@ + br_table_text(*bt, mng.label_list@),
{
    if bt.table.len() == 0 {
        write_br_at(bt.default as usize, mng, buf);
        assert(buf@ == old(buf)@ + br_table_text(*bt, mng.label_list@));
        return ;
    }
    let depth = mng.label_list.len();
    buf.append("do local temp = {[0] = ");
    let ghost pre = buf@;
    let mut j: usize = 0;
    while j < bt.table.len()
        invariant
            j <= bt.table@.len(),
            depth == mng.label_list@.len(),
            ok_br_table(*bt, depth as nat),
            buf@ == pre + entries_text(bt.table@.take(j as int), depth as int),
        decreases bt.table@.len() - j,
    {
        let d = bt.table[j];
        push_dec(buf, depth - 1 - d as usize);
        buf.append(", ");
        proof {
            assert(bt.table@.take(j + 1).drop_last() =~= bt.table@.take(j as int));
            assert(bt.table@.take(j + 1).last() == bt.table@[j as int]);
        }
        assert(buf@ == pre + entries_text(bt.table@.take(j + 1), depth as int));
        j = j + 1;
    }
    proof {
        assert(bt.table@.take(bt.table@.len() as int) =~= bt.table@);
    }
    buf.append("} ");
    let ghost head = "do local temp = {[0] = "@ + entries_text(bt.table@, depth as int) + "} "@;
    assert(buf@ == old(buf)@ + head);
    buf.append("desired = temp[");
    write_expression(&bt.cond, buf);
    buf.append("] or ");
    push_dec(buf, depth - 1 - bt.default as usize);
    buf.append(" ");
    buf.append("if desired == ");
    push_dec(buf, depth - 1);
    buf.append(" then desired = nil ");
    match &mng.label_list[depth - 1] {
        Label::Backward => buf.append("continue "),
        _ => buf.append("break "),
    }
    buf.append("else break end ");
    buf.append("end ");
    proof {
        assert(mng.label_list@.last() == mng.label_list@[depth - 1]);
        assert(br_table_text(*bt, mng.label_list@) == head + "desired = temp["@ + bt.cond.text@
            + "] or "@ + dec_spec((depth - 1 - bt.default) as nat) + " "@ + "if desired == "@
            + dec_spec((depth - 1) as nat) + " then desired = nil "@ + (
        if mng.label_list@.last() == Label::Backward {
            "continue "@
        } else {
            "break "@
        }) + "else break end "@ + "end "@);
    }
    assert(buf@ == old(buf)@ + br_table_text(*bt, mng.label_list@));
}

/// Appends the lowering of a block tail.
pub fn write_terminator(t: &Terminator, mng: &Manager, buf: &mut String)
    requires
        ok_term(*t, mng.label_list@.len() as nat),
    ensures
        final(buf)@ == old(buf)@ + term_text(*t, mng.label_list@),
{
    match t {
        Terminator::Unreachable => write_unreachable(buf),
        Terminator::Br(b) => write_br_at(b.target, mng, buf),
        Terminator::BrTable(bt) => write_br_table(bt, mng, buf),
    }
}

/// Appends the lowering of one statement.  The frame stack is restored on
/// return.
pub fn write_statement(s: &Statement, mng: &mut Manager, buf: &mut String)
    requires
        ok_stmt(*s, old(mng).label_list@.len() as nat),
    ensures
        final(mng).label_list@ == old(mng).label_list@,
        final(mng).num_param == old(mng).num_param,
        final(buf)@ == old(buf)@ + stmt_text(
            *s,
            old(mng).label_list@,
            old(mng).num_param as nat,
        ),
    decreases *s,
{
    match s {
        Statement::Forward(f) => write_forward(f, mng, buf),
        Statement::Backward(b) => write_backward(b, mng, buf),
        Statement::If(i) => write_if(i, mng, buf),
        Statement::Br(b) => write_br_at(b.target, mng, buf),
        Statement::BrIf(b) => write_br_if(b, mng, buf),
        Statement::BrTable(bt) => write_br_table(bt, mng, buf),
        Statement::Call(c) => write_call(c, buf),
        Statement::CallIndirect(c) => write_call_indirect(c, buf),
        Statement::SetTemporary(st) => write_set_temporary(st, buf),
        Statement::SetLocal(sl) => write_set_local(sl, mng.num_param, buf),
        Statement::SetGlobal(sg) => write_set_global(sg, buf),
        Statement::StoreAt(sa) => write_store_at(sa, buf),
        Statement::Return(r) => write_return(r, buf),
        Statement::Unreachable => write_unreachable(buf),
    }
}

/// Appends the lowering of a statement sequence, in order.
pub fn write_statement_list(l: &Vec<Statement>, mng: &mut Manager, buf: &mut String)
    requires
        ok_list(l@, old(mng).label_list@.len() as nat),
    ensures
        final(mng).label_list@ == old(mng).label_list@,
        final(mng).num_param == old(mng).num_param,
        final(buf)@ == old(buf)@ + list_text(
            l@,
            old(mng).label_list@,
            old(mng).num_param as nat,
        ),
    decreases l,
{
    let ghost labels0 = old(mng).label_list@;
    let ghost np0 = old(mng).num_param as nat;
    let mut i: usize = 0;
    while i < l.len()
        invariant
            i <= l@.len(),
            ok_list(l@, labels0.len() as nat),
            mng.label_list@ == labels0,
            mng.num_param == np0,
            buf@ == old(buf)@ + list_text(l@.take(i as int), labels0, np0),
        decreases l@.len() - i,
    {
        proof {
            lemma_ok_list_index(l@, labels0.len() as nat, i as int);
            lemma_list_text_take_succ(l@, labels0, np0, i as int);
        }
        write_statement(&l[i], mng, buf);
        assert(buf@ == old(buf)@ + list_text(l@.take(i + 1), labels0, np0));
        i = i + 1;
    }
    proof {
        assert(l@.take(l@.len() as int) =~= l@);
    }
}

/// Appends the lowering of a `Forward` block: a single-iteration wrapper
/// around the body and optional tail, then the post-check on behalf of the
/// enclosing frame.
pub fn write_forward(f: &Forward, mng: &mut Manager, buf: &mut String)
    requires
        ok_stmt(Statement::Forward(*f), old(mng).label_list@.len() as nat),
    ensures
        final(mng).label_list@ == old(mng).label_list@,
        final(mng).num_param == old(mng).num_param,
        final(buf)@ == old(buf)@ + stmt_text(
            Statement::Forward(*f),
            old(mng).label_list@,
            old(mng).num_param as nat,
        ),
    decreases *f,
{
    let rem = mng.push_label(Label::Forward);
    buf.append("while true do ");
    write_statement_list(&f.body, mng, buf);
    if let Some(t) = &f.tail {
        write_terminator(t, mng, buf);
    }
    buf.append("break ");
    buf.append("end ");
    mng.pop_label();
    proof {
        assert(old(mng).label_list@.push(Label::Forward).drop_last() =~= old(mng).label_list@);
    }
    write_br_gadget(&mng.label_list, rem, buf);
    assert(buf@ == old(buf)@ + stmt_text(
        Statement::Forward(*f),
        old(mng).label_list@,
        old(mng).num_param as nat,
    ));
}

/// Appends the lowering of a `Backward` loop: a loop-like wrapper around the
/// body and optional tail, then the post-check on behalf of the enclosing
/// frame.  A depth-`0` branch inside re-enters via the wrapper's native
/// `continue`.
pub fn write_backward(b: &Backward, mng: &mut Manager, buf: &mut String)
    requires
        ok_stmt(Statement::Backward(*b), old(mng).label_list@.len() as nat),
    ensures
        final(mng).label_list@ == old(mng).label_list@,
        final(mng).num_param == old(mng).num_param,
        final(buf)@ == old(buf)@ + stmt_text(
            Statement::Backward(*b),
            old(mng).label_list@,
            old(mng).num_param as nat,
        ),
    decreases *b,
{
    let rem = mng.push_label(Label::Backward);
    buf.append("while true do ");
    write_statement_list(&b.body, mng, buf);
    if let Some(t) = &b.tail {
        write_terminator(t, mng, buf);
    }
    buf.append("break ");
    buf.append("end ");
    mng.pop_label();
    proof {
        assert(old(mng).label_list@.push(Label::Backward).drop_last() =~= old(mng).label_list@);
    }
    write_br_gadget(&mng.label_list, rem, buf);
    assert(buf@ == old(buf)@ + stmt_text(
        Statement::Backward(*b),
        old(mng).label_list@,
        old(mng).num_param as nat,
    ));
}

/// Appends the lowering of an `If`: a single-iteration wrapper around the
/// guarded bodies — so a depth-`0` branch in either arm can exit via the
/// wrapper's native `break` — then the post-check on behalf of the enclosing
/// frame.
pub fn write_if(i: &If, mng: &mut Manager, buf: &mut String)
    requires
        ok_stmt(Statement::If(*i), old(mng).label_list@.len() as nat),
    ensures
        final(mng).label_list@ == old(mng).label_list@,
        final(mng).num_param == old(mng).num_param,
        final(buf)@ == old(buf)@ + stmt_text(
            Statement::If(*i),
            old(mng).label_list@,
            old(mng).num_param as nat,
        ),
    decreases *i,
{
    let rem = mng.push_label(Label::If);
    buf.append("while true do ");
    buf.append("if ");
    write_expression(&i.cond, buf);
    buf.append("~= 0 then ");
    write_statement_list(&i.truthy, mng, buf);
    if let Some(fl) = &i.falsey {
        buf.append("else ");
        write_statement_list(fl, mng, buf);
    }
    buf.append("end ");
    buf.append("break ");
    buf.append("end ");
    mng.pop_label();
    proof {
        assert(old(mng).label_list@.push(Label::If).drop_last() =~= old(mng).label_list@);
    }
    write_br_gadget(&mng.label_list, rem, buf);
    assert(buf@ == old(buf)@ + stmt_text(
        Statement::If(*i),
        old(mng).label_list@,
        old(mng).num_param as nat,
    ));
}

/// The canonical zero literal of a value type in this dialect.
pub open spec fn zero_text(t: ValueType) -> Seq<char> {
    match t {
        ValueType::I32 => "ZERO_i32"@,
        ValueType::I64 => "ZERO_i64"@,
        ValueType::F32 => "ZERO_f32"@,
        ValueType::F64 => "ZERO_f64"@,
    }
}

/// The total number of declared locals in the runs of `runs`.
pub open spec fn local_total(runs: Seq<LocalRun>) -> nat
    decreases runs.len(),
{
    if runs.len() == 0 {
        0
    } else {
        (local_total(runs.drop_last()) + runs.last().count) as nat
    }
}

/// The declarations of the local runs, each zero-initialized, numbered
/// consecutively across runs.
pub open spec fn locals_text(runs: Seq<LocalRun>) -> Seq<char>
    decreases runs.len(),
{
    if runs.len() == 0 {
        Seq::<char>::empty()
    } else {
        locals_text(runs.drop_last()) + "local "@ + ascending_spec(
            "loc"@,
            local_total(runs.drop_last()),
            local_total(runs),
        ) + " = "@ + separated_spec(zero_text(runs.last().value_type), runs.last().count as nat)
            + " "@
    }
}

/// The declaration of the temporary working slots, left uninitialized.
pub open spec fn stack_text(num_stack: nat) -> Seq<char> {
    if num_stack == 0 {
        Seq::<char>::empty()
    } else {
        "local "@ + ascending_spec("reg"@, 0, num_stack) + " "@
    }
}

/// The positional parameter binding of the function header.
pub open spec fn parameter_list_text(num_param: nat) -> Seq<char> {
    "function("@ + ascending_spec("param"@, 0, num_param) + ")"@
}

/// The whole lowering of one function in this dialect; the shared sentinel
/// is declared absent before the code.
pub open spec fn func_data_text(f: FuncData) -> Seq<char> {
    parameter_list_text(f.num_param as nat) + locals_text(f.local_data@) + stack_text(
        f.num_stack as nat,
    ) + "local desired "@ + list_text(f.code@, Seq::<Label>::empty(), f.num_param as nat)
        + "end "@
}

/// Unfolds the locals declarations by one run, and bounds the running total.
proof fn lemma_locals_take_succ(runs: Seq<LocalRun>, i: int)
    requires
        0 <= i < runs.len(),
    ensures
        local_total(runs.take(i + 1)) == local_total(runs.take(i)) + runs[i].count,
        locals_text(runs.take(i + 1)) == locals_text(runs.take(i)) + "local "@ + ascending_spec(
            "loc"@,
            local_total(runs.take(i)),
            (local_total(runs.take(i)) + runs[i].count) as nat,
        ) + " = "@ + separated_spec(zero_text(runs[i].value_type), runs[i].count as nat) + " "@,
{
    assert(runs.take(i + 1).drop_last() =~= runs.take(i));
    assert(runs.take(i + 1).last() == runs[i]);
}

/// A prefix of the local runs never declares more locals than all of them.
proof fn lemma_local_total_take_le(runs: Seq<LocalRun>, i: int)
    requires
        0 <= i <= runs.len(),
    ensures
        local_total(runs.take(i)) <= local_total(runs),
    decreases runs.len() - i,
{
    if i == runs.len() {
        assert(runs.take(i) =~= runs);
    } else {
        lemma_locals_take_succ(runs, i);
        lemma_local_total_take_le(runs, i + 1);
    }
}

/// Appends the function header binding the parameters positionally.
pub fn write_parameter_list(f: &FuncData, buf: &mut String)
    ensures
        final(buf)@ == old(buf)@ + parameter_list_text(f.num_param as nat),
{
    buf.append("function(");
    write_ascending("param", 0, f.num_param, buf);
    buf.append(")");
    assert(buf@ == old(buf)@ + parameter_list_text(f.num_param as nat));
}

/// Appends the declared locals, grouped into contiguous same-type runs and
/// zero-initialized, followed by the uninitialized temporary slots.
#[verifier::rlimit(60)]
pub fn write_variable_list(f: &FuncData, buf: &mut String)
    requires
        local_total(f.local_data@) <= usize::MAX,
    ensures
        final(buf)@ == old(buf)@ + locals_text(f.local_data@) + stack_text(f.num_stack as nat),
{
    let mut total: usize = 0;
    let mut i: usize = 0;
    while i < f.local_data.len()
        invariant
            i <= f.local_data@.len(),
            local_total(f.local_data@) <= usize::MAX,
            total == local_total(f.local_data@.take(i as int)),
            buf@ == old(buf)@ + locals_text(f.local_data@.take(i as int)),
        decreases f.local_data@.len() - i,
    {
        proof {
            lemma_locals_take_succ(f.local_data@, i as int);
            lemma_local_total_take_le(f.local_data@, i + 1);
        }
        let run = &f.local_data[i];
        let zero: &str = match run.value_type {
            ValueType::I32 => "ZERO_i32",
            ValueType::I64 => "ZERO_i64",
            ValueType::F32 => "ZERO_f32",
            ValueType::F64 => "ZERO_f64",
        };
        buf.append("local ");
        write_ascending("loc", total, total + run.count as usize, buf);
        buf.append(" = ");
        write_separated(zero, run.count as usize, buf);
        buf.append(" ");
        total = total + run.count as usize;
        assert(buf@ == old(buf)@ + locals_text(f.local_data@.take(i + 1)));
        i = i + 1;
    }
    proof {
        assert(f.local_data@.take(f.local_data@.len() as int) =~= f.local_data@);
    }
    if f.num_stack != 0 {
        buf.append("local ");
        write_ascending("reg", 0, f.num_stack, buf);
        buf.append(" ");
    }
    assert(buf@ == old(buf)@ + locals_text(f.local_data@) + stack_text(f.num_stack as nat));
}

/// Appends the whole lowering of one function: header, zero-initialized
/// locals, uninitialized temporaries, the absent sentinel, and the code.
#[verifier::rlimit(80)]
pub fn write_func_data(f: &FuncData, mng: &mut Manager, buf: &mut String)
    requires
        old(mng).label_list@.len() == 0,
        ok_list(f.code@, 0),
        local_total(f.local_data@) <= usize::MAX,
    ensures
        final(mng).label_list@ == old(mng).label_list@,
        final(mng).num_param == f.num_param,
        final(buf)@ == old(buf)@ + func_data_text(*f),
{
    write_parameter_list(f, buf);
    write_variable_list(f, buf);
    buf.append("local desired ");
    mng.num_param = f.num_param;
    write_statement_list(&f.code, mng, buf);
    buf.append("end ");
    proof {
        assert(old(mng).label_list@ =~= Seq::<Label>::empty());
    }
    assert(buf@ == old(buf)@ + func_data_text(*f));
}

} // verus!
