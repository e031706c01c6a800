//! The goto-capable backend: lowers the statement tree for a target dialect
//! with unrestricted labeled jumps.
//!
//! Each `Forward` and `Backward` construct pushes a fresh, never-reused label
//! onto the scope stack and anchors it — at the block's exit for `Forward`,
//! at the loop's entry for `Backward` — so a branch of relative depth `up`
//! lowers to one direct jump to the label of the frame `up` levels out.
//! Branch tables lower to a condensed chain of guarded jumps.  `If`
//! introduces no label: its exit is ordinary fall-through, and branches into
//! an `If` arm count only the enclosing `Forward`/`Backward` frames.

use vstd::prelude::*;
use vstd::string::StringExecFns;

use crate::addressing::{
    ascending_spec, dec_spec, push_dec, separated_spec, slot_name_spec, write_ascending,
    write_separated,
};
use crate::ast::{
    Backward, BrIf, BrTable, Forward, FuncData, If, LocalRun, Statement, Terminator, ValueType,
};
use crate::condense::{condense_jump_table, is_condensation, the_condensation};
use crate::emit::{
    call_indirect_text, call_text, return_text, set_global_text, set_local_text,
    set_temporary_text, store_at_text, unreachable_text, write_call, write_call_indirect,
    write_expression, write_return, write_set_global, write_set_local, write_set_temporary,
    write_store_at, write_unreachable,
};

verus! {

broadcast use crate::addressing::lemma_seq_add_assoc;

/// The scope stack of the goto-capable lowering: the labels of the active
/// `Forward`/`Backward` frames, innermost last, plus the label counter and
/// the function's parameter count.  Labels are assigned at push time from a
/// monotonically increasing counter and are never reused after a pop.
pub struct Manager {
    pub label_list: Vec<usize>,
    pub next_label: usize,
    pub num_param: usize,
}

impl Manager {
    /// A fresh manager with no active frames.
    #[verifier::spinoff_prover]
    pub fn new() -> (m: Manager)
        ensures
            m.label_list@ == Seq::<usize>::empty(),
            m.next_label == 0,
            m.num_param == 0,
    {
        let m = Manager { label_list: Vec::new(), next_label: 0, num_param: 0 };
        proof {
            assert(m.label_list@ =~= Seq::<usize>::empty());
        }
        m
    }

    /// Enters a block: appends a frame carrying a fresh label and returns
    /// that label.
    #[verifier::spinoff_prover]
    pub fn push_label(&mut self) -> (label: usize)
        requires
            old(self).next_label < usize::MAX,
        ensures
            label == old(self).next_label,
            final(self).label_list@ == old(self).label_list@.push(old(self).next_label),
            final(self).next_label == old(self).next_label + 1,
            final(self).num_param == old(self).num_param,
    {
        let label = self.next_label;
        self.label_list.push(label);
        self.next_label = self.next_label + 1;
        label
    }

    /// Exits the most recently entered block, in strict LIFO order.
    #[verifier::spinoff_prover]
    pub fn pop_label(&mut self)
        requires
            old(self).label_list@.len() > 0,
        ensures
            final(self).label_list@ == old(self).label_list@.drop_last(),
            final(self).next_label == old(self).next_label,
            final(self).num_param == old(self).num_param,
    {
        let _ = self.label_list.pop();
    }
}

/// How many labels lowering `s` consumes: one per `Forward`/`Backward` node.
pub open spec fn used_stmt(s: Statement) -> nat
    decreases s,
{
    match s {
        Statement::Forward(f) => 1 + used_list(f.body@),
        Statement::Backward(b) => 1 + used_list(b.body@),
        Statement::If(i) => used_list(i.truthy@) + match i.falsey {
            Some(fl) => used_list(fl@),
            None => 0nat,
        },
        _ => 0,
    }
}

/// How many labels lowering the sequence `l` consumes.
pub open spec fn used_list(l: Seq<Statement>) -> nat
    decreases l,
{
    if l.len() == 0 {
        0
    } else {
        used_list(l.drop_last()) + used_stmt(l.last())
    }
}

/// Well-formedness of a branch-table node at `depth` active frames.
pub open spec fn ok_br_table(bt: BrTable, depth: nat) -> bool {
    &&& bt.default < depth
    &&& forall|j: int| 0 <= j < bt.table@.len() ==> bt.table@[j] < depth
}

/// Well-formedness of a block tail at `depth` active frames.
pub open spec fn ok_term(t: Terminator, depth: nat) -> bool {
    match t {
        Terminator::Unreachable => true,
        Terminator::Br(b) => b.target < depth,
        Terminator::BrTable(bt) => ok_br_table(bt, depth),
    }
}

/// Well-formedness of a statement at `depth` active frames: every branch
/// depth, at the point it executes, is strictly less than the number of
/// enclosing frames.  In this dialect only `Forward` and `Backward` open a
/// frame.
pub open spec fn ok_stmt(s: Statement, depth: nat) -> bool
    decreases s,
{
    match s {
        Statement::Forward(f) => ok_list(f.body@, depth + 1) && match f.tail {
            Some(t) => ok_term(t, depth + 1),
            None => true,
        },
        Statement::Backward(b) => ok_list(b.body@, depth + 1) && match b.tail {
            Some(t) => ok_term(t, depth + 1),
            None => true,
        },
        Statement::If(i) => ok_list(i.truthy@, depth) && match i.falsey {
            Some(fl) => ok_list(fl@, depth),
            None => true,
        },
        Statement::Br(b) => b.target < depth,
        Statement::BrIf(b) => b.target < depth,
        Statement::BrTable(bt) => ok_br_table(bt, depth),
        _ => true,
    }
}

/// Well-formedness of a statement sequence at `depth` active frames.
pub open spec fn ok_list(l: Seq<Statement>, depth: nat) -> bool
    decreases l,
{
    if l.len() == 0 {
        true
    } else {
        ok_list(l.drop_last(), depth) && ok_stmt(l.last(), depth)
    }
}

/// The direct jump a branch of relative depth `up` lowers to: a `goto` to
/// the label of the frame `up` levels out from the innermost.
pub open spec fn br_at_text(labels: Seq<usize>, up: int) -> Seq<char> {
    "goto continue_at_"@ + dec_spec(labels[labels.len() - 1 - up] as nat) + " "@
}

/// The label anchor of frame `label`.
pub open spec fn anchor_text(label: int) -> Seq<char> {
    "::continue_at_"@ + dec_spec(label as nat) + "::"@
}

/// One guarded jump of a condensed branch-table chain: an equality test for
/// a single-value run, an inclusive range test otherwise.
pub open spec fn run_text(run: (usize, usize, u32), labels: Seq<usize>) -> Seq<char> {
    (if run.0 == run.1 {
        "if temp == "@ + dec_spec(run.0 as nat) + " then "@
    } else {
        "if temp >= "@ + dec_spec(run.0 as nat) + " and temp <= "@ + dec_spec(run.1 as nat)
            + " then "@
    }) + br_at_text(labels, run.2 as int) + "else"@
}

/// The guarded jumps of a condensed branch-table chain, in run order.
pub open spec fn chain_text(runs: Seq<(usize, usize, u32)>, labels: Seq<usize>) -> Seq<char>
    decreases runs.len(),
{
    if runs.len() == 0 {
        Seq::<char>::empty()
    } else {
        chain_text(runs.drop_last(), labels) + run_text(runs.last(), labels)
    }
}

/// The lowering of a branch table.  An empty table drops the side-effect-free
/// discriminant and jumps straight to the default; otherwise the discriminant
/// is bound to the scratch value and a condensed chain of guarded jumps falls
/// through to an unconditional jump to the default.
pub open spec fn br_table_text(bt: BrTable, labels: Seq<usize>) -> Seq<char> {
    if bt.table@.len() == 0 {
        br_at_text(labels, bt.default as int)
    } else {
        "temp = "@ + bt.cond.text@ + chain_text(the_condensation(bt.table@), labels) + " "@
            + br_at_text(labels, bt.default as int) + "end "@
    }
}

/// The lowering of a block tail.
pub open spec fn term_text(t: Terminator, labels: Seq<usize>) -> Seq<char> {
    match t {
        Terminator::Unreachable => unreachable_text(),
        Terminator::Br(b) => br_at_text(labels, b.target as int),
        Terminator::BrTable(bt) => br_table_text(bt, labels),
    }
}

/// The lowering of a conditional branch, folded into a guard around a jump.
pub open spec fn br_if_text(b: BrIf, labels: Seq<usize>) -> Seq<char> {
    "if "@ + b.cond.text@ + "~= 0 then "@ + br_at_text(labels, b.target as int) + "end "@
}

/// The lowering of one statement, given the active label stack, the label
/// counter and the parameter count.
pub open spec fn stmt_text(s: Statement, labels: Seq<usize>, next: int, np: nat) -> Seq<char>
    decreases s,
{
    match s {
        Statement::Forward(f) => list_text(f.body@, labels.push(next as usize), next + 1, np)
            + match f.tail {
            Some(t) => term_text(t, labels.push(next as usize)),
            None => Seq::<char>::empty(),
        } + anchor_text(next),
        Statement::Backward(b) => anchor_text(next) + "while true do "@ + list_text(
            b.body@,
            labels.push(next as usize),
            next + 1,
            np,
        ) + match b.tail {
            Some(t) => term_text(t, labels.push(next as usize)),
            None => Seq::<char>::empty(),
        } + "break "@ + "end "@,
        Statement::If(i) => "if "@ + i.cond.text@ + "~= 0 then "@ + list_text(
            i.truthy@,
            labels,
            next,
            np,
        ) + match i.falsey {
            Some(fl) => "else "@ + list_text(fl@, labels, next + used_list(i.truthy@), np),
            None => Seq::<char>::empty(),
        } + "end "@,
        Statement::Br(b) => br_at_text(labels, b.target as int),
        Statement::BrIf(b) => br_if_text(b, labels),
        Statement::BrTable(bt) => br_table_text(bt, labels),
        Statement::Call(c) => call_text(c),
        Statement::CallIndirect(c) => call_indirect_text(c),
        Statement::SetTemporary(st) => set_temporary_text(st),
        Statement::SetLocal(sl) => set_local_text(sl, np),
        Statement::SetGlobal(sg) => set_global_text(sg),
        Statement::StoreAt(sa) => store_at_text(sa),
        Statement::Return(r) => return_text(r),
        Statement::Unreachable => unreachable_text(),
    }
}

/// The lowering of a statement sequence, in order, threading the label
/// counter left to right.
pub open spec fn list_text(l: Seq<Statement>, labels: Seq<usize>, next: int, np: nat) -> Seq<char>
    decreases l,
{
    if l.len() == 0 {
        Seq::<char>::empty()
    } else {
        list_text(l.drop_last(), labels, next, np) + stmt_text(
            l.last(),
            labels,
            next + used_list(l.drop_last()),
            np,
        )
    }
}

/// The text of a direct jump to `label`; `br_at_text` is exactly this, at
/// the label of the frame the branch names.
pub open spec fn goto_text(label: int) -> Seq<char> {
    "goto continue_at_"@ + dec_spec(label as nat) + " "@
}

/// A branch of relative depth `up` lowers to one direct jump to the label of
/// the frame `up` levels out from the innermost — a label belonging to an
/// ancestor scope active at the branch's position.
pub proof fn lemma_br_targets_active(labels: Seq<usize>, up: int)
    requires
        0 <= up < labels.len(),
    ensures
        br_at_text(labels, up) == goto_text(labels[labels.len() - 1 - up] as int),
        labels.contains(labels[labels.len() - 1 - up]),
{
    let t = labels.len() - 1 - up;
    assert(labels[t] == labels[t]);
    assert(labels.contains(labels[t]));
}

/// The labels anchored by the lowering of `s`, in emission order: at the
/// exit of each `Forward`, at the entry of each `Backward`, nowhere else.
pub open spec fn anchors_stmt(s: Statement, next: int) -> Seq<int>
    decreases s,
{
    match s {
        Statement::Forward(f) => anchors_list(f.body@, next + 1) + seq![next],
        Statement::Backward(b) => seq![next] + anchors_list(b.body@, next + 1),
        Statement::If(i) => anchors_list(i.truthy@, next) + match i.falsey {
            Some(fl) => anchors_list(fl@, next + used_list(i.truthy@)),
            None => Seq::<int>::empty(),
        },
        _ => Seq::<int>::empty(),
    }
}

/// The labels anchored by the lowering of the sequence `l`, in order.
pub open spec fn anchors_list(l: Seq<Statement>, next: int) -> Seq<int>
    decreases l,
{
    if l.len() == 0 {
        Seq::<int>::empty()
    } else {
        anchors_list(l.drop_last(), next) + anchors_stmt(
            l.last(),
            next + used_list(l.drop_last()),
        )
    }
}

/// The lowering of a statement emits exactly one label anchor per `Forward`
/// or `Backward` node in it: as many anchors as labels consumed.
pub proof fn lemma_anchor_count_stmt(s: Statement, next: int)
    ensures
        anchors_stmt(s, next).len() == used_stmt(s),
    decreases s,
{
    match s {
        Statement::Forward(f) => lemma_anchor_count_list(f.body@, next + 1),
        Statement::Backward(b) => lemma_anchor_count_list(b.body@, next + 1),
        Statement::If(i) => {
            lemma_anchor_count_list(i.truthy@, next);
            match i.falsey {
                Some(fl) => lemma_anchor_count_list(fl@, next + used_list(i.truthy@)),
                None => (),
            }
        },
        _ => (),
    }
}

/// The lowering of a statement sequence emits exactly one label anchor per
/// `Forward` or `Backward` node in it.
pub proof fn lemma_anchor_count_list(l: Seq<Statement>, next: int)
    ensures
        anchors_list(l, next).len() == used_list(l),
    decreases l,
{
    if l.len() != 0 {
        lemma_anchor_count_list(l.drop_last(), next);
        lemma_anchor_count_stmt(l.last(), next + used_list(l.drop_last()));
    }
}

/// The anchors of a statement all carry labels from the window the lowering
/// consumes: `[next, next + used)`.
#[verifier::spinoff_prover]
pub proof fn lemma_anchor_range_stmt(s: Statement, next: int)
    ensures
        forall|k: int|
            0 <= k < anchors_stmt(s, next).len() ==> next <= #[trigger] anchors_stmt(s, next)[k]
                < next + used_stmt(s),
    decreases s,
{
    let a = anchors_stmt(s, next);
    match s {
        Statement::Forward(f) => {
            let inner = anchors_list(f.body@, next + 1);
            lemma_anchor_range_list(f.body@, next + 1);
            assert forall|k: int| 0 <= k < a.len() implies next <= #[trigger] a[k] < next
                + used_stmt(s) by {
                if k < inner.len() {
                    assert(a[k] == inner[k]);
                } else {
                    assert(a[k] == next);
                }
            }
        },
        Statement::Backward(b) => {
            let inner = anchors_list(b.body@, next + 1);
            lemma_anchor_range_list(b.body@, next + 1);
            assert forall|k: int| 0 <= k < a.len() implies next <= #[trigger] a[k] < next
                + used_stmt(s) by {
                if k == 0 {
                    assert(a[k] == next);
                } else {
                    assert(a[k] == inner[k - 1]);
                }
            }
        },
        Statement::If(i) => {
            let t = anchors_list(i.truthy@, next);
            lemma_anchor_range_list(i.truthy@, next);
            match i.falsey {
                Some(fl) => {
                    let e = anchors_list(fl@, next + used_list(i.truthy@));
                    lemma_anchor_range_list(fl@, next + used_list(i.truthy@));
                    lemma_anchor_count_list(i.truthy@, next);
                    assert forall|k: int| 0 <= k < a.len() implies next <= #[trigger] a[k] < next
                        + used_stmt(s) by {
                        if k < t.len() {
                            assert(a[k] == t[k]);
                        } else {
                            assert(a[k] == e[k - t.len()]);
                        }
                    }
                },
                None => {
                    assert(a =~= t);
                },
            }
        },
        _ => (),
    }
}

/// The anchors of a statement sequence all carry labels from the window the
/// lowering consumes.
#[verifier::spinoff_prover]
pub proof fn lemma_anchor_range_list(l: Seq<Statement>, next: int)
    ensures
        forall|k: int|
            0 <= k < anchors_list(l, next).len() ==> next <= #[trigger] anchors_list(l, next)[k]
                < next + used_list(l),
    decreases l,
{
    if l.len() != 0 {
        let a = anchors_list(l, next);
        let front = anchors_list(l.drop_last(), next);
        let back = anchors_stmt(l.last(), next + used_list(l.drop_last()));
        lemma_anchor_range_list(l.drop_last(), next);
        lemma_anchor_range_stmt(l.last(), next + used_list(l.drop_last()));
        assert forall|k: int| 0 <= k < a.len() implies next <= #[trigger] a[k] < next + used_list(
            l,
        ) by {
            if k < front.len() {
                assert(a[k] == front[k]);
            } else {
                assert(a[k] == back[k - front.len()]);
            }
        }
    }
}

/// No two frames ever share a label: the anchors a statement's lowering
/// emits are pairwise distinct.
#[verifier::spinoff_prover]
pub proof fn lemma_anchor_unique_stmt(s: Statement, next: int)
    ensures
        anchors_stmt(s, next).no_duplicates(),
    decreases s,
{
    match s {
        Statement::Forward(f) => {
            lemma_anchor_unique_list(f.body@, next + 1);
            lemma_anchor_range_list(f.body@, next + 1);
        },
        Statement::Backward(b) => {
            lemma_anchor_unique_list(b.body@, next + 1);
            lemma_anchor_range_list(b.body@, next + 1);
        },
        Statement::If(i) => {
            lemma_anchor_unique_list(i.truthy@, next);
            lemma_anchor_range_list(i.truthy@, next);
            match i.falsey {
                Some(fl) => {
                    lemma_anchor_unique_list(fl@, next + used_list(i.truthy@));
                    lemma_anchor_range_list(fl@, next + used_list(i.truthy@));
                },
                None => (),
            }
        },
        _ => (),
    }
}

/// No two frames ever share a label: the anchors a statement sequence's
/// lowering emits are pairwise distinct.
#[verifier::spinoff_prover]
pub proof fn lemma_anchor_unique_list(l: Seq<Statement>, next: int)
    ensures
        anchors_list(l, next).no_duplicates(),
    decreases l,
{
    if l.len() != 0 {
        lemma_anchor_unique_list(l.drop_last(), next);
        lemma_anchor_range_list(l.drop_last(), next);
        lemma_anchor_unique_stmt(l.last(), next + used_list(l.drop_last()));
        lemma_anchor_range_stmt(l.last(), next + used_list(l.drop_last()));
    }
}

/// Every element of a well-formed sequence is well formed.
proof fn lemma_ok_list_index(l: Seq<Statement>, depth: nat, i: int)
    requires
        ok_list(l, depth),
        0 <= i < l.len(),
    ensures
        ok_stmt(l[i], depth),
    decreases l.len(),
{
    if i == l.len() - 1 {
    } else {
        assert(l.drop_last()[i] == l[i]);
        lemma_ok_list_index(l.drop_last(), depth, i);
    }
}

/// A prefix never consumes more labels than the whole sequence.
proof fn lemma_used_take_le(l: Seq<Statement>, i: int)
    requires
        0 <= i <= l.len(),
    ensures
        used_list(l.take(i)) <= used_list(l),
    decreases l.len() - i,
{
    if i == l.len() {
        assert(l.take(i) =~= l);
    } else {
        assert(l.take(i + 1).drop_last() =~= l.take(i));
        assert(l.take(i + 1).last() == l[i]);
        lemma_used_take_le(l, i + 1);
    }
}

/// Unfolds the lowering of a prefix by one statement.
proof fn lemma_list_text_take_succ(l: Seq<Statement>, labels: Seq<usize>, next: int, np: nat, i: int)
    requires
        0 <= i < l.len(),
    ensures
        list_text(l.take(i + 1), labels, next, np) == list_text(l.take(i), labels, next, np)
            + stmt_text(l[i], labels, next + used_list(l.take(i)), np),
        used_list(l.take(i + 1)) == used_list(l.take(i)) + used_stmt(l[i]),
{
    assert(l.take(i + 1).drop_last() =~= l.take(i));
    assert(l.take(i + 1).last() == l[i]);
}

/// Appends the direct jump for a branch of relative depth `up`.
#[verifier::spinoff_prover]
pub fn write_br_at(up: usize, mng: &Manager, buf: &mut String)
    requires
        up < mng.label_list@.len(),
    ensures
        final(buf)@ == old(buf)@ + br_at_text(mng.label_list@, up as int),
{
    let level: usize = mng.label_list[mng.label_list.len() - 1 - up];
    buf.append("goto continue_at_");
    push_dec(buf, level);
    buf.append(" ");
    assert(buf@ =~= old(buf)@ + br_at_text(mng.label_list@, up as int));
}

/// Appends the lowering of a branch table: nothing but the default jump for
/// an empty table, otherwise the condensed chain of guarded jumps.
#[verifier::rlimit(100)]
#[verifier::spinoff_prover]
pub fn write_br_table(bt: &BrTable, mng: &Manager, buf: &mut String)
    requires
        ok_br_table(*bt, mng.label_list@.len() as nat),
    ensures
        final(buf)@ == old(buf)@ + br_table_text(*bt, mng.label_list@),
{
    if bt.table.len() == 0 {
        write_br_at(bt.default as usize, mng, buf);
        assert(buf@ =~= old(buf)@ + br_table_text(*bt, mng.label_list@));
        return ;
    }
    buf.append("temp = ");
    write_expression(&bt.cond, buf);
    let runs = condense_jump_table(bt.table.as_slice());
    let ghost pre = buf@;
    let mut k: usize = 0;
    while k < runs.len()
        invariant
            k <= runs@.len(),
            is_condensation(bt.table@, runs@),
            ok_br_table(*bt, mng.label_list@.len() as nat),
            buf@ == pre + chain_text(runs@.take(k as int), mng.label_list@),
        decreases runs@.len() - k,
    {
        let run = runs[k];
        if run.0 == run.1 {
            buf.append("if temp == ");
            push_dec(buf, run.0);
            buf.append(" then ");
        } else {
            buf.append("if temp >= ");
            push_dec(buf, run.0);
            buf.append(" and temp <= ");
            push_dec(buf, run.1);
            buf.append(" then ");
        }
        proof {
            assert(bt.table@[runs@[k as int].0 as int] == runs@[k as int].2);
        }
        write_br_at(run.2 as usize, mng, buf);
        buf.append("else");
        proof {
            assert(runs@.take(k + 1).drop_last() =~= runs@.take(k as int));
            assert(runs@.take(k + 1).last() == runs@[k as int]);
        }
        assert(buf@ == pre + chain_text(runs@.take(k + 1), mng.label_list@));
        k = k + 1;
    }
    proof {
        assert(runs@.take(runs@.len() as int) =~= runs@);
    }
    buf.append(" ");
    write_br_at(bt.default as usize, mng, buf);
    buf.append("end ");
    assert(buf@ == old(buf)@ + br_table_text(*bt, mng.label_list@));
}

/// Appends the lowering of a block tail.
#[verifier::spinoff_prover]
pub fn write_terminator(t: &Terminator, mng: &Manager, buf: &mut String)
    requires
        ok_term(*t, mng.label_list@.len() as nat),
    ensures
        final(buf)@ == old(buf)@ + term_text(*t, mng.label_list@),
{
    match t {
        Terminator::Unreachable => write_unreachable(buf),
        Terminator::Br(b) => write_br_at(b.target, mng, buf),
        Terminator::BrTable(bt) => write_br_table(bt, mng, buf),
    }
}

/// Appends the lowering of a conditional branch, folded into `If` + jump.
#[verifier::spinoff_prover]
pub fn write_br_if(b: &BrIf, mng: &Manager, buf: &mut String)
    requires
        b.target < mng.label_list@.len(),
    ensures
        final(buf)@ == old(buf)@ + br_if_text(*b, mng.label_list@),
{
    buf.append("if ");
    write_expression(&b.cond, buf);
    buf.append("~= 0 then ");
    write_br_at(b.target, mng, buf);
    buf.append("end ");
    assert(buf@ =~= old(buf)@ + br_if_text(*b, mng.label_list@));
}

/// Appends the lowering of one statement.  The label stack is restored on
/// return; the label counter advances by the number of blocks lowered.
#[verifier::spinoff_prover]
pub fn write_statement(s: &Statement, mng: &mut Manager, buf: &mut String)
    requires
        ok_stmt(*s, old(mng).label_list@.len() as nat),
        old(mng).next_label + used_stmt(*s) <= usize::MAX,
    ensures
        final(mng).label_list@ == old(mng).label_list@,
        final(mng).next_label == old(mng).next_label + used_stmt(*s),
        final(mng).num_param == old(mng).num_param,
        final(buf)@ == old(buf)@ + stmt_text(
            *s,
            old(mng).label_list@,
            old(mng).next_label as int,
            old(mng).num_param as nat,
        ),
    decreases *s,
{
    match s {
        Statement::Forward(f) => write_forward(f, mng, buf),
        Statement::Backward(b) => write_backward(b, mng, buf),
        Statement::If(i) => write_if(i, mng, buf),
        Statement::Br(b) => write_br_at(b.target, mng, buf),
        Statement::BrIf(b) => write_br_if(b, mng, buf),
        Statement::BrTable(bt) => write_br_table(bt, mng, buf),
        Statement::Call(c) => write_call(c, buf),
        Statement::CallIndirect(c) => write_call_indirect(c, buf),
        Statement::SetTemporary(st) => write_set_temporary(st, buf),
        Statement::SetLocal(sl) => write_set_local(sl, mng.num_param, buf),
        Statement::SetGlobal(sg) => write_set_global(sg, buf),
        Statement::StoreAt(sa) => write_store_at(sa, buf),
        Statement::Return(r) => write_return(r, buf),
        Statement::Unreachable => write_unreachable(buf),
    }
}

/// Appends the lowering of a statement sequence, in order.
#[verifier::spinoff_prover]
pub fn write_statement_list(l: &Vec<Statement>, mng: &mut Manager, buf: &mut String)
    requires
        ok_list(l@, old(mng).label_list@.len() as nat),
        old(mng).next_label + used_list(l@) <= usize::MAX,
    ensures
        final(mng).label_list@ == old(mng).label_list@,
        final(mng).next_label == old(mng).next_label + used_list(l@),
        final(mng).num_param == old(mng).num_param,
        final(buf)@ == old(buf)@ + list_text(
            l@,
            old(mng).label_list@,
            old(mng).next_label as int,
            old(mng).num_param as nat,
        ),
    decreases l,
{
    let ghost labels0 = old(mng).label_list@;
    let ghost next0 = old(mng).next_label as int;
    let ghost np0 = old(mng).num_param as nat;
    let mut i: usize = 0;
    while i < l.len()
        invariant
            i <= l@.len(),
            ok_list(l@, labels0.len() as nat),
            next0 + used_list(l@) <= usize::MAX,
            mng.label_list@ == labels0,
            mng.next_label == next0 + used_list(l@.take(i as int)),
            mng.num_param == np0,
            buf@ == old(buf)@ + list_text(l@.take(i as int), labels0, next0, np0),
        decreases l@.len() - i,
    {
        proof {
            lemma_ok_list_index(l@, labels0.len() as nat, i as int);
            lemma_list_text_take_succ(l@, labels0, next0, np0, i as int);
            lemma_used_take_le(l@, i + 1);
        }
        write_statement(&l[i], mng, buf);
        assert(buf@ =~= old(buf)@ + list_text(l@.take(i + 1), labels0, next0, np0));
        i = i + 1;
    }
    proof {
        assert(l@.take(l@.len() as int) =~= l@);
    }
}

/// Appends the lowering of a `Forward` block: the body and optional tail
/// under a fresh frame, then the frame's label anchor at the exit, so a
/// branch of depth `0` jumps to the exit — matching fall-through.
#[verifier::spinoff_prover]
pub fn write_forward(f: &Forward, mng: &mut Manager, buf: &mut String)
    requires
        ok_stmt(Statement::Forward(*f), old(mng).label_list@.len() as nat),
        old(mng).next_label + used_stmt(Statement::Forward(*f)) <= usize::MAX,
    ensures
        final(mng).label_list@ == old(mng).label_list@,
        final(mng).next_label == old(mng).next_label + used_stmt(Statement::Forward(*f)),
        final(mng).num_param == old(mng).num_param,
        final(buf)@ == old(buf)@ + stmt_text(
            Statement::Forward(*f),
            old(mng).label_list@,
            old(mng).next_label as int,
            old(mng).num_param as nat,
        ),
    decreases *f,
{
    let label = mng.push_label();
    write_statement_list(&f.body, mng, buf);
    if let Some(t) = &f.tail {
        write_terminator(t, mng, buf);
    }
    buf.append("::continue_at_");
    push_dec(buf, label);
    buf.append("::");
    mng.pop_label();
    proof {
        assert(old(mng).label_list@.push(label).drop_last() =~= old(mng).label_list@);
    }
    assert(buf@ == old(buf)@ + stmt_text(
        Statement::Forward(*f),
        old(mng).label_list@,
        old(mng).next_label as int,
        old(mng).num_param as nat,
    ));
}

/// Appends the lowering of a `Backward` loop: the frame's label anchor at
/// the entry, before an unconditional loop wrapper around the body and
/// optional tail, so a branch of depth `0` jumps to the anchor and restarts
/// the loop.
#[verifier::spinoff_prover]
pub fn write_backward(b: &Backward, mng: &mut Manager, buf: &mut String)
    requires
        ok_stmt(Statement::Backward(*b), old(mng).label_list@.len() as nat),
        old(mng).next_label + used_stmt(Statement::Backward(*b)) <= usize::MAX,
    ensures
        final(mng).label_list@ == old(mng).label_list@,
        final(mng).next_label == old(mng).next_label + used_stmt(Statement::Backward(*b)),
        final(mng).num_param == old(mng).num_param,
        final(buf)@ == old(buf)@ + stmt_text(
            Statement::Backward(*b),
            old(mng).label_list@,
            old(mng).next_label as int,
            old(mng).num_param as nat,
        ),
    decreases *b,
{
    let label = mng.push_label();
    buf.append("::continue_at_");
    push_dec(buf, label);
    buf.append("::");
    buf.append("while true do ");
    write_statement_list(&b.body, mng, buf);
    if let Some(t) = &b.tail {
        write_terminator(t, mng, buf);
    }
    buf.append("break ");
    buf.append("end ");
    mng.pop_label();
    proof {
        assert(old(mng).label_list@.push(label).drop_last() =~= old(mng).label_list@);
    }
    assert(buf@ == old(buf)@ + stmt_text(
        Statement::Backward(*b),
        old(mng).label_list@,
        old(mng).next_label as int,
        old(mng).num_param as nat,
    ));
}

/// Appends the lowering of an `If`: one or two bodies guarded by a
/// truthiness test; no label is introduced, the exit is fall-through.
#[verifier::spinoff_prover]
pub fn write_if(i: &If, mng: &mut Manager, buf: &mut String)
    requires
        ok_stmt(Statement::If(*i), old(mng).label_list@.len() as nat),
        old(mng).next_label + used_stmt(Statement::If(*i)) <= usize::MAX,
    ensures
        final(mng).label_list@ == old(mng).label_list@,
        final(mng).next_label == old(mng).next_label + used_stmt(Statement::If(*i)),
        final(mng).num_param == old(mng).num_param,
        final(buf)@ == old(buf)@ + stmt_text(
            Statement::If(*i),
            old(mng).label_list@,
            old(mng).next_label as int,
            old(mng).num_param as nat,
        ),
    decreases *i,
{
    buf.append("if ");
    write_expression(&i.cond, buf);
    buf.append("~= 0 then ");
    write_statement_list(&i.truthy, mng, buf);
    if let Some(fl) = &i.falsey {
        buf.append("else ");
        write_statement_list(fl, mng, buf);
    }
    buf.append("end ");
    assert(buf@ =~= old(buf)@ + stmt_text(
        Statement::If(*i),
        old(mng).label_list@,
        old(mng).next_label as int,
        old(mng).num_param as nat,
    ));
}

/// The canonical zero literal of a value type in this dialect.
pub open spec fn zero_text(t: ValueType) -> Seq<char> {
    match t {
        ValueType::I64 => "0LL"@,
        _ => "0"@,
    }
}

/// The total number of declared locals in the runs of `runs`.
pub open spec fn local_total(runs: Seq<LocalRun>) -> nat
    decreases runs.len(),
{
    if runs.len() == 0 {
        0
    } else {
        (local_total(runs.drop_last()) + runs.last().count) as nat
    }
}

/// The declarations of the local runs, each zero-initialized, numbered
/// consecutively across runs.
pub open spec fn locals_text(runs: Seq<LocalRun>) -> Seq<char>
    decreases runs.len(),
{
    if runs.len() == 0 {
        Seq::<char>::empty()
    } else {
        locals_text(runs.drop_last()) + "local "@ + ascending_spec(
            "loc"@,
            local_total(runs.drop_last()),
            local_total(runs),
        ) + " = "@ + separated_spec(zero_text(runs.last().value_type), runs.last().count as nat)
            + " "@
    }
}

/// The declaration of the temporary working slots, left uninitialized.
pub open spec fn stack_text(num_stack: nat) -> Seq<char> {
    if num_stack == 0 {
        Seq::<char>::empty()
    } else {
        "local "@ + ascending_spec("reg"@, 0, num_stack) + " "@
    }
}

/// The names of the trailing `count` of `end` temporary slots, in ascending
/// order and `", "`-separated: `reg_{end-count}, ..., reg_{end-1}`.
pub open spec fn trailing_regs(end: nat, count: nat) -> Seq<char>
    decreases count,
{
    if count == 0 {
        Seq::<char>::empty()
    } else if count == 1 {
        slot_name_spec("reg"@, (end - 1) as nat)
    } else {
        trailing_regs((end - 1) as nat, (count - 1) as nat) + ", "@ + slot_name_spec(
            "reg"@,
            (end - 1) as nat,
        )
    }
}

/// Appends the names of the trailing `count` of `end` temporary slots.
#[verifier::spinoff_prover]
fn write_trailing_regs(end: usize, count: usize, buf: &mut String)
    requires
        count <= end,
    ensures
        final(buf)@ == old(buf)@ + trailing_regs(end as nat, count as nat),
{
    let start: usize = end - count;
    proof {
        assert(old(buf)@ + trailing_regs(start as nat, 0) =~= old(buf)@);
    }
    let mut i: usize = start;
    while i < end
        invariant
            start <= i,
            i <= end || i == start,
            start == end - count,
            buf@ == old(buf)@ + trailing_regs(i as nat, (i - start) as nat),
        decreases end - i,
    {
        if i > start {
            buf.append(", ");
        }
        buf.append("reg");
        buf.append("_");
        push_dec(buf, i);
        assert(buf@ =~= old(buf)@ + trailing_regs((i + 1) as nat, (i + 1 - start) as nat));
        i = i + 1;
    }
}

/// The positional parameter binding of the function header.
pub open spec fn parameter_list_text(num_param: nat) -> Seq<char> {
    "function("@ + ascending_spec("param"@, 0, num_param) + ")"@
}

/// The whole lowering of one function, starting the label counter at `next`.
pub open spec fn func_data_text(f: FuncData, next: int) -> Seq<char> {
    parameter_list_text(f.num_param as nat) + locals_text(f.local_data@) + stack_text(
        f.num_stack as nat,
    ) + "local temp "@ + list_text(f.code@, Seq::<usize>::empty(), next, f.num_param as nat) + (
    if f.num_result != 0 {
        "return "@ + trailing_regs(f.num_stack as nat, f.num_result as nat) + " "@
    } else {
        Seq::<char>::empty()
    }) + "end "@
}

/// Unfolds the locals declarations by one run, and bounds the running total.
proof fn lemma_locals_take_succ(runs: Seq<LocalRun>, i: int)
    requires
        0 <= i < runs.len(),
    ensures
        local_total(runs.take(i + 1)) == local_total(runs.take(i)) + runs[i].count,

        locals_text(runs.take(i + 1)) == locals_text(runs.take(i)) + "local "@ + ascending_spec(
            "loc"@,
            local_total(runs.take(i)),
            (local_total(runs.take(i)) + runs[i].count) as nat,
        ) + " = "@ + separated_spec(zero_text(runs[i].value_type), runs[i].count as nat) + " "@,
{
    assert(runs.take(i + 1).drop_last() =~= runs.take(i));
    assert(runs.take(i + 1).last() == runs[i]);
}

/// A prefix of the local runs never declares more locals than all of them.
proof fn lemma_local_total_take_le(runs: Seq<LocalRun>, i: int)
    requires
        0 <= i <= runs.len(),
    ensures
        local_total(runs.take(i)) <= local_total(runs),
    decreases runs.len() - i,
{
    if i == runs.len() {
        assert(runs.take(i) =~= runs);
    } else {
        lemma_locals_take_succ(runs, i);
        lemma_local_total_take_le(runs, i + 1);
    }
}

/// Appends the function header binding the parameters positionally.
#[verifier::spinoff_prover]
pub fn write_parameter_list(f: &FuncData, buf: &mut String)
    ensures
        final(buf)@ == old(buf)@ + parameter_list_text(f.num_param as nat),
{
    buf.append("function(");
    write_ascending("param", 0, f.num_param, buf);
    buf.append(")");
    assert(buf@ =~= old(buf)@ + parameter_list_text(f.num_param as nat));
}

/// Appends the declared locals, grouped into contiguous same-type runs and
/// zero-initialized, followed by the uninitialized temporary slots.
#[verifier::rlimit(60)]
#[verifier::spinoff_prover]
pub fn write_variable_list(f: &FuncData, buf: &mut String)
    requires
        local_total(f.local_data@) <= usize::MAX,
    ensures
        final(buf)@ == old(buf)@ + locals_text(f.local_data@) + stack_text(f.num_stack as nat),
{
    let mut total: usize = 0;
    let mut i: usize = 0;
    while i < f.local_data.len()
        invariant
            i <= f.local_data@.len(),
            local_total(f.local_data@) <= usize::MAX,
            total == local_total(f.local_data@.take(i as int)),
            buf@ == old(buf)@ + locals_text(f.local_data@.take(i as int)),
        decreases f.local_data@.len() - i,
    {
        proof {
            lemma_locals_take_succ(f.local_data@, i as int);
            lemma_local_total_take_le(f.local_data@, i + 1);
        }
        let run = &f.local_data[i];
        let zero: &str = match run.value_type {
            ValueType::I64 => "0LL",
            _ => "0",
        };
        buf.append("local ");
        write_ascending("loc", total, total + run.count as usize, buf);
        buf.append(" = ");
        write_separated(zero, run.count as usize, buf);
        buf.append(" ");
        total = total + run.count as usize;
        assert(buf@ =~= old(buf)@ + locals_text(f.local_data@.take(i + 1)));
        i = i + 1;
    }
    proof {
        assert(f.local_data@.take(f.local_data@.len() as int) =~= f.local_data@);
    }
    if f.num_stack != 0 {
        buf.append("local ");
        write_ascending("reg", 0, f.num_stack, buf);
        buf.append(" ");
    }
    assert(buf@ =~= old(buf)@ + locals_text(f.local_data@) + stack_text(f.num_stack as nat));
}

/// Appends the whole lowering of one function: header, zero-initialized
/// locals, uninitialized temporaries, the scratch value, the code, and — when
/// the dialect owes a result — an explicit return of the trailing `num_result`
/// temporary slots.
#[verifier::rlimit(80)]
#[verifier::spinoff_prover]
pub fn write_func_data(f: &FuncData, mng: &mut Manager, buf: &mut String)
    requires
        old(mng).label_list@.len() == 0,
        ok_list(f.code@, 0),
        old(mng).next_label + used_list(f.code@) <= usize::MAX,
        local_total(f.local_data@) <= usize::MAX,
        f.num_result <= f.num_stack,
    ensures
        final(mng).label_list@ == old(mng).label_list@,
        final(mng).next_label == old(mng).next_label + used_list(f.code@),
        final(mng).num_param == f.num_param,
        final(buf)@ == old(buf)@ + func_data_text(*f, old(mng).next_label as int),
{
    write_parameter_list(f, buf);
    write_variable_list(f, buf);
    buf.append("local temp ");
    mng.num_param = f.num_param;
    write_statement_list(&f.code, mng, buf);
    if f.num_result != 0 {
        buf.append("return ");
        write_trailing_regs(f.num_stack, f.num_result, buf);
        buf.append(" ");
    }
    buf.append("end ");
    proof {
        assert(old(mng).label_list@ =~= Seq::<usize>::empty());
    }
    assert(buf@ =~= old(buf)@ + func_data_text(*f, old(mng).next_label as int));
}

} // verus!
