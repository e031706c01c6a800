use cflow::ast::{
    Backward, Br, BrIf, BrTable, Call, CallIndirect, Expression, Forward, FuncData, If, LocalRun,
    Return, SetGlobal, SetLocal, SetTemporary, Statement, StoreAt, StoreKind, Terminator,
    ValueType,
};
use cflow::emit::{
    write_call, write_call_indirect, write_call_store, write_return, write_set_global,
    write_set_local, write_set_temporary, write_store_at, write_unreachable,
};
use cflow::labeled;
use cflow::structured;
use cflow::structured::Label;

fn expr(s: &str) -> Expression {
    Expression { text: s.to_string() }
}

fn goto_mng(frames: usize) -> labeled::Manager {
    let mut m = labeled::Manager::new();
    for _ in 0..frames {
        m.push_label();
    }
    m
}

fn structured_mng(kinds: &[Label]) -> structured::Manager {
    let mut m = structured::Manager::new();
    for k in kinds {
        m.push_label(*k);
    }
    m
}

#[test]
fn goto_br_table_condensed_chain() {
    // Three maximal runs become three guarded jumps and a default jump.
    let mut mng = goto_mng(10);
    mng.num_param = 0;
    let bt = BrTable { cond: expr("x "), table: vec![0, 0, 0, 1, 1, 2], default: 9 };
    let mut buf = String::new();
    labeled::write_br_table(&bt, &mng, &mut buf);
    assert_eq!(
        buf,
        "temp = x if temp >= 0 and temp <= 2 then goto continue_at_9 else\
         if temp >= 3 and temp <= 4 then goto continue_at_8 else\
         if temp == 5 then goto continue_at_7 else goto continue_at_0 end "
    );
}

#[test]
fn goto_backward_self_branch() {
    // A depth-0 branch inside a Backward jumps to the loop's own entry anchor.
    let mut mng = labeled::Manager::new();
    let s = Statement::Backward(Backward { body: vec![Statement::Br(Br { target: 0 })], tail: None });
    let mut buf = String::new();
    labeled::write_statement(&s, &mut mng, &mut buf);
    assert_eq!(buf, "::continue_at_0::while true do goto continue_at_0 break end ");
}

#[test]
fn structured_backward_self_branch() {
    // The same branch lowers to a native continue, with no sentinel write.
    let mut mng = structured::Manager::new();
    let s = Statement::Backward(Backward { body: vec![Statement::Br(Br { target: 0 })], tail: None });
    let mut buf = String::new();
    structured::write_statement(&s, &mut mng, &mut buf);
    assert_eq!(buf, "while true do do continue end break end ");
    assert!(!buf.contains("desired"));
}

#[test]
fn structured_branch_out_of_if_in_backward() {
    // Br(1) inside an If inside a Backward: the sentinel takes the Backward
    // frame's depth, the If wrapper breaks, and the post-check observing the
    // matching sentinel clears it and issues the native continue.
    let mut mng = structured::Manager::new();
    let s = Statement::Backward(Backward {
        body: vec![Statement::If(If {
            cond: expr("x "),
            truthy: vec![Statement::Br(Br { target: 1 })],
            falsey: None,
        })],
        tail: None,
    });
    let mut buf = String::new();
    structured::write_statement(&s, &mut mng, &mut buf);
    assert_eq!(
        buf,
        "while true do while true do if x ~= 0 then do desired = 0 break end end break end \
         if desired then if desired == 0 then desired = nil continue end break end break end "
    );
}

#[test]
fn structured_relay_reraises_through_intermediate_wrapper() {
    // Br(2) two Ifs deep inside a Backward: the intermediate post-check sees
    // a mismatched sentinel and re-raises by breaking again; the outermost
    // post-check absorbs it and continues the loop.
    let mut mng = structured::Manager::new();
    let s = Statement::Backward(Backward {
        body: vec![Statement::If(If {
            cond: expr("x "),
            truthy: vec![Statement::If(If {
                cond: expr("y "),
                truthy: vec![Statement::Br(Br { target: 2 })],
                falsey: None,
            })],
            falsey: None,
        })],
        tail: None,
    });
    let mut buf = String::new();
    structured::write_statement(&s, &mut mng, &mut buf);
    assert_eq!(
        buf,
        "while true do while true do if x ~= 0 then \
         while true do if y ~= 0 then do desired = 0 break end end break end \
         if desired then if desired == 1 then desired = nil end break end \
         end break end \
         if desired then if desired == 0 then desired = nil continue end break end break end "
    );
}

#[test]
fn empty_br_table_is_plain_branch_goto() {
    // An empty table lowers exactly like Br(default); the discriminant is
    // never evaluated or emitted.
    let mng = goto_mng(5);
    let bt = BrTable { cond: expr("BOOM "), table: vec![], default: 3 };
    let mut table_buf = String::new();
    labeled::write_br_table(&bt, &mng, &mut table_buf);
    let mut br_buf = String::new();
    labeled::write_br_at(3, &mng, &mut br_buf);
    assert_eq!(table_buf, br_buf);
    assert_eq!(table_buf, "goto continue_at_1 ");
    assert!(!table_buf.contains("BOOM"));
}

#[test]
fn empty_br_table_is_plain_branch_structured() {
    let mng = structured_mng(&[Label::Forward, Label::Backward, Label::If, Label::Forward,
        Label::Forward]);
    let bt = BrTable { cond: expr("BOOM "), table: vec![], default: 3 };
    let mut table_buf = String::new();
    structured::write_br_table(&bt, &mng, &mut table_buf);
    let mut br_buf = String::new();
    structured::write_br_at(3, &mng, &mut br_buf);
    assert_eq!(table_buf, br_buf);
    assert_eq!(table_buf, "do desired = 1 break end ");
    assert!(!table_buf.contains("BOOM"));
}

#[test]
fn structured_br_table_lookup() {
    // A non-empty table becomes a runtime lookup of absolute depths with the
    // default as fallback, keeping the depth-0 fast path.
    let mng = structured_mng(&[Label::Backward, Label::Forward]);
    let bt = BrTable { cond: expr("c "), table: vec![0, 1], default: 1 };
    let mut buf = String::new();
    structured::write_br_table(&bt, &mng, &mut buf);
    assert_eq!(
        buf,
        "do local temp = {[0] = 1, 0, } desired = temp[c ] or 0 \
         if desired == 1 then desired = nil break else break end end "
    );
}

#[test]
fn structured_br_table_lookup_in_loop() {
    // With a loop-like innermost wrapper the fast path continues it.
    let mng = structured_mng(&[Label::Forward, Label::Backward]);
    let bt = BrTable { cond: expr("c "), table: vec![1], default: 0 };
    let mut buf = String::new();
    structured::write_br_table(&bt, &mng, &mut buf);
    assert_eq!(
        buf,
        "do local temp = {[0] = 0, } desired = temp[c ] or 1 \
         if desired == 1 then desired = nil continue else break end end "
    );
}

#[test]
fn goto_forward_tail_and_anchor() {
    // A Forward's anchor sits at its exit, after the tail.
    let mut mng = labeled::Manager::new();
    let s = Statement::Forward(Forward { body: vec![], tail: Some(Terminator::Unreachable) });
    let mut buf = String::new();
    labeled::write_statement(&s, &mut mng, &mut buf);
    assert_eq!(buf, "error(\"out of code bounds\")::continue_at_0::");
}

#[test]
fn goto_br_if_folds_into_guarded_jump() {
    let mng = goto_mng(2);
    let b = BrIf { cond: expr("c "), target: 1 };
    let mut buf = String::new();
    labeled::write_br_if(&b, &mng, &mut buf);
    assert_eq!(buf, "if c ~= 0 then goto continue_at_0 end ");
}

#[test]
fn structured_br_if_fast_path() {
    let mng = structured_mng(&[Label::Backward]);
    let b = BrIf { cond: expr("c "), target: 0 };
    let mut buf = String::new();
    structured::write_br_if(&b, &mng, &mut buf);
    assert_eq!(buf, "if c ~= 0 then do continue end end ");
}

#[test]
fn structured_br_gadget_by_parent_kind() {
    let mut buf = String::new();
    structured::write_br_gadget(&vec![], 0, &mut buf);
    assert_eq!(buf, "");
    let mut buf = String::new();
    structured::write_br_gadget(&vec![Label::Forward], 1, &mut buf);
    assert_eq!(buf, "if desired then if desired == 0 then desired = nil end break end ");
    let mut buf = String::new();
    structured::write_br_gadget(&vec![Label::Backward, Label::If], 2, &mut buf);
    assert_eq!(buf, "if desired then if desired == 1 then desired = nil end break end ");
    let mut buf = String::new();
    structured::write_br_gadget(&vec![Label::Backward], 1, &mut buf);
    assert_eq!(buf, "if desired then if desired == 0 then desired = nil continue end break end ");
}

#[test]
fn structured_br_target_levels() {
    let mut buf = String::new();
    structured::br_target(7, false, &mut buf);
    assert_eq!(buf, "if desired then if desired == 7 then desired = nil end break end ");
    let mut buf = String::new();
    structured::br_target(7, true, &mut buf);
    assert_eq!(buf, "if desired then if desired == 7 then desired = nil continue end break end ");
}

#[test]
fn goto_whole_function() {
    let f = FuncData {
        num_param: 2,
        num_result: 1,
        local_data: vec![
            LocalRun { count: 2, value_type: ValueType::I32 },
            LocalRun { count: 1, value_type: ValueType::I64 },
        ],
        num_stack: 2,
        code: vec![Statement::SetTemporary(SetTemporary { var: 0, value: expr("1 ") })],
    };
    let mut mng = labeled::Manager::new();
    let mut buf = String::new();
    labeled::write_func_data(&f, &mut mng, &mut buf);
    assert_eq!(
        buf,
        "function(param_0, param_1)local loc_0, loc_1 = 0, 0 local loc_2 = 0LL \
         local reg_0, reg_1 local temp reg_0 = 1 return reg_1 end "
    );
}

#[test]
fn structured_whole_function() {
    let f = FuncData {
        num_param: 2,
        num_result: 0,
        local_data: vec![
            LocalRun { count: 2, value_type: ValueType::I32 },
            LocalRun { count: 1, value_type: ValueType::I64 },
        ],
        num_stack: 2,
        code: vec![Statement::SetTemporary(SetTemporary { var: 0, value: expr("1 ") })],
    };
    let mut mng = structured::Manager::new();
    let mut buf = String::new();
    structured::write_func_data(&f, &mut mng, &mut buf);
    assert_eq!(
        buf,
        "function(param_0, param_1)local loc_0, loc_1 = ZERO_i32, ZERO_i32 \
         local loc_2 = ZERO_i64 local reg_0, reg_1 local desired reg_0 = 1 end "
    );
}

#[test]
fn call_with_and_without_results() {
    let c = Call { func: 3, param_list: vec![expr("a "), expr("b ")], result: 0..2 };
    let mut buf = String::new();
    write_call(&c, &mut buf);
    assert_eq!(buf, "reg_0, reg_1 = FUNC_LIST[3](a , b )");
    let c = Call { func: 3, param_list: vec![], result: 5..5 };
    let mut buf = String::new();
    write_call(&c, &mut buf);
    assert_eq!(buf, "FUNC_LIST[3]()");
}

#[test]
fn call_indirect_through_table() {
    let c = CallIndirect { table: 1, index: expr("i "), param_list: vec![expr("x ")], result: 2..3 };
    let mut buf = String::new();
    write_call_indirect(&c, &mut buf);
    assert_eq!(buf, "reg_2 = TABLE_LIST[1].data[i ](x )");
}

#[test]
fn call_store_destinations() {
    let mut buf = String::new();
    write_call_store(&(1..4), &mut buf);
    assert_eq!(buf, "reg_1, reg_2, reg_3 = ");
    let mut buf = String::new();
    write_call_store(&(4..4), &mut buf);
    assert_eq!(buf, "");
}

#[test]
fn assignments() {
    let mut buf = String::new();
    write_set_temporary(&SetTemporary { var: 7, value: expr("v ") }, &mut buf);
    assert_eq!(buf, "reg_7 = v ");
    let mut buf = String::new();
    write_set_local(&SetLocal { var: 0, value: expr("v ") }, 2, &mut buf);
    assert_eq!(buf, "param_0 = v ");
    let mut buf = String::new();
    write_set_local(&SetLocal { var: 3, value: expr("v ") }, 2, &mut buf);
    assert_eq!(buf, "loc_1 = v ");
    let mut buf = String::new();
    write_set_global(&SetGlobal { var: 4, value: expr("v ") }, &mut buf);
    assert_eq!(buf, "GLOBAL_LIST[4].value = v ");
}

#[test]
fn store_offsets() {
    // A zero offset stays implicit; any other is added to the pointer.
    let s = StoreAt { what: StoreKind::I32, pointer: expr("p "), offset: 0, value: expr("v ") };
    let mut buf = String::new();
    write_store_at(&s, &mut buf);
    assert_eq!(buf, "store_i32(memory_at_0, p , v )");
    let s = StoreAt { what: StoreKind::I64N8, pointer: expr("p "), offset: 8, value: expr("v ") };
    let mut buf = String::new();
    write_store_at(&s, &mut buf);
    assert_eq!(buf, "store_i64_n8(memory_at_0, p + 8, v )");
}

#[test]
fn return_and_trap() {
    let mut buf = String::new();
    write_return(&Return { list: vec![expr("a "), expr("b ")] }, &mut buf);
    assert_eq!(buf, "do return a , b end ");
    let mut buf = String::new();
    write_unreachable(&mut buf);
    assert_eq!(buf, "error(\"out of code bounds\")");
}

#[test]
fn goto_labels_stay_unique_across_siblings() {
    // Two sibling blocks and a nested one get three distinct labels, and the
    // stack is restored between them.
    let mut mng = labeled::Manager::new();
    let s = Statement::Forward(Forward {
        body: vec![Statement::Forward(Forward { body: vec![], tail: None })],
        tail: None,
    });
    let mut buf = String::new();
    labeled::write_statement(&s, &mut mng, &mut buf);
    let t = Statement::Backward(Backward { body: vec![], tail: None });
    labeled::write_statement(&t, &mut mng, &mut buf);
    assert_eq!(buf, "::continue_at_1::::continue_at_0::::continue_at_2::while true do break end ");
    assert_eq!(mng.next_label, 3);
    assert_eq!(mng.label_list.len(), 0);
}

#[test]
fn goto_if_introduces_no_label() {
    let mut mng = goto_mng(1);
    let s = Statement::If(If {
        cond: expr("c "),
        truthy: vec![Statement::Br(Br { target: 0 })],
        falsey: Some(vec![Statement::Unreachable]),
    });
    let mut buf = String::new();
    labeled::write_statement(&s, &mut mng, &mut buf);
    assert_eq!(
        buf,
        "if c ~= 0 then goto continue_at_0 else error(\"out of code bounds\")end "
    );
    assert_eq!(mng.next_label, 1);
}

#[test]
fn goto_anchor_count_matches_block_count() {
    // One label anchor per Forward/Backward node; the If adds none.
    let mut mng = labeled::Manager::new();
    let s = Statement::Forward(Forward {
        body: vec![
            Statement::Backward(Backward { body: vec![], tail: None }),
            Statement::If(If {
                cond: expr("c "),
                truthy: vec![Statement::Forward(Forward { body: vec![], tail: None })],
                falsey: None,
            }),
        ],
        tail: None,
    });
    let mut buf = String::new();
    labeled::write_statement(&s, &mut mng, &mut buf);
    assert_eq!(buf.matches("::continue_at_").count(), 3);
}
