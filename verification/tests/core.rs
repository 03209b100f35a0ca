//! Runtime checks of the buffer workspace, the literal stack, the global
//! string slots, and the diagnostic tiers.

use bst_runtime::buffer::{BufTy, GlobalBuffer, BUF_SIZE};
use bst_runtime::collab::{Bibtex, CiteList, HashTable, StringPool};
use bst_runtime::diag::Diagnostics;
use bst_runtime::exec::{
    bst_ex_warn_print, illegl_literal_confusion, print_lit, print_stk_lit, print_wrong_stk_lit,
    ExecCtx, ExecVal, StkType, LIT_STK_SIZE,
};
use bst_runtime::global::{reset, GlobalData, GLOB_STR_SIZE, MAX_GLOB_STRS};

fn make_pool(strings: &[&[u8]]) -> StringPool {
    let mut pool: Vec<u8> = Vec::new();
    let mut str_start: Vec<usize> = vec![0];
    for s in strings {
        pool.extend_from_slice(s);
        str_start.push(pool.len());
    }
    StringPool {
        pool_ptr: *str_start.last().unwrap(),
        str_ptr: strings.len(),
        pool,
        str_start,
    }
}

fn make_glbl() -> Bibtex {
    Bibtex { bst_line_num: 37, bst_str: 0 }
}

fn empty_cites() -> CiteList {
    CiteList { cites: Vec::new(), ptr: 0 }
}

const CONFUSION: &[u8] = b"---this can't happen\n";

#[test]
fn growth_preserves_content() {
    let mut b = GlobalBuffer::new();
    assert_eq!(b.len(), BUF_SIZE + 1);
    b.set_at(BufTy::Base, 5, 42);
    b.set_at(BufTy::Ex, 19999, 7);
    b.grow_all();
    assert_eq!(b.len(), BUF_SIZE + 1 + BUF_SIZE);
    assert_eq!(b.at(BufTy::Base, 5), 42);
    assert_eq!(b.at(BufTy::Ex, 19999), 7);
    assert_eq!(b.at(BufTy::Base, BUF_SIZE + 1), 0);
    assert_eq!(b.at(BufTy::Out, 30000), 0);
}

#[test]
fn growth_preserves_every_kind() {
    let kinds = [BufTy::Base, BufTy::Sv, BufTy::Ex, BufTy::Out, BufTy::NameSep];
    for (i, ty) in kinds.iter().enumerate() {
        let mut b = GlobalBuffer::new();
        b.set_at(*ty, 11, 100 + i as u8);
        let before = b.len();
        b.grow_all();
        assert_eq!(b.len(), before + BUF_SIZE);
        assert_eq!(b.at(*ty, 11), 100 + i as u8);
    }
}

#[test]
fn int_to_ascii_round_trips() {
    for v in [0i32, 7, -7, 123456, i32::MIN + 1] {
        let mut b = GlobalBuffer::new();
        let end = b.int_to_ascii(v, BufTy::Base, 3);
        let text: Vec<u8> = (3..end).map(|i| b.at(BufTy::Base, i)).collect();
        let s = String::from_utf8(text).unwrap();
        assert_eq!(s.parse::<i32>().unwrap(), v);
        assert_eq!(s.starts_with('-'), v < 0);
    }
}

#[test]
fn int_to_ascii_writes_minus_123() {
    let mut b = GlobalBuffer::new();
    let end = b.int_to_ascii(-123, BufTy::Base, 0);
    assert_eq!(end, 4);
    let text: Vec<u8> = (0..4).map(|i| b.at(BufTy::Base, i)).collect();
    assert_eq!(text, b"-123");
}

#[test]
fn int_to_ascii_grows_when_needed() {
    let mut b = GlobalBuffer::new();
    let begin = b.len();
    let end = b.int_to_ascii(42, BufTy::Ex, begin);
    assert_eq!(b.len(), BUF_SIZE + 1 + BUF_SIZE);
    assert_eq!(end, begin + 2);
    assert_eq!(b.at(BufTy::Ex, begin), b'4');
    assert_eq!(b.at(BufTy::Ex, begin + 1), b'2');
}

#[test]
fn case_conversion_is_ascii_only() {
    let mut b = GlobalBuffer::new();
    b.set_at(BufTy::Base, 0, b'a');
    b.set_at(BufTy::Base, 1, b'Z');
    b.set_at(BufTy::Base, 2, 200);
    b.set_at(BufTy::Base, 3, b'q');
    b.upper_case(BufTy::Base, 0, 3);
    assert_eq!(b.at(BufTy::Base, 0), b'A');
    assert_eq!(b.at(BufTy::Base, 1), b'Z');
    assert_eq!(b.at(BufTy::Base, 2), 200);
    assert_eq!(b.at(BufTy::Base, 3), b'q');
    b.lower_case(BufTy::Base, 0, 3);
    assert_eq!(b.at(BufTy::Base, 0), b'a');
    assert_eq!(b.at(BufTy::Base, 1), b'z');
    assert_eq!(b.at(BufTy::Base, 2), 200);
}

#[test]
fn offsets_and_inits() {
    let mut b = GlobalBuffer::new();
    b.set_offset(BufTy::Base, 1, 17);
    b.set_offset(BufTy::Base, 2, 29);
    b.set_offset(BufTy::Ex, 1, 5);
    assert_eq!(b.offset(BufTy::Base, 1), 17);
    assert_eq!(b.offset(BufTy::Base, 2), 29);
    assert_eq!(b.offset(BufTy::Ex, 1), 5);
    b.set_at(BufTy::Base, 17, 9);
    assert_eq!(b.at_offset(BufTy::Base, 1), 9);
    b.set_init(BufTy::Out, 123);
    assert_eq!(b.init(BufTy::Out), 123);
    assert_eq!(b.init(BufTy::Base), 0);
    b.set_name_tok(4, 77);
    assert_eq!(b.name_tok(4), 77);
    assert!(!b.is_empty());
    assert_eq!(b.buffer(BufTy::Base)[17], 9);
}

#[test]
fn buffer_reset_restores_initial_state() {
    let mut b = GlobalBuffer::new();
    b.set_at(BufTy::Base, 5, 42);
    b.set_offset(BufTy::Ex, 1, 3);
    b.set_init(BufTy::Sv, 10);
    b.grow_all();
    b.reset();
    let fresh = GlobalBuffer::new();
    assert_eq!(b.len(), fresh.len());
    assert_eq!(b.at(BufTy::Base, 5), fresh.at(BufTy::Base, 5));
    assert_eq!(b.offset(BufTy::Ex, 1), fresh.offset(BufTy::Ex, 1));
    assert_eq!(b.init(BufTy::Sv), fresh.init(BufTy::Sv));
}

#[test]
fn stack_is_lifo() {
    let pool = make_pool(&[]);
    let glbl = make_glbl();
    let cites = empty_cites();
    let mut diag = Diagnostics::new();
    let mut pool_mut = pool;
    let mut ctx = ExecCtx::new(&pool_mut);
    let n = 5;
    for k in 0..n {
        ctx.push_lit_stk(ExecVal { typ: StkType::Integer, lit: k });
    }
    for k in (0..n).rev() {
        let (v, ok) = ctx.pop_lit_stk(&glbl, &mut pool_mut, &cites, &mut diag);
        assert!(ok);
        assert_eq!(v.typ, StkType::Integer);
        assert_eq!(v.lit, k);
    }
    assert_eq!(ctx.lit_stk_ptr, 0);
    assert_eq!(diag.num_errors, 0);
    assert!(diag.log.is_empty());
}

#[test]
fn stack_grows_past_initial_capacity() {
    let pool = make_pool(&[]);
    let glbl = make_glbl();
    let cites = empty_cites();
    let mut diag = Diagnostics::new();
    let mut pool_mut = pool;
    let mut ctx = ExecCtx::new(&pool_mut);
    let n = (LIT_STK_SIZE as i32) + 50;
    for k in 0..n {
        ctx.push_lit_stk(ExecVal { typ: StkType::Integer, lit: k });
    }
    assert!(ctx.lit_stk_size > LIT_STK_SIZE);
    for k in (0..n).rev() {
        let (v, ok) = ctx.pop_lit_stk(&glbl, &mut pool_mut, &cites, &mut diag);
        assert!(ok);
        assert_eq!(v.lit, k);
    }
    assert_eq!(ctx.lit_stk_ptr, 0);
}

#[test]
fn underflow_is_non_fatal() {
    let mut pool = make_pool(&[b"demo"]);
    let glbl = make_glbl();
    let cites = empty_cites();
    let mut diag = Diagnostics::new();
    let mut ctx = ExecCtx::new(&pool);
    let (v, ok) = ctx.pop_lit_stk(&glbl, &mut pool, &cites, &mut diag);
    assert!(ok);
    assert_eq!(v.typ, StkType::Illegal);
    assert_eq!(diag.num_errors, 1);
    assert!(!diag.fatal);
    let mut expected: Vec<u8> = Vec::new();
    expected.extend_from_slice(b"You can't pop an empty literal stack");
    expected.extend_from_slice(b"\nwhile executing-");
    expected.extend_from_slice(b"--line 37 of file ");
    expected.extend_from_slice(b"demo");
    expected.extend_from_slice(b".bst\n");
    assert_eq!(diag.log, expected);
    let (v2, ok2) = ctx.pop_lit_stk(&glbl, &mut pool, &cites, &mut diag);
    assert!(ok2);
    assert_eq!(v2.typ, StkType::Illegal);
    assert_eq!(diag.num_errors, 2);
}

#[test]
fn underflow_names_the_current_entry() {
    let mut pool = make_pool(&[b"demo", b"key99"]);
    let glbl = make_glbl();
    let cites = CiteList { cites: vec![1], ptr: 0 };
    let mut diag = Diagnostics::new();
    let mut ctx = ExecCtx::new(&pool);
    ctx.mess_with_entries = true;
    let (_, ok) = ctx.pop_lit_stk(&glbl, &mut pool, &cites, &mut diag);
    assert!(ok);
    let text = String::from_utf8(diag.log.clone()).unwrap();
    assert!(text.contains(" for entry key99"));
    assert_eq!(diag.num_errors, 1);
}

#[test]
fn sink_failure_propagates() {
    let mut pool = make_pool(&[b"demo"]);
    let glbl = make_glbl();
    let cites = empty_cites();
    let mut diag = Diagnostics::new_failed();
    let mut ctx = ExecCtx::new(&pool);
    let (v, ok) = ctx.pop_lit_stk(&glbl, &mut pool, &cites, &mut diag);
    assert!(!ok);
    assert_eq!(v.typ, StkType::Illegal);
    assert_eq!(diag.num_errors, 0);
    assert!(diag.log.is_empty());
    assert!(!diag.fatal);
}

#[test]
fn string_retraction_on_pop() {
    let mut pool = make_pool(&[b"old", b"older", b"temp"]);
    let glbl = make_glbl();
    let cites = empty_cites();
    let mut diag = Diagnostics::new();
    let mut ctx = ExecCtx::new(&pool);
    ctx.bib_str_ptr = 2;
    assert_eq!(pool.str_ptr, 3);
    ctx.push_lit_stk(ExecVal { typ: StkType::String, lit: 2 });
    let (v, ok) = ctx.pop_lit_stk(&glbl, &mut pool, &cites, &mut diag);
    assert!(ok);
    assert_eq!(v.lit, 2);
    assert_eq!(pool.str_ptr, 2);
    assert_eq!(pool.pool_ptr, pool.str_start[2]);
}

#[test]
fn old_string_leaves_pool_untouched() {
    let mut pool = make_pool(&[b"old", b"older", b"temp"]);
    let glbl = make_glbl();
    let cites = empty_cites();
    let mut diag = Diagnostics::new();
    let mut ctx = ExecCtx::new(&pool);
    ctx.bib_str_ptr = 2;
    ctx.push_lit_stk(ExecVal { typ: StkType::String, lit: 0 });
    let before_ptr = pool.str_ptr;
    let before_pool_ptr = pool.pool_ptr;
    let (v, ok) = ctx.pop_lit_stk(&glbl, &mut pool, &cites, &mut diag);
    assert!(ok);
    assert_eq!(v.lit, 0);
    assert_eq!(pool.str_ptr, before_ptr);
    assert_eq!(pool.pool_ptr, before_pool_ptr);
    assert!(diag.log.is_empty());
}

#[test]
fn string_stack_drift_is_a_confusion() {
    let mut pool = make_pool(&[b"a", b"b", b"c", b"d"]);
    let glbl = make_glbl();
    let cites = empty_cites();
    let mut diag = Diagnostics::new();
    let mut ctx = ExecCtx::new(&pool);
    ctx.bib_str_ptr = 2;
    ctx.push_lit_stk(ExecVal { typ: StkType::String, lit: 2 });
    let (v, ok) = ctx.pop_lit_stk(&glbl, &mut pool, &cites, &mut diag);
    assert!(!ok);
    assert_eq!(v.typ, StkType::Illegal);
    assert!(diag.fatal);
    let mut expected: Vec<u8> = Vec::new();
    expected.extend_from_slice(b"Nontop top of string stack");
    expected.extend_from_slice(CONFUSION);
    assert_eq!(diag.log, expected);
    assert_eq!(pool.str_ptr, 4);
}

#[test]
fn print_lit_formats_integers() {
    let pool = make_pool(&[]);
    let hash = HashTable { text: Vec::new() };
    let mut diag = Diagnostics::new();
    assert!(print_lit(&pool, &hash, &mut diag, ExecVal { typ: StkType::Integer, lit: -42 }));
    assert_eq!(diag.log, b"-42\n");
}

#[test]
fn print_lit_resolves_strings_and_functions() {
    let pool = make_pool(&[b"alpha", b"beta"]);
    let hash = HashTable { text: vec![1] };
    let mut diag = Diagnostics::new();
    assert!(print_lit(&pool, &hash, &mut diag, ExecVal { typ: StkType::String, lit: 0 }));
    assert!(print_lit(&pool, &hash, &mut diag, ExecVal { typ: StkType::Function, lit: 0 }));
    assert!(print_lit(&pool, &hash, &mut diag, ExecVal { typ: StkType::Missing, lit: 1 }));
    assert_eq!(diag.log, b"alpha\nbeta\nbeta\n");
}

#[test]
fn print_lit_illegal_is_fatal() {
    let pool = make_pool(&[]);
    let hash = HashTable { text: Vec::new() };
    let mut diag = Diagnostics::new();
    let ok = print_lit(&pool, &hash, &mut diag, ExecVal { typ: StkType::Illegal, lit: 99 });
    assert!(!ok);
    assert!(diag.fatal);
    let mut expected: Vec<u8> = Vec::new();
    expected.extend_from_slice(b"Illegal literal type");
    expected.extend_from_slice(CONFUSION);
    assert_eq!(diag.log, expected);
}

#[test]
fn print_lit_rejects_uninterned_string_numbers() {
    let pool = make_pool(&[b"only"]);
    let hash = HashTable { text: Vec::new() };
    let mut diag = Diagnostics::new();
    let ok = print_lit(&pool, &hash, &mut diag, ExecVal { typ: StkType::String, lit: 5 });
    assert!(!ok);
    assert!(diag.fatal);
    let mut expected: Vec<u8> = Vec::new();
    expected.extend_from_slice(b"Illegal string number");
    expected.extend_from_slice(CONFUSION);
    assert_eq!(diag.log, expected);
}

#[test]
fn print_stk_lit_describes_roles() {
    let pool = make_pool(&[b"abc", b"fun"]);
    let hash = HashTable { text: vec![1] };
    let mut diag = Diagnostics::new();
    assert!(print_stk_lit(&pool, &hash, &mut diag, ExecVal { typ: StkType::Integer, lit: 7 }));
    assert!(print_stk_lit(&pool, &hash, &mut diag, ExecVal { typ: StkType::String, lit: 0 }));
    assert!(print_stk_lit(&pool, &hash, &mut diag, ExecVal { typ: StkType::Function, lit: 0 }));
    assert!(print_stk_lit(&pool, &hash, &mut diag, ExecVal { typ: StkType::Missing, lit: 0 }));
    let text = String::from_utf8(diag.log.clone()).unwrap();
    assert_eq!(
        text,
        "7 is an integer literal\"abc\" is a string literal`fun` is a function literal`abc` is a missing field"
    );
}

#[test]
fn type_mismatch_is_silent_on_illegal() {
    let pool = make_pool(&[b"demo"]);
    let hash = HashTable { text: Vec::new() };
    let glbl = make_glbl();
    let cites = empty_cites();
    let ctx = ExecCtx::new(&pool);
    let mut diag = Diagnostics::new();
    let ok = print_wrong_stk_lit(
        &ctx,
        &glbl,
        &pool,
        &hash,
        &cites,
        &mut diag,
        ExecVal { typ: StkType::Illegal, lit: 3 },
        StkType::Integer,
    );
    assert!(ok);
    assert!(diag.log.is_empty());
    assert_eq!(diag.num_errors, 0);
    assert!(!diag.fatal);
}

#[test]
fn type_mismatch_reports_expected_kind() {
    let pool = make_pool(&[b"demo", b"abc"]);
    let hash = HashTable { text: Vec::new() };
    let glbl = make_glbl();
    let cites = empty_cites();
    let ctx = ExecCtx::new(&pool);
    let mut diag = Diagnostics::new();
    let ok = print_wrong_stk_lit(
        &ctx,
        &glbl,
        &pool,
        &hash,
        &cites,
        &mut diag,
        ExecVal { typ: StkType::String, lit: 1 },
        StkType::Integer,
    );
    assert!(ok);
    assert_eq!(diag.num_errors, 1);
    let text = String::from_utf8(diag.log.clone()).unwrap();
    assert_eq!(
        text,
        "\"abc\" is a string literal, not an integer,\nwhile executing---line 37 of file demo.bst\n"
    );
}

#[test]
fn type_mismatch_against_missing_is_a_confusion() {
    let pool = make_pool(&[b"demo"]);
    let hash = HashTable { text: Vec::new() };
    let glbl = make_glbl();
    let cites = empty_cites();
    let ctx = ExecCtx::new(&pool);
    let mut diag = Diagnostics::new();
    let ok = print_wrong_stk_lit(
        &ctx,
        &glbl,
        &pool,
        &hash,
        &cites,
        &mut diag,
        ExecVal { typ: StkType::Integer, lit: 1 },
        StkType::Missing,
    );
    assert!(!ok);
    assert!(diag.fatal);
    assert_eq!(diag.num_errors, 0);
}

#[test]
fn warn_trailer_marks_one_error() {
    let pool = make_pool(&[b"demo", b"key1"]);
    let glbl = make_glbl();
    let cites = CiteList { cites: vec![1], ptr: 0 };
    let mut ctx = ExecCtx::new(&pool);
    ctx.mess_with_entries = true;
    let mut diag = Diagnostics::new();
    let ok = bst_ex_warn_print(&ctx, &glbl, &pool, &cites, &mut diag);
    assert!(ok);
    assert_eq!(diag.num_errors, 1);
    let text = String::from_utf8(diag.log.clone()).unwrap();
    assert_eq!(text, " for entry key1\nwhile executing---line 37 of file demo.bst\n");
}

#[test]
fn illegal_literal_confusion_reports() {
    let mut diag = Diagnostics::new();
    illegl_literal_confusion(&mut diag);
    assert!(diag.fatal);
    let mut expected: Vec<u8> = Vec::new();
    expected.extend_from_slice(b"Illegal literal type");
    expected.extend_from_slice(CONFUSION);
    assert_eq!(diag.log, expected);
}

#[test]
fn exec_reset_restores_initial_state() {
    let pool = make_pool(&[b"x"]);
    let mut ctx = ExecCtx::new(&pool);
    ctx.mess_with_entries = true;
    ctx.push_lit_stk(ExecVal { typ: StkType::Integer, lit: 1 });
    ctx.pop1 = ExecVal { typ: StkType::Integer, lit: 9 };
    ctx.reset(&pool);
    let fresh = ExecCtx::new(&pool);
    assert_eq!(ctx.lit_stk_ptr, fresh.lit_stk_ptr);
    assert_eq!(ctx.lit_stk_size, fresh.lit_stk_size);
    assert_eq!(ctx.mess_with_entries, fresh.mess_with_entries);
    assert_eq!(ctx.bib_str_ptr, fresh.bib_str_ptr);
    assert_eq!(ctx.pop1, fresh.pop1);
}

#[test]
fn global_slots_grow_only_when_full() {
    let mut g = GlobalData::new();
    assert_eq!(g.num_glb_strs(), 0);
    g.set_num_glb_strs(5);
    g.check_grow_global_strs();
    assert_eq!(g.glb_bib_str_ptr(MAX_GLOB_STRS - 1), 0);
    g.set_num_glb_strs(MAX_GLOB_STRS as i32);
    g.check_grow_global_strs();
    assert_eq!(g.glb_bib_str_ptr(2 * MAX_GLOB_STRS - 1), 0);
    assert_eq!(g.num_glb_strs(), MAX_GLOB_STRS as i32);
}

#[test]
fn global_accessors_store_and_read() {
    let mut g = GlobalData::new();
    g.set_glb_bib_str_ptr(3, 123);
    assert_eq!(g.glb_bib_str_ptr(3), 123);
    g.set_global_strs(GLOB_STR_SIZE, 42);
    assert_eq!(g.global_strs(GLOB_STR_SIZE), 42);
    g.set_glb_str_end(9, -5);
    assert_eq!(g.glb_str_end(9), -5);
}

#[test]
fn global_reset_restores_initial_state() {
    let mut g = GlobalData::new();
    g.set_num_glb_strs(MAX_GLOB_STRS as i32);
    g.check_grow_global_strs();
    g.set_glb_bib_str_ptr(0, 7);
    g.set_global_strs(0, 8);
    g.set_glb_str_end(0, 9);
    reset(&mut g);
    let fresh = GlobalData::new();
    assert_eq!(g.num_glb_strs(), fresh.num_glb_strs());
    assert_eq!(g.glb_bib_str_ptr(0), fresh.glb_bib_str_ptr(0));
    assert_eq!(g.global_strs(0), fresh.global_strs(0));
    assert_eq!(g.glb_str_end(0), fresh.glb_str_end(0));
}

#[test]
fn diagnostics_tiers_are_distinct() {
    let mut diag = Diagnostics::new();
    assert!(diag.write_str("note"));
    diag.mark_error();
    assert_eq!(diag.num_errors, 1);
    assert!(!diag.fatal);
    assert!(diag.print_confusion());
    assert!(diag.fatal);
    let mut failed = Diagnostics::new_failed();
    assert!(!failed.write_str("dropped"));
    assert!(failed.log.is_empty());
}
