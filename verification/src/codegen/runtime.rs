//! The run-time support that generated code calls: the C library functions it
//! needs, and `jagx_str_concat`, whose body is built here in IR.

use vstd::prelude::*;

use inkwell::context::Context;
use inkwell::module::Module;
use inkwell::types::BasicMetadataTypeEnum;
use inkwell::values::{BasicMetadataValueEnum, FunctionValue};

use crate::codegen::llvm;
use crate::codegen::types::str_struct_type;

verus! {

pub struct Runtime<'ctx> {
    pub malloc: FunctionValue<'ctx>,
    pub memcpy: FunctionValue<'ctx>,
    pub memcmp: FunctionValue<'ctx>,
    pub printf: FunctionValue<'ctx>,
    pub str_concat: FunctionValue<'ctx>,
}

impl<'ctx> Runtime<'ctx> {
    /// Declares `malloc`, `memcpy`, `memcmp` and `printf` in module `m`, and defines
    /// `jagx_str_concat({p1, l1}, {p2, l2})`, which returns a fresh buffer holding the
    /// `l1` bytes at `p1` followed by the `l2` bytes at `p2`. `None` where LLVM refuses
    /// an instruction of that body. No contract states the names and types handed to
    /// `add_function`: the functions it returns are opaque LLVM values, of which no
    /// spec function can speak.
    pub fn declare(c: &'ctx Context, m: &Module<'ctx>) -> Option<Runtime<'ctx>> {
        let bytes = llvm::ptr_ty_basic(llvm::byte_ptr_type(c));
        let i64t = llvm::int_ty_basic(llvm::i64_type(c).0);
        let i32t = llvm::int_ty_basic(llvm::i32_type(c).0);

        let mut p: Vec<BasicMetadataTypeEnum<'ctx>> = Vec::new();
        p.push(llvm::ty_meta(i64t));
        let malloc = llvm::add_function(m, "malloc", llvm::fn_type(bytes, &p, false));

        let mut p: Vec<BasicMetadataTypeEnum<'ctx>> = Vec::new();
        p.push(llvm::ty_meta(bytes));
        p.push(llvm::ty_meta(bytes));
        p.push(llvm::ty_meta(i64t));
        let memcpy = llvm::add_function(m, "memcpy", llvm::fn_type(bytes, &p, false));
        let memcmp = llvm::add_function(m, "memcmp", llvm::fn_type(i32t, &p, false));

        let mut p: Vec<BasicMetadataTypeEnum<'ctx>> = Vec::new();
        p.push(llvm::ty_meta(bytes));
        let printf = llvm::add_function(m, "printf", llvm::fn_type(i32t, &p, true));

        let slice = llvm::struct_ty_basic(str_struct_type(c));
        let mut p: Vec<BasicMetadataTypeEnum<'ctx>> = Vec::new();
        p.push(llvm::ty_meta(slice));
        p.push(llvm::ty_meta(slice));
        let str_concat = llvm::add_function(m, "jagx_str_concat", llvm::fn_type(slice, &p, false));

        let rt = Runtime { malloc, memcpy, memcmp, printf, str_concat };
        if rt.define_str_concat(c) {
            Some(rt)
        } else {
            None
        }
    }

    /// The body of `jagx_str_concat`; `false` where LLVM refuses an instruction.
    fn define_str_concat(&self, c: &'ctx Context) -> bool {
        let b = llvm::create_builder(c);
        let entry = llvm::append_block(c, self.str_concat, "entry");
        llvm::position_at_end(&b, entry);
        let a = match llvm::nth_param(self.str_concat, 0) {
            Some(v) => v,
            None => return false,
        };
        let bv = match llvm::nth_param(self.str_concat, 1) {
            Some(v) => v,
            None => return false,
        };
        let (a, bv) = match (llvm::as_struct(a), llvm::as_struct(bv)) {
            (Some(x), Some(y)) => (x, y),
            _ => return false,
        };
        let p1 = llvm::extract(&b, a, 0, "p1");
        let l1 = llvm::extract(&b, a, 1, "l1");
        let p2 = llvm::extract(&b, bv, 0, "p2");
        let l2 = llvm::extract(&b, bv, 1, "l2");
        let (p1, l1, p2, l2) = match (p1, l1, p2, l2) {
            (Some(p1), Some(l1), Some(p2), Some(l2)) => (p1, l1, p2, l2),
            _ => return false,
        };
        let (l1i, l2i) = match (llvm::as_int(l1), llvm::as_int(l2)) {
            (Some(x), Some(y)) => (x, y),
            _ => return false,
        };
        let total = match llvm::value_of(llvm::int_add(&b, l1i, l2i, "total_len")) {
            Some(t) => t,
            None => return false,
        };
        let mut args: Vec<BasicMetadataValueEnum<'ctx>> = Vec::new();
        args.push(llvm::arg_val(llvm::int_val(total)));
        let buf = match llvm::call(&b, self.malloc, &args, "buf") {
            Some(Some(v)) => v,
            _ => return false,
        };
        let bufp = match llvm::as_ptr(buf) {
            Some(x) => x,
            None => return false,
        };
        let mut args: Vec<BasicMetadataValueEnum<'ctx>> = Vec::new();
        args.push(llvm::arg_val(buf));
        args.push(llvm::arg_val(p1));
        args.push(llvm::arg_val(l1));
        if llvm::call(&b, self.memcpy, &args, "cpy1").is_none() {
            return false;
        }
        // The second part starts `l1` bytes into the buffer.
        let i64t = llvm::i64_type(c).0;
        let base = match llvm::ptr_to_int(&b, bufp, i64t, "buf_addr") {
            Some(x) => x,
            None => return false,
        };
        let off = match llvm::value_of(llvm::int_add(&b, base, l1i, "buf_off_addr")) {
            Some(x) => x,
            None => return false,
        };
        let buf2 = match llvm::int_to_ptr(&b, off, llvm::byte_ptr_type(c), "buf_off") {
            Some(x) => x,
            None => return false,
        };
        let mut args: Vec<BasicMetadataValueEnum<'ctx>> = Vec::new();
        args.push(llvm::arg_val(llvm::ptr_val(buf2)));
        args.push(llvm::arg_val(p2));
        args.push(llvm::arg_val(l2));
        if llvm::call(&b, self.memcpy, &args, "cpy2").is_none() {
            return false;
        }
        let s0 = match llvm::insert(&b, llvm::struct_undef(str_struct_type(c)), buf, 0, "s0") {
            Some(x) => x,
            None => return false,
        };
        let s1 = match llvm::insert(&b, s0, llvm::int_val(total), 1, "s1") {
            Some(x) => x,
            None => return false,
        };
        llvm::ret_value(&b, llvm::struct_val(s1))
    }
}

} // verus!
