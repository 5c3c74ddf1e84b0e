use rjvm::class::attribute::Attribute;
use rjvm::class::constant_pool::tag::{ConstantTag, NotFoundConstantTagError};
use rjvm::class::constant_pool::{ConstantPool, ConstantPoolInfo};
use rjvm::class::constant_pool_table::{ConstantPoolTable, ResolutionError};
use rjvm::class::attribute::NotFoundAttribute;
use rjvm::class::method::NotFoundUtf8;
use rjvm::class::Class;
use rjvm::instruction::Instruction;
use rjvm::operand_stack::{OperandStack, Value};
use rjvm::reader::{read_u16, read_u32, read_u8, DecodeError};
use rjvm::vm::{Frame, VmError, VM};
use std::collections::HashMap;

fn u16b(v: u16) -> Vec<u8> {
    vec![(v >> 8) as u8, v as u8]
}

fn u32b(v: u32) -> Vec<u8> {
    vec![(v >> 24) as u8, (v >> 16) as u8, (v >> 8) as u8, v as u8]
}

fn utf8(text: &str) -> Vec<u8> {
    let mut r = vec![1u8];
    r.extend(u16b(text.len() as u16));
    r.extend(text.as_bytes());
    r
}

fn two(tag: u8, a: u16, b: u16) -> Vec<u8> {
    let mut r = vec![tag];
    r.extend(u16b(a));
    r.extend(u16b(b));
    r
}

fn one(tag: u8, a: u16) -> Vec<u8> {
    let mut r = vec![tag];
    r.extend(u16b(a));
    r
}

/// Pool: 1 "Code", 2 "main", 3 "([Ljava/lang/String;)V", 4 "println",
/// 5 "(I)V", 6 NameAndType(4, 5), 7 "java/io/PrintStream", 8 Class(7),
/// 9 Methodref(8, 6), 10 "hello", 11 String(10), 12 "LineNumberTable".
fn pool() -> Vec<Vec<u8>> {
    vec![
        utf8("Code"),
        utf8("main"),
        utf8("([Ljava/lang/String;)V"),
        utf8("println"),
        utf8("(I)V"),
        two(12, 4, 5),
        utf8("java/io/PrintStream"),
        one(7, 7),
        two(10, 8, 6),
        utf8("hello"),
        one(8, 10),
        utf8("LineNumberTable"),
    ]
}

fn code_attribute(code: &[u8], nested: &[Vec<u8>]) -> Vec<u8> {
    let mut body = Vec::new();
    body.extend(u16b(2));
    body.extend(u16b(2));
    body.extend(u32b(code.len() as u32));
    body.extend(code);
    body.extend(u16b(0));
    body.extend(u16b(nested.len() as u16));
    for n in nested {
        body.extend(n);
    }
    let mut r = u16b(1);
    r.extend(u32b(body.len() as u32));
    r.extend(body);
    r
}

fn line_number_table(pairs: &[(u16, u16)]) -> Vec<u8> {
    let mut body = u16b(pairs.len() as u16);
    for (a, b) in pairs {
        body.extend(u16b(*a));
        body.extend(u16b(*b));
    }
    let mut r = u16b(12);
    r.extend(u32b(body.len() as u32));
    r.extend(body);
    r
}

fn method(name: u16, attributes: &[Vec<u8>]) -> Vec<u8> {
    let mut r = u16b(0x0009);
    r.extend(u16b(name));
    r.extend(u16b(3));
    r.extend(u16b(attributes.len() as u16));
    for a in attributes {
        r.extend(a);
    }
    r
}

fn class_bytes(pool: &[Vec<u8>], methods: &[Vec<u8>]) -> Vec<u8> {
    let mut r = u32b(0xCAFEBABE);
    r.extend(u16b(0));
    r.extend(u16b(52));
    r.extend(u16b(pool.len() as u16 + 1));
    for e in pool {
        r.extend(e);
    }
    r.extend(u16b(0x0021));
    r.extend(u16b(8));
    r.extend(u16b(8));
    r.extend(u16b(0));
    r.extend(u16b(0));
    r.extend(u16b(methods.len() as u16));
    for m in methods {
        r.extend(m);
    }
    r.extend(u16b(0));
    r
}

#[test]
fn reads_big_endian_integers() {
    let b = [0x12u8, 0x34, 0x56, 0x78, 0x9a];
    assert_eq!(read_u8(&b, 4), Ok((0x9a, 5)));
    assert_eq!(read_u16(&b, 1), Ok((0x3456, 3)));
    assert_eq!(read_u32(&b, 0), Ok((0x12345678, 4)));
    assert_eq!(read_u32(&b, 2), Err(DecodeError::Truncated));
    assert_eq!(read_u8(&b, 5), Err(DecodeError::Truncated));
}

#[test]
fn decodes_instructions_in_order() {
    let r = Instruction::from_codes(vec![0x08, 0x3c, 0x2a, 0x1b, 0xb6, 0x00, 0x09, 0xb1]).unwrap();
    assert_eq!(
        r,
        vec![
            Instruction::Iconst5,
            Instruction::Istore1,
            Instruction::Aload0,
            Instruction::Iload1,
            Instruction::InvokeVirtual(0, 9),
            Instruction::Return,
        ]
    );
}

#[test]
fn instruction_widths_sum_to_code_length() {
    let code = vec![0x12, 0x0b, 0xb2, 0x00, 0x02, 0x06, 0x05, 0x64, 0xb7, 0x00, 0x01, 0xb1];
    let r = Instruction::from_codes(code.clone()).unwrap();
    let total: usize = r
        .iter()
        .map(|i| match i {
            Instruction::Ldc(_) => 2,
            Instruction::GetStatic(..) | Instruction::InvokeVirtual(..) | Instruction::Invokespecial(..) => 3,
            _ => 1,
        })
        .sum();
    assert_eq!(r.len(), 7);
    assert_eq!(total, code.len());
}

#[test]
fn unsupported_opcode_is_reported() {
    assert_eq!(
        Instruction::from_codes(vec![0x08, 0x3c, 0xff, 0xb1]),
        Err(DecodeError::UnsupportedOpcode(0xff))
    );
}

#[test]
fn missing_operand_is_truncation() {
    assert_eq!(Instruction::from_codes(vec![0x12]), Err(DecodeError::Truncated));
    assert_eq!(Instruction::from_codes(vec![0xb6, 0x00]), Err(DecodeError::Truncated));
    assert_eq!(Instruction::from_codes(vec![]), Ok(vec![]));
}

#[test]
fn constant_tags_round_trip_through_bytes() {
    assert_eq!(ConstantTag::from_u8(7), Some(ConstantTag::Class));
    assert_eq!(ConstantTag::from_u8(1), Some(ConstantTag::Utf8));
    assert_eq!(ConstantTag::from_u8(2), None);
    assert_eq!(ConstantTag::Methodref.to_u8(), 10);
}

#[test]
fn decodes_one_pool_record() {
    let bytes = two(10, 8, 6);
    let (entry, end) = ConstantPool::new(&bytes, 0).unwrap();
    assert_eq!(end, 5);
    assert_eq!(entry.tag, ConstantTag::Methodref);
    match entry.info {
        ConstantPoolInfo::MethodrefInfo(m) => {
            assert_eq!(m.class_index, 8);
            assert_eq!(m.name_and_type_index, 6);
        }
        _ => panic!("wrong kind"),
    }
}

#[test]
fn unknown_and_unrepresented_tags_fail() {
    assert_eq!(
        ConstantPool::new(&[2, 0, 0], 0).err(),
        Some(DecodeError::UnknownTag(NotFoundConstantTagError::new(2)))
    );
    assert_eq!(
        ConstantPool::new(&[3, 0, 0, 0, 5], 0).err(),
        Some(DecodeError::UnknownTag(NotFoundConstantTagError::new(3)))
    );
}

#[test]
fn class_round_trip_keeps_pool() {
    let bytes = class_bytes(&pool(), &[method(2, &[code_attribute(&[0xb1], &[])])]);
    let (class, end) = Class::new(&bytes).unwrap();
    assert_eq!(end, bytes.len());
    assert_eq!(class.magic, 0xCAFEBABE);
    assert_eq!(class.major_version, 52);
    assert_eq!(class.constant_pool_count, 13);
    assert_eq!(class.cp_info.len(), 12);
    let tags: Vec<ConstantTag> = class.cp_info.iter().map(|c| c.tag).collect();
    assert_eq!(
        tags,
        vec![
            ConstantTag::Utf8,
            ConstantTag::Utf8,
            ConstantTag::Utf8,
            ConstantTag::Utf8,
            ConstantTag::Utf8,
            ConstantTag::NameAndType,
            ConstantTag::Utf8,
            ConstantTag::Class,
            ConstantTag::Methodref,
            ConstantTag::Utf8,
            ConstantTag::String_,
            ConstantTag::Utf8,
        ]
    );
    assert_eq!(class.cp_info.utf8_text(4).unwrap().bytes, b"println".to_vec());
    assert_eq!(class.cp_info.utf8_text(10).unwrap().bytes, b"hello".to_vec());
    let table = class.cp_info.utf8info();
    assert_eq!(table.len(), 8);
    assert_eq!(table.get(&7).unwrap().bytes, b"java/io/PrintStream".to_vec());
    assert!(table.get(&6).is_none());
    assert_eq!(class.methods.len(), 1);
    assert_eq!(class.methods[0].name, "main");
    assert_eq!(class.methods[0].descriptor, "([Ljava/lang/String;)V");
}

#[test]
fn resolve_checks_range_and_kind() {
    let bytes = class_bytes(&pool(), &[]);
    let (class, _) = Class::new(&bytes).unwrap();
    let t = &class.cp_info;
    assert_eq!(t.resolve(0, ConstantTag::Utf8).err(), Some(ResolutionError::NotFound(0)));
    assert_eq!(t.resolve(13, ConstantTag::Utf8).err(), Some(ResolutionError::NotFound(13)));
    assert_eq!(t.resolve(6, ConstantTag::Utf8).err(), Some(ResolutionError::TypeMismatch(6)));
    assert!(t.resolve(6, ConstantTag::NameAndType).is_ok());
    assert!(t.resolve(1, ConstantTag::Utf8).is_ok());
    assert!(t.resolve(12, ConstantTag::Utf8).is_ok());
}

#[test]
fn empty_pool_table() {
    let mut t = ConstantPoolTable::new();
    assert_eq!(t.len(), 0);
    assert_eq!(t.resolve(1, ConstantTag::Utf8).err(), Some(ResolutionError::NotFound(1)));
    let (entry, _) = ConstantPool::new(&utf8("x"), 0).unwrap();
    t.push(entry);
    assert_eq!(t.len(), 1);
    assert_eq!(t.utf8_text(1).unwrap().bytes, b"x".to_vec());
}

#[test]
fn code_attribute_with_line_numbers() {
    let attr = code_attribute(&[0x06, 0xb1], &[line_number_table(&[(0, 3), (1, 4)])]);
    let bytes = class_bytes(&pool(), &[method(2, &[attr])]);
    let (class, _) = Class::new(&bytes).unwrap();
    let codes = class.methods[0].code_attribute();
    assert_eq!(codes.len(), 1);
    assert_eq!(codes[0].code_length, 2);
    assert_eq!(codes[0].max_stack, 2);
    assert_eq!(codes[0].instructions, vec![Instruction::Iconst3, Instruction::Return]);
    assert_eq!(codes[0].attribute_info.len(), 1);
    match &codes[0].attribute_info[0] {
        Attribute::LineNumberTable(l) => {
            assert_eq!(l.line_number_table.len(), 2);
            assert_eq!(l.line_number_table[1].start_pc, 1);
            assert_eq!(l.line_number_table[1].line_number, 4);
        }
        _ => panic!("expected a line-number table"),
    }
}

#[test]
fn method_without_code_has_no_code_attribute() {
    let bytes = class_bytes(&pool(), &[method(2, &[line_number_table(&[])])]);
    let (class, _) = Class::new(&bytes).unwrap();
    assert!(class.methods[0].code_attribute().is_empty());
}

#[test]
fn unknown_attribute_name_fails() {
    let mut attr = u16b(4);
    attr.extend(u32b(0));
    let bytes = class_bytes(&pool(), &[method(2, &[attr])]);
    assert_eq!(
        Class::new(&bytes).err(),
        Some(DecodeError::UnknownAttribute(NotFoundAttribute::new(4)))
    );
}

#[test]
fn method_name_must_be_utf8_record() {
    let bytes = class_bytes(&pool(), &[method(6, &[])]);
    assert_eq!(Class::new(&bytes).err(), Some(DecodeError::NotFoundUtf8(NotFoundUtf8::new(6))));
    let bytes = class_bytes(&pool(), &[method(40, &[])]);
    assert_eq!(Class::new(&bytes).err(), Some(DecodeError::NotFoundUtf8(NotFoundUtf8::new(40))));
}

#[test]
fn invalid_utf8_name_fails() {
    let mut p = pool();
    p[1] = vec![1, 0, 2, 0xff, 0xfe];
    let bytes = class_bytes(&p, &[method(2, &[])]);
    assert_eq!(Class::new(&bytes).err(), Some(DecodeError::InvalidUtf8(2)));
}

#[test]
fn unsupported_opcode_fails_class_decode() {
    let bytes = class_bytes(&pool(), &[method(2, &[code_attribute(&[0x08, 0xfe, 0xb1], &[])])]);
    assert_eq!(Class::new(&bytes).err(), Some(DecodeError::UnsupportedOpcode(0xfe)));
}

#[test]
fn zero_pool_count_is_rejected() {
    let mut bytes = u32b(0xCAFEBABE);
    bytes.extend(u16b(0));
    bytes.extend(u16b(52));
    bytes.extend(u16b(0));
    for _ in 0..7 {
        bytes.extend(u16b(0));
    }
    assert_eq!(bytes.len(), 24);
    assert_eq!(Class::new(&bytes).err(), Some(DecodeError::ZeroPoolCount));
}

#[test]
fn truncated_buffers_fail() {
    let bytes = class_bytes(&pool(), &[method(2, &[code_attribute(&[0xb1], &[])])]);
    for cut in [0usize, 3, 9, 12, 40, bytes.len() - 1] {
        assert_eq!(Class::new(&bytes[..cut]).err(), Some(DecodeError::Truncated), "cut at {}", cut);
    }
}

/// The pool above, plus 13 "foo", 14 NameAndType(13, 5), 15 Methodref(8, 14).
fn pool_with_other_method() -> Vec<Vec<u8>> {
    let mut p = pool();
    p.push(utf8("foo"));
    p.push(two(12, 13, 5));
    p.push(two(10, 8, 14));
    p
}

fn run(code: &[u8]) -> (VM, Result<(), VmError>) {
    let bytes = class_bytes(&pool_with_other_method(), &[method(2, &[code_attribute(code, &[])])]);
    let (class, _) = Class::new(&bytes).unwrap();
    let mut vm = VM::new(class);
    let r = vm.exec();
    (vm, r)
}

#[test]
fn prints_stored_local() {
    // iconst_5, istore_1, aload_0, iload_1, invokevirtual #9, return
    let (vm, r) = run(&[0x08, 0x3c, 0x2a, 0x1b, 0xb6, 0x00, 0x09, 0xb1]);
    assert_eq!(r, Ok(()));
    assert_eq!(vm.output, vec!["5".to_string()]);
    assert!(vm.frames.is_empty());
}

#[test]
fn subtract_leaves_difference_on_top() {
    let bytes = class_bytes(&pool(), &[]);
    let (class, _) = Class::new(&bytes).unwrap();
    let vm = VM::new(class);
    let mut frame = Frame::new(HashMap::new());
    let (lines, r) =
        vm.run_instructions(&mut frame, &vec![Instruction::Iconst3, Instruction::Iconst2, Instruction::Isub]);
    assert_eq!(r, Ok(()));
    assert!(lines.is_empty());
    assert_eq!(frame.pc, 3);
    assert_eq!(frame.operand_stack.stack, vec![Value::Int(1)]);
    assert_eq!(frame.operand_stack.peek(), Some(Value::Int(1)));
}

#[test]
fn add_and_negative_results_print_in_decimal() {
    // iconst_2, iconst_5, isub, invokevirtual, iconst_4, iconst_1, iadd, invokevirtual
    let (vm, r) = run(&[0x05, 0x08, 0x64, 0xb6, 0x00, 0x09, 0x07, 0x04, 0x60, 0xb6, 0x00, 0x09]);
    assert_eq!(r, Ok(()));
    assert_eq!(vm.output, vec!["-3".to_string(), "5".to_string()]);
}

#[test]
fn prints_string_literal_text() {
    // ldc #11, invokevirtual #9, return
    let (vm, r) = run(&[0x12, 0x0b, 0xb6, 0x00, 0x09, 0xb1]);
    assert_eq!(r, Ok(()));
    assert_eq!(vm.output, vec!["hello".to_string()]);
}

#[test]
fn return_stops_the_frame() {
    let (vm, r) = run(&[0x06, 0xb6, 0x00, 0x09, 0xb1, 0x08, 0xb6, 0x00, 0x09]);
    assert_eq!(r, Ok(()));
    assert_eq!(vm.output, vec!["3".to_string()]);
}

#[test]
fn constructor_call_and_static_field_are_accepted() {
    // aload_0, invokespecial #1 (a no-op), getstatic #9, iconst_3, invokevirtual #9, return
    let (vm, r) = run(&[0x2a, 0xb7, 0x00, 0x01, 0xb2, 0x00, 0x09, 0x06, 0xb6, 0x00, 0x09, 0xb1]);
    assert_eq!(r, Ok(()));
    assert_eq!(vm.output, vec!["3".to_string()]);
}

#[test]
fn getstatic_pushes_field_reference() {
    let bytes = class_bytes(&pool(), &[]);
    let (class, _) = Class::new(&bytes).unwrap();
    let vm = VM::new(class);
    let mut frame = Frame::new(HashMap::new());
    assert!(vm.exec_per_inst(&mut frame, &Instruction::GetStatic(0x01, 0x02)).is_ok());
    assert_eq!(frame.operand_stack.stack, vec![Value::FieldRef(0x0102)]);
    assert_eq!(frame.pc, 1);
}

#[test]
fn failed_instruction_leaves_frame_unchanged() {
    let bytes = class_bytes(&pool_with_other_method(), &[]);
    let (class, _) = Class::new(&bytes).unwrap();
    let vm = VM::new(class);
    let mut frame = Frame::new(HashMap::new());
    assert!(vm.exec_per_inst(&mut frame, &Instruction::Iconst4).is_ok());
    let r = vm.exec_per_inst(&mut frame, &Instruction::Iload1);
    assert_eq!(r.err(), Some(VmError::MissingLocal(1)));
    let r = vm.exec_per_inst(&mut frame, &Instruction::InvokeVirtual(0, 15));
    assert_eq!(r.err(), Some(VmError::UnsupportedMethod(15)));
    let r = vm.exec_per_inst(&mut frame, &Instruction::Ldc(0));
    assert_eq!(r.err(), Some(VmError::Resolution(ResolutionError::NotFound(0))));
    let r = vm.exec_per_inst(&mut frame, &Instruction::Ldc(9));
    assert_eq!(r.err(), Some(VmError::Resolution(ResolutionError::TypeMismatch(9))));
    let r = vm.exec_per_inst(&mut frame, &Instruction::Iadd);
    assert_eq!(r.err(), Some(VmError::StackUnderflow));
    assert_eq!(frame.pc, 1);
    assert_eq!(frame.operand_stack.stack, vec![Value::Int(4)]);
    assert!(frame.local_variable.is_empty());
}

#[test]
fn failed_print_keeps_operand() {
    let bytes = class_bytes(&pool(), &[]);
    let (class, _) = Class::new(&bytes).unwrap();
    let vm = VM::new(class);
    let mut frame = Frame::new(HashMap::new());
    frame.operand_stack.push(Value::StringRef(6));
    let r = vm.exec_per_inst(&mut frame, &Instruction::InvokeVirtual(0, 9));
    assert_eq!(r.err(), Some(VmError::Resolution(ResolutionError::TypeMismatch(6))));
    assert_eq!(frame.operand_stack.stack, vec![Value::StringRef(6)]);
    assert_eq!(frame.pc, 0);
}

#[test]
fn other_method_names_are_unsupported() {
    let (vm, r) = run(&[0x06, 0xb6, 0x00, 0x0f]);
    assert_eq!(r, Err(VmError::UnsupportedMethod(15)));
    assert!(vm.output.is_empty());
}

#[test]
fn runtime_errors_are_fatal() {
    assert_eq!(run(&[0x60]).1, Err(VmError::StackUnderflow));
    assert_eq!(run(&[0x3c]).1, Err(VmError::StackUnderflow));
    assert_eq!(run(&[0x1c]).1, Err(VmError::MissingLocal(2)));
    assert_eq!(run(&[0x2a, 0x06, 0x60]).1, Err(VmError::TypeError));
    assert_eq!(run(&[0x2a, 0xb6, 0x00, 0x09]).1, Err(VmError::TypeError));
    assert_eq!(run(&[0xb6, 0x00, 0x09]).1, Err(VmError::StackUnderflow));
    assert_eq!(
        run(&[0x12, 0x0a]).1,
        Err(VmError::Resolution(ResolutionError::TypeMismatch(10)))
    );
    assert_eq!(
        run(&[0x06, 0xb6, 0x00, 0x63]).1,
        Err(VmError::Resolution(ResolutionError::NotFound(99)))
    );
}

#[test]
fn output_before_an_error_is_kept() {
    let (vm, r) = run(&[0x06, 0xb6, 0x00, 0x09, 0x60]);
    assert_eq!(r, Err(VmError::StackUnderflow));
    assert_eq!(vm.output, vec!["3".to_string()]);
}

#[test]
fn missing_main_method() {
    let bytes = class_bytes(&pool(), &[method(4, &[code_attribute(&[0xb1], &[])])]);
    let (class, _) = Class::new(&bytes).unwrap();
    let mut vm = VM::new(class);
    assert_eq!(vm.exec(), Err(VmError::NoMainMethod));
}

#[test]
fn operand_stack_is_last_in_first_out() {
    let mut s = OperandStack::new();
    assert_eq!(s.pop(), None);
    s.push(Value::Int(7));
    s.push(Value::StringRef(3));
    assert_eq!(s.peek(), Some(Value::StringRef(3)));
    assert_eq!(s.pop(), Some(Value::StringRef(3)));
    assert_eq!(s.pop(), Some(Value::Int(7)));
    assert_eq!(s.pop(), None);
}

#[test]
fn exec_per_inst_advances_pc() {
    let bytes = class_bytes(&pool(), &[]);
    let (class, _) = Class::new(&bytes).unwrap();
    let vm = VM::new(class);
    let mut locals = HashMap::new();
    locals.insert(0usize, Value::ClassRef(8));
    let mut frame = Frame::new(locals);
    assert!(vm.exec_per_inst(&mut frame, &Instruction::Aload0).is_ok());
    assert!(vm.exec_per_inst(&mut frame, &Instruction::Istore2).is_ok());
    assert!(vm.exec_per_inst(&mut frame, &Instruction::Iload2).is_ok());
    assert_eq!(frame.pc, 3);
    assert_eq!(frame.local_variable.get(&2), Some(&Value::ClassRef(8)));
    assert_eq!(frame.operand_stack.stack, vec![Value::ClassRef(8)]);
}

#[test]
fn invalid_string_text_fails_at_print() {
    let mut p = pool_with_other_method();
    p[9] = vec![1, 0, 2, 0xc3, 0x28];
    let bytes = class_bytes(&p, &[method(2, &[code_attribute(&[0x12, 0x0b, 0xb6, 0x00, 0x09], &[])])]);
    let (class, _) = Class::new(&bytes).unwrap();
    let mut vm = VM::new(class);
    assert_eq!(vm.exec(), Err(VmError::InvalidUtf8(10)));
}
