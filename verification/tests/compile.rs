use c_compiler::lowering::CodegenError;
use c_compiler::{compile, CompileError};

#[test]
fn compiles_source_text_to_assembly_lines() {
    let lines = compile("int main(){\n\tint x=5;\n\treturn x+2*3;\n}\n".to_string()).unwrap();
    assert_eq!(
        lines,
        vec![
            "global main",
            "main:",
            "\tpush rbp",
            "\tmov rbp, rsp",
            "\tsub rsp, 8",
            "\tpush rbx",
            "\tpush r12",
            "\tpush r13",
            "\tpush r14",
            "\tpush r15",
            "\tmov qword rbx, 5",
            "\tmov qword [rbp-8], rbx",
            "\tmov rbx, [rbp-8]",
            "\tmov qword r10, 2",
            "\tmov qword r11, 3",
            "\tmov rax, r10",
            "\timul r11",
            "\tmov r10, rax",
            "\tadd rbx, r10",
            "\tmov rax, rbx",
            "\tpop r15",
            "\tpop r14",
            "\tpop r13",
            "\tpop r12",
            "\tpop rbx",
            "\tmov rsp, rbp",
            "\tpop rbp",
            "\tret",
            "\tpop r15",
            "\tpop r14",
            "\tpop r13",
            "\tpop r12",
            "\tpop rbx",
            "\tmov rsp, rbp",
            "\tpop rbp",
            "\tret",
        ]
    );
}

#[test]
fn compiles_control_flow_from_source_text() {
    let lines = compile(
        "int f(){int i=0;while(i<3){if(i){i=i+1;}else{i=i+2;}}return i;}".to_string(),
    )
    .unwrap();
    assert_eq!(lines[0], "global f");
    assert_eq!(lines.iter().filter(|l| l.as_str() == "\tjmp .L1").count(), 1);
    assert_eq!(lines.iter().filter(|l| l.starts_with(".L")).count(), 6);
    assert_eq!(lines.iter().filter(|l| l.as_str() == "\tret").count(), 2);
}

#[test]
fn text_that_is_no_program_is_a_parse_error() {
    for source in [
        "",
        " \n",
        "int main(){return y;}",
        "int main(){int x;int x;return x;}",
        "int main(){return 1;",
        "int main(){return 1;} int ",
        "main(){return 1;}",
        "int main(){char c;return c;}",
        "int main(){x=1;return 0;}",
        "int main(){return 1}",
    ] {
        assert_eq!(compile(source.to_string()), Err(CompileError::Parse), "{:?}", source);
    }
}

#[test]
fn a_piece_cut_off_by_the_end_of_the_text_is_not_compiled() {
    let with = compile("int main(){return 1;} int".to_string());
    let without = compile("int main(){return 1;}".to_string());
    assert!(with.is_ok());
    assert_eq!(with, without);
}

#[test]
fn errors_compare_by_kind() {
    assert_ne!(CompileError::Parse, CompileError::Codegen(CodegenError::OutOfRegisters));
    assert_ne!(
        CompileError::Codegen(CodegenError::OutOfLabels),
        CompileError::Codegen(CodegenError::OutOfRegisters)
    );
}
