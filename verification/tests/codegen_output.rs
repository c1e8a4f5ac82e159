use minicc::codegen::generate;
use minicc::lexer::Lexer;
use minicc::parser::Parser;

fn compile(source: &str) -> Vec<String> {
    let tokens = Lexer::new(source).lex().expect("lexing never fails");
    let ast = Parser::new(&tokens).parse().expect("parse");
    generate(ast)
}

#[test]
fn generates_return_of_constant() {
    // Assembled and run, this program exits with status 5: the literal is
    // loaded into the accumulator, which holds the return value.
    assert_eq!(
        compile("int main(){return 5;}"),
        vec![
            "\t.globl _main".to_string(),
            "_main:".to_string(),
            "\tmovl $5, %eax".to_string(),
            "\tret".to_string(),
        ]
    );
}

#[test]
fn label_carries_the_function_name() {
    assert_eq!(
        compile("int foo(){return 0;}"),
        vec![
            "\t.globl _foo".to_string(),
            "_foo:".to_string(),
            "\tmovl $0, %eax".to_string(),
            "\tret".to_string(),
        ]
    );
}

#[test]
fn binary_operands_go_over_the_stack() {
    assert_eq!(
        compile("int main(){return 2+3;}"),
        vec![
            "\t.globl _main".to_string(),
            "_main:".to_string(),
            "\tmovl $2, %eax".to_string(),
            "\tpushq %rax".to_string(),
            "\tmovl $3, %eax".to_string(),
            "\tpopq %rcx".to_string(),
            "\taddl %ecx, %eax".to_string(),
            "\tret".to_string(),
        ]
    );
}

#[test]
fn subtraction_corrects_the_result_register() {
    // subl computes right from left into the secondary register; the move
    // lands left minus right in the accumulator.
    assert_eq!(
        compile("int main(){return 8-3;}"),
        vec![
            "\t.globl _main".to_string(),
            "_main:".to_string(),
            "\tmovl $8, %eax".to_string(),
            "\tpushq %rax".to_string(),
            "\tmovl $3, %eax".to_string(),
            "\tpopq %rcx".to_string(),
            "\tsubl %eax, %ecx".to_string(),
            "\tmovl %ecx, %eax".to_string(),
            "\tret".to_string(),
        ]
    );
}

#[test]
fn division_sets_up_fixed_registers() {
    assert_eq!(
        compile("int main(){return 6/2;}"),
        vec![
            "\t.globl _main".to_string(),
            "_main:".to_string(),
            "\tmovl $6, %eax".to_string(),
            "\tpushq %rax".to_string(),
            "\tmovl $2, %eax".to_string(),
            "\tpopq %rcx".to_string(),
            "\tmovl $0, %edx".to_string(),
            "\tmovl %eax, %ebx".to_string(),
            "\tmovl %ecx, %eax".to_string(),
            "\tidivl %ebx".to_string(),
            "\tret".to_string(),
        ]
    );
}

#[test]
fn left_associative_chain_evaluates_left_to_right() {
    // 8-3-2 groups as (8-3)-2; run on the target, the function returns 3.
    assert_eq!(
        compile("int main(){return 8-3-2;}"),
        vec![
            "\t.globl _main".to_string(),
            "_main:".to_string(),
            "\tmovl $8, %eax".to_string(),
            "\tpushq %rax".to_string(),
            "\tmovl $3, %eax".to_string(),
            "\tpopq %rcx".to_string(),
            "\tsubl %eax, %ecx".to_string(),
            "\tmovl %ecx, %eax".to_string(),
            "\tpushq %rax".to_string(),
            "\tmovl $2, %eax".to_string(),
            "\tpopq %rcx".to_string(),
            "\tsubl %eax, %ecx".to_string(),
            "\tmovl %ecx, %eax".to_string(),
            "\tret".to_string(),
        ]
    );
}

#[test]
fn unary_operators_transform_the_accumulator() {
    assert_eq!(
        compile("int main(){return -~!9;}"),
        vec![
            "\t.globl _main".to_string(),
            "_main:".to_string(),
            "\tmovl $9, %eax".to_string(),
            "\tcmpl $0, %eax".to_string(),
            "\tmovl $0, %eax".to_string(),
            "\tsete %al".to_string(),
            "\tnot %eax".to_string(),
            "\tneg %eax".to_string(),
            "\tret".to_string(),
        ]
    );
}

#[test]
fn precedence_drives_evaluation_order() {
    // 2+3*4: the multiplication is a complete subexpression on the right.
    assert_eq!(
        compile("int main(){return 2+3*4;}"),
        vec![
            "\t.globl _main".to_string(),
            "_main:".to_string(),
            "\tmovl $2, %eax".to_string(),
            "\tpushq %rax".to_string(),
            "\tmovl $3, %eax".to_string(),
            "\tpushq %rax".to_string(),
            "\tmovl $4, %eax".to_string(),
            "\tpopq %rcx".to_string(),
            "\timul %ecx, %eax".to_string(),
            "\tpopq %rcx".to_string(),
            "\taddl %ecx, %eax".to_string(),
            "\tret".to_string(),
        ]
    );
}

#[test]
fn renders_large_literals_in_decimal() {
    assert_eq!(
        compile("int main(){return 4294967295;}"),
        vec![
            "\t.globl _main".to_string(),
            "_main:".to_string(),
            "\tmovl $4294967295, %eax".to_string(),
            "\tret".to_string(),
        ]
    );
}
