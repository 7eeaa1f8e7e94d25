use qi_lsp::ast::{BasicType, TypeNode};
use qi_lsp::type_text::{format_basic_type, format_type_annotation, format_type_plain, join, usize_to_decimal};

#[test]
fn types_written_out() {
    assert_eq!(format_basic_type(BasicType::Text), "字符串");
    let arr = TypeNode::Array(Box::new(TypeNode::Basic(BasicType::Integer)));
    assert_eq!(format_type_annotation(&arr), "[整数]");
    let f = TypeNode::Function {
        parameters: vec![TypeNode::Basic(BasicType::Integer), TypeNode::Custom("点".to_string())],
        return_type: Box::new(TypeNode::Basic(BasicType::Boolean)),
        debug: "Function(..)".to_string(),
    };
    assert_eq!(format_type_annotation(&f), "(整数, 点) -> 布尔");
    assert_eq!(format_type_plain(&f), "Function(..)");
    assert_eq!(format_type_plain(&arr), "[整数]");
    assert_eq!(format_type_annotation(&TypeNode::Other("Tuple".to_string())), "Tuple");
}

#[test]
fn joining_and_numbers() {
    assert_eq!(join(&vec!["a".to_string(), "b".to_string(), "c".to_string()], ", "), "a, b, c");
    assert_eq!(join(&Vec::new(), ", "), "");
    assert_eq!(usize_to_decimal(0), "0");
    assert_eq!(usize_to_decimal(120), "120");
}
