//! Numeric kinds of the nodes of the tree-sitter-elm grammar that the
//! refactoring logic distinguishes.
use vstd::prelude::*;

verus! {

pub const ARROW: u16 = 51;
pub const AS_CLAUSE: u16 = 101;
pub const BIN_OP_EXPR: u16 = 121;
pub const BLOCK_COMMENT: u16 = 86;
pub const CASE_OF_EXPR: u16 = 152;
pub const COMMA: u16 = 6;
pub const CONSTRUCTOR_IDENTIFIER: u16 = 8;
pub const CONSTRUCTOR_QID: u16 = 96;
pub const DOT: u16 = 55;
pub const DOUBLE_DOT: u16 = 49;
pub const EXPOSED_OPERATOR: u16 = 94;
pub const EXPOSED_TYPE: u16 = 92;
pub const EXPOSED_UNION_CONSTRUCTORS: u16 = 93;
pub const EXPOSED_VALUE: u16 = 91;
pub const EXPOSING_LIST: u16 = 90;
pub const FILE: u16 = 85;
pub const FUNCTION_CALL_EXPR: u16 = 126;
pub const FUNCTION_DECLARATION_LEFT: u16 = 103;
pub const IF_ELSE_EXPR: u16 = 148;
pub const IMPORT_CLAUSE: u16 = 100;
pub const INFIX_DECLARATION: u16 = 170;
pub const LET_IN_EXPR: u16 = 155;
pub const LINE_COMMENT: u16 = 4;
pub const LOWER_CASE_IDENTIFIER: u16 = 1;
pub const LOWER_PATTERN: u16 = 161;
pub const MODULE_DECLARATION: u16 = 87;
pub const MODULE_NAME_SEGMENT: u16 = 201;
pub const NUMBER_CONSTANT_EXPR: u16 = 136;
pub const OPERATOR: u16 = 122;
pub const PARENTHESIZED_EXPR: u16 = 133;
pub const PATTERN: u16 = 157;
pub const PORT_ANNOTATION: u16 = 119;
pub const RECORD_PATTERN: u16 = 163;
pub const RECORD_TYPE: u16 = 115;
pub const STRING_CONSTANT_EXPR: u16 = 137;
pub const TYPE_ALIAS_DECLARATION: u16 = 108;
pub const TYPE_ANNOTATION: u16 = 118;
pub const TYPE_DECLARATION: u16 = 104;
pub const TYPE_IDENTIFIER: u16 = 33;
pub const TYPE_REF: u16 = 111;
pub const TYPE_QID: u16 = 97;
pub const UNION_VARIANT: u16 = 106;
pub const VALUE_EXPR: u16 = 139;
pub const VALUE_DECLARATION: u16 = 102;
pub const VALUE_QID: u16 = 98;

} // verus!
