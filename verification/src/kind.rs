//! The kinds of the concrete syntax tree: one enum for every node and
//! token kind, and the few classes (expression, type, pattern, generic
//! parameter, trivia) the typed view of the tree is built from.

use vstd::prelude::*;

verus! {

/// A node or token kind.
#[allow(non_camel_case_types)]
#[derive(Clone, Copy, Debug, PartialEq, Eq, Structural)]
pub enum SyntaxKind {
    SOURCE_FILE,
    ERROR,
    WHITESPACE,
    COMMENT,
    ERROR_TOKEN,
    IDENT,
    INT_NUMBER,
    STRING,
    CHAR,
    HOLE,
    LIFETIME_IDENT,
    REGION_IDENT,
    AMP,
    BANG,
    COLON,
    COLON2,
    COMMA,
    DOT,
    DOT2,
    DOT3,
    EQ,
    EQ2,
    FAT_ARROW,
    L_ANGLE,
    R_ANGLE,
    L_BRACE,
    R_BRACE,
    L_BRACKET,
    R_BRACKET,
    L_PAREN,
    R_PAREN,
    MINUS,
    PLUS,
    SEMICOLON,
    SLASH,
    STAR,
    THIN_ARROW,
    AS_KW,
    BREAK_KW,
    CONST_KW,
    CONTINUE_KW,
    ELSE_KW,
    ENUM_KW,
    EXTERN_KW,
    FALSE_KW,
    FN_KW,
    FOR_KW,
    IF_KW,
    IMPL_KW,
    LET_KW,
    LOOP_KW,
    MATCH_KW,
    MUT_KW,
    PUB_KW,
    RAW_KW,
    REQUIRES_KW,
    RETURN_KW,
    STATIC_KW,
    STRUCT_KW,
    TRAIT_KW,
    TRUE_KW,
    TYPE_KW,
    UNSAFE_KW,
    WITH_KW,
    WITHOUT_KW,
    STATIC_ITEM,
    TYPE_ITEM,
    TRAIT_ITEM,
    TRAIT_ALIAS,
    REQUIRES_DEF,
    REQUIRES_CLAUSE,
    WITH_GROUP,
    WITH_CLAUSE,
    WITHOUT_CLAUSE,
    IMPL_ELEMENT,
    UNSAFE_ELEMENT,
    FOR_ELEMENT,
    MEMBER,
    NAME,
    NAME_REF,
    LITERAL,
    PARAM_LIST,
    PARAM,
    RET_TYPE,
    GENERIC_PARAM_LIST,
    TYPE_PARAM,
    REGION_PARAM,
    CONST_PARAM,
    GENERIC_ARG_LIST,
    MEMBER_GENERIC_ARGS,
    TYPE_ARG,
    CONST_ARG,
    REGION_ARG,
    NAMED_ARG,
    ARG_LIST,
    LET_STMT,
    ASSIGN_STMT,
    EXPR_STMT,
    MATCH_ARM,
    RECORD_TYPE_FIELD,
    RECORD_EXPR_FIELD,
    RECORD_PAT_FIELD,
    ENUM_VARIANT,
    BLOCK_EXPR,
    PATH_EXPR,
    CALL_EXPR,
    BIN_EXPR,
    FIELD_EXPR,
    DEREF_EXPR,
    INDEX_EXPR,
    IF_EXPR,
    LOOP_EXPR,
    MATCH_EXPR,
    FN_LITERAL,
    RECORD_EXPR,
    ENUM_EXPR,
    UNSAFE_BLOCK_EXPR,
    BORROW_EXPR,
    ADDR_OF_EXPR,
    PAREN_EXPR,
    NEG_EXPR,
    ARRAY_EXPR,
    CONST_BLOCK_EXPR,
    RETURN_EXPR,
    BREAK_EXPR,
    CONTINUE_EXPR,
    ELIDED_VARIANT_EXPR,
    PATH_TYPE,
    FN_TYPE,
    RAW_PTR_TYPE,
    BORROW_TYPE,
    UNIT_TYPE,
    NEVER_TYPE,
    HOLE_TYPE,
    RECORD_TYPE,
    ARRAY_TYPE,
    REF_TYPE,
    BIND_PAT,
    WILDCARD_PAT,
    RECORD_PAT,
    VARIANT_PAT,
    NEWTYPE_PAT,
    LITERAL_PAT,
    REST_PAT,
}

/// Whitespace and comments: tokens that carry no syntax.
pub open spec fn spec_is_trivia(k: SyntaxKind) -> bool {
    match k {
        SyntaxKind::WHITESPACE | SyntaxKind::COMMENT => true,
        _ => false,
    }
}

/// The node kinds that are expressions.
pub open spec fn spec_is_expr(k: SyntaxKind) -> bool {
    match k {
        SyntaxKind::BLOCK_EXPR | SyntaxKind::PATH_EXPR | SyntaxKind::CALL_EXPR | SyntaxKind::BIN_EXPR | SyntaxKind::FIELD_EXPR | SyntaxKind::DEREF_EXPR | SyntaxKind::INDEX_EXPR | SyntaxKind::IF_EXPR | SyntaxKind::LOOP_EXPR | SyntaxKind::MATCH_EXPR | SyntaxKind::FN_LITERAL | SyntaxKind::RECORD_EXPR | SyntaxKind::ENUM_EXPR | SyntaxKind::UNSAFE_BLOCK_EXPR | SyntaxKind::BORROW_EXPR | SyntaxKind::ADDR_OF_EXPR | SyntaxKind::PAREN_EXPR | SyntaxKind::NEG_EXPR | SyntaxKind::ARRAY_EXPR | SyntaxKind::CONST_BLOCK_EXPR | SyntaxKind::RETURN_EXPR | SyntaxKind::BREAK_EXPR | SyntaxKind::CONTINUE_EXPR | SyntaxKind::ELIDED_VARIANT_EXPR | SyntaxKind::LITERAL => true,
        _ => false,
    }
}

/// The node kinds that are types.
pub open spec fn spec_is_type(k: SyntaxKind) -> bool {
    match k {
        SyntaxKind::PATH_TYPE | SyntaxKind::FN_TYPE | SyntaxKind::RAW_PTR_TYPE | SyntaxKind::BORROW_TYPE | SyntaxKind::UNIT_TYPE | SyntaxKind::NEVER_TYPE | SyntaxKind::HOLE_TYPE | SyntaxKind::RECORD_TYPE | SyntaxKind::ARRAY_TYPE => true,
        _ => false,
    }
}

/// The node kinds that are patterns.
pub open spec fn spec_is_pat(k: SyntaxKind) -> bool {
    match k {
        SyntaxKind::BIND_PAT | SyntaxKind::WILDCARD_PAT | SyntaxKind::RECORD_PAT | SyntaxKind::VARIANT_PAT | SyntaxKind::NEWTYPE_PAT | SyntaxKind::LITERAL_PAT | SyntaxKind::REST_PAT => true,
        _ => false,
    }
}

/// The node kinds that are generic parameters.
pub open spec fn spec_is_generic_param(k: SyntaxKind) -> bool {
    match k {
        SyntaxKind::REGION_PARAM | SyntaxKind::TYPE_PARAM | SyntaxKind::CONST_PARAM => true,
        _ => false,
    }
}

impl SyntaxKind {
    /// Whether this kind is trivia (whitespace or a comment).
    pub fn is_trivia(self) -> (b: bool)
        ensures
            b == spec_is_trivia(self),
    {
        match self {
            SyntaxKind::WHITESPACE | SyntaxKind::COMMENT => true,
            _ => false,
        }
    }
}

/// A class of node kinds: one kind, or one of the syntactic categories.
#[derive(Clone, Copy, Debug, PartialEq, Eq, Structural)]
pub enum Class {
    Kind(SyntaxKind),
    Expr,
    Type,
    Pat,
    GenericParam,
}

/// Whether `k` belongs to the class `c`.
pub open spec fn in_class(k: SyntaxKind, c: Class) -> bool {
    match c {
        Class::Kind(want) => k == want,
        Class::Expr => spec_is_expr(k),
        Class::Type => spec_is_type(k),
        Class::Pat => spec_is_pat(k),
        Class::GenericParam => spec_is_generic_param(k),
    }
}

/// Whether `k` belongs to the class `c`.
pub fn class_contains(c: Class, k: SyntaxKind) -> (b: bool)
    ensures
        b == in_class(k, c),
{
    match c {
        Class::Kind(want) => k == want,

        Class::Expr => match k {
            SyntaxKind::BLOCK_EXPR | SyntaxKind::PATH_EXPR | SyntaxKind::CALL_EXPR | SyntaxKind::BIN_EXPR | SyntaxKind::FIELD_EXPR | SyntaxKind::DEREF_EXPR | SyntaxKind::INDEX_EXPR | SyntaxKind::IF_EXPR | SyntaxKind::LOOP_EXPR | SyntaxKind::MATCH_EXPR | SyntaxKind::FN_LITERAL | SyntaxKind::RECORD_EXPR | SyntaxKind::ENUM_EXPR | SyntaxKind::UNSAFE_BLOCK_EXPR | SyntaxKind::BORROW_EXPR | SyntaxKind::ADDR_OF_EXPR | SyntaxKind::PAREN_EXPR | SyntaxKind::NEG_EXPR | SyntaxKind::ARRAY_EXPR | SyntaxKind::CONST_BLOCK_EXPR | SyntaxKind::RETURN_EXPR | SyntaxKind::BREAK_EXPR | SyntaxKind::CONTINUE_EXPR | SyntaxKind::ELIDED_VARIANT_EXPR | SyntaxKind::LITERAL => true,
            _ => false,
        },
        Class::Type => match k {
            SyntaxKind::PATH_TYPE | SyntaxKind::FN_TYPE | SyntaxKind::RAW_PTR_TYPE | SyntaxKind::BORROW_TYPE | SyntaxKind::UNIT_TYPE | SyntaxKind::NEVER_TYPE | SyntaxKind::HOLE_TYPE | SyntaxKind::RECORD_TYPE | SyntaxKind::ARRAY_TYPE => true,
            _ => false,
        },
        Class::Pat => match k {
            SyntaxKind::BIND_PAT | SyntaxKind::WILDCARD_PAT | SyntaxKind::RECORD_PAT | SyntaxKind::VARIANT_PAT | SyntaxKind::NEWTYPE_PAT | SyntaxKind::LITERAL_PAT | SyntaxKind::REST_PAT => true,
            _ => false,
        },
        Class::GenericParam => match k {
            SyntaxKind::REGION_PARAM | SyntaxKind::TYPE_PARAM | SyntaxKind::CONST_PARAM => true,
            _ => false,
        },
    }
}

} // verus!
