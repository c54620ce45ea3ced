use must_syntax::kind::SyntaxKind;
use must_syntax::tree::{Element, NodeData, SyntaxTree, TextRange, TokenData};
use must_syntax::capability::{capabilities, capability_named};
use must_syntax::error::SyntaxError;
use must_syntax::exprs::{
    reject_region_arg_on_borrow_expr, region_arg_at_borrow, BRACE_RULE, CAN_ONLY_ASSIGN_TO_A_VARIABLE,
};
use must_syntax::members::{impl_element_bare_head, semantic_member_context, MemberContext};
use must_syntax::validation::validate;

fn kind_named(name: &str) -> SyntaxKind {
    match name {
        "SOURCE_FILE" => SyntaxKind::SOURCE_FILE,
        "ERROR" => SyntaxKind::ERROR,
        "WHITESPACE" => SyntaxKind::WHITESPACE,
        "COMMENT" => SyntaxKind::COMMENT,
        "ERROR_TOKEN" => SyntaxKind::ERROR_TOKEN,
        "IDENT" => SyntaxKind::IDENT,
        "INT_NUMBER" => SyntaxKind::INT_NUMBER,
        "STRING" => SyntaxKind::STRING,
        "CHAR" => SyntaxKind::CHAR,
        "HOLE" => SyntaxKind::HOLE,
        "LIFETIME_IDENT" => SyntaxKind::LIFETIME_IDENT,
        "REGION_IDENT" => SyntaxKind::REGION_IDENT,
        "AMP" => SyntaxKind::AMP,
        "BANG" => SyntaxKind::BANG,
        "COLON" => SyntaxKind::COLON,
        "COLON2" => SyntaxKind::COLON2,
        "COMMA" => SyntaxKind::COMMA,
        "DOT" => SyntaxKind::DOT,
        "DOT2" => SyntaxKind::DOT2,
        "DOT3" => SyntaxKind::DOT3,
        "EQ" => SyntaxKind::EQ,
        "EQ2" => SyntaxKind::EQ2,
        "FAT_ARROW" => SyntaxKind::FAT_ARROW,
        "L_ANGLE" => SyntaxKind::L_ANGLE,
        "R_ANGLE" => SyntaxKind::R_ANGLE,
        "L_BRACE" => SyntaxKind::L_BRACE,
        "R_BRACE" => SyntaxKind::R_BRACE,
        "L_BRACKET" => SyntaxKind::L_BRACKET,
        "R_BRACKET" => SyntaxKind::R_BRACKET,
        "L_PAREN" => SyntaxKind::L_PAREN,
        "R_PAREN" => SyntaxKind::R_PAREN,
        "MINUS" => SyntaxKind::MINUS,
        "PLUS" => SyntaxKind::PLUS,
        "SEMICOLON" => SyntaxKind::SEMICOLON,
        "SLASH" => SyntaxKind::SLASH,
        "STAR" => SyntaxKind::STAR,
        "THIN_ARROW" => SyntaxKind::THIN_ARROW,
        "AS_KW" => SyntaxKind::AS_KW,
        "BREAK_KW" => SyntaxKind::BREAK_KW,
        "CONST_KW" => SyntaxKind::CONST_KW,
        "CONTINUE_KW" => SyntaxKind::CONTINUE_KW,
        "ELSE_KW" => SyntaxKind::ELSE_KW,
        "ENUM_KW" => SyntaxKind::ENUM_KW,
        "EXTERN_KW" => SyntaxKind::EXTERN_KW,
        "FALSE_KW" => SyntaxKind::FALSE_KW,
        "FN_KW" => SyntaxKind::FN_KW,
        "FOR_KW" => SyntaxKind::FOR_KW,
        "IF_KW" => SyntaxKind::IF_KW,
        "IMPL_KW" => SyntaxKind::IMPL_KW,
        "LET_KW" => SyntaxKind::LET_KW,
        "LOOP_KW" => SyntaxKind::LOOP_KW,
        "MATCH_KW" => SyntaxKind::MATCH_KW,
        "MUT_KW" => SyntaxKind::MUT_KW,
        "PUB_KW" => SyntaxKind::PUB_KW,
        "RAW_KW" => SyntaxKind::RAW_KW,
        "REQUIRES_KW" => SyntaxKind::REQUIRES_KW,
        "RETURN_KW" => SyntaxKind::RETURN_KW,
        "STATIC_KW" => SyntaxKind::STATIC_KW,
        "STRUCT_KW" => SyntaxKind::STRUCT_KW,
        "TRAIT_KW" => SyntaxKind::TRAIT_KW,
        "TRUE_KW" => SyntaxKind::TRUE_KW,
        "TYPE_KW" => SyntaxKind::TYPE_KW,
        "UNSAFE_KW" => SyntaxKind::UNSAFE_KW,
        "WITH_KW" => SyntaxKind::WITH_KW,
        "WITHOUT_KW" => SyntaxKind::WITHOUT_KW,
        "STATIC_ITEM" => SyntaxKind::STATIC_ITEM,
        "TYPE_ITEM" => SyntaxKind::TYPE_ITEM,
        "TRAIT_ITEM" => SyntaxKind::TRAIT_ITEM,
        "TRAIT_ALIAS" => SyntaxKind::TRAIT_ALIAS,
        "REQUIRES_DEF" => SyntaxKind::REQUIRES_DEF,
        "REQUIRES_CLAUSE" => SyntaxKind::REQUIRES_CLAUSE,
        "WITH_GROUP" => SyntaxKind::WITH_GROUP,
        "WITH_CLAUSE" => SyntaxKind::WITH_CLAUSE,
        "WITHOUT_CLAUSE" => SyntaxKind::WITHOUT_CLAUSE,
        "IMPL_ELEMENT" => SyntaxKind::IMPL_ELEMENT,
        "UNSAFE_ELEMENT" => SyntaxKind::UNSAFE_ELEMENT,
        "FOR_ELEMENT" => SyntaxKind::FOR_ELEMENT,
        "MEMBER" => SyntaxKind::MEMBER,
        "NAME" => SyntaxKind::NAME,
        "NAME_REF" => SyntaxKind::NAME_REF,
        "LITERAL" => SyntaxKind::LITERAL,
        "PARAM_LIST" => SyntaxKind::PARAM_LIST,
        "PARAM" => SyntaxKind::PARAM,
        "RET_TYPE" => SyntaxKind::RET_TYPE,
        "GENERIC_PARAM_LIST" => SyntaxKind::GENERIC_PARAM_LIST,
        "TYPE_PARAM" => SyntaxKind::TYPE_PARAM,
        "REGION_PARAM" => SyntaxKind::REGION_PARAM,
        "CONST_PARAM" => SyntaxKind::CONST_PARAM,
        "GENERIC_ARG_LIST" => SyntaxKind::GENERIC_ARG_LIST,
        "MEMBER_GENERIC_ARGS" => SyntaxKind::MEMBER_GENERIC_ARGS,
        "TYPE_ARG" => SyntaxKind::TYPE_ARG,
        "CONST_ARG" => SyntaxKind::CONST_ARG,
        "REGION_ARG" => SyntaxKind::REGION_ARG,
        "NAMED_ARG" => SyntaxKind::NAMED_ARG,
        "ARG_LIST" => SyntaxKind::ARG_LIST,
        "LET_STMT" => SyntaxKind::LET_STMT,
        "ASSIGN_STMT" => SyntaxKind::ASSIGN_STMT,
        "EXPR_STMT" => SyntaxKind::EXPR_STMT,
        "MATCH_ARM" => SyntaxKind::MATCH_ARM,
        "RECORD_TYPE_FIELD" => SyntaxKind::RECORD_TYPE_FIELD,
        "RECORD_EXPR_FIELD" => SyntaxKind::RECORD_EXPR_FIELD,
        "RECORD_PAT_FIELD" => SyntaxKind::RECORD_PAT_FIELD,
        "ENUM_VARIANT" => SyntaxKind::ENUM_VARIANT,
        "BLOCK_EXPR" => SyntaxKind::BLOCK_EXPR,
        "PATH_EXPR" => SyntaxKind::PATH_EXPR,
        "CALL_EXPR" => SyntaxKind::CALL_EXPR,
        "BIN_EXPR" => SyntaxKind::BIN_EXPR,
        "FIELD_EXPR" => SyntaxKind::FIELD_EXPR,
        "DEREF_EXPR" => SyntaxKind::DEREF_EXPR,
        "INDEX_EXPR" => SyntaxKind::INDEX_EXPR,
        "IF_EXPR" => SyntaxKind::IF_EXPR,
        "LOOP_EXPR" => SyntaxKind::LOOP_EXPR,
        "MATCH_EXPR" => SyntaxKind::MATCH_EXPR,
        "FN_LITERAL" => SyntaxKind::FN_LITERAL,
        "RECORD_EXPR" => SyntaxKind::RECORD_EXPR,
        "ENUM_EXPR" => SyntaxKind::ENUM_EXPR,
        "UNSAFE_BLOCK_EXPR" => SyntaxKind::UNSAFE_BLOCK_EXPR,
        "BORROW_EXPR" => SyntaxKind::BORROW_EXPR,
        "ADDR_OF_EXPR" => SyntaxKind::ADDR_OF_EXPR,
        "PAREN_EXPR" => SyntaxKind::PAREN_EXPR,
        "NEG_EXPR" => SyntaxKind::NEG_EXPR,
        "ARRAY_EXPR" => SyntaxKind::ARRAY_EXPR,
        "CONST_BLOCK_EXPR" => SyntaxKind::CONST_BLOCK_EXPR,
        "RETURN_EXPR" => SyntaxKind::RETURN_EXPR,
        "BREAK_EXPR" => SyntaxKind::BREAK_EXPR,
        "CONTINUE_EXPR" => SyntaxKind::CONTINUE_EXPR,
        "ELIDED_VARIANT_EXPR" => SyntaxKind::ELIDED_VARIANT_EXPR,
        "PATH_TYPE" => SyntaxKind::PATH_TYPE,
        "FN_TYPE" => SyntaxKind::FN_TYPE,
        "RAW_PTR_TYPE" => SyntaxKind::RAW_PTR_TYPE,
        "BORROW_TYPE" => SyntaxKind::BORROW_TYPE,
        "UNIT_TYPE" => SyntaxKind::UNIT_TYPE,
        "NEVER_TYPE" => SyntaxKind::NEVER_TYPE,
        "HOLE_TYPE" => SyntaxKind::HOLE_TYPE,
        "RECORD_TYPE" => SyntaxKind::RECORD_TYPE,
        "ARRAY_TYPE" => SyntaxKind::ARRAY_TYPE,
        "REF_TYPE" => SyntaxKind::REF_TYPE,
        "BIND_PAT" => SyntaxKind::BIND_PAT,
        "WILDCARD_PAT" => SyntaxKind::WILDCARD_PAT,
        "RECORD_PAT" => SyntaxKind::RECORD_PAT,
        "VARIANT_PAT" => SyntaxKind::VARIANT_PAT,
        "NEWTYPE_PAT" => SyntaxKind::NEWTYPE_PAT,
        "LITERAL_PAT" => SyntaxKind::LITERAL_PAT,
        "REST_PAT" => SyntaxKind::REST_PAT,
        other => panic!("unknown kind {other}"),
    }
}

/// Builds the tree for `input` from an indented shape: a line `KIND` opens
/// a node (its children are the lines indented below it), a line
/// `KIND text` is a token. Whitespace is not written: it is taken from
/// `input` and attached to the innermost open node, as a parser would.
fn tree(input: &str, shape: &str) -> SyntaxTree {
    let mut nodes: Vec<NodeData> = Vec::new();
    let mut tokens: Vec<TokenData> = Vec::new();
    let mut open: Vec<(usize, usize)> = Vec::new(); // (indent, node)
    let mut pos: usize = 0;
    let bytes = input.as_bytes();

    fn close(nodes: &mut Vec<NodeData>, open: &mut Vec<(usize, usize)>, end: usize) {
        let (_, n) = open.pop().unwrap();
        nodes[n].range.end = end as u32;
    }
    fn whitespace(
        input: &str,
        pos: &mut usize,
        nodes: &mut Vec<NodeData>,
        tokens: &mut Vec<TokenData>,
        parent: usize,
    ) {
        let start = *pos;
        while *pos < input.len() && input.as_bytes()[*pos].is_ascii_whitespace() {
            *pos += 1;
        }
        if *pos > start {
            let t = tokens.len();
            tokens.push(TokenData {
                kind: SyntaxKind::WHITESPACE,
                parent,
                text: input[start..*pos].to_owned(),
                range: TextRange { start: start as u32, end: *pos as u32 },
            });
            nodes[parent].children.push(Element::Token(t));
        }
    }

    let mut last_end: usize = 0;
    for line in shape.lines() {
        if line.trim().is_empty() {
            continue;
        }
        let indent = line.len() - line.trim_start().len();
        let body = line.trim_start();
        let (kind_name, text) = match body.split_once(' ') {
            Some((k, t)) => (k, Some(t)),
            None => (body, None),
        };
        let kind = kind_named(kind_name);
        while let Some(&(i, _)) = open.last() {
            if i >= indent {
                close(&mut nodes, &mut open, last_end);
            } else {
                break;
            }
        }
        let parent = open.last().map(|&(_, n)| n);
        if let Some(p) = parent {
            whitespace(input, &mut pos, &mut nodes, &mut tokens, p);
        }
        match text {
            None => {
                let n = nodes.len();
                nodes.push(NodeData {
                    kind,
                    parent,
                    children: Vec::new(),
                    range: TextRange { start: pos as u32, end: pos as u32 },
                });
                if let Some(p) = parent {
                    nodes[p].children.push(Element::Node(n));
                }
                open.push((indent, n));
                last_end = pos;
            }
            Some(text) => {
                let p = parent.expect("a token needs a node");
                assert!(
                    input[pos..].starts_with(text),
                    "token `{text}` does not match the input at {pos}: {:?}",
                    &input[pos..]
                );
                let t = tokens.len();
                tokens.push(TokenData {
                    kind,
                    parent: p,
                    text: text.to_owned(),
                    range: TextRange { start: pos as u32, end: (pos + text.len()) as u32 },
                });
                nodes[p].children.push(Element::Token(t));
                pos += text.len();
                last_end = pos;
            }
        }
    }
    // Trailing whitespace belongs to the root.
    if !open.is_empty() {
        let root = open[0].1;
        while open.len() > 1 {
            close(&mut nodes, &mut open, last_end);
        }
        whitespace(input, &mut pos, &mut nodes, &mut tokens, root);
        close(&mut nodes, &mut open, pos);
    }
    assert_eq!(pos, bytes.len(), "the shape does not cover the whole input");
    SyntaxTree::from_parts(nodes, tokens).expect("a well-formed tree")
}

/// The tree as a dump: one line per node or token, in tree order.
fn debug_dump(tree: &SyntaxTree) -> String {
    fn go(tree: &SyntaxTree, n: usize, depth: usize, out: &mut String) {
        let node = &tree.nodes[n];
        out.push_str(&format!(
            "{}{:?}@{}..{}\n",
            "  ".repeat(depth),
            node.kind,
            node.range.start,
            node.range.end
        ));
        for child in &node.children {
            match *child {
                Element::Node(c) => go(tree, c, depth + 1, out),
                Element::Token(t) => {
                    let token = &tree.tokens[t];
                    out.push_str(&format!(
                        "{}{:?}@{}..{} {:?}\n",
                        "  ".repeat(depth + 1),
                        token.kind,
                        token.range.start,
                        token.range.end,
                        token.text
                    ));
                }
            }
        }
    }
    let mut out = String::new();
    go(tree, 0, 0, &mut out);
    out
}

/// The tree's node/token kinds in order, with offsets and text dropped.
fn node_kinds(tree: &SyntaxTree) -> Vec<String> {
    debug_dump(tree)
        .lines()
        .filter_map(|line| line.split_once('@'))
        .map(|(kind, _)| kind.trim().to_owned())
        .collect()
}

fn without_colon2(kinds: Vec<String>) -> Vec<String> {
    kinds.into_iter().filter(|kind| kind != "COLON2").collect()
}

fn messages(tree: &SyntaxTree) -> Vec<String> {
    validate(tree).iter().map(|error| error.message.clone()).collect()
}

fn prepend(first: &str, rest: Vec<String>) -> Vec<String> {
    std::iter::once(first.to_owned()).chain(rest).collect()
}

// The trees below are the ones the parser builds for each input (each
// token's text is checked against the input by `tree`).

/// `static s = fn { let g = <path>; let n = 1; };` around a path's shape.
fn member_turbofish_tree(input: &str, path: &str) -> SyntaxTree {
    let shape = format!(
        "SOURCE_FILE
  STATIC_ITEM
    STATIC_KW static
    NAME
      IDENT s
    EQ =
    FN_LITERAL
      FN_KW fn
      BLOCK_EXPR
        L_BRACE {{
        LET_STMT
          LET_KW let
          BIND_PAT
            NAME
              IDENT g
          EQ =
{path}
          SEMICOLON ;
        LET_STMT
          LET_KW let
          BIND_PAT
            NAME
              IDENT n
          EQ =
          LITERAL
            INT_NUMBER 1
          SEMICOLON ;
        R_BRACE }}
    SEMICOLON ;
"
    );
    tree(input, &shape)
}

#[test]
fn member_turbofish_reports_no_parse_error_and_the_rest_parses() {
    let member_args = |arg: &str| {
        format!(
            "            MEMBER_GENERIC_ARGS
              COLON2 ::
              GENERIC_ARG_LIST
                L_ANGLE <
{arg}
                R_ANGLE >"
        )
    };
    let usize_arg = "                TYPE_ARG
                  PATH_TYPE
                    NAME_REF
                      IDENT usize";
    let cases = [
        (
            "static s = fn { let g = P::len::<usize>; let n = 1; };",
            format!(
                "          PATH_EXPR
            NAME_REF
              IDENT P
            COLON2 ::
            NAME_REF
              IDENT len
{}",
                member_args(usize_arg)
            ),
        ),
        (
            "static s = fn { let g = Shape::Circle::<usize>; let n = 1; };",
            format!(
                "          PATH_EXPR
            NAME_REF
              IDENT Shape
            COLON2 ::
            NAME_REF
              IDENT Circle
{}",
                member_args(usize_arg)
            ),
        ),
        (
            "static s = fn { let g = Pair::<usize>::first::<T>; let n = 1; };",
            format!(
                "          PATH_EXPR
            NAME_REF
              IDENT Pair
            COLON2 ::
            GENERIC_ARG_LIST
              L_ANGLE <
              TYPE_ARG
                PATH_TYPE
                  NAME_REF
                    IDENT usize
              R_ANGLE >
            COLON2 ::
            NAME_REF
              IDENT first
{}",
                member_args(
                    "                TYPE_ARG
                  PATH_TYPE
                    NAME_REF
                      IDENT T"
                )
            ),
        ),
        (
            "static s = fn { let g = D::<Self = usize>::m::<usize>; let n = 1; };",
            format!(
                "          PATH_EXPR
            NAME_REF
              IDENT D
            COLON2 ::
            GENERIC_ARG_LIST
              L_ANGLE <
              NAMED_ARG
                NAME_REF
                  IDENT Self
                EQ =
                PATH_TYPE
                  NAME_REF
                    IDENT usize
              R_ANGLE >
            COLON2 ::
            NAME_REF
              IDENT m
{}",
                member_args(usize_arg)
            ),
        ),
        (
            "static s = fn { let g = P::len::<const { 1 + 1 }>; let n = 1; };",
            format!(
                "          PATH_EXPR
            NAME_REF
              IDENT P
            COLON2 ::
            NAME_REF
              IDENT len
{}",
                member_args(
                    "                CONST_ARG
                  CONST_BLOCK_EXPR
                    CONST_KW const
                    BLOCK_EXPR
                      L_BRACE {
                      BIN_EXPR
                        LITERAL
                          INT_NUMBER 1
                        PLUS +
                        LITERAL
                          INT_NUMBER 1
                      R_BRACE }"
                )
            ),
        ),
    ];
    for (input, path) in cases {
        let parse = member_turbofish_tree(input, &path);
        let errors = validate(&parse);
        assert_eq!(
            errors.len(),
            0,
            "`{input}` should parse clean, got {:?}",
            errors
        );
        let dump = debug_dump(&parse);
        assert_eq!(
            dump.matches("LET_STMT").count(),
            2,
            "`{input}` lost the following statement:\n{dump}"
        );
    }
}

/// `Option<usize>` as a bare-angle path type, at the given depth.
fn bare_option(indent: usize) -> String {
    let pad = " ".repeat(indent);
    format!(
        "{pad}PATH_TYPE
{pad}  NAME_REF
{pad}    IDENT Option
{pad}  GENERIC_ARG_LIST
{pad}    L_ANGLE <
{pad}    TYPE_ARG
{pad}      PATH_TYPE
{pad}        NAME_REF
{pad}          IDENT usize
{pad}    R_ANGLE >"
    )
}

fn path_type(indent: usize, name: &str) -> String {
    let pad = " ".repeat(indent);
    format!(
        "{pad}PATH_TYPE
{pad}  NAME_REF
{pad}    IDENT {name}"
    )
}

fn path_expr(indent: usize, name: &str) -> String {
    let pad = " ".repeat(indent);
    format!(
        "{pad}PATH_EXPR
{pad}  NAME_REF
{pad}    IDENT {name}"
    )
}

#[test]
fn bare_angle_type_position_every_slot_gets_one_diagnostic() {
    let zero_body = "      BLOCK_EXPR
        L_BRACE {
        LITERAL
          INT_NUMBER 0
        R_BRACE }";
    let cases = [
        (
            "static f = fn () -> Option<usize> { 0 };",
            format!(
                "SOURCE_FILE
  STATIC_ITEM
    STATIC_KW static
    NAME
      IDENT f
    EQ =
    FN_LITERAL
      FN_KW fn
      PARAM_LIST
        L_PAREN (
        R_PAREN )
      RET_TYPE
        THIN_ARROW ->
{}
{zero_body}
    SEMICOLON ;",
                bare_option(8)
            ),
        ),
        (
            "static f = fn (x: Option<usize>) -> usize { 0 };",
            format!(
                "SOURCE_FILE
  STATIC_ITEM
    STATIC_KW static
    NAME
      IDENT f
    EQ =
    FN_LITERAL
      FN_KW fn
      PARAM_LIST
        L_PAREN (
        PARAM
          BIND_PAT
            NAME
              IDENT x
          COLON :
{}
        R_PAREN )
      RET_TYPE
        THIN_ARROW ->
{}
{zero_body}
    SEMICOLON ;",
                bare_option(10),
                path_type(8, "usize")
            ),
        ),
        (
            "type R = struct { x: Option<usize> };",
            format!(
                "SOURCE_FILE
  TYPE_ITEM
    TYPE_KW type
    NAME
      IDENT R
    EQ =
    RECORD_EXPR
      STRUCT_KW struct
      L_BRACE {{
      RECORD_EXPR_FIELD
        NAME_REF
          IDENT x
        COLON :
{}
      R_BRACE }}
    SEMICOLON ;",
                bare_option(8)
            ),
        ),
        (
            "static x: Option<usize> = y;",
            format!(
                "SOURCE_FILE
  STATIC_ITEM
    STATIC_KW static
    NAME
      IDENT x
    COLON :
{}
    EQ =
{}
    SEMICOLON ;",
                bare_option(4),
                path_expr(4, "y")
            ),
        ),
        (
            "static x: Pair::<Option<usize>> = y;",
            format!(
                "SOURCE_FILE
  STATIC_ITEM
    STATIC_KW static
    NAME
      IDENT x
    COLON :
    PATH_TYPE
      NAME_REF
        IDENT Pair
      COLON2 ::
      GENERIC_ARG_LIST
        L_ANGLE <
        TYPE_ARG
{}
        R_ANGLE >
    EQ =
{}
    SEMICOLON ;",
                bare_option(10),
                path_expr(4, "y")
            ),
        ),
    ];
    for (input, shape) in cases {
        let parse = tree(input, &shape);
        let errors = validate(&parse);
        assert_eq!(
            errors.len(),
            1,
            "`{input}` should get exactly one diagnostic, got {errors:?}"
        );
        assert_eq!(
            errors[0].message, "generic arguments use the turbofish: write `Option::<...>`",
            "`{input}`"
        );
    }
}

#[test]
fn bare_angle_ordering_chain_with_parens_is_read_as_a_call() {
    let input = "static x = fn { let z = a < b > (d); z };";
    let parse = tree(
        input,
        "SOURCE_FILE
  STATIC_ITEM
    STATIC_KW static
    NAME
      IDENT x
    EQ =
    FN_LITERAL
      FN_KW fn
      BLOCK_EXPR
        L_BRACE {
        LET_STMT
          LET_KW let
          BIND_PAT
            NAME
              IDENT z
          EQ =
          CALL_EXPR
            PATH_EXPR
              NAME_REF
                IDENT a
              GENERIC_ARG_LIST
                L_ANGLE <
                TYPE_ARG
                  PATH_TYPE
                    NAME_REF
                      IDENT b
                R_ANGLE >
            ARG_LIST
              L_PAREN (
              PATH_EXPR
                NAME_REF
                  IDENT d
              R_PAREN )
          SEMICOLON ;
        PATH_EXPR
          NAME_REF
            IDENT z
        R_BRACE }
    SEMICOLON ;",
    );
    assert_eq!(
        messages(&parse),
        ["generic arguments use the turbofish: write `a::<...>`"]
    );
}

/// `a < b`, a comparison of two names.
fn less_than(indent: usize, a: &str, op_kind: &str, op: &str, b: &str) -> String {
    let pad = " ".repeat(indent);
    format!(
        "{pad}BIN_EXPR
{}
{pad}  {op_kind} {op}
{}",
        path_expr(indent + 2, a),
        path_expr(indent + 2, b)
    )
}

fn param(indent: usize, name: &str, ty: &str) -> String {
    let pad = " ".repeat(indent);
    format!(
        "{pad}PARAM
{pad}  BIND_PAT
{pad}    NAME
{pad}      IDENT {name}
{pad}  COLON :
{}",
        path_type(indent + 2, ty)
    )
}

#[test]
fn bare_angle_top_level_comma_keeps_the_comparison_reading() {
    let valid =
        "static n = fn (a: usize, b: usize, c: usize, d: usize) -> bool { g(a < b, c > (d)) };";
    let valid_tree = tree(
        valid,
        &format!(
            "SOURCE_FILE
  STATIC_ITEM
    STATIC_KW static
    NAME
      IDENT n
    EQ =
    FN_LITERAL
      FN_KW fn
      PARAM_LIST
        L_PAREN (
{}
        COMMA ,
{}
        COMMA ,
{}
        COMMA ,
{}
        R_PAREN )
      RET_TYPE
        THIN_ARROW ->
{}
      BLOCK_EXPR
        L_BRACE {{
        CALL_EXPR
{}
          ARG_LIST
            L_PAREN (
{}
            COMMA ,
            BIN_EXPR
{}
              R_ANGLE >
              PAREN_EXPR
                L_PAREN (
{}
                R_PAREN )
            R_PAREN )
        R_BRACE }}
    SEMICOLON ;",
            param(8, "a", "usize"),
            param(8, "b", "usize"),
            param(8, "c", "usize"),
            param(8, "d", "usize"),
            path_type(8, "bool"),
            path_expr(10, "g"),
            less_than(12, "a", "L_ANGLE", "<", "b"),
            path_expr(14, "c"),
            path_expr(18, "d")
        ),
    );
    assert_eq!(messages(&valid_tree), Vec::<String>::new());
    assert!(!node_kinds(&valid_tree).contains(&"GENERIC_ARG_LIST".to_owned()));
    let call = tree(
        "static u = fn { p<usize, usize>(1, 2) };",
        &format!(
            "SOURCE_FILE
  STATIC_ITEM
    STATIC_KW static
    NAME
      IDENT u
    EQ =
    FN_LITERAL
      FN_KW fn
      BLOCK_EXPR
        L_BRACE {{
{}
        ERROR
          COMMA ,
        EXPR_STMT
          BIN_EXPR
{}
            R_ANGLE >
            PAREN_EXPR
              L_PAREN (
              LITERAL
                INT_NUMBER 1
              ERROR
                COMMA ,
              LITERAL
                INT_NUMBER 2
              R_PAREN )
        R_BRACE }}
    SEMICOLON ;",
            less_than(8, "p", "L_ANGLE", "<", "usize"),
            path_expr(12, "usize")
        ),
    );
    assert_eq!(
        messages(&call)
            .iter()
            .filter(|message| message.contains("turbofish"))
            .count(),
        0
    );
}

#[test]
fn bare_angle_angles_inside_a_pair_close_nothing() {
    let valid = "static n = fn (a: usize, b: usize, c: usize) -> bool { a < f(b > (c)) };";
    let parse = tree(
        valid,
        &format!(
            "SOURCE_FILE
  STATIC_ITEM
    STATIC_KW static
    NAME
      IDENT n
    EQ =
    FN_LITERAL
      FN_KW fn
      PARAM_LIST
        L_PAREN (
{}
        COMMA ,
{}
        COMMA ,
{}
        R_PAREN )
      RET_TYPE
        THIN_ARROW ->
{}
      BLOCK_EXPR
        L_BRACE {{
        BIN_EXPR
{}
          L_ANGLE <
          CALL_EXPR
{}
            ARG_LIST
              L_PAREN (
              BIN_EXPR
{}
                R_ANGLE >
                PAREN_EXPR
                  L_PAREN (
{}
                  R_PAREN )
              R_PAREN )
        R_BRACE }}
    SEMICOLON ;",
            param(8, "a", "usize"),
            param(8, "b", "usize"),
            param(8, "c", "usize"),
            path_type(8, "bool"),
            path_expr(10, "a"),
            path_expr(12, "f"),
            path_expr(16, "b"),
            path_expr(20, "c")
        ),
    );
    assert_eq!(messages(&parse), Vec::<String>::new());
    assert!(!node_kinds(&parse).contains(&"GENERIC_ARG_LIST".to_owned()));
}

#[test]
fn bare_angle_assoc_shape_takes_a_comma() {
    let parse = tree(
        "static x = Pair<A, B>::first;",
        "SOURCE_FILE
  STATIC_ITEM
    STATIC_KW static
    NAME
      IDENT x
    EQ =
    PATH_EXPR
      NAME_REF
        IDENT Pair
      GENERIC_ARG_LIST
        L_ANGLE <
        TYPE_ARG
          PATH_TYPE
            NAME_REF
              IDENT A
        COMMA ,
        TYPE_ARG
          PATH_TYPE
            NAME_REF
              IDENT B
        R_ANGLE >
      COLON2 ::
      NAME_REF
        IDENT first
    SEMICOLON ;",
    );
    assert_eq!(
        messages(&parse),
        ["generic arguments use the turbofish: write `Pair::<...>`"]
    );
}

/// `static f = fn (b: Boxed<usize) -> usize { b.value };`, bare or with
/// the turbofish: the group never closes.
fn unclosed_group_tree(turbofish: bool) -> SyntaxTree {
    let (input, colon2) = if turbofish {
        (
            "static f = fn (b: Boxed::<usize) -> usize { b.value };",
            "\n            COLON2 ::",
        )
    } else {
        ("static f = fn (b: Boxed<usize) -> usize { b.value };", "")
    };
    tree(
        input,
        &format!(
            "SOURCE_FILE
  STATIC_ITEM
    STATIC_KW static
    NAME
      IDENT f
    EQ =
    FN_LITERAL
      FN_KW fn
      PARAM_LIST
        L_PAREN (
        PARAM
          BIND_PAT
            NAME
              IDENT b
          COLON :
          PATH_TYPE
            NAME_REF
              IDENT Boxed{colon2}
            GENERIC_ARG_LIST
              L_ANGLE <
              TYPE_ARG
                PATH_TYPE
                  NAME_REF
                    IDENT usize
        R_PAREN )
      RET_TYPE
        THIN_ARROW ->
{}
      BLOCK_EXPR
        L_BRACE {{
        FIELD_EXPR
{}
          DOT .
          NAME_REF
            IDENT value
        R_BRACE }}
    SEMICOLON ;",
            path_type(8, "usize"),
            path_expr(10, "b")
        ),
    )
}

#[test]
fn bare_angle_unclosed_group_parses_as_the_turbofish_would() {
    assert_eq!(
        node_kinds(&unclosed_group_tree(false)),
        without_colon2(node_kinds(&unclosed_group_tree(true)))
    );
    assert_eq!(
        messages(&unclosed_group_tree(false)),
        prepend(
            "generic arguments use the turbofish: write `Boxed::<...>`",
            messages(&unclosed_group_tree(true))
        )
    );
}

/// `static x: Boxed<N + 1> = y;`, bare or with the turbofish: the junk
/// argument is parsed, not swallowed.
fn junk_arguments_tree(turbofish: bool) -> SyntaxTree {
    let (input, colon2) = if turbofish {
        ("static x: Boxed::<N + 1> = y;", "\n      COLON2 ::")
    } else {
        ("static x: Boxed<N + 1> = y;", "")
    };
    tree(
        input,
        &format!(
            "SOURCE_FILE
  STATIC_ITEM
    STATIC_KW static
    NAME
      IDENT x
    COLON :
    PATH_TYPE
      NAME_REF
        IDENT Boxed{colon2}
      GENERIC_ARG_LIST
        L_ANGLE <
        TYPE_ARG
          PATH_TYPE
            NAME_REF
              IDENT N
        ERROR
          PLUS +
        CONST_ARG
          LITERAL
            INT_NUMBER 1
        R_ANGLE >
    EQ =
{}
    SEMICOLON ;",
            path_expr(4, "y")
        ),
    )
}

#[test]
fn bare_angle_junk_arguments_report_as_the_turbofish_would() {
    assert_eq!(
        node_kinds(&junk_arguments_tree(false)),
        without_colon2(node_kinds(&junk_arguments_tree(true)))
    );
    assert_eq!(
        messages(&junk_arguments_tree(false)),
        prepend(
            "generic arguments use the turbofish: write `Boxed::<...>`",
            messages(&junk_arguments_tree(true))
        )
    );
}

#[test]
fn bare_angle_typo_survives_at_the_member_boundary() {
    let parse = tree(
        "type Pair = struct { a: usize } with { \
         impl Self { \
         bad = fn () -> Option<usize> { 0 }; \
         after = fn (s: Self) -> usize { s.a }; \
         } };",
        &format!(
            "SOURCE_FILE
  TYPE_ITEM
    TYPE_KW type
    NAME
      IDENT Pair
    EQ =
    RECORD_EXPR
      STRUCT_KW struct
      L_BRACE {{
      RECORD_EXPR_FIELD
        NAME_REF
          IDENT a
        COLON :
{}
      R_BRACE }}
    WITH_GROUP
      WITH_KW with
      L_BRACE {{
      IMPL_ELEMENT
        IMPL_KW impl
{}
        L_BRACE {{
        MEMBER
          NAME
            IDENT bad
          EQ =
          FN_LITERAL
            FN_KW fn
            PARAM_LIST
              L_PAREN (
              R_PAREN )
            RET_TYPE
              THIN_ARROW ->
{}
            BLOCK_EXPR
              L_BRACE {{
              LITERAL
                INT_NUMBER 0
              R_BRACE }}
          SEMICOLON ;
        MEMBER
          NAME
            IDENT after
          EQ =
          FN_LITERAL
            FN_KW fn
            PARAM_LIST
              L_PAREN (
{}
              R_PAREN )
            RET_TYPE
              THIN_ARROW ->
{}
            BLOCK_EXPR
              L_BRACE {{
              FIELD_EXPR
{}
                DOT .
                NAME_REF
                  IDENT a
              R_BRACE }}
          SEMICOLON ;
        R_BRACE }}
      R_BRACE }}
    SEMICOLON ;",
            path_type(8, "usize"),
            path_type(8, "Self"),
            bare_option(14),
            param(14, "s", "Self"),
            path_type(14, "usize"),
            path_expr(16, "s")
        ),
    );
    let errors = validate(&parse);
    assert_eq!(
        errors.len(),
        1,
        "expected only the turbofish hint, got {:?}",
        errors
    );
    assert_eq!(
        errors[0].message,
        "generic arguments use the turbofish: write `Option::<...>`"
    );
    let dump = debug_dump(&parse);
    assert_eq!(
        dump.matches("MEMBER@").count(),
        2,
        "`after` did not survive as its own member:\n{dump}"
    );
    assert!(
        dump.contains("\"after\""),
        "`after`'s name did not survive:\n{dump}"
    );
}

#[test]
fn bare_angle_typo_survives_at_the_item_boundary() {
    let parse = tree(
        "type Bad = struct { x: Option<usize> };\n\
         static after = 1;\n",
        &format!(
            "SOURCE_FILE
  TYPE_ITEM
    TYPE_KW type
    NAME
      IDENT Bad
    EQ =
    RECORD_EXPR
      STRUCT_KW struct
      L_BRACE {{
      RECORD_EXPR_FIELD
        NAME_REF
          IDENT x
        COLON :
{}
      R_BRACE }}
    SEMICOLON ;
  STATIC_ITEM
    STATIC_KW static
    NAME
      IDENT after
    EQ =
    LITERAL
      INT_NUMBER 1
    SEMICOLON ;",
            bare_option(8)
        ),
    );
    let errors = validate(&parse);
    assert_eq!(
        errors.len(),
        1,
        "expected only the turbofish hint, got {:?}",
        errors
    );
    let dump = debug_dump(&parse);
    assert!(
        dump.contains("STATIC_ITEM") && dump.contains("\"after\""),
        "the item after the bad one did not survive:\n{dump}"
    );
}

/// A `match` whose first arm is `0 => a < b` and whose second arm's
/// value is `second`.
fn match_arms_tree(input: &str, ret: &str, second: String) -> SyntaxTree {
    tree(
        input,
        &format!(
            "SOURCE_FILE
  STATIC_ITEM
    STATIC_KW static
    NAME
      IDENT m
    EQ =
    FN_LITERAL
      FN_KW fn
      PARAM_LIST
        L_PAREN (
{}
        COMMA ,
{}
        COMMA ,
{}
        R_PAREN )
      RET_TYPE
        THIN_ARROW ->
{}
      BLOCK_EXPR
        L_BRACE {{
        MATCH_EXPR
          MATCH_KW match
{}
          L_BRACE {{
          MATCH_ARM
            LITERAL_PAT
              LITERAL
                INT_NUMBER 0
            FAT_ARROW =>
{}
            COMMA ,
          MATCH_ARM
            WILDCARD_PAT
              HOLE _
            FAT_ARROW =>
{second}
          R_BRACE }}
        R_BRACE }}
    SEMICOLON ;",
            param(8, "k", "usize"),
            param(8, "a", "usize"),
            param(8, "b", "usize"),
            path_type(8, ret),
            path_expr(10, "k"),
            less_than(12, "a", "L_ANGLE", "<", "b"),
        ),
    )
}

#[test]
fn bare_angle_match_arms_untouched() {
    let first = match_arms_tree(
        "static m = fn (k: usize, a: usize, b: usize) -> bool { match k { 0 => a < b, _ => a > (b + 1) } };",
        "bool",
        format!(
            "            BIN_EXPR
{}
              R_ANGLE >
              PAREN_EXPR
                L_PAREN (
                BIN_EXPR
{}
                  PLUS +
                  LITERAL
                    INT_NUMBER 1
                R_PAREN )",
            path_expr(14, "a"),
            path_expr(18, "b")
        ),
    );
    let second = match_arms_tree(
        "static m = fn (k: usize, a: usize, b: usize) -> usize { match k { 0 => a < b, _ => b > ::Foo } };",
        "usize",
        format!(
            "            BIN_EXPR
{}
              R_ANGLE >
              ELIDED_VARIANT_EXPR
                COLON2 ::
                NAME_REF
                  IDENT Foo",
            path_expr(14, "b")
        ),
    );
    for parse in [first, second] {
        assert!(!node_kinds(&parse).contains(&"GENERIC_ARG_LIST".to_owned()));
        // The arm's integer pattern is the only thing validation says.
        assert_eq!(
            messages(&parse),
            ["integer literal patterns are not supported yet; only character literals (`'x'`) can be matched"]
        );
    }
}

// ---------------------------------------------------------------------------
// One check at a time: each rule's message, range and fix on a small tree.
// ---------------------------------------------------------------------------

/// Each diagnostic as its message and range.
fn report(tree: &SyntaxTree) -> Vec<(String, u32, u32)> {
    validate(tree)
        .into_iter()
        .map(|error| (error.message, error.range.start, error.range.end))
        .collect()
}

fn diag(message: &str, range: (u32, u32)) -> (String, u32, u32) {
    (message.to_owned(), range.0, range.1)
}

/// A diagnostic's fix as its label and its edits (start, end, insert).
fn fix_of(error: &SyntaxError) -> Option<(String, Vec<(u32, u32, String)>)> {
    error.fix.as_ref().map(|fix| {
        (
            fix.label.clone(),
            fix.edits
                .iter()
                .map(|edit| (edit.range.start, edit.range.end, edit.insert.clone()))
                .collect(),
        )
    })
}

fn edit(start: u32, end: u32, insert: &str) -> (u32, u32, String) {
    (start, end, insert.to_owned())
}

/// The range of the `nth` occurrence (from 0) of `needle` in `input`.
fn span(input: &str, needle: &str, nth: usize) -> (u32, u32) {
    let start = input
        .match_indices(needle)
        .nth(nth)
        .unwrap_or_else(|| panic!("`{needle}` occurs fewer than {} times", nth + 1))
        .0;
    (start as u32, (start + needle.len()) as u32)
}

/// The id of the `nth` node (from 0) of kind `kind`, in tree order.
fn nth_node(tree: &SyntaxTree, kind: SyntaxKind, nth: usize) -> usize {
    (0..tree.nodes.len())
        .filter(|&n| tree.nodes[n].kind == kind)
        .nth(nth)
        .expect("such a node")
}

/// `static f = fn <body>;` around the shape of the body (indented by 6).
fn fn_item_tree(input: &str, body: &str) -> SyntaxTree {
    let shape = format!(
        "SOURCE_FILE
  STATIC_ITEM
    STATIC_KW static
    NAME
      IDENT f
    EQ =
    FN_LITERAL
      FN_KW fn
{body}
    SEMICOLON ;
"
    );
    tree(input, &shape)
}

#[test]
fn a_fn_body_that_is_not_a_block_is_wrapped() {
    let input = "static f = fn 1;";
    let parse = fn_item_tree(
        input,
        "      LITERAL
        INT_NUMBER 1",
    );
    let errors = validate(&parse);
    assert_eq!(errors.len(), 1);
    assert_eq!(errors[0].message, format!("{BRACE_RULE}; wrap this expression in `{{ }}`"));
    assert_eq!(errors[0].message, "function bodies are blocks; wrap this expression in `{ }`");
    assert_eq!((errors[0].range.start, errors[0].range.end), (14, 15));
    assert_eq!(
        fix_of(&errors[0]),
        Some(("Wrap in `{ }`".to_owned(), vec![edit(14, 14, "{ "), edit(15, 15, " }")]))
    );
}

#[test]
fn a_block_body_is_accepted() {
    let parse = fn_item_tree(
        "static f = fn {};",
        "      BLOCK_EXPR
        L_BRACE {
        R_BRACE }",
    );
    assert!(validate(&parse).is_empty());
}

#[test]
fn if_and_else_branches_are_blocks() {
    let input = "static f = fn { if c 1 else 2 };";
    let parse = fn_item_tree(
        input,
        "      BLOCK_EXPR
        L_BRACE {
        IF_EXPR
          IF_KW if
          PATH_EXPR
            NAME_REF
              IDENT c
          LITERAL
            INT_NUMBER 1
          ELSE_KW else
          LITERAL
            INT_NUMBER 2
        R_BRACE }",
    );
    assert_eq!(
        report(&parse),
        [
            diag("`if` branches are blocks; wrap this expression in `{ }`", (21, 22)),
            diag("`else` branches are blocks; wrap this expression in `{ }`", span(input, "2", 0)),
        ]
    );
}

#[test]
fn an_else_if_chain_judges_each_link_once() {
    let input = "static f = fn { if a {} else if b {} else 3 };";
    let parse = fn_item_tree(
        input,
        "      BLOCK_EXPR
        L_BRACE {
        IF_EXPR
          IF_KW if
          PATH_EXPR
            NAME_REF
              IDENT a
          BLOCK_EXPR
            L_BRACE {
            R_BRACE }
          ELSE_KW else
          IF_EXPR
            IF_KW if
            PATH_EXPR
              NAME_REF
                IDENT b
            BLOCK_EXPR
              L_BRACE {
              R_BRACE }
            ELSE_KW else
            LITERAL
              INT_NUMBER 3
        R_BRACE }",
    );
    assert_eq!(
        report(&parse),
        [diag("`else` branches are blocks; wrap this expression in `{ }`", span(input, "3", 0))]
    );
}

#[test]
fn a_loop_body_is_a_block() {
    let input = "static f = fn { loop 1 };";
    let parse = fn_item_tree(
        input,
        "      BLOCK_EXPR
        L_BRACE {
        LOOP_EXPR
          LOOP_KW loop
          LITERAL
            INT_NUMBER 1
        R_BRACE }",
    );
    let errors = validate(&parse);
    assert_eq!(errors.len(), 1);
    assert_eq!(errors[0].message, "`loop` bodies are blocks; wrap this expression in `{ }`");
    assert_eq!(
        fix_of(&errors[0]),
        Some(("Wrap in `{ }`".to_owned(), vec![edit(21, 21, "{ "), edit(22, 22, " }")]))
    );
}

#[test]
fn only_a_place_can_be_assigned() {
    let input = "static f = fn { a.b = 1; a[0] = 2; p.* = 3; g() = 4; };";
    let parse = fn_item_tree(
        input,
        "      BLOCK_EXPR
        L_BRACE {
        ASSIGN_STMT
          FIELD_EXPR
            PATH_EXPR
              NAME_REF
                IDENT a
            DOT .
            NAME_REF
              IDENT b
          EQ =
          LITERAL
            INT_NUMBER 1
          SEMICOLON ;
        ASSIGN_STMT
          INDEX_EXPR
            PATH_EXPR
              NAME_REF
                IDENT a
            L_BRACKET [
            LITERAL
              INT_NUMBER 0
            R_BRACKET ]
          EQ =
          LITERAL
            INT_NUMBER 2
          SEMICOLON ;
        ASSIGN_STMT
          DEREF_EXPR
            PATH_EXPR
              NAME_REF
                IDENT p
            DOT .
            STAR *
          EQ =
          LITERAL
            INT_NUMBER 3
          SEMICOLON ;
        ASSIGN_STMT
          CALL_EXPR
            PATH_EXPR
              NAME_REF
                IDENT g
            ARG_LIST
              L_PAREN (
              R_PAREN )
          EQ =
          LITERAL
            INT_NUMBER 4
          SEMICOLON ;
        R_BRACE }",
    );
    assert_eq!(report(&parse), [diag(CAN_ONLY_ASSIGN_TO_A_VARIABLE, span(input, "g()", 0))]);
    assert_eq!(CAN_ONLY_ASSIGN_TO_A_VARIABLE, "can only assign to a variable or its fields");
}

#[test]
fn mut_on_a_hole_is_removed() {
    let input = "static f = fn { let mut _ = 1; };";
    let parse = fn_item_tree(
        input,
        "      BLOCK_EXPR
        L_BRACE {
        LET_STMT
          LET_KW let
          MUT_KW mut
          BIND_PAT
            NAME
              HOLE _
          EQ =
          LITERAL
            INT_NUMBER 1
          SEMICOLON ;
        R_BRACE }",
    );
    let errors = validate(&parse);
    assert_eq!(errors.len(), 1);
    assert_eq!(errors[0].message, "`mut` has no effect on `_`: a hole can never be assigned");
    assert_eq!((errors[0].range.start, errors[0].range.end), (20, 25));
    assert_eq!(fix_of(&errors[0]), Some(("Remove `mut`".to_owned(), vec![edit(20, 24, "")])));
}

#[test]
fn mut_on_a_hole_parameter_is_removed_and_a_named_one_is_kept() {
    let input = "static f = fn (mut _: usize, mut n: usize) {};";
    let parse = fn_item_tree(
        input,
        "      PARAM_LIST
        L_PAREN (
        PARAM
          MUT_KW mut
          BIND_PAT
            NAME
              HOLE _
          COLON :
          PATH_TYPE
            NAME_REF
              IDENT usize
        COMMA ,
        PARAM
          MUT_KW mut
          BIND_PAT
            NAME
              IDENT n
          COLON :
          PATH_TYPE
            NAME_REF
              IDENT usize
        R_PAREN )
      BLOCK_EXPR
        L_BRACE {
        R_BRACE }",
    );
    let errors = validate(&parse);
    assert_eq!(errors.len(), 1);
    assert_eq!((errors[0].range.start, errors[0].range.end), (15, 20));
    assert_eq!(fix_of(&errors[0]), Some(("Remove `mut`".to_owned(), vec![edit(15, 19, "")])));
}

#[test]
fn mut_on_a_destructuring_pattern_is_refused_without_a_fix() {
    let input = "static f = fn { let mut S { x } = s; };";
    let parse = fn_item_tree(
        input,
        "      BLOCK_EXPR
        L_BRACE {
        LET_STMT
          LET_KW let
          MUT_KW mut
          RECORD_PAT
            NAME_REF
              IDENT S
            L_BRACE {
            RECORD_PAT_FIELD
              NAME
                IDENT x
            R_BRACE }
          EQ =
          PATH_EXPR
            NAME_REF
              IDENT s
          SEMICOLON ;
        R_BRACE }",
    );
    let errors = validate(&parse);
    assert_eq!(
        report(&parse),
        [diag(
            "`mut` applies to individual bindings in a destructuring pattern",
            (span(input, "mut", 0).0, span(input, "}", 0).1)
        )]
    );
    assert_eq!(fix_of(&errors[0]), None);
}

/// `static f = fn { match v { <arms> } };` around the arms' shape.
fn match_tree(input: &str, arms: &str) -> SyntaxTree {
    fn_item_tree(
        input,
        &format!(
            "      BLOCK_EXPR
        L_BRACE {{
        MATCH_EXPR
          MATCH_KW match
          PATH_EXPR
            NAME_REF
              IDENT v
          L_BRACE {{
{arms}
          R_BRACE }}
        R_BRACE }}"
        ),
    )
}

fn literal_arm(kind: &str, text: &str) -> String {
    format!(
        "          MATCH_ARM
            LITERAL_PAT
              LITERAL
                {kind} {text}
            FAT_ARROW =>
            BLOCK_EXPR
              L_BRACE {{
              R_BRACE }}"
    )
}

#[test]
fn only_character_literals_are_patterns() {
    let input = "static f = fn { match v { 0 => {} 'x' => {} \"s\" => {} true => {} false => {} } };";
    let arms = [
        literal_arm("INT_NUMBER", "0"),
        literal_arm("CHAR", "'x'"),
        literal_arm("STRING", "\"s\""),
        literal_arm("TRUE_KW", "true"),
        literal_arm("FALSE_KW", "false"),
    ]
    .join("\n");
    let parse = match_tree(input, &arms);
    let tail = " literal patterns are not supported yet; only character literals (`'x'`) can be matched";
    assert_eq!(
        report(&parse),
        [
            diag(&format!("integer{tail}"), span(input, "0", 0)),
            diag(&format!("string{tail}"), span(input, "\"s\"", 0)),
            diag(&format!("boolean{tail}"), span(input, "true", 0)),
            diag(&format!("boolean{tail}"), span(input, "false", 0)),
        ]
    );
}

#[test]
fn a_bare_variant_pattern_gets_its_colons() {
    let input = "static f = fn { match v { Circle(r) => {} ::Square(s) => {} } };";
    let arms = "          MATCH_ARM
            VARIANT_PAT
              NAME_REF
                IDENT Circle
              L_PAREN (
              BIND_PAT
                NAME
                  IDENT r
              R_PAREN )
            FAT_ARROW =>
            BLOCK_EXPR
              L_BRACE {
              R_BRACE }
          MATCH_ARM
            VARIANT_PAT
              COLON2 ::
              NAME_REF
                IDENT Square
              L_PAREN (
              BIND_PAT
                NAME
                  IDENT s
              R_PAREN )
            FAT_ARROW =>
            BLOCK_EXPR
              L_BRACE {
              R_BRACE }";
    let parse = match_tree(input, arms);
    let errors = validate(&parse);
    assert_eq!(
        report(&parse),
        [diag(
            "write `::Circle(...)` to match a variant, or remove `(...)` to bind",
            span(input, "Circle(r)", 0)
        )]
    );
    let at = span(input, "Circle", 0).0;
    assert_eq!(fix_of(&errors[0]), Some(("Insert `::`".to_owned(), vec![edit(at, at, "::")])));
}

#[test]
fn a_rest_pattern_is_legal_only_in_a_record_pattern() {
    let input = "static f = fn { match v { ::Some(..) => {} S { x, .. } => {} } };";
    let arms = "          MATCH_ARM
            VARIANT_PAT
              COLON2 ::
              NAME_REF
                IDENT Some
              L_PAREN (
              REST_PAT
                DOT2 ..
              R_PAREN )
            FAT_ARROW =>
            BLOCK_EXPR
              L_BRACE {
              R_BRACE }
          MATCH_ARM
            RECORD_PAT
              NAME_REF
                IDENT S
              L_BRACE {
              RECORD_PAT_FIELD
                NAME
                  IDENT x
              COMMA ,
              REST_PAT
                DOT2 ..
              R_BRACE }
            FAT_ARROW =>
            BLOCK_EXPR
              L_BRACE {
              R_BRACE }";
    let parse = match_tree(input, arms);
    assert_eq!(
        report(&parse),
        [diag("`..` in patterns is not supported yet", span(input, "..", 0))]
    );
}

#[test]
fn a_record_pattern_names_each_field_once() {
    let input = "static f = fn { match v { S { x, y, x } => {} } };";
    let arms = "          MATCH_ARM
            RECORD_PAT
              NAME_REF
                IDENT S
              L_BRACE {
              RECORD_PAT_FIELD
                NAME
                  IDENT x
              COMMA ,
              RECORD_PAT_FIELD
                NAME
                  IDENT y
              COMMA ,
              RECORD_PAT_FIELD
                NAME
                  IDENT x
              R_BRACE }
            FAT_ARROW =>
            BLOCK_EXPR
              L_BRACE {
              R_BRACE }";
    let parse = match_tree(input, arms);
    assert_eq!(report(&parse), [diag("duplicate field `x`", span(input, "x", 1))]);
}

/// `static f = fn { let r = <value>; };` around the value's shape
/// (indented by 10).
fn let_value_tree(input: &str, value: &str) -> SyntaxTree {
    fn_item_tree(
        input,
        &format!(
            "      BLOCK_EXPR
        L_BRACE {{
        LET_STMT
          LET_KW let
          BIND_PAT
            NAME
              IDENT r
          EQ =
{value}
          SEMICOLON ;
        R_BRACE }}"
        ),
    )
}

#[test]
fn a_prefix_borrow_is_rewritten_as_postfix() {
    let input = "static f = fn { let r = &mut x; };";
    let parse = let_value_tree(
        input,
        "          BORROW_EXPR
            AMP &
            MUT_KW mut
            PATH_EXPR
              NAME_REF
                IDENT x",
    );
    let errors = validate(&parse);
    let borrow = span(input, "&mut x", 0);
    let operand = span(input, "x", 0);
    assert_eq!(report(&parse), [diag("borrows are spelled postfix: `x.&` / `x.&mut`", borrow)]);
    assert_eq!(
        fix_of(&errors[0]),
        Some((
            "Rewrite as postfix".to_owned(),
            vec![edit(borrow.0, operand.0, ""), edit(operand.1, operand.1, ".&mut")]
        ))
    );
}

#[test]
fn a_postfix_borrow_is_accepted() {
    let input = "static f = fn { let r = x.&; };";
    let parse = let_value_tree(
        input,
        "          BORROW_EXPR
            PATH_EXPR
              NAME_REF
                IDENT x
            DOT .
            AMP &",
    );
    assert!(validate(&parse).is_empty());
}

#[test]
fn a_region_argument_at_a_borrow_is_dropped_by_its_own_check() {
    let input = "static f = fn { let r = x.&mut::<@a>; };";
    let parse = let_value_tree(
        input,
        "          BORROW_EXPR
            PATH_EXPR
              NAME_REF
                IDENT x
            DOT .
            AMP &
            MUT_KW mut
            COLON2 ::
            GENERIC_ARG_LIST
              L_ANGLE <
              REGION_ARG
                REGION_IDENT @a
              R_ANGLE >",
    );
    // The whole-tree pass leaves a borrow's own turbofish alone.
    assert!(validate(&parse).is_empty());
    let borrow = nth_node(&parse, SyntaxKind::BORROW_EXPR, 0);
    let mut errors = Vec::new();
    reject_region_arg_on_borrow_expr(&parse, borrow, &mut errors);
    let turbofish = span(input, "::<@a>", 0);
    assert_eq!(errors.len(), 1);
    assert_eq!(errors[0].message, region_arg_at_borrow(true));
    assert_eq!((errors[0].range.start, errors[0].range.end), turbofish);
    assert_eq!(
        fix_of(&errors[0]),
        Some(("Drop the region argument".to_owned(), vec![edit(turbofish.0, turbofish.1, "")]))
    );
    assert_eq!(
        region_arg_at_borrow(true),
        "regions are inferred at a borrow, never written: drop this argument \u{2014} a region \
         belongs in a type position, so assert it with an annotation \
         (`let r: _.&mut::<@a> = x.&mut;`)"
    );
    assert_eq!(
        region_arg_at_borrow(false),
        "regions are inferred at a borrow, never written: drop this argument \u{2014} a region \
         belongs in a type position, so assert it with an annotation \
         (`let r: _.&::<@a> = x.&;`)"
    );
}

/// `static r: <type> = x;` around the annotation's shape (indented by 4).
fn annotated_static_tree(input: &str, ty: &str) -> SyntaxTree {
    let shape = format!(
        "SOURCE_FILE
  STATIC_ITEM
    STATIC_KW static
    NAME
      IDENT r
    COLON :
{ty}
    EQ =
    PATH_EXPR
      NAME_REF
        IDENT x
    SEMICOLON ;
"
    );
    tree(input, &shape)
}

#[test]
fn a_prefix_borrow_type_is_rewritten_as_postfix() {
    let input = "static r: &T = x;";
    let parse = annotated_static_tree(
        input,
        "    BORROW_TYPE
      AMP &
      PATH_TYPE
        NAME_REF
          IDENT T",
    );
    let errors = validate(&parse);
    assert_eq!(report(&parse), [diag("borrow types are spelled postfix: `T.&` / `T.&mut`", (10, 12))]);
    assert_eq!(
        fix_of(&errors[0]),
        Some(("Rewrite as postfix".to_owned(), vec![edit(10, 11, ""), edit(12, 12, ".&")]))
    );
}

#[test]
fn a_prefix_borrow_of_a_fn_type_with_a_result_gets_no_fix() {
    let input = "static r: &fn() -> T = x;";
    let parse = annotated_static_tree(
        input,
        "    BORROW_TYPE
      AMP &
      FN_TYPE
        FN_KW fn
        PARAM_LIST
          L_PAREN (
          R_PAREN )
        RET_TYPE
          THIN_ARROW ->
          PATH_TYPE
            NAME_REF
              IDENT T",
    );
    let errors = validate(&parse);
    assert_eq!(
        report(&parse),
        [diag("borrow types are spelled postfix: `T.&` / `T.&mut`", span(input, "&fn() -> T", 0))]
    );
    assert_eq!(fix_of(&errors[0]), None);
}

#[test]
fn nested_prefix_borrow_types_migrate_inside_out() {
    let input = "static r: &&mut T = x;";
    let parse = annotated_static_tree(
        input,
        "    BORROW_TYPE
      AMP &
      BORROW_TYPE
        AMP &
        MUT_KW mut
        PATH_TYPE
          NAME_REF
            IDENT T",
    );
    let errors = validate(&parse);
    let message = "borrow types are spelled postfix: `T.&` / `T.&mut`";
    assert_eq!(
        report(&parse),
        [diag(message, span(input, "&&mut T", 0)), diag(message, span(input, "&mut T", 0))]
    );
    // The outer rewrite would change which borrow is `mut`: only the inner
    // one is offered.
    assert_eq!(fix_of(&errors[0]), None);
    let inner = span(input, "&mut T", 0);
    let ty = span(input, "T", 0);
    assert_eq!(
        fix_of(&errors[1]),
        Some(("Rewrite as postfix".to_owned(), vec![edit(inner.0, ty.0, ""), edit(ty.1, ty.1, ".&mut")]))
    );
}

#[test]
fn an_unsafe_fn_literal_is_reserved_and_other_unsafe_bodies_are_blocks() {
    let input = "static f = fn { let r = unsafe fn {}; let s = unsafe 1; };";
    let parse = fn_item_tree(
        input,
        "      BLOCK_EXPR
        L_BRACE {
        LET_STMT
          LET_KW let
          BIND_PAT
            NAME
              IDENT r
          EQ =
          UNSAFE_BLOCK_EXPR
            UNSAFE_KW unsafe
            FN_LITERAL
              FN_KW fn
              BLOCK_EXPR
                L_BRACE {
                R_BRACE }
          SEMICOLON ;
        LET_STMT
          LET_KW let
          BIND_PAT
            NAME
              IDENT s
          EQ =
          UNSAFE_BLOCK_EXPR
            UNSAFE_KW unsafe
            LITERAL
              INT_NUMBER 1
          SEMICOLON ;
        R_BRACE }",
    );
    assert_eq!(
        report(&parse),
        [
            diag(
                "`unsafe fn` is not supported yet; use `unsafe { ... }` blocks inside a plain `fn`",
                span(input, "fn {}", 0)
            ),
            diag("`unsafe` blocks; wrap this expression in `{ }`", span(input, "1", 0)),
        ]
    );
}

fn record_type_field(public: bool, name: &str, ty: &str) -> String {
    let vis = if public { "        PUB_KW pub\n" } else { "" };
    format!(
        "      RECORD_TYPE_FIELD
{vis}        NAME
          IDENT {name}
        COLON :
        PATH_TYPE
          NAME_REF
            IDENT {ty}"
    )
}

#[test]
fn a_record_type_has_closed_private_distinct_fields() {
    let input = "static r: struct { x: usize, pub x: bool, ... } = x;";
    let ty = format!(
        "    RECORD_TYPE
      STRUCT_KW struct
      L_BRACE {{
{}
      COMMA ,
{}
      COMMA ,
      DOT3 ...
      R_BRACE }}",
        record_type_field(false, "x", "usize"),
        record_type_field(true, "x", "bool")
    );
    let parse = annotated_static_tree(input, &ty);
    assert_eq!(
        report(&parse),
        [
            diag("duplicate field `x`", span(input, "x", 1)),
            diag("open record types are not supported yet", span(input, "...", 0)),
            diag("field visibility is not supported yet", span(input, "pub", 0)),
        ]
    );
}

/// `<item> s = struct<binder> { <fields> };` where `item` is `static` or
/// `type`.
fn record_literal_tree(input: &str, item: &str, binder: &str, fields: &str) -> SyntaxTree {
    let (node, keyword) = match item {
        "type" => ("TYPE_ITEM", "TYPE_KW"),
        _ => ("STATIC_ITEM", "STATIC_KW"),
    };
    let shape = format!(
        "SOURCE_FILE
  {node}
    {keyword} {item}
    NAME
      IDENT s
    EQ =
    RECORD_EXPR
      STRUCT_KW struct
{binder}
      L_BRACE {{
{fields}
      R_BRACE }}
    SEMICOLON ;
"
    );
    tree(input, &shape)
}

fn record_expr_field(public: bool, name: &str, ty: Option<&str>, value: Option<&str>) -> String {
    let mut out = String::from("      RECORD_EXPR_FIELD\n");
    if public {
        out.push_str("        PUB_KW pub\n");
    }
    out.push_str(&format!("        NAME_REF\n          IDENT {name}\n"));
    if let Some(ty) = ty {
        out.push_str(&format!("        COLON :\n        PATH_TYPE\n          NAME_REF\n            IDENT {ty}\n"));
    }
    if let Some(value) = value {
        out.push_str(&format!("        EQ =\n        LITERAL\n          INT_NUMBER {value}\n"));
    }
    out.trim_end().to_owned()
}

#[test]
fn a_record_literal_defines_every_field_once() {
    let input = "static s = struct { x = 1, x: usize, pub y = 2 };";
    let fields = [
        record_expr_field(false, "x", None, Some("1")),
        "      COMMA ,".to_owned(),
        record_expr_field(false, "x", Some("usize"), None),
        "      COMMA ,".to_owned(),
        record_expr_field(true, "y", None, Some("2")),
    ]
    .join("\n");
    let parse = record_literal_tree(input, "static", "", &fields);
    assert_eq!(
        report(&parse),
        [
            diag("duplicate field `x`", span(input, "x", 1)),
            diag(
                "this field has a type but no value; write `name: Type = value` (or `name = value`)",
                span(input, "x: usize", 0)
            ),
            diag("field visibility is not supported yet", span(input, "pub", 0)),
        ]
    );
}

#[test]
fn a_type_declaration_record_declares_fields_by_type() {
    let input = "type s = struct { x: usize };";
    let fields = record_expr_field(false, "x", Some("usize"), None);
    let parse = record_literal_tree(input, "type", "", &fields);
    assert!(validate(&parse).is_empty());
}

#[test]
fn a_generic_binder_belongs_to_a_type_declaration() {
    let binder = "      COLON2 ::
      GENERIC_PARAM_LIST
        L_ANGLE <
        TYPE_PARAM
          NAME
            IDENT T
        R_ANGLE >";
    let fields = record_expr_field(false, "x", None, Some("1"));
    let input = "static s = struct::<T> { x = 1 };";
    let parse = record_literal_tree(input, "static", binder, &fields);
    assert_eq!(
        report(&parse),
        [diag(
            "a generic binder is only supported on a `type` declaration's `struct`/`enum`",
            span(input, "<T>", 0)
        )]
    );
    let declared = record_literal_tree("type s = struct::<T> { x = 1 };", "type", binder, &fields);
    assert!(validate(&declared).is_empty());
}

/// `<item> e = enum { <variants> };`.
fn enum_tree(input: &str, item: &str, variants: &[&str]) -> SyntaxTree {
    let (node, keyword) = match item {
        "type" => ("TYPE_ITEM", "TYPE_KW"),
        _ => ("STATIC_ITEM", "STATIC_KW"),
    };
    let body = variants
        .iter()
        .map(|v| format!("      ENUM_VARIANT\n        NAME\n          IDENT {v}"))
        .collect::<Vec<_>>()
        .join("\n      COMMA ,\n");
    let shape = format!(
        "SOURCE_FILE
  {node}
    {keyword} {item}
    NAME
      IDENT e
    EQ =
    ENUM_EXPR
      ENUM_KW enum
      L_BRACE {{
{body}
      R_BRACE }}
    SEMICOLON ;
"
    );
    tree(input, &shape)
}

#[test]
fn an_enum_declares_a_type_with_distinct_variants() {
    let input = "static e = enum { A, B, A };";
    let parse = enum_tree(input, "static", &["A", "B", "A"]);
    assert_eq!(
        report(&parse),
        [
            diag("duplicate variant `A`", span(input, "A", 1)),
            diag(
                "an `enum` literal can only appear as a `type` declaration's value",
                span(input, "enum { A, B, A }", 0)
            ),
        ]
    );
    let declared = enum_tree("type e = enum { A, B };", "type", &["A", "B"]);
    assert!(validate(&declared).is_empty());
}

#[test]
fn a_fn_type_has_no_binder_and_typed_parameters() {
    let input = "static r: fn::<T>(x, usize, y: T) = x;";
    let parse = annotated_static_tree(
        input,
        "    FN_TYPE
      FN_KW fn
      COLON2 ::
      GENERIC_PARAM_LIST
        L_ANGLE <
        TYPE_PARAM
          NAME
            IDENT T
        R_ANGLE >
      PARAM_LIST
        L_PAREN (
        PARAM
          BIND_PAT
            NAME
              IDENT x
        COMMA ,
        PARAM
          PATH_TYPE
            NAME_REF
              IDENT usize
        COMMA ,
        PARAM
          BIND_PAT
            NAME
              IDENT y
          COLON :
          PATH_TYPE
            NAME_REF
              IDENT T
        R_PAREN )",
    );
    assert_eq!(
        report(&parse),
        [
            diag(
                "a function type has no generic binder: a generic function is declared by an item, \
                 and a type names one of its instances",
                span(input, "<T>", 0)
            ),
            diag(
                "this parameter has no type: a function type's parameters are `name: Type` or `Type`",
                span(input, "x", 0)
            ),
        ]
    );
}

#[test]
fn a_type_declaration_takes_no_annotation_and_no_extern_marker() {
    let input = "extern type P: usize = struct {};";
    let parse = tree(
        input,
        "SOURCE_FILE
  TYPE_ITEM
    EXTERN_KW extern
    TYPE_KW type
    NAME
      IDENT P
    COLON :
    PATH_TYPE
      NAME_REF
        IDENT usize
    EQ =
    RECORD_EXPR
      STRUCT_KW struct
      L_BRACE {
      R_BRACE }
    SEMICOLON ;
",
    );
    let errors = validate(&parse);
    let annotation = span(input, ": usize", 0);
    assert_eq!(
        report(&parse),
        [
            diag(
                "only a `static` can be `extern`: an import declares one name with one type",
                span(input, "extern", 0)
            ),
            diag("a `type` declaration takes no type annotation", annotation),
        ]
    );
    assert_eq!(fix_of(&errors[0]), None);
    assert_eq!(
        fix_of(&errors[1]),
        Some(("Remove the annotation".to_owned(), vec![edit(annotation.0, annotation.1, "")]))
    );
}

#[test]
fn a_trait_is_a_plain_requires_constructor() {
    let input = "trait Show: usize = unsafe requires::<T>: Debug {};";
    let parse = tree(
        input,
        "SOURCE_FILE
  TRAIT_ITEM
    TRAIT_KW trait
    NAME
      IDENT Show
    COLON :
    PATH_TYPE
      NAME_REF
        IDENT usize
    EQ =
    REQUIRES_DEF
      UNSAFE_KW unsafe
      REQUIRES_KW requires
      COLON2 ::
      GENERIC_PARAM_LIST
        L_ANGLE <
        TYPE_PARAM
          NAME
            IDENT T
        R_ANGLE >
      REQUIRES_CLAUSE
        COLON :
        PATH_TYPE
          NAME_REF
            IDENT Debug
      L_BRACE {
      R_BRACE }
    SEMICOLON ;
",
    );
    let errors = validate(&parse);
    let annotation = span(input, ": usize", 0);
    assert_eq!(
        report(&parse),
        [
            diag("a `trait` declaration takes no type annotation", annotation),
            diag("`unsafe` traits are not supported yet", span(input, "unsafe", 0)),
            diag("generic traits are not supported yet", span(input, "<T>", 0)),
            diag("supertrait clauses are not supported yet", span(input, ": Debug", 0)),
        ]
    );
    assert_eq!(
        fix_of(&errors[0]),
        Some(("Remove the annotation".to_owned(), vec![edit(annotation.0, annotation.1, "")]))
    );
}

#[test]
fn a_trait_alias_is_reserved() {
    let input = "extern trait Both = Show + Debug;";
    let parse = tree(
        input,
        "SOURCE_FILE
  TRAIT_ITEM
    EXTERN_KW extern
    TRAIT_KW trait
    NAME
      IDENT Both
    EQ =
    TRAIT_ALIAS
      PATH_TYPE
        NAME_REF
          IDENT Show
      PLUS +
      PATH_TYPE
        NAME_REF
          IDENT Debug
    SEMICOLON ;
",
    );
    assert_eq!(
        report(&parse),
        [
            diag(
                "only a `static` can be `extern`: an import declares one name with one type",
                (0, 6)
            ),
            diag(
                "trait aliases are not supported yet; declare the trait with `requires { ... }`",
                span(input, "Show + Debug", 0)
            ),
        ]
    );
}

/// A declaration with trailing attachments: `<head> <tail>;` where `head`
/// is `type P = struct<binder> {}`, `trait P = requires<binder> {}` or
/// `static P = 1`, and `tail` is the attachments' shape (indented by 4).
fn owner_tree(input: &str, owner: &str, binder: &str, tail: &str) -> SyntaxTree {
    let head = match owner {
        "type" => format!(
            "  TYPE_ITEM
    TYPE_KW type
    NAME
      IDENT P
    EQ =
    RECORD_EXPR
      STRUCT_KW struct
{binder}
      L_BRACE {{
      R_BRACE }}"
        ),
        "trait" => format!(
            "  TRAIT_ITEM
    TRAIT_KW trait
    NAME
      IDENT P
    EQ =
    REQUIRES_DEF
      REQUIRES_KW requires
{binder}
      L_BRACE {{
      R_BRACE }}"
        ),
        _ => "  STATIC_ITEM
    STATIC_KW static
    NAME
      IDENT P
    EQ =
    LITERAL
      INT_NUMBER 1"
            .to_owned(),
    };
    let shape = format!("SOURCE_FILE\n{head}\n{tail}\n    SEMICOLON ;\n");
    tree(input, &shape)
}

const TYPE_BINDER: &str = "      COLON2 ::
      GENERIC_PARAM_LIST
        L_ANGLE <
        TYPE_PARAM
          NAME
            IDENT T
        R_ANGLE >";

#[test]
fn a_with_group_is_plain_and_belongs_to_a_type_or_trait() {
    let input = "static P = 1 with impl Self {};";
    let parse = owner_tree(
        input,
        "static",
        "",
        "    WITH_GROUP
      WITH_KW with
      IMPL_ELEMENT
        IMPL_KW impl
        PATH_TYPE
          NAME_REF
            IDENT Self
        L_BRACE {
        R_BRACE }",
    );
    assert_eq!(
        report(&parse),
        [diag("`with` attachment groups do not belong on a `static` item", span(input, "with", 0))]
    );

    let input = "type P = struct {} with::<T> T: Show, T = usize, @a: @b;";
    let parse = owner_tree(
        input,
        "type",
        "",
        "    WITH_GROUP
      WITH_KW with
      COLON2 ::
      GENERIC_PARAM_LIST
        L_ANGLE <
        TYPE_PARAM
          NAME
            IDENT T
        R_ANGLE >
      WITH_CLAUSE
        PATH_TYPE
          NAME_REF
            IDENT T
        COLON :
        PATH_TYPE
          NAME_REF
            IDENT Show
      COMMA ,
      WITH_CLAUSE
        PATH_TYPE
          NAME_REF
            IDENT T
        EQ =
        PATH_TYPE
          NAME_REF
            IDENT usize
      COMMA ,
      WITH_CLAUSE
        REGION_IDENT @a
        COLON :
        REGION_IDENT @b",
    );
    assert_eq!(
        report(&parse),
        [
            diag("`with::<...>` binder groups are not supported yet", span(input, "<T>", 0)),
            diag("`with T: ...` constrained groups are not supported yet", span(input, "T: Show", 0)),
            diag("`with T = ...` pin groups are not supported yet", span(input, "T = usize", 0)),
            diag("`with @a: ...` outlives groups are not supported yet", span(input, "@a: @b", 0)),
        ]
    );
}

fn without_clause(names: &[&str]) -> String {
    let body = names
        .iter()
        .map(|name| format!("      NAME_REF\n        IDENT {name}"))
        .collect::<Vec<_>>()
        .join("\n      PLUS +\n");
    format!("    WITHOUT_CLAUSE\n      WITHOUT_KW without\n{body}")
}

#[test]
fn a_type_opts_out_of_forget_only() {
    let input = "type P = struct {} without forget + send + bogus;";
    let parse = owner_tree(input, "type", "", &without_clause(&["forget", "send", "bogus"]));
    assert_eq!(
        report(&parse),
        [
            diag(
                "the `send` capability does not exist yet; `forget` is the only one that can be opted out of",
                span(input, "send", 0)
            ),
            diag(
                "unknown capability `bogus`; `forget` is the only one that can be opted out of",
                span(input, "bogus", 0)
            ),
        ]
    );
}

#[test]
fn opting_out_twice_is_the_same_mistake_in_one_clause_or_two() {
    let one = "type P = struct {} without forget + forget;";
    let two = "type P = struct {} without forget without forget;";
    let in_one = owner_tree(one, "type", "", &without_clause(&["forget", "forget"]));
    let in_two = owner_tree(
        two,
        "type",
        "",
        &format!("{}\n{}", without_clause(&["forget"]), without_clause(&["forget"])),
    );
    let message = "`forget` is already opted out of here";
    assert_eq!(report(&in_one), [diag(message, span(one, "forget", 1))]);
    assert_eq!(report(&in_two), [diag(message, span(two, "forget", 1))]);
}

#[test]
fn a_reserved_name_repeated_is_reported_as_a_repeat() {
    let input = "type P = struct {} without send + send;";
    let parse = owner_tree(input, "type", "", &without_clause(&["send", "send"]));
    assert_eq!(
        report(&parse),
        [
            diag(
                "the `send` capability does not exist yet; `forget` is the only one that can be opted out of",
                span(input, "send", 0)
            ),
            diag("`send` is already opted out of here", span(input, "send", 1)),
        ]
    );
}

#[test]
fn a_capability_opt_out_belongs_on_a_type() {
    let input = "static P = 1 without forget;";
    let parse = owner_tree(input, "static", "", &without_clause(&["forget"]));
    assert_eq!(
        report(&parse),
        [diag(
            "a capability opt-out belongs on a `type` declaration; a `static` has whatever \
             capabilities its type has",
            span(input, "without", 0)
        )]
    );
    let input = "trait P = requires {} without forget;";
    let parse = owner_tree(input, "trait", "", &without_clause(&["forget"]));
    assert_eq!(
        report(&parse),
        [diag(
            "a capability opt-out belongs on a `type` declaration, not on a `trait`",
            span(input, "without", 0)
        )]
    );
}

/// `impl <head> {<members>}` (or `impl <head>;` when `members` is `None`)
/// inside a plain `with` group.
fn with_impl(head: &str, members: Option<&str>) -> String {
    let head_shape = match head.split_once("::<") {
        Some((name, arg)) => format!(
            "        PATH_TYPE
          NAME_REF
            IDENT {name}
          COLON2 ::
          GENERIC_ARG_LIST
            L_ANGLE <
            TYPE_ARG
              PATH_TYPE
                NAME_REF
                  IDENT {}
            R_ANGLE >",
            arg.trim_end_matches('>')
        ),
        None => format!("        PATH_TYPE\n          NAME_REF\n            IDENT {head}"),
    };
    let body = match members {
        Some(members) => format!("        L_BRACE {{\n{members}\n        R_BRACE }}"),
        None => String::new(),
    };
    format!("    WITH_GROUP\n      WITH_KW with\n      IMPL_ELEMENT\n        IMPL_KW impl\n{head_shape}\n{body}")
}

#[test]
fn impl_heads_on_a_type_or_trait() {
    let cases = [
        ("type P = struct {} with impl Self {};", "type", "", "Self", Some(""), None),
        (
            "type P = struct {} with impl Self;",
            "type",
            "",
            "Self",
            None,
            Some("`impl Self` requires a member body (`{ ... }`)"),
        ),
        ("type P = struct {} with impl Show {};", "type", "", "Show", Some(""), None),
        (
            "type P = struct {} with impl Show;",
            "type",
            "",
            "Show",
            None,
            Some("marker impls (`impl name;`) are not supported yet"),
        ),
        (
            "type P = struct {} with impl Show::<T> {};",
            "type",
            "",
            "Show::<T>",
            Some(""),
            Some("an impl head must be `Self` (inherent members) or a bare trait name"),
        ),
        (
            "type P = struct::<T> {} with impl Show {};",
            "type",
            TYPE_BINDER,
            "Show",
            Some(""),
            Some("trait impls on generic types are not supported yet"),
        ),
        ("trait P = requires {} with impl usize {};", "trait", "", "usize", Some(""), None),
        (
            "trait P = requires {} with impl Self {};",
            "trait",
            "",
            "Self",
            Some(""),
            Some("an impl in a trait's `with`-chain names the IMPLEMENTING type, not `Self`"),
        ),
        (
            "trait P = requires {} with impl Pair::<T> {};",
            "trait",
            "",
            "Pair::<T>",
            Some(""),
            Some("an impl in a trait's `with`-chain must name its implementer with a bare type name"),
        ),
        (
            "trait P = requires {} with impl usize;",
            "trait",
            "",
            "usize",
            None,
            Some("marker impls (`impl name;`) are not supported yet"),
        ),
        (
            "trait P = requires::<T> {} with impl usize {};",
            "trait",
            TYPE_BINDER,
            "usize",
            Some(""),
            Some(
                "impls in a generic trait's `with`-chain are not supported yet (generic traits are reserved)",
            ),
        ),
    ];
    for (input, owner, binder, head, members, expected) in cases {
        let parse = owner_tree(input, owner, binder, &with_impl(head, members));
        let head_range = span(input, head, input.matches(head).count() - 1);
        let mut want: Vec<(String, u32, u32)> = Vec::new();
        if owner == "trait" && !binder.is_empty() {
            want.push(diag("generic traits are not supported yet", span(input, "<T>", 0)));
        }
        if let Some(message) = expected {
            want.push(diag(message, head_range));
        }
        assert_eq!(report(&parse), want, "{input}");
        let ie = nth_node(&parse, SyntaxKind::IMPL_ELEMENT, 0);
        let context = semantic_member_context(&parse, ie);
        match (head, expected) {
            ("Self", None) => assert_eq!(context, Some(MemberContext::Inherent), "{input}"),
            (_, None) => assert_eq!(context, Some(MemberContext::TraitImpl), "{input}"),
            (_, Some(m)) if m.starts_with("marker") => {
                assert_eq!(context, Some(MemberContext::TraitImpl), "{input}")
            }
            ("Self", Some(m)) if m.starts_with("`impl Self`") => {
                assert_eq!(context, Some(MemberContext::Inherent), "{input}")
            }
            _ => assert_eq!(context, None, "{input}"),
        }
    }
}

const DECLARED_MEMBER: &str = "        MEMBER
          NAME
            IDENT m
          COLON :
          FN_TYPE
            FN_KW fn
            PARAM_LIST
              L_PAREN (
              R_PAREN )
          SEMICOLON ;";

#[test]
fn inherent_members_are_defined_fn_literals() {
    let input = "type P = struct {} with impl Self { m: fn(); n: usize = fn {}; k = 1; \
                 type Item = usize; const N: usize = 1; };";
    let members = format!(
        "{DECLARED_MEMBER}
        MEMBER
          NAME
            IDENT n
          COLON :
          PATH_TYPE
            NAME_REF
              IDENT usize
          EQ =
          FN_LITERAL
            FN_KW fn
            BLOCK_EXPR
              L_BRACE {{
              R_BRACE }}
          SEMICOLON ;
        MEMBER
          NAME
            IDENT k
          EQ =
          LITERAL
            INT_NUMBER 1
          SEMICOLON ;
        MEMBER
          TYPE_KW type
          NAME
            IDENT Item
          EQ =
          PATH_TYPE
            NAME_REF
              IDENT usize
          SEMICOLON ;
        MEMBER
          CONST_KW const
          NAME
            IDENT N
          COLON :
          PATH_TYPE
            NAME_REF
              IDENT usize
          EQ =
          LITERAL
            INT_NUMBER 1
          SEMICOLON ;"
    );
    let parse = owner_tree(input, "type", "", &with_impl("Self", Some(&members)));
    assert_eq!(
        report(&parse),
        [
            diag(
                "a declare-only inherent member is an unimplementable promise; define it: \
                 `name = fn(...) -> ... { ... };`",
                span(input, "m: fn();", 0)
            ),
            diag(
                "member type ascriptions are not supported yet; the `fn` literal's own annotations \
                 are the signature",
                span(input, ": usize", 0)
            ),
            diag("a member must be defined as an `fn` literal", span(input, "1", 0)),
            diag("associated types are not supported yet", span(input, "type", 1)),
            diag("associated consts are not supported yet", span(input, "const", 0)),
        ]
    );
    let member = nth_node(&parse, SyntaxKind::MEMBER, 0);
    assert_eq!(semantic_member_context(&parse, member), Some(MemberContext::Inherent));
}

#[test]
fn a_trait_impl_member_is_defined_with_eq() {
    let input = "type P = struct {} with impl Show { m: fn(); };";
    let parse = owner_tree(input, "type", "", &with_impl("Show", Some(DECLARED_MEMBER)));
    assert_eq!(
        report(&parse),
        [diag(
            "an impl member is defined with `=`; the colon-declared requirement form belongs in \
             the trait declaration",
            span(input, "m: fn();", 0)
        )]
    );
    let member = nth_node(&parse, SyntaxKind::MEMBER, 0);
    assert_eq!(semantic_member_context(&parse, member), Some(MemberContext::TraitImpl));
}

#[test]
fn members_in_reserved_territory_stay_quiet() {
    let input = "type P = struct::<T> {} with impl Show { m: fn(); };";
    let parse = owner_tree(input, "type", TYPE_BINDER, &with_impl("Show", Some(DECLARED_MEMBER)));
    assert_eq!(
        report(&parse),
        [diag("trait impls on generic types are not supported yet", span(input, "Show", 0))]
    );
    let member = nth_node(&parse, SyntaxKind::MEMBER, 0);
    assert_eq!(semantic_member_context(&parse, member), None);
}

fn member_fn_with_binder(params: &str) -> String {
    format!(
        "        MEMBER
          NAME
            IDENT m
          EQ =
          FN_LITERAL
            FN_KW fn
            COLON2 ::
            GENERIC_PARAM_LIST
              L_ANGLE <
{params}
              R_ANGLE >
            PARAM_LIST
              L_PAREN (
              R_PAREN )
            BLOCK_EXPR
              L_BRACE {{
              R_BRACE }}
          SEMICOLON ;"
    )
}

const MEMBER_BINDER: &str = "              REGION_PARAM
                REGION_IDENT @a
              COMMA ,
              TYPE_PARAM
                NAME
                  IDENT T
              COMMA ,
              CONST_PARAM
                CONST_KW const
                NAME
                  IDENT N
                COLON :
                PATH_TYPE
                  NAME_REF
                    IDENT usize";

#[test]
fn an_inherent_member_binder_takes_regions_but_no_types_or_consts() {
    let input = "type P = struct {} with impl Self { m = fn::<@a, T, const N: usize>() {}; };";
    let parse = owner_tree(input, "type", "", &with_impl("Self", Some(&member_fn_with_binder(MEMBER_BINDER))));
    assert_eq!(
        report(&parse),
        [
            diag(
                "a member's own type parameters are not supported yet (the type's own binders are already in scope)",
                span(input, "T", 0)
            ),
            diag(
            "a member's own const parameters are not supported yet (a const argument is part of \
             an instance's identity, and a member's arguments are read off the receiver's own type)",
            span(input, "const N: usize", 0)
        ),
        ]
    );
    let input = "type P = struct {} with impl Show { m = fn::<@a, T, const N: usize>() {}; };";
    let parse = owner_tree(input, "type", "", &with_impl("Show", Some(&member_fn_with_binder(MEMBER_BINDER))));
    assert!(validate(&parse).is_empty());
}

#[test]
fn a_generic_fn_literal_is_an_item_initializer() {
    let input = "static f = fn { let r = fn::<T>() {}; };";
    let parse = let_value_tree(
        input,
        "          FN_LITERAL
            FN_KW fn
            COLON2 ::
            GENERIC_PARAM_LIST
              L_ANGLE <
              TYPE_PARAM
                NAME
                  IDENT T
              R_ANGLE >
            PARAM_LIST
              L_PAREN (
              R_PAREN )
            BLOCK_EXPR
              L_BRACE {
              R_BRACE }",
    );
    assert_eq!(
        report(&parse),
        [diag("generic function literals are only supported as item initializers", span(input, "<T>", 0))]
    );
}

#[test]
fn a_requirement_declares_a_plain_fn_signature() {
    let input = "trait P = requires { fmt: fn(mut x: usize, S { y }: usize, z: usize); \
                 d = fn {}; e; g: usize; h: unsafe fn(); };";
    let parse = tree(
        input,
        "SOURCE_FILE
  TRAIT_ITEM
    TRAIT_KW trait
    NAME
      IDENT P
    EQ =
    REQUIRES_DEF
      REQUIRES_KW requires
      L_BRACE {
      MEMBER
        NAME
          IDENT fmt
        COLON :
        FN_TYPE
          FN_KW fn
          PARAM_LIST
            L_PAREN (
            PARAM
              MUT_KW mut
              BIND_PAT
                NAME
                  IDENT x
              COLON :
              PATH_TYPE
                NAME_REF
                  IDENT usize
            COMMA ,
            PARAM
              RECORD_PAT
                NAME_REF
                  IDENT S
                L_BRACE {
                RECORD_PAT_FIELD
                  NAME
                    IDENT y
                R_BRACE }
              COLON :
              PATH_TYPE
                NAME_REF
                  IDENT usize
            COMMA ,
            PARAM
              BIND_PAT
                NAME
                  IDENT z
              COLON :
              PATH_TYPE
                NAME_REF
                  IDENT usize
            R_PAREN )
        SEMICOLON ;
      MEMBER
        NAME
          IDENT d
        EQ =
        FN_LITERAL
          FN_KW fn
          BLOCK_EXPR
            L_BRACE {
            R_BRACE }
        SEMICOLON ;
      MEMBER
        NAME
          IDENT e
        SEMICOLON ;
      MEMBER
        NAME
          IDENT g
        COLON :
        PATH_TYPE
          NAME_REF
            IDENT usize
        SEMICOLON ;
      MEMBER
        NAME
          IDENT h
        COLON :
        FN_TYPE
          UNSAFE_KW unsafe
          FN_KW fn
          PARAM_LIST
            L_PAREN (
            R_PAREN )
        SEMICOLON ;
      R_BRACE }
    SEMICOLON ;
",
    );
    assert_eq!(
        report(&parse),
        [
            diag("a requirement's parameter is a plain `name: Type`", span(input, "mut x", 0)),
            diag("a requirement's parameter is a plain `name: Type`", span(input, "S { y }", 0)),
            diag(
                "default members are not supported yet; a trait declares requirements \
                 (`name: fn(...) -> ...;`)",
                span(input, "= fn {}", 0)
            ),
            diag("a requirement declares its signature: `name: fn(...) -> ...;`", span(input, "e;", 0)),
            diag(
                "a requirement's signature must be an `fn` signature",
                (span(input, "g: usize", 0).0 + 3, span(input, "g: usize", 0).1)
            ),
            diag("`unsafe` trait members are not supported yet", span(input, "unsafe", 0)),
        ]
    );
    // A requirement member is not an impl member.
    let member = nth_node(&parse, SyntaxKind::MEMBER, 0);
    assert_eq!(semantic_member_context(&parse, member), None);
}

/// `static f = fn::<<params>>() {};` around the parameters' shape
/// (indented by 8).
fn fn_binder_tree(input: &str, params: &str) -> SyntaxTree {
    fn_item_tree(
        input,
        &format!(
            "      COLON2 ::
      GENERIC_PARAM_LIST
        L_ANGLE <
{params}
        R_ANGLE >
      PARAM_LIST
        L_PAREN (
        R_PAREN )
      BLOCK_EXPR
        L_BRACE {{
        R_BRACE }}"
        ),
    )
}

fn type_param(name: &str, bound: &str) -> String {
    let bound = if bound.is_empty() { String::new() } else { format!("\n          COLON :\n{bound}") };
    format!("        TYPE_PARAM\n          NAME\n            IDENT {name}{bound}")
}

fn path_bound(name: &str) -> String {
    format!("          PATH_TYPE\n            NAME_REF\n              IDENT {name}")
}

#[test]
fn a_bound_is_a_bare_trait_name() {
    let input = "static f = fn::<T: Show, U: Show::<V>, W: fn()>() {};";
    let params = [
        type_param("T", &path_bound("Show")),
        "        COMMA ,".to_owned(),
        type_param(
            "U",
            "          PATH_TYPE
            NAME_REF
              IDENT Show
            COLON2 ::
            GENERIC_ARG_LIST
              L_ANGLE <
              TYPE_ARG
                PATH_TYPE
                  NAME_REF
                    IDENT V
              R_ANGLE >",
        ),
        "        COMMA ,".to_owned(),
        type_param(
            "W",
            "          FN_TYPE
            FN_KW fn
            PARAM_LIST
              L_PAREN (
              R_PAREN )",
        ),
    ]
    .join("\n");
    let parse = fn_binder_tree(input, &params);
    assert_eq!(
        report(&parse),
        [
            diag(
                "generic traits are not supported yet; a bound is a bare trait name",
                span(input, "Show::<V>", 0)
            ),
            diag("only a trait name can be a bound", span(input, "fn()", 0)),
        ]
    );
}

#[test]
fn a_type_declaration_binder_carries_no_bounds() {
    let input = "type P = struct::<T: forget, U: Show> {};";
    let binder = format!(
        "      COLON2 ::
      GENERIC_PARAM_LIST
        L_ANGLE <
{}
        COMMA ,
{}
        R_ANGLE >",
        type_param("T", &path_bound("forget")),
        type_param("U", &path_bound("Show"))
    );
    let parse = owner_tree(input, "type", &binder, "");
    assert_eq!(
        report(&parse),
        [
            diag(
                "a `type` declaration's parameters carry no capability bounds: a container is \
                 linear when what it holds is",
                span(input, "T: forget", 0)
            ),
            diag("bounds on a `type` declaration's binder are not supported yet", span(input, "U: Show", 0)),
        ]
    );
}

#[test]
fn region_parameters_come_first() {
    let region = |name: &str| format!("        REGION_PARAM\n          REGION_IDENT {name}");
    let comma = "        COMMA ,".to_owned();
    let const_n = "        CONST_PARAM
          CONST_KW const
          NAME
            IDENT N
          COLON :
          PATH_TYPE
            NAME_REF
              IDENT usize"
        .to_owned();

    let input = "static f = fn::<T, @a, const N: usize, @b>() {};";
    let params = [type_param("T", ""), comma.clone(), region("@a"), comma.clone(), const_n.clone(), comma.clone(), region("@b")]
        .join("\n");
    let parse = fn_binder_tree(input, &params);
    assert_eq!(
        report(&parse),
        [
            diag("region parameters come first in a binder; move `@a` before `T`", span(input, "@a", 0)),
            diag("region parameters come first in a binder; move `@b` before `T`", span(input, "@b", 0)),
        ]
    );

    let input = "static f = fn::<const N: usize, @a>() {};";
    let params = [const_n.clone(), comma.clone(), region("@a")].join("\n");
    let parse = fn_binder_tree(input, &params);
    assert_eq!(
        report(&parse),
        [diag("region parameters come first in a binder; move `@a` before `N`", span(input, "@a", 0))]
    );

    let input = "static f = fn::<@a, @b, T, const N: usize>() {};";
    let params = [region("@a"), comma.clone(), region("@b"), comma.clone(), type_param("T", ""), comma, const_n]
        .join("\n");
    assert!(validate(&fn_binder_tree(input, &params)).is_empty());
}

/// `<markers> static <name><annotation><tail>;` as one item.
fn import_tree(input: &str, shape_items: &str) -> SyntaxTree {
    tree(input, &format!("SOURCE_FILE\n  STATIC_ITEM\n{shape_items}\n    SEMICOLON ;\n"))
}

const EXTERN_STATIC: &str = "    EXTERN_KW extern
    STATIC_KW static";

fn fn_type_shape(unsafe_kw: bool, params: &str, ret: Option<&str>) -> String {
    let mut out = String::from("    FN_TYPE\n");
    if unsafe_kw {
        out.push_str("      UNSAFE_KW unsafe\n");
    }
    out.push_str("      FN_KW fn\n      PARAM_LIST\n        L_PAREN (\n");
    if !params.is_empty() {
        out.push_str(params);
        out.push('\n');
    }
    out.push_str("        R_PAREN )");
    if let Some(ret) = ret {
        out.push_str(&format!(
            "\n      RET_TYPE\n        THIN_ARROW ->\n        PATH_TYPE\n          NAME_REF\n            IDENT {ret}"
        ));
    }
    out
}

const BUF_PARAM: &str = "        PARAM
          BIND_PAT
            NAME
              IDENT buf
          COLON :
          PATH_TYPE
            NAME_REF
              IDENT usize";

#[test]
fn a_well_formed_import_is_accepted() {
    let input = "extern static read: unsafe fn(buf: usize) -> isize;";
    let parse = import_tree(
        input,
        &format!(
            "{EXTERN_STATIC}\n    NAME\n      IDENT read\n    COLON :\n{}",
            fn_type_shape(true, BUF_PARAM, Some("isize"))
        ),
    );
    assert!(validate(&parse).is_empty());
}

#[test]
fn an_import_type_is_written_in_full_and_unsafe() {
    let input = "extern static read: fn(_) -> isize;";
    let hole = "        PARAM\n          HOLE_TYPE\n            HOLE _";
    let parse = import_tree(
        input,
        &format!(
            "{EXTERN_STATIC}\n    NAME\n      IDENT read\n    COLON :\n{}",
            fn_type_shape(false, hole, Some("isize"))
        ),
    );
    let errors = validate(&parse);
    let fn_type = span(input, "fn(_) -> isize", 0);
    assert_eq!(
        report(&parse),
        [
            diag(
                "an import's type must be written in full: the declaration is the whole contract, \
                 and there is no body for `_` to be inferred from",
                span(input, "_", 0)
            ),
            diag(
                "an import must be declared `unsafe fn` for now: a safe-to-call import needs the \
                 declaration-side `unsafe` marker, and that marker does not exist yet",
                fn_type
            ),
        ]
    );
    assert_eq!(fix_of(&errors[0]), None);
    assert_eq!(
        fix_of(&errors[1]),
        Some(("Write `unsafe fn`".to_owned(), vec![edit(fn_type.0, fn_type.0, "unsafe ")]))
    );
}

#[test]
fn an_import_is_not_generic() {
    let input = "extern static g: unsafe fn::<T>();";
    let fn_type = "    FN_TYPE
      UNSAFE_KW unsafe
      FN_KW fn
      COLON2 ::
      GENERIC_PARAM_LIST
        L_ANGLE <
        TYPE_PARAM
          NAME
            IDENT T
        R_ANGLE >
      PARAM_LIST
        L_PAREN (
        R_PAREN )";
    let parse = import_tree(input, &format!("{EXTERN_STATIC}\n    NAME\n      IDENT g\n    COLON :\n{fn_type}"));
    // The import's own refusal replaces the fn type's.
    assert_eq!(
        report(&parse),
        [diag(
            "an import cannot be generic: it has exactly one machine signature, and there is \
             nothing to monomorphize it into",
            span(input, "<T>", 0)
        )]
    );
}

#[test]
fn an_import_declares_a_function_type() {
    let input = "extern static n: usize;";
    let parse = import_tree(
        input,
        &format!("{EXTERN_STATIC}\n    NAME\n      IDENT n\n    COLON :\n{}", "    PATH_TYPE\n      NAME_REF\n        IDENT usize"),
    );
    assert_eq!(
        report(&parse),
        [diag(
            "data imports are not supported yet \u{2014} an import must have a function type",
            span(input, "usize", 0)
        )]
    );

    let input = "extern static g;";
    let parse = import_tree(input, &format!("{EXTERN_STATIC}\n    NAME\n      IDENT g"));
    assert_eq!(
        report(&parse),
        [diag("an import must declare its type: `extern static name: unsafe fn(...) -> T;`", (14, 15))]
    );
}

#[test]
fn an_extern_static_has_no_initializer() {
    let input = "extern static x: usize = 1;";
    let parse = import_tree(
        input,
        &format!(
            "{EXTERN_STATIC}\n    NAME\n      IDENT x\n    COLON :\n{}\n    EQ =\n    LITERAL\n      INT_NUMBER 1",
            "    PATH_TYPE\n      NAME_REF\n        IDENT usize"
        ),
    );
    let errors = validate(&parse);
    assert_eq!(
        report(&parse),
        [diag(
            "an `extern static` has no initializer: the declaration is the whole contract, and an \
             import sets nothing to anything",
            (23, 26)
        )]
    );
    assert_eq!(fix_of(&errors[0]), Some(("Remove the initializer".to_owned(), vec![edit(22, 26, "")])));
}

#[test]
fn only_a_static_is_extern() {
    let input = "extern const c: unsafe fn();";
    let parse = import_tree(
        input,
        &format!(
            "    EXTERN_KW extern\n    CONST_KW const\n    NAME\n      IDENT c\n    COLON :\n{}",
            fn_type_shape(true, "", None)
        ),
    );
    assert_eq!(
        report(&parse),
        [diag("only a `static` can be `extern`: an import declares one name with one type", (0, 6))]
    );
}

#[test]
fn an_unreadable_import_leaves_the_parse_error_alone() {
    let input = "extern fn g();";
    let parse = import_tree(
        input,
        "    EXTERN_KW extern
    ERROR
      FN_KW fn
      IDENT g
      L_PAREN (
      R_PAREN )",
    );
    assert!(validate(&parse).is_empty());
}

#[test]
fn the_retired_import_initializer_is_rewritten_as_a_declaration() {
    let input = "static read = extern fn(buf: usize) -> isize;";
    let parse = import_tree(
        input,
        &format!(
            "    STATIC_KW static\n    NAME\n      IDENT read\n    EQ =\n    FN_LITERAL\n      EXTERN_KW extern\n{}",
            fn_type_shape(false, BUF_PARAM, Some("isize"))
                .lines()
                .skip(1)
                .collect::<Vec<_>>()
                .join("\n")
        ),
    );
    let errors = validate(&parse);
    assert_eq!(
        report(&parse),
        [diag(
            "a host import is a DECLARATION, not an initializer: write \
             `extern static read: unsafe fn(...) -> T;`",
            span(input, "extern fn(buf: usize) -> isize", 0)
        )]
    );
    let fix = fix_of(&errors[0]).expect("a rewrite");
    assert_eq!(
        fix,
        ("Rewrite as an `extern static` declaration".to_owned(), vec![edit(0, 0, "extern "), edit(11, 20, ": unsafe")])
    );
    // Applying the edits gives the live spelling.
    let mut rewritten = input.to_owned();
    for (start, end, insert) in fix.1.iter().rev() {
        rewritten.replace_range(*start as usize..*end as usize, insert);
    }
    assert_eq!(rewritten, "extern static read: unsafe fn(buf: usize) -> isize;");
}

#[test]
fn the_retired_import_with_an_annotation_keeps_the_annotation() {
    let input = "static r: fn() = extern fn();";
    let parse = import_tree(
        input,
        &format!(
            "    STATIC_KW static\n    NAME\n      IDENT r\n    COLON :\n{}\n    EQ =\n    FN_LITERAL\n      EXTERN_KW extern\n{}",
            fn_type_shape(false, "", None),
            fn_type_shape(false, "", None).lines().skip(1).collect::<Vec<_>>().join("\n")
        ),
    );
    let errors = validate(&parse);
    let annotation = span(input, "fn()", 0);
    assert_eq!(
        report(&parse),
        [
            diag(
                "a host import is a DECLARATION, not an initializer: write `extern static r: unsafe \
                 fn(...) -> T;` \u{2014} the annotation is the contract, and this signature is dropped",
                span(input, "extern fn()", 0)
            ),
            diag(
                "an import must be declared `unsafe fn` for now: a safe-to-call import needs the \
                 declaration-side `unsafe` marker, and that marker does not exist yet",
                annotation
            ),
        ]
    );
    // With an annotation there is no single correct rewrite.
    assert_eq!(fix_of(&errors[0]), None);
}

#[test]
fn forget_is_the_only_live_capability() {
    let table: Vec<(&str, bool, bool)> =
        capabilities().iter().map(|c| (c.name, c.clause, c.bound)).collect();
    assert_eq!(
        table,
        [("forget", true, true), ("send", false, false), ("sync", false, false), ("destruct", false, false)]
    );
    let forget = capability_named("forget").expect("forget is a capability");
    assert_eq!((forget.name, forget.clause, forget.bound), ("forget", true, true));
    for reserved in ["send", "sync", "destruct"] {
        let c = capability_named(reserved).expect("a reserved capability");
        assert_eq!((c.name, c.clause, c.bound), (reserved, false, false));
    }
    for other in ["Forget", "forget ", "", "copy", "clone"] {
        assert!(capability_named(other).is_none(), "{other:?}");
    }
}

#[test]
fn the_bare_head_of_an_impl_is_a_name_other_than_self() {
    let input = "type P = struct {} with impl Show {};";
    let parse = owner_tree(input, "type", "", &with_impl("Show", Some("")));
    let ie = nth_node(&parse, SyntaxKind::IMPL_ELEMENT, 0);
    let head = impl_element_bare_head(&parse, ie).expect("a bare head");
    assert_eq!(parse.nodes[head].kind, SyntaxKind::NAME_REF);
    let range = parse.nodes[head].range;
    assert_eq!((range.start, range.end), span(input, "Show", 0));

    for (input, head) in [
        ("type P = struct {} with impl Self {};", "Self"),
        ("type P = struct {} with impl Show::<T> {};", "Show::<T>"),
    ] {
        let parse = owner_tree(input, "type", "", &with_impl(head, Some("")));
        let ie = nth_node(&parse, SyntaxKind::IMPL_ELEMENT, 0);
        assert_eq!(impl_element_bare_head(&parse, ie), None, "{input}");
    }
}

#[test]
fn nothing_outside_an_impl_element_has_a_member_context() {
    let parse = fn_item_tree("static f = fn {};", "      BLOCK_EXPR\n        L_BRACE {\n        R_BRACE }");
    for n in 0..parse.nodes.len() {
        assert_eq!(semantic_member_context(&parse, n), None);
    }
}

fn leaf(kind: SyntaxKind, parent: Option<usize>, start: u32, end: u32, children: Vec<Element>) -> NodeData {
    NodeData { kind, parent, children, range: TextRange { start, end } }
}

fn token(kind: SyntaxKind, parent: usize, text: &str, start: u32) -> TokenData {
    TokenData { kind, parent, text: text.to_owned(), range: TextRange { start, end: start + text.len() as u32 } }
}

#[test]
fn a_tree_is_built_only_from_consistent_parts() {
    // `1`: a file holding one literal.
    let good = || {
        (
            vec![
                leaf(SyntaxKind::SOURCE_FILE, None, 0, 1, vec![Element::Node(1)]),
                leaf(SyntaxKind::LITERAL, Some(0), 0, 1, vec![Element::Token(0)]),
            ],
            vec![token(SyntaxKind::INT_NUMBER, 1, "1", 0)],
        )
    };
    let (nodes, tokens) = good();
    assert!(SyntaxTree::from_parts(nodes, tokens).is_some());

    // No nodes at all.
    assert!(SyntaxTree::from_parts(Vec::new(), Vec::new()).is_none());
    // A child that does not point back at its parent.
    let (mut nodes, tokens) = good();
    nodes[1].parent = Some(1);
    assert!(SyntaxTree::from_parts(nodes, tokens).is_none());
    // A second root.
    let (mut nodes, tokens) = good();
    nodes[1].parent = None;
    assert!(SyntaxTree::from_parts(nodes, tokens).is_none());
    // A child outside its parent's range.
    let (mut nodes, tokens) = good();
    nodes[1].range = TextRange { start: 0, end: 2 };
    assert!(SyntaxTree::from_parts(nodes, tokens).is_none());
    // A token whose parent is not a node.
    let (nodes, mut tokens) = good();
    tokens[0].parent = 7;
    assert!(SyntaxTree::from_parts(nodes, tokens).is_none());
    // A backwards range.
    let (nodes, mut tokens) = good();
    tokens[0].range = TextRange { start: 1, end: 0 };
    assert!(SyntaxTree::from_parts(nodes, tokens).is_none());
    // Children out of source order.
    let nodes = vec![
        leaf(SyntaxKind::SOURCE_FILE, None, 0, 2, vec![Element::Token(1), Element::Token(0)]),
    ];
    let tokens = vec![token(SyntaxKind::IDENT, 0, "a", 0), token(SyntaxKind::IDENT, 0, "b", 1)];
    assert!(SyntaxTree::from_parts(nodes, tokens).is_none());
}

#[test]
fn text_ranges() {
    let a = TextRange::new(3, 5);
    assert_eq!((a.start, a.end), (3, 5));
    let e = TextRange::empty(4);
    assert_eq!((e.start, e.end), (4, 4));
    let c = a.cover(TextRange::new(1, 4));
    assert_eq!((c.start, c.end), (1, 5));
    assert_eq!(TextRange::new(7, 9).cover(e), TextRange::new(4, 9));
}

#[test]
fn an_opt_out_outside_any_declaration_has_no_home() {
    let input = "without forget;";
    let parse = tree(
        input,
        "SOURCE_FILE
  WITHOUT_CLAUSE
    WITHOUT_KW without
    NAME_REF
      IDENT forget
  ERROR
    SEMICOLON ;
",
    );
    assert_eq!(report(&parse), [diag("a capability opt-out cannot go here", (0, 7))]);
}

#[test]
fn unsafe_and_for_impl_elements_are_reserved() {
    let input = "type P = struct {} with unsafe impl Send;";
    let parse = owner_tree(
        input,
        "type",
        "",
        "    WITH_GROUP
      WITH_KW with
      UNSAFE_ELEMENT
        UNSAFE_KW unsafe
        IMPL_ELEMENT
          IMPL_KW impl
          PATH_TYPE
            NAME_REF
              IDENT Send",
    );
    assert_eq!(
        report(&parse),
        [diag("`unsafe` impl elements are not supported yet", span(input, "unsafe", 0))]
    );
    let input = "type P = struct {} with for Box impl Show {};";
    let parse = owner_tree(
        input,
        "type",
        "",
        "    WITH_GROUP
      WITH_KW with
      FOR_ELEMENT
        FOR_KW for
        PATH_TYPE
          NAME_REF
            IDENT Box
        IMPL_ELEMENT
          IMPL_KW impl
          PATH_TYPE
            NAME_REF
              IDENT Show
          L_BRACE {
          R_BRACE }",
    );
    assert_eq!(
        report(&parse),
        [diag("`for` (covered) impl elements are not supported yet", span(input, "for", 0))]
    );
}

#[test]
fn bare_angle_offers_an_insert_colon2_fix() {
    let parse = tree(
        "static x: Option<usize> = y;",
        "SOURCE_FILE
  STATIC_ITEM
    STATIC_KW static
    NAME
      IDENT x
    COLON :
    PATH_TYPE
      NAME_REF
        IDENT Option
      GENERIC_ARG_LIST
        L_ANGLE <
        TYPE_ARG
          PATH_TYPE
            NAME_REF
              IDENT usize
        R_ANGLE >
    EQ =
    PATH_EXPR
      NAME_REF
        IDENT y
    SEMICOLON ;
",
    );
    let errors = validate(&parse);
    assert_eq!(errors.len(), 1);
    let fix = errors[0].fix.as_ref().expect("a fix");
    assert_eq!(fix.label, "Insert `::`");
    assert_eq!(fix.edits.len(), 1);
    assert_eq!(fix.edits[0].insert, "::");
    // Empty range right after the name, before the bad `<`: a pure
    // insertion, `Option` -> `Option::`.
    assert_eq!(fix.edits[0].range, TextRange::empty(16));
}

/// The text of node `n`: its tokens' texts, in tree order.
fn subtree_text(tree: &SyntaxTree, n: usize) -> String {
    let mut out = String::new();
    for child in &tree.nodes[n].children {
        match *child {
            Element::Node(c) => out.push_str(&subtree_text(tree, c)),
            Element::Token(t) => out.push_str(&tree.tokens[t].text),
        }
    }
    out
}

fn arg_list(arg: &str, indent: usize) -> String {
    let pad = " ".repeat(indent);
    format!(
        "{pad}GENERIC_ARG_LIST
{pad}  L_ANGLE <
{pad}  TYPE_ARG
{pad}    PATH_TYPE
{pad}      NAME_REF
{pad}        IDENT {arg}
{pad}  R_ANGLE >"
    )
}

#[test]
fn path_accessors_keep_the_two_lists_apart() {
    // `generic_arg_list` means the OWNER's list and cannot see a member's,
    // `member_generic_arg_list` means the second segment's and cannot see
    // the owner's: anything that reads a path's arguments gets the owner's,
    // and only code that asks for the member's gets those.
    let path_of = |input: &str, path: &str| {
        let parse = tree(
            input,
            &format!(
                "SOURCE_FILE
  STATIC_ITEM
    STATIC_KW static
    NAME
      IDENT s
    EQ =
    PATH_EXPR
{path}
    SEMICOLON ;
"
            ),
        );
        let path = nth_node(&parse, SyntaxKind::PATH_EXPR, 0);
        (parse, path)
    };
    let name = |n: &str| format!("      NAME_REF\n        IDENT {n}");
    let member_args = |arg: &str| format!("      MEMBER_GENERIC_ARGS\n        COLON2 ::\n{}", arg_list(arg, 8));
    let owner_text = |parse: &SyntaxTree, list: Option<usize>| list.map(|list| subtree_text(parse, list));

    let (member, p) = path_of(
        "static s = Measured::size::<usize>;",
        &format!("{}\n      COLON2 ::\n{}\n{}", name("Measured"), name("size"), member_args("usize")),
    );
    assert_eq!(owner_text(&member, member.generic_arg_list_exec(p)), None);
    assert_eq!(owner_text(&member, member.member_generic_arg_list_exec(p)), Some("<usize>".to_owned()));

    let (owner, p) = path_of(
        "static s = Pair::<usize>::first;",
        &format!("{}\n      COLON2 ::\n{}\n      COLON2 ::\n{}", name("Pair"), arg_list("usize", 6), name("first")),
    );
    assert_eq!(owner_text(&owner, owner.generic_arg_list_exec(p)), Some("<usize>".to_owned()));
    assert_eq!(owner_text(&owner, owner.member_generic_arg_list_exec(p)), None);

    let (both, p) = path_of(
        "static s = Pair::<usize>::first::<T>;",
        &format!(
            "{}\n      COLON2 ::\n{}\n      COLON2 ::\n{}\n{}",
            name("Pair"),
            arg_list("usize", 6),
            name("first"),
            member_args("T")
        ),
    );
    assert_eq!(owner_text(&both, both.generic_arg_list_exec(p)), Some("<usize>".to_owned()));
    assert_eq!(owner_text(&both, both.member_generic_arg_list_exec(p)), Some("<T>".to_owned()));
}

#[test]
fn diagnostics_come_in_tree_order_whatever_the_numbering() {
    // `.. ..`: two rest patterns under the root, numbered against their
    // source order (the second one gets the smaller id).
    let nodes = vec![
        leaf(SyntaxKind::SOURCE_FILE, None, 0, 5, vec![Element::Node(2), Element::Token(1), Element::Node(1)]),
        leaf(SyntaxKind::REST_PAT, Some(0), 3, 5, vec![Element::Token(2)]),
        leaf(SyntaxKind::REST_PAT, Some(0), 0, 2, vec![Element::Token(0)]),
    ];
    let tokens = vec![
        token(SyntaxKind::DOT2, 2, "..", 0),
        token(SyntaxKind::WHITESPACE, 0, " ", 2),
        token(SyntaxKind::DOT2, 1, "..", 3),
    ];
    let parse = SyntaxTree::from_parts(nodes, tokens).expect("a well-formed tree");
    let message = "`..` in patterns is not supported yet";
    assert_eq!(report(&parse), [diag(message, (0, 2)), diag(message, (3, 5))]);
}

#[test]
fn a_reserved_requirement_keyword_is_the_only_diagnostic() {
    let input = "trait P = requires { type Item = usize; const N; };";
    let parse = tree(
        input,
        "SOURCE_FILE
  TRAIT_ITEM
    TRAIT_KW trait
    NAME
      IDENT P
    EQ =
    REQUIRES_DEF
      REQUIRES_KW requires
      L_BRACE {
      MEMBER
        TYPE_KW type
        NAME
          IDENT Item
        EQ =
        PATH_TYPE
          NAME_REF
            IDENT usize
        SEMICOLON ;
      MEMBER
        CONST_KW const
        NAME
          IDENT N
        SEMICOLON ;
      R_BRACE }
    SEMICOLON ;
",
    );
    assert_eq!(
        report(&parse),
        [
            diag("associated types are not supported yet", span(input, "type", 0)),
            diag("associated consts are not supported yet", span(input, "const", 0)),
        ]
    );
}

#[test]
fn import_holes_are_reported_in_tree_order_whatever_the_numbering() {
    // `extern static r: fn(_, _);` with the second parameter (and its `_`)
    // numbered before the first.
    let texts = [
        (SyntaxKind::EXTERN_KW, "extern", 1),
        (SyntaxKind::WHITESPACE, " ", 1),
        (SyntaxKind::STATIC_KW, "static", 1),
        (SyntaxKind::WHITESPACE, " ", 1),
        (SyntaxKind::IDENT, "r", 2),
        (SyntaxKind::COLON, ":", 1),
        (SyntaxKind::WHITESPACE, " ", 1),
        (SyntaxKind::FN_KW, "fn", 3),
        (SyntaxKind::L_PAREN, "(", 4),
        (SyntaxKind::HOLE, "_", 8),
        (SyntaxKind::COMMA, ",", 4),
        (SyntaxKind::WHITESPACE, " ", 4),
        (SyntaxKind::HOLE, "_", 7),
        (SyntaxKind::R_PAREN, ")", 4),
        (SyntaxKind::SEMICOLON, ";", 1),
    ];
    let mut tokens = Vec::new();
    let mut at: u32 = 0;
    for (kind, text, parent) in texts {
        tokens.push(token(kind, parent, text, at));
        at += text.len() as u32;
    }
    let t = |i: usize| Element::Token(i);
    let n = |i: usize| Element::Node(i);
    let nodes = vec![
        leaf(SyntaxKind::SOURCE_FILE, None, 0, 26, vec![n(1)]),
        leaf(SyntaxKind::STATIC_ITEM, Some(0), 0, 26, vec![t(0), t(1), t(2), t(3), n(2), t(5), t(6), n(3), t(14)]),
        leaf(SyntaxKind::NAME, Some(1), 14, 15, vec![t(4)]),
        leaf(SyntaxKind::FN_TYPE, Some(1), 17, 25, vec![t(7), n(4)]),
        leaf(SyntaxKind::PARAM_LIST, Some(3), 19, 25, vec![t(8), n(6), t(10), t(11), n(5), t(13)]),
        leaf(SyntaxKind::PARAM, Some(4), 23, 24, vec![n(7)]),
        leaf(SyntaxKind::PARAM, Some(4), 20, 21, vec![n(8)]),
        leaf(SyntaxKind::HOLE_TYPE, Some(5), 23, 24, vec![t(12)]),
        leaf(SyntaxKind::HOLE_TYPE, Some(6), 20, 21, vec![t(9)]),
    ];
    let parse = SyntaxTree::from_parts(nodes, tokens).expect("a well-formed tree");
    let hole = "an import's type must be written in full: the declaration is the whole contract, \
                and there is no body for `_` to be inferred from";
    assert_eq!(
        report(&parse),
        [
            diag(hole, (20, 21)),
            diag(hole, (23, 24)),
            diag(
                "an import must be declared `unsafe fn` for now: a safe-to-call import needs the \
                 declaration-side `unsafe` marker, and that marker does not exist yet",
                (17, 25)
            ),
        ]
    );
}
