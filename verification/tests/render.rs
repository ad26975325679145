use mdbook_rust::element::{text_of, token_str, Comment, CommentShape, Element, Token};
use mdbook_rust::render::{
    ensure_in_code_block, ensure_in_markdown, expect_kind, render, write_body,
    write_node_or_token, write_token, CodeFence, RenderState,
};
use mdbook_rust::ErrorKind;

fn fence() -> CodeFence {
    CodeFence::new("rust", true)
}

fn ws(text: &str) -> Element {
    Element::Token(Token::Whitespace(text.to_string()))
}

fn tok(text: &str) -> Element {
    Element::Token(Token::Substantive(text.to_string()))
}

fn plain(text: &str) -> Element {
    Element::Token(Token::Comment(Comment {
        shape: CommentShape::Line,
        doc: false,
        marker_len: 2,
        text: text.to_string(),
    }))
}

fn doc(text: &str) -> Element {
    Element::Token(Token::Comment(Comment {
        shape: CommentShape::Line,
        doc: true,
        marker_len: 3,
        text: text.to_string(),
    }))
}

fn node(children: Vec<Element>) -> Element {
    Element::Node(children)
}

fn let_stmt(name: &str) -> Element {
    node(vec![tok("let"), ws(" "), tok(name), ws(" "), tok("="), ws(" "), tok("1"), tok(";")])
}

fn block(inner: Vec<Element>) -> Vec<Element> {
    let mut body = vec![tok("{")];
    body.extend(inner);
    body.push(tok("}"));
    body
}

fn state(in_code_block: bool, whitespace: &str, output: &str) -> RenderState {
    RenderState {
        in_code_block,
        whitespace: whitespace.to_string(),
        output: output.to_string(),
    }
}

#[test]
fn opening_fence_names_language_and_mark() {
    assert_eq!(CodeFence::new("rust", true).opening(), "\n\n```rust,ignore\n");
    assert_eq!(CodeFence::new("rust", false).opening(), "\n\n```rust\n");
    assert_eq!(CodeFence::new("", false).opening(), "\n\n```\n");
}

#[test]
fn ensure_in_markdown_closes_an_open_block() {
    let mut in_code_block = true;
    assert_eq!(ensure_in_markdown(&mut in_code_block, "\n\n"), "\n```\n\n");
    assert!(!in_code_block);
}

#[test]
fn ensure_in_markdown_in_prose_gives_the_pending_newlines() {
    let mut in_code_block = false;
    assert_eq!(ensure_in_markdown(&mut in_code_block, "\n\n"), "\n\n");
    assert!(!in_code_block);
}

#[test]
fn ensure_in_code_block_opens_a_block() {
    let mut in_code_block = false;
    assert_eq!(ensure_in_code_block(&mut in_code_block, "\n", &fence()), "\n\n```rust,ignore\n");
    assert!(in_code_block);
}

#[test]
fn ensure_in_code_block_in_code_gives_the_pending_newlines() {
    let mut in_code_block = true;
    assert_eq!(ensure_in_code_block(&mut in_code_block, "\n\n", &fence()), "\n\n");
    assert!(in_code_block);
}

#[test]
fn new_state_is_prose_with_nothing_written() {
    let state = RenderState::new();
    assert!(!state.in_code_block);
    assert_eq!(state.whitespace, "");
    assert_eq!(state.output, "");
}

#[test]
fn whitespace_token_leaves_its_newlines_pending() {
    let mut st = state(true, "\n", "x");
    write_token(&mut st, &Token::Whitespace("\n  \n\t ".to_string()), "", &fence());
    assert_eq!(st.whitespace, "\n\n");
    assert_eq!(st.output, "x");
    assert!(st.in_code_block);
    write_token(&mut st, &Token::Whitespace("   ".to_string()), "", &fence());
    assert_eq!(st.whitespace, "");
}

#[test]
fn plain_comment_in_prose_follows_the_pending_newlines() {
    let mut st = state(false, "\n\n", "First");
    if let Element::Token(token) = plain("// Second") {
        write_token(&mut st, &token, "", &fence());
    }
    assert_eq!(st.output, "First\n\nSecond");
    assert_eq!(st.whitespace, "");
    assert!(!st.in_code_block);
}

#[test]
fn plain_comment_in_code_closes_the_block() {
    let mut st = state(true, "\n", "\n\n```rust,ignore\nx;");
    if let Element::Token(token) = plain("// After") {
        write_token(&mut st, &token, "", &fence());
    }
    assert_eq!(st.output, "\n\n```rust,ignore\nx;\n```\n\nAfter");
    assert_eq!(st.whitespace, "");
    assert!(!st.in_code_block);
}

#[test]
fn doc_comment_opens_a_block_and_keeps_its_marker() {
    let mut st = state(false, "\n", "Prose");
    if let Element::Token(token) = doc("/// about") {
        write_token(&mut st, &token, "    ", &fence());
    }
    assert_eq!(st.output, "Prose\n\n```rust,ignore\n/// about");
    assert_eq!(st.whitespace, "");
    assert!(st.in_code_block);
}

#[test]
fn doc_comment_in_code_follows_the_pending_newlines() {
    let mut st = state(true, "\n\n", "x;");
    if let Element::Token(token) = doc("/// about") {
        write_token(&mut st, &token, "", &fence());
    }
    assert_eq!(st.output, "x;\n\n/// about");
    assert!(st.in_code_block);
}

#[test]
fn other_token_in_code_follows_the_pending_newlines_once() {
    let mut st = state(true, "\n\n", "x;");
    write_token(&mut st, &Token::Substantive(";".to_string()), "", &fence());
    assert_eq!(st.output, "x;\n\n;");
    assert_eq!(st.whitespace, "");
    assert!(st.in_code_block);
}

#[test]
fn other_token_in_prose_opens_a_block_and_keeps_the_pending_newlines() {
    let mut st = state(false, "\n", "Prose");
    write_token(&mut st, &Token::Substantive(";".to_string()), "", &fence());
    assert_eq!(st.output, "Prose\n\n```rust,ignore\n\n;");
    assert_eq!(st.whitespace, "");
    assert!(st.in_code_block);
}

#[test]
fn node_is_code_with_the_prefix_taken_off_each_line() {
    let mut st = RenderState::new();
    let element = node(vec![
        tok("if"),
        ws(" "),
        tok("x"),
        ws(" "),
        node(vec![tok("{"), ws("\n        "), tok("y"), ws("\n    "), tok("}")]),
    ]);
    write_node_or_token(&mut st, &element, "    ", &fence());
    assert_eq!(st.output, "\n\n```rust,ignore\nif x {\n    y\n}");
    assert!(st.in_code_block);
    assert_eq!(st.whitespace, "");
}

#[test]
fn node_without_elements_writes_nothing_and_drops_what_is_pending() {
    let mut st = state(false, "\n", "Prose");
    write_node_or_token(&mut st, &node(vec![]), "", &fence());
    assert_eq!(st.output, "Prose");
    assert_eq!(st.whitespace, "");
    assert!(!st.in_code_block);
}

#[test]
fn node_of_comments_alone_is_prose() {
    let mut st = RenderState::new();
    write_node_or_token(&mut st, &node(vec![plain("// a"), ws("\n"), plain("// b"), ws("\n")]), "", &fence());
    assert_eq!(st.output, "a\nb");
    assert_eq!(st.whitespace, "");
    assert!(!st.in_code_block);
}

#[test]
fn comments_deeper_in_a_node_stay_code() {
    let inner = node(vec![
        tok("{"),
        ws("\n        "),
        plain("// inner"),
        ws("\n    "),
        tok("}"),
    ]);
    let local = node(vec![
        plain("// Lorem ipsum"),
        ws("\n    "),
        tok("fn"),
        ws(" "),
        tok("local"),
        tok("()"),
        ws(" "),
        inner,
    ]);
    let body = block(vec![ws("\n    "), local, ws("\n")]);
    assert_eq!(
        render(&body, &fence()).unwrap(),
        "Lorem ipsum\n\n```rust,ignore\nfn local() {\n    // inner\n}\n```\n"
    );
}

#[test]
fn doc_comment_above_a_declaration_stands_in_its_fence() {
    let local = node(vec![doc("/// About"), ws("\n    "), tok("fn"), ws(" "), tok("local() {}")]);
    let body = block(vec![ws("\n    "), local, ws("\n")]);
    assert_eq!(
        render(&body, &fence()).unwrap(),
        "\n\n```rust,ignore\n/// About\nfn local() {}\n```\n"
    );
}

#[test]
fn plain_comment_above_a_declaration_stands_before_its_fence() {
    let local = node(vec![plain("// About"), ws("\n    "), tok("fn"), ws(" "), tok("local() {}")]);
    let body = block(vec![ws("\n    "), local, ws("\n")]);
    assert_eq!(
        render(&body, &fence()).unwrap(),
        "About\n\n```rust,ignore\nfn local() {}\n```\n"
    );
}

#[test]
fn empty_block_is_one_newline() {
    assert_eq!(render(&block(vec![]), &fence()).unwrap(), "\n");
    assert_eq!(write_body(&[], "    ", &fence()), "\n");
}

#[test]
fn block_of_whitespace_alone_is_one_newline() {
    assert_eq!(render(&block(vec![ws("\n\n")]), &fence()).unwrap(), "\n");
    assert_eq!(write_body(&[ws("\n\n"), ws("\n")], "", &fence()), "\n");
}

#[test]
fn title_comment_then_statement() {
    let body = block(vec![
        ws("\n    "),
        plain("// Title text"),
        ws("\n    "),
        let_stmt("x"),
        ws("\n"),
    ]);
    assert_eq!(
        render(&body, &fence()).unwrap(),
        "Title text\n\n```rust,ignore\nlet x = 1;\n```\n"
    );
}

#[test]
fn fence_is_what_the_caller_asks_for() {
    let body = block(vec![ws("\n    "), let_stmt("x"), ws("\n")]);
    assert_eq!(
        render(&body, &CodeFence::new("rust", false)).unwrap(),
        "\n\n```rust\nlet x = 1;\n```\n"
    );
    assert_eq!(
        render(&body, &CodeFence::new("text", true)).unwrap(),
        "\n\n```text,ignore\nlet x = 1;\n```\n"
    );
}

#[test]
fn blank_line_between_statements_stays() {
    let body = block(vec![
        ws("\n    "),
        let_stmt("x"),
        ws("\n\n    "),
        let_stmt("y"),
        ws("\n"),
    ]);
    assert_eq!(
        render(&body, &fence()).unwrap(),
        "\n\n```rust,ignore\nlet x = 1;\n\nlet y = 1;\n```\n"
    );
}

#[test]
fn comments_alone_are_prose_without_a_fence() {
    let body = block(vec![
        ws("\n    "),
        plain("// One"),
        ws("\n\n    "),
        plain("// Two"),
        ws("\n    "),
        plain("// Three"),
        ws("\n"),
    ]);
    let markdown = render(&body, &fence()).unwrap();
    assert_eq!(markdown, "One\n\nTwo\nThree\n");
    assert!(!markdown.contains("```"));
}

#[test]
fn code_then_prose_then_code() {
    let body = block(vec![
        ws("\n    "),
        let_stmt("x"),
        ws("\n    "),
        plain("// Between"),
        ws("\n    "),
        let_stmt("y"),
        ws("\n"),
    ]);
    assert_eq!(
        render(&body, &fence()).unwrap(),
        "\n\n```rust,ignore\nlet x = 1;\n```\n\nBetween\n\n```rust,ignore\nlet y = 1;\n```\n"
    );
}

#[test]
fn first_element_is_kept_when_it_is_no_whitespace() {
    let body = block(vec![plain("// Close"), ws(" ")]);
    assert_eq!(render(&body, &fence()).unwrap(), "Close\n");
}

#[test]
fn only_the_first_whitespace_is_dropped() {
    let body = vec![tok("{"), ws("\n"), ws("\n\n"), plain("// Text"), tok("}")];
    assert_eq!(render(&body, &fence()).unwrap(), "\n\nText\n");
}

#[test]
fn indentation_is_taken_from_the_whole_body() {
    let body = block(vec![
        ws("\n        "),
        plain("// Deep"),
        ws("\n    "),
        node(vec![tok("f"), tok("("), ws("\n        "), tok("a"), ws("\n    "), tok(")")]),
        ws("\n"),
    ]);
    assert_eq!(
        render(&body, &fence()).unwrap(),
        "Deep\n\n```rust,ignore\nf(\n    a\n)\n```\n"
    );
}

#[test]
fn missing_delimiters_are_a_structure_error() {
    let cases: Vec<Vec<Element>> = vec![
        vec![],
        vec![tok("{")],
        vec![tok("}")],
        vec![tok("{"), ws(" ")],
        vec![ws(" "), tok("}")],
        vec![tok("("), tok("}")],
        vec![tok("{"), tok(")")],
        vec![tok("}"), tok("{")],
        vec![node(vec![tok("{")]), tok("}")],
        vec![tok("{"), plain("}")],
        vec![tok("{ "), tok("}")],
    ];
    for case in &cases {
        let error = render(case, &fence()).unwrap_err();
        assert_eq!(error.kind, ErrorKind::Structure);
        assert_eq!(error.message(), "Unexpected token");
    }
}

#[test]
fn text_of_a_node_is_the_text_of_its_tokens() {
    let element = node(vec![tok("a"), node(vec![ws(" "), plain("// b"), node(vec![])]), tok("c")]);
    assert_eq!(text_of(&element), "a // bc");
    assert_eq!(text_of(&node(vec![])), "");
    assert_eq!(text_of(&ws("\n ")), "\n ");
    assert_eq!(token_str(&Token::Substantive("fn".to_string())), "fn");
}

#[test]
fn expect_kind_wants_the_one_token() {
    assert!(expect_kind('{', Some(&tok("{"))).is_ok());
    assert!(expect_kind('}', Some(&tok("}"))).is_ok());
    for wrong in [tok("}"), tok("{{"), tok(""), ws("{"), plain("{"), node(vec![tok("{")])] {
        let error = expect_kind('{', Some(&wrong)).unwrap_err();
        assert_eq!(error.kind, ErrorKind::Structure);
        assert_eq!(error.message(), "Unexpected token");
    }
    let error = expect_kind('{', None).unwrap_err();
    assert_eq!(error.kind, ErrorKind::Structure);
    assert_eq!(error.message(), "Unexpected token");
}
