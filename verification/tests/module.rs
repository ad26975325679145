use mdbook_rust::book::{build, page_file, plan_module, Step};
use mdbook_rust::element::{Element, Token};
use mdbook_rust::element::{CommentKind, CommentShape};
use mdbook_rust::module::{
    is_named, render_module, write_function, Function, ModuleItem, Submodule,
};
use mdbook_rust::render::CodeFence;
use mdbook_rust::outline::{
    block_elements, classify_token, is_public, module_items, ItemKind, ItemSketch, OutlineEntry,
};
use mdbook_rust::syntax::{parse_failure, parse_module};
use mdbook_rust::{write_module, write_module_with, Error, ErrorKind};
use ra_ap_syntax::SourceFile;

fn tok(text: &str) -> Element {
    Element::Token(Token::Substantive(text.to_string()))
}

fn function(name: Option<&str>, public: bool, body: Option<Vec<Element>>) -> ModuleItem {
    ModuleItem::Function(Function { name: name.map(|n| n.to_string()), public, body })
}

fn module(name: Option<&str>, public: bool) -> ModuleItem {
    ModuleItem::Module(Submodule { name: name.map(|n| n.to_string()), public })
}

fn statement(text: &str) -> Vec<Element> {
    vec![tok("{"), Element::Node(vec![tok(text)]), tok("}")]
}

fn strings(items: &[&str]) -> Vec<String> {
    items.iter().map(|item| item.to_string()).collect()
}

fn fence() -> CodeFence {
    CodeFence::new("rust", true)
}

#[test]
fn is_named_wants_the_exact_name() {
    assert!(is_named(&Some("body".to_string()), "body"));
    assert!(!is_named(&Some("Body".to_string()), "body"));
    assert!(!is_named(&Some("body2".to_string()), "body"));
    assert!(!is_named(&Some("".to_string()), "body"));
    assert!(!is_named(&None, "body"));
}

#[test]
fn module_without_items_has_no_chapter() {
    assert_eq!(render_module(&vec![], &fence()).unwrap(), None);
}

#[test]
fn module_without_a_body_function_has_no_chapter() {
    let items = vec![
        function(Some("ignore_me"), true, Some(statement("x;"))),
        module(Some("body"), true),
        ModuleItem::Other,
        function(None, true, Some(statement("y;"))),
    ];
    assert_eq!(render_module(&items, &fence()).unwrap(), None);
}

#[test]
fn first_body_function_with_a_block_gives_the_chapter() {
    let items = vec![
        function(Some("other"), false, Some(statement("a;"))),
        function(Some("body"), false, None),
        function(Some("body"), false, Some(statement("b;"))),
        function(Some("body"), false, Some(statement("c;"))),
    ];
    assert_eq!(
        render_module(&items, &fence()).unwrap(),
        Some("\n\n```rust,ignore\nb;\n```\n".to_string())
    );
}

#[test]
fn body_function_without_delimiters_fails() {
    let items = vec![
        function(Some("body"), false, Some(vec![tok("x")])),
        function(Some("body"), false, Some(statement("b;"))),
    ];
    let error = render_module(&items, &fence()).unwrap_err();
    assert_eq!(error.kind, ErrorKind::Structure);
    assert_eq!(error.message(), "Unexpected token");
}

#[test]
fn differently_named_function_is_no_chapter() {
    assert_eq!(write_module("fn main() { let x = 1; }\n").unwrap(), None);
    assert_eq!(write_module("fn Body() {}\nfn body_() {}\nmod body {}\n").unwrap(), None);
}

#[test]
fn later_items_are_passed_over() {
    let source = "fn first() {}\nfn body() {\n    // One\n}\nfn body() {\n    // Two\n}\n";
    assert_eq!(write_module(source).unwrap(), Some("One\n".to_string()));
}

#[test]
fn body_function_without_a_block_is_passed_over() {
    let source = "fn body();\nfn body() {\n    // Here\n}\n";
    assert_eq!(write_module(source).unwrap(), Some("Here\n".to_string()));
}

#[test]
fn title_then_statement_from_source() {
    let source = "fn body() {\n    // Title text\n    let x = 1;\n}\n";
    let chapter = write_module(source).unwrap().unwrap();
    assert!(chapter.starts_with("Title text\n\n```"));
    assert_eq!(chapter, "Title text\n\n```rust,ignore\nlet x = 1;\n```\n");
}

#[test]
fn lone_token_in_code_follows_the_blank_line_once() {
    let source = "fn body() {\n    let x = 1;\n\n    ;\n}\n";
    assert_eq!(
        write_module(source).unwrap(),
        Some("\n\n```rust,ignore\nlet x = 1;\n\n;\n```\n".to_string())
    );
}

#[test]
fn lone_token_after_prose_opens_a_fence() {
    let source = "fn body() {\n    // Prose\n    ;\n}\n";
    assert_eq!(
        write_module(source).unwrap(),
        Some("Prose\n\n```rust,ignore\n\n;\n```\n".to_string())
    );
}

#[test]
fn whitespace_with_carriage_returns_counts_its_newlines() {
    let source = "fn body() {\r\n    let x = 1;\r\n\r\n    let y = 2;\r\n}\r\n";
    assert_eq!(
        write_module(source).unwrap(),
        Some("\n\n```rust,ignore\nlet x = 1;\n\nlet y = 2;\n```\n".to_string())
    );
}

#[test]
fn chapter_with_the_fence_asked_for() {
    let source = "fn body() {\n    let x = 1;\n}\n";
    assert_eq!(
        write_module_with(source, &CodeFence::new("rust", false)).unwrap(),
        Some("\n\n```rust\nlet x = 1;\n```\n".to_string())
    );
}

#[test]
fn doc_comment_on_a_local_function_stays_in_the_fence() {
    let source = "fn body() {\n    /// About\n    fn local() {}\n}\n";
    assert_eq!(
        write_module(source).unwrap(),
        Some("\n\n```rust,ignore\n/// About\nfn local() {}\n```\n".to_string())
    );
}

#[test]
fn comments_inside_a_local_function_stay_code() {
    let source =
        "fn body() {\n    // Lorem\n    fn local() {\n        // inner\n        let x = 1;\n    }\n}\n";
    assert_eq!(
        write_module(source).unwrap(),
        Some(
            "Lorem\n\n```rust,ignore\nfn local() {\n    // inner\n    let x = 1;\n}\n```\n"
                .to_string()
        )
    );
}

#[test]
fn prose_after_code_closes_the_fence() {
    let source = "fn body() {\n    let x = 1;\n    // Then\n    let y = 2;\n    // End\n}\n";
    assert_eq!(
        write_module(source).unwrap(),
        Some(
            "\n\n```rust,ignore\nlet x = 1;\n```\n\nThen\n\n```rust,ignore\nlet y = 2;\n```\n\nEnd\n"
                .to_string()
        )
    );
}

#[test]
fn source_that_does_not_parse_is_a_parse_error() {
    let source = "fn body( {\n    let = ;\n";
    let expected: Vec<String> =
        SourceFile::parse(source).errors().iter().map(|e| e.to_string()).collect();
    assert!(expected.len() > 1);
    let error = write_module(source).unwrap_err();
    assert_eq!(error.kind, ErrorKind::Parse);
    assert_eq!(error.message(), expected.join("\n"));
    assert_ne!(error.message(), source);
    let error = parse_module(source).unwrap_err();
    assert_eq!(error.kind, ErrorKind::Parse);
    assert_eq!(error.message(), expected.join("\n"));
}

#[test]
fn parse_failure_holds_each_diagnostic_on_a_line() {
    let error = parse_failure(&strings(&["first", "second", "third"]));
    assert_eq!(error.kind, ErrorKind::Parse);
    assert_eq!(error.message(), "first\nsecond\nthird");
    assert_eq!(parse_failure(&strings(&["only"])).message(), "only");
}

#[test]
fn parsed_module_holds_its_items() {
    let source = "pub fn body() { x }\nmod a;\npub mod b {}\nstruct S;\npub(crate) fn f();\n";
    let items = parse_module(source).unwrap();
    assert_eq!(items.len(), 5);
    match &items[0] {
        ModuleItem::Function(function) => {
            assert_eq!(function.name, Some("body".to_string()));
            assert!(function.public);
            let body = function.body.as_ref().unwrap();
            assert_eq!(body.len(), 5);
            assert!(matches!(&body[0], Element::Token(Token::Substantive(text)) if text == "{"));
            assert!(matches!(&body[1], Element::Token(Token::Whitespace(text)) if text == " "));
            assert!(matches!(&body[2], Element::Node(_)));
            assert!(matches!(&body[4], Element::Token(Token::Substantive(text)) if text == "}"));
        }
        _ => panic!("the first item is a function"),
    }
    match &items[1] {
        ModuleItem::Module(module) => {
            assert_eq!(module.name, Some("a".to_string()));
            assert!(!module.public);
        }
        _ => panic!("the second item is a module"),
    }
    match &items[2] {
        ModuleItem::Module(module) => {
            assert_eq!(module.name, Some("b".to_string()));
            assert!(module.public);
        }
        _ => panic!("the third item is a module"),
    }
    assert!(matches!(&items[3], ModuleItem::Other));
    match &items[4] {
        ModuleItem::Function(function) => {
            assert_eq!(function.name, Some("f".to_string()));
            assert!(!function.public);
            assert!(function.body.is_none());
        }
        _ => panic!("the fifth item is a function"),
    }
}

#[test]
fn is_public_wants_plain_pub() {
    assert!(is_public(Some(true)));
    assert!(!is_public(Some(false)));
    assert!(!is_public(None));
}

#[test]
fn errors_hold_kind_and_message() {
    let error = Error::new(ErrorKind::Environment, "OUT_DIR is not set");
    assert_eq!(error.kind, ErrorKind::Environment);
    assert_eq!(error.message(), "OUT_DIR is not set");
    let error = Error::raise(ErrorKind::Io, "disk full").unwrap_err();
    assert_eq!(error.kind, ErrorKind::Io);
    assert_eq!(error.message(), "disk full");
}

#[test]
fn page_of_the_root_is_lib() {
    assert_eq!(page_file(&strings(&[])), strings(&["lib"]));
    assert_eq!(page_file(&strings(&["a", "b"])), strings(&["a", "b"]));
}

#[test]
fn plan_holds_pages_and_visits_in_order() {
    let items = vec![
        module(Some("first"), true),
        function(Some("body"), true, Some(statement("x;"))),
        module(Some("hidden"), false),
        module(None, true),
        function(Some("body"), false, Some(statement("private;"))),
        function(Some("other"), true, Some(statement("y;"))),
        function(Some("body"), true, None),
        ModuleItem::Other,
        module(Some("second"), true),
    ];
    let plan = plan_module(&strings(&["top"]), &items, &CodeFence::new("rust", false));
    assert!(plan.failure.is_none());
    assert_eq!(plan.steps.len(), 3);
    match &plan.steps[0] {
        Step::Visit { segments } => assert_eq!(segments, &strings(&["top", "first"])),
        _ => panic!("the first step is a visit"),
    }
    match &plan.steps[1] {
        Step::Page { path, content } => {
            assert_eq!(path, &strings(&["top"]));
            assert_eq!(content, "\n\n```rust\nx;\n```\n");
        }
        _ => panic!("the second step is a page"),
    }
    match &plan.steps[2] {
        Step::Visit { segments } => assert_eq!(segments, &strings(&["top", "second"])),
        _ => panic!("the third step is a visit"),
    }
}

#[test]
fn plan_stops_at_the_first_failure() {
    let items = vec![
        module(Some("first"), true),
        function(Some("body"), true, Some(vec![tok("{")])),
        module(Some("second"), true),
    ];
    let plan = plan_module(&strings(&[]), &items, &CodeFence::new("rust", false));
    assert_eq!(plan.steps.len(), 1);
    let error = plan.failure.unwrap();
    assert_eq!(error.kind, ErrorKind::Structure);
    assert_eq!(error.message(), "Unexpected token");
}

#[test]
fn build_plans_a_module_from_its_source() {
    let source = "pub fn body() {\n    // # Chapter 1\n    println!(\"code\");\n}\n\npub fn ignore_me() {\n    // This will be ignored.\n}\n\npub mod nested;\nmod private;\n";
    let plan = build(&strings(&[]), source);
    assert!(plan.failure.is_none());
    assert_eq!(plan.steps.len(), 2);
    match &plan.steps[0] {
        Step::Page { path, content } => {
            assert_eq!(path, &strings(&["lib"]));
            assert_eq!(content, "# Chapter 1\n\n```rust\nprintln!(\"code\");\n```\n");
        }
        _ => panic!("the first step is a page"),
    }
    match &plan.steps[1] {
        Step::Visit { segments } => assert_eq!(segments, &strings(&["nested"])),
        _ => panic!("the second step is a visit"),
    }
}

#[test]
fn build_passes_over_a_private_body() {
    let plan = build(&strings(&["a"]), "fn body() {\n    // Hidden\n}\npub(crate) mod b;\n");
    assert!(plan.failure.is_none());
    assert!(plan.steps.is_empty());
}

#[test]
fn build_of_source_that_does_not_parse_fails() {
    let source = "pub fn body() {";
    let expected: Vec<String> =
        SourceFile::parse(source).errors().iter().map(|e| e.to_string()).collect();
    assert!(!expected.is_empty());
    let plan = build(&strings(&[]), source);
    assert!(plan.steps.is_empty());
    let error = plan.failure.unwrap();
    assert_eq!(error.kind, ErrorKind::Parse);
    assert_eq!(error.message(), expected.join("\n"));
}

#[test]
fn function_without_a_block_writes_nothing() {
    let bodiless = Function { name: Some("body".to_string()), public: true, body: None };
    assert_eq!(write_function(&bodiless, &fence()).unwrap(), None);
}

#[test]
fn function_with_a_block_writes_its_markdown() {
    let with_block =
        Function { name: Some("any".to_string()), public: false, body: Some(statement("x;")) };
    assert_eq!(
        write_function(&with_block, &fence()).unwrap(),
        Some("\n\n```rust,ignore\nx;\n```\n".to_string())
    );
    let broken = Function { name: None, public: false, body: Some(vec![tok("{")]) };
    assert_eq!(write_function(&broken, &fence()).unwrap_err().kind, ErrorKind::Structure);
}

#[test]
fn tokens_are_told_apart_by_what_the_parser_says() {
    let kind = CommentKind { shape: CommentShape::Block, doc: true, marker_len: 3 };
    match classify_token("/** a */".to_string(), Some(kind), false) {
        Token::Comment(comment) => {
            assert_eq!(comment.shape, CommentShape::Block);
            assert!(comment.doc);
            assert_eq!(comment.marker_len, 3);
            assert_eq!(comment.text, "/** a */");
        }
        _ => panic!("a comment"),
    }
    assert!(matches!(
        classify_token(" ".to_string(), None, true),
        Token::Whitespace(text) if text == " "
    ));
    assert!(matches!(
        classify_token("fn".to_string(), None, false),
        Token::Substantive(text) if text == "fn"
    ));
}

#[test]
fn comments_from_source_carry_their_kind() {
    let source = "fn body() {\n    /// doc\n    //! inner\n    /** block */\n    //// rule\n    /* plain */\n    let x = 1;\n}\n";
    let items = parse_module(source).unwrap();
    let body = match &items[0] {
        ModuleItem::Function(function) => function.body.as_ref().unwrap(),
        _ => panic!("a function"),
    };
    let mut kinds = Vec::new();
    let mut visit = |element: &Element| {
        if let Element::Token(Token::Comment(comment)) = element {
            kinds.push((comment.text.clone(), comment.shape, comment.doc, comment.marker_len));
        }
    };
    for element in body {
        visit(element);
        if let Element::Node(children) = element {
            for child in children {
                visit(child);
            }
        }
    }
    assert_eq!(
        kinds,
        vec![
            ("/// doc".to_string(), CommentShape::Line, true, 3),
            ("//! inner".to_string(), CommentShape::Line, true, 3),
            ("/** block */".to_string(), CommentShape::Block, true, 3),
            ("//// rule".to_string(), CommentShape::Line, false, 4),
            ("/* plain */".to_string(), CommentShape::Block, false, 2),
        ]
    );
}

fn entry(depth: usize, node: bool, whitespace: bool, text: &str) -> OutlineEntry {
    OutlineEntry { depth, node, whitespace, text: text.to_string() }
}

fn texts(elements: &[Element]) -> Vec<String> {
    elements.iter().map(mdbook_rust::element::text_of).collect()
}

#[test]
fn outline_gives_the_elements_right_below_the_block() {
    let outline = vec![
        entry(3, true, false, "{ x }"),
        entry(4, false, false, "{"),
        entry(4, false, true, " "),
        entry(4, true, false, "x"),
        entry(5, true, false, "x"),
        entry(6, true, false, "x"),
        entry(7, false, false, "x"),
        entry(4, false, true, " "),
        entry(4, false, false, "}"),
    ];
    let elements = block_elements(&outline, &vec![None; 9]);
    assert_eq!(texts(&elements), vec!["{", " ", "x", " ", "}"]);
    assert!(matches!(&elements[0], Element::Token(Token::Substantive(text)) if text == "{"));
    assert!(matches!(&elements[1], Element::Token(Token::Whitespace(text)) if text == " "));
    match &elements[2] {
        Element::Node(children) => {
            assert_eq!(children.len(), 1);
            match &children[0] {
                Element::Node(whole) => {
                    assert_eq!(whole.len(), 1);
                    assert!(matches!(
                        &whole[0],
                        Element::Token(Token::Substantive(text)) if text == "x"
                    ));
                }
                _ => panic!("a node that keeps its text in one piece"),
            }
        }
        _ => panic!("a node"),
    }
}

#[test]
fn outline_ends_where_the_depth_comes_back() {
    let outline = vec![
        entry(1, true, false, "ab"),
        entry(2, false, false, "a"),
        entry(3, false, false, "deep"),
        entry(2, false, false, "b"),
        entry(1, false, false, "after"),
        entry(2, false, false, "stray"),
    ];
    let elements = block_elements(&outline, &Vec::new());
    assert_eq!(texts(&elements), vec!["a", "b"]);
    assert!(block_elements(&Vec::new(), &Vec::new()).is_empty());
    assert!(block_elements(&vec![entry(0, true, false, "")], &Vec::new()).is_empty());
}

#[test]
fn outline_takes_comment_kinds_by_position() {
    let outline = vec![
        entry(0, true, false, "{// a\n/// b}"),
        entry(1, false, false, "{"),
        entry(1, false, false, "// a"),
        entry(1, false, true, "\n"),
        entry(1, false, false, "/// b"),
        entry(1, false, false, "}"),
    ];
    let plain = CommentKind { shape: CommentShape::Line, doc: false, marker_len: 2 };
    let doc = CommentKind { shape: CommentShape::Line, doc: true, marker_len: 3 };
    let elements = block_elements(&outline, &vec![None, None, Some(plain), None, Some(doc)]);
    assert_eq!(elements.len(), 5);
    assert!(matches!(
        &elements[1],
        Element::Token(Token::Comment(comment)) if !comment.doc && comment.marker_len == 2
    ));
    assert!(matches!(
        &elements[3],
        Element::Token(Token::Comment(comment)) if comment.doc && comment.text == "/// b"
    ));
    let short = block_elements(&outline, &vec![None, None, Some(plain)]);
    assert!(matches!(&short[1], Element::Token(Token::Comment(_))));
    assert!(matches!(&short[3], Element::Token(Token::Substantive(text)) if text == "/// b"));
    assert_eq!(
        mdbook_rust::render(&elements, &fence()).unwrap(),
        "a\n\n```rust,ignore\n/// b\n```\n"
    );
}

#[test]
fn items_are_made_of_sketches_and_outlines() {
    let sketches = vec![
        ItemSketch { kind: ItemKind::Other, name: None, visibility: None },
        ItemSketch {
            kind: ItemKind::Function,
            name: Some("body".to_string()),
            visibility: Some(true),
        },
        ItemSketch {
            kind: ItemKind::Module,
            name: Some("inner".to_string()),
            visibility: Some(false),
        },
        ItemSketch { kind: ItemKind::Function, name: Some("late".to_string()), visibility: None },
    ];
    let outlines = vec![
        None,
        Some(vec![entry(2, true, false, "{}"), entry(3, false, false, "{"), entry(3, false, false, "}")]),
        None,
    ];
    let items = module_items(&sketches, &outlines, &Vec::new());
    assert_eq!(items.len(), 4);
    assert!(matches!(&items[0], ModuleItem::Other));
    match &items[1] {
        ModuleItem::Function(function) => {
            assert_eq!(function.name, Some("body".to_string()));
            assert!(function.public);
            assert_eq!(texts(function.body.as_ref().unwrap()), vec!["{", "}"]);
        }
        _ => panic!("a function"),
    }
    match &items[2] {
        ModuleItem::Module(module) => {
            assert_eq!(module.name, Some("inner".to_string()));
            assert!(!module.public);
        }
        _ => panic!("a module"),
    }
    match &items[3] {
        ModuleItem::Function(function) => {
            assert!(!function.public);
            assert!(function.body.is_none());
        }
        _ => panic!("a function"),
    }
    assert_eq!(render_module(&items, &fence()).unwrap(), Some("\n".to_string()));
}
