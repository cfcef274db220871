use code_tags::engine::{generate_tags, TagContext, TagQuery};
use code_tags::error::TagsError;
use code_tags::kind::TagKind;
use code_tags::render::render_tags;
use code_tags::tag::Tag;

const PYTHON_QUERY: &str = r#"
((function_definition
  name: (identifier) @name
  body: (block . (expression_statement (string) @doc))) @definition.function
 (#strip! @doc "(^['\"\\s]*)|(['\"\\s]*$)"))
(function_definition
  name: (identifier) @name) @definition.function
((class_definition
  name: (identifier) @name
  body: (block . (expression_statement (string) @doc))) @definition.class
 (#strip! @doc "(^['\"\\s]*)|(['\"\\s]*$)"))
(class_definition
  name: (identifier) @name) @definition.class
(call
  function: (identifier) @name) @reference.call
"#;

const JAVASCRIPT_QUERY: &str = r#"
((_
  (comment)+ @doc
  .
  (class_declaration
    name: (identifier) @name) @definition.class)
 (#select-adjacent! @doc @definition.class)
 (#strip! @doc "(^[/\\*\\s]*)|([/\\*\\s]*$)"))
((_
  (comment)+ @doc
  .
  (method_definition
    name: (property_identifier) @name) @definition.method)
 (#select-adjacent! @doc @definition.method)
 (#strip! @doc "(^[/\\*\\s]*)|([/\\*\\s]*$)"))
(class_declaration
  name: (identifier) @name) @definition.class
"#;

fn python(query: &str) -> TagQuery {
    TagQuery::new(tree_sitter_python::LANGUAGE.into(), query, "").unwrap()
}

fn javascript(query: &str) -> TagQuery {
    TagQuery::new(tree_sitter_javascript::LANGUAGE.into(), query, "").unwrap()
}

fn tags_of(query: &TagQuery, source: &[u8]) -> Vec<Tag> {
    generate_tags(&mut TagContext::new(), query, source).unwrap()
}

fn name<'a>(source: &'a [u8], tag: &Tag) -> &'a str {
    std::str::from_utf8(&source[tag.name_range.clone()]).unwrap()
}

fn summary(source: &[u8], tags: &[Tag]) -> Vec<(String, TagKind, Option<String>)> {
    tags.iter()
        .map(|t| (name(source, t).to_string(), t.kind, t.docs.clone()))
        .collect()
}

#[test]
fn strip_removes_quotes_and_blanks_at_both_ends() {
    let source = b"def age(self):\n    '''Get the customer's age'''\n    return 1\n";
    let tags = tags_of(&python(PYTHON_QUERY), source);
    assert_eq!(tags.len(), 1);
    assert_eq!(tags[0].docs.as_deref(), Some("Get the customer's age"));
}

#[test]
fn strip_that_matches_nothing_leaves_the_text() {
    let query = r#"
    ((function_definition
      name: (identifier) @name
      body: (block . (expression_statement (string) @doc))) @definition.function
     (#strip! @doc "@@@"))
    "#;
    let source = b"def age(self):\n    '''Get the customer's age'''\n";
    let tags = tags_of(&python(query), source);
    assert_eq!(tags.len(), 1);
    assert_eq!(tags[0].docs.as_deref(), Some("'''Get the customer's age'''"));
}

#[test]
fn documentation_as_first_statement() {
    let source = b"class Customer:\n    \"\"\"Data about a customer\"\"\"\n    def age(self):\n        '''Get the customer's age'''\n        compute_age(self.id)\n";
    let tags = tags_of(&python(PYTHON_QUERY), source);
    assert_eq!(
        summary(source, &tags),
        [
            ("Customer".to_string(), TagKind::Class, Some("Data about a customer".to_string())),
            ("age".to_string(), TagKind::Function, Some("Get the customer's age".to_string())),
            ("compute_age".to_string(), TagKind::Call, None),
        ]
    );
}

#[test]
fn comment_that_is_not_adjacent_gives_no_docs() {
    let source = b"// ok\n\nclass Agent {}\n";
    let tags = tags_of(&javascript(JAVASCRIPT_QUERY), source);
    assert_eq!(summary(source, &tags), [("Agent".to_string(), TagKind::Class, None)]);
}

#[test]
fn adjacent_comment_gives_docs() {
    let source = b"// ok\nclass Agent {}\n";
    let tags = tags_of(&javascript(JAVASCRIPT_QUERY), source);
    assert_eq!(
        summary(source, &tags),
        [("Agent".to_string(), TagKind::Class, Some("ok".to_string()))]
    );
}

#[test]
fn only_the_adjacent_run_of_comments_is_kept() {
    let source = b"// far\n\n// near\n// nearer\nclass Agent {}\n";
    let tags = tags_of(&javascript(JAVASCRIPT_QUERY), source);
    assert_eq!(
        summary(source, &tags),
        [("Agent".to_string(), TagKind::Class, Some("near\nnearer".to_string()))]
    );
}

#[test]
fn block_comment_before_a_method_is_its_docs() {
    let source = b"class Customer {\n    /*\n     * Get the customer's age\n     */\n    getAge() {\n    }\n}\n";
    let tags = tags_of(&javascript(JAVASCRIPT_QUERY), source);
    assert_eq!(
        summary(source, &tags),
        [
            ("Customer".to_string(), TagKind::Class, None),
            ("getAge".to_string(), TagKind::Method, Some("Get the customer's age".to_string())),
        ]
    );
}

#[test]
fn pattern_without_name_gives_no_tag() {
    let query = "(class_definition) @definition.class";
    let source = b"class Customer:\n    pass\n";
    assert!(tags_of(&python(query), source).is_empty());
    let query = "(class_definition body: (block) @doc) @definition.class";
    assert!(tags_of(&python(query), source).is_empty());
}

#[test]
fn ignored_names_give_no_tag() {
    let query = r#"
    ((call function: (identifier) @ignore) (#eq? @ignore "print"))
    (call function: (identifier) @name) @reference.call
    "#;
    let query = python(query);
    let source = b"foo(1)\nprint(2)\n";
    let tags = tags_of(&query, source);
    assert_eq!(summary(source, &tags), [("foo".to_string(), TagKind::Call, None)]);
    let source = b"print(2)\nfoo(1)\n";
    let tags = tags_of(&query, source);
    assert_eq!(summary(source, &tags), [("foo".to_string(), TagKind::Call, None)]);
    let source = b"print(2)\n";
    assert!(tags_of(&query, source).is_empty());
}

#[test]
fn only_ignored_names_give_no_tag() {
    let query = python("(call function: (identifier) @ignore)");
    assert!(tags_of(&query, b"foo(1)\nprint(2)\n").is_empty());
}

#[test]
fn captures_of_other_kinds_give_no_tag() {
    let query = r#"
    (class_definition name: (identifier) @name) @definition.interface
    (function_definition name: (identifier) @name) @reference.function
    (call function: (identifier) @name) @definition.call
    (call function: (attribute attribute: (identifier) @name)) @reference.call
    "#;
    let source = b"class A:\n    def f(self):\n        g()\n        self.h()\n";
    let tags = tags_of(&python(query), source);
    assert_eq!(summary(source, &tags), [("h".to_string(), TagKind::Call, None)]);
}

#[test]
fn kind_comes_from_the_capture_not_from_its_place_in_the_query() {
    let query = r#"
    (call function: (identifier) @name) @reference.call
    (class_definition name: (identifier) @name) @definition.module
    (function_definition name: (identifier) @name) @definition.method
    "#;
    let source = b"class A:\n    def f(self):\n        g()\n";
    let tags = tags_of(&python(query), source);
    assert_eq!(
        summary(source, &tags),
        [
            ("A".to_string(), TagKind::Module, None),
            ("f".to_string(), TagKind::Method, None),
            ("g".to_string(), TagKind::Call, None),
        ]
    );
}

#[test]
fn first_pattern_wins_on_one_node() {
    let query = r#"
    (function_definition name: (identifier) @name) @definition.method
    (function_definition name: (identifier) @name) @definition.function
    "#;
    let source = b"def f():\n    pass\n";
    let tags = tags_of(&python(query), source);
    assert_eq!(summary(source, &tags), [("f".to_string(), TagKind::Method, None)]);
}

#[test]
fn tags_are_in_source_order() {
    let source = b"def a():\n    b()\n    c(d())\n\nclass E:\n    def f(self):\n        g()\n\nh()\n";
    let tags = tags_of(&python(PYTHON_QUERY), source);
    assert_eq!(
        tags.iter().map(|t| name(source, t)).collect::<Vec<_>>(),
        ["a", "b", "c", "d", "E", "f", "g", "h"]
    );
    for pair in tags.windows(2) {
        assert!(
            pair[0].span.start < pair[1].span.start
                || (pair[0].span.start == pair[1].span.start && pair[0].span.end >= pair[1].span.end)
        );
    }
}

#[test]
fn ranges_of_a_small_document() {
    let source = b"def f():\n    g()\n";
    let tags = tags_of(&python(PYTHON_QUERY), source);
    assert_eq!(tags.len(), 2);
    assert_eq!(tags[0].name_range, 4..5);
    assert_eq!(tags[0].line_range, 0..8);
    assert_eq!(tags[0].span, 0..16);
    assert_eq!(tags[1].name_range, 13..14);
    assert_eq!(tags[1].line_range, 9..16);
    assert_eq!(tags[1].span, 13..16);
    assert_eq!(
        render_tags(&tags, source),
        "Function\tf\t0 - 16\tdocs:\nCall\tg\t13 - 16\tdocs:\n"
    );
}

#[test]
fn tags_are_well_formed() {
    let source = b"class Customer:\n    \"\"\"Data about a customer\"\"\"\n    def age(self):\n        compute_age(self.id)\n";
    let tags = tags_of(&python(PYTHON_QUERY), source);
    assert_eq!(tags.len(), 3);
    for tag in &tags {
        assert!(tag.span.start <= tag.name_range.start);
        assert!(tag.name_range.start <= tag.name_range.end);
        assert!(tag.name_range.end <= tag.span.end);
        assert!(tag.span.end <= source.len());
        assert!(tag.line_range.start <= tag.name_range.start);
        assert!(tag.name_range.start <= tag.line_range.end);
        assert!(!source[tag.line_range.clone()].contains(&b'\n'));
        assert!(tag.line_range.start == 0 || source[tag.line_range.start - 1] == b'\n');
        assert!(tag.line_range.end == source.len() || source[tag.line_range.end] == b'\n');
    }
}

#[test]
fn empty_document_has_no_tags() {
    assert!(tags_of(&python(PYTHON_QUERY), b"").is_empty());
}

#[test]
fn empty_query_finds_no_tags() {
    assert!(tags_of(&python(""), b"def f():\n    pass\n").is_empty());
}

#[test]
fn document_with_syntax_errors_is_tagged_where_it_can_be() {
    let source = b"def f(:\n    pass\n\ndef g():\n    pass\n";
    let tags = tags_of(&python(PYTHON_QUERY), source);
    assert!(tags.iter().any(|t| name(source, t) == "g"));
}

#[test]
fn same_query_compiled_twice_gives_the_same_tags() {
    let source = b"class Customer:\n    \"\"\"Data about a customer\"\"\"\n    def age(self):\n        '''Get the customer's age'''\n        compute_age(self.id)\n";
    let first = tags_of(&python(PYTHON_QUERY), source);
    let second = tags_of(&python(PYTHON_QUERY), source);
    assert_eq!(first.len(), 3);
    assert_eq!(first.len(), second.len());
    for (a, b) in first.iter().zip(second.iter()) {
        assert_eq!(a.kind, b.kind);
        assert_eq!(a.name_range, b.name_range);
        assert_eq!(a.line_range, b.line_range);
        assert_eq!(a.span, b.span);
        assert_eq!(a.docs, b.docs);
    }
    assert_eq!(render_tags(&first, source), render_tags(&second, source));
}

#[test]
fn context_serves_documents_and_queries_in_turn() {
    let python_query = python(PYTHON_QUERY);
    let javascript_query = javascript(JAVASCRIPT_QUERY);
    let python_source: &[u8] = b"def f():\n    g()\n";
    let javascript_source: &[u8] = b"// ok\nclass Agent {}\n";
    let fresh_python = render_tags(&tags_of(&python_query, python_source), python_source);
    let fresh_javascript =
        render_tags(&tags_of(&javascript_query, javascript_source), javascript_source);
    let mut context = TagContext::new();
    for _ in 0..3 {
        let tags = generate_tags(&mut context, &python_query, python_source).unwrap();
        assert_eq!(render_tags(&tags, python_source), fresh_python);
        let tags = generate_tags(&mut context, &javascript_query, javascript_source).unwrap();
        assert_eq!(render_tags(&tags, javascript_source), fresh_javascript);
        let tags = generate_tags(&mut context, &python_query, b"").unwrap();
        assert!(tags.is_empty());
    }
}

#[test]
fn malformed_query_is_reported_with_its_place() {
    let query = "(function_definition name: (identifier) @name) @definition.function\n  (no_such_node) @definition.class";
    match TagQuery::new(tree_sitter_python::LANGUAGE.into(), query, "") {
        Err(TagsError::Query(fault)) => {
            assert_eq!(fault.pattern, 1);
            assert_eq!(fault.row, 1);
            assert_eq!(fault.column, 3);
            assert_eq!(fault.offset, 71);
            assert!(fault.message.contains("no_such_node"));
        }
        _ => panic!("the query must not compile"),
    }
}

#[test]
fn unbalanced_query_is_reported() {
    let query = "(function_definition name: (identifier) @name";
    match TagQuery::new(tree_sitter_python::LANGUAGE.into(), query, "") {
        Err(TagsError::Query(fault)) => assert_eq!(fault.pattern, 0),
        _ => panic!("the query must not compile"),
    }
}

#[test]
fn directive_on_unknown_capture_is_reported() {
    let query = r#"((function_definition name: (identifier) @name) @definition.function (#strip! @docs "x"))"#;
    match TagQuery::new(tree_sitter_python::LANGUAGE.into(), query, "") {
        Err(TagsError::Query(fault)) => {
            assert_eq!(fault.pattern, 0);
            assert_eq!(fault.row, 0);
            assert!(fault.message.contains("docs"));
        }
        _ => panic!("the query must not compile"),
    }
}

#[test]
fn fault_in_a_later_pattern_is_reported_with_its_number() {
    let query = r#"
    (function_definition name: (identifier) @name) @definition.function
    ; a comment with (brackets)
    ((class_definition
      name: (identifier) @name
      body: (block . (expression_statement (string) @doc))) @definition.class
     (#strip! @doc "(^['\"\\s]*)|(['\"\\s]*$)"))
    (call function: (identifier) @name) @reference.call
    (call function: (no_such_node) @name) @reference.call
    (class_definition name: (identifier) @name) @definition.class
    "#;
    match TagQuery::new(tree_sitter_python::LANGUAGE.into(), query, "") {
        Err(TagsError::Query(fault)) => {
            assert_eq!(fault.pattern, 3);
            assert_eq!(fault.row, 8);
            assert!(fault.message.contains("no_such_node"));
        }
        _ => panic!("the query must not compile"),
    }
}

#[test]
fn patterns_for_locals_are_counted_first() {
    let locals = "(function_definition) @local.scope\n(class_definition) @local.scope\n";
    let tags = "(call function: (no_such_node) @name) @reference.call";
    match TagQuery::new(tree_sitter_python::LANGUAGE.into(), tags, locals) {
        Err(TagsError::Query(fault)) => {
            assert_eq!(fault.pattern, 2);
            assert_eq!(fault.row, 2);
            assert_eq!(fault.offset, locals.len() + 17);
            assert!(fault.message.contains("no_such_node"));
        }
        _ => panic!("the query must not compile"),
    }
}

#[test]
fn bad_strip_pattern_is_reported() {
    let query = r#"
    ((function_definition
      name: (identifier) @name
      body: (block . (expression_statement (string) @doc))) @definition.function
     (#strip! @doc "("))
    "#;
    assert!(matches!(
        TagQuery::new(tree_sitter_python::LANGUAGE.into(), query, ""),
        Err(TagsError::Regex(_))
    ));
}

#[test]
fn capture_without_role_is_reported() {
    let query = "(function_definition name: (identifier) @name) @klass";
    match TagQuery::new(tree_sitter_python::LANGUAGE.into(), query, "") {
        Err(TagsError::InvalidCapture(name)) => assert_eq!(name, "klass"),
        _ => panic!("the query must not compile"),
    }
}

#[test]
fn tags_are_of_the_kinds_that_the_query_captures() {
    let source = b"class A:\n    def f(self):\n        g()\n";
    let only_classes = python("(class_definition name: (identifier) @name) @definition.class");
    let tags = tags_of(&only_classes, source);
    assert_eq!(summary(source, &tags), [("A".to_string(), TagKind::Class, None)]);
    let only_calls = python("(call function: (identifier) @name) @reference.call");
    let tags = tags_of(&only_calls, source);
    assert_eq!(summary(source, &tags), [("g".to_string(), TagKind::Call, None)]);
    let all = tags_of(&python(PYTHON_QUERY), source);
    assert_eq!(
        all.iter().map(|t| t.kind).collect::<Vec<_>>(),
        [TagKind::Class, TagKind::Function, TagKind::Call]
    );
}

#[test]
fn malformed_condition_is_reported_with_its_pattern() {
    let query = "(function_definition name: (identifier) @name) @definition.function\n(class_definition name: (identifier) @name) @definition.class\n((call function: (identifier) @name) @reference.call\n (#eq? @name))\n(call) @reference.call";
    match TagQuery::new(tree_sitter_python::LANGUAGE.into(), query, "") {
        Err(TagsError::Query(fault)) => {
            assert_eq!(fault.offset, 0);
            assert_eq!(fault.row, 2);
            assert_eq!(fault.pattern, 2);
        }
        _ => panic!("the query must not compile"),
    }
}

#[test]
fn pattern_after_a_wildcard_is_numbered_right() {
    let query = "_ @definition.class\nname: (identifier) @name\n(no_such_node) @definition.class";
    match TagQuery::new(tree_sitter_python::LANGUAGE.into(), query, "") {
        Err(TagsError::Query(fault)) => {
            assert_eq!(fault.row, 2);
            assert_eq!(fault.pattern, 2);
        }
        _ => panic!("the query must not compile"),
    }
}
