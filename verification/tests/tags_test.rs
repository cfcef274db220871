use code_tags::engine::{TagContext, TagQuery};
use code_tags::generate_tags;
use code_tags::kind::TagKind;

#[test]
fn test_tags_python() {
    let language = tree_sitter_python::LANGUAGE.into();
    let tags_config = TagQuery::new(
        language,
        r#"
        ((function_definition
          name: (identifier) @name
          body: (block . (expression_statement (string) @doc))) @definition.function
         (#strip! @doc "(^['\"\\s]*)|(['\"\\s]*$)"))
        (function_definition
          name: (identifier) @name) @definition.function
        ((class_definition
          name: (identifier) @name
          body: (block . (expression_statement (string) @doc))) @definition.class
         (#strip! @doc "(^['\"\\s]*)|(['\"\\s]*$)"))
        (class_definition
          name: (identifier) @name) @definition.class
        (call
          function: (identifier) @name) @reference.call
        "#,
        "",
    )
    .unwrap();

    let source = br#"
    class Customer:
        """
        Data about a customer
        """

        def age(self):
            '''
            Get the customer's age
            '''
            compute_age(self.id)
    }
    "#;

    let mut tag_context = TagContext::new();
    let tags = generate_tags(&mut tag_context, &tags_config, source).unwrap();

    assert_eq!(
        tags.iter()
            .map(|t| (substr(source, &t.name_range), t.kind))
            .collect::<Vec<_>>(),
        &[
            ("Customer", TagKind::Class),
            ("age", TagKind::Function),
            ("compute_age", TagKind::Call),
        ]
    );

    assert_eq!(substr(source, &tags[0].line_range), "    class Customer:");
    assert_eq!(
        substr(source, &tags[1].line_range),
        "        def age(self):"
    );
    assert_eq!(tags[0].docs.as_ref().unwrap(), "Data about a customer");
    assert_eq!(tags[1].docs.as_ref().unwrap(), "Get the customer's age");
}

#[test]
fn test_tags_javascript() {
    let language = tree_sitter_javascript::LANGUAGE.into();
    let tags_config = TagQuery::new(
        language,
        r#"
        ((_
          (comment)+ @doc
          .
          (class_declaration
            name: (identifier) @name) @definition.class)
         (#select-adjacent! @doc @definition.class)
         (#strip! @doc "(^[/\\*\\s]*)|([/\\*\\s]*$)"))
        ((_
          (comment)+ @doc
          .
          (method_definition
            name: (property_identifier) @name) @definition.method)
;         (#select-adjacent! @doc @definition.method)
         (#strip! @doc "(^[/\\*\\s]*)|([/\\*\\s]*$)"))
        "#,
        "",
    )
    .unwrap();

    let mut tag_context = TagContext::new();
    let source = br#"
    // hi

    // Data about a customer.
    // bla bla bla
    class Customer {
        /*
         * Get the customer's age
         */
        getAge() {
        }
    }

    // ok

    class Agent {

    }
    "#;
    let tags = generate_tags(&mut tag_context, &tags_config, source).unwrap();

    assert_eq!(
        tags.iter()
            .map(|t| (substr(source, &t.name_range), t.kind))
            .collect::<Vec<_>>(),
        &[
            ("Customer", TagKind::Class),
            ("getAge", TagKind::Method),
            ("Agent", TagKind::Class)
        ]
    );
    assert_eq!(tags[1].docs.as_ref().unwrap(), "Get the customer's age");
    assert_eq!(
        tags[0].docs.as_ref().unwrap(),
        "Data about a customer.\nbla bla bla"
    );
    assert_eq!(tags[2].docs, None);
}

fn substr<'a>(source: &'a [u8], range: &std::ops::Range<usize>) -> &'a str {
    std::str::from_utf8(&source[range.clone()]).unwrap()
}
