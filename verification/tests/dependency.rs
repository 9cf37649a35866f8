use regex::Regex;
use rpm_builder::dependency::{
    name_char, parse_dependency, space_char, DependencyConstraint, Operator,
};
use rpm_builder::error::ErrorKind;

fn constraint(name: &str, operator: Operator, version: Option<&str>) -> DependencyConstraint {
    DependencyConstraint {
        name: name.to_string(),
        operator,
        version: version.map(|v| v.to_string()),
    }
}

#[test]
fn name_alone_is_any_version() {
    assert_eq!(parse_dependency("libfoo"), Ok(constraint("libfoo", Operator::Any, None)));
    assert_eq!(parse_dependency("a"), Ok(constraint("a", Operator::Any, None)));
    assert_eq!(
        parse_dependency("Lib-Foo-2"),
        Ok(constraint("Lib-Foo-2", Operator::Any, None))
    );
    assert_eq!(parse_dependency("-"), Ok(constraint("-", Operator::Any, None)));
}

#[test]
fn every_operator_is_read_with_its_version() {
    let cases = [
        (">=", Operator::GreaterEqual),
        (">", Operator::Greater),
        ("=", Operator::Equal),
        ("<=", Operator::LessEqual),
        ("<", Operator::Less),
    ];
    for (token, operator) in cases {
        for gap in ["", " ", "  ", "\t"] {
            for pad in ["", " ", "\t "] {
                let line = format!("libfoo{}{}{}1.2", gap, token, pad);
                assert_eq!(
                    parse_dependency(&line),
                    Ok(constraint("libfoo", operator, Some("1.2"))),
                    "{:?}",
                    line
                );
            }
        }
    }
}

#[test]
fn two_character_operators_are_not_cut_short() {
    let ge = parse_dependency("libfoo>=1.2").unwrap();
    assert_eq!(ge.operator, Operator::GreaterEqual);
    assert_eq!(ge.version, Some("1.2".to_string()));
    let le = parse_dependency("libfoo<=1.2").unwrap();
    assert_eq!(le.operator, Operator::LessEqual);
    assert_eq!(le.version, Some("1.2".to_string()));
}

#[test]
fn requires_libfoo_at_least_1_2() {
    assert_eq!(
        parse_dependency("libfoo >= 1.2"),
        Ok(constraint("libfoo", Operator::GreaterEqual, Some("1.2")))
    );
}

#[test]
fn version_keeps_what_follows_its_first_character() {
    assert_eq!(
        parse_dependency("a = 1.2 beta "),
        Ok(constraint("a", Operator::Equal, Some("1.2 beta ")))
    );
    assert_eq!(parse_dependency("a==1"), Ok(constraint("a", Operator::Equal, Some("=1"))));
    assert_eq!(parse_dependency("a>>1"), Ok(constraint("a", Operator::Greater, Some(">1"))));
    assert_eq!(
        parse_dependency("a < b:c"),
        Ok(constraint("a", Operator::Less, Some("b:c")))
    );
}

#[test]
fn operator_with_nothing_behind_it_falls_back_or_fails() {
    // `>=` needs something behind it; `>` followed by `=` has.
    assert_eq!(parse_dependency("a>="), Ok(constraint("a", Operator::Greater, Some("="))));
    assert_eq!(parse_dependency("a<="), Ok(constraint("a", Operator::Less, Some("="))));
    assert_eq!(parse_dependency("a>").unwrap_err().kind, ErrorKind::InvalidDependencyExpression);
    assert_eq!(parse_dependency("a =").unwrap_err().kind, ErrorKind::InvalidDependencyExpression);
}

#[test]
fn white_space_alone_behind_an_operator_is_the_version_as_written() {
    assert_eq!(
        parse_dependency("a >= "),
        Ok(constraint("a", Operator::GreaterEqual, Some(" ")))
    );
    assert_eq!(parse_dependency("a= "), Ok(constraint("a", Operator::Equal, Some(" "))));
    assert_eq!(parse_dependency("lib <\t"), Ok(constraint("lib", Operator::Less, Some("\t"))));
    assert_eq!(
        parse_dependency("a>= \t "),
        Ok(constraint("a", Operator::GreaterEqual, Some(" \t ")))
    );
}

#[test]
fn a_version_is_never_empty() {
    for line in ["a= ", "a >= ", "a<\t", "a > \u{a0}", "a>=1", "a = 1 ", "a<=  x", "a>="] {
        let d = parse_dependency(line).unwrap();
        assert!(!d.version.unwrap().is_empty(), "{:?}", line);
    }
}

#[test]
fn unicode_white_space_counts() {
    assert_eq!(
        parse_dependency("a\u{a0}\u{2003}>=\u{3000}1"),
        Ok(constraint("a", Operator::GreaterEqual, Some("1")))
    );
    assert_eq!(parse_dependency("a\n>=1"), Ok(constraint("a", Operator::GreaterEqual, Some("1"))));
}

#[test]
fn lines_outside_the_grammar_are_rejected() {
    for line in [
        "",
        " ",
        " libfoo",
        "lib_foo",
        "lib.foo",
        "libfoo ",
        "libfoo bar",
        "libfoo 1.2",
        "libfoo ! 1.2",
        "libfoo >= 1\n2",
        "libfoo >=\n1",
        ">= 1.2",
        "=1",
        "libfö",
    ] {
        let e = parse_dependency(line).unwrap_err();
        assert_eq!(e.kind, ErrorKind::InvalidDependencyExpression, "{:?}", line);
        assert_eq!(e.cause, format!("invalid pattern in dependency block {}", line));
        assert_eq!(e.message(), format!("invalid pattern in dependency block {}", line));
    }
}

#[test]
fn parsed_constraints_are_well_formed() {
    for line in ["a", "a>1", "a-b <= 2", "a = x", "a< ", "a>=", "0"] {
        let d = parse_dependency(line).unwrap();
        assert!(!d.name.is_empty());
        assert!(line.starts_with(d.name.as_str()));
        assert!(d.name.chars().all(|c| c.is_ascii_alphanumeric() || c == '-'));
        assert_eq!(d.operator == Operator::Any, d.version.is_none());
        if let Some(version) = &d.version {
            assert!(!version.is_empty());
            assert!(line.ends_with(version.as_str()));
        }
    }
}

#[test]
fn character_classes() {
    for c in ['a', 'z', 'A', 'Z', '0', '9', '-'] {
        assert!(name_char(c));
    }
    for c in ['_', '.', ' ', '>', '\u{e9}', '`', '{', '@', '[', '/', ':'] {
        assert!(!name_char(c));
    }
    for code in 0u32..0x3100 {
        if let Some(c) = char::from_u32(code) {
            assert_eq!(space_char(c), c.is_whitespace(), "{:?}", c);
            assert_eq!(name_char(c), c.is_ascii_alphanumeric() || c == '-', "{:?}", c);
        }
    }
}

/// What the pattern of the grammar, matched by a regular-expression engine,
/// makes of a line; the version without the white space before it, unless it
/// is white space alone.
fn by_pattern(pattern: &Regex, line: &str) -> Option<DependencyConstraint> {
    let captures = pattern.captures(line)?;
    let name = captures.get(1).unwrap().as_str();
    match captures.get(3) {
        None => Some(constraint(name, Operator::Any, None)),
        Some(token) => {
            let operator = match token.as_str() {
                ">=" => Operator::GreaterEqual,
                ">" => Operator::Greater,
                "=" => Operator::Equal,
                "<=" => Operator::LessEqual,
                "<" => Operator::Less,
                other => panic!("unknown operator {}", other),
            };
            let written = captures.get(4).unwrap().as_str();
            let version = if written.trim_start().is_empty() { written } else { written.trim_start() };
            Some(constraint(name, operator, Some(version)))
        }
    }
}

fn check_against_pattern(pattern: &Regex, line: &str) {
    match (by_pattern(pattern, line), parse_dependency(line)) {
        (Some(expected), Ok(found)) => assert_eq!(found, expected, "{:?}", line),
        (None, Err(e)) => assert_eq!(e.kind, ErrorKind::InvalidDependencyExpression),
        (expected, found) => panic!("{:?}: expected {:?}, found {:?}", line, expected, found),
    }
}

#[test]
fn agrees_with_the_pattern_on_all_short_lines() {
    let pattern = Regex::new(r"^([a-zA-Z0-9\-]+)(\s*(>=|>|=|<=|<)(.+))?$").unwrap();
    let alphabet = ['a', '-', '7', ' ', '>', '<', '=', '\n', '_'];
    let mut lines: Vec<String> = vec![String::new()];
    let mut from = 0;
    for _ in 0..5 {
        let to = lines.len();
        for i in from..to {
            for c in alphabet {
                let mut longer = lines[i].clone();
                longer.push(c);
                lines.push(longer);
            }
        }
        from = to;
    }
    assert_eq!(lines.len(), 1 + 9 + 81 + 729 + 6561 + 59049);
    for line in &lines {
        check_against_pattern(&pattern, line);
    }
}

#[test]
fn agrees_with_the_pattern_on_chosen_lines() {
    let pattern = Regex::new(r"^([a-zA-Z0-9\-]+)(\s*(>=|>|=|<=|<)(.+))?$").unwrap();
    for line in [
        "libfoo >= 1.2",
        "libfoo>=1.2",
        "libfoo\t<\t 1.2 ",
        "libfoo = 1.2\n",
        "libfoo \u{2028}= 1",
        "libfoo \u{a0}=\u{a0}1",
        "libfoo =\r1",
        "libfoo =\u{85}1",
        "libfoo \u{200b}= 1",
        "lib\u{e9} = 1",
        "libfoo => 1",
        "libfoo =< 1",
        "libfoo <> 1",
        "libfoo >=< 1",
    ] {
        check_against_pattern(&pattern, line);
    }
}
