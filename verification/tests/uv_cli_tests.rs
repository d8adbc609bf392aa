use pyaudit::uv_cli::{Dependency, UV, UVArgs};

fn resolved(name: &str, version: &str) -> Dependency {
    Dependency::Resolved {
        name: name.to_string(),
        version: version.to_string(),
    }
}

fn unresolved(identifier: &str) -> Dependency {
    Dependency::Unresolved {
        identifier: identifier.to_string(),
    }
}

#[test]
fn parse_resolves_name_version_lines() {
    let uv = UV::new();
    let deps = uv.parse(b"pkg==1.0.0\nother==2.3\n");
    assert_eq!(deps, vec![resolved("pkg", "1.0.0"), resolved("other", "2.3")]);
}

#[test]
fn parse_keeps_unresolved_identifiers() {
    let uv = UV::new();
    let deps = uv.parse(b"git+https://github.com/somerepo.git\npkg==1.0.0");
    assert_eq!(
        deps,
        vec![unresolved("git+https://github.com/somerepo.git"), resolved("pkg", "1.0.0")]
    );
}

#[test]
fn parse_drops_comment_lines() {
    let uv = UV::new();
    let deps = uv.parse(b"# produced by a resolver\npkg==1.0.0\nother==2.0 # pinned\n");
    assert_eq!(deps, vec![resolved("pkg", "1.0.0")]);
}

#[test]
fn parse_takes_version_up_to_the_second_separator() {
    let uv = UV::new();
    let deps = uv.parse(b"a==b==c\n====\nx==\n==y\n");
    assert_eq!(
        deps,
        vec![resolved("a", "b"), resolved("", ""), resolved("x", ""), resolved("", "y")]
    );
}

#[test]
fn parse_treats_empty_lines_as_unresolved() {
    let uv = UV::new();
    let deps = uv.parse(b"\npkg==1.0.0\n\n");
    assert_eq!(deps, vec![unresolved(""), resolved("pkg", "1.0.0"), unresolved("")]);
}

#[test]
fn parse_strips_carriage_return_before_line_feed() {
    let uv = UV::new();
    let deps = uv.parse(b"pkg==1.0.0\r\nother==2.0\r");
    assert_eq!(deps, vec![resolved("pkg", "1.0.0"), resolved("other", "2.0\r")]);
}

#[test]
fn parse_replaces_invalid_utf8() {
    let uv = UV::new();
    let deps = uv.parse(b"\xffpkg==1.0.0\n");
    assert_eq!(deps, vec![resolved("\u{fffd}pkg", "1.0.0")]);
}

#[test]
fn parse_of_empty_output_yields_nothing() {
    let uv = UV::new();
    assert!(uv.parse(b"").is_empty());
}

#[test]
fn freeze_command_arguments() {
    let uv = UV::new();
    assert_eq!(uv.command_args(UVArgs::Freeze), vec!["pip", "freeze"]);
}

#[test]
fn compile_command_arguments() {
    let uv = UV::new();
    assert_eq!(
        uv.command_args(UVArgs::Compile {
            filename: "requirements.txt".to_string(),
            all_extras: false,
            index_url: None,
        }),
        vec!["pip", "compile", "requirements.txt"]
    );
    assert_eq!(
        uv.command_args(UVArgs::Compile {
            filename: "pyproject.toml".to_string(),
            all_extras: true,
            index_url: Some("https://example.invalid/simple".to_string()),
        }),
        vec!["pip", "compile", "pyproject.toml", "--all-extras"]
    );
    assert_eq!(
        uv.command_args(UVArgs::Compile {
            filename: "requirements.txt".to_string(),
            all_extras: false,
            index_url: Some("https://example.invalid/simple".to_string()),
        }),
        vec![
            "pip",
            "compile",
            "requirements.txt",
            "--index-url",
            "https://example.invalid/simple"
        ]
    );
}
