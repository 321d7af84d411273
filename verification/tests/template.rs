use playground::template::{
    chars_of, expand, is_space_char, is_valid_template, split_fields, Bindings,
};

fn bindings(flags: Option<&str>) -> Bindings {
    Bindings {
        source_file: "/tmp/code/job.c".to_string(),
        target_file: "/tmp/code/job".to_string(),
        flags: flags.map(|f| f.to_string()),
    }
}

fn strings(items: &[&str]) -> Vec<String> {
    items.iter().map(|s| s.to_string()).collect()
}

#[test]
fn separators_are_the_unicode_white_space_characters() {
    for code in 0u32..0x11_0000 {
        if let Some(c) = char::from_u32(code) {
            assert_eq!(is_space_char(c), c.is_whitespace(), "U+{:04X}", code);
        }
    }
}

#[test]
fn zero_width_space_is_no_separator() {
    assert!(!is_space_char('\u{200b}'));
    assert!(is_space_char('\u{3000}'));
    assert!(is_space_char('\t'));
    assert!(!is_space_char('{'));
}

#[test]
fn chars_of_keeps_every_character() {
    assert_eq!(chars_of(""), Vec::<char>::new());
    assert_eq!(chars_of("a{é✓"), vec!['a', '{', 'é', '✓']);
}

#[test]
fn split_fields_on_runs_of_separators() {
    assert_eq!(split_fields("gcc  -O2\tmain.c\n"), strings(&["gcc", "-O2", "main.c"]));
    assert_eq!(split_fields("  lead and trail  "), strings(&["lead", "and", "trail"]));
    assert_eq!(split_fields("one"), strings(&["one"]));
}

#[test]
fn split_fields_of_nothing() {
    assert_eq!(split_fields(""), Vec::<String>::new());
    assert_eq!(split_fields(" \t\r\n"), Vec::<String>::new());
}

#[test]
fn split_fields_on_wide_separators() {
    assert_eq!(split_fields("a\u{3000}b\u{a0}c\u{2028}d"), strings(&["a", "b", "c", "d"]));
    assert_eq!(split_fields("a\u{200b}b"), strings(&["a\u{200b}b"]));
}

#[test]
fn split_fields_agrees_with_split_whitespace() {
    let samples = [
        "",
        " ",
        "x",
        " x",
        "x ",
        "python3 {targetFile}",
        "gcc {flags} {sourceFile} -o {targetFile}",
        "\u{85}tab\tnew\nline\r\nwide\u{2003}é ✓ ",
    ];
    for sample in samples {
        let expected: Vec<String> = sample.split_whitespace().map(|s| s.to_string()).collect();
        assert_eq!(split_fields(sample), expected, "{:?}", sample);
    }
}

#[test]
fn flags_with_a_space_are_one_argument() {
    let argv = expand("gcc {flags} {sourceFile} -o {targetFile}", &bindings(Some("-O2 -Wall")));
    assert_eq!(argv, strings(&["gcc", "-O2 -Wall", "/tmp/code/job.c", "-o", "/tmp/code/job"]));
    assert_eq!(argv.len(), 5);
}

#[test]
fn absent_flags_leave_no_argument() {
    let argv = expand("gcc {flags} {sourceFile} -o {targetFile}", &bindings(None));
    assert_eq!(argv, strings(&["gcc", "/tmp/code/job.c", "-o", "/tmp/code/job"]));
}

#[test]
fn absent_flags_drop_the_whole_field() {
    assert_eq!(expand("cc --opt={flags} x", &bindings(None)), strings(&["cc", "x"]));
    assert_eq!(expand("cc --opt={flags} x", &bindings(Some("3"))), strings(&["cc", "--opt=3", "x"]));
}

#[test]
fn empty_flags_are_an_empty_argument() {
    assert_eq!(expand("cc {flags} x", &bindings(Some(""))), strings(&["cc", "", "x"]));
}

#[test]
fn a_path_with_spaces_is_one_argument() {
    let b = Bindings {
        source_file: "/tmp/my code/a b.c".to_string(),
        target_file: "/tmp/my code/a b".to_string(),
        flags: None,
    };
    assert_eq!(
        expand("gcc {sourceFile} -o {targetFile}", &b),
        strings(&["gcc", "/tmp/my code/a b.c", "-o", "/tmp/my code/a b"])
    );
}

#[test]
fn a_placeholder_inside_a_field() {
    assert_eq!(
        expand("cc -o{targetFile} in={sourceFile}.bak", &bindings(None)),
        strings(&["cc", "-o/tmp/code/job", "in=/tmp/code/job.c.bak"])
    );
}

#[test]
fn a_bound_value_is_not_read_again() {
    let b = Bindings {
        source_file: "{targetFile}".to_string(),
        target_file: "{flags}".to_string(),
        flags: Some("{sourceFile} {targetFile}".to_string()),
    };
    assert_eq!(
        expand("{sourceFile} {targetFile} {flags}", &b),
        strings(&["{targetFile}", "{flags}", "{sourceFile} {targetFile}"])
    );
}

#[test]
fn every_placeholder_of_a_field_is_replaced() {
    assert_eq!(
        expand("{sourceFile}:{targetFile}:{sourceFile}", &bindings(None)),
        strings(&["/tmp/code/job.c:/tmp/code/job:/tmp/code/job.c"])
    );
}

#[test]
fn other_braces_stay_as_they_are() {
    assert_eq!(
        expand("{foo} {sourcefile} {targetFile {flags", &bindings(Some("f"))),
        strings(&["{foo}", "{sourcefile}", "{targetFile", "{flags"])
    );
    assert_eq!(expand("{{flags}}", &bindings(Some("f"))), strings(&["{f}"]));
}

#[test]
fn expansion_of_an_empty_template() {
    assert_eq!(expand("", &bindings(Some("x"))), Vec::<String>::new());
    assert_eq!(expand("{flags}", &bindings(None)), Vec::<String>::new());
}

#[test]
fn expansion_never_has_more_arguments_than_fields() {
    let templates = ["a b c", "{flags} {flags}", "x{flags}y {sourceFile}", " "];
    let values = [None, Some(""), Some("a b"), Some("  \t ")];
    for t in templates {
        for v in values {
            let argv = expand(t, &bindings(v));
            let fields = split_fields(t);
            assert!(argv.len() <= fields.len());
            if v.is_some() {
                assert_eq!(argv.len(), fields.len());
            }
        }
    }
}

#[test]
fn well_formed_templates() {
    assert!(is_valid_template("gcc {flags} {sourceFile} -o {targetFile}"));
    assert!(is_valid_template("{targetFile}"));
    assert!(is_valid_template("python3 -u {targetFile}"));
    assert!(is_valid_template("cc -o{targetFile} --in={sourceFile}.c"));
    assert!(is_valid_template(""));
    assert!(is_valid_template("   "));
    assert!(is_valid_template("plain words only"));
}

#[test]
fn malformed_templates() {
    assert!(!is_valid_template("run {foo}"));
    assert!(!is_valid_template("run {sourcefile}"));
    assert!(!is_valid_template("run {sourceFile"));
    assert!(!is_valid_template("run sourceFile}"));
    assert!(!is_valid_template("{sourceFile}{targetFile}"));
    assert!(!is_valid_template("{flags}{flags}"));
    assert!(!is_valid_template("{{flags}}"));
    assert!(!is_valid_template("{targetFile}}"));
    assert!(!is_valid_template("ok {targetFile} then {"));
    assert!(!is_valid_template("a}b{flags}"));
}
