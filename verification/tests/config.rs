use playground::config::{CodeLanguage, Config, ExecutorConfig, NetworkConfig};

fn language(name: &str, compile: Option<&str>, execute: &str, extension: &str) -> CodeLanguage {
    CodeLanguage {
        name: name.to_string(),
        compile: compile.map(|c| c.to_string()),
        execute: execute.to_string(),
        extension: extension.to_string(),
    }
}

#[test]
fn the_default_language_is_c() {
    let c = CodeLanguage::default();
    assert_eq!(c.name, "c");
    assert_eq!(c.compile, Some("gcc {flags} {sourceFile} -o {targetFile}".to_string()));
    assert_eq!(c.execute, "{targetFile}");
    assert_eq!(c.extension, "c");
    assert!(c.is_valid());
}

#[test]
fn the_default_executor_configuration() {
    let config = ExecutorConfig::default();
    assert_eq!(config.timeout, 5000);
    assert!(config.languages.is_empty());
    assert!(config.is_valid());
}

#[test]
fn the_default_network_configuration() {
    let config = NetworkConfig::default();
    assert_eq!(config.ip, [127, 0, 0, 1]);
    assert_eq!(config.port, 4242);
    assert_eq!(config.timeout, 10);
    assert_eq!(config.origins, vec![".codam.nl".to_string()]);
}

#[test]
fn a_configuration_holds_both_parts() {
    let config = Config { network: NetworkConfig::default(), executor: ExecutorConfig::default() };
    assert_eq!(config.clone(), config);
    assert_eq!(config.network.port, 4242);
    assert_eq!(config.executor.timeout, 5000);
}

#[test]
fn a_language_is_found_by_its_name() {
    let config = ExecutorConfig {
        timeout: 5,
        languages: vec![
            CodeLanguage::default(),
            language("py", None, "python3 {targetFile}", "py"),
            language("py", None, "python2 {targetFile}", "py2"),
        ],
    };
    assert_eq!(config.find("c"), Some(&CodeLanguage::default()));
    assert_eq!(config.find("py").unwrap().execute, "python3 {targetFile}");
    assert_eq!(config.find("ruby"), None);
    assert_eq!(config.find(""), None);
    assert_eq!(config.find("C"), None);
    assert_eq!(ExecutorConfig::default().find("c"), None);
}

#[test]
fn a_language_with_a_malformed_template_is_refused() {
    assert!(language("py", None, "python3 {targetFile}", "py").is_valid());
    assert!(!language("py", None, "python3 {target}", "py").is_valid());
    assert!(!language("c", Some("gcc {source} -o {targetFile}"), "{targetFile}", "c").is_valid());
    assert!(!language("c", Some("gcc {sourceFile}"), "{targetFile}{flags}", "c").is_valid());
}

#[test]
fn one_malformed_language_spoils_the_list() {
    let good = ExecutorConfig {
        timeout: 1,
        languages: vec![CodeLanguage::default(), language("sh", None, "sh {targetFile}", "sh")],
    };
    assert!(good.is_valid());
    let bad = ExecutorConfig {
        timeout: 1,
        languages: vec![CodeLanguage::default(), language("sh", None, "sh {file}", "sh")],
    };
    assert!(!bad.is_valid());
}
