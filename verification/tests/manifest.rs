use package_config::Dependencies;
use package_config::Error;
use package_config::FileIoAction;
use package_config::FileKind;
use package_config::FileSystemReader;
use package_config::Mode;
use package_config::PackageConfig;
use package_config::Repository;
use package_config::Version;
use package_config::VersionIdentifier;
use package_config::VersionRange;
use package_config::default_version;
use package_config::document::TomlValue;

struct MemoryFs {
    content: String,
}

impl FileSystemReader for MemoryFs {
    fn read(&self, _path: &str) -> Result<String, Error> {
        Ok(self.content.clone())
    }
}

struct FailingFs;

impl FileSystemReader for FailingFs {
    fn read(&self, path: &str) -> Result<String, Error> {
        Err(Error::FileIo {
            action: FileIoAction::Read,
            kind: FileKind::File,
            path: path.to_string(),
            err: None,
        })
    }
}

fn parse(toml: &str) -> Result<PackageConfig, Error> {
    PackageConfig::read(
        "gleam.toml",
        &MemoryFs {
            content: toml.to_string(),
        },
    )
}

fn assert_parse_failure(result: Result<PackageConfig, Error>) {
    match result {
        Err(Error::FileIo {
            action,
            kind,
            path,
            err,
        }) => {
            assert_eq!(action, FileIoAction::Parse);
            assert_eq!(kind, FileKind::File);
            assert_eq!(path, "gleam.toml");
            assert!(err.is_some());
        }
        other => panic!("expected a parse failure, got {:?}", other),
    }
}

#[test]
fn missing_version_defaults_to_0_1_0() {
    let config = parse("name = \"app\"\n").unwrap();
    assert_eq!(config.version, default_version());
    assert_eq!(
        config.version,
        Version {
            major: 0,
            minor: 1,
            patch: 0,
            pre: vec![],
            build: None,
        }
    );
}

#[test]
fn version_is_parsed() {
    let config = parse("name = \"app\"\nversion = \"1.2.3\"\n").unwrap();
    assert_eq!(
        config.version,
        Version {
            major: 1,
            minor: 2,
            patch: 3,
            pre: vec![],
            build: None,
        }
    );
}

#[test]
fn malformed_version_is_a_parse_failure() {
    assert_parse_failure(parse("name = \"app\"\nversion = \"not-a-version\"\n"));
}

#[test]
fn licences_spelling_is_accepted() {
    let config = parse("name = \"app\"\nlicences = [\"MIT\"]\n").unwrap();
    assert_eq!(config.licences, vec!["MIT".to_string()]);
}

#[test]
fn licenses_spelling_is_accepted() {
    let config = parse("name = \"app\"\nlicenses = [\"MIT\"]\n").unwrap();
    assert_eq!(config.licences, vec!["MIT".to_string()]);
}

#[test]
fn both_licence_spellings_at_once_are_rejected() {
    assert_parse_failure(parse(
        "name = \"app\"\nlicences = [\"MIT\"]\nlicenses = [\"MIT\"]\n",
    ));
}

#[test]
fn licences_must_be_a_list_of_strings() {
    assert_parse_failure(parse("name = \"app\"\nlicences = [1]\n"));
    assert_parse_failure(parse("name = \"app\"\nlicences = \"MIT\"\n"));
}

#[test]
fn dependencies_for_each_mode() {
    let config = parse(
        "name = \"app\"\n[dependencies]\na = \"~> 1.0\"\n[dev-dependencies]\nb = \"~> 2.0\"\n",
    )
    .unwrap();

    let dev = config.dependencies_for(Mode::Dev).unwrap();
    assert_eq!(dev.len(), 2);
    assert_eq!(dev.get(&"a".to_string()).unwrap().as_str(), "~> 1.0");
    assert_eq!(dev.get(&"b".to_string()).unwrap().as_str(), "~> 2.0");

    let prod = config.dependencies_for(Mode::Prod).unwrap();
    assert_eq!(prod.len(), 1);
    assert_eq!(prod.get(&"a".to_string()).unwrap().as_str(), "~> 1.0");
    assert!(prod.get(&"b".to_string()).is_none());
    assert!(dev.contains_key(&"b".to_string()));
    assert!(!prod.contains_key(&"b".to_string()));
}

#[test]
fn duplicate_dependency_fails_the_merge_but_not_prod() {
    let config = parse(
        "name = \"app\"\n[dependencies]\nx = \"~> 1.0\"\n[dev-dependencies]\nx = \"~> 2.0\"\n",
    )
    .unwrap();

    assert_eq!(
        config.all_dependencies(),
        Err(Error::DuplicateDependency("x".to_string()))
    );
    assert_eq!(
        config.dependencies_for(Mode::Dev),
        Err(Error::DuplicateDependency("x".to_string()))
    );

    let prod = config.dependencies_for(Mode::Prod).unwrap();
    assert_eq!(prod.len(), 1);
    assert_eq!(prod.get(&"x".to_string()).unwrap().as_str(), "~> 1.0");
}

#[test]
fn all_dependencies_is_idempotent() {
    let config = parse(
        "name = \"app\"\n[dependencies]\na = \"~> 1.0\"\n[dev-dependencies]\nb = \"~> 2.0\"\n",
    )
    .unwrap();
    let first = config.all_dependencies();
    let second = config.all_dependencies();
    assert_eq!(first, second);
}

#[test]
fn parsing_is_deterministic() {
    let text = "name = \"app\"\nversion = \"4.5.6\"\nlicences = [\"MIT\", \"MPL-2.0\"]\n";
    assert_eq!(parse(text).unwrap(), parse(text).unwrap());
}

#[test]
fn invalid_dependency_requirement_is_a_parse_failure() {
    assert_parse_failure(parse("name = \"app\"\n[dependencies]\na = \"banana\"\n"));
    assert_parse_failure(parse("name = \"app\"\n[dependencies]\na = 1\n"));
}

#[test]
fn repository_github_url() {
    let repository = Repository::GitHub {
        user: "acme".to_string(),
        repo: "widgets".to_string(),
    };
    assert_eq!(
        repository.url(),
        Some("https://github.com/acme/widgets".to_string())
    );
}

#[test]
fn repository_gitlab_url() {
    let repository = Repository::GitLab {
        user: "acme".to_string(),
        repo: "widgets".to_string(),
    };
    assert_eq!(
        repository.url(),
        Some("https://gitlab.com/acme/widgets".to_string())
    );
}

#[test]
fn repository_bitbucket_url() {
    let repository = Repository::BitBucket {
        user: "acme".to_string(),
        repo: "widgets".to_string(),
    };
    assert_eq!(
        repository.url(),
        Some("https://bitbucket.com/acme/widgets".to_string())
    );
}

#[test]
fn repository_custom_url() {
    let repository = Repository::Custom {
        url: "https://example.com/repo".to_string(),
    };
    assert_eq!(repository.url(), Some("https://example.com/repo".to_string()));
}

#[test]
fn repository_nowhere_has_no_url() {
    assert_eq!(Repository::Nowhere.url(), None);
}

#[test]
fn repository_is_parsed() {
    let config = parse(
        "name = \"app\"\n[repository]\ntype = \"github\"\nuser = \"acme\"\nrepo = \"widgets\"\n",
    )
    .unwrap();
    assert_eq!(
        config.repository,
        Repository::GitHub {
            user: "acme".to_string(),
            repo: "widgets".to_string(),
        }
    );
}

#[test]
fn repository_type_none_is_parsed() {
    let config = parse("name = \"app\"\n[repository]\ntype = \"none\"\n").unwrap();
    assert_eq!(config.repository, Repository::Nowhere);
}

#[test]
fn repository_defaults_to_nowhere() {
    let config = parse("name = \"app\"\n").unwrap();
    assert_eq!(config.repository, Repository::Nowhere);
}

#[test]
fn repository_unknown_type_is_rejected() {
    assert_parse_failure(parse("name = \"app\"\n[repository]\ntype = \"sourcehut\"\n"));
}

#[test]
fn repository_missing_fields_are_rejected() {
    assert_parse_failure(parse(
        "name = \"app\"\n[repository]\ntype = \"github\"\nuser = \"acme\"\n",
    ));
    assert_parse_failure(parse("name = \"app\"\n[repository]\ntype = \"custom\"\n"));
}

#[test]
fn missing_name_is_a_parse_failure() {
    assert_parse_failure(parse("version = \"1.0.0\"\n"));
}

#[test]
fn name_must_be_a_string() {
    assert_parse_failure(parse("name = 3\n"));
}

#[test]
fn invalid_toml_is_a_parse_failure() {
    assert_parse_failure(parse("name = \n"));
}

#[test]
fn read_failure_is_propagated_unchanged() {
    let result = PackageConfig::read("gleam.toml", &FailingFs);
    assert_eq!(
        result,
        Err(Error::FileIo {
            action: FileIoAction::Read,
            kind: FileKind::File,
            path: "gleam.toml".to_string(),
            err: None,
        })
    );
}

#[test]
fn unknown_keys_are_ignored() {
    let config = parse("name = \"app\"\nanswer = 42\n").unwrap();
    assert_eq!(config.name, "app");
}

#[test]
fn description_docs_links_and_erlang_are_parsed() {
    let text = "name = \"app\"\ndescription = \"a thing\"\n[[docs.pages]]\ntitle = \"Home\"\npath = \"index.html\"\nsource = \"index.md\"\n[[links]]\ntitle = \"Site\"\nhref = \"https://example.com\"\n[erlang]\notp-application-start-module = \"app_app\"\n";
    let config = parse(text).unwrap();
    assert_eq!(config.description, "a thing");
    assert_eq!(config.docs.pages.len(), 1);
    assert_eq!(config.docs.pages[0].title, "Home");
    assert_eq!(config.docs.pages[0].path, "index.html");
    assert_eq!(config.docs.pages[0].source, "index.md");
    assert_eq!(config.links.len(), 1);
    assert_eq!(config.links[0].title, "Site");
    assert_eq!(config.links[0].href, "https://example.com");
    assert_eq!(
        config.erlang.otp_start_module,
        Some("app_app".to_string())
    );
}

#[test]
fn optional_fields_have_their_defaults() {
    let config = parse("name = \"app\"\n").unwrap();
    assert_eq!(config.name, "app");
    assert_eq!(config.licences, Vec::<String>::new());
    assert_eq!(config.description, "");
    assert_eq!(config.docs.pages.len(), 0);
    assert_eq!(config.dependencies.len(), 0);
    assert_eq!(config.dev_dependencies.len(), 0);
    assert_eq!(config.links.len(), 0);
    assert_eq!(config.erlang.otp_start_module, None);
}

#[test]
fn default_config_values() {
    let config = PackageConfig::default();
    assert_eq!(config.name, "");
    assert_eq!(config.version, default_version());
    assert_eq!(config.repository, Repository::Nowhere);
    assert_eq!(config.dependencies, Dependencies { entries: vec![] });
    assert_eq!(config.repository.url(), None);
}

#[test]
fn version_range_keeps_its_source_text() {
    let range = VersionRange::new("~> 1.0").unwrap();
    assert_eq!(range.as_str(), "~> 1.0");
    assert!(VersionRange::new("banana").is_none());
}

#[test]
fn requirement_with_ten_digit_component_is_rejected() {
    assert!(VersionRange::new("~> 4294967295.0").is_none());
    assert!(VersionRange::new("> 0.0.4294967295").is_none());
    assert!(VersionRange::new("~> 1234567890").is_none());
    assert!(VersionRange::new("~> 999999999.0").is_some());
    assert_parse_failure(parse(
        "name = \"app\"\n[dependencies]\na = \"~> 4294967295.0\"\n",
    ));
}

#[test]
fn pre_release_and_build_parts_are_parsed() {
    let config = parse("name = \"app\"\nversion = \"1.0.0-alpha.3+20130417\"\n").unwrap();
    assert_eq!(config.version.major, 1);
    assert_eq!(
        config.version.pre,
        vec![
            VersionIdentifier::AlphaNumeric("alpha".to_string()),
            VersionIdentifier::Numeric(3),
        ]
    );
    assert_eq!(config.version.build, Some("20130417".to_string()));
}

#[test]
fn from_document_applies_the_schema() {
    let doc = TomlValue::Table(vec![(
        "name".to_string(),
        TomlValue::Str("app".to_string()),
    )]);
    let config = PackageConfig::from_document(&doc).unwrap();
    assert_eq!(config.name, "app");
    assert_eq!(config.version, default_version());

    let empty = TomlValue::Table(vec![]);
    assert!(PackageConfig::from_document(&empty).is_err());

    let not_a_table = TomlValue::Str("app".to_string());
    assert!(PackageConfig::from_document(&not_a_table).is_err());
}
