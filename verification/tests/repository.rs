use stackable_agent::provider::error::StackableError;
use stackable_agent::provider::repository::package::Package;
use stackable_agent::provider::repository::repository_spec::{RepoType, Repository, RepositorySpec};
use stackable_agent::provider::repository::stackablerepository::{Product, RepoData, StackableRepoProvider};
use stackable_agent::provider::repository::{choose_repo_provider, repository_providers};

fn repository(name: &str, url: Option<&str>) -> Repository {
    Repository {
        name: name.to_string(),
        spec: RepositorySpec {
            repo_type: RepoType::default(),
            properties: url.map(|u| vec![(String::from("url"), u.to_string())]).unwrap_or_default(),
        },
    }
}

fn metadata() -> RepoData {
    RepoData {
        version: String::from("1"),
        packages: vec![(
            String::from("kafka"),
            vec![
                Product { version: String::from("2.7"), path: String::from("kafka-2.7.tar.gz"), hashes: vec![] },
                Product {
                    version: String::from("2.8"),
                    path: String::from("http://mirror.example.com/kafka-2.8.tar.gz"),
                    hashes: vec![(String::from("sha256"), String::from("abc"))],
                },
            ],
        )],
    }
}

#[test]
fn test_url_functions() {
    let repo = StackableRepoProvider::new(String::from("test"), String::from("http://localhost:8000")).unwrap();

    assert_eq!(repo.resolve_url(String::from("test")).unwrap(), "http://localhost:8000/test");

    assert_eq!(repo.resolve_url(String::from("http://test.com/test")).unwrap(), "http://test.com/test");
}

#[test]
fn test_repository_try_from() {
    let test_repo_crd = repository("test", Some("http://monitoring.stackable.demo:8000"));
    let converted_repo = StackableRepoProvider::try_from(&test_repo_crd).unwrap();
    assert_eq!(converted_repo.name, "test");
    assert_eq!(converted_repo.base_url(), "http://monitoring.stackable.demo:8000/");
}

#[test]
fn repository_without_url_is_refused() {
    match StackableRepoProvider::try_from(&repository("test", None)) {
        Err(StackableError::RepositoryConversionError) => {}
        other => panic!("Conversion error expected but got {:?}", other),
    }
    match StackableRepoProvider::try_from(&repository("test", Some("not a url"))) {
        Err(StackableError::UrlParseError { .. }) => {}
        other => panic!("URL error expected but got {:?}", other),
    }
}

#[test]
fn metadata_gives_packages_and_links() {
    let mut repo = StackableRepoProvider::new(String::from("test"), String::from("http://localhost:8000/repo/")).unwrap();
    let kafka27 = Package { product: String::from("kafka"), version: String::from("2.7") };
    let kafka28 = Package { product: String::from("kafka"), version: String::from("2.8") };
    let kafka30 = Package { product: String::from("kafka"), version: String::from("3.0") };
    assert_eq!(None, repo.provides_package(&kafka27));
    match repo.get_package(&kafka27) {
        Err(StackableError::PackageNotFound { .. }) => {}
        other => panic!("Package not found expected but got {:?}", other),
    }
    assert_eq!("http://localhost:8000/repo//metadata.json", repo.metadata_url().unwrap());
    let root = StackableRepoProvider::new(String::from("root"), String::from("http://localhost:8000")).unwrap();
    assert_eq!("http://localhost:8000/metadata.json", root.metadata_url().unwrap());
    repo.store_repo_metadata(&metadata()).unwrap();
    assert_eq!(Some(true), repo.provides_package(&kafka27));
    assert_eq!(Some(false), repo.provides_package(&kafka30));
    let package = repo.get_package(&kafka27).unwrap();
    assert_eq!("http://localhost:8000/repo/kafka-2.7.tar.gz", package.link);
    assert_eq!(
        "http://mirror.example.com/kafka-2.8.tar.gz",
        repo.download_link(&kafka28).unwrap()
    );
    assert!(repo.download_link(&kafka30).is_err());
}

#[test]
fn providers_are_sorted_and_the_first_providing_is_chosen() {
    let repos = vec![
        repository("zeta", Some("http://z.example.com")),
        repository("broken", None),
        repository("alpha", Some("http://a.example.com")),
    ];
    let mut providers = repository_providers(&repos);
    let names: Vec<&str> = providers.iter().map(|p| p.name.as_str()).collect();
    assert_eq!(vec!["alpha", "zeta"], names);
    let kafka27 = Package { product: String::from("kafka"), version: String::from("2.7") };
    assert_eq!(None, choose_repo_provider(&providers, &kafka27));
    providers[1].store_repo_metadata(&metadata()).unwrap();
    assert_eq!(Some(1), choose_repo_provider(&providers, &kafka27));
}

#[test]
fn providers_compare_and_display_by_name() {
    let a = StackableRepoProvider::new(String::from("a"), String::from("http://one.example.com")).unwrap();
    let b = StackableRepoProvider::new(String::from("a"), String::from("http://two.example.com")).unwrap();
    let c = StackableRepoProvider::new(String::from("c"), String::from("http://one.example.com")).unwrap();
    assert!(a == b);
    assert!(a != c);
    assert_eq!("a", a.to_string());
}
