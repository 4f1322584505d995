use oci_distribution::Reference;
use stackable_agent::provider::repository::package::{ImageReference, Package};
use std::convert::TryFrom;

fn image_reference(image: &str) -> ImageReference {
    let reference = Reference::try_from(image).expect("Reference cannot be parsed.");
    ImageReference {
        registry: reference.registry().to_string(),
        repository: reference.repository().to_string(),
        tag: reference.tag().map(|t| t.to_string()),
        digest: reference.digest().map(|d| d.to_string()),
    }
}

#[test]
fn try_from_complete_reference() {
    let reference = image_reference("kafka:2.7");

    let maybe_package = Package::try_from(reference);

    if let Ok(package) = maybe_package {
        assert_eq!("kafka", package.product);
        assert_eq!("2.7", package.version);
    } else {
        panic!("Package expected but got {:?}", maybe_package);
    }
}

#[test]
fn try_from_reference_without_tag() {
    let reference = image_reference("kafka");

    let maybe_package = Package::try_from(reference);

    if let Err(error) = maybe_package {
        assert_eq!("Tag is required.", error.to_string());
    } else {
        panic!("Error expected but got {:?}", maybe_package);
    }
}

#[test]
fn package_names() {
    let package = Package { product: String::from("kafka"), version: String::from("2.7") };
    assert_eq!("kafka-2.7", package.get_directory_name());
    assert_eq!("kafka-2.7.tar.gz", package.get_file_name());
    assert_eq!("kafka:2.7", package.to_string());
}
