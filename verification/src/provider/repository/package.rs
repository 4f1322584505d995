//! Packages: a product in a given version.
use vstd::prelude::*;
use crate::text::{concat2, concat3, opt_view};

verus! {

/// A product in a given version, as named by the image of a container.
#[derive(Debug)]
pub struct Package {
    pub product: String,
    pub version: String,
}

/// `product-version`: the name of the folder a package is installed to.
pub open spec fn directory_name(product: Seq<char>, version: Seq<char>) -> Seq<char> {
    product + "-"@ + version
}

/// `product-version.tar.gz`: the name of the archive a package is
/// downloaded to.
pub open spec fn file_name(product: Seq<char>, version: Seq<char>) -> Seq<char> {
    directory_name(product, version) + ".tar.gz"@
}

impl Package {
    /// A copy of this package.
    pub fn copy(&self) -> (r: Package)
        ensures
            r.product@ == self.product@,
            r.version@ == self.version@,
    {
        Package { product: self.product.clone(), version: self.version.clone() }
    }

    /// Derive a standardized archive name to use when downloading this
    /// package into the _download folder.
    ///
    /// This helps with not downloading the same version of a product twice
    /// simply due to different archive names. All archives are assumed to
    /// be in .tar.gz format.
    pub fn get_file_name(&self) -> (r: String)
        ensures
            r@ == file_name(self.product@, self.version@),
    {
        let dir = self.get_directory_name();
        concat2(dir.as_str(), ".tar.gz")
    }

    /// Derive a standardized name for the folder that this package should
    /// be installed to.
    ///
    /// This helps avoiding duplicate binary installations due to different
    /// folder names.
    pub fn get_directory_name(&self) -> (r: String)
        ensures
            r@ == directory_name(self.product@, self.version@),
    {
        concat3(self.product.as_str(), "-", self.version.as_str())
    }

    /// `product:version`
    pub fn to_string(&self) -> (r: String)
        ensures
            r@ == self.product@ + ":"@ + self.version@,
    {
        concat3(self.product.as_str(), ":", self.version.as_str())
    }
}

/// The parts of an image reference: registry, repository, tag and digest.
pub type ReferenceParts = (Seq<char>, Seq<char>, Option<Seq<char>>, Option<Seq<char>>);

/// What the `oci-distribution` crate parses an image reference into, or
/// `None` where it refuses it.
pub uninterp spec fn oci_reference(image: Seq<char>) -> Option<ReferenceParts>;

/// An OCI image reference, e.g. `docker.io/library/kafka:2.7`.
#[derive(Debug)]
pub struct ImageReference {
    pub registry: String,
    pub repository: String,
    pub tag: Option<String>,
    pub digest: Option<String>,
}

impl ImageReference {
    /// The parts of this reference.
    pub open spec fn parts(&self) -> ReferenceParts {
        (self.registry@, self.repository@, opt_view(self.tag), opt_view(self.digest))
    }

    /// Parses an image reference with `oci_distribution::Reference::try_from`.
    ///
    /// The contract names the parts with `oci_reference`; the text of the
    /// error is the crate's message and is left unsaid.
    #[verifier::external_body]
    pub(crate) fn parse(image: &str) -> (r: Result<ImageReference, String>)
        ensures
            r is Ok <==> oci_reference(image@) is Some,
            r matches Ok(x) ==> oci_reference(image@) == Some(x.parts()),
    {
        match oci_distribution::Reference::try_from(image) {
            Ok(reference) => Ok(ImageReference {
                registry: reference.registry().to_string(),
                repository: reference.repository().to_string(),
                tag: reference.tag().map(|t| t.to_string()),
                digest: reference.digest().map(|d| d.to_string()),
            }),
            Err(e) => Err(e.to_string()),
        }
    }
}

/// The package an image reference names: its repository is the product
/// and its tag the version; a reference without a tag names none.
pub open spec fn package_of_reference(parts: ReferenceParts) -> Option<(Seq<char>, Seq<char>)> {
    match parts.2 {
        Some(tag) => Some((parts.1, tag)),
        None => None,
    }
}

impl Package {
    /// Converts from an OCI reference to a package: the tag (anything
    /// after the ":" in the string) is used as version and needs to be
    /// present.
    pub fn try_from(value: ImageReference) -> (r: Result<Package, String>)
        ensures
            match package_of_reference(value.parts()) {
                Some((product, version)) => r matches Ok(p) && p.product@ == product
                    && p.version@ == version,
                None => r matches Err(m) && m@ == "Tag is required."@,
            },
    {
        match value.tag {
            Some(tag) => Ok(Package { product: value.repository, version: tag }),
            None => Err(String::from_str("Tag is required.")),
        }
    }
}

} // verus!
