//! The document that describes a registry-backed repository's own
//! specification.

use crate::specification::{
    OutputConfiguration, OutputConfigurationView, SourceDefinition, SourceDefinitionView,
};
use vstd::prelude::*;
use vstd::string::*;

verus! {

/// What a specification says of itself.
#[derive(Debug, Clone)]
pub struct SpecificationMetadata {
    pub description: Option<String>,
    pub author: Option<String>,
    pub license: Option<String>,
    pub tags: Option<Vec<String>>,
}

/// A specification of a repository.
#[derive(Debug, Clone)]
pub struct CanonSpecification {
    pub canon: String,
    pub spec_type: String,
    pub name: String,
    pub version: String,
    pub metadata: Option<SpecificationMetadata>,
    pub sources: Option<Vec<SourceDefinition>>,
    pub transformations: Option<Vec<String>>,
    pub output: Option<OutputConfiguration>,
}

/// What a specification says of itself, as a plain value.
pub struct MetadataView {
    pub description: Option<Seq<char>>,
    pub author: Option<Seq<char>>,
    pub license: Option<Seq<char>>,
    pub tags: Option<Seq<Seq<char>>>,
}

/// A specification of a repository as a plain value.
pub struct SpecificationView {
    pub canon: Seq<char>,
    pub spec_type: Seq<char>,
    pub name: Seq<char>,
    pub version: Seq<char>,
    pub metadata: Option<MetadataView>,
    pub sources: Option<Seq<SourceDefinitionView>>,
    pub transformations: Option<Seq<Seq<char>>>,
    pub output: Option<OutputConfigurationView>,
}

impl View for SpecificationMetadata {
    type V = MetadataView;

    open spec fn view(&self) -> MetadataView {
        MetadataView {
            description: self.description.deep_view(),
            author: self.author.deep_view(),
            license: self.license.deep_view(),
            tags: self.tags.deep_view(),
        }
    }
}

impl DeepView for SpecificationMetadata {
    type V = MetadataView;

    open spec fn deep_view(&self) -> MetadataView {
        self@
    }
}

impl View for CanonSpecification {
    type V = SpecificationView;

    open spec fn view(&self) -> SpecificationView {
        SpecificationView {
            canon: self.canon@,
            spec_type: self.spec_type@,
            name: self.name@,
            version: self.version@,
            metadata: self.metadata.deep_view(),
            sources: self.sources.deep_view(),
            transformations: self.transformations.deep_view(),
            output: self.output.deep_view(),
        }
    }
}

/// A specification in its first state: protocol version `1.0`, version
/// `0.1.0`, author and license as given, and one general source tree at
/// `sources/`.
pub open spec fn new_specification(
    name: Seq<char>,
    spec_type: Seq<char>,
    author: Option<Seq<char>>,
    license: Option<Seq<char>>,
) -> SpecificationView {
    SpecificationView {
        canon: "1.0"@,
        spec_type,
        name,
        version: "0.1.0"@,
        metadata: Some(MetadataView { description: None, author, license, tags: None }),
        sources: Some(
            seq![
                SourceDefinitionView {
                    path: "sources/"@,
                    source_type: "general"@,
                    included: None,
                    excluded: None,
                },
            ],
        ),
        transformations: None,
        output: None,
    }
}

impl CanonSpecification {
    /// A specification in its first state.
    pub fn new(
        name: String,
        spec_type: String,
        author: Option<String>,
        license: Option<String>,
    ) -> (spec: CanonSpecification)
        ensures
            spec@ == new_specification(name@, spec_type@, author.deep_view(), license.deep_view()),
    {
        let mut sources: Vec<SourceDefinition> = Vec::new();
        sources.push(
            SourceDefinition {
                path: String::from_str("sources/"),
                source_type: String::from_str("general"),
                included: None,
                excluded: None,
            },
        );
        assert(sources.deep_view() =~= new_specification(
            name@,
            spec_type@,
            author.deep_view(),
            license.deep_view(),
        ).sources->Some_0);
        CanonSpecification {
            canon: String::from_str("1.0"),
            spec_type,
            name,
            version: String::from_str("0.1.0"),
            metadata: Some(SpecificationMetadata { description: None, author, license, tags: None }),
            sources: Some(sources),
            transformations: None,
            output: None,
        }
    }
}

} // verus!
