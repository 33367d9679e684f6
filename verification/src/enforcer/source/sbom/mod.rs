//! Dependencies from a software bill of materials.

use crate::enforcer::dependency::{purls, Dependency};
use crate::enforcer::source::{Error, Source};
use crate::highlight::Range;
use crate::utils::location::{parse_url, parsed_url};
use crate::utils::packages::{bom_json_purls, bom_xml_purls, json_components, options_of, xml_components};
use vstd::prelude::*;

pub mod maven;

verus! {

/// How a CycloneDX document is written.
#[derive(Clone, Copy, Debug, PartialEq, Eq, Structural)]
pub enum CycloneDXFormat {
    Json,
    Xml,
}

/// The version of CycloneDX that a document follows.
#[derive(Clone, Copy, Debug, PartialEq, Eq, Structural)]
pub enum CycloneDXVersion {
    V1_3,
}

/// The kind of a bill of materials.
#[derive(Clone, Copy, Debug, PartialEq, Eq, Structural)]
pub enum Type {
    CycloneDX { format: CycloneDXFormat, version: CycloneDXVersion },
}

/// A bill of materials as a generator hands it out.
#[derive(Debug)]
pub struct Output {
    pub kind: Type,
    pub content: Vec<u8>,
}

/// A generator which creates a bill of materials for a project.
pub trait Generator {
    /// Generates the bill of materials.
    fn generate(&self) -> Result<Output, Error>;

    /// Finds the range to highlight for a dependency, and the document that holds it.
    fn highlight(&self, dependency: &Dependency) -> Result<(String, Range), Error>;
}

/// The dependencies that a list of components stands for: one for each component that has
/// a package URL, in order; nothing at all where one of these is no URL.
pub open spec fn bom_dependencies(components: Seq<Option<Seq<char>>>) -> Option<Seq<Seq<char>>>
    decreases components.len(),
{
    if components.len() == 0 {
        Some(Seq::empty())
    } else {
        match bom_dependencies(components.drop_last()) {
            None => None,
            Some(before) => match components.last() {
                None => Some(before),
                Some(text) => match parsed_url(text) {
                    Some(purl) => Some(before.push(purl)),
                    None => None,
                },
            },
        }
    }
}

/// The package URLs of the components of a document of the given kind.
pub open spec fn components_of(format: CycloneDXFormat, content: Seq<u8>) -> Option<Seq<Option<Seq<char>>>> {
    match format {
        CycloneDXFormat::Json => json_components(content),
        CycloneDXFormat::Xml => xml_components(content),
    }
}

/// The dependencies that a bill of materials names, by package URL; nothing where the
/// document cannot be read or a component's package URL is no URL.
pub open spec fn listed(kind: Type, content: Seq<u8>) -> Option<Seq<Seq<char>>> {
    match kind {
        Type::CycloneDX { format, version } => match components_of(format, content) {
            Some(components) => bom_dependencies(components),
            None => None,
        },
    }
}

/// Reads the dependencies of a project from a bill of materials that a generator makes.
pub struct SBOM<G: Generator> {
    generator: G,
}

impl<G: Generator> SBOM<G> {
    /// The generator behind this source.
    pub closed spec fn maker(&self) -> G {
        self.generator
    }

    /// A source that works from what `generator` makes.
    pub fn new(generator: G) -> (source: Self)
        ensures
            source.maker() == generator,
    {
        SBOM { generator }
    }

    /// The generator behind this source.
    pub fn generator(&self) -> (generator: &G)
        ensures
            *generator == self.maker(),
    {
        &self.generator
    }

    /// The dependency that a component stands for: none where the component has no package
    /// URL, and a failure where its package URL is no URL.
    pub fn from_component(purl: &Option<String>) -> (converted: Option<Result<Dependency, Error>>)
        ensures
            match purl {
                None => converted.is_none(),
                Some(text) => match parsed_url(text@) {
                    Some(url) => converted matches Some(Ok(dependency)) && dependency@ == url,
                    None => converted matches Some(Err(Error::Purl(said))) && said == text,
                },
            },
    {
        match purl {
            None => None,
            Some(text) => match parse_url(text.as_str()) {
                Some(purl) => Some(Ok(Dependency { purl })),
                None => Some(Err(Error::Purl(text.clone()))),
            },
        }
    }

    /// The dependencies that the components of a bill of materials stand for.
    pub fn from_bom(components: &Vec<Option<String>>) -> (found: Result<Vec<Dependency>, Error>)
        ensures
            match found {
                Ok(list) => bom_dependencies(options_of(components@)) == Some(purls(list@)),
                Err(error) => bom_dependencies(options_of(components@)).is_none() && error is Purl,
            },
    {
        let ghost given = options_of(components@);
        let mut list: Vec<Dependency> = Vec::new();
        let mut i: usize = 0;
        assert(given.take(0) =~= Seq::empty());
        assert(purls(list@) =~= Seq::empty());
        while i < components.len()
            invariant
                i <= components.len(),
                given == options_of(components@),
                bom_dependencies(given.take(i as int)) == Some(purls(list@)),
            decreases components.len() - i,
        {
            let ghost before = purls(list@);
            assert(given.take(i + 1).drop_last() =~= given.take(i as int));
            assert(given.take(i + 1).last() == given[i as int]);
            match Self::from_component(&components[i]) {
                None => {},
                Some(Ok(dependency)) => {
                    list.push(dependency);
                    assert(purls(list@) =~= before.push(dependency@));
                },
                Some(Err(error)) => {
                    proof {
                        lemma_failure_stays(given, i + 1);
                    }
                    return Err(error);
                },
            }
            i += 1;
        }
        assert(given.take(components.len() as int) =~= given);
        Ok(list)
    }

    /// The dependencies that a CycloneDX document names.
    pub fn from_cyclonedx(format: CycloneDXFormat, version: CycloneDXVersion, content: &[u8]) -> (found: Result<
        Vec<Dependency>,
        Error,
    >)
        ensures
            match found {
                Ok(list) => listed(Type::CycloneDX { format, version }, content@) == Some(purls(list@)),
                Err(_) => listed(Type::CycloneDX { format, version }, content@).is_none(),
            },
    {
        let parsed = match (format, version) {
            (CycloneDXFormat::Json, CycloneDXVersion::V1_3) => bom_json_purls(content),
            (CycloneDXFormat::Xml, CycloneDXVersion::V1_3) => bom_xml_purls(content),
        };
        match parsed {
            Ok(components) => Self::from_bom(&components),
            Err(reason) => Err(Error::Parse(reason)),
        }
    }

    /// The dependencies that a bill of materials names.
    pub fn from_output(output: &Output) -> (found: Result<Vec<Dependency>, Error>)
        ensures
            match found {
                Ok(list) => listed(output.kind, output.content@) == Some(purls(list@)),
                Err(_) => listed(output.kind, output.content@).is_none(),
            },
    {
        match output.kind {
            Type::CycloneDX { format, version } => Self::from_cyclonedx(format, version, output.content.as_slice()),
        }
    }
}

/// Whether `found` is what a scan comes to when the generator made `made`: the failure of
/// the generator where it failed, and else the dependencies that its bill of materials
/// names, or a failure where the bill cannot be read.
pub open spec fn is_scan_of(made: Result<Output, Error>, found: Result<Vec<Dependency>, Error>) -> bool {
    match made {
        Ok(output) => match found {
            Ok(list) => listed(output.kind, output.content@) == Some(purls(list@)),
            Err(_) => listed(output.kind, output.content@).is_none(),
        },
        Err(error) => found == Err::<Vec<Dependency>, Error>(error),
    }
}

impl<G: Generator> Source for SBOM<G> {
    /// Lets the generator make its bill of materials, and reads the dependencies from it.
    /// The generator is asked once, and the result is that of reading what it made.
    fn scan(&self) -> (found: Result<Vec<Dependency>, Error>)
        ensures
            exists|made: Result<Output, Error>| #[trigger]
                call_ensures(G::generate, (&self.maker(),), made) && is_scan_of(made, found),
    {
        let made = self.generator.generate();
        let ghost witness = made;
        let found = match made {
            Ok(output) => Self::from_output(&output),
            Err(error) => Err(error),
        };
        assert(call_ensures(G::generate, (&self.maker(),), witness) && is_scan_of(witness, found));
        found
    }

    /// Asks the generator where the dependency is declared: the answer is the generator's
    /// answer for this dependency.
    fn highlight(&self, dependency: &Dependency) -> (place: Result<(String, Range), Error>)
        ensures
            call_ensures(G::highlight, (&self.maker(), dependency), place),
    {
        self.generator.highlight(dependency)
    }
}

/// Once a component has failed, more components do not mend it.
proof fn lemma_failure_stays(components: Seq<Option<Seq<char>>>, count: int)
    requires
        0 <= count <= components.len(),
        bom_dependencies(components.take(count)).is_none(),
    ensures
        bom_dependencies(components).is_none(),
    decreases components.len() - count,
{
    if count < components.len() {
        assert(components.take(count + 1).drop_last() =~= components.take(count));
        lemma_failure_stays(components, count + 1);
    } else {
        assert(components.take(count) =~= components);
    }
}

} // verus!
