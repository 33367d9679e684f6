//! Lock files and bills of materials, as the crates that define them read them.

use vstd::prelude::*;

verus! {

/// The packages that `cargo_lock::Lockfile` finds in the text of a lock file, each with its
/// name and its version, in the order of the file; nothing where the text is no lock file.
pub uninterp spec fn locked_packages(text: Seq<char>) -> Option<Seq<(Seq<char>, Seq<char>)>>;

/// The package URLs of the components at the top of a CycloneDX 1.3 document in JSON, as
/// `cyclonedx_bom` reads it, in order, with nothing for a component that has none; nothing
/// at all where the bytes are no such document.
pub uninterp spec fn json_components(content: Seq<u8>) -> Option<Seq<Option<Seq<char>>>>;

/// The package URLs of the components at the top of a CycloneDX 1.3 document in XML, as
/// `cyclonedx_bom` reads it.
pub uninterp spec fn xml_components(content: Seq<u8>) -> Option<Seq<Option<Seq<char>>>>;

/// What a list of names and versions looks like to a reader.
pub open spec fn pairs_of(list: Seq<(String, String)>) -> Seq<(Seq<char>, Seq<char>)> {
    Seq::new(list.len(), |i: int| (list[i].0@, list[i].1@))
}

/// What a list of optional texts looks like to a reader.
pub open spec fn options_of(list: Seq<Option<String>>) -> Seq<Option<Seq<char>>> {
    Seq::new(
        list.len(),
        |i: int|
            match list[i] {
                Some(text) => Some(text@),
                None => None,
            },
    )
}

/// Parses a lock file through `cargo_lock::Lockfile`'s `FromStr` and hands out the name and
/// the version of each package. Where the crate refuses the text, its reason is written
/// out. The contract only names the result.
#[verifier::external_body]
pub(crate) fn lock_packages(text: &str) -> (parsed: Result<Vec<(String, String)>, String>)
    ensures
        match parsed {
            Ok(list) => locked_packages(text@) == Some(pairs_of(list@)),
            Err(_) => locked_packages(text@).is_none(),
        },
{
    let lock: cargo_lock::Lockfile = text.parse().map_err(|error: cargo_lock::Error| error.to_string())?;
    Ok(lock.packages.into_iter().map(|package| (package.name.to_string(), package.version.to_string())).collect())
}

/// Calls `cyclonedx_bom::prelude::Bom::parse_from_json_v1_3` and hands out the package URL
/// of each component at the top of the document. Where the crate refuses the bytes, its
/// reason is written out. The contract only names the result.
#[verifier::external_body]
pub(crate) fn bom_json_purls(content: &[u8]) -> (parsed: Result<Vec<Option<String>>, String>)
    ensures
        match parsed {
            Ok(list) => json_components(content@) == Some(options_of(list@)),
            Err(_) => json_components(content@).is_none(),
        },
{
    let bom = cyclonedx_bom::prelude::Bom::parse_from_json_v1_3(content).map_err(|error| error.to_string())?;
    Ok(bom.components.into_iter().flat_map(|list| list.0.into_iter()).map(
        |component| component.purl.map(|purl| purl.to_string()),
    ).collect())
}

/// Calls `cyclonedx_bom::prelude::Bom::parse_from_xml_v1_3` and hands out the package URL
/// of each component at the top of the document. Where the crate refuses the bytes, its
/// reason is written out. The contract only names the result.
#[verifier::external_body]
pub(crate) fn bom_xml_purls(content: &[u8]) -> (parsed: Result<Vec<Option<String>>, String>)
    ensures
        match parsed {
            Ok(list) => xml_components(content@) == Some(options_of(list@)),
            Err(_) => xml_components(content@).is_none(),
        },
{
    let bom = cyclonedx_bom::prelude::Bom::parse_from_xml_v1_3(content).map_err(|error| error.to_string())?;
    Ok(bom.components.into_iter().flat_map(|list| list.0.into_iter()).map(
        |component| component.purl.map(|purl| purl.to_string()),
    ).collect())
}

} // verus!
