use seedwing_enforcer::config::{Config, EnforcerConfig, ManifestType};
use seedwing_enforcer::enforcer::dependency::Dependency;
use seedwing_enforcer::enforcer::outcome::Outcome;
use seedwing_enforcer::enforcer::source::cargo::{package_to_purl, CargoSource};
use seedwing_enforcer::enforcer::source::detect::{autodetect, Probe};
use seedwing_enforcer::enforcer::source::maven::pom;
use seedwing_enforcer::enforcer::source::maven::{MavenDependency, MavenSource};
use seedwing_enforcer::enforcer::source::sbom::maven::MavenGenerator;
use seedwing_enforcer::enforcer::source::sbom::{CycloneDXFormat, CycloneDXVersion, Generator, Output, Type, SBOM};
use seedwing_enforcer::enforcer::source::{locate, Answered, AutoSource, Error, Source};
use seedwing_enforcer::highlight::Range;

fn dep(purl: &str) -> Dependency {
    Dependency { purl: purl.to_string() }
}

fn declared(group: &str, artifact: &str, version: &str, kind: Option<&str>, classifier: Option<&str>) -> pom::Dependency {
    pom::Dependency {
        group_id: group.to_string(),
        artifact_id: artifact.to_string(),
        version: version.to_string(),
        kind: kind.map(|s| s.to_string()),
        classifier: classifier.map(|s| s.to_string()),
        scope: pom::Scope::default(),
    }
}

const LOCK: &str = "# This file is automatically @generated by Cargo.\nversion = 3\n\n[[package]]\nname = \"serde\"\nversion = \"1.0.152\"\n\n[[package]]\nname = \"url\"\nversion = \"2.3.1\"\n";

const BOM: &str = "{\"bomFormat\":\"CycloneDX\",\"specVersion\":\"1.3\",\"version\":1,\"components\":[{\"type\":\"library\",\"name\":\"foo\",\"version\":\"1.0\",\"purl\":\"pkg:maven/org.example/foo@1.0?type=jar\"},{\"type\":\"library\",\"name\":\"bar\",\"version\":\"2.0\"},{\"type\":\"library\",\"name\":\"baz\",\"version\":\"3.0\",\"purl\":\"pkg:maven/org.example/baz@3.0\"}]}";

#[test]
fn a_crate_has_a_cargo_package_url() {
    assert_eq!(package_to_purl("serde", "1.0.152"), Some(dep("pkg:cargo/serde@1.0.152")));
}

#[test]
fn a_lock_file_names_the_dependencies() {
    assert_eq!(
        CargoSource::dependencies(LOCK),
        Ok(vec![dep("pkg:cargo/serde@1.0.152"), dep("pkg:cargo/url@2.3.1")])
    );
    match CargoSource::dependencies("this is [ no lock file") {
        Err(Error::Parse(_)) => {}
        other => panic!("unexpected: {other:?}"),
    }
}

#[test]
fn cargo_highlights_the_manifest() {
    let source = CargoSource::new("/p".to_string());
    assert_eq!(source.manifest_path(), "/p/Cargo.toml");
    assert_eq!(CargoSource::lockfile_path("/w"), "/w/Cargo.lock");
    assert_eq!(source.highlight(&dep("pkg:cargo/serde@1")), Ok(("file:///p/Cargo.toml".to_string(), Range::default())));
    assert_eq!(CargoSource::new("p".to_string()).highlight(&dep("pkg:cargo/serde@1")), Err(Error::Location));
}

#[test]
fn a_maven_declaration_becomes_a_package_url() {
    assert_eq!(
        declared("io.quarkus", "quarkus-core", "2.16.0", None, None).try_into_dependency(),
        Ok(dep("pkg:maven/io.quarkus/quarkus-core@2.16.0"))
    );
    assert_eq!(
        declared("g", "a", "1", Some("jar"), Some("sources")).try_into_dependency(),
        Ok(dep("pkg:maven/g/a@1?type=jar&classifier=sources"))
    );
    assert_eq!(
        declared("g", "a", "1", None, Some("a b")).try_into_dependency(),
        Ok(dep("pkg:maven/g/a@1?classifier=a+b"))
    );
}

#[test]
fn a_manifest_names_its_dependencies() {
    let project = pom::Project {
        model_version: "4.0.0".to_string(),
        group_id: "com.example".to_string(),
        artifact_id: "demo".to_string(),
        version: "1.0-SNAPSHOT".to_string(),
        dependencies: pom::Dependencies {
            dependency: vec![declared("g", "a", "1", None, None), declared("g", "b", "2", Some("pom"), None)],
        },
    };
    assert_eq!(
        MavenSource::dependencies(&project),
        Ok(vec![dep("pkg:maven/g/a@1"), dep("pkg:maven/g/b@2?type=pom")])
    );
    let source = MavenSource::new("/p".to_string());
    assert_eq!(source.manifest_path(), "/p/pom.xml");
    assert_eq!(source.highlight(&dep("pkg:maven/g/a@1")), Ok(("file:///p/pom.xml".to_string(), Range::default())));
}

#[test]
fn a_coordinate_forgets_the_classifier() {
    let coordinate = MavenDependency::from_pom(declared("g", "a", "1", Some("jar"), Some("sources")));
    assert_eq!(
        coordinate,
        MavenDependency {
            group_id: "g".to_string(),
            artifact_id: "a".to_string(),
            version: "1".to_string(),
            kind: Some("jar".to_string()),
            classifier: None,
        }
    );
}

#[test]
fn a_bill_of_materials_names_the_components_with_a_package_url() {
    assert_eq!(
        SBOM::<Fixed>::from_cyclonedx(CycloneDXFormat::Json, CycloneDXVersion::V1_3, BOM.as_bytes()),
        Ok(vec![dep("pkg:maven/org.example/foo@1.0?type=jar"), dep("pkg:maven/org.example/baz@3.0")])
    );
    match SBOM::<Fixed>::from_cyclonedx(CycloneDXFormat::Json, CycloneDXVersion::V1_3, b"{") {
        Err(Error::Parse(_)) => {}
        other => panic!("unexpected: {other:?}"),
    }
    match SBOM::<Fixed>::from_cyclonedx(CycloneDXFormat::Xml, CycloneDXVersion::V1_3, BOM.as_bytes()) {
        Err(Error::Parse(_)) => {}
        other => panic!("unexpected: {other:?}"),
    }
}

#[test]
fn a_bill_of_materials_in_xml_is_read_too() {
    let xml = "<?xml version=\"1.0\" encoding=\"UTF-8\"?>\n<bom xmlns=\"http://cyclonedx.org/schema/bom/1.3\" version=\"1\">\n  <components>\n    <component type=\"library\">\n      <name>foo</name>\n      <version>1.0</version>\n      <purl>pkg:maven/org.example/foo@1.0</purl>\n    </component>\n  </components>\n</bom>\n";
    assert_eq!(
        SBOM::<Fixed>::from_cyclonedx(CycloneDXFormat::Xml, CycloneDXVersion::V1_3, xml.as_bytes()),
        Ok(vec![dep("pkg:maven/org.example/foo@1.0")])
    );
}

#[test]
fn components_without_a_url_fail_or_are_passed_over() {
    assert_eq!(SBOM::<Fixed>::from_component(&None), None);
    assert_eq!(SBOM::<Fixed>::from_component(&Some("pkg:maven/g/a@1".to_string())), Some(Ok(dep("pkg:maven/g/a@1"))));
    assert_eq!(
        SBOM::<Fixed>::from_component(&Some("no url".to_string())),
        Some(Err(Error::Purl("no url".to_string())))
    );
    assert_eq!(
        SBOM::<Fixed>::from_bom(&vec![Some("pkg:maven/g/a@1".to_string()), None, Some("no url".to_string()), Some("pkg:b".to_string())]),
        Err(Error::Purl("no url".to_string()))
    );
}

struct Fixed;

impl Generator for Fixed {
    fn generate(&self) -> Result<Output, Error> {
        Ok(MavenGenerator::output(BOM.as_bytes().to_vec()))
    }

    fn highlight(&self, dependency: &Dependency) -> Result<(String, Range), Error> {
        if dependency.purl.contains("foo") {
            Ok(("file:///p/pom.xml".to_string(), Range::default()))
        } else {
            Err(Error::NotFound)
        }
    }
}

#[test]
fn the_source_scans_what_the_generator_makes() {
    let source = SBOM::new(Fixed);
    assert_eq!(
        source.scan(),
        Ok(vec![dep("pkg:maven/org.example/foo@1.0?type=jar"), dep("pkg:maven/org.example/baz@3.0")])
    );
    assert!(source.highlight(&dep("pkg:maven/org.example/foo@1.0")).is_ok());
    let output = MavenGenerator::output(vec![1, 2]);
    assert_eq!(output.kind, Type::CycloneDX { format: CycloneDXFormat::Json, version: CycloneDXVersion::V1_3 });
    assert_eq!(output.content, vec![1, 2]);
}

#[test]
fn results_are_placed_by_the_source() {
    let source = SBOM::new(Fixed);
    let checked = locate(
        &source,
        vec![
            Answered { dependency: dep("pkg:maven/org.example/foo@1.0"), outcome: Outcome::Satisfied, raw: "a".to_string() },
            Answered { dependency: dep("pkg:maven/org.example/baz@3.0"), outcome: Outcome::Satisfied, raw: "b".to_string() },
        ],
    );
    assert_eq!(checked.len(), 2);
    assert_eq!(checked[0].place, Some(("file:///p/pom.xml".to_string(), Range::default())));
    assert_eq!(checked[0].raw, "a");
    assert_eq!(checked[1].place, None);
    assert_eq!(checked[1].dependency, dep("pkg:maven/org.example/baz@3.0"));
}

#[test]
fn the_manifest_is_found_by_what_is_there() {
    let dir = |has_cargo, has_maven| Probe { is_dir: true, has_cargo, has_maven };
    let file = Probe { is_dir: false, has_cargo: false, has_maven: false };
    assert_eq!(autodetect("/p", dir(true, true)), Ok(ManifestType::Cargo));
    assert_eq!(autodetect("/p", dir(false, true)), Ok(ManifestType::Maven));
    assert_eq!(autodetect("/p", dir(false, false)), Err(Error::NotFound));
    assert_eq!(autodetect("/p/Cargo.toml", file), Ok(ManifestType::Cargo));
    assert_eq!(autodetect("/p/pom.xml", file), Ok(ManifestType::Maven));
    assert_eq!(autodetect("/p/build.gradle", file), Err(Error::NotFound));
}

#[test]
fn the_configuration_goes_before_what_is_there() {
    let dir = Probe { is_dir: true, has_cargo: true, has_maven: false };
    let wants_maven = Some(Config { dependencies: None, enforcer: EnforcerConfig { source: Some(ManifestType::Maven) } });
    let no_wish = Some(Config { dependencies: None, enforcer: EnforcerConfig { source: None } });
    assert_eq!(AutoSource::find_source("/p", &wants_maven, dir), Ok(ManifestType::Maven));
    assert_eq!(AutoSource::find_source("/p", &no_wish, dir), Ok(ManifestType::Cargo));
    assert_eq!(AutoSource::find_source("/p", &None, dir), Ok(ManifestType::Cargo));
}

#[test]
fn source_errors_say_what_went_wrong() {
    assert_eq!(Error::Io("x".to_string()).to_text(), "x");
    assert_eq!(Error::Purl("x".to_string()).to_text(), "Not a package URL: x");
    assert_eq!(Error::Location.to_text(), "Failed to build path URI");
    assert_eq!(Error::NotFound.to_text(), "entity not found");
}

#[test]
fn a_qualifier_that_is_too_long_is_refused() {
    let long = "a".repeat(0x0100_0001);
    assert_eq!(
        declared("g", "a", "1", None, Some(&long)).try_into_dependency(),
        Err(Error::TooLong)
    );
    assert_eq!(Error::TooLong.to_text(), "A part of a package URL is too long");
}

#[test]
fn a_coordinate_that_is_no_url_is_refused() {
    let project = pom::Project {
        model_version: "4.0.0".to_string(),
        group_id: "com.example".to_string(),
        artifact_id: "demo".to_string(),
        version: "1".to_string(),
        dependencies: pom::Dependencies { dependency: vec![declared("g", "a", "1", None, None)] },
    };
    assert!(MavenSource::dependencies(&project).is_ok());
    assert_eq!(Dependency::parse("pkg"), None);
}
