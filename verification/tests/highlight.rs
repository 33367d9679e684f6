use seedwing_enforcer::enforcer::source::sbom::maven::MavenGenerator;
use seedwing_enforcer::enforcer::source::Error as SourceError;
use seedwing_enforcer::highlight::{Error, Highlighter, Position, Range};
use seedwing_enforcer::utils::text::same_text;

const POM: &str = "<project xmlns=\"http://maven.apache.org/POM/4.0.0\">\n  <modelVersion>4.0.0</modelVersion>\n  <dependencyManagement>\n    <dependencies>\n      <dependency/>\n    </dependencies>\n  </dependencyManagement>\n  <dependencies>\n    <dependency>\n      <groupId>io.quarkus</groupId>\n    </dependency>\n  </dependencies>\n</project>\n";

fn find(content: &str) -> Result<Option<Range>, Error> {
    let h = Highlighter::new(content)?;
    h.find("dependencies")
}

#[test]
fn highlight_test() {
    let dependencies = find(POM).unwrap();
    assert!(dependencies.is_some());
}

#[test]
fn find_takes_the_first_in_document_order() {
    let range = find(POM).unwrap().unwrap();
    assert_eq!(range.start, Position { line: 3, position: 4 });
    assert_eq!(range.end, Position { line: 5, position: 19 });
}

#[test]
fn the_section_below_the_root_is_found() {
    let h = Highlighter::new(POM).unwrap();
    let range = h.find_below_root("dependencies").unwrap().unwrap();
    assert_eq!(range.start, Position { line: 7, position: 2 });
    assert_eq!(range.end, Position { line: 11, position: 17 });
    assert_eq!(h.find_below_root("nothing").unwrap(), None);
    assert_eq!(h.find_below_root("dependency").unwrap(), None);
}

#[test]
fn the_managed_section_is_found_below_its_parent() {
    let h = Highlighter::new(POM).unwrap();
    let range = h.find_in("dependencyManagement", "dependencies").unwrap().unwrap();
    assert_eq!(range.start, Position { line: 3, position: 4 });
    assert_eq!(h.find_in("dependencies", "dependencies").unwrap(), None);
    assert_eq!(h.find_in("nothing", "dependencies").unwrap(), None);
}

#[test]
fn the_full_range_ends_on_the_last_line() {
    let h = Highlighter::new("<a>\n  <b/>\n</a>").unwrap();
    assert_eq!(
        h.full_range(),
        Range { start: Position::default(), end: Position { line: 2, position: 4 } }
    );
    let h = Highlighter::new("<a/>\n").unwrap();
    assert_eq!(h.full_range(), Range { start: Position::default(), end: Position { line: 1, position: 0 } });
}

#[test]
fn text_that_is_no_xml_is_refused() {
    match Highlighter::new("<a>") {
        Err(Error::Parse(_)) => {}
        _ => panic!("accepted"),
    }
}

#[test]
fn maven_highlights_the_dependencies_section() {
    let generator = MavenGenerator::new("/p".to_string());
    let (url, range) = generator.highlight(POM).unwrap();
    assert_eq!(url, "file:///p/pom.xml");
    assert_eq!(range.start, Position { line: 7, position: 2 });
}

#[test]
fn maven_highlights_the_whole_manifest_without_a_section() {
    let generator = MavenGenerator::new("/p".to_string());
    let (_, range) = generator.highlight("<project>\n</project>").unwrap();
    assert_eq!(range, Range { start: Position::default(), end: Position { line: 1, position: 10 } });
}

#[test]
fn maven_cannot_highlight_what_it_cannot_read() {
    let generator = MavenGenerator::new("/p".to_string());
    match generator.highlight("not xml") {
        Err(SourceError::Parse(_)) => {}
        other => panic!("unexpected: {other:?}"),
    }
    let relative = MavenGenerator::new("p".to_string());
    assert_eq!(relative.highlight(POM), Err(SourceError::Location));
}

#[test]
fn the_generator_knows_its_files_and_arguments() {
    let generator = MavenGenerator::new("/p".to_string());
    assert_eq!(generator.root(), "/p");
    assert_eq!(generator.manifest_path(), "/p/pom.xml");
    assert_eq!(generator.wrapper_path(), "/p/mvnw");
    assert_eq!(generator.bom_path(), "/p/target/bom.json");
    assert_eq!(
        MavenGenerator::arguments(),
        vec![
            "org.cyclonedx:cyclonedx-maven-plugin:2.7.5:makeAggregateBom",
            "-Dcyclonedx.skipAttach=true",
            "-DoutputFormat=json",
            "-DschemaVersion=1.3",
            "-Dcyclonedx.verbose=false",
        ]
    );
}

#[test]
fn positions_are_written_and_converted() {
    let position = Position { line: 12, position: 7 };
    assert_eq!(position.to_text(), "12:7");
    assert_eq!(position.to_line_and_character(), (12, 7));
    assert_eq!(Position::from_line_and_character(3, 4), Position { line: 3, position: 4 });
    assert!(Position { line: 1, position: 9 } < Position { line: 2, position: 0 });
}

#[test]
fn texts_are_compared_letter_by_letter() {
    assert!(same_text("pom.xml", "pom.xml"));
    assert!(!same_text("pom.xml", "Pom.xml"));
    assert!(!same_text("", "x"));
}
