//! The `maven` registry source.
use vstd::prelude::*;

use super::RegistrySource;
use crate::plugins::plugin::Plugin;
use crate::text::{chars_of, split_class, split_class_exec, string_of, trim, trim_slice};

verus! {

/// Fetches packages from the `maven` registry.
pub struct MavenRegistrySource;

impl Plugin for MavenRegistrySource {
    open spec fn spec_name(&self) -> Seq<char> {
        "maven"@
    }

    fn name(&self) -> (r: &'static str) {
        "maven"
    }

    open spec fn spec_description(&self) -> Seq<char> {
        "Maven Central (Java/Kotlin/Scala) \u{2014} mvn dependency:copy + extract"@
    }

    fn description(&self) -> (r: &'static str) {
        "Maven Central (Java/Kotlin/Scala) \u{2014} mvn dependency:copy + extract"
    }
}

impl RegistrySource for MavenRegistrySource {
    fn required_tools(&self) -> (r: Vec<&'static str>)
        ensures
            r.deep_view() == seq!["mvn"@],
    {
        let r = vec!["mvn"];
        assert(r.deep_view() =~= seq!["mvn"@]);
        r
    }
}

/// Why Maven coordinates were refused.
#[derive(Debug, Clone, PartialEq, Eq)]
pub enum MavenError {
    /// Not `groupId:artifactId` or `groupId:artifactId:version`; carries the
    /// text given.
    BadCoordinates(String),
}

/// What `parse_maven_coordinates` reads: `group:artifact` (with the trimmed
/// requested version, `latest.release` when blank) or
/// `group:artifact:version`; none for any other number of `:`-pieces.
pub open spec fn maven_coordinates_of(package: Seq<char>, version: Seq<char>) -> Option<
    (Seq<char>, Seq<char>, Seq<char>),
> {
    let p = split_class(package, false, seq![':']);
    if p.len() == 2 {
        Some(
            (
                p[0],
                p[1],
                if trim(version).len() == 0 {
                    "latest.release"@
                } else {
                    trim(version)
                },
            ),
        )
    } else if p.len() == 3 {
        Some((p[0], p[1], p[2]))
    } else {
        None
    }
}

/// Parse Maven coordinates from the package string: `groupId:artifactId`
/// or `groupId:artifactId:version`.
pub fn parse_maven_coordinates(package: &str, version: &str) -> (r: Result<
    (String, String, String),
    MavenError,
>)
    ensures
        match r {
            Ok((g, a, v)) => maven_coordinates_of(package@, version@) == Some((g@, a@, v@)),
            Err(MavenError::BadCoordinates(p)) => maven_coordinates_of(package@, version@) is None
                && p@ == package@,
        },
{
    let colon: Vec<char> = vec![':'];
    assert(colon@ =~= seq![':']);
    let parts = split_class_exec(chars_of(package).as_slice(), false, colon.as_slice());
    let ghost pv = parts.deep_view();
    if parts.len() == 2 {
        assert(pv[0] == parts@[0]@ && pv[1] == parts@[1]@);
        let vv = chars_of(version);
        let t = trim_slice(vv.as_slice());
        let v = if t.len() == 0 {
            String::from_str("latest.release")
        } else {
            string_of(t)
        };
        Ok((string_of(parts[0].as_slice()), string_of(parts[1].as_slice()), v))
    } else if parts.len() == 3 {
        assert(pv[0] == parts@[0]@ && pv[1] == parts@[1]@ && pv[2] == parts@[2]@);
        Ok(
            (
                string_of(parts[0].as_slice()),
                string_of(parts[1].as_slice()),
                string_of(parts[2].as_slice()),
            ),
        )
    } else {
        Err(MavenError::BadCoordinates(String::from_str(package)))
    }
}

/// The temporary `pom.xml` that makes `mvn dependency:copy-dependencies`
/// fetch one artifact.
pub open spec fn pom_xml_of(group: Seq<char>, artifact: Seq<char>, version: Seq<char>) -> Seq<char> {
    "<?xml version=\"1.0\" encoding=\"UTF-8\"?>\n<project xmlns=\"http://maven.apache.org/POM/4.0.0\">\n    <modelVersion>4.0.0</modelVersion>\n    <groupId>lx.temp</groupId>\n    <artifactId>lx-temp</artifactId>\n    <version>1.0</version>\n    <dependencies>\n        <dependency>\n            <groupId>"@
        + group + "</groupId>\n            <artifactId>"@ + artifact
        + "</artifactId>\n            <version>"@ + version
        + "</version>\n        </dependency>\n    </dependencies>\n</project>\n"@
}

/// Renders the temporary `pom.xml` for one artifact.
pub fn pom_xml(group: &str, artifact: &str, version: &str) -> (r: String)
    ensures
        r@ == pom_xml_of(group@, artifact@, version@),
{
    let mut s = String::from_str(
        "<?xml version=\"1.0\" encoding=\"UTF-8\"?>\n<project xmlns=\"http://maven.apache.org/POM/4.0.0\">\n    <modelVersion>4.0.0</modelVersion>\n    <groupId>lx.temp</groupId>\n    <artifactId>lx-temp</artifactId>\n    <version>1.0</version>\n    <dependencies>\n        <dependency>\n            <groupId>",
    );
    s.append(group);
    s.append("</groupId>\n            <artifactId>");
    s.append(artifact);
    s.append("</artifactId>\n            <version>");
    s.append(version);
    s.append("</version>\n        </dependency>\n    </dependencies>\n</project>\n");
    s
}

/// Whether a downloaded jar is staged: not a `-sources` or `-javadoc` jar.
pub fn is_main_jar(name: &str) -> (r: bool)
    ensures
        r == !(crate::text::contains_str(name@, "-sources"@) || crate::text::contains_str(name@, "-javadoc"@)),
{
    let n = crate::text::chars_of(name);
    !(crate::text::contains_exec(n.as_slice(), crate::text::chars_of("-sources").as_slice())
        || crate::text::contains_exec(n.as_slice(), crate::text::chars_of("-javadoc").as_slice()))
}

} // verus!
