//! The RPM `repodata/` writer.
use vstd::prelude::*;

use super::{Capabilities, PackageIndex};
use crate::plugins::plugin::Plugin;
use crate::text::{chars_of, string_of};

verus! {

/// RPM repository: `repodata/repomd.xml` plus `primary.xml.gz`.
pub struct RpmIndexer;

impl Plugin for RpmIndexer {
    open spec fn spec_name(&self) -> Seq<char> {
        "rpm"@
    }

    fn name(&self) -> (r: &'static str) {
        "rpm"
    }

    open spec fn spec_description(&self) -> Seq<char> {
        "RPM repository (repodata/repomd.xml + primary.xml.gz)"@
    }

    fn description(&self) -> (r: &'static str) {
        "RPM repository (repodata/repomd.xml + primary.xml.gz)"
    }
}

impl PackageIndex for RpmIndexer {
    open spec fn spec_capabilities(&self) -> u8 {
        2
    }

    fn capabilities(&self) -> (c: Capabilities) {
        Capabilities::write()
    }

    open spec fn spec_extension(&self) -> Option<Seq<char>> {
        Some("rpm"@)
    }

    fn file_extension(&self) -> (r: Option<&'static str>) {
        Some("rpm")
    }
}

/// The XML spelling of one character.
pub open spec fn xml_char(c: char) -> Seq<char> {
    if c == '&' {
        "&amp;"@
    } else if c == '<' {
        "&lt;"@
    } else if c == '>' {
        "&gt;"@
    } else if c == '"' {
        "&quot;"@
    } else if c == '\'' {
        "&apos;"@
    } else {
        seq![c]
    }
}

/// `s` with XML's five special characters escaped.
pub open spec fn xml_escaped(s: Seq<char>) -> Seq<char>
    decreases s.len(),
{
    if s.len() == 0 {
        seq![]
    } else {
        xml_escaped(s.drop_last()) + xml_char(s.last())
    }
}

/// Escape `&`, `<`, `>`, `"` and `'` for XML text and attributes.
pub fn xml_escape(s: &str) -> (r: String)
    ensures
        r@ == xml_escaped(s@),
{
    let v = chars_of(s);
    let mut out: Vec<char> = Vec::new();
    let mut i: usize = 0;
    assert(v@.take(0) =~= Seq::<char>::empty());
    while i < v.len()
        invariant
            i <= v@.len(),
            out@ == xml_escaped(v@.take(i as int)),
        decreases v@.len() - i,
    {
        assert(v@.take(i + 1).drop_last() =~= v@.take(i as int));
        let c = v[i];
        let rep: Vec<char> = if c == '&' {
            chars_of("&amp;")
        } else if c == '<' {
            chars_of("&lt;")
        } else if c == '>' {
            chars_of("&gt;")
        } else if c == '"' {
            chars_of("&quot;")
        } else if c == '\'' {
            chars_of("&apos;")
        } else {
            let mut one: Vec<char> = Vec::new();
            one.push(c);
            one
        };
        assert(rep@ =~= xml_char(c));
        crate::text::append_chars(&mut out, rep.as_slice());
        i = i + 1;
    }
    assert(v@.take(v@.len() as int) =~= v@);
    string_of(out.as_slice())
}

/// Escaped text holds none of `<`, `>`, `"` and `'`: every markup
/// character of the input has become an entity.
pub proof fn lemma_xml_escaped_has_no_markup(s: Seq<char>)
    ensures
        forall|i: int|
            0 <= i < xml_escaped(s).len() ==> {
                let c = #[trigger] xml_escaped(s)[i];
                c != '<' && c != '>' && c != '"' && c != '\''
            },
    decreases s.len(),
{
    reveal_strlit("&amp;");
    reveal_strlit("&lt;");
    reveal_strlit("&gt;");
    reveal_strlit("&quot;");
    reveal_strlit("&apos;");
    if s.len() > 0 {
        lemma_xml_escaped_has_no_markup(s.drop_last());
        let a = xml_escaped(s.drop_last());
        let b = xml_char(s.last());
        assert forall|i: int| 0 <= i < xml_escaped(s).len() implies {
            let c = #[trigger] xml_escaped(s)[i];
            c != '<' && c != '>' && c != '"' && c != '\''
        } by {
            if i < a.len() {
                assert(xml_escaped(s)[i] == a[i]);
            } else {
                assert(xml_escaped(s)[i] == b[i - a.len()]);
            }
        }
    }
}

} // verus!
