//! pacman repository: `<repo>.db.tar.gz` built from each package's `.PKGINFO`.
use vstd::prelude::*;

use super::RepoIndexer;

verus! {

/// pacman repository: `<repo>.db.tar.gz` built from each package's `.PKGINFO`.
pub struct PacmanIndexer;

impl RepoIndexer for PacmanIndexer {
    open spec fn spec_name(&self) -> Seq<char> {
        "pacman"@
    }

    fn name(&self) -> (r: &'static str) {
        "pacman"
    }

    open spec fn spec_format(&self) -> Seq<char> {
        "arch"@
    }

    fn format(&self) -> (r: &'static str) {
        "arch"
    }

    open spec fn spec_description(&self) -> Seq<char> {
        "pacman repository (<repo>.db.tar.gz from .PKGINFO)"@
    }

    fn description(&self) -> (r: &'static str) {
        "pacman repository (<repo>.db.tar.gz from .PKGINFO)"
    }

    open spec fn spec_extension(&self) -> Seq<char> {
        "zst"@
    }

    fn file_extension(&self) -> (r: &'static str) {
        "zst"
    }
}

/// The `depend = ...` values of a `.PKGINFO`, in order (lines trimmed).
pub open spec fn pkginfo_depends_of(ls: Seq<Seq<char>>) -> Seq<Seq<char>>
    decreases ls.len(),
{
    if ls.len() == 0 {
        Seq::empty()
    } else {
        let rest = pkginfo_depends_of(ls.drop_last());
        let t = crate::text::trim(ls.last());
        if crate::text::starts_with(t, "depend = "@) {
            rest.push(t.skip(9))
        } else {
            rest
        }
    }
}

/// The repeated `depend` entries of a `.PKGINFO`.
pub fn pkginfo_depends(text: &str) -> (r: Vec<String>)
    ensures
        r.deep_view() == pkginfo_depends_of(crate::text::lines(text@)),
{
    let key = crate::text::chars_of("depend = ");
    proof {
        reveal_strlit("depend = ");
    }
    let t = crate::text::chars_of(text);
    let ls = crate::text::lines_exec(t.as_slice());
    let ghost all = ls.deep_view();
    let mut out: Vec<String> = Vec::new();
    let mut i: usize = 0;
    assert(all.take(0) =~= Seq::<Seq<char>>::empty());
    while i < ls.len()
        invariant
            i <= ls.len(),
            all == ls.deep_view(),
            key@ == "depend = "@,
            key@.len() == 9,
            out.deep_view() == pkginfo_depends_of(all.take(i as int)),
        decreases ls.len() - i,
    {
        assert(all.take(i + 1).drop_last() =~= all.take(i as int));
        assert(all.take(i + 1).last() == ls@[i as int]@);
        let l = crate::text::trim_slice(ls[i].as_slice());
        if crate::text::starts_with_exec(l, key.as_slice()) {
            let v = vstd::slice::slice_subrange(l, 9, l.len());
            assert(v@ =~= l@.skip(9));
            let ghost before = out.deep_view();
            out.push(crate::text::string_of(v));
            assert(out.deep_view() =~= before.push(v@));
        }
        i = i + 1;
    }
    assert(all.take(ls.len() as int) =~= all);
    out
}

/// One `%FIELD%` block of a pacman `desc` file.
pub open spec fn desc_block(field: Seq<char>, value: Seq<char>) -> Seq<char> {
    "%"@ + field + "%\n"@ + value + "\n\n"@
}

/// The dependency lines of a `desc` file, one per line.
pub open spec fn depend_lines(ds: Seq<Seq<char>>) -> Seq<char>
    decreases ds.len(),
{
    if ds.len() == 0 {
        Seq::empty()
    } else {
        depend_lines(ds.drop_last()) + ds.last() + "\n"@
    }
}

/// The `desc` member of a pacman database for one package, from its
/// `.PKGINFO` fields and `depend` list, file name, size and SHA-256: the
/// license block only when there is one, the depends block only when not
/// empty.
pub open spec fn pacman_desc_of(
    info: Map<Seq<char>, Seq<char>>,
    depends: Seq<Seq<char>>,
    file_name: Seq<char>,
    size: u64,
    sha256: Seq<char>,
) -> Seq<char> {
    let name = crate::repo::field_or_empty(info, "pkgname"@);
    let license = crate::repo::field_or_empty(info, "license"@);
    desc_block("FILENAME"@, file_name) + desc_block("NAME"@, name) + desc_block("BASE"@, name)
        + desc_block("VERSION"@, crate::repo::field_or_empty(info, "pkgver"@)) + desc_block(
        "DESC"@,
        crate::repo::field_or_empty(info, "pkgdesc"@),
    ) + desc_block("CSIZE"@, crate::text::decimal(size as nat)) + desc_block(
        "ISIZE"@,
        if info.contains_key("size"@) { info["size"@] } else { "0"@ },
    ) + desc_block("SHA256SUM"@, sha256) + desc_block(
        "ARCH"@,
        crate::repo::field_or_empty(info, "arch"@),
    ) + (if license.len() > 0 { desc_block("LICENSE"@, license) } else { Seq::empty() }) + (
    if depends.len() > 0 {
        "%DEPENDS%\n"@ + depend_lines(depends) + "\n"@
    } else {
        Seq::empty()
    })
}

fn info_field(info: &crate::plugins::package_index::keyvalue::KeyValues, k: &str) -> (r: String)
    ensures
        r@ == crate::repo::field_or_empty(info@, k@),
{
    match info.get(k) {
        Some(v) => v.clone(),
        None => String::new(),
    }
}

fn push_block(s: &mut String, field: &str, value: &str)
    ensures
        final(s)@ == old(s)@ + desc_block(field@, value@),
{
    s.append("%");
    s.append(field);
    s.append("%\n");
    s.append(value);
    s.append("\n\n");
}

/// Renders the `desc` member of a pacman database for one package.
pub fn pacman_desc(
    info: &crate::plugins::package_index::keyvalue::KeyValues,
    depends: &Vec<String>,
    file_name: &str,
    size: u64,
    sha256: &str,
) -> (r: String)
    ensures
        r@ == pacman_desc_of(info@, depends.deep_view(), file_name@, size, sha256@),
{
    let name = info_field(info, "pkgname");
    let license = info_field(info, "license");
    let installed = match info.get("size") {
        Some(v) => v.clone(),
        None => "0".to_string(),
    };
    let mut s = String::new();
    push_block(&mut s, "FILENAME", file_name);
    push_block(&mut s, "NAME", name.as_str());
    push_block(&mut s, "BASE", name.as_str());
    push_block(&mut s, "VERSION", info_field(info, "pkgver").as_str());
    push_block(&mut s, "DESC", info_field(info, "pkgdesc").as_str());
    push_block(&mut s, "CSIZE", crate::text::string_of(crate::text::decimal_exec(size).as_slice()).as_str());
    push_block(&mut s, "ISIZE", installed.as_str());
    push_block(&mut s, "SHA256SUM", sha256);
    push_block(&mut s, "ARCH", info_field(info, "arch").as_str());
    let ghost head = s@;
    if !license.as_str().is_empty() {
        push_block(&mut s, "LICENSE", license.as_str());
    }
    let ghost mid = s@;
    assert(mid == head + (if license@.len() > 0 { desc_block("LICENSE"@, license@) } else { Seq::<char>::empty() }));
    if depends.len() > 0 {
        s.append("%DEPENDS%\n");
        let ghost dv = depends.deep_view();
        let ghost start = s@;
        let mut i: usize = 0;
        assert(dv.take(0) =~= Seq::<Seq<char>>::empty());
        while i < depends.len()
            invariant
                i <= depends.len(),
                dv == depends.deep_view(),
                s@ == start + depend_lines(dv.take(i as int)),
            decreases depends.len() - i,
        {
            assert(dv.take(i + 1).drop_last() =~= dv.take(i as int));
            assert(dv.take(i + 1).last() == depends@[i as int]@);
            s.append(depends[i].as_str());
            s.append("\n");
            i = i + 1;
        }
        assert(dv.take(depends.len() as int) =~= dv);
        s.append("\n");
    }
    s
}

/// The database member of a package: `<name>-<version>/desc`.
pub fn desc_member(name: &str, version: &str) -> (r: String)
    ensures
        r@ == name@ + "-"@ + version@ + "/desc"@,
{
    let mut s = name.to_string();
    s.append("-");
    s.append(version);
    s.append("/desc");
    s
}

} // verus!
