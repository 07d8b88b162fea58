//! The `cpan` registry source.
use vstd::prelude::*;

use super::RegistrySource;
use crate::plugins::plugin::Plugin;
use crate::text::{
    chars_of, contains_exec, contains_str, find_exec, find_str, first_some, lines, lines_exec,
    seq_eq, slice_to_vec, split_ws, split_ws_exec, string_of, trim, trim_slice,
};

verus! {

/// Fetches packages from the `cpan` registry.
pub struct CpanRegistrySource;

impl Plugin for CpanRegistrySource {
    open spec fn spec_name(&self) -> Seq<char> {
        "cpan"@
    }

    fn name(&self) -> (r: &'static str) {
        "cpan"
    }

    open spec fn spec_description(&self) -> Seq<char> {
        "CPAN (Perl) \u{2014} cpanm + build install tree"@
    }

    fn description(&self) -> (r: &'static str) {
        "CPAN (Perl) \u{2014} cpanm + build install tree"
    }
}

impl RegistrySource for CpanRegistrySource {
    fn required_tools(&self) -> (r: Vec<&'static str>)
        ensures
            r.deep_view() == seq!["cpanm"@, "perl"@],
    {
        let r = vec!["cpanm", "perl"];
        assert(r.deep_view() =~= seq!["cpanm"@, "perl"@]);
        r
    }
}

/// The version a `perllocal.pod` line records for `package`: on a line
/// naming the package, the first word after `VERSION:`.
pub open spec fn pod_line_version(line: Seq<char>, package: Seq<char>) -> Option<Seq<char>> {
    let k = find_str(line, "VERSION:"@);
    if contains_str(line, package) && k >= 0 {
        let ws = split_ws(line.skip(k + 8));
        let v = if ws.len() > 0 {
            trim(ws[0])
        } else {
            Seq::empty()
        };
        if v.len() > 0 {
            Some(v)
        } else {
            None
        }
    } else {
        None
    }
}

/// The installed version of a CPAN module: from `perllocal.pod` when it
/// records one, else what `perl -M<module>` printed (trimmed) unless that
/// is empty or `0.0.0`, else `0.0.0`.
pub open spec fn cpan_version_of(pod: Option<Seq<char>>, perl_out: Option<Seq<char>>, package: Seq<char>) -> Seq<char> {
    let from_pod = match pod {
        Some(t) => first_some(lines(t), |l: Seq<char>| pod_line_version(l, package)),
        None => None,
    };
    if from_pod is Some {
        from_pod->0
    } else {
        match perl_out {
            Some(o) => if trim(o).len() > 0 && trim(o) != "0.0.0"@ {
                trim(o)
            } else {
                "0.0.0"@
            },
            None => "0.0.0"@,
        }
    }
}

fn pod_line_version_exec(line: &[char], package: &[char], key: &[char]) -> (r: Option<Vec<char>>)
    requires
        key@ == "VERSION:"@,
    ensures
        match r {
            Some(v) => pod_line_version(line@, package@) == Some(v@),
            None => pod_line_version(line@, package@) is None,
        },
{
    proof {
        reveal_strlit("VERSION:");
    }
    let ll = line.len();
    if !contains_exec(line, package) {
        return None;
    }
    match find_exec(line, key) {
        Some(k) => {
            assert(key@.len() == 8);
            assert(crate::text::occurs_at(line@, key@, k as int));
            let after = vstd::slice::slice_subrange(line, k + 8, line.len());
            assert(after@ =~= line@.skip(k + 8));
            let ws = split_ws_exec(after);
            if ws.len() == 0 {
                return None;
            }
            assert(ws.deep_view()[0] == ws@[0]@);
            let v = trim_slice(ws[0].as_slice());
            if v.len() > 0 {
                Some(slice_to_vec(v))
            } else {
                None
            }
        },
        None => None,
    }
}

/// The installed version of a CPAN module, from the text of
/// `perllocal.pod` (when present) and the output of `perl -M<module>`
/// printing its `$VERSION` (when it ran).
pub fn cpan_version(pod: Option<&str>, perl_out: Option<&str>, package: &str) -> (r: String)
    ensures
        r@ == cpan_version_of(crate::text::opt_str_view(pod), crate::text::opt_str_view(perl_out), package@),
{
    let p = chars_of(package);
    let key = chars_of("VERSION:");
    match pod {
        Some(text) => {
            let t = chars_of(text);
            let ls = lines_exec(t.as_slice());
            let ghost all = ls.deep_view();
            let ghost f = |l: Seq<char>| pod_line_version(l, package@);
            let mut i: usize = 0;
            assert(all.skip(0) =~= all);
            while i < ls.len()
                invariant
                    i <= ls.len(),
                    all == ls.deep_view(),
                    all == lines(text@),
                    pod == Some(text),
                    p@ == package@,
                    key@ == "VERSION:"@,
                    f == (|l: Seq<char>| pod_line_version(l, package@)),
                    first_some(all, f) == first_some(all.skip(i as int), f),
                decreases ls.len() - i,
            {
                let ghost rest = all.skip(i as int);
                assert(rest[0] == ls@[i as int]@);
                assert(rest.drop_first() =~= all.skip(i + 1));
                assert(f(rest[0]) == pod_line_version(rest[0], package@));
                match pod_line_version_exec(ls[i].as_slice(), p.as_slice(), key.as_slice()) {
                    Some(v) => {
                        assert(crate::text::opt_str_view(pod) == Some(text@));
                        return string_of(v.as_slice());
                    },
                    None => {},
                }
                i = i + 1;
            }
        },
        None => {},
    }
    match perl_out {
        Some(o) => {
            let oc = chars_of(o);
            let v = trim_slice(oc.as_slice());
            if v.len() > 0 && !seq_eq(v, chars_of("0.0.0").as_slice()) {
                string_of(v)
            } else {
                "0.0.0".to_string()
            }
        },
        None => "0.0.0".to_string(),
    }
}

} // verus!
