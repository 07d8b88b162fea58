//! `lx show`: what an installed package's ELF files need, next to what it
//! declares. Scanning the files and asking the package manager stay
//! outside; this module compares and reports.
use vstd::prelude::*;

use crate::repo::join_strings;
use crate::sorted::{sorted_set, sorted_set_exec};
use crate::text::{before_class, before_class_exec, chars_of, join, lower_vec, seq_eq, string_of, to_lower};

verus! {

/// The package of an owner as `dpkg -S` names it (`pkg:arch` gives `pkg`).
pub open spec fn owner_base(o: Seq<char>) -> Seq<char> {
    before_class(o, seq![':'])
}

/// The owners of the resolved sonames, in order, leaving out the package
/// itself (its own libraries are no dependency).
pub open spec fn other_owners(owners: Seq<(Seq<char>, Option<Seq<char>>)>, package: Seq<char>) -> Seq<Seq<char>>
    decreases owners.len(),
{
    if owners.len() == 0 {
        Seq::empty()
    } else {
        let r = other_owners(owners.drop_last(), package);
        match owners.last().1 {
            Some(o) => if to_lower(owner_base(o)) == to_lower(package) {
                r
            } else {
                r.push(owner_base(o))
            },
            None => r,
        }
    }
}

/// The sonames no local package owns, in order.
pub open spec fn unresolved_sonames(owners: Seq<(Seq<char>, Option<Seq<char>>)>) -> Seq<Seq<char>>
    decreases owners.len(),
{
    if owners.len() == 0 {
        Seq::empty()
    } else {
        let r = unresolved_sonames(owners.drop_last());
        match owners.last().1 {
            Some(_) => r,
            None => r.push(owners.last().0),
        }
    }
}

/// The strings lower-cased (ASCII).
pub open spec fn lowered(xs: Seq<Seq<char>>) -> Seq<Seq<char>> {
    xs.map_values(|x: Seq<char>| to_lower(x))
}

/// The members of `xs` whose lower-cased form `others` (lower-cased) lacks,
/// in order.
pub open spec fn absent_from(xs: Seq<Seq<char>>, others: Seq<Seq<char>>) -> Seq<Seq<char>>
    decreases xs.len(),
{
    if xs.len() == 0 {
        Seq::empty()
    } else {
        let r = absent_from(xs.drop_last(), others);
        if others.contains(to_lower(xs.last())) {
            r
        } else {
            r.push(xs.last())
        }
    }
}

/// What `lx show` reports of the ELF needs: nothing when no soname was
/// found; else the packages the files need (sorted), the ones not declared,
/// the declared ones not needed and the sonames no package owns.
pub open spec fn elf_report(
    package: Seq<char>,
    declared: Seq<Seq<char>>,
    owners: Seq<(Seq<char>, Option<Seq<char>>)>,
) -> Seq<Seq<char>> {
    if owners.len() == 0 {
        Seq::empty()
    } else {
        let elf = sorted_set(other_owners(owners, package));
        let missing = absent_from(elf, lowered(declared));
        let extra = absent_from(declared, lowered(elf));
        let unres = unresolved_sonames(owners);
        seq!["\nelf_needs: "@ + join(elf, ", "@)] + (if missing.len() > 0 {
            seq!["  \u{26a0} not declared in depends: "@ + join(missing, ", "@)]
        } else {
            Seq::empty()
        }) + (if extra.len() > 0 {
            seq!["  \u{2139} declared but not in ELF needs: "@ + join(extra, ", "@)]
        } else {
            Seq::empty()
        }) + (if unres.len() > 0 {
            seq!["  \u{2139} sonames not resolved locally: "@ + join(unres, ", "@)]
        } else {
            Seq::empty()
        })
    }
}

/// The views of soname/owner pairs.
pub open spec fn owner_views(owners: Seq<(String, Option<String>)>) -> Seq<(Seq<char>, Option<Seq<char>>)> {
    owners.map_values(|p: (String, Option<String>)| (p.0@, crate::text::opt_view(p.1)))
}

/// The strings lower-cased.
fn lowered_exec(xs: &Vec<String>) -> (r: Vec<Vec<char>>)
    ensures
        r.deep_view() == lowered(xs.deep_view()),
{
    let mut out: Vec<Vec<char>> = Vec::new();
    let mut i: usize = 0;
    while i < xs.len()
        invariant
            i <= xs@.len(),
            out.deep_view() == lowered(xs.deep_view().take(i as int)),
        decreases xs@.len() - i,
    {
        let l = lower_vec(chars_of(xs[i].as_str()).as_slice());
        let ghost lv = l@;
        assert(l.deep_view() =~= lv);
        let ghost before = out.deep_view();
        out.push(l);
        assert(out.deep_view() =~= before.push(lv));
        assert(xs.deep_view().take(i + 1) =~= xs.deep_view().take(i as int).push(xs.deep_view()[i as int]));
        assert(lowered(xs.deep_view().take(i + 1)) =~= lowered(xs.deep_view().take(i as int)).push(lv));
        i = i + 1;
    }
    assert(xs.deep_view().take(xs@.len() as int) =~= xs.deep_view());
    out
}

/// Whether `list` holds `x`.
fn holds_chars(list: &Vec<Vec<char>>, x: &[char]) -> (r: bool)
    ensures
        r == list.deep_view().contains(x@),
{
    let mut i: usize = 0;
    while i < list.len()
        invariant
            i <= list@.len(),
            forall|j: int| 0 <= j < i ==> list.deep_view()[j] != x@,
        decreases list@.len() - i,
    {
        assert(list.deep_view()[i as int] == list@[i as int]@);
        if seq_eq(list[i].as_slice(), x) {
            return true;
        }
        i = i + 1;
    }
    false
}

/// The members of `xs` whose lower-cased form `others` lacks.
fn absent_from_exec(xs: &Vec<String>, others: &Vec<Vec<char>>) -> (r: Vec<String>)
    ensures
        r.deep_view() == absent_from(xs.deep_view(), others.deep_view()),
{
    let mut out: Vec<String> = Vec::new();
    let mut i: usize = 0;
    while i < xs.len()
        invariant
            i <= xs@.len(),
            out.deep_view() == absent_from(xs.deep_view().take(i as int), others.deep_view()),
        decreases xs@.len() - i,
    {
        assert(xs.deep_view().take(i + 1).drop_last() =~= xs.deep_view().take(i as int));
        assert(xs.deep_view().take(i + 1).last() == xs@[i as int]@);
        let l = lower_vec(chars_of(xs[i].as_str()).as_slice());
        if !holds_chars(others, l.as_slice()) {
            let ghost before = out.deep_view();
            out.push(xs[i].clone());
            assert(out.deep_view() =~= before.push(xs@[i as int]@));
        }
        i = i + 1;
    }
    assert(xs.deep_view().take(xs@.len() as int) =~= xs.deep_view());
    out
}

/// The report `lx show` prints of an installed package's ELF needs:
/// `owners` pairs each needed soname (sorted, each once) with the package
/// that owns it locally, if any; `declared` lists the declared
/// dependencies.
pub fn elf_needs_report(package: &str, declared: &Vec<String>, owners: &Vec<(String, Option<String>)>) -> (r: Vec<String>)
    ensures
        r.deep_view() == elf_report(package@, declared.deep_view(), owner_views(owners@)),
{
    let ghost ov = owner_views(owners@);
    if owners.len() == 0 {
        let r: Vec<String> = Vec::new();
        assert(r.deep_view() =~= Seq::<Seq<char>>::empty());
        return r;
    }
    let pkg_lower = lower_vec(chars_of(package).as_slice());
    let colon: Vec<char> = vec![':'];
    assert(colon@ =~= seq![':']);
    let mut others: Vec<String> = Vec::new();
    let mut unresolved: Vec<String> = Vec::new();
    let mut i: usize = 0;
    while i < owners.len()
        invariant
            i <= owners@.len(),
            ov == owner_views(owners@),
            pkg_lower@ == to_lower(package@),
            colon@ == seq![':'],
            others.deep_view() == other_owners(ov.take(i as int), package@),
            unresolved.deep_view() == unresolved_sonames(ov.take(i as int)),
        decreases owners@.len() - i,
    {
        assert(ov.take(i + 1).drop_last() =~= ov.take(i as int));
        assert(ov.take(i + 1).last() == ov[i as int]);
        match &owners[i].1 {
            Some(o) => {
                let ov_chars = chars_of(o.as_str());
                let base = before_class_exec(ov_chars.as_slice(), colon.as_slice());
                if !seq_eq(lower_vec(base).as_slice(), pkg_lower.as_slice()) {
                    let ghost before = others.deep_view();
                    let b = string_of(base);
                    let ghost bv = b@;
                    others.push(b);
                    assert(others.deep_view() =~= before.push(bv));
                }
            },
            None => {
                let ghost before = unresolved.deep_view();
                unresolved.push(owners[i].0.clone());
                assert(unresolved.deep_view() =~= before.push(owners@[i as int].0@));
            },
        }
        i = i + 1;
    }
    assert(ov.take(owners@.len() as int) =~= ov);
    let elf = sorted_set_exec(&others);
    let declared_lower = lowered_exec(declared);
    let elf_lower = lowered_exec(&elf);
    let missing = absent_from_exec(&elf, &declared_lower);
    let extra = absent_from_exec(declared, &elf_lower);
    let mut lines: Vec<String> = Vec::new();
    let mut first = String::from_str("\nelf_needs: ");
    first.append(join_strings(&elf, ", ").as_str());
    lines.push(first);
    let ghost l1 = lines.deep_view();
    if missing.len() > 0 {
        let mut l = String::from_str("  \u{26a0} not declared in depends: ");
        l.append(join_strings(&missing, ", ").as_str());
        lines.push(l);
    }
    let ghost l2 = lines.deep_view();
    if extra.len() > 0 {
        let mut l = String::from_str("  \u{2139} declared but not in ELF needs: ");
        l.append(join_strings(&extra, ", ").as_str());
        lines.push(l);
    }
    let ghost l3 = lines.deep_view();
    if unresolved.len() > 0 {
        let mut l = String::from_str("  \u{2139} sonames not resolved locally: ");
        l.append(join_strings(&unresolved, ", ").as_str());
        lines.push(l);
    }
    assert(lines.deep_view() =~= elf_report(package@, declared.deep_view(), ov));
    lines
}

} // verus!
