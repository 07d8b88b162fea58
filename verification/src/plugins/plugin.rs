//! Shared plugin inventory primitives: the `name`/`description` identity
//! every plugin dimension exposes, and an ordered registry over such plugins.
use vstd::prelude::*;

use crate::text::{chars_of, lower_vec, seq_eq, to_lower, trim, trim_slice};

verus! {

/// Identity shared by every plugin dimension.
pub trait Plugin: Sized {
    /// The canonical name, as text.
    spec fn spec_name(&self) -> Seq<char>;

    /// Canonical name: the value accepted in `package.yaml` / on the CLI.
    fn name(&self) -> (r: &'static str)
        ensures
            r@ == self.spec_name(),
    ;

    /// The description, as text.
    spec fn spec_description(&self) -> Seq<char>;

    /// Human-readable description for help and error text.
    fn description(&self) -> (r: &'static str)
        ensures
            r@ == self.spec_description(),
    ;
}

/// The names of `items`, in order.
pub open spec fn names_of<T: Plugin>(items: Seq<T>) -> Seq<Seq<char>> {
    items.map_values(|p: T| p.spec_name())
}

/// Index of the first item whose name is `want`, or -1.
pub open spec fn index_of_name<T: Plugin>(items: Seq<T>, want: Seq<char>) -> int
    decreases items.len(),
{
    if items.len() == 0 {
        -1
    } else if items[0].spec_name() == want {
        0
    } else {
        let r = index_of_name(items.drop_first(), want);
        if r < 0 {
            -1
        } else {
            r + 1
        }
    }
}

pub proof fn lemma_index_of_name<T: Plugin>(items: Seq<T>, want: Seq<char>, k: int)
    requires
        0 <= k <= items.len(),
        forall|j: int| 0 <= j < k ==> (#[trigger] items[j]).spec_name() != want,
        k == items.len() || items[k].spec_name() == want,
    ensures
        index_of_name(items, want) == (if k == items.len() {
            -1
        } else {
            k
        }),
    decreases items.len(),
{
    if items.len() > 0 && k > 0 {
        let t = items.drop_first();
        assert forall|j: int| 0 <= j < k - 1 implies (#[trigger] t[j]).spec_name() != want by {
            assert(t[j] == items[j + 1]);
        }
        if k < items.len() {
            assert(t[k - 1] == items[k]);
        }
        lemma_index_of_name(t, want, k - 1);
        assert(items[0].spec_name() != want);
    }
}

/// A lookup finds a plugin exactly when a registered plugin has the name
/// asked for, and what it finds has that name.
pub proof fn lemma_lookup_finds_named<T: Plugin>(items: Seq<T>, want: Seq<char>)
    ensures
        -1 <= index_of_name(items, want) < items.len(),
        index_of_name(items, want) >= 0 ==> items[index_of_name(items, want)].spec_name() == want,
        index_of_name(items, want) == -1 <==> !names_of(items).contains(want),
    decreases items.len(),
{
    if items.len() > 0 {
        let t = items.drop_first();
        lemma_lookup_finds_named(t, want);
        if index_of_name(t, want) >= 0 {
            assert(items[index_of_name(t, want) + 1] == t[index_of_name(t, want)]);
        }
        if names_of(items).contains(want) {
            let k = choose|k: int| 0 <= k < names_of(items).len() && names_of(items)[k] == want;
            if k > 0 {
                assert(names_of(t)[k - 1] == want);
            }
        }
        if names_of(t).contains(want) {
            let k = choose|k: int| 0 <= k < names_of(t).len() && names_of(t)[k] == want;
            assert(names_of(items)[k + 1] == want);
        }
        if items[0].spec_name() == want {
            assert(names_of(items)[0] == want);
        }
    }
}

/// A user-supplied plugin name normalized for lookup.
pub open spec fn normalized(name: Seq<char>) -> Seq<char> {
    to_lower(trim(name))
}

/// A static, ordered list of named plugins. The order is load-bearing:
/// `first`/`take_first` return the earliest match.
pub struct PluginSet<T: Plugin> {
    pub items: Vec<T>,
}

impl<T: Plugin> PluginSet<T> {
    /// Wrap a dimension's freshly-built plugin list.
    pub fn new(items: Vec<T>) -> (s: Self)
        ensures
            s.items@ == items@,
    {
        PluginSet { items }
    }

    /// The plugins in registration order.
    pub fn iter(&self) -> (r: &[T])
        ensures
            r@ == self.items@,
    {
        self.items.as_slice()
    }

    /// First plugin matching `pred`, in registration order.
    pub fn first<F: Fn(&T) -> bool>(&self, pred: F) -> (r: Option<&T>)
        requires
            forall|i: int| 0 <= i < self.items@.len() ==> pred.requires((&self.items@[i],)),
        ensures
            match r {
                Some(p) => exists|i: int|
                    0 <= i < self.items@.len() && self.items@[i] == *p && pred.ensures(
                        (&self.items@[i],),
                        true,
                    ) && forall|j: int|
                        0 <= j < i ==> pred.ensures((&self.items@[j],), false),
                None => forall|i: int|
                    0 <= i < self.items@.len() ==> pred.ensures((&self.items@[i],), false),
            },
    {
        match self.position(&pred) {
            Some(i) => Some(&self.items[i]),
            None => None,
        }
    }

    fn position<F: Fn(&T) -> bool>(&self, pred: &F) -> (r: Option<usize>)
        requires
            forall|i: int| 0 <= i < self.items@.len() ==> pred.requires((&self.items@[i],)),
        ensures
            match r {
                Some(i) => i < self.items@.len() && pred.ensures((&self.items@[i as int],), true)
                    && forall|j: int| 0 <= j < i ==> pred.ensures((&self.items@[j],), false),
                None => forall|i: int|
                    0 <= i < self.items@.len() ==> pred.ensures((&self.items@[i],), false),
            },
    {
        let mut i: usize = 0;
        while i < self.items.len()
            invariant
                i <= self.items@.len(),
                forall|k: int| 0 <= k < self.items@.len() ==> pred.requires((&self.items@[k],)),
                forall|j: int| 0 <= j < i ==> pred.ensures((&self.items@[j],), false),
            decreases self.items@.len() - i,
        {
            let hit = pred(&self.items[i]);
            if hit {
                return Some(i);
            }
            i = i + 1;
        }
        None
    }

    fn position_of_name(&self, want: &[char]) -> (r: Option<usize>)
        ensures
            match r {
                Some(i) => i < self.items@.len() && index_of_name(self.items@, want@) == i,
                None => index_of_name(self.items@, want@) == -1,
            },
    {
        let mut i: usize = 0;
        while i < self.items.len()
            invariant
                i <= self.items@.len(),
                forall|j: int| 0 <= j < i ==> (#[trigger] self.items@[j]).spec_name() != want@,
            decreases self.items@.len() - i,
        {
            let n = chars_of(self.items[i].name());
            if seq_eq(n.as_slice(), want) {
                proof {
                    lemma_index_of_name(self.items@, want@, i as int);
                }
                return Some(i);
            }
            i = i + 1;
        }
        proof {
            lemma_index_of_name(self.items@, want@, i as int);
        }
        None
    }

    /// Look up by canonical name, case-insensitively (surrounding whitespace
    /// ignored).
    pub fn get(&self, name: &str) -> (r: Option<&T>)
        ensures
            match r {
                Some(p) => {
                    let i = index_of_name(self.items@, normalized(name@));
                    0 <= i < self.items@.len() && *p == self.items@[i]
                },
                None => index_of_name(self.items@, normalized(name@)) == -1,
            },
    {
        let want = normalize(name);
        match self.position_of_name(want.as_slice()) {
            Some(i) => Some(&self.items[i]),
            None => None,
        }
    }

    /// Canonical names, in registration order.
    pub fn names(&self) -> (r: Vec<&'static str>)
        ensures
            r.deep_view() == names_of(self.items@),
    {
        let mut out: Vec<&'static str> = Vec::new();
        let mut i: usize = 0;
        while i < self.items.len()
            invariant
                i <= self.items@.len(),
                out.deep_view() == names_of(self.items@.take(i as int)),
            decreases self.items@.len() - i,
        {
            let ghost before = out.deep_view();
            let n = self.items[i].name();
            out.push(n);
            assert(out.deep_view() =~= before.push(self.items@[i as int].spec_name()));
            assert(self.items@.take(i + 1) =~= self.items@.take(i as int).push(self.items@[i as int]));
            assert(names_of(self.items@.take(i + 1)) =~= names_of(self.items@.take(i as int)).push(
                self.items@[i as int].spec_name(),
            ));
            i = i + 1;
        }
        assert(self.items@.take(self.items@.len() as int) =~= self.items@);
        out
    }

    /// Consuming lookup by canonical name, case-insensitively.
    pub fn take(self, name: &str) -> (r: Option<T>)
        ensures
            match r {
                Some(p) => {
                    let i = index_of_name(self.items@, normalized(name@));
                    0 <= i < self.items@.len() && p == self.items@[i]
                },
                None => index_of_name(self.items@, normalized(name@)) == -1,
            },
    {
        let want = normalize(name);
        match self.position_of_name(want.as_slice()) {
            Some(i) => {
                let mut items = self.items;
                Some(items.swap_remove(i))
            },
            None => None,
        }
    }

    /// Consuming first-match lookup (for order-sensitive resolution).
    pub fn take_first<F: Fn(&T) -> bool>(self, pred: F) -> (r: Option<T>)
        requires
            forall|i: int| 0 <= i < self.items@.len() ==> pred.requires((&self.items@[i],)),
        ensures
            match r {
                Some(p) => exists|i: int|
                    0 <= i < self.items@.len() && self.items@[i] == p && pred.ensures(
                        (&self.items@[i],),
                        true,
                    ) && forall|j: int|
                        0 <= j < i ==> pred.ensures((&self.items@[j],), false),
                None => forall|i: int|
                    0 <= i < self.items@.len() ==> pred.ensures((&self.items@[i],), false),
            },
    {
        match self.position(&pred) {
            Some(i) => {
                let mut items = self.items;
                Some(items.swap_remove(i))
            },
            None => None,
        }
    }
}

/// Normalize a user-supplied plugin name for case-insensitive lookup.
pub fn normalize(name: &str) -> (r: Vec<char>)
    ensures
        r@ == normalized(name@),
{
    let v = chars_of(name);
    lower_vec(trim_slice(v.as_slice()))
}

} // verus!
