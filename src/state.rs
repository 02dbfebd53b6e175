use vstd::prelude::*;
use crate::error::LaunchError;

verus! {

/// What a component record holds, as plain character sequences.
pub ghost enum ComponentView {
    Java { path: Seq<char>, arguments: Option<Seq<char>> },
    Game { version: Seq<char> },
}

/// A persisted record of an installed dependency.
#[derive(Debug)]
pub enum Component {
    /// The Java runtime: executable path and operator-supplied extra arguments.
    Java { path: String, arguments: Option<String> },
    /// The game itself, by version identifier.
    Game { version: String },
}

pub open spec fn opt_view(o: Option<String>) -> Option<Seq<char>> {
    match o {
        Some(s) => Some(s@),
        None => None,
    }
}

impl View for Component {
    type V = ComponentView;

    open spec fn view(&self) -> ComponentView {
        match self {
            Component::Java { path, arguments } => ComponentView::Java {
                path: path@,
                arguments: opt_view(*arguments),
            },
            Component::Game { version } => ComponentView::Game { version: version@ },
        }
    }
}

/// The record stored under `n`: the first entry with that name.
pub open spec fn lookup(s: Seq<(String, Component)>, n: Seq<char>) -> Option<ComponentView>
    decreases s.len(),
{
    if s.len() == 0 {
        None
    } else if s[0].0@ == n {
        Some(s[0].1@)
    } else {
        lookup(s.subrange(1, s.len() as int), n)
    }
}

/// No two entries share a name.
pub open spec fn names_unique(s: Seq<(String, Component)>) -> bool {
    forall|i: int, j: int|
        #![trigger s[i], s[j]]
        0 <= i < s.len() && 0 <= j < s.len() && i != j ==> s[i].0@ != s[j].0@
}

/// The installation state: component records by name.
#[derive(Debug)]
pub struct State {
    pub components: Vec<(String, Component)>,
}

impl View for State {
    type V = Map<Seq<char>, ComponentView>;

    open spec fn view(&self) -> Map<Seq<char>, ComponentView> {
        Map::new(
            |n: Seq<char>| lookup(self.components@, n) is Some,
            |n: Seq<char>| lookup(self.components@, n).unwrap(),
        )
    }
}

proof fn lemma_lookup_skip(s: Seq<(String, Component)>, n: Seq<char>, i: int)
    requires
        0 <= i <= s.len(),
        forall|j: int| 0 <= j < i ==> (#[trigger] s[j]).0@ != n,
    ensures
        lookup(s, n) == lookup(s.subrange(i, s.len() as int), n),
    decreases i,
{
    if i == 0 {
        assert(s.subrange(0, s.len() as int) =~= s);
    } else {
        let t = s.subrange(1, s.len() as int);
        assert forall|j: int| 0 <= j < i - 1 implies (#[trigger] t[j]).0@ != n by {
            assert(t[j] == s[j + 1]);
        }
        lemma_lookup_skip(t, n, i - 1);
        assert(t.subrange(i - 1, t.len() as int) =~= s.subrange(i, s.len() as int));
    }
}

proof fn lemma_lookup_update(s: Seq<(String, Component)>, i: int, e: (String, Component), n: Seq<char>)
    requires
        0 <= i < s.len(),
        s[i].0@ == e.0@,
    ensures
        lookup(s.update(i, e), n) == (if n == e.0@ && (forall|j: int| 0 <= j < i ==> (#[trigger] s[j]).0@ != n) {
            Some(e.1@)
        } else {
            lookup(s, n)
        }),
    decreases i,
{
    let t = s.update(i, e);
    if i == 0 {
        assert(t.subrange(1, t.len() as int) =~= s.subrange(1, s.len() as int));
    } else {
        let s1 = s.subrange(1, s.len() as int);
        assert(t.subrange(1, t.len() as int) =~= s1.update(i - 1, e));
        lemma_lookup_update(s1, i - 1, e, n);
        if s[0].0@ != n {
            assert((forall|j: int| 0 <= j < i - 1 ==> (#[trigger] s1[j]).0@ != n) == (forall|j: int|
                0 <= j < i ==> (#[trigger] s[j]).0@ != n)) by {
                if forall|j: int| 0 <= j < i - 1 ==> (#[trigger] s1[j]).0@ != n {
                    assert forall|j: int| 0 <= j < i implies (#[trigger] s[j]).0@ != n by {
                        if j > 0 {
                            assert(s1[j - 1] == s[j]);
                        }
                    }
                }
                if forall|j: int| 0 <= j < i ==> (#[trigger] s[j]).0@ != n {
                    assert forall|j: int| 0 <= j < i - 1 implies (#[trigger] s1[j]).0@ != n by {
                        assert(s1[j] == s[j + 1]);
                    }
                }
            }
        } else {
            assert(s[0].0@ == n);
        }
    }
}

proof fn lemma_lookup_push(s: Seq<(String, Component)>, e: (String, Component), n: Seq<char>)
    ensures
        lookup(s.push(e), n) == (if lookup(s, n) is None && n == e.0@ {
            Some(e.1@)
        } else {
            lookup(s, n)
        }),
    decreases s.len(),
{
    let t = s.push(e);
    if s.len() == 0 {
        assert(t[0] == e);
        assert(t.subrange(1, t.len() as int) =~= Seq::<(String, Component)>::empty());
        assert(lookup(t.subrange(1, t.len() as int), n) is None);
    } else {
        let s1 = s.subrange(1, s.len() as int);
        assert(t[0] == s[0]);
        assert(t.subrange(1, t.len() as int) =~= s1.push(e));
        lemma_lookup_push(s1, e, n);
    }
}

impl State {
    /// Each name has one entry at most, so the first entry of a name is its only one.
    pub open spec fn wf(&self) -> bool {
        names_unique(self.components@)
    }

    /// An empty state.
    pub fn new() -> (r: State)
        ensures
            r@ == Map::<Seq<char>, ComponentView>::empty(),
            r.wf(),
    {
        let r = State { components: Vec::new() };
        assert(r@ =~= Map::<Seq<char>, ComponentView>::empty());
        r
    }

    /// Stores `c` under `name`, replacing any earlier record of that name.
    pub fn insert(&mut self, name: String, c: Component)
        ensures
            final(self)@ == old(self)@.insert(name@, c@),
            old(self).wf() ==> final(self).wf(),
    {
        let ghost s = self.components@;
        let ghost k = name@;
        let ghost cv = c@;
        let mut i: usize = 0;
        while i < self.components.len()
            invariant
                self.components@ == s,
                s == old(self).components@,
                k == name@,
                cv == c@,
                i <= s.len(),
                forall|j: int| 0 <= j < i ==> (#[trigger] s[j]).0@ != k,
            decreases s.len() - i,
        {
            if crate::text::str_eq(self.components[i].0.as_str(), name.as_str()) {
                let ghost e = (name, c);
                self.components.set(i, (name, c));
                proof {
                    assert forall|n: Seq<char>| lookup(self.components@, n) == (if n == k {
                        Some(cv)
                    } else {
                        lookup(s, n)
                    }) by {
                        lemma_lookup_update(s, i as int, e, n);
                        if n == k {
                            assert forall|j: int| 0 <= j < i implies (#[trigger] s[j]).0@ != n by {}
                        }
                    }
                    assert(self@ =~= old(self)@.insert(k, cv));
                    assert forall|a: int, b: int| 0 <= a < s.len() && 0 <= b < s.len() implies #[trigger] self.components@[a].0@ == s[a].0@
                        && #[trigger] self.components@[b].0@ == s[b].0@ by {}
                }
                return;
            }
            i = i + 1;
        }
        let ghost e = (name, c);
        self.components.push((name, c));
        proof {
            lemma_lookup_skip(s, k, s.len() as int);
            assert(s.subrange(s.len() as int, s.len() as int) =~= Seq::<(String, Component)>::empty());
            assert forall|n: Seq<char>| lookup(self.components@, n) == (if n == k {
                Some(cv)
            } else {
                lookup(s, n)
            }) by {
                lemma_lookup_push(s, e, n);
            }
            assert(self@ =~= old(self)@.insert(k, cv));
            let t = self.components@;
            assert forall|a: int, b: int|
                #![trigger t[a], t[b]]
                old(self).wf() && 0 <= a < t.len() && 0 <= b < t.len() && a != b implies t[a].0@ != t[b].0@ by {
                if a < s.len() && b < s.len() {
                    assert(t[a] == s[a] && t[b] == s[b]);
                } else if a < s.len() {
                    assert(t[a] == s[a]);
                    assert(s[a].0@ != k);
                } else {
                    assert(t[b] == s[b]);
                    assert(s[b].0@ != k);
                }
            }
        }
    }

    /// The record stored under `name`.
    pub fn get_component(&self, name: &str) -> (r: Result<&Component, LaunchError>)
        ensures
            match r {
                Ok(c) => self@.contains_key(name@) && c@ == self@[name@],
                Err(LaunchError::ComponentNotFound(n)) => !self@.contains_key(name@) && n@ == name@,
                Err(_) => false,
            },
    {
        let ghost s = self.components@;
        let mut i: usize = 0;
        while i < self.components.len()
            invariant
                self.components@ == s,
                i <= s.len(),
                forall|j: int| 0 <= j < i ==> (#[trigger] s[j]).0@ != name@,
            decreases s.len() - i,
        {
            if crate::text::str_eq(self.components[i].0.as_str(), name) {
                proof {
                    lemma_lookup_skip(s, name@, i as int);
                }
                return Ok(&self.components[i].1);
            }
            i = i + 1;
        }
        proof {
            lemma_lookup_skip(s, name@, s.len() as int);
        }
        Err(LaunchError::ComponentNotFound(String::from_str(name)))
    }
}

} // verus!
