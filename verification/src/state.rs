//! The UI state shared between the click handler and the aggregator: which
//! page is shown, and which item names are expanded. The aggregator reads it
//! on each tick; the click handler mutates it through the operations here.

use vstd::prelude::*;

verus! {

/// The shared UI state. Invariant expected by every reader: `page` stays
/// below the page count it was bounded by.
#[derive(Debug)]
pub struct State {
    pub page: usize,
    pub opened: Vec<String>,
}

/// The opened-name list as character sequences.
pub open spec fn opened_views(s: Seq<String>) -> Seq<Seq<char>> {
    s.map(|i: int, n: String| n@)
}

/// The list with every occurrence of `n` removed, order kept.
pub open spec fn remove_name(s: Seq<Seq<char>>, n: Seq<char>) -> Seq<Seq<char>>
    decreases s.len(),
{
    if s.len() == 0 {
        Seq::empty()
    } else if s[0] == n {
        remove_name(s.skip(1), n)
    } else {
        seq![s[0]] + remove_name(s.skip(1), n)
    }
}

/// One toggle of `n`: drop it when present, append it when absent.
pub open spec fn spec_toggle(s: Seq<Seq<char>>, n: Seq<char>) -> Seq<Seq<char>> {
    if s.contains(n) {
        remove_name(s, n)
    } else {
        s.push(n)
    }
}

proof fn lemma_remove_name_contains(s: Seq<Seq<char>>, n: Seq<char>, m: Seq<char>)
    ensures
        remove_name(s, n).contains(m) <==> (m != n && s.contains(m)),
    decreases s.len(),
{
    if s.len() == 0 {
    } else {
        lemma_remove_name_contains(s.skip(1), n, m);
        assert(s.contains(m) <==> (s[0] == m || s.skip(1).contains(m))) by {
            if s.contains(m) {
                let i = choose|i: int| 0 <= i < s.len() && s[i] == m;
                if i > 0 {
                    assert(s.skip(1)[i - 1] == m);
                }
            }
            if s.skip(1).contains(m) {
                let i = choose|i: int| 0 <= i < s.skip(1).len() && s.skip(1)[i] == m;
                assert(s[i + 1] == m);
            }
        }
        if s[0] != n {
            let rest = remove_name(s.skip(1), n);
            assert((seq![s[0]] + rest).contains(m) <==> (s[0] == m || rest.contains(m))) by {
                if (seq![s[0]] + rest).contains(m) {
                    let i = choose|i: int|
                        0 <= i < (seq![s[0]] + rest).len() && (seq![s[0]] + rest)[i] == m;
                    if i > 0 {
                        assert(rest[i - 1] == m);
                    }
                }
                if rest.contains(m) {
                    let i = choose|i: int| 0 <= i < rest.len() && rest[i] == m;
                    assert((seq![s[0]] + rest)[i + 1] == m);
                }
                if s[0] == m {
                    assert((seq![s[0]] + rest)[0] == m);
                }
            }
        }
    }
}

proof fn lemma_push_contains(s: Seq<Seq<char>>, x: Seq<char>, m: Seq<char>)
    ensures
        s.push(x).contains(m) <==> (s.contains(m) || m == x),
{
    if s.push(x).contains(m) {
        let i = choose|i: int| 0 <= i < s.push(x).len() && s.push(x)[i] == m;
        if i < s.len() {
            assert(s[i] == m);
        }
    }
    if s.contains(m) {
        let i = choose|i: int| 0 <= i < s.len() && s[i] == m;
        assert(s.push(x)[i] == m);
    }
    assert(s.push(x)[s.len() as int] == x);
}

/// Toggling the same name twice leaves membership as it was: a name present
/// before is present after, and one absent before is absent after, for every
/// name in the list.
pub proof fn lemma_toggle_twice(s: Seq<Seq<char>>, n: Seq<char>, m: Seq<char>)
    ensures
        spec_toggle(spec_toggle(s, n), n).contains(m) <==> s.contains(m),
{
    if s.contains(n) {
        let t1 = remove_name(s, n);
        lemma_remove_name_contains(s, n, n);
        lemma_remove_name_contains(s, n, m);
        lemma_push_contains(t1, n, m);
    } else {
        let t1 = s.push(n);
        lemma_push_contains(s, n, n);
        lemma_remove_name_contains(t1, n, m);
        lemma_push_contains(s, n, m);
    }
}

impl Default for State {
    /// The starting state: first page, nothing expanded.
    fn default() -> (r: Self)
        ensures
            r.page == 0,
            r.opened@.len() == 0,
    {
        State { page: 0, opened: Vec::new() }
    }
}

impl State {
    /// The page currently shown.
    pub fn current_page(&self) -> (r: usize)
        ensures
            r == self.page,
    {
        self.page
    }

    /// Move one page forward unless already on the last page.
    pub fn advance_page(&mut self, page_count: usize)
        requires
            old(self).page < page_count,
        ensures
            final(self).opened == old(self).opened,
            final(self).page as int == if old(self).page + 1 < page_count {
                old(self).page + 1
            } else {
                old(self).page as int
            },
            final(self).page < page_count,
    {
        if self.page + 1 < page_count {
            self.page = self.page + 1;
        }
    }

    /// Move one page back unless already on the first page.
    pub fn retreat_page(&mut self)
        ensures
            final(self).opened == old(self).opened,
            final(self).page as int == if old(self).page > 0 {
                old(self).page - 1
            } else {
                0
            },
    {
        if self.page > 0 {
            self.page = self.page - 1;
        }
    }

    /// True when `name` is in the expanded set.
    pub fn is_opened(&self, name: &String) -> (r: bool)
        ensures
            r == opened_views(self.opened@).contains(name@),
    {
        let ghost views = opened_views(self.opened@);
        let mut i: usize = 0;
        while i < self.opened.len()
            invariant
                i <= self.opened@.len(),
                views == opened_views(self.opened@),
                forall|k: int| 0 <= k < i ==> views[k] != name@,
            decreases self.opened@.len() - i,
        {
            if self.opened[i] == *name {
                proof {
                    assert(views[i as int] == name@);
                }
                return true;
            }
            i = i + 1;
        }
        proof {
            if views.contains(name@) {
                let k = choose|k: int| 0 <= k < views.len() && views[k] == name@;
                assert(views[k] != name@);
            }
        }
        false
    }

    /// Remove `name` from the expanded set when present, append it when
    /// absent; the page is untouched.
    pub fn toggle_expanded(&mut self, name: String)
        ensures
            final(self).page == old(self).page,
            opened_views(final(self).opened@) == spec_toggle(
                opened_views(old(self).opened@),
                name@,
            ),
    {
        let ghost views = opened_views(self.opened@);
        if self.is_opened(&name) {
            let mut kept: Vec<String> = Vec::new();
            let mut i: usize = 0;
            proof {
                assert(views.skip(0) =~= views);
                assert(opened_views(kept@) =~= Seq::<Seq<char>>::empty());
                assert(opened_views(kept@) + remove_name(views, name@) =~= remove_name(
                    views,
                    name@,
                ));
            }
            while i < self.opened.len()
                invariant
                    i <= self.opened@.len(),
                    views == opened_views(self.opened@),
                    remove_name(views, name@) == opened_views(kept@) + remove_name(
                        views.skip(i as int),
                        name@,
                    ),
                decreases self.opened@.len() - i,
            {
                let ghost rest = views.skip(i as int);
                proof {
                    assert(rest[0] == views[i as int]);
                    assert(rest.skip(1) =~= views.skip(i as int + 1));
                }
                if !(self.opened[i] == name) {
                    kept.push(self.opened[i].clone());
                    proof {
                        assert(opened_views(kept@) =~= opened_views(kept@.drop_last()).push(
                            self.opened@[i as int]@,
                        ));
                        assert(opened_views(kept@.drop_last()) + (seq![rest[0]] + remove_name(
                            rest.skip(1),
                            name@,
                        )) =~= opened_views(kept@) + remove_name(rest.skip(1), name@));
                    }
                }
                i = i + 1;
            }
            proof {
                assert(views.skip(views.len() as int) =~= Seq::<Seq<char>>::empty());
                assert(opened_views(kept@) + Seq::<Seq<char>>::empty() =~= opened_views(kept@));
            }
            self.opened = kept;
        } else {
            self.opened.push(name);
            proof {
                assert(opened_views(self.opened@) =~= views.push(name@));
            }
        }
    }
}

} // verus!
