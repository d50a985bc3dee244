//! Structural safety markers and sets of them.

use vstd::prelude::*;
use vstd::arithmetic::power2::pow2;
use vstd::arithmetic::power2::lemma_pow2_unfold;
use vstd::arithmetic::power2::lemma2_to64;
use crate::path::Path;
use crate::path::PathView;
use crate::path::str_eq;

verus! {

/// The closed set of structural safety markers.
///
/// `Send` is cross-thread transferability and `Sync` is safety under
/// concurrent shared access; the other three are the further recognised
/// qualifiers.
#[derive(Clone, Copy, Debug, PartialEq, Eq, Structural, Hash)]
pub enum AutoTrait {
    Sync,
    Send,
    Unpin,
    UnwindSafe,
    RefUnwindSafe,
}

impl AutoTrait {
    /// The identifier by which a declaration names this marker.
    pub open spec fn spec_name(self) -> Seq<char> {
        match self {
            AutoTrait::Sync => "Sync"@,
            AutoTrait::Send => "Send"@,
            AutoTrait::Unpin => "Unpin"@,
            AutoTrait::UnwindSafe => "UnwindSafe"@,
            AutoTrait::RefUnwindSafe => "RefUnwindSafe"@,
        }
    }

    /// The module of the standard library that defines this marker.
    pub open spec fn spec_module(self) -> Seq<char> {
        match self {
            AutoTrait::Sync | AutoTrait::Send | AutoTrait::Unpin => "marker"@,
            AutoTrait::UnwindSafe | AutoTrait::RefUnwindSafe => "panic"@,
        }
    }

    /// The absolute path of this marker, `::std::<module>::<name>`.
    pub open spec fn spec_path(self) -> PathView {
        PathView {
            leading_colon: true,
            segments: seq!["std"@, self.spec_module(), self.spec_name()],
        }
    }

    /// The identifier by which a declaration names this marker.
    pub fn name(self) -> (s: &'static str)
        ensures
            s@ == self.spec_name(),
    {
        match self {
            AutoTrait::Sync => "Sync",
            AutoTrait::Send => "Send",
            AutoTrait::Unpin => "Unpin",
            AutoTrait::UnwindSafe => "UnwindSafe",
            AutoTrait::RefUnwindSafe => "RefUnwindSafe",
        }
    }

    /// The marker that `name` identifies, if it identifies one.
    ///
    /// Only the five bare identifiers are recognised; paths and aliases are not.
    pub fn from_name(name: &str) -> (r: Option<AutoTrait>)
        ensures
            match r {
                Some(a) => a.spec_name() == name@,
                None => forall|a: AutoTrait| a.spec_name() != name@,
            },
    {
        if str_eq(name, "Sync") {
            Some(AutoTrait::Sync)
        } else if str_eq(name, "Send") {
            Some(AutoTrait::Send)
        } else if str_eq(name, "Unpin") {
            Some(AutoTrait::Unpin)
        } else if str_eq(name, "UnwindSafe") {
            Some(AutoTrait::UnwindSafe)
        } else if str_eq(name, "RefUnwindSafe") {
            Some(AutoTrait::RefUnwindSafe)
        } else {
            None
        }
    }

    /// The absolute path of this marker in the standard library.
    pub fn path(self) -> (p: Path)
        ensures
            p@ == self.spec_path(),
    {
        let mut p = Path::root(true);
        p.push("std");
        match self {
            AutoTrait::Sync | AutoTrait::Send | AutoTrait::Unpin => p.push("marker"),
            AutoTrait::UnwindSafe | AutoTrait::RefUnwindSafe => p.push("panic"),
        }
        p.push(self.name());
        assert(p@.segments =~= self.spec_path().segments);
        p
    }
}

/// The names of distinct markers are distinct.
pub proof fn lemma_names_distinct(a: AutoTrait, b: AutoTrait)
    requires
        a.spec_name() == b.spec_name(),
    ensures
        a == b,
{
    reveal_strlit("Sync");
    reveal_strlit("Send");
    reveal_strlit("Unpin");
    reveal_strlit("UnwindSafe");
    reveal_strlit("RefUnwindSafe");
    if a != b {
        assert("Sync"@.len() == 4 && "Send"@.len() == 4 && "Unpin"@.len() == 5);
        assert("UnwindSafe"@.len() == 10 && "RefUnwindSafe"@.len() == 13);
        assert("Sync"@[1] == 'y' && "Send"@[1] == 'e');
    }
}

/// A set of markers.
#[derive(Clone, Copy, Debug, PartialEq, Eq, Structural, Hash)]
pub struct MarkerSet {
    pub sync: bool,
    pub send: bool,
    pub unpin: bool,
    pub unwind_safe: bool,
    pub ref_unwind_safe: bool,
}

impl MarkerSet {
    /// The set without any marker.
    pub open spec fn spec_empty() -> MarkerSet {
        MarkerSet {
            sync: false,
            send: false,
            unpin: false,
            unwind_safe: false,
            ref_unwind_safe: false,
        }
    }

    /// Whether `a` is in the set.
    pub open spec fn has(self, a: AutoTrait) -> bool {
        match a {
            AutoTrait::Sync => self.sync,
            AutoTrait::Send => self.send,
            AutoTrait::Unpin => self.unpin,
            AutoTrait::UnwindSafe => self.unwind_safe,
            AutoTrait::RefUnwindSafe => self.ref_unwind_safe,
        }
    }

    /// The set with `a` added.
    pub open spec fn with(self, a: AutoTrait) -> MarkerSet {
        match a {
            AutoTrait::Sync => MarkerSet { sync: true, ..self },
            AutoTrait::Send => MarkerSet { send: true, ..self },
            AutoTrait::Unpin => MarkerSet { unpin: true, ..self },
            AutoTrait::UnwindSafe => MarkerSet { unwind_safe: true, ..self },
            AutoTrait::RefUnwindSafe => MarkerSet { ref_unwind_safe: true, ..self },
        }
    }

    /// The set with `a` removed.
    pub open spec fn without(self, a: AutoTrait) -> MarkerSet {
        match a {
            AutoTrait::Sync => MarkerSet { sync: false, ..self },
            AutoTrait::Send => MarkerSet { send: false, ..self },
            AutoTrait::Unpin => MarkerSet { unpin: false, ..self },
            AutoTrait::UnwindSafe => MarkerSet { unwind_safe: false, ..self },
            AutoTrait::RefUnwindSafe => MarkerSet { ref_unwind_safe: false, ..self },
        }
    }

    /// Whether every marker of this set is in `other`.
    pub open spec fn subset_of(self, other: MarkerSet) -> bool {
        &&& self.sync ==> other.sync
        &&& self.send ==> other.send
        &&& self.unpin ==> other.unpin
        &&& self.unwind_safe ==> other.unwind_safe
        &&& self.ref_unwind_safe ==> other.ref_unwind_safe
    }

    /// Whether the set holds both markers that shared-atomic pointers need:
    /// cross-thread transfer and safety under concurrent access.
    pub open spec fn thread_safe(self) -> bool {
        self.send && self.sync
    }

    /// The markers of `list` as a set.
    pub open spec fn of(list: Seq<AutoTrait>) -> MarkerSet
        decreases list.len(),
    {
        if list.len() == 0 {
            MarkerSet::spec_empty()
        } else {
            MarkerSet::of(list.drop_last()).with(list.last())
        }
    }

    /// The set without any marker.
    pub fn empty() -> (s: MarkerSet)
        ensures
            s == MarkerSet::spec_empty(),
    {
        MarkerSet {
            sync: false,
            send: false,
            unpin: false,
            unwind_safe: false,
            ref_unwind_safe: false,
        }
    }

    /// Whether `a` is in the set.
    pub fn contains(&self, a: AutoTrait) -> (r: bool)
        ensures
            r == self.has(a),
    {
        match a {
            AutoTrait::Sync => self.sync,
            AutoTrait::Send => self.send,
            AutoTrait::Unpin => self.unpin,
            AutoTrait::UnwindSafe => self.unwind_safe,
            AutoTrait::RefUnwindSafe => self.ref_unwind_safe,
        }
    }

    /// The set with `a` added.
    pub fn insert(&self, a: AutoTrait) -> (s: MarkerSet)
        ensures
            s == self.with(a),
    {
        let mut s = *self;
        match a {
            AutoTrait::Sync => { s.sync = true; },
            AutoTrait::Send => { s.send = true; },
            AutoTrait::Unpin => { s.unpin = true; },
            AutoTrait::UnwindSafe => { s.unwind_safe = true; },
            AutoTrait::RefUnwindSafe => { s.ref_unwind_safe = true; },
        }
        s
    }

    /// Whether every marker of this set is in `other`.
    pub fn is_subset_of(&self, other: &MarkerSet) -> (r: bool)
        ensures
            r == self.subset_of(*other),
    {
        (!self.sync || other.sync) && (!self.send || other.send) && (!self.unpin || other.unpin)
            && (!self.unwind_safe || other.unwind_safe) && (!self.ref_unwind_safe
            || other.ref_unwind_safe)
    }

    /// Whether shared-atomic pointers may be made for an object with these markers.
    pub fn is_thread_safe(&self) -> (r: bool)
        ensures
            r == self.thread_safe(),
    {
        self.send && self.sync
    }

    /// The markers of `list` as a set.
    pub fn from_list(list: &Vec<AutoTrait>) -> (s: MarkerSet)
        ensures
            s == MarkerSet::of(list@),
    {
        let mut s = MarkerSet::empty();
        let mut i: usize = 0;
        while i < list.len()
            invariant
                i <= list.len(),
                s == MarkerSet::of(list@.take(i as int)),
            decreases list.len() - i,
        {
            proof {
                assert(list@.take(i + 1).drop_last() =~= list@.take(i as int));
            }
            s = s.insert(list[i]);
            i += 1;
        }
        proof {
            assert(list@.take(list.len() as int) =~= list@);
        }
        s
    }
}

/// `MarkerSet::of` holds exactly the markers that occur in the list.
pub proof fn lemma_of_has(list: Seq<AutoTrait>, a: AutoTrait)
    ensures
        MarkerSet::of(list).has(a) == list.contains(a),
    decreases list.len(),
{
    if list.len() > 0 {
        lemma_of_has(list.drop_last(), a);
        if list.contains(a) {
            let i = choose|i: int| 0 <= i < list.len() && list[i] == a;
            if i < list.len() - 1 {
                assert(list.drop_last()[i] == a);
            }
        }
        if list.drop_last().contains(a) {
            let i = choose|i: int| 0 <= i < list.drop_last().len() && list.drop_last()[i] == a;
            assert(list[i] == a);
        }
        if list.last() == a {
            assert(list[list.len() - 1] == a);
        }
    }
}

/// All subsets of the markers of `list`, in generation order: for each
/// marker in turn, the subsets found so far are followed by a copy of each
/// with that marker added.
pub open spec fn subsets(list: Seq<AutoTrait>) -> Seq<MarkerSet>
    decreases list.len(),
{
    if list.len() == 0 {
        seq![MarkerSet::spec_empty()]
    } else {
        let before = subsets(list.drop_last());
        before + before.map_values(|s: MarkerSet| s.with(list.last()))
    }
}

/// There are `2^m` subsets of `m` markers.
pub proof fn lemma_subsets_len(list: Seq<AutoTrait>)
    ensures
        subsets(list).len() == pow2(list.len()),
    decreases list.len(),
{
    if list.len() == 0 {
        lemma2_to64();
    } else {
        lemma_subsets_len(list.drop_last());
        lemma_pow2_unfold(list.len());
    }
}

/// The generated subsets are exactly the sets within the declared markers.
pub proof fn lemma_subsets_contains(list: Seq<AutoTrait>, s: MarkerSet)
    ensures
        subsets(list).contains(s) == s.subset_of(MarkerSet::of(list)),
    decreases list.len(),
{
    if list.len() == 0 {
        if s.subset_of(MarkerSet::spec_empty()) {
            assert(s == MarkerSet::spec_empty());
            assert(subsets(list)[0] == s);
        }
    } else {
        let a = list.last();
        let before = subsets(list.drop_last());
        let added = before.map_values(|t: MarkerSet| t.with(a));
        let declared = MarkerSet::of(list.drop_last());
        lemma_subsets_contains(list.drop_last(), s);
        lemma_subsets_contains(list.drop_last(), s.without(a));
        if subsets(list).contains(s) {
            let i = choose|i: int| 0 <= i < subsets(list).len() && subsets(list)[i] == s;
            if i < before.len() {
                assert(before[i] == s);
                assert(before.contains(s));
            } else {
                let t = before[i - before.len()];
                assert(added[i - before.len()] == s);
                assert(before.contains(t));
                lemma_subsets_contains(list.drop_last(), t);
            }
        }
        if s.subset_of(declared.with(a)) {
            if s.subset_of(declared) {
                let i = choose|i: int| 0 <= i < before.len() && before[i] == s;
                assert(subsets(list)[i] == s);
            } else {
                let t = s.without(a);
                assert(t.subset_of(declared));
                assert(t.with(a) == s);
                let i = choose|i: int| 0 <= i < before.len() && before[i] == t;
                assert(added[i] == s);
                assert(subsets(list)[before.len() + i] == s);
            }
        }
    }
}

/// Markers declared once each give subsets that are pairwise distinct.
pub proof fn lemma_subsets_distinct(list: Seq<AutoTrait>)
    requires
        list.no_duplicates(),
    ensures
        subsets(list).no_duplicates(),
    decreases list.len(),
{
    if list.len() > 0 {
        let a = list.last();
        let before = subsets(list.drop_last());
        let added = before.map_values(|t: MarkerSet| t.with(a));
        lemma_subsets_distinct(list.drop_last());
        lemma_of_has(list.drop_last(), a);
        assert(!list.drop_last().contains(a)) by {
            if list.drop_last().contains(a) {
                let i = choose|i: int| 0 <= i < list.drop_last().len() && list.drop_last()[i] == a;
                assert(list[i] == list[list.len() - 1]);
            }
        }
        assert forall|i: int| 0 <= i < before.len() implies !(#[trigger] before[i]).has(a) by {
            assert(before.contains(before[i]));
            lemma_subsets_contains(list.drop_last(), before[i]);
        }
        assert forall|i: int, j: int|
            0 <= i < subsets(list).len() && 0 <= j < subsets(list).len() && i != j implies subsets(
            list,
        )[i] != subsets(list)[j] by {
            let n = before.len() as int;
            if i < n && j < n {
            } else if i >= n && j >= n {
                assert(added[i - n] == before[i - n].with(a));
                assert(added[j - n] == before[j - n].with(a));
                assert(before[i - n] != before[j - n]);
                assert(before[i - n].with(a).without(a) == before[i - n]);
                assert(before[j - n].with(a).without(a) == before[j - n]);
            } else if i < n {
                assert(added[j - n] == before[j - n].with(a));
                assert(added[j - n].has(a));
            } else {
                assert(added[i - n] == before[i - n].with(a));
                assert(added[i - n].has(a));
            }
        }
    }
}

/// All subsets of the declared markers, in generation order.
pub fn all_subsets(list: &Vec<AutoTrait>) -> (r: Vec<MarkerSet>)
    ensures
        r@ == subsets(list@),
{
    let mut sets: Vec<MarkerSet> = Vec::new();
    sets.push(MarkerSet::empty());
    let mut i: usize = 0;
    while i < list.len()
        invariant
            i <= list.len(),
            sets@ == subsets(list@.take(i as int)),
        decreases list.len() - i,
    {
        let a = list[i];
        let n = sets.len();
        let ghost before = sets@;
        let mut j: usize = 0;
        while j < n
            invariant
                j <= n,
                n == before.len(),
                sets@.len() == n + j,
                sets@.take(n as int) == before,
                forall|k: int| 0 <= k < j ==> sets@[n + k] == before[k].with(a),
            decreases n - j,
        {
            let ghost prev = sets@;
            let s = sets[j];
            assert(s == before[j as int]) by {
                assert(sets@.take(n as int)[j as int] == sets@[j as int]);
            }
            sets.push(s.insert(a));
            proof {
                assert(sets@.take(n as int) =~= prev.take(n as int));
            }
            j += 1;
        }
        proof {
            let next = list@.take(i + 1);
            assert(next.drop_last() =~= list@.take(i as int));
            assert(next.last() == a);
            let added = before.map_values(|s: MarkerSet| s.with(a));
            assert(sets@ =~= before + added) by {
                assert forall|k: int| 0 <= k < sets@.len() implies sets@[k] == (before + added)[k] by {
                    if k < n {
                        assert(sets@.take(n as int)[k] == sets@[k]);
                    } else {
                        assert(sets@[n + (k - n)] == before[k - n].with(a));
                    }
                }
            }
        }
        i += 1;
    }
    proof {
        assert(list@.take(list.len() as int) =~= list@);
    }
    sets
}

} // verus!
