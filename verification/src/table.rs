//! The castable set of a concrete type and its generation.
//!
//! For a type that declares `n` interfaces and `m` markers the castable set
//! holds the type itself and, for the two capabilities that are always there
//! and for each declared interface, one view for every subset of the
//! declared markers: `1 + (n + 2) * 2^m` identifiers in all.

use vstd::prelude::*;
use vstd::string::StringExecFns;
use vstd::arithmetic::power2::pow2;
use crate::config::ConfigError;
use crate::config::contains_marker;
use crate::config::contains_path;
use crate::config::paths_view;
use crate::config::with_base;
use crate::marker::all_subsets;
use crate::marker::lemma_subsets_contains;
use crate::marker::lemma_subsets_distinct;
use crate::marker::lemma_subsets_len;
use crate::marker::subsets;
use crate::marker::AutoTrait;
use crate::marker::MarkerSet;
use crate::path::Path;
use crate::path::PathView;
use crate::view_id::ids_view;
use crate::view_id::Base;
use crate::view_id::BaseView;
use crate::view_id::ViewId;
use crate::view_id::ViewIdView;

verus! {

/// The markers that hold where a declaration names none: cross-thread
/// transfer and safety under concurrent access.
pub open spec fn default_markers() -> Seq<AutoTrait> {
    seq![AutoTrait::Send, AutoTrait::Sync]
}

/// The markers that a declaration stands for: the list it gives, taken as
/// it is even when empty, or the default where it gives none.
pub open spec fn markers_or_default(auto_traits: Option<Seq<AutoTrait>>) -> Seq<AutoTrait> {
    match auto_traits {
        Some(m) => m,
        None => default_markers(),
    }
}

/// The paths of `s`, each once, in the order in which they first occur.
pub open spec fn distinct_paths(s: Seq<PathView>) -> Seq<PathView>
    decreases s.len(),
{
    if s.len() == 0 {
        Seq::empty()
    } else {
        with_base(distinct_paths(s.drop_last()), s.last())
    }
}

/// The capabilities on which views are built: the two that every type has,
/// followed by the declared interfaces.
pub open spec fn bases_of(interfaces: Seq<PathView>) -> Seq<BaseView> {
    seq![BaseView::Any, BaseView::DynCast] + interfaces.map_values(|p: PathView| BaseView::Trait(p))
}

/// The views of one capability, one for each of the given marker sets.
pub open spec fn views_of_base(base: BaseView, sets: Seq<MarkerSet>) -> Seq<ViewIdView> {
    sets.map_values(|m: MarkerSet| ViewIdView::Object { base, markers: m })
}

/// The views of each capability in turn.
pub open spec fn views_of_bases(bases: Seq<BaseView>, sets: Seq<MarkerSet>) -> Seq<ViewIdView>
    decreases bases.len(),
{
    if bases.len() == 0 {
        Seq::empty()
    } else {
        views_of_bases(bases.drop_last(), sets) + views_of_base(bases.last(), sets)
    }
}

/// The castable set in generation order: the concrete type, then every
/// capability combined with every subset of the declared markers.
pub open spec fn castable_seq(
    concrete: Seq<char>,
    interfaces: Seq<PathView>,
    markers: Seq<AutoTrait>,
) -> Seq<ViewIdView> {
    seq![ViewIdView::Concrete(concrete)] + views_of_bases(bases_of(interfaces), subsets(markers))
}

/// Whether a cast to `id` succeeds for the type called `concrete` that
/// declares `interfaces` and `markers`.
///
/// The type itself is castable. A view of a capability is castable when the
/// capability is one of the two that are always there or a declared
/// interface, and every marker of the view is declared.
pub open spec fn castable_to(
    concrete: Seq<char>,
    interfaces: Seq<PathView>,
    markers: Seq<AutoTrait>,
    id: ViewIdView,
) -> bool {
    match id {
        ViewIdView::Concrete(name) => name == concrete,
        ViewIdView::Object { base, markers: wanted } => {
            &&& wanted.subset_of(MarkerSet::of(markers))
            &&& match base {
                BaseView::Any | BaseView::DynCast => true,
                BaseView::Trait(p) => interfaces.contains(p),
            }
        },
    }
}

/// `distinct_paths` keeps exactly the paths of its argument, each once.
pub proof fn lemma_distinct_paths(s: Seq<PathView>)
    ensures
        distinct_paths(s).no_duplicates(),
        forall|p: PathView| distinct_paths(s).contains(p) == s.contains(p),
        s.no_duplicates() ==> distinct_paths(s) == s,
    decreases s.len(),
{
    if s.len() > 0 {
        let before = s.drop_last();
        lemma_distinct_paths(before);
        let d = distinct_paths(before);
        let r = distinct_paths(s);
        assert forall|p: PathView| r.contains(p) == s.contains(p) by {
            assert(s.contains(p) == (before.contains(p) || p == s.last())) by {
                if s.contains(p) {
                    let i = choose|i: int| 0 <= i < s.len() && s[i] == p;
                    if i < s.len() - 1 {
                        assert(before[i] == p);
                    }
                }
                if before.contains(p) {
                    let i = choose|i: int| 0 <= i < before.len() && before[i] == p;
                    assert(s[i] == p);
                }
                assert(s[s.len() - 1] == s.last());
            }
            assert(r.contains(p) == (d.contains(p) || p == s.last())) by {
                if !d.contains(s.last()) {
                    assert(r[d.len() as int] == s.last());
                    if r.contains(p) {
                        let i = choose|i: int| 0 <= i < r.len() && r[i] == p;
                        if i < d.len() {
                            assert(d[i] == p);
                        }
                    }
                    if d.contains(p) {
                        let i = choose|i: int| 0 <= i < d.len() && d[i] == p;
                        assert(r[i] == p);
                    }
                }
            }
            assert(d.contains(p) == before.contains(p));
        }
        if s.no_duplicates() {
            assert(before.no_duplicates());
            assert(!before.contains(s.last())) by {
                if before.contains(s.last()) {
                    let i = choose|i: int| 0 <= i < before.len() && before[i] == s.last();
                    assert(s[i] == s[s.len() - 1]);
                }
            }
            assert(d.push(s.last()) =~= s);
        }
    }
}

/// The capabilities are the two fixed ones and the declared interfaces.
pub proof fn lemma_bases_of(interfaces: Seq<PathView>)
    ensures
        bases_of(interfaces).len() == interfaces.len() + 2,
        forall|b: BaseView|
            bases_of(interfaces).contains(b) == match b {
                BaseView::Any | BaseView::DynCast => true,
                BaseView::Trait(p) => interfaces.contains(p),
            },
        interfaces.no_duplicates() ==> bases_of(interfaces).no_duplicates(),
{
    let bases = bases_of(interfaces);
    let traits = interfaces.map_values(|p: PathView| BaseView::Trait(p));
    assert(bases[0] == BaseView::Any);
    assert(bases[1] == BaseView::DynCast);
    assert forall|b: BaseView|
        bases.contains(b) == match b {
            BaseView::Any | BaseView::DynCast => true,
            BaseView::Trait(p) => interfaces.contains(p),
        } by {
        if bases.contains(b) {
            let i = choose|i: int| 0 <= i < bases.len() && bases[i] == b;
            if i >= 2 {
                assert(bases[i] == traits[i - 2]);
                assert(interfaces[i - 2] == b->Trait_0);
            }
        }
        if let BaseView::Trait(p) = b {
            if interfaces.contains(p) {
                let i = choose|i: int| 0 <= i < interfaces.len() && interfaces[i] == p;
                assert(bases[i + 2] == traits[i]);
            }
        }
    }
    if interfaces.no_duplicates() {
        assert forall|i: int, j: int| 0 <= i < bases.len() && 0 <= j < bases.len() && i != j implies bases[i]
            != bases[j] by {
            if i >= 2 {
                assert(bases[i] == traits[i - 2]);
            }
            if j >= 2 {
                assert(bases[j] == traits[j - 2]);
            }
        }
    }
}

/// Each capability contributes one view for each marker set.
pub proof fn lemma_views_of_bases_len(bases: Seq<BaseView>, sets: Seq<MarkerSet>)
    ensures
        views_of_bases(bases, sets).len() == bases.len() * sets.len(),
    decreases bases.len(),
{
    if bases.len() > 0 {
        lemma_views_of_bases_len(bases.drop_last(), sets);
        assert((bases.len() - 1) * sets.len() + sets.len() == bases.len() * sets.len())
            by (nonlinear_arith);
    } else {
        assert(0 * sets.len() == 0);
    }
}

/// The generated views are exactly the pairs of a capability and a marker set.
pub proof fn lemma_views_of_bases_contains(
    bases: Seq<BaseView>,
    sets: Seq<MarkerSet>,
    id: ViewIdView,
)
    ensures
        views_of_bases(bases, sets).contains(id) == (id matches ViewIdView::Object { base, markers }
            && bases.contains(base) && sets.contains(markers)),
    decreases bases.len(),
{
    if bases.len() > 0 {
        let before = views_of_bases(bases.drop_last(), sets);
        let last = views_of_base(bases.last(), sets);
        let all = views_of_bases(bases, sets);
        lemma_views_of_bases_contains(bases.drop_last(), sets, id);
        if all.contains(id) {
            let i = choose|i: int| 0 <= i < all.len() && all[i] == id;
            if i < before.len() {
                assert(before[i] == id);
                assert(before.contains(id));
                let k = choose|k: int|
                    0 <= k < bases.drop_last().len() && bases.drop_last()[k] == id->base;
                assert(bases[k] == id->base);
            } else {
                assert(last[i - before.len()] == id);
                assert(bases[bases.len() - 1] == id->base);
                assert(sets[i - before.len()] == id->markers);
            }
        }
        if let ViewIdView::Object { base, markers } = id {
            if bases.contains(base) && sets.contains(markers) {
                let k = choose|k: int| 0 <= k < bases.len() && bases[k] == base;
                let j = choose|j: int| 0 <= j < sets.len() && sets[j] == markers;
                if k < bases.len() - 1 {
                    assert(bases.drop_last()[k] == base);
                    assert(before.contains(id));
                    let i = choose|i: int| 0 <= i < before.len() && before[i] == id;
                    assert(all[i] == id);
                } else {
                    assert(last[j] == id);
                    assert(all[before.len() + j] == id);
                }
            }
        }
    }
}

/// Distinct capabilities and distinct marker sets give distinct views.
pub proof fn lemma_views_of_bases_distinct(bases: Seq<BaseView>, sets: Seq<MarkerSet>)
    requires
        bases.no_duplicates(),
        sets.no_duplicates(),
    ensures
        views_of_bases(bases, sets).no_duplicates(),
    decreases bases.len(),
{
    if bases.len() > 0 {
        let before = views_of_bases(bases.drop_last(), sets);
        let last = views_of_base(bases.last(), sets);
        lemma_views_of_bases_distinct(bases.drop_last(), sets);
        assert forall|i: int, j: int| 0 <= i < before.len() && 0 <= j < last.len() implies before[i]
            != last[j] by {
            assert(before.contains(before[i]));
            lemma_views_of_bases_contains(bases.drop_last(), sets, before[i]);
            if before[i] == last[j] {
                let k = choose|k: int|
                    0 <= k < bases.drop_last().len() && bases.drop_last()[k] == bases.last();
                assert(bases[k] == bases[bases.len() - 1]);
            }
        }
        vstd::seq_lib::lemma_no_dup_in_concat(before, last);
    }
}

/// The generated castable set holds exactly the identifiers to which a cast
/// succeeds.
pub proof fn lemma_castable_seq_contains(
    concrete: Seq<char>,
    interfaces: Seq<PathView>,
    markers: Seq<AutoTrait>,
    id: ViewIdView,
)
    ensures
        castable_seq(concrete, interfaces, markers).contains(id) == castable_to(
            concrete,
            interfaces,
            markers,
            id,
        ),
{
    let all = castable_seq(concrete, interfaces, markers);
    let views = views_of_bases(bases_of(interfaces), subsets(markers));
    lemma_views_of_bases_contains(bases_of(interfaces), subsets(markers), id);
    lemma_bases_of(interfaces);
    if let ViewIdView::Object { base, markers: wanted } = id {
        lemma_subsets_contains(markers, wanted);
    }
    if all.contains(id) {
        let i = choose|i: int| 0 <= i < all.len() && all[i] == id;
        if i > 0 {
            assert(views[i - 1] == id);
            assert(views.contains(id));
        }
    }
    if views.contains(id) {
        let i = choose|i: int| 0 <= i < views.len() && views[i] == id;
        assert(all[i + 1] == id);
    }
    if id == ViewIdView::Concrete(concrete) {
        assert(all[0] == id);
    }
}

/// The generated castable set has `1 + (n + 2) * 2^m` entries.
pub proof fn lemma_castable_seq_len(
    concrete: Seq<char>,
    interfaces: Seq<PathView>,
    markers: Seq<AutoTrait>,
)
    ensures
        castable_seq(concrete, interfaces, markers).len() == 1 + (interfaces.len() + 2) * pow2(
            markers.len(),
        ),
{
    lemma_views_of_bases_len(bases_of(interfaces), subsets(markers));
    lemma_subsets_len(markers);
    lemma_bases_of(interfaces);
}

/// Where no interface and no marker is declared twice, no identifier is
/// generated twice.
pub proof fn lemma_castable_seq_distinct(
    concrete: Seq<char>,
    interfaces: Seq<PathView>,
    markers: Seq<AutoTrait>,
)
    requires
        interfaces.no_duplicates(),
        markers.no_duplicates(),
    ensures
        castable_seq(concrete, interfaces, markers).no_duplicates(),
{
    let first = seq![ViewIdView::Concrete(concrete)];
    let views = views_of_bases(bases_of(interfaces), subsets(markers));
    lemma_bases_of(interfaces);
    lemma_subsets_distinct(markers);
    lemma_views_of_bases_distinct(bases_of(interfaces), subsets(markers));
    assert forall|i: int, j: int| 0 <= i < first.len() && 0 <= j < views.len() implies first[i]
        != views[j] by {
        assert(views.contains(views[j]));
        lemma_views_of_bases_contains(bases_of(interfaces), subsets(markers), views[j]);
    }
    vstd::seq_lib::lemma_no_dup_in_concat(first, views);
}

/// The paths of `paths`, each once, in the order in which they first occur.
pub fn distinct(paths: &Vec<Path>) -> (r: Vec<Path>)
    ensures
        paths_view(r@) == distinct_paths(paths_view(paths@)),
{
    let mut out: Vec<Path> = Vec::new();
    let mut i: usize = 0;
    assert(paths_view(paths@).take(0) =~= Seq::<PathView>::empty());
    assert(paths_view(out@) =~= Seq::<PathView>::empty());
    while i < paths.len()
        invariant
            i <= paths.len(),
            paths_view(out@) == distinct_paths(paths_view(paths@).take(i as int)),
        decreases paths.len() - i,
    {
        proof {
            let next = paths_view(paths@).take(i + 1);
            assert(next.drop_last() =~= paths_view(paths@).take(i as int));
            assert(next.last() == paths@[i as int]@);
        }
        if !contains_path(&out, &paths[i]) {
            let ghost before = paths_view(out@);
            out.push(paths[i].duplicate());
            assert(paths_view(out@) =~= before.push(paths@[i as int]@));
        }
        i += 1;
    }
    assert(paths_view(paths@).take(paths.len() as int) =~= paths_view(paths@));
    out
}

/// Whether no marker occurs twice in `markers`.
pub fn all_distinct(markers: &Vec<AutoTrait>) -> (r: bool)
    ensures
        r == markers@.no_duplicates(),
{
    let mut seen: Vec<AutoTrait> = Vec::new();
    let mut i: usize = 0;
    while i < markers.len()
        invariant
            i <= markers.len(),
            seen@ == markers@.take(i as int),
            seen@.no_duplicates(),
        decreases markers.len() - i,
    {
        if contains_marker(&seen, markers[i]) {
            proof {
                let k = choose|k: int| 0 <= k < seen@.len() && seen@[k] == markers@[i as int];
                assert(markers@[k] == markers@[i as int]);
            }
            return false;
        }
        seen.push(markers[i]);
        assert(seen@ =~= markers@.take(i + 1));
        i += 1;
    }
    assert(markers@.take(markers.len() as int) =~= markers@);
    true
}

/// Adds to `out` the views of `base`, one for each of `sets`, in order.
fn push_views(out: &mut Vec<ViewId>, base: &Base, sets: &Vec<MarkerSet>)
    ensures
        ids_view(final(out)@) == ids_view(old(out)@) + views_of_base(base@, sets@),
{
    let ghost start = ids_view(out@);
    let mut j: usize = 0;
    assert(ids_view(out@) =~= start + views_of_base(base@, sets@).take(0));
    while j < sets.len()
        invariant
            j <= sets.len(),
            ids_view(out@) == start + views_of_base(base@, sets@).take(j as int),
        decreases sets.len() - j,
    {
        let ghost before = ids_view(out@);
        out.push(ViewId::Object { base: base.duplicate(), markers: sets[j] });
        proof {
            let views = views_of_base(base@, sets@);
            assert(ids_view(out@) =~= before.push(views[j as int]));
            assert(views.take(j + 1) =~= views.take(j as int).push(views[j as int]));
            assert(ids_view(out@) =~= start + views.take(j + 1));
        }
        j += 1;
    }
    assert(views_of_base(base@, sets@).take(sets.len() as int) =~= views_of_base(base@, sets@));
}

/// The castable set of one concrete type, fixed when it is generated.
#[derive(Debug)]
pub struct CastTable {
    concrete: String,
    base_traits: Vec<Path>,
    auto_traits: Vec<AutoTrait>,
    castable: Vec<ViewId>,
}

impl CastTable {
    /// The name of the concrete type.
    pub closed spec fn concrete(&self) -> Seq<char> {
        self.concrete@
    }

    /// The declared interfaces, each once.
    pub closed spec fn interfaces(&self) -> Seq<PathView> {
        paths_view(self.base_traits@)
    }

    /// The declared markers, each once.
    pub closed spec fn markers(&self) -> Seq<AutoTrait> {
        self.auto_traits@
    }

    /// The castable set in generation order.
    pub closed spec fn ids(&self) -> Seq<ViewIdView> {
        ids_view(self.castable@)
    }

    /// The table holds what generation gives for its declaration.
    #[verifier::type_invariant]
    pub closed spec fn wf(&self) -> bool {
        &&& self.interfaces().no_duplicates()
        &&& self.markers().no_duplicates()
        &&& self.ids() == castable_seq(self.concrete(), self.interfaces(), self.markers())
    }

    /// Whether a cast to `id` succeeds.
    pub open spec fn castable(&self, id: ViewIdView) -> bool {
        castable_to(self.concrete(), self.interfaces(), self.markers(), id)
    }

    /// The castable set: the identifiers to which a cast succeeds.
    pub open spec fn castable_set(&self) -> Set<ViewIdView> {
        Set::new(|id: ViewIdView| self.castable(id))
    }

    /// Whether shared-atomic pointers can be cast at all: both thread
    /// markers are declared.
    pub open spec fn atomic(&self) -> bool {
        MarkerSet::of(self.markers()).thread_safe()
    }

    /// What a well-formed table holds.
    pub proof fn lemma_wf(self)
        requires
            self.wf(),
        ensures
            self.interfaces().no_duplicates(),
            self.markers().no_duplicates(),
            self.ids() == castable_seq(self.concrete(), self.interfaces(), self.markers()),
            self.ids().no_duplicates(),
            self.ids().len() == 1 + (self.interfaces().len() + 2) * pow2(self.markers().len()),
            forall|id: ViewIdView| self.ids().contains(id) == self.castable(id),
    {
        lemma_castable_seq_distinct(self.concrete(), self.interfaces(), self.markers());
        lemma_castable_seq_len(self.concrete(), self.interfaces(), self.markers());
        assert forall|id: ViewIdView| self.ids().contains(id) == self.castable(id) by {
            lemma_castable_seq_contains(self.concrete(), self.interfaces(), self.markers(), id);
        }
    }

    /// Shared-atomic casting is possible exactly where the
    /// reflectable-object capability with both thread markers is castable.
    pub proof fn lemma_atomic(self)
        ensures
            self.castable(ViewIdView::thread_safe_any()) == self.atomic(),
    {
    }

    /// Generates the castable set of the type called `concrete` from its
    /// declared interfaces and markers.
    ///
    /// An interface that is declared more than once counts once. Where
    /// `auto_traits` is `None` the markers are the default pair; a list that
    /// is given is used as it stands, also when it is empty, and is refused
    /// when it names a marker twice.
    pub fn generate(
        concrete: &str,
        base_traits: &Vec<Path>,
        auto_traits: Option<&Vec<AutoTrait>>,
    ) -> (r: Result<CastTable, ConfigError>)
        ensures
            r is Ok == (auto_traits matches Some(m) ==> m@.no_duplicates()),
            match r {
                Ok(t) => {
                    &&& t.wf()
                    &&& t.concrete() == concrete@
                    &&& t.interfaces() == distinct_paths(paths_view(base_traits@))
                    &&& t.markers() == markers_or_default(
                        match auto_traits {
                            Some(m) => Some(m@),
                            None => None,
                        },
                    )
                    &&& t.markers().no_duplicates()
                },
                Err(e) => {
                    &&& e == ConfigError::DuplicateMarker
                    &&& auto_traits matches Some(m) && !m@.no_duplicates()
                },
            },
    {
        let mut markers: Vec<AutoTrait> = Vec::new();
        match auto_traits {
            Some(m) => {
                if !all_distinct(m) {
                    return Err(ConfigError::DuplicateMarker);
                }
                let mut i: usize = 0;
                while i < m.len()
                    invariant
                        i <= m.len(),
                        markers@ == m@.take(i as int),
                    decreases m.len() - i,
                {
                    markers.push(m[i]);
                    assert(markers@ =~= m@.take(i + 1));
                    i += 1;
                }
                assert(m@.take(m.len() as int) =~= m@);
            },
            None => {
                markers.push(AutoTrait::Send);
                markers.push(AutoTrait::Sync);
                assert(markers@ =~= default_markers());
            },
        }
        let interfaces = distinct(base_traits);
        proof {
            lemma_distinct_paths(paths_view(base_traits@));
        }
        let sets = all_subsets(&markers);
        let ghost bases = bases_of(paths_view(interfaces@));
        let ghost first = seq![ViewIdView::Concrete(concrete@)];
        let mut castable: Vec<ViewId> = Vec::new();
        castable.push(ViewId::concrete(concrete));
        assert(ids_view(castable@) =~= first);
        push_views(&mut castable, &Base::Any, &sets);
        push_views(&mut castable, &Base::DynCast, &sets);
        proof {
            assert(bases.take(2) =~= seq![BaseView::Any, BaseView::DynCast]);
            assert(bases.take(2).drop_last() =~= seq![BaseView::Any]);
            assert(bases.take(2).drop_last().drop_last() =~= Seq::<BaseView>::empty());
            reveal_with_fuel(views_of_bases, 3);
            assert(views_of_bases(bases.take(2), sets@) =~= views_of_base(BaseView::Any, sets@)
                + views_of_base(BaseView::DynCast, sets@));
            assert(ids_view(castable@) =~= first + views_of_bases(bases.take(2), sets@));
        }
        let mut k: usize = 0;
        while k < interfaces.len()
            invariant
                k <= interfaces.len(),
                bases == bases_of(paths_view(interfaces@)),
                bases.len() == interfaces.len() + 2,
                ids_view(castable@) == first + views_of_bases(bases.take(2 + k), sets@),
            decreases interfaces.len() - k,
        {
            let base = Base::Trait(interfaces[k].duplicate());
            proof {
                let next = bases.take(2 + k + 1);
                assert(next.drop_last() =~= bases.take(2 + k));
                assert(next.last() == base@);
            }
            push_views(&mut castable, &base, &sets);
            k += 1;
        }
        proof {
            assert(bases.take(2 + interfaces.len()) =~= bases);
        }
        Ok(
            CastTable {
                concrete: String::from_str(concrete),
                base_traits: interfaces,
                auto_traits: markers,
                castable,
            },
        )
    }
}

impl CastTable {
    /// The name of the concrete type.
    pub fn name(&self) -> (s: &String)
        ensures
            s@ == self.concrete(),
    {
        &self.concrete
    }

    /// The declared interfaces, each once, in the order of declaration.
    pub fn base_traits(&self) -> (v: &Vec<Path>)
        ensures
            paths_view(v@) == self.interfaces(),
    {
        &self.base_traits
    }

    /// The declared markers, each once, in the order of declaration.
    pub fn auto_traits(&self) -> (v: &Vec<AutoTrait>)
        ensures
            v@ == self.markers(),
    {
        &self.auto_traits
    }

    /// The identifier of the concrete type itself.
    pub fn concrete_id(&self) -> (id: ViewId)
        ensures
            id@ == ViewIdView::Concrete(self.concrete()),
            self.castable(id@),
    {
        ViewId::Concrete(self.concrete.clone())
    }

    /// The size of the castable set.
    pub fn len(&self) -> (n: usize)
        ensures
            n == self.ids().len(),
            n == 1 + (self.interfaces().len() + 2) * pow2(self.markers().len()),
    {
        proof {
            use_type_invariant(self);
            self.lemma_wf();
        }
        self.castable.len()
    }

    /// Whether shared-atomic pointers can be cast at all.
    pub fn is_atomic(&self) -> (r: bool)
        ensures
            r == self.atomic(),
    {
        MarkerSet::from_list(&self.auto_traits).is_thread_safe()
    }

    /// Scans the castable set in generation order for `to` and returns the
    /// place of the first match.
    pub fn position(&self, to: &ViewId) -> (r: Option<usize>)
        ensures
            r is Some == self.castable(to@),
            r matches Some(i) ==> {
                &&& i < self.ids().len()
                &&& self.ids()[i as int] == to@
                &&& forall|k: int| 0 <= k < i ==> self.ids()[k] != to@
            },
    {
        proof {
            use_type_invariant(self);
            self.lemma_wf();
        }
        let mut i: usize = 0;
        while i < self.castable.len()
            invariant
                i <= self.castable.len(),
                forall|k: int| 0 <= k < i ==> self.ids()[k] != to@,
                forall|id: ViewIdView| self.ids().contains(id) == self.castable(id),
            decreases self.castable.len() - i,
        {
            if self.castable[i].same(to) {
                assert(self.ids()[i as int] == to@);
                assert(self.ids().contains(to@));
                return Some(i);
            }
            i += 1;
        }
        assert(!self.ids().contains(to@));
        None
    }

    /// Whether a cast to `to` succeeds: whether `to` is in the castable set.
    pub fn can_cast(&self, to: &ViewId) -> (r: bool)
        ensures
            r == self.castable(to@),
    {
        self.position(to).is_some()
    }

    /// The identifiers to which a cast succeeds, in generation order.
    pub fn castable_types(&self) -> (v: Vec<ViewId>)
        ensures
            ids_view(v@) == self.ids(),
            forall|id: ViewIdView| ids_view(v@).contains(id) == self.castable(id),
    {
        proof {
            use_type_invariant(self);
            self.lemma_wf();
        }
        let mut out: Vec<ViewId> = Vec::new();
        let mut i: usize = 0;
        while i < self.castable.len()
            invariant
                i <= self.castable.len(),
                ids_view(out@) == self.ids().take(i as int),
            decreases self.castable.len() - i,
        {
            let ghost before = ids_view(out@);
            out.push(self.castable[i].duplicate());
            assert(ids_view(out@) =~= before.push(self.ids()[i as int]));
            assert(ids_view(out@) =~= self.ids().take(i + 1));
            i += 1;
        }
        assert(self.ids().take(self.castable.len() as int) =~= self.ids());
        out
    }
}

impl CastTable {
    /// A copy of this table.
    pub fn duplicate(&self) -> (t: CastTable)
        ensures
            t.wf(),
            t.concrete() == self.concrete(),
            t.interfaces() == self.interfaces(),
            t.markers() == self.markers(),
            t.ids() == self.ids(),
    {
        proof {
            use_type_invariant(self);
        }
        let mut base_traits: Vec<Path> = Vec::new();
        let mut i: usize = 0;
        while i < self.base_traits.len()
            invariant
                i <= self.base_traits.len(),
                paths_view(base_traits@) == self.interfaces().take(i as int),
            decreases self.base_traits.len() - i,
        {
            let ghost before = paths_view(base_traits@);
            base_traits.push(self.base_traits[i].duplicate());
            assert(paths_view(base_traits@) =~= before.push(self.interfaces()[i as int]));
            assert(paths_view(base_traits@) =~= self.interfaces().take(i + 1));
            i += 1;
        }
        assert(self.interfaces().take(self.base_traits.len() as int) =~= self.interfaces());
        let mut auto_traits: Vec<AutoTrait> = Vec::new();
        let mut j: usize = 0;
        while j < self.auto_traits.len()
            invariant
                j <= self.auto_traits.len(),
                auto_traits@ == self.auto_traits@.take(j as int),
            decreases self.auto_traits.len() - j,
        {
            auto_traits.push(self.auto_traits[j]);
            assert(auto_traits@ =~= self.auto_traits@.take(j + 1));
            j += 1;
        }
        assert(self.auto_traits@.take(self.auto_traits.len() as int) =~= self.auto_traits@);
        CastTable {
            concrete: self.concrete.clone(),
            base_traits,
            auto_traits,
            castable: self.castable_types(),
        }
    }
}

} // verus!
