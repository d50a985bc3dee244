//! Reading the options of a declaration from its attributes.
//!
//! The options live in attributes named `dyn_cast`. Each such attribute
//! holds a list of options: `base_traits(..)` names the interfaces,
//! `auto_traits(..)` the markers and `crate(..)` the path under which the
//! generated code finds this library.
//!
//! Each key is declared by the first option that has it. The interfaces or
//! the markers may be given again, in the same or another attribute, only
//! with the same members; with others the declaration is refused as
//! conflicting. The library path may not be given again at all.

use vstd::prelude::*;
use crate::marker::AutoTrait;
use crate::meta::Attribute;
use crate::meta::Meta;
use crate::meta::MetaList;
use crate::meta::NestedMeta;
use crate::path::Path;
use crate::path::PathView;

verus! {

/// Why a declaration was refused.
#[derive(Clone, Copy, Debug, PartialEq, Eq, Structural, Hash)]
pub enum ConfigError {
    /// The arguments do not have the shape of the options.
    InvalidArguments,
    /// A marker is named that is not one of the recognised identifiers.
    UnknownMarker,
    /// A marker is named more than once.
    DuplicateMarker,
    /// The library path is given more than once.
    RepeatedCratePath,
    /// The interfaces or the markers are given a second time, with other
    /// content than the first time.
    ConflictingOption,
}

impl ConfigError {
    /// The text shown to whoever wrote the declaration.
    pub fn message(self) -> (s: &'static str)
        ensures
            s@ == match self {
                ConfigError::InvalidArguments
                | ConfigError::UnknownMarker => "Invalid arguments to the `dyn_cast` attribute."@,
                ConfigError::DuplicateMarker => "An auto trait may not be specified more than once."@,
                ConfigError::RepeatedCratePath => "`path` may not be specified more than once."@,
                ConfigError::ConflictingOption => "An option may not be specified twice with different content."@,
            },
    {
        match self {
            ConfigError::InvalidArguments
            | ConfigError::UnknownMarker => "Invalid arguments to the `dyn_cast` attribute.",
            ConfigError::DuplicateMarker => "An auto trait may not be specified more than once.",
            ConfigError::RepeatedCratePath => "`path` may not be specified more than once.",
            ConfigError::ConflictingOption => "An option may not be specified twice with different content.",
        }
    }
}

/// The views of a sequence of paths.
pub open spec fn paths_view(s: Seq<Path>) -> Seq<PathView> {
    s.map_values(|p: Path| p@)
}

/// The view of an optional path.
pub open spec fn opt_path_view(p: Option<Path>) -> Option<PathView> {
    match p {
        Some(p) => Some(p@),
        None => None,
    }
}

/// The view of an optional list of paths.
pub open spec fn opt_paths_view(p: Option<Vec<Path>>) -> Option<Seq<PathView>> {
    match p {
        Some(p) => Some(paths_view(p@)),
        None => None,
    }
}

/// The view of an optional marker list.
pub open spec fn opt_markers_view(m: Option<Vec<AutoTrait>>) -> Option<Seq<AutoTrait>> {
    match m {
        Some(m) => Some(m@),
        None => None,
    }
}

/// What has been declared so far.
pub struct Declared {
    /// The interfaces, each once, in the order they were first named;
    /// `None` while no `base_traits` option has been read.
    pub base_traits: Option<Seq<PathView>>,
    /// The markers in the order they were named; `None` while no
    /// `auto_traits` option has been read.
    pub auto_traits: Option<Seq<AutoTrait>>,
    /// The library path, once it has been given.
    pub crate_path: Option<PathView>,
}

/// What reading some input leaves behind: the declarations as they stand
/// where reading stopped, and the error that stopped it, if any.
pub struct Reading {
    pub declared: Declared,
    pub error: Option<ConfigError>,
}

impl Declared {
    /// Nothing declared.
    pub open spec fn nothing() -> Declared {
        Declared { base_traits: None, auto_traits: None, crate_path: None }
    }

    /// Reading that went through.
    pub open spec fn done(self) -> Reading {
        Reading { declared: self, error: None }
    }

    /// Reading that stopped here on `e`.
    pub open spec fn failed(self, e: ConfigError) -> Reading {
        Reading { declared: self, error: Some(e) }
    }
}

/// The result that a reading function hands back where reading stopped on
/// `error`, or went through.
pub open spec fn result_of(error: Option<ConfigError>) -> Result<(), ConfigError> {
    match error {
        Some(e) => Err(e),
        None => Ok(()),
    }
}

impl Reading {
    /// The result that the reading functions hand back.
    pub open spec fn result(self) -> Result<(), ConfigError> {
        result_of(self.error)
    }
}

/// Whether two lists hold the same members, in whatever order.
pub open spec fn same_members<A>(a: Seq<A>, b: Seq<A>) -> bool {
    forall|x: A| a.contains(x) == b.contains(x)
}

/// What an option that may be given once leaves declared, where `before` is
/// what was declared under its key so far and reading the option on its own
/// gave `read` and `error`.
///
/// The first time, what was read is declared, as far as reading got. A
/// second time the option changes nothing: it is accepted where it reads
/// without error and holds the same members as the first, and refused as
/// conflicting where it holds others.
pub open spec fn declared_once<A>(
    before: Option<Seq<A>>,
    read: Seq<A>,
    error: Option<ConfigError>,
) -> (Option<Seq<A>>, Option<ConfigError>) {
    match before {
        None => (Some(read), error),
        Some(first) => {
            if error is Some {
                (before, error)
            } else if same_members(first, read) {
                (before, None)
            } else {
                (before, Some(ConfigError::ConflictingOption))
            }
        },
    }
}

/// `bases` with `p` added at the end unless it is already there.
pub open spec fn with_base(bases: Seq<PathView>, p: PathView) -> Seq<PathView> {
    if bases.contains(p) {
        bases
    } else {
        bases.push(p)
    }
}

/// Reads the items of a `base_traits(..)` option from the first on. Each
/// item has to be a bare path; the first that is not stops the reading.
pub open spec fn base_traits_read(items: Seq<NestedMeta>, bases: Seq<PathView>) -> (
    Seq<PathView>,
    Option<ConfigError>,
)
    decreases items.len(),
{
    if items.len() == 0 {
        (bases, None)
    } else {
        match items[0] {
            NestedMeta::Meta(Meta::Path(p)) => base_traits_read(
                items.skip(1),
                with_base(bases, p@),
            ),
            _ => (bases, Some(ConfigError::InvalidArguments)),
        }
    }
}

/// What one item of an `auto_traits(..)` option names: a marker, or the
/// reason why it names none.
pub open spec fn marker_named(item: NestedMeta) -> Result<AutoTrait, ConfigError> {
    match item {
        NestedMeta::Meta(Meta::Path(p)) => {
            if exists|a: AutoTrait| p@.ident() == Some(a.spec_name()) {
                Ok(choose|a: AutoTrait| p@.ident() == Some(a.spec_name()))
            } else {
                Err(ConfigError::UnknownMarker)
            }
        },
        _ => Err(ConfigError::InvalidArguments),
    }
}

/// Reads the items of an `auto_traits(..)` option from the first on. Each
/// item has to name a recognised marker that has not been named before; the
/// first that does not stops the reading.
pub open spec fn auto_traits_read(items: Seq<NestedMeta>, markers: Seq<AutoTrait>) -> (
    Seq<AutoTrait>,
    Option<ConfigError>,
)
    decreases items.len(),
{
    if items.len() == 0 {
        (markers, None)
    } else {
        match marker_named(items[0]) {
            Ok(a) => {
                if markers.contains(a) {
                    (markers, Some(ConfigError::DuplicateMarker))
                } else {
                    auto_traits_read(items.skip(1), markers.push(a))
                }
            },
            Err(e) => (markers, Some(e)),
        }
    }
}

/// Reads a `crate(..)` option. The path may be given once, as a bare path
/// in the first place of the list.
pub open spec fn crate_path_read(items: Seq<NestedMeta>, crate_path: Option<PathView>) -> (
    Option<PathView>,
    Option<ConfigError>,
) {
    if crate_path is Some {
        (crate_path, Some(ConfigError::RepeatedCratePath))
    } else if items.len() == 0 {
        (crate_path, Some(ConfigError::InvalidArguments))
    } else {
        match items[0] {
            NestedMeta::Meta(Meta::Path(p)) => (Some(p@), None),
            _ => (crate_path, Some(ConfigError::InvalidArguments)),
        }
    }
}

/// What a `base_traits(..)` option with these items leaves declared, where
/// `before` is what was declared as interfaces so far.
pub open spec fn base_traits_declared(items: Seq<NestedMeta>, before: Option<Seq<PathView>>) -> (
    Option<Seq<PathView>>,
    Option<ConfigError>,
) {
    let (read, error) = base_traits_read(items, Seq::empty());
    declared_once(before, read, error)
}

/// What an `auto_traits(..)` option with these items leaves declared, where
/// `before` is what was declared as markers so far.
pub open spec fn auto_traits_declared(items: Seq<NestedMeta>, before: Option<Seq<AutoTrait>>) -> (
    Option<Seq<AutoTrait>>,
    Option<ConfigError>,
) {
    let (read, error) = auto_traits_read(items, Seq::empty());
    declared_once(before, read, error)
}

/// Reads one option of a `dyn_cast` attribute.
pub open spec fn option_read(item: NestedMeta, d: Declared) -> Reading {
    match item {
        NestedMeta::Meta(Meta::List(list)) => {
            let name = list.path@.ident();
            if name == Some("base_traits"@) {
                let (base_traits, error) = base_traits_declared(list.nested@, d.base_traits);
                Reading { declared: Declared { base_traits, ..d }, error }
            } else if name == Some("auto_traits"@) {
                let (auto_traits, error) = auto_traits_declared(list.nested@, d.auto_traits);
                Reading { declared: Declared { auto_traits, ..d }, error }
            } else if name == Some("crate"@) && list.nested@.len() == 1 {
                let (crate_path, error) = crate_path_read(list.nested@, d.crate_path);
                Reading { declared: Declared { crate_path, ..d }, error }
            } else {
                d.failed(ConfigError::InvalidArguments)
            }
        },
        _ => d.failed(ConfigError::InvalidArguments),
    }
}

/// Reads the options of a `dyn_cast` attribute from the first on; the first
/// that fails stops the reading.
pub open spec fn options_read(items: Seq<NestedMeta>, d: Declared) -> Reading
    decreases items.len(),
{
    if items.len() == 0 {
        d.done()
    } else {
        let first = option_read(items[0], d);
        if first.error is Some {
            first
        } else {
            options_read(items.skip(1), first.declared)
        }
    }
}

/// Reads one attribute. An attribute that is not named `dyn_cast` declares
/// nothing and is passed over.
pub open spec fn attr_read(attr: Attribute, d: Declared) -> Reading {
    if attr.path@.ident() != Some("dyn_cast"@) {
        d.done()
    } else {
        match attr.meta {
            Some(Meta::List(list)) => options_read(list.nested@, d),
            _ => d.failed(ConfigError::InvalidArguments),
        }
    }
}

/// Reads the attributes of a declaration from the first on; the first that
/// fails stops the reading.
pub open spec fn attrs_read(attrs: Seq<Attribute>, d: Declared) -> Reading
    decreases attrs.len(),
{
    if attrs.len() == 0 {
        d.done()
    } else {
        let first = attr_read(attrs[0], d);
        if first.error is Some {
            first
        } else {
            attrs_read(attrs.skip(1), first.declared)
        }
    }
}

/// The declarations held in the three places the reading functions fill.
pub open spec fn declared_in(
    base_traits: Option<Vec<Path>>,
    auto_traits: Option<Vec<AutoTrait>>,
    crate_path: Option<Path>,
) -> Declared {
    Declared {
        base_traits: opt_paths_view(base_traits),
        auto_traits: opt_markers_view(auto_traits),
        crate_path: opt_path_view(crate_path),
    }
}

/// Whether `p` is among `paths`.
pub fn contains_path(paths: &Vec<Path>, p: &Path) -> (r: bool)
    ensures
        r == paths_view(paths@).contains(p@),
{
    let mut i: usize = 0;
    while i < paths.len()
        invariant
            i <= paths.len(),
            forall|k: int| 0 <= k < i ==> paths_view(paths@)[k] != p@,
        decreases paths.len() - i,
    {
        if paths[i].same(p) {
            assert(paths_view(paths@)[i as int] == p@);
            return true;
        }
        i += 1;
    }
    false
}

/// Whether `a` is among `markers`.
pub fn contains_marker(markers: &Vec<AutoTrait>, a: AutoTrait) -> (r: bool)
    ensures
        r == markers@.contains(a),
{
    let mut i: usize = 0;
    while i < markers.len()
        invariant
            i <= markers.len(),
            forall|k: int| 0 <= k < i ==> markers@[k] != a,
        decreases markers.len() - i,
    {
        if markers[i] == a {
            return true;
        }
        i += 1;
    }
    false
}

/// Reads the items of a `base_traits(..)` option on their own: the paths
/// that were read, each once, and the error that stopped the reading, if any.
fn read_paths(list: &MetaList) -> (r: (Vec<Path>, Option<ConfigError>))
    ensures
        (paths_view(r.0@), r.1) == base_traits_read(list.nested@, Seq::empty()),
{
    let mut paths: Vec<Path> = Vec::new();
    let mut i: usize = 0;
    assert(list.nested@.skip(0) =~= list.nested@);
    assert(paths_view(paths@) =~= Seq::empty());
    while i < list.nested.len()
        invariant
            i <= list.nested.len(),
            base_traits_read(list.nested@, Seq::empty()) == base_traits_read(
                list.nested@.skip(i as int),
                paths_view(paths@),
            ),
        decreases list.nested.len() - i,
    {
        let ghost rest = list.nested@.skip(i as int);
        proof {
            assert(rest.len() > 0);
            assert(rest[0] == list.nested@[i as int]);
            assert(rest.skip(1) =~= list.nested@.skip(i + 1));
        }
        match &list.nested[i] {
            NestedMeta::Meta(Meta::Path(path)) => {
                if !contains_path(&paths, path) {
                    let ghost before = paths_view(paths@);
                    paths.push(path.duplicate());
                    assert(paths_view(paths@) =~= before.push(path@));
                }
            },
            _ => {
                return (paths, Some(ConfigError::InvalidArguments));
            },
        }
        i += 1;
    }
    (paths, None)
}

/// Whether every path of `a` is among `b`.
fn paths_among(a: &Vec<Path>, b: &Vec<Path>) -> (r: bool)
    ensures
        r == forall|i: int|
            0 <= i < a.len() ==> paths_view(b@).contains(#[trigger] paths_view(a@)[i]),
{
    let mut i: usize = 0;
    while i < a.len()
        invariant
            i <= a.len(),
            forall|k: int| 0 <= k < i ==> paths_view(b@).contains(#[trigger] paths_view(a@)[k]),
        decreases a.len() - i,
    {
        if !contains_path(b, &a[i]) {
            assert(!paths_view(b@).contains(paths_view(a@)[i as int]));
            return false;
        }
        i += 1;
    }
    true
}

/// Whether two lists of paths hold the same paths, in whatever order.
pub fn same_paths(a: &Vec<Path>, b: &Vec<Path>) -> (r: bool)
    ensures
        r == same_members(paths_view(a@), paths_view(b@)),
{
    let r = paths_among(a, b) && paths_among(b, a);
    proof {
        let x = paths_view(a@);
        let y = paths_view(b@);
        if r {
            assert forall|p: PathView| x.contains(p) == y.contains(p) by {
                if x.contains(p) {
                    let i = choose|i: int| 0 <= i < x.len() && x[i] == p;
                    assert(y.contains(x[i]));
                }
                if y.contains(p) {
                    let i = choose|i: int| 0 <= i < y.len() && y[i] == p;
                    assert(x.contains(y[i]));
                }
            }
        } else {
            if exists|i: int| 0 <= i < x.len() && !y.contains(x[i]) {
                let i = choose|i: int| 0 <= i < x.len() && !y.contains(x[i]);
                assert(x.contains(x[i]));
            } else {
                let i = choose|i: int| 0 <= i < y.len() && !x.contains(y[i]);
                assert(y.contains(y[i]));
            }
        }
    }
    r
}

/// Reads a `base_traits(..)` option into `base_traits`.
///
/// Every item has to be a bare path; a path that the option names twice
/// counts once. Where the option is the first of its key, reading stops at
/// the first item that is no path, and the paths before it are declared. A
/// later `base_traits(..)` declares nothing new: it has to read without
/// error and to name the same interfaces as the first, or it is refused.
pub fn read_base_traits(list: &MetaList, base_traits: &mut Option<Vec<Path>>) -> (r: Result<
    (),
    ConfigError,
>)
    ensures
        opt_paths_view(*final(base_traits)) == base_traits_declared(
            list.nested@,
            opt_paths_view(*old(base_traits)),
        ).0,
        r == result_of(
            base_traits_declared(list.nested@, opt_paths_view(*old(base_traits))).1,
        ),
{
    let (read, error) = read_paths(list);
    match base_traits.take() {
        None => {
            *base_traits = Some(read);
            match error {
                Some(e) => Err(e),
                None => Ok(()),
            }
        },
        Some(first) => {
            let same = same_paths(&first, &read);
            *base_traits = Some(first);
            match error {
                Some(e) => Err(e),
                None => if same {
                    Ok(())
                } else {
                    Err(ConfigError::ConflictingOption)
                },
            }
        },
    }
}

/// The marker that one item of an `auto_traits(..)` option names.
pub fn read_marker(item: &NestedMeta) -> (r: Result<AutoTrait, ConfigError>)
    ensures
        r == marker_named(*item),
{
    match item {
        NestedMeta::Meta(Meta::Path(path)) => {
            match path.get_ident() {
                Some(name) => {
                    match AutoTrait::from_name(name.as_str()) {
                        Some(a) => {
                            proof {
                                let b = choose|b: AutoTrait| path@.ident() == Some(b.spec_name());
                                crate::marker::lemma_names_distinct(a, b);
                            }
                            Ok(a)
                        },
                        None => Err(ConfigError::UnknownMarker),
                    }
                },
                None => Err(ConfigError::UnknownMarker),
            }
        },
        _ => Err(ConfigError::InvalidArguments),
    }
}

/// Reads the items of an `auto_traits(..)` option on their own: the markers
/// that were read and the error that stopped the reading, if any.
fn read_markers(list: &MetaList) -> (r: (Vec<AutoTrait>, Option<ConfigError>))
    ensures
        (r.0@, r.1) == auto_traits_read(list.nested@, Seq::empty()),
{
    let mut markers: Vec<AutoTrait> = Vec::new();
    let mut i: usize = 0;
    assert(list.nested@.skip(0) =~= list.nested@);
    while i < list.nested.len()
        invariant
            i <= list.nested.len(),
            auto_traits_read(list.nested@, Seq::empty()) == auto_traits_read(
                list.nested@.skip(i as int),
                markers@,
            ),
        decreases list.nested.len() - i,
    {
        let ghost rest = list.nested@.skip(i as int);
        proof {
            assert(rest.len() > 0);
            assert(rest[0] == list.nested@[i as int]);
            assert(rest.skip(1) =~= list.nested@.skip(i + 1));
        }
        match read_marker(&list.nested[i]) {
            Ok(a) => {
                if contains_marker(&markers, a) {
                    return (markers, Some(ConfigError::DuplicateMarker));
                }
                markers.push(a);
            },
            Err(e) => {
                return (markers, Some(e));
            },
        }
        i += 1;
    }
    (markers, None)
}

/// Whether every marker of `a` is among `b`.
fn markers_among(a: &Vec<AutoTrait>, b: &Vec<AutoTrait>) -> (r: bool)
    ensures
        r == forall|i: int| 0 <= i < a.len() ==> b@.contains(#[trigger] a@[i]),
{
    let mut i: usize = 0;
    while i < a.len()
        invariant
            i <= a.len(),
            forall|k: int| 0 <= k < i ==> b@.contains(#[trigger] a@[k]),
        decreases a.len() - i,
    {
        if !contains_marker(b, a[i]) {
            return false;
        }
        i += 1;
    }
    true
}

/// Whether two lists of markers hold the same markers, in whatever order.
pub fn same_markers(a: &Vec<AutoTrait>, b: &Vec<AutoTrait>) -> (r: bool)
    ensures
        r == same_members(a@, b@),
{
    let r = markers_among(a, b) && markers_among(b, a);
    proof {
        let x = a@;
        let y = b@;
        if r {
            assert forall|m: AutoTrait| x.contains(m) == y.contains(m) by {
                if x.contains(m) {
                    let i = choose|i: int| 0 <= i < x.len() && x[i] == m;
                    assert(y.contains(x[i]));
                }
                if y.contains(m) {
                    let i = choose|i: int| 0 <= i < y.len() && y[i] == m;
                    assert(x.contains(y[i]));
                }
            }
        } else {
            if exists|i: int| 0 <= i < x.len() && !y.contains(x[i]) {
                let i = choose|i: int| 0 <= i < x.len() && !y.contains(x[i]);
                assert(x.contains(x[i]));
            } else {
                let i = choose|i: int| 0 <= i < y.len() && !x.contains(y[i]);
                assert(y.contains(y[i]));
            }
        }
    }
    r
}

/// Reads an `auto_traits(..)` option into `auto_traits`.
///
/// The option being there at all makes the marker list explicit, even when
/// it is empty. Every item has to be one of the recognised marker
/// identifiers, and none may be named twice. Where the option is the first
/// of its key, reading stops at the first item that breaks this, and the
/// markers before it are declared. A later `auto_traits(..)` declares
/// nothing new: it has to read without error and to name the same markers
/// as the first, or it is refused.
pub fn read_auto_traits(list: &MetaList, auto_traits: &mut Option<Vec<AutoTrait>>) -> (r: Result<
    (),
    ConfigError,
>)
    ensures
        opt_markers_view(*final(auto_traits)) == auto_traits_declared(
            list.nested@,
            opt_markers_view(*old(auto_traits)),
        ).0,
        r == result_of(
            auto_traits_declared(list.nested@, opt_markers_view(*old(auto_traits))).1,
        ),
{
    let (read, error) = read_markers(list);
    match auto_traits.take() {
        None => {
            *auto_traits = Some(read);
            match error {
                Some(e) => Err(e),
                None => Ok(()),
            }
        },
        Some(first) => {
            let same = same_markers(&first, &read);
            *auto_traits = Some(first);
            match error {
                Some(e) => Err(e),
                None => if same {
                    Ok(())
                } else {
                    Err(ConfigError::ConflictingOption)
                },
            }
        },
    }
}

/// Reads a `crate(..)` option into `crate_path`.
///
/// The path may be given once: a second `crate(..)` is refused whatever it
/// holds. Its first item has to be a bare path.
pub fn read_crate_path(list: &MetaList, crate_path: &mut Option<Path>) -> (r: Result<
    (),
    ConfigError,
>)
    ensures
        opt_path_view(*final(crate_path)) == crate_path_read(
            list.nested@,
            opt_path_view(*old(crate_path)),
        ).0,
        r == match crate_path_read(list.nested@, opt_path_view(*old(crate_path))).1 {
            Some(e) => Err::<(), ConfigError>(e),
            None => Ok(()),
        },
{
    if crate_path.is_some() {
        return Err(ConfigError::RepeatedCratePath);
    }
    if list.nested.len() == 0 {
        return Err(ConfigError::InvalidArguments);
    }
    match &list.nested[0] {
        NestedMeta::Meta(Meta::Path(path)) => {
            *crate_path = Some(path.duplicate());
            Ok(())
        },
        _ => Err(ConfigError::InvalidArguments),
    }
}

/// Reads one option of a `dyn_cast` attribute into the three places.
///
/// An option is a list named `base_traits`, `auto_traits` or `crate`, the
/// last with exactly one item. Anything else is refused.
pub fn read_option(
    item: &NestedMeta,
    base_traits: &mut Option<Vec<Path>>,
    auto_traits: &mut Option<Vec<AutoTrait>>,
    crate_path: &mut Option<Path>,
) -> (r: Result<(), ConfigError>)
    ensures
        declared_in(*final(base_traits), *final(auto_traits), *final(crate_path)) == option_read(
            *item,
            declared_in(*old(base_traits), *old(auto_traits), *old(crate_path)),
        ).declared,
        r == option_read(
            *item,
            declared_in(*old(base_traits), *old(auto_traits), *old(crate_path)),
        ).result(),
{
    match item {
        NestedMeta::Meta(Meta::List(list)) => {
            if list.path.is_ident("base_traits") {
                read_base_traits(list, base_traits)
            } else if list.path.is_ident("auto_traits") {
                read_auto_traits(list, auto_traits)
            } else if list.path.is_ident("crate") && list.nested.len() == 1 {
                read_crate_path(list, crate_path)
            } else {
                Err(ConfigError::InvalidArguments)
            }
        },
        _ => Err(ConfigError::InvalidArguments),
    }
}

/// Reads one attribute of the declared type into the three places.
///
/// An attribute that is not named `dyn_cast` is passed over. One that is
/// has to hold a list of options, which are read in order; reading stops at
/// the first option that fails, and what was read before it stays.
pub fn read_attr(
    attr: &Attribute,
    base_traits: &mut Option<Vec<Path>>,
    auto_traits: &mut Option<Vec<AutoTrait>>,
    crate_path: &mut Option<Path>,
) -> (r: Result<(), ConfigError>)
    ensures
        declared_in(*final(base_traits), *final(auto_traits), *final(crate_path)) == attr_read(
            *attr,
            declared_in(*old(base_traits), *old(auto_traits), *old(crate_path)),
        ).declared,
        r == attr_read(
            *attr,
            declared_in(*old(base_traits), *old(auto_traits), *old(crate_path)),
        ).result(),
{
    if !attr.path.is_ident("dyn_cast") {
        return Ok(());
    }
    let list = match &attr.meta {
        Some(Meta::List(list)) => list,
        _ => {
            return Err(ConfigError::InvalidArguments);
        },
    };
    let ghost start = declared_in(*base_traits, *auto_traits, *crate_path);
    let mut i: usize = 0;
    assert(list.nested@.skip(0) =~= list.nested@);
    while i < list.nested.len()
        invariant
            i <= list.nested.len(),
            start == declared_in(*old(base_traits), *old(auto_traits), *old(crate_path)),
            attr_read(*attr, start) == options_read(list.nested@, start),
            options_read(list.nested@, start) == options_read(
                list.nested@.skip(i as int),
                declared_in(*base_traits, *auto_traits, *crate_path),
            ),
        decreases list.nested.len() - i,
    {
        let ghost rest = list.nested@.skip(i as int);
        proof {
            assert(rest.len() > 0);
            assert(rest[0] == list.nested@[i as int]);
            assert(rest.skip(1) =~= list.nested@.skip(i + 1));
        }
        match read_option(&list.nested[i], base_traits, auto_traits, crate_path) {
            Ok(()) => {},
            Err(e) => {
                return Err(e);
            },
        }
        i += 1;
    }
    Ok(())
}

/// Reads all attributes of the declared type, in order, into the three
/// places. Reading stops at the first attribute that fails.
pub fn read_attrs(
    attrs: &Vec<Attribute>,
    base_traits: &mut Option<Vec<Path>>,
    auto_traits: &mut Option<Vec<AutoTrait>>,
    crate_path: &mut Option<Path>,
) -> (r: Result<(), ConfigError>)
    ensures
        declared_in(*final(base_traits), *final(auto_traits), *final(crate_path)) == attrs_read(
            attrs@,
            declared_in(*old(base_traits), *old(auto_traits), *old(crate_path)),
        ).declared,
        r == attrs_read(
            attrs@,
            declared_in(*old(base_traits), *old(auto_traits), *old(crate_path)),
        ).result(),
{
    let ghost start = declared_in(*base_traits, *auto_traits, *crate_path);
    let mut i: usize = 0;
    assert(attrs@.skip(0) =~= attrs@);
    while i < attrs.len()
        invariant
            i <= attrs.len(),
            start == declared_in(*old(base_traits), *old(auto_traits), *old(crate_path)),
            attrs_read(attrs@, start) == attrs_read(
                attrs@.skip(i as int),
                declared_in(*base_traits, *auto_traits, *crate_path),
            ),
        decreases attrs.len() - i,
    {
        let ghost rest = attrs@.skip(i as int);
        proof {
            assert(rest.len() > 0);
            assert(rest[0] == attrs@[i as int]);
            assert(rest.skip(1) =~= attrs@.skip(i + 1));
        }
        match read_attr(&attrs[i], base_traits, auto_traits, crate_path) {
            Ok(()) => {},
            Err(e) => {
                return Err(e);
            },
        }
        i += 1;
    }
    Ok(())
}

impl Declared {
    /// No interface and no marker is held twice.
    pub open spec fn distinct(self) -> bool {
        &&& self.base_traits matches Some(b) ==> b.no_duplicates()
        &&& self.auto_traits matches Some(m) ==> m.no_duplicates()
    }
}

/// Reading interfaces never leaves one in the list twice.
pub proof fn lemma_base_traits_distinct(items: Seq<NestedMeta>, bases: Seq<PathView>)
    requires
        bases.no_duplicates(),
    ensures
        base_traits_read(items, bases).0.no_duplicates(),
    decreases items.len(),
{
    if items.len() > 0 {
        if let NestedMeta::Meta(Meta::Path(p)) = items[0] {
            lemma_base_traits_distinct(items.skip(1), with_base(bases, p@));
        }
    }
}

/// Reading markers never leaves one in the list twice.
pub proof fn lemma_auto_traits_distinct(items: Seq<NestedMeta>, markers: Seq<AutoTrait>)
    requires
        markers.no_duplicates(),
    ensures
        auto_traits_read(items, markers).0.no_duplicates(),
    decreases items.len(),
{
    if items.len() > 0 {
        if let Ok(a) = marker_named(items[0]) {
            if !markers.contains(a) {
                lemma_auto_traits_distinct(items.skip(1), markers.push(a));
            }
        }
    }
}

/// Reading options keeps the declarations free of repetitions.
pub proof fn lemma_options_distinct(items: Seq<NestedMeta>, d: Declared)
    requires
        d.distinct(),
    ensures
        options_read(items, d).declared.distinct(),
    decreases items.len(),
{
    if items.len() > 0 {
        if let NestedMeta::Meta(Meta::List(list)) = items[0] {
            lemma_base_traits_distinct(list.nested@, Seq::empty());
            lemma_auto_traits_distinct(list.nested@, Seq::empty());
        }
        let first = option_read(items[0], d);
        if first.error is None {
            lemma_options_distinct(items.skip(1), first.declared);
        }
    }
}

/// Reading attributes keeps the declarations free of repetitions.
pub proof fn lemma_attrs_distinct(attrs: Seq<Attribute>, d: Declared)
    requires
        d.distinct(),
    ensures
        attrs_read(attrs, d).declared.distinct(),
    decreases attrs.len(),
{
    if attrs.len() > 0 {
        if let Some(Meta::List(list)) = attrs[0].meta {
            lemma_options_distinct(list.nested@, d);
        }
        let first = attr_read(attrs[0], d);
        if first.error is None {
            lemma_attrs_distinct(attrs.skip(1), first.declared);
        }
    }
}

} // verus!
