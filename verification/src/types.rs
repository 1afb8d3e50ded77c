//! The file-type filter: a registry of named glob sets, layered add/clear
//! operations shared by every rule, per-rule select/negate marks, and the
//! compiled predicate over candidate file names.
//!
//! A filter to which no selection and no negation was ever applied matches
//! every path; otherwise a path matches when no negated type's glob matches
//! its file name and, if any type is selected, some selected type's glob
//! matches it. Negation always wins over selection.

use vstd::prelude::*;
use crate::errors::SpecificFieldError;

verus! {

/// A named set of file-name glob patterns, as the registry holds it.
#[derive(Debug, PartialEq, Eq)]
pub struct FileTypeDef {
    pub name: String,
    pub globs: Vec<String>,
}

/// The character sequences a list of strings holds.
pub open spec fn strings_view(ss: Seq<String>) -> Seq<Seq<char>> {
    ss.map_values(|s: String| s@)
}

/// The mathematical shape of a registry entry.
pub ghost struct TypeDefV {
    pub name: Seq<char>,
    pub globs: Seq<Seq<char>>,
}

impl View for FileTypeDef {
    type V = TypeDefV;

    open spec fn view(&self) -> TypeDefV {
        TypeDefV { name: self.name@, globs: strings_view(self.globs@) }
    }
}

/// The registry a sequence of entries holds.
pub open spec fn defs_view(defs: Seq<FileTypeDef>) -> Seq<TypeDefV> {
    defs.map_values(|d: FileTypeDef| d@)
}

/// No two entries of the registry share a name.
pub open spec fn defs_unique(defs: Seq<TypeDefV>) -> bool {
    forall|i: int, j: int| 0 <= i < j < defs.len() ==> defs[i].name != defs[j].name
}

/// Whether the glob engine accepts a pattern text.
pub uninterp spec fn glob_valid(glob: Seq<char>) -> bool;

/// Whether a glob matches a candidate file name. The result depends on the
/// glob's text and the name alone.
pub uninterp spec fn glob_hits(glob: Seq<char>, name: Seq<char>) -> bool;

/// Relies on `globset::GlobMatcher`: the compiled form of one glob, carried
/// next to the text it was compiled from.
#[verifier::external_type_specification]
#[verifier::external_body]
pub struct ExGlobMatcher(globset::GlobMatcher);

/// One glob, compiled for matching. The matcher is always the compiled form
/// of `text`: `compile_glob` is the only constructor.
#[derive(Debug)]
pub struct CompiledGlob {
    text: String,
    matcher: globset::GlobMatcher,
}

impl View for CompiledGlob {
    type V = Seq<char>;

    closed spec fn view(&self) -> Seq<char> {
        self.text@
    }
}

/// Relies on `globset::Glob::new` and `Glob::compile_matcher`: `new` accepts
/// exactly the texts that are valid globs, and the matcher is a function of
/// the text alone.
#[verifier::external_body]
fn compile_glob(text: &str) -> (r: Result<CompiledGlob, String>)
    ensures
        match r {
            Ok(g) => g@ == text@ && glob_valid(text@),
            Err(_) => !glob_valid(text@),
        },
{
    match globset::Glob::new(text) {
        Ok(g) => Ok(CompiledGlob { text: text.to_owned(), matcher: g.compile_matcher() }),
        Err(e) => Err(e.to_string()),
    }
}

/// Relies on `globset::GlobMatcher::is_match`: whether the glob matches the
/// name, a function of the glob's text and the name alone.
#[verifier::external_body]
fn glob_is_match(g: &CompiledGlob, name: &str) -> (r: bool)
    ensures
        r == glob_hits(g@, name@),
{
    g.matcher.is_match(name)
}

/// Relies on `ignore::types::TypesBuilder::add_defaults` and `definitions`:
/// the built-in file-type definitions, sorted by name, no name repeated.
#[verifier::external_body]
pub(crate) fn default_type_defs() -> (r: Vec<FileTypeDef>)
    ensures
        defs_unique(defs_view(r@)),
{
    let mut b = ignore::types::TypesBuilder::new();
    b.add_defaults();
    b.definitions()
        .into_iter()
        .map(|d| FileTypeDef { name: d.name().to_owned(), globs: d.globs().to_vec() })
        .collect()
}

/// The index of the first entry named `name`, or -1 when there is none.
pub open spec fn first_def_idx(defs: Seq<TypeDefV>, name: Seq<char>) -> int
    decreases defs.len(),
{
    if defs.len() == 0 {
        -1
    } else if defs[0].name == name {
        0
    } else {
        let rest = first_def_idx(defs.skip(1), name);
        if rest < 0 {
            -1
        } else {
            rest + 1
        }
    }
}

/// What `first_def_idx` finds: the first entry with the name, if any.
pub proof fn lemma_first_def_idx(defs: Seq<TypeDefV>, name: Seq<char>)
    ensures
        first_def_idx(defs, name) == -1 ==> (forall|j: int|
            0 <= j < defs.len() ==> defs[j].name != name),
        first_def_idx(defs, name) >= 0 ==> {
            let i = first_def_idx(defs, name);
            &&& 0 <= i < defs.len()
            &&& defs[i].name == name
            &&& forall|j: int| 0 <= j < i ==> defs[j].name != name
        },
    decreases defs.len(),
{
    if defs.len() > 0 && defs[0].name != name {
        lemma_first_def_idx(defs.skip(1), name);
        assert forall|j: int| 1 <= j < defs.len() implies defs[j] == defs.skip(1)[j - 1] by {}
    }
}

/// The entry of the registry that `name` refers to, if any.
pub open spec fn find_def(defs: Seq<TypeDefV>, name: Seq<char>) -> Option<TypeDefV> {
    let i = first_def_idx(defs, name);
    if i >= 0 {
        Some(defs[i])
    } else {
        None
    }
}

/// The registry after `add`: the named entry replaced, or a new entry at the
/// end when the name was absent.
pub open spec fn insert_def(defs: Seq<TypeDefV>, d: TypeDefV) -> Seq<TypeDefV> {
    let i = first_def_idx(defs, d.name);
    if i >= 0 {
        defs.update(i, d)
    } else {
        defs.push(d)
    }
}

/// The registry after `clear`: the named entry removed, or the registry
/// unchanged when the name was absent.
pub open spec fn remove_def(defs: Seq<TypeDefV>, name: Seq<char>) -> Seq<TypeDefV> {
    let i = first_def_idx(defs, name);
    if i >= 0 {
        defs.remove(i)
    } else {
        defs
    }
}

/// Builds a file-type filter: a snapshot of the registry plus the selection
/// and negation marks applied so far.
#[derive(Debug)]
pub struct TypesBuilder {
    defs: Vec<FileTypeDef>,
    selections: Vec<String>,
    negations: Vec<String>,
}

/// The mathematical shape of a builder.
pub ghost struct TypesBuilderV {
    pub defs: Seq<TypeDefV>,
    pub selections: Seq<Seq<char>>,
    pub negations: Seq<Seq<char>>,
}

impl View for TypesBuilder {
    type V = TypesBuilderV;

    closed spec fn view(&self) -> TypesBuilderV {
        TypesBuilderV {
            defs: defs_view(self.defs@),
            selections: strings_view(self.selections@),
            negations: strings_view(self.negations@),
        }
    }
}

impl TypesBuilder {
    /// A builder with an empty registry and no marks.
    pub fn new() -> (r: TypesBuilder)
        ensures
            r@.defs =~= Seq::<TypeDefV>::empty(),
            r@.selections =~= Seq::<Seq<char>>::empty(),
            r@.negations =~= Seq::<Seq<char>>::empty(),
    {
        TypesBuilder { defs: Vec::new(), selections: Vec::new(), negations: Vec::new() }
    }

    /// A builder whose registry holds the given entries and no marks.
    pub fn from_defs(defs: Vec<FileTypeDef>) -> (r: TypesBuilder)
        ensures
            r@.defs =~= defs_view(defs@),
            r@.selections =~= Seq::<Seq<char>>::empty(),
            r@.negations =~= Seq::<Seq<char>>::empty(),
    {
        TypesBuilder { defs, selections: Vec::new(), negations: Vec::new() }
    }

    /// The index of the first registry entry named `name`, if any.
    fn find_index(&self, name: &str) -> (r: Option<usize>)
        ensures
            match r {
                Some(i) => first_def_idx(self@.defs, name@) == i as int,
                None => first_def_idx(self@.defs, name@) == -1,
            },
    {
        proof {
            lemma_first_def_idx(self@.defs, name@);
        }
        let mut i: usize = 0;
        while i < self.defs.len()
            invariant
                0 <= i <= self.defs.len(),
                self@.defs.len() == self.defs@.len(),
                forall|j: int| 0 <= j < i ==> self@.defs[j].name != name@,
                forall|j: int|
                    0 <= j < self.defs@.len() ==> self@.defs[j].name == self.defs@[j].name@,
            decreases self.defs.len() - i,
        {
            if self.defs[i].name == name.to_owned() {
                proof {
                    lemma_first_def_idx(self@.defs, name@);
                    let f = first_def_idx(self@.defs, name@);
                    assert(self@.defs[i as int].name == name@);
                    assert(f >= 0);
                    assert(f <= i as int);
                    assert(f >= i as int);
                }
                return Some(i);
            }
            i = i + 1;
        }
        proof {
            let f = first_def_idx(self@.defs, name@);
            if f >= 0 {
                assert(self@.defs[f].name == name@);
            }
        }
        None
    }

    /// Insert or overwrite the definition of `name` as the single glob
    /// `glob`; fails, and changes nothing, exactly when the glob cannot be
    /// compiled.
    pub fn add(&mut self, name: &str, glob: &str) -> (r: Result<(), SpecificFieldError>)
        ensures
            match r {
                Ok(()) => {
                    &&& glob_valid(glob@)
                    &&& final(self)@.defs == insert_def(
                        old(self)@.defs,
                        TypeDefV { name: name@, globs: seq![glob@] },
                    )
                    &&& final(self)@.selections == old(self)@.selections
                    &&& final(self)@.negations == old(self)@.negations
                },
                Err(e) => {
                    &&& !glob_valid(glob@)
                    &&& *final(self) == *old(self)
                    &&& e matches SpecificFieldError::InvalidGlob { glob: g, .. } && g@ == glob@
                },
            },
    {
        match compile_glob(glob) {
            Err(message) => Err(
                SpecificFieldError::InvalidGlob { glob: glob.to_owned(), message },
            ),
            Ok(_) => {
                let mut globs: Vec<String> = Vec::new();
                globs.push(glob.to_owned());
                let d = FileTypeDef { name: name.to_owned(), globs };
                proof {
                    assert(d@.globs =~= seq![glob@]);
                }
                match self.find_index(name) {
                    Some(i) => {
                        proof {
                            lemma_first_def_idx(self@.defs, name@);
                        }
                        self.defs[i] = d;
                        proof {
                            assert(final(self)@.defs =~= insert_def(
                                old(self)@.defs,
                                TypeDefV { name: name@, globs: seq![glob@] },
                            ));
                        }
                    },
                    None => {
                        self.defs.push(d);
                        proof {
                            assert(final(self)@.defs =~= insert_def(
                                old(self)@.defs,
                                TypeDefV { name: name@, globs: seq![glob@] },
                            ));
                        }
                    },
                }
                Ok(())
            },
        }
    }

    /// Remove the definition of `name`; absent names are left alone, which is
    /// not an error.
    pub fn clear(&mut self, name: &str)
        ensures
            final(self)@.defs == remove_def(old(self)@.defs, name@),
            final(self)@.selections == old(self)@.selections,
            final(self)@.negations == old(self)@.negations,
    {
        match self.find_index(name) {
            Some(i) => {
                proof {
                    lemma_first_def_idx(self@.defs, name@);
                }
                self.defs.remove(i);
                proof {
                    assert(final(self)@.defs =~= remove_def(old(self)@.defs, name@));
                }
            },
            None => {
                proof {
                    assert(final(self)@.defs =~= remove_def(old(self)@.defs, name@));
                }
            },
        }
    }

    /// Mark `name` for positive matching. Unknown names are accepted and
    /// simply never match.
    pub fn select(&mut self, name: &str)
        ensures
            final(self)@.selections == old(self)@.selections.push(name@),
            final(self)@.defs == old(self)@.defs,
            final(self)@.negations == old(self)@.negations,
    {
        self.selections.push(name.to_owned());
        proof {
            assert(final(self)@.selections =~= old(self)@.selections.push(name@));
        }
    }

    /// Mark `name` for exclusion. Unknown names are accepted and simply never
    /// match.
    pub fn negate(&mut self, name: &str)
        ensures
            final(self)@.negations == old(self)@.negations.push(name@),
            final(self)@.defs == old(self)@.defs,
            final(self)@.selections == old(self)@.selections,
    {
        self.negations.push(name.to_owned());
        proof {
            assert(final(self)@.negations =~= old(self)@.negations.push(name@));
        }
    }

    /// The current registry entries, in registry order.
    pub fn definitions(&self) -> (r: &Vec<FileTypeDef>)
        ensures
            defs_view(r@) == self@.defs,
    {
        &self.defs
    }

    /// An independent builder holding the same registry and marks: the
    /// snapshot each rule starts from after the shared add/clear phase.
    pub fn snapshot(&self) -> (r: TypesBuilder)
        ensures
            r@ == self@,
    {
        let r = TypesBuilder {
            defs: clone_defs(&self.defs),
            selections: clone_strings(&self.selections),
            negations: clone_strings(&self.negations),
        };
        proof {
            assert(r@.defs =~= self@.defs);
            assert(r@.selections =~= self@.selections);
            assert(r@.negations =~= self@.negations);
        }
        r
    }
}

/// An independent copy of a list of strings.
pub fn clone_strings(ss: &Vec<String>) -> (r: Vec<String>)
    ensures
        strings_view(r@) == strings_view(ss@),
        r@.len() == ss@.len(),
{
    let mut out: Vec<String> = Vec::new();
    let mut i: usize = 0;
    while i < ss.len()
        invariant
            0 <= i <= ss@.len(),
            out@.len() == i,
            forall|k: int| 0 <= k < i ==> out@[k]@ == ss@[k]@,
        decreases ss@.len() - i,
    {
        out.push(ss[i].clone());
        i = i + 1;
    }
    proof {
        assert(strings_view(out@) =~= strings_view(ss@));
    }
    out
}

/// An independent copy of a list of registry entries.
pub fn clone_defs(defs: &Vec<FileTypeDef>) -> (r: Vec<FileTypeDef>)
    ensures
        defs_view(r@) == defs_view(defs@),
        r@.len() == defs@.len(),
{
    let mut out: Vec<FileTypeDef> = Vec::new();
    let mut i: usize = 0;
    while i < defs.len()
        invariant
            0 <= i <= defs@.len(),
            out@.len() == i,
            forall|k: int| 0 <= k < i ==> out@[k]@ == defs@[k]@,
        decreases defs@.len() - i,
    {
        let d = &defs[i];
        let copy = FileTypeDef { name: d.name.clone(), globs: clone_strings(&d.globs) };
        proof {
            assert(copy@ =~= defs@[i as int]@);
        }
        out.push(copy);
        i = i + 1;
    }
    proof {
        assert(defs_view(out@) =~= defs_view(defs@));
    }
    out
}

/// The converse of `lemma_first_def_idx`: an index with the first-entry
/// property is the one `first_def_idx` finds.
pub proof fn lemma_first_def_idx_is(defs: Seq<TypeDefV>, name: Seq<char>, i: int)
    requires
        0 <= i < defs.len(),
        defs[i].name == name,
        forall|j: int| 0 <= j < i ==> defs[j].name != name,
    ensures
        first_def_idx(defs, name) == i,
    decreases defs.len(),
{
    if i > 0 {
        lemma_first_def_idx_is(defs.skip(1), name, i - 1);
    }
}

/// The registry entries that a list of marks refers to, in mark order;
/// unknown names refer to nothing.
pub open spec fn resolve_names(defs: Seq<TypeDefV>, names: Seq<Seq<char>>) -> Seq<TypeDefV>
    decreases names.len(),
{
    if names.len() == 0 {
        Seq::empty()
    } else {
        match find_def(defs, names[0]) {
            Some(d) => seq![d] + resolve_names(defs, names.skip(1)),
            None => resolve_names(defs, names.skip(1)),
        }
    }
}

/// Resolving one more mark appends what that mark refers to.
pub proof fn lemma_resolve_push(defs: Seq<TypeDefV>, names: Seq<Seq<char>>, n: Seq<char>)
    ensures
        resolve_names(defs, names.push(n)) == match find_def(defs, n) {
            Some(d) => resolve_names(defs, names).push(d),
            None => resolve_names(defs, names),
        },
    decreases names.len(),
{
    if names.len() == 0 {
        assert(names.push(n)[0] == n);
        assert(names.push(n).skip(1) =~= names);
        match find_def(defs, n) {
            Some(d) => {
                assert(resolve_names(defs, names) =~= Seq::<TypeDefV>::empty());
                assert(seq![d] + resolve_names(defs, names) =~= resolve_names(defs, names).push(
                    d,
                ));
            },
            None => {},
        }
    } else {
        assert(names.push(n)[0] == names[0]);
        assert(names.push(n).skip(1) =~= names.skip(1).push(n));
        lemma_resolve_push(defs, names.skip(1), n);
        match find_def(defs, names[0]) {
            Some(d0) => {
                match find_def(defs, n) {
                    Some(d) => {
                        assert(seq![d0] + resolve_names(defs, names.skip(1)).push(d) =~= (
                        seq![d0] + resolve_names(defs, names.skip(1))).push(d));
                    },
                    None => {},
                }
            },
            None => {},
        }
    }
}

/// A mark that refers to an entry puts that entry among the resolved ones.
pub proof fn lemma_resolve_contains(
    defs: Seq<TypeDefV>,
    names: Seq<Seq<char>>,
    k: int,
    d: TypeDefV,
)
    requires
        0 <= k < names.len(),
        find_def(defs, names[k]) == Some(d),
    ensures
        resolve_names(defs, names).contains(d),
    decreases names.len(),
{
    if k == 0 {
        assert(resolve_names(defs, names)[0] == d);
    } else {
        lemma_resolve_contains(defs, names.skip(1), k - 1, d);
        let rest = resolve_names(defs, names.skip(1));
        let j = choose|j: int| 0 <= j < rest.len() && rest[j] == d;
        match find_def(defs, names[0]) {
            Some(d0) => {
                assert(resolve_names(defs, names)[j + 1] == d);
            },
            None => {},
        }
    }
}

/// The mathematical shape of a compiled filter.
pub ghost struct TypesV {
    pub selections: Seq<TypeDefV>,
    pub negations: Seq<TypeDefV>,
    pub any_select: bool,
    pub any_negate: bool,
}

/// The filter a builder compiles to.
pub open spec fn build_model(b: TypesBuilderV) -> TypesV {
    TypesV {
        selections: resolve_names(b.defs, b.selections),
        negations: resolve_names(b.defs, b.negations),
        any_select: b.selections.len() > 0,
        any_negate: b.negations.len() > 0,
    }
}

/// Whether some glob of one type definition matches a file name.
pub open spec fn def_matches(d: TypeDefV, name: Seq<char>) -> bool {
    exists|j: int| 0 <= j < d.globs.len() && glob_hits(d.globs[j], name)
}

/// Whether some glob of some listed type definition matches a file name.
pub open spec fn any_def_matches(defs: Seq<TypeDefV>, name: Seq<char>) -> bool {
    exists|i: int| 0 <= i < defs.len() && def_matches(defs[i], name)
}

/// The filter's verdict on a candidate file name. With no selections and no
/// negations everything matches; otherwise no negated type may match and,
/// when anything is selected, some selected type must match.
pub open spec fn types_match(t: TypesV, name: Seq<char>) -> bool {
    if !t.any_select && !t.any_negate {
        true
    } else {
        !any_def_matches(t.negations, name) && (!t.any_select || any_def_matches(
            t.selections,
            name,
        ))
    }
}

/// Every glob of every listed definition is one the glob engine accepts.
pub open spec fn all_globs_valid(defs: Seq<TypeDefV>) -> bool {
    forall|i: int, j: int|
        0 <= i < defs.len() && 0 <= j < defs[i].globs.len() ==> glob_valid(defs[i].globs[j])
}

/// The glob texts a list of compiled globs holds.
pub open spec fn cglobs_view(gs: Seq<CompiledGlob>) -> Seq<Seq<char>> {
    gs.map_values(|g: CompiledGlob| g@)
}

/// One resolved type definition with its globs compiled.
#[derive(Debug)]
pub struct CompiledTypeDef {
    name: String,
    globs: Vec<CompiledGlob>,
}

impl View for CompiledTypeDef {
    type V = TypeDefV;

    closed spec fn view(&self) -> TypeDefV {
        TypeDefV { name: self.name@, globs: cglobs_view(self.globs@) }
    }
}

/// The sequence of type definitions a compiled list stands for.
pub open spec fn compiled_view(defs: Seq<CompiledTypeDef>) -> Seq<TypeDefV> {
    defs.map_values(|d: CompiledTypeDef| d@)
}

/// An immutable compiled file-type filter.
#[derive(Debug)]
pub struct Types {
    selections: Vec<CompiledTypeDef>,
    negations: Vec<CompiledTypeDef>,
    any_select: bool,
    any_negate: bool,
}

impl View for Types {
    type V = TypesV;

    closed spec fn view(&self) -> TypesV {
        TypesV {
            selections: compiled_view(self.selections@),
            negations: compiled_view(self.negations@),
            any_select: self.any_select,
            any_negate: self.any_negate,
        }
    }
}

/// Compile the globs of one registry entry.
fn compile_def(def: &FileTypeDef) -> (r: Result<CompiledTypeDef, SpecificFieldError>)
    ensures
        match r {
            Ok(c) => c@ == def@ && (forall|j: int|
                0 <= j < def@.globs.len() ==> glob_valid(def@.globs[j])),
            Err(e) => {
                &&& e matches SpecificFieldError::InvalidGlob { glob, .. } && !glob_valid(glob@)
                &&& !(forall|j: int| 0 <= j < def@.globs.len() ==> glob_valid(def@.globs[j]))
            },
        },
{
    let mut globs: Vec<CompiledGlob> = Vec::new();
    let mut j: usize = 0;
    while j < def.globs.len()
        invariant
            0 <= j <= def.globs.len(),
            cglobs_view(globs@) =~= def@.globs.take(j as int),
            forall|k: int| 0 <= k < j ==> glob_valid(def@.globs[k]),
        decreases def.globs.len() - j,
    {
        proof {
            assert(cglobs_view(globs@).len() == globs@.len());
            assert(def@.globs.take(j as int).len() == j as int);
            assert(globs@.len() == j as int);
        }
        match compile_glob(def.globs[j].as_str()) {
            Ok(g) => {
                globs.push(g);
                proof {
                    assert(def@.globs[j as int] == def.globs@[j as int]@);
                    assert(cglobs_view(globs@) =~= def@.globs.take(j as int + 1));
                }
            },
            Err(message) => {
                proof {
                    assert(def@.globs[j as int] == def.globs@[j as int]@);
                    assert(!glob_valid(def@.globs[j as int]));
                }
                return Err(
                    SpecificFieldError::InvalidGlob { glob: def.globs[j].clone(), message },
                );
            },
        }
        j = j + 1;
    }
    let c = CompiledTypeDef { name: def.name.clone(), globs };
    proof {
        assert(def@.globs.take(def.globs.len() as int) =~= def@.globs);
        assert(c@ =~= def@);
    }
    Ok(c)
}

impl TypesBuilder {
    /// Resolve a list of marks against the registry and compile the globs of
    /// every entry the marks refer to.
    fn resolve(&self, names: &Vec<String>) -> (r: Result<
        Vec<CompiledTypeDef>,
        SpecificFieldError,
    >)
        ensures
            match r {
                Ok(v) => {
                    &&& compiled_view(v@) == resolve_names(
                        self@.defs,
                        strings_view(names@),
                    )
                    &&& all_globs_valid(compiled_view(v@))
                },
                Err(e) => {
                    &&& e matches SpecificFieldError::InvalidGlob { glob, .. } && !glob_valid(
                        glob@,
                    )
                    &&& !all_globs_valid(
                        resolve_names(self@.defs, strings_view(names@)),
                    )
                },
            },
    {
        let ghost namesv = strings_view(names@);
        let mut out: Vec<CompiledTypeDef> = Vec::new();
        let mut i: usize = 0;
        while i < names.len()
            invariant
                0 <= i <= names.len(),
                namesv == strings_view(names@),
                namesv.len() == names@.len(),
                compiled_view(out@) =~= resolve_names(self@.defs, namesv.take(i as int)),
                all_globs_valid(compiled_view(out@)),
            decreases names.len() - i,
        {
            proof {
                assert(namesv.take(i as int + 1) =~= namesv.take(i as int).push(namesv[i as int]));
                lemma_resolve_push(self@.defs, namesv.take(i as int), namesv[i as int]);
            }
            match self.find_index(names[i].as_str()) {
                Some(k) => {
                    proof {
                        lemma_first_def_idx(self@.defs, namesv[i as int]);
                    }
                    match compile_def(&self.defs[k]) {
                        Ok(c) => {
                            out.push(c);
                            proof {
                                assert(compiled_view(out@) =~= resolve_names(
                                    self@.defs,
                                    namesv.take(i as int + 1),
                                ));
                            }
                        },
                        Err(e) => {
                            proof {
                                lemma_resolve_contains(
                                    self@.defs,
                                    namesv,
                                    i as int,
                                    self@.defs[k as int],
                                );
                            }
                            return Err(e);
                        },
                    }
                },
                None => {},
            }
            i = i + 1;
        }
        proof {
            assert(namesv.take(namesv.len() as int) =~= namesv);
        }
        Ok(out)
    }

    /// Finalize into an immutable filter. Fails exactly when some glob of
    /// some selected or negated type cannot be compiled.
    pub fn build(&self) -> (r: Result<Types, SpecificFieldError>)
        ensures
            match r {
                Ok(t) => {
                    &&& t@ == build_model(self@)
                    &&& all_globs_valid(t@.selections)
                    &&& all_globs_valid(t@.negations)
                },
                Err(e) => {
                    &&& e matches SpecificFieldError::InvalidGlob { glob, .. } && !glob_valid(
                        glob@,
                    )
                    &&& !(all_globs_valid(build_model(self@).selections) && all_globs_valid(
                        build_model(self@).negations,
                    ))
                },
            },
    {
        let selections = match self.resolve(&self.selections) {
            Ok(v) => v,
            Err(e) => {
                return Err(e);
            },
        };
        let negations = match self.resolve(&self.negations) {
            Ok(v) => v,
            Err(e) => {
                return Err(e);
            },
        };
        let t = Types {
            selections,
            negations,
            any_select: self.selections.len() > 0,
            any_negate: self.negations.len() > 0,
        };
        Ok(t)
    }
}

/// Whether some compiled glob of some listed definition matches a file name.
fn any_compiled_match(defs: &Vec<CompiledTypeDef>, name: &str) -> (r: bool)
    ensures
        r == any_def_matches(compiled_view(defs@), name@),
{
    let mut i: usize = 0;
    while i < defs.len()
        invariant
            0 <= i <= defs.len(),
            forall|k: int| 0 <= k < i ==> !def_matches(compiled_view(defs@)[k], name@),
        decreases defs.len() - i,
    {
        let globs = &defs[i].globs;
        let mut j: usize = 0;
        while j < globs.len()
            invariant
                0 <= j <= globs.len(),
                globs == &defs[i as int].globs,
                0 <= i < defs.len(),
                forall|k: int|
                    0 <= k < j ==> !glob_hits(compiled_view(defs@)[i as int].globs[k], name@),
            decreases globs.len() - j,
        {
            if glob_is_match(&globs[j], name) {
                proof {
                    assert(compiled_view(defs@)[i as int].globs[j as int] == globs@[j as int]@);
                    assert(def_matches(compiled_view(defs@)[i as int], name@));
                }
                return true;
            }
            j = j + 1;
        }
        proof {
            assert(!def_matches(compiled_view(defs@)[i as int], name@));
        }
        i = i + 1;
    }
    false
}

impl Types {
    /// True when no selection and no negation was ever applied: such a filter
    /// matches every path.
    pub fn is_empty(&self) -> (r: bool)
        ensures
            r == (!self@.any_select && !self@.any_negate),
    {
        !self.any_select && !self.any_negate
    }

    /// The filter's verdict on a candidate file name.
    pub fn matches(&self, name: &str) -> (r: bool)
        ensures
            r == types_match(self@, name@),
    {
        if !self.any_select && !self.any_negate {
            return true;
        }
        if any_compiled_match(&self.negations, name) {
            return false;
        }
        if !self.any_select {
            return true;
        }
        any_compiled_match(&self.selections, name)
    }

    /// The filter's verdict on a candidate path: its file name decides.
    pub fn matches_path(&self, path: &str) -> (r: bool)
        ensures
            r == types_match(self@, spec_file_name(path@)),
    {
        let name = file_name_of(path);
        self.matches(name)
    }
}

/// The position of the last path separator, or -1 when there is none.
pub open spec fn last_slash(p: Seq<char>) -> int
    decreases p.len(),
{
    if p.len() == 0 {
        -1
    } else if p[p.len() - 1] == '/' {
        p.len() - 1
    } else {
        last_slash(p.drop_last())
    }
}

/// `last_slash` stays inside the sequence.
pub proof fn lemma_last_slash_bounds(p: Seq<char>)
    ensures
        -1 <= last_slash(p) < p.len(),
    decreases p.len(),
{
    if p.len() > 0 && p[p.len() - 1] != '/' {
        lemma_last_slash_bounds(p.drop_last());
    }
}

/// The file name of a path: what follows its last separator.
pub open spec fn spec_file_name(p: Seq<char>) -> Seq<char> {
    p.skip(last_slash(p) + 1)
}

/// The file name of a path, the part that file-type globs are matched
/// against.
pub fn file_name_of(path: &str) -> (r: &str)
    ensures
        r@ == spec_file_name(path@),
{
    let n = path.unicode_len();
    let mut i: usize = 0;
    let mut cut: usize = 0;
    while i < n
        invariant
            0 <= cut <= i <= n,
            n == path@.len(),
            cut as int == last_slash(path@.take(i as int)) + 1,
        decreases n - i,
    {
        proof {
            assert(path@.take(i as int + 1).drop_last() =~= path@.take(i as int));
        }
        if path.get_char(i) == '/' {
            cut = i + 1;
        }
        i = i + 1;
    }
    proof {
        assert(path@.take(n as int) =~= path@);
    }
    path.substring_char(cut, n)
}

/// Law: a filter to which no selection and no negation was applied matches
/// every file name.
pub proof fn lemma_match_all(t: TypesV, name: Seq<char>)
    requires
        !t.any_select,
        !t.any_negate,
    ensures
        types_match(t, name),
{
}

/// Law: negation wins over selection. A file name that matches a negated
/// type never matches the built filter, whatever else is selected — in
/// particular when the same type is also selected.
pub proof fn lemma_negation_precedence(
    b: TypesBuilderV,
    tname: Seq<char>,
    d: TypeDefV,
    fname: Seq<char>,
)
    requires
        b.negations.contains(tname),
        find_def(b.defs, tname) == Some(d),
        def_matches(d, fname),
    ensures
        !types_match(build_model(b), fname),
{
    let k = choose|k: int| 0 <= k < b.negations.len() && b.negations[k] == tname;
    lemma_resolve_contains(b.defs, b.negations, k, d);
    let t = build_model(b);
    let r = resolve_names(b.defs, b.negations);
    let j = choose|j: int| 0 <= j < r.len() && r[j] == d;
    assert(any_def_matches(t.negations, fname));
}

/// Removing one name's entry leaves every other name's lookup unchanged.
pub proof fn lemma_remove_def_other(defs: Seq<TypeDefV>, name: Seq<char>, other: Seq<char>)
    requires
        other != name,
    ensures
        find_def(remove_def(defs, name), other) == find_def(defs, other),
{
    lemma_first_def_idx(defs, name);
    let i = first_def_idx(defs, name);
    if i >= 0 {
        let cleared = defs.remove(i);
        lemma_first_def_idx(defs, other);
        let j = first_def_idx(defs, other);
        if j == -1 {
            lemma_first_def_idx(cleared, other);
            let k = first_def_idx(cleared, other);
            if k >= 0 {
                assert(cleared[k] == if k < i {
                    defs[k]
                } else {
                    defs[k + 1]
                });
            }
        } else if j < i {
            assert(cleared[j] == defs[j]);
            assert(forall|k: int| 0 <= k < j ==> cleared[k] == defs[k]);
            lemma_first_def_idx_is(cleared, other, j);
        } else {
            assert(j > i);
            assert(cleared[j - 1] == defs[j]);
            assert(forall|k: int|
                0 <= k < j - 1 ==> cleared[k] == (if k < i {
                    defs[k]
                } else {
                    defs[k + 1]
                }));
            lemma_first_def_idx_is(cleared, other, j - 1);
        }
    }
}

/// Inserting one name's entry leaves every other name's lookup unchanged.
pub proof fn lemma_insert_def_other(defs: Seq<TypeDefV>, d: TypeDefV, other: Seq<char>)
    requires
        other != d.name,
    ensures
        find_def(insert_def(defs, d), other) == find_def(defs, other),
{
    lemma_first_def_idx(defs, d.name);
    let i = first_def_idx(defs, d.name);
    let after = insert_def(defs, d);
    lemma_first_def_idx(defs, other);
    let j = first_def_idx(defs, other);
    if i >= 0 {
        assert(after =~= defs.update(i, d));
        if j == -1 {
            lemma_first_def_idx(after, other);
            let k = first_def_idx(after, other);
            if k >= 0 {
                assert(after[k].name == other);
                assert(k != i);
                assert(after[k] == defs[k]);
            }
        } else {
            assert(j != i);
            assert(after[j] == defs[j]);
            assert(forall|k: int| 0 <= k < j && k != i ==> after[k] == defs[k]);
            assert(forall|k: int| 0 <= k < j ==> after[k].name != other);
            lemma_first_def_idx_is(after, other, j);
        }
    } else {
        assert(after =~= defs.push(d));
        if j == -1 {
            lemma_first_def_idx(after, other);
            let k = first_def_idx(after, other);
            if k >= 0 {
                assert(after[k].name == other);
                assert(k < defs.len() ==> after[k] == defs[k]);
                assert(k == defs.len() ==> after[k] == d);
            }
        } else {
            assert(after[j] == defs[j]);
            assert(forall|k: int| 0 <= k < j ==> after[k] == defs[k]);
            lemma_first_def_idx_is(after, other, j);
        }
    }
}

/// Law: `clear(name)` followed by `add(name, glob)` leaves the registry
/// behaving as if only the later definition of `name` had ever been
/// registered: `name` refers to exactly the later definition, and every
/// other name refers to what it referred to before.
pub proof fn lemma_clear_then_add(defs: Seq<TypeDefV>, name: Seq<char>, glob: Seq<char>)
    ensures
        find_def(
            insert_def(remove_def(defs, name), TypeDefV { name, globs: seq![glob] }),
            name,
        ) == Some(TypeDefV { name, globs: seq![glob] }),
        forall|other: Seq<char>|
            other != name ==> find_def(
                insert_def(remove_def(defs, name), TypeDefV { name, globs: seq![glob] }),
                other,
            ) == find_def(defs, other),
{
    assert forall|other: Seq<char>| other != name implies find_def(
        insert_def(remove_def(defs, name), TypeDefV { name, globs: seq![glob] }),
        other,
    ) == find_def(defs, other) by {
        lemma_remove_def_other(defs, name, other);
        lemma_insert_def_other(remove_def(defs, name), TypeDefV { name, globs: seq![glob] }, other);
    }
    let d = TypeDefV { name, globs: seq![glob] };
    let cleared = remove_def(defs, name);
    lemma_first_def_idx(defs, name);
    let i = first_def_idx(defs, name);
    if i >= 0 {
        assert(cleared =~= defs.remove(i));
    }
    let j = first_def_idx(cleared, name);
    lemma_first_def_idx(cleared, name);
    if j >= 0 {
        lemma_first_def_idx_is(cleared.update(j, d), name, j);
        assert(find_def(insert_def(cleared, d), name) == Some(d));
    } else {
        lemma_first_def_idx_is(cleared.push(d), name, cleared.len() as int);
        assert(find_def(insert_def(cleared, d), name) == Some(d));
    }
}

} // verus!
