//! The rule compiler: turns configuration document entries into compiled
//! lint rules. One reserved top-level key, `relint`, holds the global
//! file-type add/clear directives; every other top-level key declares a rule
//! with a required pattern and message, an optional severity (`Error` when
//! absent), and optional type select/negate marks.

use vstd::prelude::*;
use crate::config::{ConfigValue, spec_table_lookup, spec_type_str, table_lookup, toml_document,
    parse_document, force_get, force_as_str};
use crate::errors::{ConfigError, FieldError, SpecificConfigError, SpecificFieldError};
use crate::pattern::{Pattern, pattern_valid};
use crate::severity::{ErrorLevel, spec_parse_level};
use crate::types::{TypesBuilder, TypesBuilderV, Types, TypesV, TypeDefV, build_model,
    all_globs_valid, glob_valid, insert_def, remove_def, defs_view, defs_unique, strings_view,
    clone_defs, default_type_defs};

verus! {

/// The mathematical shape of a compiled rule.
pub ghost struct LintV {
    pub name: Seq<char>,
    pub types: TypesV,
    pub severity: ErrorLevel,
    pub pattern: Seq<char>,
    pub message: Seq<u8>,
}

/// What is wrong with a rule or the global section, up to the free text that
/// outside engines put in their messages.
pub ghost enum FieldErrK {
    FieldType { field: Seq<char>, expected: Seq<char>, actual: Seq<char> },
    MissingField { field: Seq<char> },
    TypeBuild { field: Seq<char> },
    Pattern { field: Seq<char> },
}

/// Whether a concrete field error reports the failure the model names.
pub open spec fn field_err_matches(e: FieldError, k: FieldErrK) -> bool {
    match k {
        FieldErrK::FieldType { field, expected, actual } => {
            &&& e.field@ == field
            &&& e.error matches SpecificFieldError::FieldType { expected: ex, actual: ac }
                && ex@ == expected && ac@ == actual
        },
        FieldErrK::MissingField { field } => {
            &&& e.field@ == field
            &&& e.error is MissingField
        },
        FieldErrK::TypeBuild { field } => {
            &&& e.field@ == field
            &&& e.error matches SpecificFieldError::InvalidGlob { glob, .. } && !glob_valid(glob@)
        },
        FieldErrK::Pattern { field } => {
            &&& e.field@ == field
            &&& e.error is Pattern
        },
    }
}

/// The same failure, tagged with the owning rule's name.
pub open spec fn prefix_errk(k: FieldErrK, rule: Seq<char>) -> FieldErrK {
    match k {
        FieldErrK::FieldType { field, expected, actual } => FieldErrK::FieldType {
            field: rule + "."@ + field,
            expected,
            actual,
        },
        FieldErrK::MissingField { field } => FieldErrK::MissingField {
            field: rule + "."@ + field,
        },
        FieldErrK::TypeBuild { field } => FieldErrK::TypeBuild { field: rule + "."@ + field },
        FieldErrK::Pattern { field } => FieldErrK::Pattern { field: rule + "."@ + field },
    }
}

/// The names in a `type` or `type-not` value: one string, or an array of
/// strings read left to right; the first element of any other kind fails.
pub open spec fn strings_of_arr(a: Seq<ConfigValue>, elem_field: Seq<char>) -> Result<
    Seq<Seq<char>>,
    FieldErrK,
>
    decreases a.len(),
{
    if a.len() == 0 {
        Ok(Seq::empty())
    } else {
        match a[0] {
            ConfigValue::Str(s) => match strings_of_arr(a.skip(1), elem_field) {
                Ok(rest) => Ok(seq![s@] + rest),
                Err(k) => Err(k),
            },
            _ => Err(
                FieldErrK::FieldType {
                    field: elem_field,
                    expected: "string"@,
                    actual: spec_type_str(a[0]),
                },
            ),
        }
    }
}

/// The names a `type` or `type-not` field lists.
pub open spec fn string_list_model(
    v: ConfigValue,
    scalar_field: Seq<char>,
    elem_field: Seq<char>,
) -> Result<Seq<Seq<char>>, FieldErrK> {
    match v {
        ConfigValue::Str(s) => Ok(seq![s@]),
        ConfigValue::Arr(a) => strings_of_arr(a@, elem_field),
        _ => Err(
            FieldErrK::FieldType {
                field: scalar_field,
                expected: "string or string-array"@,
                actual: spec_type_str(v),
            },
        ),
    }
}

/// The severity a rule table declares: `Error` when absent, else one of the
/// three exact literals.
pub open spec fn severity_model(table: Seq<(String, ConfigValue)>) -> Result<
    ErrorLevel,
    FieldErrK,
> {
    match spec_table_lookup(table, "severity"@) {
        None => Ok(ErrorLevel::Error),
        Some(v) => match v {
            ConfigValue::Str(s) => match spec_parse_level(s@) {
                Some(level) => Ok(level),
                None => Err(
                    FieldErrK::FieldType {
                        field: "severity"@,
                        expected: "Error, Warning or Info"@,
                        actual: s@,
                    },
                ),
            },
            _ => Err(
                FieldErrK::FieldType {
                    field: "severity"@,
                    expected: "string"@,
                    actual: spec_type_str(v),
                },
            ),
        },
    }
}

/// A required string field of a rule table.
pub open spec fn required_string_model(table: Seq<(String, ConfigValue)>, key: Seq<char>) -> Result<
    Seq<char>,
    FieldErrK,
> {
    match spec_table_lookup(table, key) {
        None => Err(FieldErrK::MissingField { field: key }),
        Some(v) => match v {
            ConfigValue::Str(s) => Ok(s@),
            _ => Err(
                FieldErrK::FieldType {
                    field: key,
                    expected: "string"@,
                    actual: spec_type_str(v),
                },
            ),
        },
    }
}

/// An optional list-of-names field of a rule table: absent means none.
pub open spec fn marks_model(
    table: Seq<(String, ConfigValue)>,
    key: Seq<char>,
    elem_field: Seq<char>,
) -> Result<Seq<Seq<char>>, FieldErrK> {
    match spec_table_lookup(table, key) {
        None => Ok(Seq::empty()),
        Some(v) => string_list_model(v, key, elem_field),
    }
}

/// The rule a table compiles to, given the builder snapshot the shared
/// add/clear phase produced. Field errors carry the rule's name as a prefix.
pub open spec fn lint_model(
    rule: Seq<char>,
    table: Seq<(String, ConfigValue)>,
    b0: TypesBuilderV,
) -> Result<LintV, FieldErrK> {
    match marks_model(table, "type"@, "type[...]"@) {
        Err(k) => Err(prefix_errk(k, rule)),
        Ok(selects) => match marks_model(table, "type-not"@, "type-not[...]"@) {
            Err(k) => Err(prefix_errk(k, rule)),
            Ok(negates) => match severity_model(table) {
                Err(k) => Err(prefix_errk(k, rule)),
                Ok(severity) => match required_string_model(table, "message"@) {
                    Err(k) => Err(prefix_errk(k, rule)),
                    Ok(message) => match required_string_model(table, "pattern"@) {
                        Err(k) => Err(prefix_errk(k, rule)),
                        Ok(pattern) => if !pattern_valid(pattern) {
                            Err(prefix_errk(FieldErrK::Pattern { field: "pattern"@ }, rule))
                        } else {
                            let b = TypesBuilderV {
                                defs: b0.defs,
                                selections: b0.selections + selects,
                                negations: b0.negations + negates,
                            };
                            let t = build_model(b);
                            if !(all_globs_valid(t.selections) && all_globs_valid(t.negations)) {
                                Err(prefix_errk(FieldErrK::TypeBuild { field: "types"@ }, rule))
                            } else {
                                Ok(
                                    LintV {
                                        name: rule,
                                        types: t,
                                        severity,
                                        pattern,
                                        message: vstd::utf8::encode_utf8(message),
                                    },
                                )
                            }
                        },
                    },
                },
            },
        },
    }
}

/// Read a `type` or `type-not` value: one string, or an array of strings.
fn read_string_list(v: &ConfigValue, scalar_field: &str, elem_field: &str) -> (r: Result<
    Vec<String>,
    FieldError,
>)
    ensures
        match r {
            Ok(ss) => string_list_model(*v, scalar_field@, elem_field@) == Ok::<
                Seq<Seq<char>>,
                FieldErrK,
            >(strings_view(ss@)),
            Err(e) => string_list_model(*v, scalar_field@, elem_field@) matches Err(k)
                && field_err_matches(e, k),
        },
{
    match v {
        ConfigValue::Str(s) => {
            let mut out: Vec<String> = Vec::new();
            out.push(s.clone());
            proof {
                assert(strings_view(out@) =~= seq![s@]);
            }
            Ok(out)
        },
        ConfigValue::Arr(a) => {
            let mut out: Vec<String> = Vec::new();
            proof {
                assert(*v == ConfigValue::Arr(*a));
                assert(a@.skip(0) =~= a@);
            }
            let mut i: usize = 0;
            while i < a.len()
                invariant
                    0 <= i <= a@.len(),
                    *v == ConfigValue::Arr(*a),
                    match strings_of_arr(a@.skip(i as int), elem_field@) {
                        Ok(rest) => strings_of_arr(a@, elem_field@) == Ok::<
                            Seq<Seq<char>>,
                            FieldErrK,
                        >(strings_view(out@) + rest),
                        Err(k) => strings_of_arr(a@, elem_field@) == Err::<
                            Seq<Seq<char>>,
                            FieldErrK,
                        >(k),
                    },
                decreases a@.len() - i,
            {
                proof {
                    assert(a@.skip(i as int)[0] == a@[i as int]);
                    assert(a@.skip(i as int).skip(1) =~= a@.skip(i as int + 1));
                }
                match &a[i] {
                    ConfigValue::Str(s) => {
                        let ghost old_out = out@;
                        out.push(s.clone());
                        proof {
                            assert(strings_view(out@) =~= strings_view(old_out).push(s@));
                            if strings_of_arr(a@.skip(i as int + 1), elem_field@) is Ok {
                                let rest = strings_of_arr(
                                    a@.skip(i as int + 1),
                                    elem_field@,
                                )->Ok_0;
                                assert(strings_view(old_out) + (seq![s@] + rest)
                                    =~= strings_view(out@) + rest);
                            }
                        }
                    },
                    other => {
                        let ghost bad = FieldErrK::FieldType {
                            field: elem_field@,
                            expected: "string"@,
                            actual: spec_type_str(a@[i as int]),
                        };
                        let err = FieldError::new(
                            elem_field,
                            SpecificFieldError::FieldType {
                                expected: "string".to_owned(),
                                actual: other.type_str(),
                            },
                        );
                        proof {
                            assert(strings_of_arr(a@.skip(i as int), elem_field@) == Err::<
                                Seq<Seq<char>>,
                                FieldErrK,
                            >(bad));
                            lemma_string_list_arr(*v, *a, scalar_field@, elem_field@);
                            assert(field_err_matches(err, bad));
                        }
                        return Err(err);
                    },
                }
                i = i + 1;
            }
            proof {
                assert(a@.skip(a@.len() as int).len() == 0);
                assert(strings_view(out@) + Seq::<Seq<char>>::empty() =~= strings_view(out@));
                lemma_string_list_arr(*v, *a, scalar_field@, elem_field@);
            }
            Ok(out)
        },
        _ => Err(
            FieldError::new(
                scalar_field,
                SpecificFieldError::FieldType {
                    expected: "string or string-array".to_owned(),
                    actual: v.type_str(),
                },
            ),
        ),
    }
}

/// Read an optional `type` or `type-not` field: absent means no marks.
fn read_marks(table: &Vec<(String, ConfigValue)>, key: &str, elem_field: &str) -> (r: Result<
    Vec<String>,
    FieldError,
>)
    ensures
        match r {
            Ok(ss) => marks_model(table@, key@, elem_field@) == Ok::<
                Seq<Seq<char>>,
                FieldErrK,
            >(strings_view(ss@)),
            Err(e) => marks_model(table@, key@, elem_field@) matches Err(k) && field_err_matches(
                e,
                k,
            ),
        },
{
    match table_lookup(table, &key.to_owned()) {
        None => {
            let out: Vec<String> = Vec::new();
            proof {
                assert(strings_view(out@) =~= Seq::<Seq<char>>::empty());
            }
            Ok(out)
        },
        Some(v) => read_string_list(v, key, elem_field),
    }
}

/// Read the optional `severity` field: `Error` when absent, else one of the
/// three exact literals.
fn read_severity(table: &Vec<(String, ConfigValue)>) -> (r: Result<ErrorLevel, FieldError>)
    ensures
        match r {
            Ok(level) => severity_model(table@) == Ok::<ErrorLevel, FieldErrK>(level),
            Err(e) => severity_model(table@) matches Err(k) && field_err_matches(e, k),
        },
{
    match table_lookup(table, &"severity".to_owned()) {
        None => Ok(ErrorLevel::Error),
        Some(v) => match v {
            ConfigValue::Str(s) => match ErrorLevel::from_name(s) {
                Some(level) => Ok(level),
                None => Err(
                    FieldError::new(
                        "severity",
                        SpecificFieldError::FieldType {
                            expected: "Error, Warning or Info".to_owned(),
                            actual: s.clone(),
                        },
                    ),
                ),
            },
            _ => Err(
                FieldError::new(
                    "severity",
                    SpecificFieldError::FieldType {
                        expected: "string".to_owned(),
                        actual: v.type_str(),
                    },
                ),
            ),
        },
    }
}

/// Read a required string field of a rule table.
fn read_required_string<'a>(table: &'a Vec<(String, ConfigValue)>, key: &str) -> (r: Result<
    &'a String,
    FieldError,
>)
    ensures
        match r {
            Ok(s) => required_string_model(table@, key@) == Ok::<Seq<char>, FieldErrK>(s@),
            Err(e) => required_string_model(table@, key@) matches Err(k) && field_err_matches(
                e,
                k,
            ),
        },
{
    match force_get(table, key) {
        Ok(v) => force_as_str(v, key),
        Err(e) => Err(e),
    }
}

/// Apply one selection mark per listed name.
fn apply_selects(b: &mut TypesBuilder, names: &Vec<String>)
    ensures
        final(b)@.defs == old(b)@.defs,
        final(b)@.selections == old(b)@.selections + strings_view(names@),
        final(b)@.negations == old(b)@.negations,
{
    let mut i: usize = 0;
    while i < names.len()
        invariant
            0 <= i <= names@.len(),
            b@.defs == old(b)@.defs,
            b@.selections == old(b)@.selections + strings_view(names@).take(i as int),
            b@.negations == old(b)@.negations,
        decreases names@.len() - i,
    {
        b.select(names[i].as_str());
        proof {
            assert(strings_view(names@).take(i as int).push(names@[i as int]@)
                =~= strings_view(names@).take(i as int + 1));
            assert((old(b)@.selections + strings_view(names@).take(i as int)).push(
                names@[i as int]@,
            ) =~= old(b)@.selections + strings_view(names@).take(i as int + 1));
        }
        i = i + 1;
    }
    proof {
        assert(strings_view(names@).take(names@.len() as int) =~= strings_view(names@));
    }
}

/// Apply one negation mark per listed name.
fn apply_negates(b: &mut TypesBuilder, names: &Vec<String>)
    ensures
        final(b)@.defs == old(b)@.defs,
        final(b)@.negations == old(b)@.negations + strings_view(names@),
        final(b)@.selections == old(b)@.selections,
{
    let mut i: usize = 0;
    while i < names.len()
        invariant
            0 <= i <= names@.len(),
            b@.defs == old(b)@.defs,
            b@.negations == old(b)@.negations + strings_view(names@).take(i as int),
            b@.selections == old(b)@.selections,
        decreases names@.len() - i,
    {
        b.negate(names[i].as_str());
        proof {
            assert(strings_view(names@).take(i as int).push(names@[i as int]@)
                =~= strings_view(names@).take(i as int + 1));
            assert((old(b)@.negations + strings_view(names@).take(i as int)).push(
                names@[i as int]@,
            ) =~= old(b)@.negations + strings_view(names@).take(i as int + 1));
        }
        i = i + 1;
    }
    proof {
        assert(strings_view(names@).take(names@.len() as int) =~= strings_view(names@));
    }
}

/// One compiled lint rule: a pattern, a severity, a diagnostic message and a
/// file-type filter, under the configuration key that declared it.
#[derive(Debug)]
pub struct Lint {
    pub name: String,
    pub types: Types,
    pub severity: ErrorLevel,
    pub pattern: Pattern,
    pub message: Vec<u8>,
}

impl View for Lint {
    type V = LintV;

    open spec fn view(&self) -> LintV {
        LintV {
            name: self.name@,
            types: self.types@,
            severity: self.severity,
            pattern: self.pattern@,
            message: self.message@,
        }
    }
}

impl Lint {
    /// Compile one rule table, starting from the builder snapshot the shared
    /// add/clear phase produced.
    pub fn new_from_table(
        name: &String,
        lint: &Vec<(String, ConfigValue)>,
        btypes: TypesBuilder,
    ) -> (r: Result<Lint, FieldError>)
        ensures
            match r {
                Ok(l) => lint_model(name@, lint@, btypes@) == Ok::<LintV, FieldErrK>(l@),
                Err(e) => lint_model(name@, lint@, btypes@) matches Err(k) && field_err_matches(
                    e,
                    k,
                ),
            },
    {
        let mut btypes = btypes;
        let selects = match read_marks(lint, "type", "type[...]") {
            Ok(s) => s,
            Err(e) => {
                return Err(e.prefix(name.as_str()));
            },
        };
        let negates = match read_marks(lint, "type-not", "type-not[...]") {
            Ok(s) => s,
            Err(e) => {
                return Err(e.prefix(name.as_str()));
            },
        };
        let severity = match read_severity(lint) {
            Ok(level) => level,
            Err(e) => {
                return Err(e.prefix(name.as_str()));
            },
        };
        let message = match read_required_string(lint, "message") {
            Ok(s) => s.as_bytes_vec(),
            Err(e) => {
                return Err(e.prefix(name.as_str()));
            },
        };
        let pattern_text = match read_required_string(lint, "pattern") {
            Ok(s) => s,
            Err(e) => {
                return Err(e.prefix(name.as_str()));
            },
        };
        let pattern = match Pattern::new(pattern_text.as_str()) {
            Ok(p) => p,
            Err(message) => {
                return Err(
                    FieldError::new("pattern", SpecificFieldError::Pattern { message }).prefix(
                        name.as_str(),
                    ),
                );
            },
        };
        apply_selects(&mut btypes, &selects);
        apply_negates(&mut btypes, &negates);
        let types = match btypes.build() {
            Ok(t) => t,
            Err(e) => {
                return Err(FieldError::new("types", e).prefix(name.as_str()));
            },
        };
        Ok(Lint { name: name.clone(), types, severity, pattern, message })
    }
}

/// Unfolds `string_list_model` at an array value.
proof fn lemma_string_list_arr(v: ConfigValue, a: Vec<ConfigValue>, sf: Seq<char>, ef: Seq<char>)
    requires
        v == ConfigValue::Arr(a),
    ensures
        string_list_model(v, sf, ef) == strings_of_arr(a@, ef),
{
}

/// One global type definition read from `relint.types.add`: a name and one
/// glob, written either as a table or as a two-element array.
pub struct FileTypeDef {
    pub name: String,
    pub glob: String,
}

/// The name and glob a `relint.types.add` entry declares.
pub open spec fn typedef_entry_model(v: ConfigValue) -> Result<(Seq<char>, Seq<char>), FieldErrK> {
    match v {
        ConfigValue::Table(t) => match spec_table_lookup(t@, "name"@) {
            None => Err(FieldErrK::MissingField { field: "name"@ }),
            Some(nv) => match nv {
                ConfigValue::Str(n) => match spec_table_lookup(t@, "glob"@) {
                    None => Err(FieldErrK::MissingField { field: "glob"@ }),
                    Some(gv) => match gv {
                        ConfigValue::Str(g) => Ok((n@, g@)),
                        _ => Err(
                            FieldErrK::FieldType {
                                field: "glob"@,
                                expected: "string"@,
                                actual: spec_type_str(gv),
                            },
                        ),
                    },
                },
                _ => Err(
                    FieldErrK::FieldType {
                        field: "name"@,
                        expected: "string"@,
                        actual: spec_type_str(nv),
                    },
                ),
            },
        },
        ConfigValue::Arr(a) => if a@.len() == 0 {
            Err(
                FieldErrK::FieldType {
                    field: ""@,
                    expected: "[name, glob]"@,
                    actual: "[]"@,
                },
            )
        } else if a@.len() == 1 {
            Err(
                FieldErrK::FieldType {
                    field: ""@,
                    expected: "[name, glob]"@,
                    actual: "[name]"@,
                },
            )
        } else if a@.len() == 2 {
            match a@[0] {
                ConfigValue::Str(n) => match a@[1] {
                    ConfigValue::Str(g) => Ok((n@, g@)),
                    _ => Err(
                        FieldErrK::FieldType {
                            field: "1"@,
                            expected: "string"@,
                            actual: spec_type_str(a@[1]),
                        },
                    ),
                },
                _ => Err(
                    FieldErrK::FieldType {
                        field: "0"@,
                        expected: "string"@,
                        actual: spec_type_str(a@[0]),
                    },
                ),
            }
        } else {
            Err(
                FieldErrK::FieldType {
                    field: ""@,
                    expected: "[name, glob]"@,
                    actual: "[name, glob, ...]"@,
                },
            )
        },
        _ => Err(
            FieldErrK::FieldType {
                field: "relint.types.add[...]"@,
                expected: "table/array"@,
                actual: spec_type_str(v),
            },
        ),
    }
}

impl FileTypeDef {
    /// Read one `{name = .., glob = ..}` entry.
    pub fn new_from_table(typedef: &Vec<(String, ConfigValue)>) -> (r: Result<
        FileTypeDef,
        FieldError,
    >)
        ensures
            match r {
                Ok(d) => typedef_entry_model(ConfigValue::Table(*typedef)) == Ok::<
                    (Seq<char>, Seq<char>),
                    FieldErrK,
                >((d.name@, d.glob@)),
                Err(e) => typedef_entry_model(ConfigValue::Table(*typedef)) matches Err(k)
                    && field_err_matches(e, k),
            },
    {
        let name = match force_get(typedef, "name") {
            Ok(v) => v,
            Err(e) => {
                return Err(e);
            },
        };
        let name = match force_as_str(name, "name") {
            Ok(s) => s,
            Err(e) => {
                return Err(e);
            },
        };
        let glob = match force_get(typedef, "glob") {
            Ok(v) => v,
            Err(e) => {
                return Err(e);
            },
        };
        let glob = match force_as_str(glob, "glob") {
            Ok(s) => s,
            Err(e) => {
                return Err(e);
            },
        };
        Ok(FileTypeDef { name: name.clone(), glob: glob.clone() })
    }

    /// Read one `[name, glob]` entry: exactly two strings.
    pub fn new_from_array(typedef: &Vec<ConfigValue>) -> (r: Result<FileTypeDef, FieldError>)
        ensures
            match r {
                Ok(d) => typedef_entry_model(ConfigValue::Arr(*typedef)) == Ok::<
                    (Seq<char>, Seq<char>),
                    FieldErrK,
                >((d.name@, d.glob@)),
                Err(e) => typedef_entry_model(ConfigValue::Arr(*typedef)) matches Err(k)
                    && field_err_matches(e, k),
            },
    {
        if typedef.len() == 0 {
            Err(
                FieldError::new(
                    "",
                    SpecificFieldError::FieldType {
                        expected: "[name, glob]".to_owned(),
                        actual: "[]".to_owned(),
                    },
                ),
            )
        } else if typedef.len() == 1 {
            Err(
                FieldError::new(
                    "",
                    SpecificFieldError::FieldType {
                        expected: "[name, glob]".to_owned(),
                        actual: "[name]".to_owned(),
                    },
                ),
            )
        } else if typedef.len() == 2 {
            let name = match force_as_str(&typedef[0], "0") {
                Ok(s) => s,
                Err(e) => {
                    return Err(e);
                },
            };
            let glob = match force_as_str(&typedef[1], "1") {
                Ok(s) => s,
                Err(e) => {
                    return Err(e);
                },
            };
            Ok(FileTypeDef { name: name.clone(), glob: glob.clone() })
        } else {
            Err(
                FieldError::new(
                    "",
                    SpecificFieldError::FieldType {
                        expected: "[name, glob]".to_owned(),
                        actual: "[name, glob, ...]".to_owned(),
                    },
                ),
            )
        }
    }
}

/// Read one `relint.types.add` entry of either shape.
fn read_typedef_entry(v: &ConfigValue) -> (r: Result<FileTypeDef, FieldError>)
    ensures
        match r {
            Ok(d) => typedef_entry_model(*v) == Ok::<(Seq<char>, Seq<char>), FieldErrK>(
                (d.name@, d.glob@),
            ),
            Err(e) => typedef_entry_model(*v) matches Err(k) && field_err_matches(e, k),
        },
{
    match v {
        ConfigValue::Table(t) => {
            proof {
                assert(*v == ConfigValue::Table(*t));
            }
            FileTypeDef::new_from_table(t)
        },
        ConfigValue::Arr(a) => {
            proof {
                assert(*v == ConfigValue::Arr(*a));
            }
            FileTypeDef::new_from_array(a)
        },
        _ => Err(
            FieldError::new(
                "relint.types.add[...]",
                SpecificFieldError::FieldType {
                    expected: "table/array".to_owned(),
                    actual: v.type_str(),
                },
            ),
        ),
    }
}

/// The global `relint.types.<key>` value, when the document provides one.
/// A missing or differently shaped `relint` section simply provides none.
pub open spec fn global_section(root: ConfigValue, key: Seq<char>) -> Option<ConfigValue> {
    match root {
        ConfigValue::Table(t) => match spec_table_lookup(t@, "relint"@) {
            Some(ConfigValue::Table(t2)) => match spec_table_lookup(t2@, "types"@) {
                Some(ConfigValue::Table(t3)) => spec_table_lookup(t3@, key),
                _ => None,
            },
            _ => None,
        },
        _ => None,
    }
}

/// The entries of a global list: absent means empty; present but not an
/// array is an error named after the full key.
pub open spec fn global_list_model(root: ConfigValue, key: Seq<char>, full_key: Seq<char>) -> Result<
    Seq<ConfigValue>,
    FieldErrK,
> {
    match global_section(root, key) {
        None => Ok(Seq::empty()),
        Some(v) => match v {
            ConfigValue::Arr(a) => Ok(a@),
            _ => Err(
                FieldErrK::FieldType {
                    field: full_key,
                    expected: "array"@,
                    actual: spec_type_str(v),
                },
            ),
        },
    }
}

/// The registry after the `add` entries are applied left to right: each
/// valid entry inserts or overwrites one definition.
pub open spec fn apply_adds(defs: Seq<TypeDefV>, adds: Seq<ConfigValue>) -> Result<
    Seq<TypeDefV>,
    FieldErrK,
>
    decreases adds.len(),
{
    if adds.len() == 0 {
        Ok(defs)
    } else {
        match typedef_entry_model(adds[0]) {
            Err(k) => Err(k),
            Ok(ng) => if !glob_valid(ng.1) {
                Err(FieldErrK::TypeBuild { field: "relint.types.add[...]"@ })
            } else {
                apply_adds(insert_def(defs, TypeDefV { name: ng.0, globs: seq![ng.1] }), adds.skip(1))
            },
        }
    }
}

/// The registry after the `clear` entries are applied left to right: each
/// names a definition to remove; absent names are left alone.
pub open spec fn apply_clears(defs: Seq<TypeDefV>, clears: Seq<ConfigValue>) -> Result<
    Seq<TypeDefV>,
    FieldErrK,
>
    decreases clears.len(),
{
    if clears.len() == 0 {
        Ok(defs)
    } else {
        match clears[0] {
            ConfigValue::Str(s) => apply_clears(remove_def(defs, s@), clears.skip(1)),
            _ => Err(
                FieldErrK::FieldType {
                    field: "relint.types.clear[...]"@,
                    expected: "string"@,
                    actual: spec_type_str(clears[0]),
                },
            ),
        }
    }
}

/// The registry after the global `add` entries: the first phase of the
/// shared add/clear state.
pub open spec fn adds_phase(defaults: Seq<TypeDefV>, root: ConfigValue) -> Result<
    Seq<TypeDefV>,
    FieldErrK,
> {
    match global_list_model(root, "add"@, "relint.types.add"@) {
        Err(k) => Err(k),
        Ok(adds) => apply_adds(defaults, adds),
    }
}

/// The builder the shared phase produces: the default registry, the global
/// adds, then the global clears, with no marks applied.
pub open spec fn build_types_model(defaults: Seq<TypeDefV>, root: ConfigValue) -> Result<
    TypesBuilderV,
    FieldErrK,
> {
    match adds_phase(defaults, root) {
        Err(k) => Err(k),
        Ok(defs1) => match global_list_model(root, "clear"@, "relint.types.clear"@) {
            Err(k) => Err(k),
            Ok(clears) => match apply_clears(defs1, clears) {
                Err(k) => Err(k),
                Ok(defs2) => Ok(
                    TypesBuilderV {
                        defs: defs2,
                        selections: Seq::empty(),
                        negations: Seq::empty(),
                    },
                ),
            },
        },
    }
}

/// The rule one document entry compiles to: its value must be a table.
pub open spec fn lint_entry_model(
    rule: Seq<char>,
    settings: ConfigValue,
    b: TypesBuilderV,
) -> Result<LintV, FieldErrK> {
    match settings {
        ConfigValue::Table(t) => lint_model(rule, t@, b),
        _ => Err(
            FieldErrK::FieldType {
                field: rule,
                expected: "table"@,
                actual: spec_type_str(settings),
            },
        ),
    }
}

/// The mathematical shape of a compiled rule set.
pub open spec fn lints_view(s: Seq<Lint>) -> Seq<LintV> {
    s.map_values(|l: Lint| l@)
}

/// The rules the document's entries compile to, in document order, skipping
/// the reserved `relint` key; the first failing entry decides the error.
pub open spec fn lints_entries_model(
    entries: Seq<(String, ConfigValue)>,
    b: TypesBuilderV,
) -> Result<Seq<LintV>, FieldErrK>
    decreases entries.len(),
{
    if entries.len() == 0 {
        Ok(Seq::empty())
    } else if entries[0].0@ == "relint"@ {
        lints_entries_model(entries.skip(1), b)
    } else {
        match lint_entry_model(entries[0].0@, entries[0].1, b) {
            Err(k) => Err(k),
            Ok(l) => match lints_entries_model(entries.skip(1), b) {
                Ok(rest) => Ok(seq![l] + rest),
                Err(k) => Err(k),
            },
        }
    }
}

/// The rule set a whole document compiles to, against a given default
/// registry.
pub open spec fn lints_model(defaults: Seq<TypeDefV>, root: ConfigValue) -> Result<
    Seq<LintV>,
    FieldErrK,
> {
    match build_types_model(defaults, root) {
        Err(k) => Err(k),
        Ok(b) => match root {
            ConfigValue::Table(t) => lints_entries_model(t@, b),
            _ => Ok(Seq::empty()),
        },
    }
}

/// Compiles lint rules out of one parsed configuration document, against the
/// default file-type registry captured when the factory was made.
#[derive(Debug)]
pub struct TomlLintFactory {
    root: ConfigValue,
    defaults: Vec<crate::types::FileTypeDef>,
}

impl TomlLintFactory {
    /// The parsed document this factory reads.
    pub closed spec fn spec_root(&self) -> ConfigValue {
        self.root
    }

    /// The default file-type registry this factory starts from.
    pub closed spec fn spec_defaults(&self) -> Seq<TypeDefV> {
        defs_view(self.defaults@)
    }

    /// Parse configuration text. Fails, with the parser's description,
    /// exactly on text that is not a well-formed document.
    pub fn new(content: &str) -> (r: Result<TomlLintFactory, ConfigError>)
        ensures
            match r {
                Ok(f) => {
                    &&& toml_document(content@) == Some(f.spec_root())
                    &&& f.spec_root() is Table
                    &&& defs_unique(f.spec_defaults())
                },
                Err(e) => {
                    &&& toml_document(content@) is None
                    &&& e.file is None
                    &&& e.error is Syntax
                },
            },
    {
        match parse_document(content) {
            Ok(root) => Ok(TomlLintFactory { root, defaults: default_type_defs() }),
            Err(message) => Err(ConfigError::from_syntax(message)),
        }
    }

    /// The global `relint.types.<key>` value, when the document provides one.
    fn global_get<'a>(&'a self, key: &str) -> (r: Option<&'a ConfigValue>)
        ensures
            match r {
                Some(v) => global_section(self.spec_root(), key@) == Some(*v),
                None => global_section(self.spec_root(), key@) is None,
            },
    {
        match &self.root {
            ConfigValue::Table(t) => {
                proof {
                    assert(self.spec_root() == ConfigValue::Table(*t));
                }
                match table_lookup(t, &"relint".to_owned()) {
                    Some(relint) => match relint {
                        ConfigValue::Table(t2) => {
                            proof {
                                assert(*relint == ConfigValue::Table(*t2));
                            }
                            match table_lookup(t2, &"types".to_owned()) {
                                Some(types) => match types {
                                    ConfigValue::Table(t3) => {
                                        proof {
                                            assert(*types == ConfigValue::Table(*t3));
                                        }
                                        table_lookup(t3, &key.to_owned())
                                    },
                                    _ => None,
                                },
                                None => None,
                            }
                        },
                        _ => None,
                    },
                    None => None,
                }
            },
            _ => None,
        }
    }

    /// Build the shared file-type phase: the default registry, then the
    /// document's global `add` entries, then its global `clear` entries.
    pub fn build_types(&self) -> (r: Result<TypesBuilder, ConfigError>)
        ensures
            match r {
                Ok(b) => build_types_model(self.spec_defaults(), self.spec_root()) == Ok::<
                    TypesBuilderV,
                    FieldErrK,
                >(b@),
                Err(e) => {
                    &&& build_types_model(self.spec_defaults(), self.spec_root()) matches Err(k)
                        && e.error matches SpecificConfigError::Field(fe) && field_err_matches(
                        fe,
                        k,
                    )
                    &&& e.file is None
                },
            },
    {
        let mut btypes = TypesBuilder::from_defs(clone_defs(&self.defaults));
        match self.global_get("add") {
            None => {
                proof {
                    assert(apply_adds(self.spec_defaults(), Seq::<ConfigValue>::empty()) == Ok::<
                        Seq<TypeDefV>,
                        FieldErrK,
                    >(self.spec_defaults()));
                    assert(adds_phase(self.spec_defaults(), self.spec_root()) == Ok::<
                        Seq<TypeDefV>,
                        FieldErrK,
                    >(btypes@.defs));
                }
            },
            Some(v) => match v {
                ConfigValue::Arr(adds) => {
                    proof {
                        assert(*v == ConfigValue::Arr(*adds));
                        assert(adds@.skip(0) =~= adds@);
                    }
                    let mut i: usize = 0;
                    while i < adds.len()
                        invariant
                            0 <= i <= adds@.len(),
                            global_list_model(
                                self.spec_root(),
                                "add"@,
                                "relint.types.add"@,
                            ) == Ok::<Seq<ConfigValue>, FieldErrK>(adds@),
                            btypes@.selections =~= Seq::<Seq<char>>::empty(),
                            btypes@.negations =~= Seq::<Seq<char>>::empty(),
                            apply_adds(self.spec_defaults(), adds@) == apply_adds(
                                btypes@.defs,
                                adds@.skip(i as int),
                            ),
                        decreases adds@.len() - i,
                    {
                        proof {
                            assert(adds@.skip(i as int)[0] == adds@[i as int]);
                            assert(adds@.skip(i as int).skip(1) =~= adds@.skip(i as int + 1));
                        }
                        let d = match read_typedef_entry(&adds[i]) {
                            Ok(d) => d,
                            Err(e) => {
                                return Err(ConfigError::from_field(e));
                            },
                        };
                        match btypes.add(d.name.as_str(), d.glob.as_str()) {
                            Ok(()) => {},
                            Err(e) => {
                                return Err(
                                    ConfigError::from_field(
                                        FieldError::new("relint.types.add[...]", e),
                                    ),
                                );
                            },
                        }
                        i = i + 1;
                    }
                    proof {
                        assert(adds@.skip(adds@.len() as int).len() == 0);
                        assert(adds_phase(self.spec_defaults(), self.spec_root()) == Ok::<
                            Seq<TypeDefV>,
                            FieldErrK,
                        >(btypes@.defs));
                    }
                },
                _ => {
                    return Err(
                        ConfigError::from_field(
                            FieldError::new(
                                "relint.types.add",
                                SpecificFieldError::FieldType {
                                    expected: "array".to_owned(),
                                    actual: v.type_str(),
                                },
                            ),
                        ),
                    );
                },
            },
        }
        let ghost defs1 = btypes@.defs;
        match self.global_get("clear") {
            None => {
                proof {
                    assert(apply_clears(defs1, Seq::<ConfigValue>::empty()) == Ok::<
                        Seq<TypeDefV>,
                        FieldErrK,
                    >(defs1));
                    assert(build_types_model(self.spec_defaults(), self.spec_root()) == Ok::<
                        TypesBuilderV,
                        FieldErrK,
                    >(
                        TypesBuilderV {
                            defs: btypes@.defs,
                            selections: Seq::empty(),
                            negations: Seq::empty(),
                        },
                    ));
                }
            },
            Some(v) => match v {
                ConfigValue::Arr(clears) => {
                    proof {
                        assert(*v == ConfigValue::Arr(*clears));
                        assert(clears@.skip(0) =~= clears@);
                    }
                    let mut i: usize = 0;
                    while i < clears.len()
                        invariant
                            0 <= i <= clears@.len(),
                            adds_phase(self.spec_defaults(), self.spec_root()) == Ok::<
                                Seq<TypeDefV>,
                                FieldErrK,
                            >(defs1),
                            global_list_model(
                                self.spec_root(),
                                "clear"@,
                                "relint.types.clear"@,
                            ) == Ok::<Seq<ConfigValue>, FieldErrK>(clears@),
                            btypes@.selections =~= Seq::<Seq<char>>::empty(),
                            btypes@.negations =~= Seq::<Seq<char>>::empty(),
                            apply_clears(defs1, clears@) == apply_clears(
                                btypes@.defs,
                                clears@.skip(i as int),
                            ),
                        decreases clears@.len() - i,
                    {
                        proof {
                            assert(clears@.skip(i as int)[0] == clears@[i as int]);
                            assert(clears@.skip(i as int).skip(1) =~= clears@.skip(i as int + 1));
                        }
                        let s = match force_as_str(&clears[i], "relint.types.clear[...]") {
                            Ok(s) => s,
                            Err(e) => {
                                proof {
                                    assert(apply_clears(defs1, clears@) matches Err(k)
                                        && build_types_model(
                                        self.spec_defaults(),
                                        self.spec_root(),
                                    ) == Err::<TypesBuilderV, FieldErrK>(k));
                                }
                                return Err(ConfigError::from_field(e));
                            },
                        };
                        btypes.clear(s.as_str());
                        i = i + 1;
                    }
                    proof {
                        assert(clears@.skip(clears@.len() as int).len() == 0);
                        assert(build_types_model(self.spec_defaults(), self.spec_root()) == Ok::<
                            TypesBuilderV,
                            FieldErrK,
                        >(
                            TypesBuilderV {
                                defs: btypes@.defs,
                                selections: Seq::empty(),
                                negations: Seq::empty(),
                            },
                        ));
                    }
                },
                _ => {
                    return Err(
                        ConfigError::from_field(
                            FieldError::new(
                                "relint.types.clear",
                                SpecificFieldError::FieldType {
                                    expected: "array".to_owned(),
                                    actual: v.type_str(),
                                },
                            ),
                        ),
                    );
                },
            },
        }
        proof {
            assert(btypes@ == TypesBuilderV {
                defs: btypes@.defs,
                selections: Seq::empty(),
                negations: Seq::empty(),
            });
        }
        Ok(btypes)
    }

    /// Compile one rule entry: its value must be a table.
    fn build_lint(&self, check_name: &String, settings: &ConfigValue, btypes: TypesBuilder) -> (r:
        Result<Lint, ConfigError>)
        ensures
            match r {
                Ok(l) => lint_entry_model(check_name@, *settings, btypes@) == Ok::<
                    LintV,
                    FieldErrK,
                >(l@),
                Err(e) => {
                    &&& lint_entry_model(check_name@, *settings, btypes@) matches Err(k)
                        && e.error matches SpecificConfigError::Field(fe) && field_err_matches(
                        fe,
                        k,
                    )
                    &&& e.file is None
                },
            },
    {
        match settings {
            ConfigValue::Table(t) => {
                proof {
                    assert(*settings == ConfigValue::Table(*t));
                }
                match Lint::new_from_table(check_name, t, btypes) {
                    Ok(l) => Ok(l),
                    Err(e) => Err(ConfigError::from_field(e)),
                }
            },
            _ => Err(
                ConfigError::from_field(
                    FieldError::new(
                        check_name.as_str(),
                        SpecificFieldError::FieldType {
                            expected: "table".to_owned(),
                            actual: settings.type_str(),
                        },
                    ),
                ),
            ),
        }
    }

    /// Compile every rule the document declares, in document order, skipping
    /// the reserved `relint` key. A single malformed rule fails the whole
    /// run: no rule is silently dropped.
    pub fn build_lints(&self) -> (r: Result<Vec<Lint>, ConfigError>)
        ensures
            match r {
                Ok(v) => lints_model(self.spec_defaults(), self.spec_root()) == Ok::<
                    Seq<LintV>,
                    FieldErrK,
                >(lints_view(v@)),
                Err(e) => {
                    &&& lints_model(self.spec_defaults(), self.spec_root()) matches Err(k)
                        && e.error matches SpecificConfigError::Field(fe) && field_err_matches(
                        fe,
                        k,
                    )
                    &&& e.file is None
                },
            },
    {
        let btypes = match self.build_types() {
            Ok(b) => b,
            Err(e) => {
                return Err(e);
            },
        };
        match &self.root {
            ConfigValue::Table(entries) => {
                proof {
                    assert(self.spec_root() == ConfigValue::Table(*entries));
                    assert(entries@.skip(0) =~= entries@);
                }
                let mut out: Vec<Lint> = Vec::new();
                let mut i: usize = 0;
                while i < entries.len()
                    invariant
                        0 <= i <= entries@.len(),
                        self.spec_root() == ConfigValue::Table(*entries),
                        build_types_model(self.spec_defaults(), self.spec_root()) == Ok::<
                            TypesBuilderV,
                            FieldErrK,
                        >(btypes@),
                        match lints_entries_model(entries@.skip(i as int), btypes@) {
                            Ok(rest) => lints_entries_model(entries@, btypes@) == Ok::<
                                Seq<LintV>,
                                FieldErrK,
                            >(lints_view(out@) + rest),
                            Err(k) => lints_entries_model(entries@, btypes@) == Err::<
                                Seq<LintV>,
                                FieldErrK,
                            >(k),
                        },
                    decreases entries@.len() - i,
                {
                    proof {
                        assert(entries@.skip(i as int)[0] == entries@[i as int]);
                        assert(entries@.skip(i as int).skip(1) =~= entries@.skip(i as int + 1));
                    }
                    if entries[i].0 == "relint".to_owned() {
                    } else {
                        match self.build_lint(&entries[i].0, &entries[i].1, btypes.snapshot()) {
                            Ok(l) => {
                                let ghost old_out = out@;
                                out.push(l);
                                proof {
                                    assert(lints_view(out@) =~= lints_view(old_out).push(l@));
                                    if lints_entries_model(
                                        entries@.skip(i as int + 1),
                                        btypes@,
                                    ) is Ok {
                                        let rest = lints_entries_model(
                                            entries@.skip(i as int + 1),
                                            btypes@,
                                        )->Ok_0;
                                        assert(lints_view(old_out) + (seq![l@] + rest)
                                            =~= lints_view(out@) + rest);
                                    }
                                }
                            },
                            Err(e) => {
                                return Err(e);
                            },
                        }
                    }
                    i = i + 1;
                }
                proof {
                    assert(entries@.skip(entries@.len() as int).len() == 0);
                    assert(lints_view(out@) + Seq::<LintV>::empty() =~= lints_view(out@));
                }
                Ok(out)
            },
            _ => {
                let out: Vec<Lint> = Vec::new();
                proof {
                    assert(lints_view(out@) =~= Seq::<LintV>::empty());
                }
                Ok(out)
            },
        }
    }
}

} // verus!
