use vstd::prelude::*;
use vstd::string::StringExecFns;
use crate::ebi_error::InputError;
use crate::ebi_file_handler::{
    all_handler_positions, all_handlers, handler_displays, handler_latex_displays,
    java_handlers_concat, java_views, object_supporting_handlers, trait_supporting_handlers,
    EbiFileHandler, JavaObjectHandler, JavaObjectHandlerView,
};
use crate::ebi_object::{EbiObject, EbiObjectType, EbiTraitObject};
use crate::ebi_trait::EbiTrait;
use crate::fraction::Fraction;
use crate::prom_link::{
    java_object_handlers_fraction, java_object_handlers_fraction_spec,
    java_object_handlers_string, java_object_handlers_string_spec, java_object_handlers_usize,
    java_object_handlers_usize_spec,
};
use crate::text::{
    contains_string, dedup_first, join_with, join_with_spec, lemma_dedup_first_contains,
    lemma_dedup_first_distinct, string_views,
};

verus! {

/// One resolved input, as handed to a command implementation: a tagged
/// value created once per slot per invocation. Resolved capability objects
/// and concrete objects carry the catalog position of the handler whose
/// importer won.
pub enum EbiInput {
    Trait(EbiTraitObject, usize),
    Object(EbiObject, usize),
    String(String),
    Usize(usize),
    FileHandler(EbiFileHandler),
    Fraction(Fraction),
}

/// What a single command argument position accepts: one capability, one
/// concrete object kind, any object, the name of a file handler, free
/// text, an unsigned integer, or an exact fraction. Used only for
/// validation, documentation and value-parser selection; it carries no
/// runtime object.
#[derive(Clone, Copy, Debug, PartialEq, Eq, Structural)]
pub enum EbiInputType {
    Trait(EbiTrait),
    Object(EbiObjectType),
    AnyObject,
    FileHandler,
    String,
    Usize,
    Fraction,
}

/// A consumer's view of a resolved input: the concrete type a command
/// parameter wants to receive. Implemented by the types that commands take
/// out of an `EbiInput`.
pub trait FromEbiTraitObject: Sized {
    /// The value this type extracts from the given resolved input, if the
    /// input is of the matching shape.
    spec fn accepts(input: EbiInput) -> Option<Self>;

    /// Extract the value, or reject the input as being of the wrong type.
    fn from_trait_object(input: EbiInput) -> (r: Result<Self, InputError>)
        ensures
            match Self::accepts(input) {
                Some(v) => r matches Ok(rv) && rv == v,
                None => r matches Err(e) && e matches InputError::WrongType { .. },
            },
    ;
}

impl FromEbiTraitObject for usize {
    open spec fn accepts(input: EbiInput) -> Option<usize> {
        match input {
            EbiInput::Usize(u) => Some(u),
            _ => None,
        }
    }

    fn from_trait_object(input: EbiInput) -> (r: Result<usize, InputError>) {
        match input {
            EbiInput::Usize(u) => Ok(u),
            _ => {
                let mut requested = String::new();
                requested.append("integer");
                Err(InputError::WrongType { requested })
            },
        }
    }
}

impl FromEbiTraitObject for String {
    open spec fn accepts(input: EbiInput) -> Option<String> {
        match input {
            EbiInput::String(s) => Some(s),
            _ => None,
        }
    }

    fn from_trait_object(input: EbiInput) -> (r: Result<String, InputError>) {
        match input {
            EbiInput::String(s) => Ok(s),
            _ => {
                let mut requested = String::new();
                requested.append("text");
                Err(InputError::WrongType { requested })
            },
        }
    }
}

impl FromEbiTraitObject for Fraction {
    open spec fn accepts(input: EbiInput) -> Option<Fraction> {
        match input {
            EbiInput::Fraction(f) => Some(f),
            _ => None,
        }
    }

    fn from_trait_object(input: EbiInput) -> (r: Result<Fraction, InputError>) {
        match input {
            EbiInput::Fraction(f) => Ok(f),
            _ => {
                let mut requested = String::new();
                requested.append("fraction");
                Err(InputError::WrongType { requested })
            },
        }
    }
}

impl EbiInput {
    /// Hand the resolved value to a consumer expecting type `T`.
    pub fn to_type<T: FromEbiTraitObject>(self) -> (r: Result<Box<T>, InputError>)
        ensures
            match T::accepts(self) {
                Some(v) => r matches Ok(b) && b == v,
                None => r matches Err(e) && e matches InputError::WrongType { .. },
            },
    {
        match T::from_trait_object(self) {
            Ok(v) => Ok(Box::new(v)),
            Err(e) => Err(e),
        }
    }

    /// The slot type this resolved value belongs to.
    pub open spec fn get_type_spec(self) -> EbiInputType {
        match self {
            EbiInput::Trait(t, _) => EbiInputType::Trait(t.get_trait_spec()),
            EbiInput::Object(o, _) => EbiInputType::Object(o.get_type_spec()),
            EbiInput::String(_) => EbiInputType::String,
            EbiInput::Usize(_) => EbiInputType::Usize,
            EbiInput::FileHandler(_) => EbiInputType::FileHandler,
            EbiInput::Fraction(_) => EbiInputType::Fraction,
        }
    }

    /// The slot type this resolved value belongs to.
    pub fn get_type(&self) -> (r: EbiInputType)
        ensures
            r == self.get_type_spec(),
    {
        match self {
            EbiInput::Trait(t, _) => EbiInputType::Trait(t.get_trait()),
            EbiInput::Object(o, _) => EbiInputType::Object(o.get_type()),
            EbiInput::String(_) => EbiInputType::String,
            EbiInput::Usize(_) => EbiInputType::Usize,
            EbiInput::FileHandler(_) => EbiInputType::FileHandler,
            EbiInput::Fraction(_) => EbiInputType::Fraction,
        }
    }
}

/// The single primitive value-acceptance grammar selected for one CLI
/// argument position.
#[derive(Clone, Copy, Debug, PartialEq, Eq, Structural)]
pub enum ValueParserKind {
    /// A path to a file, or "-" for standard input.
    Path,
    /// Free text.
    Text,
    /// An unsigned integer.
    Integer,
    /// The name of a registered file handler.
    FileHandlerName,
    /// An exact fraction, kept unparsed until the slot is resolved.
    FractionLiteral,
}

impl EbiInputType {
    /// The indefinite article of the slot type's name.
    pub open spec fn article_spec(self) -> Seq<char> {
        match self {
            EbiInputType::Trait(t) => t.article_spec(),
            EbiInputType::Object(o) => o.article_spec(),
            EbiInputType::AnyObject => "an"@,
            EbiInputType::String => "a"@,
            EbiInputType::Usize => "an"@,
            EbiInputType::FileHandler => "a"@,
            EbiInputType::Fraction => "a"@,
        }
    }

    /// The indefinite article ("a" or "an") that precedes the slot type's
    /// name in a sentence.
    pub fn get_article(&self) -> (r: &'static str)
        ensures
            r@ == self.article_spec(),
    {
        match self {
            EbiInputType::Trait(t) => t.get_article(),
            EbiInputType::Object(o) => o.get_article(),
            EbiInputType::AnyObject => "an",
            EbiInputType::String => "a",
            EbiInputType::Usize => "an",
            EbiInputType::FileHandler => "a",
            EbiInputType::Fraction => "a",
        }
    }

    /// The name of the slot type.
    pub open spec fn name_spec(self) -> Seq<char> {
        match self {
            EbiInputType::Trait(t) => t.name_spec(),
            EbiInputType::Object(o) => o.name_spec(),
            EbiInputType::AnyObject => "object"@,
            EbiInputType::String => "text"@,
            EbiInputType::Usize => "integer"@,
            EbiInputType::FileHandler => "file"@,
            EbiInputType::Fraction => "fraction"@,
        }
    }

    /// The name of the slot type, used in listings and error messages.
    pub fn name(&self) -> (r: String)
        ensures
            r@ == self.name_spec(),
    {
        match self {
            EbiInputType::Trait(t) => t.name(),
            EbiInputType::Object(o) => o.name(),
            EbiInputType::AnyObject => "object".to_owned(),
            EbiInputType::String => "text".to_owned(),
            EbiInputType::Usize => "integer".to_owned(),
            EbiInputType::FileHandler => "file".to_owned(),
            EbiInputType::Fraction => "fraction".to_owned(),
        }
    }

    /// The grammar that one alternative selects.
    pub open spec fn parser_kind_spec(self) -> ValueParserKind {
        match self {
            EbiInputType::Trait(_) => ValueParserKind::Path,
            EbiInputType::Object(_) => ValueParserKind::Path,
            EbiInputType::AnyObject => ValueParserKind::Path,
            EbiInputType::String => ValueParserKind::Text,
            EbiInputType::Usize => ValueParserKind::Integer,
            EbiInputType::FileHandler => ValueParserKind::FileHandlerName,
            EbiInputType::Fraction => ValueParserKind::FractionLiteral,
        }
    }

    /// Select the value-acceptance grammar for one CLI position from its
    /// ordered list of acceptable alternatives.
    ///
    /// Only the first alternative decides: a slot that accepts
    /// heterogeneous alternatives degrades to the first alternative's
    /// grammar. This is a documented simplification of the slot design,
    /// reproduced as it stands.
    pub fn get_parser_of_list(traits: &[EbiInputType]) -> (r: ValueParserKind)
        requires
            traits@.len() >= 1,
        ensures
            r == traits@[0].parser_kind_spec(),
    {
        match traits[0] {
            EbiInputType::Trait(_) => ValueParserKind::Path,
            EbiInputType::Object(_) => ValueParserKind::Path,
            EbiInputType::AnyObject => ValueParserKind::Path,
            EbiInputType::String => ValueParserKind::Text,
            EbiInputType::Usize => ValueParserKind::Integer,
            EbiInputType::FileHandler => ValueParserKind::FileHandlerName,
            EbiInputType::Fraction => ValueParserKind::FractionLiteral,
        }
    }

    /// The display names of the given handler positions, for listings and
    /// error messages.
    pub fn show_file_handlers(catalog: &Vec<EbiFileHandler>, file_handlers: &Vec<usize>) -> (r:
        Vec<String>)
        requires
            forall|k: int| 0 <= k < file_handlers@.len() ==> file_handlers@[k] < catalog@.len(),
        ensures
            crate::text::string_views(r@) == handler_displays(catalog@, file_handlers@),
    {
        let mut r: Vec<String> = Vec::new();
        let mut k: usize = 0;
        while k < file_handlers.len()
            invariant
                0 <= k <= file_handlers@.len(),
                forall|j: int| 0 <= j < file_handlers@.len() ==> file_handlers@[j] < catalog@.len(),
                crate::text::string_views(r@) =~= handler_displays(
                    catalog@,
                    file_handlers@.take(k as int),
                ),
            decreases file_handlers@.len() - k,
        {
            let s = catalog[file_handlers[k]].display_string();
            let ghost prev = r@;
            r.push(s);
            proof {
                lemma_string_views_push_step(
                    prev,
                    s,
                    handler_displays(catalog@, file_handlers@.take(k as int)),
                );
                assert(handler_displays(catalog@, file_handlers@.take(k + 1 as int))
                    =~= handler_displays(catalog@, file_handlers@.take(k as int)).push(
                    catalog@[file_handlers@[k as int] as int].display_spec(),
                ));
            }
            k = k + 1;
        }
        proof {
            assert(file_handlers@.take(file_handlers@.len() as int) =~= file_handlers@);
        }
        r
    }

    /// The LaTeX cross-referenced display names of the given handler
    /// positions.
    pub fn show_file_handlers_latex(
        catalog: &Vec<EbiFileHandler>,
        file_handlers: &Vec<usize>,
    ) -> (r: Vec<String>)
        requires
            forall|k: int| 0 <= k < file_handlers@.len() ==> file_handlers@[k] < catalog@.len(),
        ensures
            crate::text::string_views(r@) == handler_latex_displays(catalog@, file_handlers@),
    {
        let mut r: Vec<String> = Vec::new();
        let mut k: usize = 0;
        while k < file_handlers.len()
            invariant
                0 <= k <= file_handlers@.len(),
                forall|j: int| 0 <= j < file_handlers@.len() ==> file_handlers@[j] < catalog@.len(),
                crate::text::string_views(r@) =~= handler_latex_displays(
                    catalog@,
                    file_handlers@.take(k as int),
                ),
            decreases file_handlers@.len() - k,
        {
            let s = catalog[file_handlers[k]].latex_display_string();
            let ghost prev = r@;
            r.push(s);
            proof {
                lemma_string_views_push_step(
                    prev,
                    s,
                    handler_latex_displays(catalog@, file_handlers@.take(k as int)),
                );
                assert(handler_latex_displays(catalog@, file_handlers@.take(k + 1 as int))
                    =~= handler_latex_displays(catalog@, file_handlers@.take(k as int)).push(
                    catalog@[file_handlers@[k as int] as int].latex_display_spec(),
                ));
            }
            k = k + 1;
        }
        proof {
            assert(file_handlers@.take(file_handlers@.len() as int) =~= file_handlers@);
        }
        r
    }

    /// The interop descriptors of the given handler positions, flattened in
    /// catalog order and deduplicated by identity across the positions; the
    /// order is otherwise preserved.
    pub fn get_file_handlers_java(
        catalog: &Vec<EbiFileHandler>,
        file_handlers: &Vec<usize>,
    ) -> (r: Vec<JavaObjectHandler>)
        requires
            forall|k: int| 0 <= k < file_handlers@.len() ==> file_handlers@[k] < catalog@.len(),
        ensures
            java_views(r@) == dedup_first(java_handlers_concat(catalog@, file_handlers@)),
    {
        let mut r: Vec<JavaObjectHandler> = Vec::new();
        let mut k: usize = 0;
        while k < file_handlers.len()
            invariant
                0 <= k <= file_handlers@.len(),
                forall|j: int| 0 <= j < file_handlers@.len() ==> file_handlers@[j] < catalog@.len(),
                java_views(r@) =~= dedup_first(
                    java_handlers_concat(catalog@, file_handlers@.take(k as int)),
                ),
            decreases file_handlers@.len() - k,
        {
            let handler = &catalog[file_handlers[k]];
            let ghost base = java_handlers_concat(catalog@, file_handlers@.take(k as int));
            let ghost chunk = java_views(handler.java_object_handlers@);
            let m = handler.java_object_handlers.len();
            let mut t: usize = 0;
            while t < m
                invariant
                    0 <= t <= m,
                    k < file_handlers@.len(),
                    forall|j: int|
                        0 <= j < file_handlers@.len() ==> file_handlers@[j] < catalog@.len(),
                    handler == catalog@[file_handlers@[k as int] as int],
                    m == handler.java_object_handlers@.len(),
                    chunk == java_views(handler.java_object_handlers@),
                    java_views(r@) =~= dedup_first(base + chunk.take(t as int)),
                decreases m - t,
            {
                proof {
                    assert((base + chunk.take(t + 1 as int)).drop_last() =~= base + chunk.take(
                        t as int,
                    ));
                    assert((base + chunk.take(t + 1 as int)).last() == chunk[t as int]);
                    assert(chunk[t as int] == handler.java_object_handlers@[t as int]@);
                }
                if !contains_java_handler(&r, &handler.java_object_handlers[t]) {
                    let d = handler.java_object_handlers[t].duplicate();
                    let ghost prev = r@;
                    r.push(d);
                    proof {
                        lemma_java_views_push_step(
                            prev,
                            d,
                            dedup_first(base + chunk.take(t as int)),
                        );
                    }
                }
                t = t + 1;
            }
            proof {
                assert(chunk.take(m as int) =~= chunk);
                assert(file_handlers@.take(k + 1 as int).drop_last() =~= file_handlers@.take(
                    k as int,
                ));
                assert(file_handlers@.take(k + 1 as int).last() == file_handlers@[k as int]);
                assert(base + chunk =~= java_handlers_concat(
                    catalog@,
                    file_handlers@.take(k + 1 as int),
                ));
            }
            k = k + 1;
        }
        proof {
            assert(file_handlers@.take(file_handlers@.len() as int) =~= file_handlers@);
        }
        r
    }
}

/// The sentence describing a file-handler-name slot: it lists every file
/// extension the catalog supports.
pub open spec fn file_extension_sentence(catalog: Seq<EbiFileHandler>) -> Seq<char> {
    "the file extension of any file type supported by Ebi ("@ + join_with_spec(
        catalog.map_values(|h: EbiFileHandler| h.file_extension@),
        ", "@,
        " or "@,
    ) + ")"@
}

/// The human-readable descriptions one alternative contributes to a slot's
/// possible inputs: the supporting handlers' display names for a
/// capability, an object kind or "any object", and a fixed description for
/// each primitive.
pub open spec fn input_descriptions(
    it: EbiInputType,
    catalog: Seq<EbiFileHandler>,
    latex: bool,
) -> Seq<Seq<char>> {
    match it {
        EbiInputType::Trait(t) => {
            if latex {
                handler_latex_displays(catalog, trait_supporting_handlers(catalog, t))
            } else {
                handler_displays(catalog, trait_supporting_handlers(catalog, t))
            }
        },
        EbiInputType::Object(o) => {
            if latex {
                handler_latex_displays(catalog, object_supporting_handlers(catalog, o))
            } else {
                handler_displays(catalog, object_supporting_handlers(catalog, o))
            }
        },
        EbiInputType::AnyObject => {
            if latex {
                handler_latex_displays(catalog, all_handler_positions(catalog))
            } else {
                handler_displays(catalog, all_handler_positions(catalog))
            }
        },
        EbiInputType::String => seq!["text"@],
        EbiInputType::Usize => seq!["integer"@],
        EbiInputType::FileHandler => seq![file_extension_sentence(catalog)],
        EbiInputType::Fraction => seq!["fraction"@],
    }
}

/// The descriptions all alternatives of a slot contribute, in order.
pub open spec fn all_input_descriptions(
    its: Seq<EbiInputType>,
    catalog: Seq<EbiFileHandler>,
    latex: bool,
) -> Seq<Seq<char>>
    decreases its.len(),
{
    if its.len() == 0 {
        Seq::empty()
    } else {
        all_input_descriptions(its.drop_last(), catalog, latex) + input_descriptions(
            its.last(),
            catalog,
            latex,
        )
    }
}

/// The interop descriptors one alternative contributes: those of the
/// supporting handlers for a capability, an object kind or "any object",
/// the fixed descriptors of the primitives, and none for a
/// file-handler-name slot.
pub open spec fn java_object_handlers_spec(
    it: EbiInputType,
    catalog: Seq<EbiFileHandler>,
) -> Seq<JavaObjectHandlerView> {
    match it {
        EbiInputType::Trait(t) => dedup_first(
            java_handlers_concat(catalog, trait_supporting_handlers(catalog, t)),
        ),
        EbiInputType::Object(o) => dedup_first(
            java_handlers_concat(catalog, object_supporting_handlers(catalog, o)),
        ),
        EbiInputType::AnyObject => dedup_first(
            java_handlers_concat(catalog, all_handler_positions(catalog)),
        ),
        EbiInputType::String => java_object_handlers_string_spec(),
        EbiInputType::Usize => java_object_handlers_usize_spec(),
        EbiInputType::FileHandler => Seq::empty(),
        EbiInputType::Fraction => java_object_handlers_fraction_spec(),
    }
}

/// The interop descriptors all alternatives of a slot contribute, in order.
pub open spec fn all_java_object_handlers(
    its: Seq<EbiInputType>,
    catalog: Seq<EbiFileHandler>,
) -> Seq<JavaObjectHandlerView>
    decreases its.len(),
{
    if its.len() == 0 {
        Seq::empty()
    } else {
        all_java_object_handlers(its.drop_last(), catalog) + java_object_handlers_spec(
            its.last(),
            catalog,
        )
    }
}

/// The subsequence of descriptors that carry a host-to-core translator
/// entry point.
pub open spec fn importable_only(s: Seq<JavaObjectHandlerView>) -> Seq<JavaObjectHandlerView>
    decreases s.len(),
{
    if s.len() == 0 {
        Seq::empty()
    } else {
        importable_only(s.drop_last()) + if s.last().translator_java_to_ebi is Some {
            seq![s.last()]
        } else {
            Seq::empty()
        }
    }
}

impl EbiInputType {
    /// The descriptions this alternative contributes to a slot's possible
    /// inputs.
    fn descriptions(&self, catalog: &Vec<EbiFileHandler>, latex: bool) -> (r: Vec<String>)
        ensures
            string_views(r@) == input_descriptions(*self, catalog@, latex),
    {
        match self {
            EbiInputType::Trait(t) => {
                let hs = t.get_file_handlers(catalog);
                if latex {
                    Self::show_file_handlers_latex(catalog, &hs)
                } else {
                    Self::show_file_handlers(catalog, &hs)
                }
            },
            EbiInputType::Object(o) => {
                let hs = o.get_file_handlers(catalog);
                if latex {
                    Self::show_file_handlers_latex(catalog, &hs)
                } else {
                    Self::show_file_handlers(catalog, &hs)
                }
            },
            EbiInputType::AnyObject => {
                let hs = all_handlers(catalog);
                if latex {
                    Self::show_file_handlers_latex(catalog, &hs)
                } else {
                    Self::show_file_handlers(catalog, &hs)
                }
            },
            EbiInputType::String => {
                let mut r: Vec<String> = Vec::new();
                r.push("text".to_owned());
                proof {
                    assert(string_views(r@) =~= seq!["text"@]);
                }
                r
            },
            EbiInputType::Usize => {
                let mut r: Vec<String> = Vec::new();
                r.push("integer".to_owned());
                proof {
                    assert(string_views(r@) =~= seq!["integer"@]);
                }
                r
            },
            EbiInputType::FileHandler => {
                let mut extensions: Vec<String> = Vec::new();
                let mut k: usize = 0;
                while k < catalog.len()
                    invariant
                        0 <= k <= catalog@.len(),
                        string_views(extensions@) =~= catalog@.take(k as int).map_values(
                            |h: EbiFileHandler| h.file_extension@,
                        ),
                    decreases catalog@.len() - k,
                {
                    let e = catalog[k].file_extension.clone();
                    let ghost prev = extensions@;
                    extensions.push(e);
                    proof {
                        lemma_string_views_push_step(
                            prev,
                            e,
                            catalog@.take(k as int).map_values(
                                |h: EbiFileHandler| h.file_extension@,
                            ),
                        );
                        assert(catalog@.take(k + 1 as int).map_values(
                            |h: EbiFileHandler| h.file_extension@,
                        ) =~= catalog@.take(k as int).map_values(
                            |h: EbiFileHandler| h.file_extension@,
                        ).push(catalog@[k as int].file_extension@));
                    }
                    k = k + 1;
                }
                proof {
                    assert(catalog@.take(catalog@.len() as int) =~= catalog@);
                }
                let joined = join_with(&extensions, ", ", " or ");
                let mut s = String::new();
                s.append("the file extension of any file type supported by Ebi (");
                s.append(joined.as_str());
                s.append(")");
                let mut r: Vec<String> = Vec::new();
                r.push(s);
                proof {
                    assert(string_views(r@) =~= seq![file_extension_sentence(catalog@)]);
                }
                r
            },
            EbiInputType::Fraction => {
                let mut r: Vec<String> = Vec::new();
                r.push("fraction".to_owned());
                proof {
                    assert(string_views(r@) =~= seq!["fraction"@]);
                }
                r
            },
        }
    }

    /// The shared traversal of the possible-inputs queries: union the
    /// descriptions of every alternative, keeping the first occurrence of
    /// each and dropping repetitions.
    fn collect_possible_inputs(
        traits: &[EbiInputType],
        catalog: &Vec<EbiFileHandler>,
        latex: bool,
    ) -> (r: Vec<String>)
        ensures
            string_views(r@) == dedup_first(all_input_descriptions(traits@, catalog@, latex)),
    {
        let mut r: Vec<String> = Vec::new();
        let mut t: usize = 0;
        while t < traits.len()
            invariant
                0 <= t <= traits@.len(),
                string_views(r@) =~= dedup_first(
                    all_input_descriptions(traits@.take(t as int), catalog@, latex),
                ),
            decreases traits@.len() - t,
        {
            let ds = traits[t].descriptions(catalog, latex);
            let ghost base = all_input_descriptions(traits@.take(t as int), catalog@, latex);
            let ghost chunk = input_descriptions(traits@[t as int], catalog@, latex);
            let mut m: usize = 0;
            while m < ds.len()
                invariant
                    0 <= m <= ds@.len(),
                    string_views(ds@) == chunk,
                    string_views(r@) =~= dedup_first(base + chunk.take(m as int)),
                decreases ds@.len() - m,
            {
                proof {
                    assert((base + chunk.take(m + 1 as int)).drop_last() =~= base + chunk.take(
                        m as int,
                    ));
                    assert((base + chunk.take(m + 1 as int)).last() == chunk[m as int]);
                    assert(chunk[m as int] == ds@[m as int]@);
                }
                if !contains_string(&r, &ds[m]) {
                    let d = ds[m].clone();
                    let ghost prev = r@;
                    r.push(d);
                    proof {
                        lemma_string_views_push_step(
                            prev,
                            d,
                            dedup_first(base + chunk.take(m as int)),
                        );
                    }
                }
                m = m + 1;
            }
            proof {
                assert(chunk.take(ds@.len() as int) =~= chunk);
                assert(traits@.take(t + 1 as int).drop_last() =~= traits@.take(t as int));
                assert(traits@.take(t + 1 as int).last() == traits@[t as int]);
                assert(base + chunk =~= all_input_descriptions(
                    traits@.take(t + 1 as int),
                    catalog@,
                    latex,
                ));
            }
            t = t + 1;
        }
        proof {
            assert(traits@.take(traits@.len() as int) =~= traits@);
        }
        r
    }

    /// The deduplicated, human-readable descriptions of everything a slot
    /// with the given alternatives accepts.
    pub fn get_possible_inputs(traits: &[EbiInputType], catalog: &Vec<EbiFileHandler>) -> (r: Vec<
        String,
    >)
        ensures
            string_views(r@) == dedup_first(all_input_descriptions(traits@, catalog@, false)),
    {
        Self::collect_possible_inputs(traits, catalog, false)
    }

    /// The possible-inputs descriptions with LaTeX cross-reference markup
    /// on the format names.
    pub fn get_possible_inputs_with_latex(
        traits: &[EbiInputType],
        catalog: &Vec<EbiFileHandler>,
    ) -> (r: Vec<String>)
        ensures
            string_views(r@) == dedup_first(all_input_descriptions(traits@, catalog@, true)),
    {
        Self::collect_possible_inputs(traits, catalog, true)
    }

    /// Render the possible inputs of a slot as a natural-language list,
    /// with the caller's connector before the final entry.
    pub fn possible_inputs_as_strings_with_articles(
        traits: &[EbiInputType],
        catalog: &Vec<EbiFileHandler>,
        last_connector: &str,
    ) -> (r: String)
        ensures
            r@ == join_with_spec(
                dedup_first(all_input_descriptions(traits@, catalog@, false)),
                ", "@,
                last_connector@,
            ),
    {
        let list = Self::get_possible_inputs(traits, catalog);
        join_with(&list, ", ", last_connector)
    }

    /// The interop descriptors this alternative reaches: those of its
    /// supporting handlers, or the fixed ones of a primitive. A
    /// file-handler-name slot has no host-side counterpart.
    pub fn get_java_object_handlers(&self, catalog: &Vec<EbiFileHandler>) -> (r: Vec<
        JavaObjectHandler,
    >)
        ensures
            java_views(r@) == java_object_handlers_spec(*self, catalog@),
    {
        match self {
            EbiInputType::Trait(t) => {
                let hs = t.get_file_handlers(catalog);
                Self::get_file_handlers_java(catalog, &hs)
            },
            EbiInputType::Object(o) => {
                let hs = o.get_file_handlers(catalog);
                Self::get_file_handlers_java(catalog, &hs)
            },
            EbiInputType::AnyObject => {
                let hs = all_handlers(catalog);
                Self::get_file_handlers_java(catalog, &hs)
            },
            EbiInputType::String => java_object_handlers_string(),
            EbiInputType::Usize => java_object_handlers_usize(),
            EbiInputType::FileHandler => {
                let r: Vec<JavaObjectHandler> = Vec::new();
                proof {
                    assert(java_views(r@) =~= Seq::<JavaObjectHandlerView>::empty());
                }
                r
            },
            EbiInputType::Fraction => java_object_handlers_fraction(),
        }
    }

    /// The deduplicated interop descriptors of a slot's alternatives,
    /// restricted to those that carry a host-to-core translator entry
    /// point.
    pub fn get_possible_inputs_with_java(
        traits: &[EbiInputType],
        catalog: &Vec<EbiFileHandler>,
    ) -> (r: Vec<JavaObjectHandler>)
        ensures
            java_views(r@) == importable_only(
                dedup_first(all_java_object_handlers(traits@, catalog@)),
            ),
    {
        let mut merged: Vec<JavaObjectHandler> = Vec::new();
        let mut t: usize = 0;
        while t < traits.len()
            invariant
                0 <= t <= traits@.len(),
                java_views(merged@) =~= dedup_first(
                    all_java_object_handlers(traits@.take(t as int), catalog@),
                ),
            decreases traits@.len() - t,
        {
            let ds = traits[t].get_java_object_handlers(catalog);
            let ghost base = all_java_object_handlers(traits@.take(t as int), catalog@);
            let ghost chunk = java_object_handlers_spec(traits@[t as int], catalog@);
            let mut m: usize = 0;
            while m < ds.len()
                invariant
                    0 <= m <= ds@.len(),
                    java_views(ds@) == chunk,
                    java_views(merged@) =~= dedup_first(base + chunk.take(m as int)),
                decreases ds@.len() - m,
            {
                proof {
                    assert((base + chunk.take(m + 1 as int)).drop_last() =~= base + chunk.take(
                        m as int,
                    ));
                    assert((base + chunk.take(m + 1 as int)).last() == chunk[m as int]);
                    assert(chunk[m as int] == ds@[m as int]@);
                }
                if !contains_java_handler(&merged, &ds[m]) {
                    let d = ds[m].duplicate();
                    let ghost prev = merged@;
                    merged.push(d);
                    proof {
                        lemma_java_views_push_step(
                            prev,
                            d,
                            dedup_first(base + chunk.take(m as int)),
                        );
                    }
                }
                m = m + 1;
            }
            proof {
                assert(chunk.take(ds@.len() as int) =~= chunk);
                assert(traits@.take(t + 1 as int).drop_last() =~= traits@.take(t as int));
                assert(traits@.take(t + 1 as int).last() == traits@[t as int]);
                assert(base + chunk =~= all_java_object_handlers(
                    traits@.take(t + 1 as int),
                    catalog@,
                ));
            }
            t = t + 1;
        }
        proof {
            assert(traits@.take(traits@.len() as int) =~= traits@);
        }
        let ghost deduped = dedup_first(all_java_object_handlers(traits@, catalog@));
        let mut r: Vec<JavaObjectHandler> = Vec::new();
        let mut m: usize = 0;
        while m < merged.len()
            invariant
                0 <= m <= merged@.len(),
                java_views(merged@) == deduped,
                java_views(r@) =~= importable_only(deduped.take(m as int)),
            decreases merged@.len() - m,
        {
            proof {
                assert(deduped.take(m + 1 as int).drop_last() =~= deduped.take(m as int));
                assert(deduped.take(m + 1 as int).last() == deduped[m as int]);
                assert(deduped[m as int] == merged@[m as int]@);
            }
            if merged[m].translator_java_to_ebi.is_some() {
                let d = merged[m].duplicate();
                let ghost prev = r@;
                r.push(d);
                proof {
                    lemma_java_views_push_step(prev, d, importable_only(deduped.take(m as int)));
                    assert(importable_only(deduped.take(m + 1 as int)) =~= importable_only(
                        deduped.take(m as int),
                    ).push(deduped[m as int]));
                }
            } else {
                proof {
                    assert(importable_only(deduped.take(m + 1 as int)) =~= importable_only(
                        deduped.take(m as int),
                    ));
                }
            }
            m = m + 1;
        }
        proof {
            assert(deduped.take(deduped.len() as int) =~= deduped);
        }
        r
    }
}

/// Whether some descriptor of `v` is identical to `j`.
fn contains_java_handler(v: &Vec<JavaObjectHandler>, j: &JavaObjectHandler) -> (r: bool)
    ensures
        r == java_views(v@).contains(j@),
{
    let mut i: usize = 0;
    while i < v.len()
        invariant
            0 <= i <= v@.len(),
            forall|k: int| 0 <= k < i ==> java_views(v@)[k] != j@,
        decreases v@.len() - i,
    {
        if v[i].same_as(j) {
            assert(java_views(v@)[i as int] == j@);
            return true;
        }
        i = i + 1;
    }
    assert(forall|k: int| 0 <= k < v@.len() ==> java_views(v@)[k] != j@);
    false
}

/// Pushing one descriptor onto a list whose views equal `base` gives a
/// list whose views equal `base` with the new descriptor's view at the end.
proof fn lemma_java_views_push_step(
    prev: Seq<JavaObjectHandler>,
    d: JavaObjectHandler,
    base: Seq<JavaObjectHandlerView>,
)
    requires
        java_views(prev) == base,
    ensures
        java_views(prev.push(d)) =~= base.push(d@),
{
    assert(java_views(prev).len() == prev.len());
    assert forall|j: int| 0 <= j < prev.len() + 1 implies java_views(prev.push(d))[j] == base.push(
        d@,
    )[j] by {
        if j < prev.len() {
            assert(prev.push(d)[j] == prev[j]);
            assert(java_views(prev)[j] == base[j]);
        } else {
            assert(prev.push(d)[j] == d);
        }
    }
}

/// Membership in the concatenated contributions: a description is
/// contributed exactly when one of the alternatives contributes it.
pub proof fn lemma_all_input_descriptions_contains(
    its: Seq<EbiInputType>,
    catalog: Seq<EbiFileHandler>,
    latex: bool,
    x: Seq<char>,
)
    ensures
        all_input_descriptions(its, catalog, latex).contains(x) <==> exists|t: int|
            0 <= t < its.len() && #[trigger] input_descriptions(its[t], catalog, latex).contains(
                x,
            ),
    decreases its.len(),
{
    if its.len() > 0 {
        lemma_all_input_descriptions_contains(its.drop_last(), catalog, latex, x);
        let pre = all_input_descriptions(its.drop_last(), catalog, latex);
        let last = input_descriptions(its.last(), catalog, latex);
        let whole = all_input_descriptions(its, catalog, latex);
        assert(whole == pre + last);
        if whole.contains(x) {
            let k = choose|k: int| 0 <= k < whole.len() && whole[k] == x;
            if k < pre.len() {
                assert(pre[k] == x);
                assert(pre.contains(x));
                let t = choose|t: int|
                    0 <= t < its.drop_last().len() && #[trigger] input_descriptions(
                        its.drop_last()[t],
                        catalog,
                        latex,
                    ).contains(x);
                assert(its[t] == its.drop_last()[t]);
                assert(input_descriptions(its[t], catalog, latex).contains(x));
            } else {
                assert(last[k - pre.len()] == x);
                assert(last.contains(x));
                assert(input_descriptions(its[its.len() - 1], catalog, latex).contains(x));
            }
        }
        if exists|t: int|
            0 <= t < its.len() && #[trigger] input_descriptions(its[t], catalog, latex).contains(
                x,
            ) {
            let t = choose|t: int|
                0 <= t < its.len() && #[trigger] input_descriptions(its[t], catalog, latex).contains(
                    x,
                );
            if t < its.len() - 1 {
                assert(its.drop_last()[t] == its[t]);
                assert(pre.contains(x));
                let k = choose|k: int| 0 <= k < pre.len() && pre[k] == x;
                assert(whole[k] == x);
            } else {
                assert(last.contains(x));
                let k = choose|k: int| 0 <= k < last.len() && last[k] == x;
                assert(whole[pre.len() + k] == x);
            }
        }
    }
}

/// Deduplication law: the possible-inputs list of a slot lists no
/// description twice, and lists a description exactly when some
/// alternative contributes it — overlapping supporting-handler sets
/// collapse to one entry.
pub proof fn lemma_possible_inputs_deduplicated(
    its: Seq<EbiInputType>,
    catalog: Seq<EbiFileHandler>,
    latex: bool,
)
    ensures
        forall|i: int, j: int|
            0 <= i < j < dedup_first(all_input_descriptions(its, catalog, latex)).len()
                ==> dedup_first(all_input_descriptions(its, catalog, latex))[i] != dedup_first(
                all_input_descriptions(its, catalog, latex),
            )[j],
        forall|x: Seq<char>|
            #[trigger] dedup_first(all_input_descriptions(its, catalog, latex)).contains(x)
                <==> exists|t: int|
                0 <= t < its.len() && #[trigger] input_descriptions(
                    its[t],
                    catalog,
                    latex,
                ).contains(x),
{
    lemma_dedup_first_distinct(all_input_descriptions(its, catalog, latex));
    assert forall|x: Seq<char>|
        #[trigger] dedup_first(all_input_descriptions(its, catalog, latex)).contains(x)
            <==> exists|t: int|
            0 <= t < its.len() && #[trigger] input_descriptions(its[t], catalog, latex).contains(
                x,
            ) by {
        lemma_dedup_first_contains(all_input_descriptions(its, catalog, latex), x);
        lemma_all_input_descriptions_contains(its, catalog, latex, x);
    }
}

/// Pushing one string onto a list whose views equal `base` gives a list
/// whose views equal `base` with the new string's characters at the end.
proof fn lemma_string_views_push_step(prev: Seq<String>, s: String, base: Seq<Seq<char>>)
    requires
        crate::text::string_views(prev) == base,
    ensures
        crate::text::string_views(prev.push(s)) =~= base.push(s@),
{
    assert(crate::text::string_views(prev).len() == prev.len());
    assert forall|j: int| 0 <= j < prev.len() + 1 implies crate::text::string_views(prev.push(s))[j]
        == base.push(s@)[j] by {
        if j < prev.len() {
            assert(prev.push(s)[j] == prev[j]);
            assert(crate::text::string_views(prev)[j] == base[j]);
        } else {
            assert(prev.push(s)[j] == s);
        }
    }
}

} // verus!
