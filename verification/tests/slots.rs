use ebi::ebi_command::EbiCommandPath;
use ebi::ebi_error::InputError;
use ebi::ebi_file_handler::{EbiFileHandler, JavaObjectHandler};
use ebi::ebi_input::{EbiInput, EbiInputType, ValueParserKind};
use ebi::ebi_object::{EbiObject, EbiObjectType, EbiTraitObject};
use ebi::ebi_trait::EbiTrait;
use ebi::fraction::Fraction;
use ebi::importer::{EbiObjectImporter, EbiTraitImporter, PrefixDispatch, PrefixParser};

fn handler(
    name: &str,
    extension: &str,
    trait_importers: Vec<EbiTraitImporter>,
    object_importers: Vec<EbiObjectImporter>,
    java_object_handlers: Vec<JavaObjectHandler>,
) -> EbiFileHandler {
    EbiFileHandler {
        name: name.to_owned(),
        file_extension: extension.to_owned(),
        trait_importers,
        object_importers,
        validator: 0,
        java_object_handlers,
    }
}

fn java(name: &str, class: &str, to_ebi: Option<&str>) -> JavaObjectHandler {
    JavaObjectHandler {
        name: name.to_owned(),
        java_class: class.to_owned(),
        translator_ebi_to_java: None,
        translator_java_to_ebi: to_ebi.map(|s| s.to_owned()),
    }
}

#[test]
fn input_get_type() {
    assert_eq!(
        EbiInput::Trait(EbiTraitObject::EventLog(1), 0).get_type(),
        EbiInputType::Trait(EbiTrait::EventLog)
    );
    assert_eq!(
        EbiInput::Object(EbiObject::ProcessTree(1), 0).get_type(),
        EbiInputType::Object(EbiObjectType::ProcessTree)
    );
    assert_eq!(EbiInput::String("x".to_owned()).get_type(), EbiInputType::String);
    assert_eq!(EbiInput::Usize(4).get_type(), EbiInputType::Usize);
    assert_eq!(EbiInput::Fraction(Fraction::one()).get_type(), EbiInputType::Fraction);
    assert_eq!(
        EbiInput::FileHandler(handler("h", "e", vec![], vec![], vec![])).get_type(),
        EbiInputType::FileHandler
    );
}

#[test]
fn input_to_type() {
    let five = EbiInput::Usize(5).to_type::<usize>().unwrap();
    assert_eq!(*five, 5);
    let text = EbiInput::String("hello".to_owned()).to_type::<String>().unwrap();
    assert_eq!(*text, "hello");
    let frac = EbiInput::Fraction(Fraction::new(2, 5)).to_type::<Fraction>().unwrap();
    assert_eq!(*frac, Fraction::new(2, 5));
    let err = EbiInput::Usize(5).to_type::<Fraction>().unwrap_err();
    assert!(matches!(err, InputError::WrongType { .. }));
    assert_eq!(err.message(), "The input cannot be used as fraction.");
}

#[test]
fn articles() {
    assert_eq!(EbiInputType::Trait(EbiTrait::EventLog).get_article(), "an");
    assert_eq!(EbiInputType::Trait(EbiTrait::Semantics).get_article(), "a");
    assert_eq!(EbiInputType::Object(EbiObjectType::Executions).get_article(), "an");
    assert_eq!(EbiInputType::Object(EbiObjectType::ProcessTree).get_article(), "a");
    assert_eq!(EbiInputType::AnyObject.get_article(), "an");
    assert_eq!(EbiInputType::String.get_article(), "a");
    assert_eq!(EbiInputType::Usize.get_article(), "an");
    assert_eq!(EbiInputType::FileHandler.get_article(), "a");
    assert_eq!(EbiInputType::Fraction.get_article(), "a");
}

#[test]
fn names() {
    assert_eq!(EbiInputType::Trait(EbiTrait::FiniteStochasticLanguage).name(),
        "finite stochastic language");
    assert_eq!(EbiInputType::Object(EbiObjectType::LabelledPetriNet).name(),
        "labelled Petri net");
    assert_eq!(EbiInputType::AnyObject.name(), "object");
    assert_eq!(EbiInputType::String.name(), "text");
    assert_eq!(EbiInputType::Usize.name(), "integer");
    assert_eq!(EbiInputType::FileHandler.name(), "file");
    assert_eq!(EbiInputType::Fraction.name(), "fraction");
}

#[test]
fn enumerations() {
    assert_eq!(EbiTrait::values().len(), 8);
    assert_eq!(EbiObjectType::values().len(), 12);
}

#[test]
fn parser_of_list_follows_first_alternative() {
    assert_eq!(
        EbiInputType::get_parser_of_list(&[EbiInputType::Trait(EbiTrait::Semantics)]),
        ValueParserKind::Path
    );
    assert_eq!(
        EbiInputType::get_parser_of_list(&[
            EbiInputType::Object(EbiObjectType::ProcessTree),
            EbiInputType::String,
        ]),
        ValueParserKind::Path
    );
    assert_eq!(
        EbiInputType::get_parser_of_list(&[EbiInputType::AnyObject]),
        ValueParserKind::Path
    );
    // a heterogeneous list degrades to the first alternative's grammar
    assert_eq!(
        EbiInputType::get_parser_of_list(&[EbiInputType::String, EbiInputType::Usize]),
        ValueParserKind::Text
    );
    assert_eq!(
        EbiInputType::get_parser_of_list(&[EbiInputType::Usize]),
        ValueParserKind::Integer
    );
    assert_eq!(
        EbiInputType::get_parser_of_list(&[EbiInputType::FileHandler]),
        ValueParserKind::FileHandlerName
    );
    assert_eq!(
        EbiInputType::get_parser_of_list(&[EbiInputType::Fraction]),
        ValueParserKind::FractionLiteral
    );
}

#[test]
fn importer_accessors() {
    let ti = EbiTraitImporter::QueriableStochasticLanguage(3);
    assert_eq!(ti.get_trait(), EbiTrait::QueriableStochasticLanguage);
    assert_eq!(ti.parser(), 3);
    assert_eq!(ti.name(), "queriable stochastic language");
    let oi = EbiObjectImporter::StochasticLabelledPetriNet(4);
    assert_eq!(oi.get_type(), EbiObjectType::StochasticLabelledPetriNet);
    assert_eq!(oi.get_importer(), 4);
    assert_eq!(oi.name(), "stochastic labelled Petri net");
}

#[test]
fn importers_tag_the_parsed_value() {
    let dispatch = PrefixDispatch {
        parsers: vec![PrefixParser {
            magic: b"L".to_vec(),
            handle: 11,
            error: "no language here".to_owned(),
        }],
    };
    let ti = EbiTraitImporter::FiniteLanguage(0);
    assert_eq!(ti.import(&dispatch, b"Lab"), Ok(EbiTraitObject::FiniteLanguage(11)));
    assert_eq!(ti.import(&dispatch, b"xab"), Err("no language here".to_owned()));
    let oi = EbiObjectImporter::FiniteLanguage(0);
    assert_eq!(oi.import(&dispatch, b"Lab"), Ok(EbiObject::FiniteLanguage(11)));
    // an unregistered parser id fails with an empty message
    let missing = EbiObjectImporter::FiniteLanguage(7);
    assert_eq!(missing.import(&dispatch, b"Lab"), Err(String::new()));
}

#[test]
fn show_file_handlers_formats() {
    let catalog = vec![
        handler("stochastic deterministic finite automaton", "sdfa", vec![], vec![], vec![]),
        handler("event log", "xes", vec![], vec![], vec![]),
    ];
    let shown = EbiInputType::show_file_handlers(&catalog, &vec![0, 1]);
    assert_eq!(shown, vec![
        "stochastic deterministic finite automaton (.sdfa)".to_owned(),
        "event log (.xes)".to_owned(),
    ]);
    let latex = EbiInputType::show_file_handlers_latex(&catalog, &vec![1]);
    assert_eq!(latex, vec![
        "\\hyperref[filehandler:event log]{event log (.xes)}".to_owned(),
    ]);
}

#[test]
fn possible_inputs_deduplicate_overlapping_handlers() {
    // both capabilities are supported by the same handler: its description
    // is listed exactly once
    let catalog = vec![handler(
        "both",
        "b",
        vec![
            EbiTraitImporter::FiniteLanguage(0),
            EbiTraitImporter::EventLog(1),
        ],
        vec![],
        vec![],
    )];
    let list = EbiInputType::get_possible_inputs(
        &[
            EbiInputType::Trait(EbiTrait::FiniteLanguage),
            EbiInputType::Trait(EbiTrait::EventLog),
        ],
        &catalog,
    );
    assert_eq!(list, vec!["both (.b)".to_owned()]);
}

#[test]
fn possible_inputs_primitives() {
    let catalog = vec![
        handler("a", "xes", vec![], vec![], vec![]),
        handler("b", "sdfa", vec![], vec![], vec![]),
    ];
    let list = EbiInputType::get_possible_inputs(
        &[
            EbiInputType::String,
            EbiInputType::Usize,
            EbiInputType::String,
            EbiInputType::Fraction,
            EbiInputType::FileHandler,
        ],
        &catalog,
    );
    assert_eq!(list, vec![
        "text".to_owned(),
        "integer".to_owned(),
        "fraction".to_owned(),
        "the file extension of any file type supported by Ebi (xes or sdfa)".to_owned(),
    ]);
}

#[test]
fn possible_inputs_any_object_lists_all_handlers() {
    let catalog = vec![
        handler("a", "xes", vec![], vec![], vec![]),
        handler("b", "sdfa", vec![], vec![], vec![]),
    ];
    let list = EbiInputType::get_possible_inputs(&[EbiInputType::AnyObject], &catalog);
    assert_eq!(list, vec!["a (.xes)".to_owned(), "b (.sdfa)".to_owned()]);
    let latex = EbiInputType::get_possible_inputs_with_latex(
        &[EbiInputType::AnyObject],
        &catalog,
    );
    assert_eq!(latex, vec![
        "\\hyperref[filehandler:a]{a (.xes)}".to_owned(),
        "\\hyperref[filehandler:b]{b (.sdfa)}".to_owned(),
    ]);
}

#[test]
fn possible_inputs_rendered_with_connector() {
    let catalog: Vec<EbiFileHandler> = vec![];
    let rendered = EbiInputType::possible_inputs_as_strings_with_articles(
        &[EbiInputType::String, EbiInputType::Usize, EbiInputType::Fraction],
        &catalog,
        " or ",
    );
    assert_eq!(rendered, "text, integer or fraction");
}

#[test]
fn java_object_handlers_per_slot_type() {
    let catalog = vec![handler(
        "logs",
        "xes",
        vec![EbiTraitImporter::EventLog(0)],
        vec![],
        vec![java("xes log", "org.deckfour.xes.model.XLog", Some("toEbi"))],
    )];
    let for_trait =
        EbiInputType::Trait(EbiTrait::EventLog).get_java_object_handlers(&catalog);
    assert_eq!(for_trait.len(), 1);
    assert_eq!(for_trait[0].name, "xes log");
    let for_string = EbiInputType::String.get_java_object_handlers(&catalog);
    assert_eq!(for_string.len(), 1);
    assert_eq!(for_string[0].name, "string");
    // file-handler slots have no host-side counterpart
    let for_file = EbiInputType::FileHandler.get_java_object_handlers(&catalog);
    assert!(for_file.is_empty());
}

#[test]
fn flattened_java_handlers_deduplicate_across_handlers() {
    // two handlers carry the identical descriptor: the flattening across
    // the whole catalog lists it once
    let shared = java("shared", "org.example.Shared", Some("toEbi"));
    let extra = java("extra", "org.example.Extra", None);
    let catalog = vec![
        handler("a", "xes", vec![], vec![], vec![shared.duplicate(), extra]),
        handler("b", "lang", vec![], vec![], vec![shared]),
    ];
    let flattened = EbiInputType::get_file_handlers_java(&catalog, &vec![0, 1]);
    assert_eq!(flattened.len(), 2);
    assert_eq!(flattened[0].name, "shared");
    assert_eq!(flattened[1].name, "extra");
}

#[test]
fn java_union_deduplicates_and_filters() {
    // the same descriptor reached through two capabilities is listed once;
    // a descriptor without a host-to-core translator is dropped
    let shared = java("shared", "org.example.Shared", Some("toEbi"));
    let no_translator = java("one way", "org.example.OneWay", None);
    let catalog = vec![
        handler(
            "a",
            "xes",
            vec![EbiTraitImporter::FiniteLanguage(0)],
            vec![],
            vec![shared.duplicate(), no_translator.duplicate()],
        ),
        handler(
            "b",
            "lang",
            vec![EbiTraitImporter::EventLog(1)],
            vec![],
            vec![shared],
        ),
    ];
    let list = EbiInputType::get_possible_inputs_with_java(
        &[
            EbiInputType::Trait(EbiTrait::FiniteLanguage),
            EbiInputType::Trait(EbiTrait::EventLog),
        ],
        &catalog,
    );
    assert_eq!(list.len(), 1);
    assert_eq!(list[0].name, "shared");
}

#[test]
fn applicable_commands_deduplicated() {
    let target = EbiInputType::Fraction;
    let commands = vec![
        EbiCommandPath {
            path: vec!["ebi".to_owned(), "conformance".to_owned()],
            input_types: vec![
                vec![EbiInputType::Trait(EbiTrait::EventLog)],
                vec![EbiInputType::Fraction, EbiInputType::String],
            ],
        },
        EbiCommandPath {
            path: vec!["ebi".to_owned(), "discover".to_owned()],
            input_types: vec![vec![EbiInputType::String]],
        },
        EbiCommandPath {
            path: vec!["ebi".to_owned(), "conformance".to_owned()],
            input_types: vec![vec![EbiInputType::Fraction]],
        },
    ];
    let paths = target.get_applicable_commands(&commands);
    assert_eq!(paths, vec![vec!["ebi".to_owned(), "conformance".to_owned()]]);
    let none = EbiInputType::AnyObject.get_applicable_commands(&commands);
    assert!(none.is_empty());
}
