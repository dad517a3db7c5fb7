use ebi::ebi_error::InputError;
use ebi::ebi_file_handler::EbiFileHandler;
use ebi::ebi_object::{EbiObject, EbiObjectType, EbiTraitObject};
use ebi::ebi_trait::EbiTrait;
use ebi::importer::{EbiObjectImporter, EbiTraitImporter, PrefixDispatch, PrefixParser};
use ebi::multiple_reader::MultipleReader;
use ebi::resolution::{read_as_any_object, read_as_object, read_as_trait, validate_object_of};

fn parser(magic: &[u8], handle: u64, error: &str) -> PrefixParser {
    PrefixParser { magic: magic.to_vec(), handle, error: error.to_owned() }
}

fn handler(
    name: &str,
    extension: &str,
    trait_importers: Vec<EbiTraitImporter>,
    object_importers: Vec<EbiObjectImporter>,
    validator: usize,
) -> EbiFileHandler {
    EbiFileHandler {
        name: name.to_owned(),
        file_extension: extension.to_owned(),
        trait_importers,
        object_importers,
        validator,
        java_object_handlers: vec![],
    }
}

#[test]
fn order_priority() {
    // two handlers, registered in this order, both accept the bytes
    let dispatch = PrefixDispatch {
        parsers: vec![parser(b"", 1, "first failed"), parser(b"", 2, "second failed")],
    };
    let catalog = vec![
        handler("first", "one", vec![EbiTraitImporter::FiniteLanguage(0)], vec![], 0),
        handler("second", "two", vec![EbiTraitImporter::FiniteLanguage(1)], vec![], 1),
    ];
    let reader = MultipleReader::from_bytes(b"anything".to_vec());
    let (object, winner) =
        read_as_trait(&EbiTrait::FiniteLanguage, &reader, &catalog, &dispatch).unwrap();
    assert_eq!(object, EbiTraitObject::FiniteLanguage(1));
    assert_eq!(winner, 0);
}

#[test]
fn rewind_after_failed_attempt() {
    // the first importer fails after "consuming" the stream; the second
    // still sees the bytes from the start and succeeds
    let dispatch = PrefixDispatch {
        parsers: vec![parser(b"XYZ", 1, "not mine"), parser(b"PK", 7, "not mine either")],
    };
    let catalog = vec![
        handler("first", "one", vec![EbiTraitImporter::Semantics(0)], vec![], 0),
        handler("second", "two", vec![EbiTraitImporter::Semantics(1)], vec![], 1),
    ];
    let reader = MultipleReader::from_bytes(b"PK content that parser zero rejects".to_vec());
    let (object, winner) = read_as_trait(&EbiTrait::Semantics, &reader, &catalog, &dispatch)
        .unwrap();
    assert_eq!(object, EbiTraitObject::Semantics(7));
    assert_eq!(winner, 1);
}

#[test]
fn rewind_after_failed_attempt_object() {
    let dispatch = PrefixDispatch {
        parsers: vec![parser(b"XYZ", 1, "not mine"), parser(b"PK", 7, "not mine either")],
    };
    let catalog = vec![
        handler("first", "one", vec![], vec![EbiObjectImporter::EventLog(0)], 0),
        handler("second", "two", vec![], vec![EbiObjectImporter::EventLog(1)], 1),
    ];
    let reader = MultipleReader::from_bytes(b"PK content that parser zero rejects".to_vec());
    let (object, winner) = read_as_object(&EbiObjectType::EventLog, &reader, &catalog, &dispatch)
        .unwrap();
    assert_eq!(object, EbiObject::EventLog(7));
    assert_eq!(winner, 1);
}

#[test]
fn within_handler_importer_order_decides() {
    // one handler declaring two importers for the same capability: the
    // earlier declared importer wins
    let dispatch = PrefixDispatch {
        parsers: vec![parser(b"", 10, ""), parser(b"", 20, "")],
    };
    let catalog = vec![handler(
        "only",
        "one",
        vec![EbiTraitImporter::EventLog(0), EbiTraitImporter::EventLog(1)],
        vec![],
        0,
    )];
    let reader = MultipleReader::from_bytes(b"x".to_vec());
    let (object, winner) = read_as_trait(&EbiTrait::EventLog, &reader, &catalog, &dispatch)
        .unwrap();
    assert_eq!(object, EbiTraitObject::EventLog(10));
    assert_eq!(winner, 0);
}

#[test]
fn exhaustion_message_names_capability_and_wraps_last_error() {
    let dispatch = PrefixDispatch {
        parsers: vec![
            parser(b"X", 1, "alpha failure"),
            parser(b"Y", 2, "distinctive-omega failure"),
        ],
    };
    let catalog = vec![
        handler("first", "one", vec![EbiTraitImporter::QueriableStochasticLanguage(0)], vec![], 0),
        handler("second", "two", vec![EbiTraitImporter::QueriableStochasticLanguage(1)], vec![], 1),
    ];
    let reader = MultipleReader::from_bytes(b"zzz".to_vec());
    let err = read_as_trait(&EbiTrait::QueriableStochasticLanguage, &reader, &catalog, &dispatch)
        .unwrap_err();
    match &err {
        InputError::Exhausted { requested, attempted, last_handler, last_error } => {
            assert_eq!(requested, "queriable stochastic language");
            assert_eq!(attempted, &vec!["first (.one)".to_owned(), "second (.two)".to_owned()]);
            assert_eq!(last_handler, "second (.two)");
            assert_eq!(last_error, "distinctive-omega failure");
        },
        _ => panic!("expected an exhaustion error"),
    }
    let message = err.message();
    assert!(message.contains("queriable stochastic language"));
    assert!(message.contains("first (.one), second (.two)"));
    assert!(message.contains("distinctive-omega failure"));
    assert_eq!(
        message,
        "Attempting to parse file as queriable stochastic language, as either first (.one), \
         second (.two).\nIf you know the type of your file, use a validation command to check \
         it.\nThe last attempted importer was: second (.two).\ndistinctive-omega failure"
    );
}

#[test]
fn importers_for_other_capabilities_are_not_consulted() {
    // the handler's finite-language importer would accept the bytes, but a
    // request for an event log only tries the event-log importer
    let dispatch = PrefixDispatch {
        parsers: vec![parser(b"", 1, ""), parser(b"XYZ", 2, "not an event log")],
    };
    let catalog = vec![handler(
        "mixed",
        "m",
        vec![
            EbiTraitImporter::FiniteLanguage(0),
            EbiTraitImporter::EventLog(1),
        ],
        vec![],
        0,
    )];
    let reader = MultipleReader::from_bytes(b"plain".to_vec());
    let err = read_as_trait(&EbiTrait::EventLog, &reader, &catalog, &dispatch).unwrap_err();
    assert!(matches!(err, InputError::Exhausted { .. }));
    let (object, _) =
        read_as_trait(&EbiTrait::FiniteLanguage, &reader, &catalog, &dispatch).unwrap();
    assert_eq!(object, EbiTraitObject::FiniteLanguage(1));
}

#[test]
fn object_discard_hides_candidate_errors() {
    let dispatch = PrefixDispatch {
        parsers: vec![parser(b"X", 1, "distinctive-omega failure")],
    };
    let catalog = vec![handler(
        "first",
        "one",
        vec![],
        vec![EbiObjectImporter::ProcessTree(0)],
        0,
    )];
    let reader = MultipleReader::from_bytes(b"zzz".to_vec());
    let err = read_as_object(&EbiObjectType::ProcessTree, &reader, &catalog, &dispatch)
        .unwrap_err();
    assert!(matches!(err, InputError::NotRecognised));
    let message = err.message();
    assert_eq!(message, "File could not be recognised.");
    assert!(!message.contains("distinctive-omega"));
}

#[test]
fn any_object_ignores_kind() {
    // the only importer produces a directly follows model; asking for an
    // event log fails, asking for any object returns the model
    let dispatch = PrefixDispatch { parsers: vec![parser(b"", 9, "")] };
    let catalog = vec![handler(
        "models",
        "dfm",
        vec![],
        vec![EbiObjectImporter::DirectlyFollowsModel(0)],
        0,
    )];
    let reader = MultipleReader::from_bytes(b"model bytes".to_vec());
    assert!(read_as_object(&EbiObjectType::EventLog, &reader, &catalog, &dispatch).is_err());
    let (object, winner) = read_as_any_object(&reader, &catalog, &dispatch).unwrap();
    assert_eq!(object, EbiObject::DirectlyFollowsModel(9));
    assert_eq!(winner, 0);
}

#[test]
fn degenerate_empty_registry() {
    // no handler declares an importer for the capability: a clear,
    // non-panicking failure distinct from exhaustion-after-trying
    let dispatch = PrefixDispatch { parsers: vec![parser(b"", 1, "")] };
    let catalog = vec![handler("first", "one", vec![EbiTraitImporter::Semantics(0)], vec![], 0)];
    let reader = MultipleReader::from_bytes(b"bytes".to_vec());
    let err = read_as_trait(&EbiTrait::EventLog, &reader, &catalog, &dispatch).unwrap_err();
    match &err {
        InputError::NothingAttempted { requested } => {
            assert_eq!(requested, "event log");
        },
        _ => panic!("expected a nothing-attempted error"),
    }
    assert_eq!(err.message(), "No importer is registered for event log.");

    let empty: Vec<EbiFileHandler> = vec![];
    let err = read_as_trait(&EbiTrait::EventLog, &reader, &empty, &dispatch).unwrap_err();
    assert!(matches!(err, InputError::NothingAttempted { .. }));
}

#[test]
fn validate_object_of_uses_exactly_the_named_handler() {
    let dispatch = PrefixDispatch {
        parsers: vec![parser(b"GOOD", 1, "does not conform"), parser(b"", 2, "")],
    };
    // the second handler's validator would accept everything, but
    // validation never falls back to other handlers
    let catalog = vec![
        handler("strict", "str", vec![], vec![], 0),
        handler("lax", "lax", vec![], vec![], 1),
    ];
    let good = MultipleReader::from_bytes(b"GOOD file".to_vec());
    let bad = MultipleReader::from_bytes(b"BAD file".to_vec());
    assert!(validate_object_of(&good, &catalog[0], &dispatch).is_ok());
    let err = validate_object_of(&bad, &catalog[0], &dispatch).unwrap_err();
    assert_eq!(err, "does not conform");
    assert!(validate_object_of(&bad, &catalog[1], &dispatch).is_ok());
}

#[test]
fn fresh_views_replay_the_same_bytes() {
    let reader = MultipleReader::from_bytes(vec![1, 2, 3]);
    assert_eq!(reader.get(), &[1, 2, 3]);
    assert_eq!(reader.get(), &[1, 2, 3]);
}
