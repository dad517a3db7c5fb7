use vstd::prelude::*;
use crate::ebi_trait::EbiTrait;

verus! {

/// A concrete, nameable shape of object that can be serialized as a whole.
/// The set is fixed; values are compared by identity. Object kinds are
/// orthogonal to capabilities: the same bytes may be importable under
/// several capabilities and as one concrete kind.
#[derive(Clone, Copy, Debug, PartialEq, Eq, Structural)]
pub enum EbiObjectType {
    EventLog,
    DirectlyFollowsModel,
    FiniteLanguage,
    FiniteStochasticLanguage,
    LabelledPetriNet,
    StochasticDeterministicFiniteAutomaton,
    StochasticLabelledPetriNet,
    LanguageOfAlignments,
    StochasticLanguageOfAlignments,
    DeterministicFiniteAutomaton,
    ProcessTree,
    Executions,
}

impl EbiObjectType {
    /// The human-readable name of the object kind.
    pub open spec fn name_spec(self) -> Seq<char> {
        match self {
            EbiObjectType::EventLog => "event log"@,
            EbiObjectType::DirectlyFollowsModel => "directly follows model"@,
            EbiObjectType::FiniteLanguage => "finite language"@,
            EbiObjectType::FiniteStochasticLanguage => "finite stochastic language"@,
            EbiObjectType::LabelledPetriNet => "labelled Petri net"@,
            EbiObjectType::StochasticDeterministicFiniteAutomaton => {
                "stochastic deterministic finite automaton"@
            },
            EbiObjectType::StochasticLabelledPetriNet => "stochastic labelled Petri net"@,
            EbiObjectType::LanguageOfAlignments => "language of alignments"@,
            EbiObjectType::StochasticLanguageOfAlignments => {
                "stochastic language of alignments"@
            },
            EbiObjectType::DeterministicFiniteAutomaton => "deterministic finite automaton"@,
            EbiObjectType::ProcessTree => "process tree"@,
            EbiObjectType::Executions => "executions"@,
        }
    }

    /// The human-readable name of the object kind, used in error messages
    /// and listings.
    pub fn name(&self) -> (r: String)
        ensures
            r@ == self.name_spec(),
    {
        match self {
            EbiObjectType::EventLog => "event log".to_owned(),
            EbiObjectType::DirectlyFollowsModel => "directly follows model".to_owned(),
            EbiObjectType::FiniteLanguage => "finite language".to_owned(),
            EbiObjectType::FiniteStochasticLanguage => "finite stochastic language".to_owned(),
            EbiObjectType::LabelledPetriNet => "labelled Petri net".to_owned(),
            EbiObjectType::StochasticDeterministicFiniteAutomaton => {
                "stochastic deterministic finite automaton".to_owned()
            },
            EbiObjectType::StochasticLabelledPetriNet => {
                "stochastic labelled Petri net".to_owned()
            },
            EbiObjectType::LanguageOfAlignments => "language of alignments".to_owned(),
            EbiObjectType::StochasticLanguageOfAlignments => {
                "stochastic language of alignments".to_owned()
            },
            EbiObjectType::DeterministicFiniteAutomaton => {
                "deterministic finite automaton".to_owned()
            },
            EbiObjectType::ProcessTree => "process tree".to_owned(),
            EbiObjectType::Executions => "executions".to_owned(),
        }
    }

    /// The grammatically correct indefinite article for the kind's name.
    pub open spec fn article_spec(self) -> Seq<char> {
        match self {
            EbiObjectType::EventLog => "an"@,
            EbiObjectType::Executions => "an"@,
            _ => "a"@,
        }
    }

    /// The indefinite article ("a" or "an") that precedes the kind's name
    /// in a sentence.
    pub fn get_article(&self) -> (r: &'static str)
        ensures
            r@ == self.article_spec(),
    {
        match self {
            EbiObjectType::EventLog => "an",
            EbiObjectType::Executions => "an",
            _ => "a",
        }
    }
}

/// A handle by which the host that owns the concrete parsers identifies one
/// parsed in-memory value. The resolution core never inspects parsed
/// objects; it only tags and routes them.
pub type ObjectHandle = u64;

/// A successfully imported concrete object: its kind together with the
/// handle of the parsed value.
#[derive(Clone, Copy, Debug, PartialEq, Eq, Structural)]
pub enum EbiObject {
    EventLog(ObjectHandle),
    DirectlyFollowsModel(ObjectHandle),
    FiniteLanguage(ObjectHandle),
    FiniteStochasticLanguage(ObjectHandle),
    LabelledPetriNet(ObjectHandle),
    StochasticDeterministicFiniteAutomaton(ObjectHandle),
    StochasticLabelledPetriNet(ObjectHandle),
    LanguageOfAlignments(ObjectHandle),
    StochasticLanguageOfAlignments(ObjectHandle),
    DeterministicFiniteAutomaton(ObjectHandle),
    ProcessTree(ObjectHandle),
    Executions(ObjectHandle),
}

impl EbiObject {
    /// The kind of this object.
    pub open spec fn get_type_spec(self) -> EbiObjectType {
        match self {
            EbiObject::EventLog(_) => EbiObjectType::EventLog,
            EbiObject::DirectlyFollowsModel(_) => EbiObjectType::DirectlyFollowsModel,
            EbiObject::FiniteLanguage(_) => EbiObjectType::FiniteLanguage,
            EbiObject::FiniteStochasticLanguage(_) => EbiObjectType::FiniteStochasticLanguage,
            EbiObject::LabelledPetriNet(_) => EbiObjectType::LabelledPetriNet,
            EbiObject::StochasticDeterministicFiniteAutomaton(_) => {
                EbiObjectType::StochasticDeterministicFiniteAutomaton
            },
            EbiObject::StochasticLabelledPetriNet(_) => EbiObjectType::StochasticLabelledPetriNet,
            EbiObject::LanguageOfAlignments(_) => EbiObjectType::LanguageOfAlignments,
            EbiObject::StochasticLanguageOfAlignments(_) => {
                EbiObjectType::StochasticLanguageOfAlignments
            },
            EbiObject::DeterministicFiniteAutomaton(_) => {
                EbiObjectType::DeterministicFiniteAutomaton
            },
            EbiObject::ProcessTree(_) => EbiObjectType::ProcessTree,
            EbiObject::Executions(_) => EbiObjectType::Executions,
        }
    }

    /// The kind of this object.
    pub fn get_type(&self) -> (r: EbiObjectType)
        ensures
            r == self.get_type_spec(),
    {
        match self {
            EbiObject::EventLog(_) => EbiObjectType::EventLog,
            EbiObject::DirectlyFollowsModel(_) => EbiObjectType::DirectlyFollowsModel,
            EbiObject::FiniteLanguage(_) => EbiObjectType::FiniteLanguage,
            EbiObject::FiniteStochasticLanguage(_) => EbiObjectType::FiniteStochasticLanguage,
            EbiObject::LabelledPetriNet(_) => EbiObjectType::LabelledPetriNet,
            EbiObject::StochasticDeterministicFiniteAutomaton(_) => {
                EbiObjectType::StochasticDeterministicFiniteAutomaton
            },
            EbiObject::StochasticLabelledPetriNet(_) => EbiObjectType::StochasticLabelledPetriNet,
            EbiObject::LanguageOfAlignments(_) => EbiObjectType::LanguageOfAlignments,
            EbiObject::StochasticLanguageOfAlignments(_) => {
                EbiObjectType::StochasticLanguageOfAlignments
            },
            EbiObject::DeterministicFiniteAutomaton(_) => {
                EbiObjectType::DeterministicFiniteAutomaton
            },
            EbiObject::ProcessTree(_) => EbiObjectType::ProcessTree,
            EbiObject::Executions(_) => EbiObjectType::Executions,
        }
    }

    /// The host handle of the parsed value.
    pub open spec fn handle_spec(self) -> ObjectHandle {
        match self {
            EbiObject::EventLog(h) => h,
            EbiObject::DirectlyFollowsModel(h) => h,
            EbiObject::FiniteLanguage(h) => h,
            EbiObject::FiniteStochasticLanguage(h) => h,
            EbiObject::LabelledPetriNet(h) => h,
            EbiObject::StochasticDeterministicFiniteAutomaton(h) => h,
            EbiObject::StochasticLabelledPetriNet(h) => h,
            EbiObject::LanguageOfAlignments(h) => h,
            EbiObject::StochasticLanguageOfAlignments(h) => h,
            EbiObject::DeterministicFiniteAutomaton(h) => h,
            EbiObject::ProcessTree(h) => h,
            EbiObject::Executions(h) => h,
        }
    }

    /// Tag a parsed value's handle with the given kind.
    pub open spec fn of_spec(etype: EbiObjectType, handle: ObjectHandle) -> EbiObject {
        match etype {
            EbiObjectType::EventLog => EbiObject::EventLog(handle),
            EbiObjectType::DirectlyFollowsModel => EbiObject::DirectlyFollowsModel(handle),
            EbiObjectType::FiniteLanguage => EbiObject::FiniteLanguage(handle),
            EbiObjectType::FiniteStochasticLanguage => EbiObject::FiniteStochasticLanguage(handle),
            EbiObjectType::LabelledPetriNet => EbiObject::LabelledPetriNet(handle),
            EbiObjectType::StochasticDeterministicFiniteAutomaton => {
                EbiObject::StochasticDeterministicFiniteAutomaton(handle)
            },
            EbiObjectType::StochasticLabelledPetriNet => {
                EbiObject::StochasticLabelledPetriNet(handle)
            },
            EbiObjectType::LanguageOfAlignments => EbiObject::LanguageOfAlignments(handle),
            EbiObjectType::StochasticLanguageOfAlignments => {
                EbiObject::StochasticLanguageOfAlignments(handle)
            },
            EbiObjectType::DeterministicFiniteAutomaton => {
                EbiObject::DeterministicFiniteAutomaton(handle)
            },
            EbiObjectType::ProcessTree => EbiObject::ProcessTree(handle),
            EbiObjectType::Executions => EbiObject::Executions(handle),
        }
    }

    /// Tag a parsed value's handle with the given kind.
    pub fn of(etype: EbiObjectType, handle: ObjectHandle) -> (r: EbiObject)
        ensures
            r == EbiObject::of_spec(etype, handle),
            r.get_type_spec() == etype,
            r.handle_spec() == handle,
    {
        match etype {
            EbiObjectType::EventLog => EbiObject::EventLog(handle),
            EbiObjectType::DirectlyFollowsModel => EbiObject::DirectlyFollowsModel(handle),
            EbiObjectType::FiniteLanguage => EbiObject::FiniteLanguage(handle),
            EbiObjectType::FiniteStochasticLanguage => EbiObject::FiniteStochasticLanguage(handle),
            EbiObjectType::LabelledPetriNet => EbiObject::LabelledPetriNet(handle),
            EbiObjectType::StochasticDeterministicFiniteAutomaton => {
                EbiObject::StochasticDeterministicFiniteAutomaton(handle)
            },
            EbiObjectType::StochasticLabelledPetriNet => {
                EbiObject::StochasticLabelledPetriNet(handle)
            },
            EbiObjectType::LanguageOfAlignments => EbiObject::LanguageOfAlignments(handle),
            EbiObjectType::StochasticLanguageOfAlignments => {
                EbiObject::StochasticLanguageOfAlignments(handle)
            },
            EbiObjectType::DeterministicFiniteAutomaton => {
                EbiObject::DeterministicFiniteAutomaton(handle)
            },
            EbiObjectType::ProcessTree => EbiObject::ProcessTree(handle),
            EbiObjectType::Executions => EbiObject::Executions(handle),
        }
    }
}

/// A successfully imported capability object: the capability under which it
/// was imported together with the handle of the parsed value.
#[derive(Clone, Copy, Debug, PartialEq, Eq, Structural)]
pub enum EbiTraitObject {
    FiniteLanguage(ObjectHandle),
    FiniteStochasticLanguage(ObjectHandle),
    QueriableStochasticLanguage(ObjectHandle),
    IterableStochasticLanguage(ObjectHandle),
    EventLog(ObjectHandle),
    Semantics(ObjectHandle),
    StochasticSemantics(ObjectHandle),
    StochasticDeterministicSemantics(ObjectHandle),
}

impl EbiTraitObject {
    /// The capability under which this object was imported.
    pub open spec fn get_trait_spec(self) -> EbiTrait {
        match self {
            EbiTraitObject::FiniteLanguage(_) => EbiTrait::FiniteLanguage,
            EbiTraitObject::FiniteStochasticLanguage(_) => EbiTrait::FiniteStochasticLanguage,
            EbiTraitObject::QueriableStochasticLanguage(_) => {
                EbiTrait::QueriableStochasticLanguage
            },
            EbiTraitObject::IterableStochasticLanguage(_) => EbiTrait::IterableStochasticLanguage,
            EbiTraitObject::EventLog(_) => EbiTrait::EventLog,
            EbiTraitObject::Semantics(_) => EbiTrait::Semantics,
            EbiTraitObject::StochasticSemantics(_) => EbiTrait::StochasticSemantics,
            EbiTraitObject::StochasticDeterministicSemantics(_) => {
                EbiTrait::StochasticDeterministicSemantics
            },
        }
    }

    /// The capability under which this object was imported.
    pub fn get_trait(&self) -> (r: EbiTrait)
        ensures
            r == self.get_trait_spec(),
    {
        match self {
            EbiTraitObject::FiniteLanguage(_) => EbiTrait::FiniteLanguage,
            EbiTraitObject::FiniteStochasticLanguage(_) => EbiTrait::FiniteStochasticLanguage,
            EbiTraitObject::QueriableStochasticLanguage(_) => {
                EbiTrait::QueriableStochasticLanguage
            },
            EbiTraitObject::IterableStochasticLanguage(_) => EbiTrait::IterableStochasticLanguage,
            EbiTraitObject::EventLog(_) => EbiTrait::EventLog,
            EbiTraitObject::Semantics(_) => EbiTrait::Semantics,
            EbiTraitObject::StochasticSemantics(_) => EbiTrait::StochasticSemantics,
            EbiTraitObject::StochasticDeterministicSemantics(_) => {
                EbiTrait::StochasticDeterministicSemantics
            },
        }
    }

    /// The host handle of the parsed value.
    pub open spec fn handle_spec(self) -> ObjectHandle {
        match self {
            EbiTraitObject::FiniteLanguage(h) => h,
            EbiTraitObject::FiniteStochasticLanguage(h) => h,
            EbiTraitObject::QueriableStochasticLanguage(h) => h,
            EbiTraitObject::IterableStochasticLanguage(h) => h,
            EbiTraitObject::EventLog(h) => h,
            EbiTraitObject::Semantics(h) => h,
            EbiTraitObject::StochasticSemantics(h) => h,
            EbiTraitObject::StochasticDeterministicSemantics(h) => h,
        }
    }

    /// Tag a parsed value's handle with the capability it was imported under.
    pub open spec fn of_spec(etrait: EbiTrait, handle: ObjectHandle) -> EbiTraitObject {
        match etrait {
            EbiTrait::FiniteLanguage => EbiTraitObject::FiniteLanguage(handle),
            EbiTrait::FiniteStochasticLanguage => EbiTraitObject::FiniteStochasticLanguage(handle),
            EbiTrait::QueriableStochasticLanguage => {
                EbiTraitObject::QueriableStochasticLanguage(handle)
            },
            EbiTrait::IterableStochasticLanguage => {
                EbiTraitObject::IterableStochasticLanguage(handle)
            },
            EbiTrait::EventLog => EbiTraitObject::EventLog(handle),
            EbiTrait::Semantics => EbiTraitObject::Semantics(handle),
            EbiTrait::StochasticSemantics => EbiTraitObject::StochasticSemantics(handle),
            EbiTrait::StochasticDeterministicSemantics => {
                EbiTraitObject::StochasticDeterministicSemantics(handle)
            },
        }
    }

    /// Tag a parsed value's handle with the capability it was imported under.
    pub fn of(etrait: EbiTrait, handle: ObjectHandle) -> (r: EbiTraitObject)
        ensures
            r == EbiTraitObject::of_spec(etrait, handle),
            r.get_trait_spec() == etrait,
            r.handle_spec() == handle,
    {
        match etrait {
            EbiTrait::FiniteLanguage => EbiTraitObject::FiniteLanguage(handle),
            EbiTrait::FiniteStochasticLanguage => EbiTraitObject::FiniteStochasticLanguage(handle),
            EbiTrait::QueriableStochasticLanguage => {
                EbiTraitObject::QueriableStochasticLanguage(handle)
            },
            EbiTrait::IterableStochasticLanguage => {
                EbiTraitObject::IterableStochasticLanguage(handle)
            },
            EbiTrait::EventLog => EbiTraitObject::EventLog(handle),
            EbiTrait::Semantics => EbiTraitObject::Semantics(handle),
            EbiTrait::StochasticSemantics => EbiTraitObject::StochasticSemantics(handle),
            EbiTrait::StochasticDeterministicSemantics => {
                EbiTraitObject::StochasticDeterministicSemantics(handle)
            },
        }
    }
}

/// All object kinds, in declaration order.
impl EbiObjectType {
    pub fn values() -> (r: Vec<EbiObjectType>)
        ensures
            r@ == seq![
                EbiObjectType::EventLog,
                EbiObjectType::DirectlyFollowsModel,
                EbiObjectType::FiniteLanguage,
                EbiObjectType::FiniteStochasticLanguage,
                EbiObjectType::LabelledPetriNet,
                EbiObjectType::StochasticDeterministicFiniteAutomaton,
                EbiObjectType::StochasticLabelledPetriNet,
                EbiObjectType::LanguageOfAlignments,
                EbiObjectType::StochasticLanguageOfAlignments,
                EbiObjectType::DeterministicFiniteAutomaton,
                EbiObjectType::ProcessTree,
                EbiObjectType::Executions,
            ],
    {
        let mut r: Vec<EbiObjectType> = Vec::new();
        r.push(EbiObjectType::EventLog);
        r.push(EbiObjectType::DirectlyFollowsModel);
        r.push(EbiObjectType::FiniteLanguage);
        r.push(EbiObjectType::FiniteStochasticLanguage);
        r.push(EbiObjectType::LabelledPetriNet);
        r.push(EbiObjectType::StochasticDeterministicFiniteAutomaton);
        r.push(EbiObjectType::StochasticLabelledPetriNet);
        r.push(EbiObjectType::LanguageOfAlignments);
        r.push(EbiObjectType::StochasticLanguageOfAlignments);
        r.push(EbiObjectType::DeterministicFiniteAutomaton);
        r.push(EbiObjectType::ProcessTree);
        r.push(EbiObjectType::Executions);
        proof {
            assert(r@ =~= seq![
                EbiObjectType::EventLog,
                EbiObjectType::DirectlyFollowsModel,
                EbiObjectType::FiniteLanguage,
                EbiObjectType::FiniteStochasticLanguage,
                EbiObjectType::LabelledPetriNet,
                EbiObjectType::StochasticDeterministicFiniteAutomaton,
                EbiObjectType::StochasticLabelledPetriNet,
                EbiObjectType::LanguageOfAlignments,
                EbiObjectType::StochasticLanguageOfAlignments,
                EbiObjectType::DeterministicFiniteAutomaton,
                EbiObjectType::ProcessTree,
                EbiObjectType::Executions,
            ]);
        }
        r
    }
}

} // verus!
