use vstd::prelude::*;
use crate::ebi_object::{EbiObject, EbiObjectType, EbiTraitObject, ObjectHandle};
use crate::ebi_trait::EbiTrait;

verus! {

/// Names one concrete parser function registered with the host: one per
/// (handler, capability) or (handler, object kind) pair, and one per
/// handler for its validator.
pub type ParserId = usize;

/// Whether an executable parse outcome agrees with its specification-level
/// outcome: same success handle, or same error message.
pub open spec fn parse_result_matches(
    r: Result<ObjectHandle, String>,
    s: Result<ObjectHandle, Seq<char>>,
) -> bool {
    match (r, s) {
        (Ok(h), Ok(hs)) => h == hs,
        (Err(m), Err(ms)) => m@ == ms,
        _ => false,
    }
}

/// The per-format importer contract. The concrete parsers (one per
/// registered importer or validator) live outside this core; a dispatch
/// supplies them. A parser is a pure function of the full byte content it
/// is given: it either returns the handle of the in-memory value it built,
/// or an error message for exactly the inputs it rejects.
pub trait ParserDispatch {
    /// What the parser named `parser` returns on `bytes`.
    spec fn parse_spec(&self, parser: ParserId, bytes: Seq<u8>) -> Result<ObjectHandle, Seq<char>>;

    /// Run the parser named `parser` on a fresh view of the bytes.
    fn parse(&self, parser: ParserId, bytes: &[u8]) -> (r: Result<ObjectHandle, String>)
        ensures
            parse_result_matches(r, self.parse_spec(parser, bytes@)),
    ;
}

/// A capability-importer declared by a format handler: the capability it
/// imports under, together with the registered parser that does the work.
#[derive(Clone, Copy, Debug, PartialEq, Eq, Structural)]
pub enum EbiTraitImporter {
    FiniteLanguage(ParserId),
    FiniteStochasticLanguage(ParserId),
    QueriableStochasticLanguage(ParserId),
    IterableStochasticLanguage(ParserId),
    EventLog(ParserId),
    Semantics(ParserId),
    StochasticSemantics(ParserId),
    StochasticDeterministicSemantics(ParserId),
}

impl EbiTraitImporter {
    /// The capability this importer imports under.
    pub open spec fn get_trait_spec(self) -> EbiTrait {
        match self {
            EbiTraitImporter::FiniteLanguage(_) => EbiTrait::FiniteLanguage,
            EbiTraitImporter::FiniteStochasticLanguage(_) => EbiTrait::FiniteStochasticLanguage,
            EbiTraitImporter::QueriableStochasticLanguage(_) => {
                EbiTrait::QueriableStochasticLanguage
            },
            EbiTraitImporter::IterableStochasticLanguage(_) => EbiTrait::IterableStochasticLanguage,
            EbiTraitImporter::EventLog(_) => EbiTrait::EventLog,
            EbiTraitImporter::Semantics(_) => EbiTrait::Semantics,
            EbiTraitImporter::StochasticSemantics(_) => EbiTrait::StochasticSemantics,
            EbiTraitImporter::StochasticDeterministicSemantics(_) => {
                EbiTrait::StochasticDeterministicSemantics
            },
        }
    }

    /// The registered parser that does the work.
    pub open spec fn parser_spec(self) -> ParserId {
        match self {
            EbiTraitImporter::FiniteLanguage(p) => p,
            EbiTraitImporter::FiniteStochasticLanguage(p) => p,
            EbiTraitImporter::QueriableStochasticLanguage(p) => p,
            EbiTraitImporter::IterableStochasticLanguage(p) => p,
            EbiTraitImporter::EventLog(p) => p,
            EbiTraitImporter::Semantics(p) => p,
            EbiTraitImporter::StochasticSemantics(p) => p,
            EbiTraitImporter::StochasticDeterministicSemantics(p) => p,
        }
    }

    /// The capability this importer imports under.
    pub fn get_trait(&self) -> (r: EbiTrait)
        ensures
            r == self.get_trait_spec(),
    {
        match self {
            EbiTraitImporter::FiniteLanguage(_) => EbiTrait::FiniteLanguage,
            EbiTraitImporter::FiniteStochasticLanguage(_) => EbiTrait::FiniteStochasticLanguage,
            EbiTraitImporter::QueriableStochasticLanguage(_) => {
                EbiTrait::QueriableStochasticLanguage
            },
            EbiTraitImporter::IterableStochasticLanguage(_) => EbiTrait::IterableStochasticLanguage,
            EbiTraitImporter::EventLog(_) => EbiTrait::EventLog,
            EbiTraitImporter::Semantics(_) => EbiTrait::Semantics,
            EbiTraitImporter::StochasticSemantics(_) => EbiTrait::StochasticSemantics,
            EbiTraitImporter::StochasticDeterministicSemantics(_) => {
                EbiTrait::StochasticDeterministicSemantics
            },
        }
    }

    /// The registered parser that does the work.
    pub fn parser(&self) -> (r: ParserId)
        ensures
            r == self.parser_spec(),
    {
        match self {
            EbiTraitImporter::FiniteLanguage(p) => *p,
            EbiTraitImporter::FiniteStochasticLanguage(p) => *p,
            EbiTraitImporter::QueriableStochasticLanguage(p) => *p,
            EbiTraitImporter::IterableStochasticLanguage(p) => *p,
            EbiTraitImporter::EventLog(p) => *p,
            EbiTraitImporter::Semantics(p) => *p,
            EbiTraitImporter::StochasticSemantics(p) => *p,
            EbiTraitImporter::StochasticDeterministicSemantics(p) => *p,
        }
    }

    /// The name of the importer: the name of the capability it imports
    /// under.
    pub fn name(&self) -> (r: String)
        ensures
            r@ == self.get_trait_spec().name_spec(),
    {
        self.get_trait().name()
    }

    /// What importing through this importer returns on `bytes`.
    pub open spec fn import_spec<D: ParserDispatch>(
        self,
        dispatch: D,
        bytes: Seq<u8>,
    ) -> Result<EbiTraitObject, Seq<char>> {
        match dispatch.parse_spec(self.parser_spec(), bytes) {
            Ok(h) => Ok(EbiTraitObject::of_spec(self.get_trait_spec(), h)),
            Err(e) => Err(e),
        }
    }

    /// Attempt to import a fresh view of the bytes through this importer,
    /// tagging the parsed value with the importer's capability.
    pub fn import<D: ParserDispatch>(&self, dispatch: &D, bytes: &[u8]) -> (r: Result<
        EbiTraitObject,
        String,
    >)
        ensures
            match self.import_spec(*dispatch, bytes@) {
                Ok(o) => r matches Ok(ro) && ro == o,
                Err(e) => r matches Err(m) && m@ == e,
            },
    {
        match dispatch.parse(self.parser(), bytes) {
            Ok(h) => Ok(EbiTraitObject::of(self.get_trait(), h)),
            Err(m) => Err(m),
        }
    }
}

/// An object-importer declared by a format handler: the concrete kind it
/// produces, together with the registered parser that does the work.
#[derive(Clone, Copy, Debug, PartialEq, Eq, Structural)]
pub enum EbiObjectImporter {
    EventLog(ParserId),
    DirectlyFollowsModel(ParserId),
    FiniteLanguage(ParserId),
    FiniteStochasticLanguage(ParserId),
    LabelledPetriNet(ParserId),
    StochasticDeterministicFiniteAutomaton(ParserId),
    StochasticLabelledPetriNet(ParserId),
    LanguageOfAlignments(ParserId),
    DeterministicFiniteAutomaton(ParserId),
    ProcessTree(ParserId),
    Executions(ParserId),
    StochasticLanguageOfAlignments(ParserId),
}

impl EbiObjectImporter {
    /// The kind of object this importer produces.
    pub open spec fn get_type_spec(self) -> EbiObjectType {
        match self {
            EbiObjectImporter::EventLog(_) => EbiObjectType::EventLog,
            EbiObjectImporter::DirectlyFollowsModel(_) => EbiObjectType::DirectlyFollowsModel,
            EbiObjectImporter::FiniteLanguage(_) => EbiObjectType::FiniteLanguage,
            EbiObjectImporter::FiniteStochasticLanguage(_) => {
                EbiObjectType::FiniteStochasticLanguage
            },
            EbiObjectImporter::LabelledPetriNet(_) => EbiObjectType::LabelledPetriNet,
            EbiObjectImporter::StochasticDeterministicFiniteAutomaton(_) => {
                EbiObjectType::StochasticDeterministicFiniteAutomaton
            },
            EbiObjectImporter::StochasticLabelledPetriNet(_) => {
                EbiObjectType::StochasticLabelledPetriNet
            },
            EbiObjectImporter::LanguageOfAlignments(_) => EbiObjectType::LanguageOfAlignments,
            EbiObjectImporter::StochasticLanguageOfAlignments(_) => {
                EbiObjectType::StochasticLanguageOfAlignments
            },
            EbiObjectImporter::DeterministicFiniteAutomaton(_) => {
                EbiObjectType::DeterministicFiniteAutomaton
            },
            EbiObjectImporter::ProcessTree(_) => EbiObjectType::ProcessTree,
            EbiObjectImporter::Executions(_) => EbiObjectType::Executions,
        }
    }

    /// The registered parser that does the work.
    pub open spec fn parser_spec(self) -> ParserId {
        match self {
            EbiObjectImporter::EventLog(p) => p,
            EbiObjectImporter::DirectlyFollowsModel(p) => p,
            EbiObjectImporter::FiniteLanguage(p) => p,
            EbiObjectImporter::FiniteStochasticLanguage(p) => p,
            EbiObjectImporter::LabelledPetriNet(p) => p,
            EbiObjectImporter::StochasticDeterministicFiniteAutomaton(p) => p,
            EbiObjectImporter::StochasticLabelledPetriNet(p) => p,
            EbiObjectImporter::LanguageOfAlignments(p) => p,
            EbiObjectImporter::StochasticLanguageOfAlignments(p) => p,
            EbiObjectImporter::DeterministicFiniteAutomaton(p) => p,
            EbiObjectImporter::ProcessTree(p) => p,
            EbiObjectImporter::Executions(p) => p,
        }
    }

    /// The kind of object this importer produces.
    pub fn get_type(&self) -> (r: EbiObjectType)
        ensures
            r == self.get_type_spec(),
    {
        match self {
            EbiObjectImporter::EventLog(_) => EbiObjectType::EventLog,
            EbiObjectImporter::DirectlyFollowsModel(_) => EbiObjectType::DirectlyFollowsModel,
            EbiObjectImporter::FiniteLanguage(_) => EbiObjectType::FiniteLanguage,
            EbiObjectImporter::FiniteStochasticLanguage(_) => {
                EbiObjectType::FiniteStochasticLanguage
            },
            EbiObjectImporter::LabelledPetriNet(_) => EbiObjectType::LabelledPetriNet,
            EbiObjectImporter::StochasticDeterministicFiniteAutomaton(_) => {
                EbiObjectType::StochasticDeterministicFiniteAutomaton
            },
            EbiObjectImporter::StochasticLabelledPetriNet(_) => {
                EbiObjectType::StochasticLabelledPetriNet
            },
            EbiObjectImporter::LanguageOfAlignments(_) => EbiObjectType::LanguageOfAlignments,
            EbiObjectImporter::StochasticLanguageOfAlignments(_) => {
                EbiObjectType::StochasticLanguageOfAlignments
            },
            EbiObjectImporter::DeterministicFiniteAutomaton(_) => {
                EbiObjectType::DeterministicFiniteAutomaton
            },
            EbiObjectImporter::ProcessTree(_) => EbiObjectType::ProcessTree,
            EbiObjectImporter::Executions(_) => EbiObjectType::Executions,
        }
    }

    /// The registered parser that does the work.
    pub fn get_importer(&self) -> (r: ParserId)
        ensures
            r == self.parser_spec(),
    {
        match self {
            EbiObjectImporter::EventLog(p) => *p,
            EbiObjectImporter::DirectlyFollowsModel(p) => *p,
            EbiObjectImporter::FiniteLanguage(p) => *p,
            EbiObjectImporter::FiniteStochasticLanguage(p) => *p,
            EbiObjectImporter::LabelledPetriNet(p) => *p,
            EbiObjectImporter::StochasticDeterministicFiniteAutomaton(p) => *p,
            EbiObjectImporter::StochasticLabelledPetriNet(p) => *p,
            EbiObjectImporter::LanguageOfAlignments(p) => *p,
            EbiObjectImporter::StochasticLanguageOfAlignments(p) => *p,
            EbiObjectImporter::DeterministicFiniteAutomaton(p) => *p,
            EbiObjectImporter::ProcessTree(p) => *p,
            EbiObjectImporter::Executions(p) => *p,
        }
    }

    /// The name of the importer: the name of the object kind it produces.
    pub fn name(&self) -> (r: String)
        ensures
            r@ == self.get_type_spec().name_spec(),
    {
        self.get_type().name()
    }

    /// What importing through this importer returns on `bytes`.
    pub open spec fn import_spec<D: ParserDispatch>(
        self,
        dispatch: D,
        bytes: Seq<u8>,
    ) -> Result<EbiObject, Seq<char>> {
        match dispatch.parse_spec(self.parser_spec(), bytes) {
            Ok(h) => Ok(EbiObject::of_spec(self.get_type_spec(), h)),
            Err(e) => Err(e),
        }
    }

    /// Attempt to import a fresh view of the bytes through this importer,
    /// tagging the parsed value with the importer's object kind.
    pub fn import<D: ParserDispatch>(&self, dispatch: &D, bytes: &[u8]) -> (r: Result<
        EbiObject,
        String,
    >)
        ensures
            match self.import_spec(*dispatch, bytes@) {
                Ok(o) => r matches Ok(ro) && ro == o,
                Err(e) => r matches Err(m) && m@ == e,
            },
    {
        match dispatch.parse(self.get_importer(), bytes) {
            Ok(h) => Ok(EbiObject::of(self.get_type(), h)),
            Err(m) => Err(m),
        }
    }
}

/// One parser of a dispatch that recognizes its format by leading magic
/// bytes: it accepts exactly the inputs that start with `magic`, and then
/// hands back `handle`; on any other input it fails with `error`.
pub struct PrefixParser {
    pub magic: Vec<u8>,
    pub handle: ObjectHandle,
    pub error: String,
}

/// A dispatch whose registered parsers each recognize a fixed magic-byte
/// prefix. Parser ids are positions in `parsers`; an unregistered id fails
/// with an empty message.
pub struct PrefixDispatch {
    pub parsers: Vec<PrefixParser>,
}

impl PrefixDispatch {
    /// The outcome of the parser named `parser` on `bytes`.
    pub open spec fn outcome_spec(
        &self,
        parser: ParserId,
        bytes: Seq<u8>,
    ) -> Result<ObjectHandle, Seq<char>> {
        if parser < self.parsers@.len() {
            let p = self.parsers@[parser as int];
            if p.magic@.len() <= bytes.len() && bytes.take(p.magic@.len() as int) == p.magic@ {
                Ok(p.handle)
            } else {
                Err(p.error@)
            }
        } else {
            Err(Seq::empty())
        }
    }
}

impl ParserDispatch for PrefixDispatch {
    open spec fn parse_spec(
        &self,
        parser: ParserId,
        bytes: Seq<u8>,
    ) -> Result<ObjectHandle, Seq<char>> {
        self.outcome_spec(parser, bytes)
    }

    fn parse(&self, parser: ParserId, bytes: &[u8]) -> (r: Result<ObjectHandle, String>) {
        if parser >= self.parsers.len() {
            return Err(String::new());
        }
        let p = &self.parsers[parser];
        let m = p.magic.len();
        if m > bytes.len() {
            return Err(p.error.clone());
        }
        let mut j: usize = 0;
        while j < m
            invariant
                m == p.magic@.len(),
                m <= bytes@.len(),
                0 <= j <= m,
                p == self.parsers@[parser as int],
                parser < self.parsers@.len(),
                forall|k: int| 0 <= k < j ==> bytes@[k] == p.magic@[k],
            decreases m - j,
        {
            if bytes[j] != p.magic[j] {
                proof {
                    assert(bytes@.take(m as int)[j as int] != p.magic@[j as int]);
                }
                return Err(p.error.clone());
            }
            j = j + 1;
        }
        proof {
            assert(bytes@.take(m as int) =~= p.magic@);
        }
        Ok(p.handle)
    }
}

} // verus!
