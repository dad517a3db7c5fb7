use vstd::prelude::*;

verus! {

/// An abstract capability (semantic trait) that an imported object may
/// expose, independent of the concrete file format the bytes were in.
/// The set is fixed; values are compared by identity.
#[derive(Clone, Copy, Debug, PartialEq, Eq, Structural)]
pub enum EbiTrait {
    FiniteLanguage,
    FiniteStochasticLanguage,
    QueriableStochasticLanguage,
    IterableStochasticLanguage,
    EventLog,
    Semantics,
    StochasticSemantics,
    StochasticDeterministicSemantics,
}

impl EbiTrait {
    /// The human-readable name of the capability, as a sequence of characters.
    pub open spec fn name_spec(self) -> Seq<char> {
        match self {
            EbiTrait::FiniteLanguage => "finite language"@,
            EbiTrait::FiniteStochasticLanguage => "finite stochastic language"@,
            EbiTrait::QueriableStochasticLanguage => "queriable stochastic language"@,
            EbiTrait::IterableStochasticLanguage => "iterable stochastic language"@,
            EbiTrait::EventLog => "event log"@,
            EbiTrait::Semantics => "semantics"@,
            EbiTrait::StochasticSemantics => "stochastic semantics"@,
            EbiTrait::StochasticDeterministicSemantics => "stochastic deterministic semantics"@,
        }
    }

    /// The human-readable name of the capability, used in error messages
    /// and listings.
    pub fn name(&self) -> (r: String)
        ensures
            r@ == self.name_spec(),
    {
        match self {
            EbiTrait::FiniteLanguage => "finite language".to_owned(),
            EbiTrait::FiniteStochasticLanguage => "finite stochastic language".to_owned(),
            EbiTrait::QueriableStochasticLanguage => "queriable stochastic language".to_owned(),
            EbiTrait::IterableStochasticLanguage => "iterable stochastic language".to_owned(),
            EbiTrait::EventLog => "event log".to_owned(),
            EbiTrait::Semantics => "semantics".to_owned(),
            EbiTrait::StochasticSemantics => "stochastic semantics".to_owned(),
            EbiTrait::StochasticDeterministicSemantics => {
                "stochastic deterministic semantics".to_owned()
            },
        }
    }

    /// The grammatically correct indefinite article for the capability's name.
    pub open spec fn article_spec(self) -> Seq<char> {
        match self {
            EbiTrait::IterableStochasticLanguage => "an"@,
            EbiTrait::EventLog => "an"@,
            _ => "a"@,
        }
    }

    /// The indefinite article ("a" or "an") that precedes the capability's
    /// name in a sentence.
    pub fn get_article(&self) -> (r: &'static str)
        ensures
            r@ == self.article_spec(),
    {
        match self {
            EbiTrait::IterableStochasticLanguage => "an",
            EbiTrait::EventLog => "an",
            _ => "a",
        }
    }

    /// All capabilities, in declaration order.
    pub fn values() -> (r: Vec<EbiTrait>)
        ensures
            r@ == seq![
                EbiTrait::FiniteLanguage,
                EbiTrait::FiniteStochasticLanguage,
                EbiTrait::QueriableStochasticLanguage,
                EbiTrait::IterableStochasticLanguage,
                EbiTrait::EventLog,
                EbiTrait::Semantics,
                EbiTrait::StochasticSemantics,
                EbiTrait::StochasticDeterministicSemantics,
            ],
    {
        let mut r: Vec<EbiTrait> = Vec::new();
        r.push(EbiTrait::FiniteLanguage);
        r.push(EbiTrait::FiniteStochasticLanguage);
        r.push(EbiTrait::QueriableStochasticLanguage);
        r.push(EbiTrait::IterableStochasticLanguage);
        r.push(EbiTrait::EventLog);
        r.push(EbiTrait::Semantics);
        r.push(EbiTrait::StochasticSemantics);
        r.push(EbiTrait::StochasticDeterministicSemantics);
        proof {
            assert(r@ =~= seq![
                EbiTrait::FiniteLanguage,
                EbiTrait::FiniteStochasticLanguage,
                EbiTrait::QueriableStochasticLanguage,
                EbiTrait::IterableStochasticLanguage,
                EbiTrait::EventLog,
                EbiTrait::Semantics,
                EbiTrait::StochasticSemantics,
                EbiTrait::StochasticDeterministicSemantics,
            ]);
        }
        r
    }
}

} // verus!
