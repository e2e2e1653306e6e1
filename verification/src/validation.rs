//! Tallying how the addresses of a round's parcels were validated.
//!
//! Validating an address is the work of a geocoding service. This module
//! only counts what came of it, parcel by parcel.

use crate::text::texts;
use vstd::prelude::*;
use vstd::string::StringExecFns;

verus! {

/// How an address was brought into a form that could be located.
#[derive(Debug, Clone, Copy, PartialEq, Eq, Structural)]
pub enum ValidationMethod {
    /// The address was found as written.
    Original,
    /// It was found after cleaning.
    Cleaned,
    /// It was found after completing it with the sector.
    CompletedWithSector,
    /// Only a part of it was found.
    PartialSearch,
    /// It was not found: a person has to look at it.
    ManualRequired,
}

/// The mathematical value of a [`ValidationOutcome`].
pub enum ValidationOutcomeModel {
    Validated { method: ValidationMethod, warnings: Seq<Seq<char>> },
    Failed { reason: Seq<char> },
}

/// What the validation of one parcel's address came to.
#[derive(Debug, PartialEq, Eq)]
pub enum ValidationOutcome {
    /// The service answered.
    Validated { method: ValidationMethod, warnings: Vec<String> },
    /// The service failed; the reason says how.
    Failed { reason: String },
}

impl View for ValidationOutcome {
    type V = ValidationOutcomeModel;

    open spec fn view(&self) -> ValidationOutcomeModel {
        match self {
            ValidationOutcome::Validated { method, warnings } => ValidationOutcomeModel::Validated {
                method: *method,
                warnings: texts(warnings@),
            },
            ValidationOutcome::Failed { reason } => ValidationOutcomeModel::Failed {
                reason: reason@,
            },
        }
    }
}

/// The values of a run of outcomes.
pub open spec fn outcome_models(outcomes: Seq<ValidationOutcome>) -> Seq<ValidationOutcomeModel> {
    Seq::new(outcomes.len(), |i: int| outcomes[i]@)
}

/// Under which method an outcome is counted: its own, or as requiring a
/// person where the service failed.
pub open spec fn counted_as(outcome: ValidationOutcomeModel) -> ValidationMethod {
    match outcome {
        ValidationOutcomeModel::Validated { method, .. } => method,
        ValidationOutcomeModel::Failed { .. } => ValidationMethod::ManualRequired,
    }
}

/// The warnings that an outcome adds to the summary: those of an answer;
/// none for a failure.
pub open spec fn warnings_of(outcome: ValidationOutcomeModel) -> Seq<Seq<char>> {
    match outcome {
        ValidationOutcomeModel::Validated { warnings, .. } => warnings,
        ValidationOutcomeModel::Failed { .. } => Seq::empty(),
    }
}

/// How many of the outcomes are counted under `method`.
pub open spec fn tally(outcomes: Seq<ValidationOutcomeModel>, method: ValidationMethod) -> nat
    decreases outcomes.len(),
{
    if outcomes.len() == 0 {
        0
    } else {
        tally(outcomes.drop_last(), method) + if counted_as(outcomes.last()) == method {
            1nat
        } else {
            0nat
        }
    }
}

/// The warnings of all outcomes, in order.
pub open spec fn all_warnings(outcomes: Seq<ValidationOutcomeModel>) -> Seq<Seq<char>>
    decreases outcomes.len(),
{
    if outcomes.len() == 0 {
        Seq::empty()
    } else {
        all_warnings(outcomes.drop_last()) + warnings_of(outcomes.last())
    }
}

/// The mathematical value of an [`AddressValidationSummary`].
pub struct SummaryModel {
    pub total_packages: nat,
    pub auto_validated: nat,
    pub cleaned_auto: nat,
    pub completed_auto: nat,
    pub partial_found: nat,
    pub requires_manual: nat,
    pub warnings: Seq<Seq<char>>,
}

/// How the addresses of a round's parcels fared.
#[derive(Debug, PartialEq, Eq)]
pub struct AddressValidationSummary {
    pub total_packages: usize,
    pub auto_validated: usize,
    pub cleaned_auto: usize,
    pub completed_auto: usize,
    pub partial_found: usize,
    pub requires_manual: usize,
    pub warnings: Vec<String>,
}

impl View for AddressValidationSummary {
    type V = SummaryModel;

    open spec fn view(&self) -> SummaryModel {
        SummaryModel {
            total_packages: self.total_packages as nat,
            auto_validated: self.auto_validated as nat,
            cleaned_auto: self.cleaned_auto as nat,
            completed_auto: self.completed_auto as nat,
            partial_found: self.partial_found as nat,
            requires_manual: self.requires_manual as nat,
            warnings: texts(self.warnings@),
        }
    }
}

/// The summary of a run of outcomes, one for each parcel.
pub open spec fn summary_of(outcomes: Seq<ValidationOutcomeModel>) -> SummaryModel {
    SummaryModel {
        total_packages: outcomes.len(),
        auto_validated: tally(outcomes, ValidationMethod::Original),
        cleaned_auto: tally(outcomes, ValidationMethod::Cleaned),
        completed_auto: tally(outcomes, ValidationMethod::CompletedWithSector),
        partial_found: tally(outcomes, ValidationMethod::PartialSearch),
        requires_manual: tally(outcomes, ValidationMethod::ManualRequired),
        warnings: all_warnings(outcomes),
    }
}

/// No more outcomes are counted under a method than there are outcomes.
pub proof fn lemma_tally_bounded(outcomes: Seq<ValidationOutcomeModel>, method: ValidationMethod)
    ensures
        tally(outcomes, method) <= outcomes.len(),
    decreases outcomes.len(),
{
    if outcomes.len() > 0 {
        lemma_tally_bounded(outcomes.drop_last(), method);
    }
}

/// Every outcome is counted under exactly one method: the five counts add
/// up to the number of parcels.
pub proof fn lemma_counts_add_up(outcomes: Seq<ValidationOutcomeModel>)
    ensures
        summary_of(outcomes).auto_validated + summary_of(outcomes).cleaned_auto + summary_of(
            outcomes,
        ).completed_auto + summary_of(outcomes).partial_found + summary_of(
            outcomes,
        ).requires_manual == summary_of(outcomes).total_packages,
    decreases outcomes.len(),
{
    if outcomes.len() > 0 {
        lemma_counts_add_up(outcomes.drop_last());
    }
}

/// Counts how the validation of each parcel's address came out, and
/// gathers the warnings of the answers.
pub fn summarize(outcomes: &Vec<ValidationOutcome>) -> (r: AddressValidationSummary)
    ensures
        r@ == summary_of(outcome_models(outcomes@)),
{
    let ghost all = outcome_models(outcomes@);
    let mut auto_validated: usize = 0;
    let mut cleaned_auto: usize = 0;
    let mut completed_auto: usize = 0;
    let mut partial_found: usize = 0;
    let mut requires_manual: usize = 0;
    let mut gathered: Vec<String> = Vec::new();
    let mut i: usize = 0;
    assert(all.take(0) =~= Seq::<ValidationOutcomeModel>::empty());
    assert(texts(gathered@) =~= all_warnings(all.take(0)));
    while i < outcomes.len()
        invariant
            i <= outcomes.len(),
            all == outcome_models(outcomes@),
            auto_validated == tally(all.take(i as int), ValidationMethod::Original),
            cleaned_auto == tally(all.take(i as int), ValidationMethod::Cleaned),
            completed_auto == tally(all.take(i as int), ValidationMethod::CompletedWithSector),
            partial_found == tally(all.take(i as int), ValidationMethod::PartialSearch),
            requires_manual == tally(all.take(i as int), ValidationMethod::ManualRequired),
            texts(gathered@) == all_warnings(all.take(i as int)),
        decreases outcomes.len() - i,
    {
        proof {
            assert(all.take(i + 1).drop_last() =~= all.take(i as int));
            assert(all.take(i + 1).last() == outcomes@[i as int]@);
            lemma_tally_bounded(all.take(i as int), ValidationMethod::Original);
            lemma_tally_bounded(all.take(i as int), ValidationMethod::Cleaned);
            lemma_tally_bounded(all.take(i as int), ValidationMethod::CompletedWithSector);
            lemma_tally_bounded(all.take(i as int), ValidationMethod::PartialSearch);
            lemma_tally_bounded(all.take(i as int), ValidationMethod::ManualRequired);
        }
        match &outcomes[i] {
            ValidationOutcome::Validated { method, warnings } => {
                match method {
                    ValidationMethod::Original => {
                        auto_validated += 1;
                    },
                    ValidationMethod::Cleaned => {
                        cleaned_auto += 1;
                    },
                    ValidationMethod::CompletedWithSector => {
                        completed_auto += 1;
                    },
                    ValidationMethod::PartialSearch => {
                        partial_found += 1;
                    },
                    ValidationMethod::ManualRequired => {
                        requires_manual += 1;
                    },
                }
                let ghost earlier = gathered@;
                let mut k: usize = 0;
                assert(texts(gathered@) =~= texts(earlier) + texts(warnings@).take(0));
                while k < warnings.len()
                    invariant
                        k <= warnings.len(),
                        texts(gathered@) == texts(earlier) + texts(warnings@).take(k as int),
                    decreases warnings.len() - k,
                {
                    let ghost so_far = gathered@;
                    gathered.push(warnings[k].clone());
                    assert(texts(gathered@) =~= texts(so_far).push(warnings@[k as int]@));
                    assert(texts(warnings@).take(k + 1) =~= texts(warnings@).take(k as int).push(
                        warnings@[k as int]@,
                    ));
                    k += 1;
                }
                assert(texts(warnings@).take(k as int) =~= texts(warnings@));
            },
            ValidationOutcome::Failed { .. } => {
                requires_manual += 1;
                assert(texts(gathered@) =~= all_warnings(all.take(i as int))
                    + Seq::<Seq<char>>::empty());
            },
        }
        i += 1;
    }
    assert(all.take(i as int) =~= all);
    AddressValidationSummary {
        total_packages: outcomes.len(),
        auto_validated,
        cleaned_auto,
        completed_auto,
        partial_found,
        requires_manual,
        warnings: gathered,
    }
}

/// The summary for a round whose addresses were not validated at all:
/// every parcel requires a person.
pub fn unvalidated(total_packages: usize) -> (r: AddressValidationSummary)
    ensures
        r@ == (SummaryModel {
            total_packages: total_packages as nat,
            auto_validated: 0,
            cleaned_auto: 0,
            completed_auto: 0,
            partial_found: 0,
            requires_manual: total_packages as nat,
            warnings: Seq::empty(),
        }),
{
    let r = AddressValidationSummary {
        total_packages,
        auto_validated: 0,
        cleaned_auto: 0,
        completed_auto: 0,
        partial_found: 0,
        requires_manual: total_packages,
        warnings: Vec::new(),
    };
    assert(texts(r.warnings@) =~= Seq::<Seq<char>>::empty());
    r
}

/// The name under which a method is reported.
pub fn method_label(method: ValidationMethod) -> (r: &'static str)
    ensures
        r@ == (match method {
            ValidationMethod::Original => "Original"@,
            ValidationMethod::Cleaned => "Cleaned"@,
            ValidationMethod::CompletedWithSector => "CompletedWithSector"@,
            ValidationMethod::PartialSearch => "PartialSearch"@,
            ValidationMethod::ManualRequired => "ManualRequired"@,
        }),
{
    match method {
        ValidationMethod::Original => "Original",
        ValidationMethod::Cleaned => "Cleaned",
        ValidationMethod::CompletedWithSector => "CompletedWithSector",
        ValidationMethod::PartialSearch => "PartialSearch",
        ValidationMethod::ManualRequired => "ManualRequired",
    }
}

/// The warning that is attached to a parcel whose validation failed.
pub fn failure_warning(reason: &str) -> (r: String)
    ensures
        r@ == "Error de validación: "@ + reason@,
{
    let mut out = "Error de validación: ".to_owned();
    out.append(reason);
    out
}

} // verus!
