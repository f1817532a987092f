//! The merge engine: applies a list of instructions to a base document.

use vstd::prelude::*;
use crate::document::{DocumentModel, LEDConfiguration, PageData, PageModel};
use crate::error::{MergeError, MergeErrorModel};
use crate::laws::lemma_keep_only_changes_nothing;
use crate::mapping::{action_named, MappingModel, MergeAction, MergeMapping};
use crate::repository::ConfigurationRepository;

verus! {

/// What the store answered to one load, as a mathematical value.
pub type LoadModel = Result<DocumentModel, Seq<char>>;

/// What one instruction asks for, once it has been checked against the
/// document and before any source is loaded.
pub enum MergeStep<'a> {
    /// Nothing is to be done.
    Unchanged,
    /// The page standing at `position` is to be merged, by `action`, with a
    /// page of the document kept at `path`.
    Fetch { position: usize, action: MergeAction, path: &'a String },
}

/// Mathematical value of a [`MergeStep`].
pub enum StepModel {
    Unchanged,
    Fetch { position: int, action: MergeAction, path: Seq<char> },
}

impl<'a> View for MergeStep<'a> {
    type V = StepModel;

    open spec fn view(&self) -> StepModel {
        match self {
            MergeStep::Unchanged => StepModel::Unchanged,
            MergeStep::Fetch { position, action, path } => StepModel::Fetch {
                position: *position as int,
                action: *action,
                path: path@,
            },
        }
    }
}

/// The instructions of a list, each as its model.
pub open spec fn mappings_model(mappings: Seq<MergeMapping>) -> Seq<MappingModel> {
    Seq::new(mappings.len(), |i: int| mappings[i]@)
}

/// The answer of the store to one load, as its model.
pub open spec fn load_model(loaded: Result<LEDConfiguration, String>) -> LoadModel {
    match loaded {
        Ok(document) => Ok(document@),
        Err(message) => Err(message@),
    }
}

/// The result of a merge, as its model.
pub open spec fn outcome_model(outcome: Result<LEDConfiguration, MergeError>) -> Result<
    DocumentModel,
    MergeErrorModel,
> {
    match outcome {
        Ok(document) => Ok(document@),
        Err(error) => Err(error@),
    }
}

impl DocumentModel {
    /// The checks made on one instruction, in order: an invalid instruction
    /// is refused first, then one whose slot the document lacks. A `keep`
    /// then asks for nothing; `replace` and `combine` ask for a source.
    pub open spec fn plan(self, mapping: MappingModel) -> Result<StepModel, MergeErrorModel> {
        if !mapping.is_valid() {
            Err(MergeErrorModel::InvalidInstruction(mapping.slot))
        } else if !self.has_page(mapping.slot) {
            Err(MergeErrorModel::TargetSlotNotFound(mapping.slot))
        } else {
            match action_named(mapping.action) {
                None => Err(MergeErrorModel::UnknownAction(mapping.action)),
                Some(MergeAction::Keep) => Ok(StepModel::Unchanged),
                Some(action) => Ok(
                    StepModel::Fetch {
                        position: self.page_position(mapping.slot),
                        action,
                        path: mapping.source_file->0,
                    },
                ),
            }
        }
    }

    /// The page that a source document offers: the page at `target_slot`
    /// when one is asked for, else the document's first page.
    pub open spec fn source_page(self, target_slot: Option<u32>) -> Option<PageModel> {
        match target_slot {
            Some(slot) => self.find_page(slot),
            None => if self.page_data.len() > 0 {
                Some(self.page_data[0])
            } else {
                None
            },
        }
    }

    /// The document after the page at `position` has been merged with what
    /// `source` offers. A source that offers no page changes nothing.
    pub open spec fn with_source(
        self,
        position: int,
        action: MergeAction,
        target_slot: Option<u32>,
        source: DocumentModel,
    ) -> DocumentModel {
        match source.source_page(target_slot) {
            Some(page) => self.with_page(position, self.page_data[position].merged_with(page, action)),
            None => self,
        }
    }

    /// One instruction applied to the document. `loaded` is what the store
    /// answers when asked for the instruction's source; it is looked at only
    /// when the instruction asks for a source.
    pub open spec fn step(self, mapping: MappingModel, loaded: LoadModel) -> Result<
        DocumentModel,
        MergeErrorModel,
    > {
        match self.plan(mapping) {
            Err(reason) => Err(reason),
            Ok(StepModel::Unchanged) => Ok(self),
            Ok(StepModel::Fetch { position, action, path }) => match loaded {
                Err(message) => Err(MergeErrorModel::Store(message)),
                Ok(source) => Ok(self.with_source(position, action, mapping.target_slot, source)),
            },
        }
    }

    /// The first `count` instructions applied in order. The first failure
    /// ends the merge.
    pub open spec fn merge_prefix(
        self,
        mappings: Seq<MappingModel>,
        loaded: Seq<LoadModel>,
        count: nat,
    ) -> Result<DocumentModel, MergeErrorModel>
        decreases count,
    {
        if count == 0 {
            Ok(self)
        } else {
            match self.merge_prefix(mappings, loaded, (count - 1) as nat) {
                Err(reason) => Err(reason),
                Ok(document) => document.step(mappings[count - 1], loaded[count - 1]),
            }
        }
    }

    /// All instructions applied in order, where `loaded[i]` is the store's
    /// answer for instruction `i`.
    pub open spec fn merge(self, mappings: Seq<MappingModel>, loaded: Seq<LoadModel>) -> Result<
        DocumentModel,
        MergeErrorModel,
    > {
        self.merge_prefix(mappings, loaded, mappings.len())
    }

    /// Once the merge has failed, later instructions change nothing.
    pub proof fn lemma_failure_is_final(
        self,
        mappings: Seq<MappingModel>,
        loaded: Seq<LoadModel>,
        failed: nat,
        count: nat,
    )
        requires
            failed <= count,
            self.merge_prefix(mappings, loaded, failed) is Err,
        ensures
            self.merge_prefix(mappings, loaded, count) == self.merge_prefix(mappings, loaded, failed),
        decreases count,
    {
        if failed < count {
            self.lemma_failure_is_final(mappings, loaded, failed, (count - 1) as nat);
        }
    }

    /// The first `count` instructions look at the first `count` answers
    /// only.
    pub proof fn lemma_prefix_reads_prefix(
        self,
        mappings: Seq<MappingModel>,
        loaded: Seq<LoadModel>,
        other: Seq<LoadModel>,
        count: nat,
    )
        requires
            forall|i: int| 0 <= i < count ==> loaded[i] == other[i],
        ensures
            self.merge_prefix(mappings, loaded, count) == self.merge_prefix(mappings, other, count),
        decreases count,
    {
        if count > 0 {
            self.lemma_prefix_reads_prefix(mappings, loaded, other, (count - 1) as nat);
        }
    }
}

/// Checks one instruction against the document.
pub fn plan_step<'a>(document: &LEDConfiguration, mapping: &'a MergeMapping) -> (planned: Result<
    MergeStep<'a>,
    MergeError,
>)
    ensures
        match document@.plan(mapping@) {
            Ok(step) => planned matches Ok(found) && found@ == step,
            Err(reason) => planned matches Err(error) && error@ == reason,
        },
        planned matches Ok(MergeStep::Fetch { position, .. }) ==> position < document@.page_data.len(),
{
    if !mapping.is_valid() {
        return Err(MergeError::InvalidInstruction(mapping.slot));
    }
    let position: usize = match document.position_of(mapping.slot) {
        Some(position) => position,
        None => {
            return Err(MergeError::TargetSlotNotFound(mapping.slot));
        },
    };
    match MergeAction::parse(mapping.action.as_str()) {
        None => Err(MergeError::UnknownAction(mapping.action.clone())),
        Some(MergeAction::Keep) => Ok(MergeStep::Unchanged),
        Some(action) => match &mapping.source_file {
            Some(path) => Ok(MergeStep::Fetch { position, action, path }),
            None => Err(MergeError::InvalidInstruction(mapping.slot)),
        },
    }
}

/// The page that `source` offers to an instruction with this target slot.
pub fn select_source_page(source: &LEDConfiguration, target_slot: Option<u32>) -> (found: Option<
    &PageData,
>)
    ensures
        match found {
            Some(page) => Some(page@),
            None => None,
        } == source@.source_page(target_slot),
{
    match target_slot {
        Some(slot) => source.get_page_by_index(slot),
        None => if source.page_data.len() > 0 {
            Some(&source.page_data[0])
        } else {
            None
        },
    }
}

/// Merges into the page standing at `position` the page that `source`
/// offers. When `source` offers none, the document stays as it is.
pub fn apply_source(
    document: &mut LEDConfiguration,
    position: usize,
    action: MergeAction,
    target_slot: Option<u32>,
    source: &LEDConfiguration,
)
    requires
        position < old(document)@.page_data.len(),
    ensures
        final(document)@ == old(document)@.with_source(position as int, action, target_slot, source@),
{
    match select_source_page(source, target_slot) {
        Some(page) => document.apply_at(position, page, action),
        None => {},
    }
}

/// Whether `answer` is something that `store` may say when it is asked to
/// load the document at `path`.
pub open spec fn store_answers<R: ConfigurationRepository>(
    store: &R,
    path: Seq<char>,
    answer: Result<LEDConfiguration, String>,
) -> bool {
    exists|location: &str|
        location@ == path && #[trigger] call_ensures(R::load_configuration, (store, location), answer)
}

/// Whether every instruction of a list is a `keep`.
pub open spec fn keeps_only(plan: Seq<MappingModel>) -> bool {
    forall|i: int|
        0 <= i < plan.len() ==> action_named((#[trigger] plan[i]).action) == Some(MergeAction::Keep)
}

/// Whether the document has a page at the slot of every instruction.
pub open spec fn targets_present(base: DocumentModel, plan: Seq<MappingModel>) -> bool {
    forall|i: int| 0 <= i < plan.len() ==> base.has_page((#[trigger] plan[i]).slot)
}

/// The answers of the store to a run of loads, each as its model.
pub open spec fn loads_model(answers: Seq<Result<LEDConfiguration, String>>) -> Seq<LoadModel> {
    Seq::new(answers.len(), |i: int| load_model(answers[i]))
}

impl DocumentModel {
    /// Whether a merge asks the store for the source of instruction `at`:
    /// the instructions before it went through, and it passes its checks
    /// and needs a source.
    pub open spec fn asks_store(self, mappings: Seq<MappingModel>, loaded: Seq<LoadModel>, at: int) -> bool {
        &&& 0 <= at < mappings.len()
        &&& self.merge_prefix(mappings, loaded, at as nat) matches Ok(document)
        &&& document.plan(mappings[at]) matches Ok(StepModel::Fetch { .. })
    }
}

/// Whether `outcome` is what a merge of `base` by `plan` gives when the
/// store says `answers[i]` for instruction `i`, each answer for an
/// instruction that the merge asks about being one that `store` may give
/// for that instruction's source file.
pub open spec fn merges_with<R: ConfigurationRepository>(
    store: &R,
    base: DocumentModel,
    plan: Seq<MappingModel>,
    answers: Seq<Result<LEDConfiguration, String>>,
    outcome: Result<DocumentModel, MergeErrorModel>,
) -> bool {
    &&& answers.len() == plan.len()
    &&& outcome == base.merge(plan, loads_model(answers))
    &&& forall|i: int| #[trigger]
        base.asks_store(plan, loads_model(answers), i) ==> store_answers(
            store,
            plan[i].source_file->0,
            answers[i],
        )
}

/// The merge engine, reading source documents from a store.
pub struct MergeConfigurationsUseCase<R: ConfigurationRepository> {
    repository: R,
}

impl<R: ConfigurationRepository> MergeConfigurationsUseCase<R> {
    /// The store that source documents are read from.
    pub closed spec fn store(&self) -> &R {
        &self.repository
    }

    /// An engine reading from `repository`.
    pub fn new(repository: R) -> (engine: Self)
        ensures
            *engine.store() == repository,
    {
        Self { repository }
    }

    /// Applies `mappings` to `base_config` in order and returns the merged
    /// document, or the first failure.
    ///
    /// The store is asked once for each instruction that passes its checks
    /// and needs a source, with that instruction's source file, and for no
    /// other. With `answers[i]` what it said for instruction `i`, the outcome
    /// is the one that [`DocumentModel::merge`] gives for those answers.
    /// Where the store was not asked, `answers[i]` plays no part.
    pub fn execute(&self, base_config: LEDConfiguration, mappings: Vec<MergeMapping>) -> (outcome:
        Result<LEDConfiguration, MergeError>)
        ensures
            exists|answers: Seq<Result<LEDConfiguration, String>>| #[trigger]
                merges_with(
                    self.store(),
                    base_config@,
                    mappings_model(mappings@),
                    answers,
                    outcome_model(outcome),
                ),
            keeps_only(mappings_model(mappings@)) ==> match outcome {
                Ok(merged) => merged@ == base_config@,
                Err(error) => error@ is TargetSlotNotFound,
            },
            keeps_only(mappings_model(mappings@)) && targets_present(
                base_config@,
                mappings_model(mappings@),
            ) ==> outcome is Ok,
    {
        let ghost base = base_config@;
        let ghost plan = mappings_model(mappings@);
        let ghost mut answers: Seq<Result<LEDConfiguration, String>> = Seq::empty();
        let mut document = base_config;
        let mut index: usize = 0;
        while index < mappings.len()
            invariant
                index <= mappings.len(),
                base == base_config@,
                plan == mappings_model(mappings@),
                answers.len() == index,
                base.merge_prefix(plan, loads_model(answers), index as nat) == Ok::<
                    DocumentModel,
                    MergeErrorModel,
                >(document@),
                forall|i: int| #[trigger]
                    base.asks_store(plan, loads_model(answers), i) && i < index ==> store_answers(
                        self.store(),
                        plan[i].source_file->0,
                        answers[i],
                    ),
            decreases mappings.len() - index,
        {
            let mapping = &mappings[index];
            let ghost before = answers;
            let ghost current = document@;
            let ghost mut answer: Result<LEDConfiguration, String> = arbitrary();
            let ghost mut asked = false;
            let mut failure: Option<MergeError> = None;
            match plan_step(&document, mapping) {
                Err(error) => {
                    failure = Some(error);
                },
                Ok(MergeStep::Unchanged) => {},
                Ok(MergeStep::Fetch { position, action, path }) => {
                    let answered = self.repository.load_configuration(path.as_str());
                    proof {
                        answer = answered;
                        asked = true;
                        assert(store_answers(self.store(), path@, answered));
                    }
                    match answered {
                        Err(message) => {
                            failure = Some(MergeError::Store(message));
                        },
                        Ok(source) => {
                            apply_source(&mut document, position, action, mapping.target_slot, &source);
                        },
                    }
                },
            }
            proof {
                answers = before.push(answer);
                let loaded = loads_model(answers);
                base.lemma_prefix_reads_prefix(plan, loads_model(before), loaded, index as nat);
                assert(plan[index as int] == mapping@);
                assert(loaded[index as int] == load_model(answer));
                let stepped = current.step(mapping@, load_model(answer));
                assert(base.merge_prefix(plan, loaded, (index + 1) as nat) == stepped);
                assert(match failure {
                    Some(error) => stepped == Err::<DocumentModel, MergeErrorModel>(error@),
                    None => stepped == Ok::<DocumentModel, MergeErrorModel>(document@),
                });
                assert(asked == (current.plan(mapping@) matches Ok(StepModel::Fetch { .. })));
                assert(asked ==> store_answers(self.store(), mapping@.source_file->0, answer));
                assert forall|i: int| #[trigger]
                    base.asks_store(plan, loaded, i) && i < index + 1 implies store_answers(
                    self.store(),
                    plan[i].source_file->0,
                    answers[i],
                ) by {
                    if i < index {
                        base.lemma_prefix_reads_prefix(plan, loads_model(before), loaded, i as nat);
                        assert(base.asks_store(plan, loads_model(before), i));
                    }
                }
            }
            if let Some(error) = failure {
                proof {
                    let rest = (mappings.len() - index - 1) as nat;
                    let all = answers + Seq::new(rest, |i: int| answer);
                    let loaded = loads_model(answers);
                    let all_loaded = loads_model(all);
                    let failed = (index + 1) as nat;
                    base.lemma_prefix_reads_prefix(plan, loaded, all_loaded, failed);
                    base.lemma_failure_is_final(plan, all_loaded, failed, plan.len());
                    assert(all.len() == plan.len());
                    assert(outcome_model(Err(error)) == base.merge(plan, all_loaded));
                    assert forall|i: int| #[trigger]
                        base.asks_store(plan, all_loaded, i) implies store_answers(
                        self.store(),
                        plan[i].source_file->0,
                        all[i],
                    ) by {
                        if i < failed {
                            base.lemma_prefix_reads_prefix(plan, loaded, all_loaded, i as nat);
                            assert(base.asks_store(plan, loaded, i));
                        } else {
                            base.lemma_failure_is_final(plan, all_loaded, failed, i as nat);
                        }
                    }
                    assert(merges_with(self.store(), base, plan, all, outcome_model(Err(error))));
                    if keeps_only(plan) {
                        lemma_keep_only_changes_nothing(base, plan, all_loaded);
                    }
                }
                return Err(error);
            }
            index += 1;
        }
        proof {
            assert(merges_with(self.store(), base, plan, answers, outcome_model(Ok(document))));
            if keeps_only(plan) {
                lemma_keep_only_changes_nothing(base, plan, loads_model(answers));
            }
        }
        Ok(document)
    }
}

} // verus!
