//! Building a System One request: the option set of a Choice, the state, the
//! questions, and the checks made before it is sent.

use serde_json::Error as JsonError;
use serde_json::Value;

use vstd::prelude::*;
use vstd::string::*;

use crate::client::Client;
use crate::error::Error;
use crate::json::{
    into_object, json_is_object, json_object_entries, json_of_object, json_of_string, json_string, json_text,
    new_object, object_entries, object_insert, object_value, string_value, to_json_text, JsonObject,
};
use crate::maps::{
    insert_option, insert_question, key_before, lemma_key_before_distinct, new_option_map, new_question_map,
    no_question_held, opt_chars, option_entries, question_entries, questions_in_order, OptionMap, QuestionMap,
};
use crate::question::{problem, question_json, question_value, Question, NONE_OF_THE_ABOVE};
use crate::text::concat3;

verus! {

/// What a [`ChoiceBuilder`] has collected: option name to optional description,
/// and, in the order they came, the names that were given more than once.
pub ghost struct ChoiceSet {
    pub options: Map<Seq<char>, Option<Seq<char>>>,
    pub duplicates: Seq<Seq<char>>,
}

/// The set that adding `name` with `description` to `c` gives: the later
/// description wins, and a name seen before is recorded as a duplicate.
pub open spec fn choice_add(c: ChoiceSet, name: Seq<char>, description: Option<Seq<char>>) -> ChoiceSet {
    ChoiceSet {
        options: c.options.insert(name, description),
        duplicates: if c.options.contains_key(name) { c.duplicates.push(name) } else { c.duplicates },
    }
}

/// Adding options one after another, in order.
pub open spec fn choice_add_all(c: ChoiceSet, items: Seq<(Seq<char>, Option<Seq<char>>)>) -> ChoiceSet
    decreases items.len(),
{
    if items.len() == 0 {
        c
    } else {
        choice_add_all(choice_add(c, items[0].0, items[0].1), items.drop_first())
    }
}

/// No name of `items` is already an option of `options`.
pub open spec fn names_fresh(options: Map<Seq<char>, Option<Seq<char>>>, items: Seq<(Seq<char>, Option<Seq<char>>)>) -> bool {
    forall|i: int| 0 <= i < items.len() ==> !options.contains_key(#[trigger] items[i].0)
}

/// No name occurs twice in `items`.
pub open spec fn names_distinct(items: Seq<(Seq<char>, Option<Seq<char>>)>) -> bool {
    forall|i: int, j: int| 0 <= i < j < items.len() ==> #[trigger] items[i].0 != #[trigger] items[j].0
}

proof fn lemma_add_all(c: ChoiceSet, items: Seq<(Seq<char>, Option<Seq<char>>)>)
    ensures
        choice_add_all(c, items).duplicates.len() >= c.duplicates.len(),
        choice_add_all(c, items).duplicates.len() == c.duplicates.len() <==> (names_fresh(c.options, items)
            && names_distinct(items)),
        forall|n: Seq<char>| #[trigger] choice_add_all(c, items).options.contains_key(n) <==> (c.options.contains_key(n)
            || exists|i: int| 0 <= i < items.len() && items[i].0 == n),
    decreases items.len(),
{
    if items.len() > 0 {
        let c1 = choice_add(c, items[0].0, items[0].1);
        let rest = items.drop_first();
        lemma_add_all(c1, rest);
        let r = choice_add_all(c, items);
        assert(r == choice_add_all(c1, rest));
        assert(names_fresh(c.options, items) && names_distinct(items) <==> (!c.options.contains_key(items[0].0)
            && names_fresh(c1.options, rest) && names_distinct(rest))) by {
            if names_fresh(c.options, items) && names_distinct(items) {
                assert forall|i: int| 0 <= i < rest.len() implies !c1.options.contains_key(#[trigger] rest[i].0) by {
                    assert(rest[i] == items[i + 1]);
                    assert(items[0].0 != items[i + 1].0);
                }
                assert forall|i: int, j: int| 0 <= i < j < rest.len() implies #[trigger] rest[i].0 != #[trigger] rest[j].0 by {
                    assert(rest[i] == items[i + 1]);
                    assert(rest[j] == items[j + 1]);
                }
            }
            if !c.options.contains_key(items[0].0) && names_fresh(c1.options, rest) && names_distinct(rest) {
                assert forall|i: int| 0 <= i < items.len() implies !c.options.contains_key(#[trigger] items[i].0) by {
                    if i > 0 {
                        assert(items[i] == rest[i - 1]);
                    }
                }
                assert forall|i: int, j: int| 0 <= i < j < items.len() implies #[trigger] items[i].0 != #[trigger] items[j].0 by {
                    assert(items[j] == rest[j - 1]);
                    if i > 0 {
                        assert(items[i] == rest[i - 1]);
                    } else {
                        assert(c1.options.contains_key(items[0].0));
                    }
                }
            }
        }
        assert forall|n: Seq<char>| #[trigger] r.options.contains_key(n) <==> (c.options.contains_key(n)
            || exists|i: int| 0 <= i < items.len() && items[i].0 == n) by {
            if exists|i: int| 0 <= i < items.len() && items[i].0 == n {
                let i = choose|i: int| 0 <= i < items.len() && items[i].0 == n;
                if i > 0 {
                    assert(rest[i - 1] == items[i]);
                }
            }
            if exists|i: int| 0 <= i < rest.len() && rest[i].0 == n {
                let i = choose|i: int| 0 <= i < rest.len() && rest[i].0 == n;
                assert(items[i + 1] == rest[i]);
            }
        }
    }
}

/// Adding options in order records a duplicate exactly when some name is given
/// twice, and the option set ends up holding exactly the names given.
pub proof fn law_duplicates_iff_repeated(items: Seq<(Seq<char>, Option<Seq<char>>)>)
    ensures
        choice_add_all(empty_choice_set(), items).duplicates.len() == 0 <==> names_distinct(items),
        forall|n: Seq<char>| #[trigger] choice_add_all(empty_choice_set(), items).options.contains_key(n)
            <==> exists|i: int| 0 <= i < items.len() && items[i].0 == n,
{
    lemma_add_all(empty_choice_set(), items);
}

/// Adding options in two batches is adding them all at once, in the same order.
pub proof fn law_add_all_concat(
    c: ChoiceSet,
    first: Seq<(Seq<char>, Option<Seq<char>>)>,
    then: Seq<(Seq<char>, Option<Seq<char>>)>,
)
    ensures
        choice_add_all(choice_add_all(c, first), then) == choice_add_all(c, first + then),
    decreases first.len(),
{
    if first.len() > 0 {
        law_add_all_concat(choice_add(c, first[0].0, first[0].1), first.drop_first(), then);
        assert((first + then).drop_first() =~= first.drop_first() + then);
        assert((first + then)[0] == first[0]);
    } else {
        assert(first + then =~= then);
    }
}

/// Every name added becomes a new option or is recorded as a duplicate, and each
/// recorded duplicate is an option: the options plus the duplicates count the
/// names added, starting from a set that keeps the same account.
pub proof fn law_choice_counts(c: ChoiceSet, items: Seq<(Seq<char>, Option<Seq<char>>)>)
    requires
        c.options.dom().finite(),
        forall|i: int| 0 <= i < c.duplicates.len() ==> c.options.contains_key(#[trigger] c.duplicates[i]),
    ensures
        choice_add_all(c, items).options.dom().finite(),
        choice_add_all(c, items).options.len() + choice_add_all(c, items).duplicates.len() == c.options.len()
            + c.duplicates.len() + items.len(),
        forall|i: int|
            0 <= i < choice_add_all(c, items).duplicates.len() ==> choice_add_all(c, items).options.contains_key(
                #[trigger] choice_add_all(c, items).duplicates[i],
            ),
    decreases items.len(),
{
    if items.len() > 0 {
        let c1 = choice_add(c, items[0].0, items[0].1);
        assert forall|i: int| 0 <= i < c1.duplicates.len() implies c1.options.contains_key(#[trigger] c1.duplicates[i]) by {
            if i < c.duplicates.len() {
                assert(c1.duplicates[i] == c.duplicates[i]);
            }
        }
        law_choice_counts(c1, items.drop_first());
    }
}

/// Option set of a Choice, built inside [`SystemOneRequest::choice`].
pub struct ChoiceBuilder {
    options: OptionMap,
    duplicates: Vec<String>,
}

impl View for ChoiceBuilder {
    type V = ChoiceSet;

    closed spec fn view(&self) -> ChoiceSet {
        ChoiceSet {
            options: option_entries(self.options),
            duplicates: self.duplicates@.map_values(|s: String| s@),
        }
    }
}

impl Default for ChoiceBuilder {
    /// No options and no duplicates.
    fn default() -> (r: ChoiceBuilder)
        ensures
            r@.options == Map::<Seq<char>, Option<Seq<char>>>::empty(),
            r@.duplicates == Seq::<Seq<char>>::empty(),
    {
        let r = ChoiceBuilder { options: new_option_map(), duplicates: Vec::new() };
        assert(r@.duplicates =~= Seq::<Seq<char>>::empty());
        r
    }
}

impl ChoiceBuilder {
    fn insert(&mut self, name: String, description: Option<String>)
        ensures
            final(self)@ == choice_add(old(self)@, name@, opt_chars(description)),
    {
        let previous = insert_option(&mut self.options, name.clone(), description);
        if previous.is_some() {
            self.duplicates.push(name);
        }
        proof {
            assert(self@.duplicates =~= choice_add(old(self)@, name@, opt_chars(description)).duplicates);
        }
    }

    /// An option with a rubric description.
    pub fn option(self, name: &str, description: &str) -> (r: ChoiceBuilder)
        ensures
            r@ == choice_add(self@, name@, Some(description@)),
    {
        let mut b = self;
        b.insert(String::from_str(name), Some(String::from_str(description)));
        b
    }

    /// An option that needs no description.
    pub fn option_plain(self, name: &str) -> (r: ChoiceBuilder)
        ensures
            r@ == choice_add(self@, name@, None),
    {
        let mut b = self;
        b.insert(String::from_str(name), None);
        b
    }

    /// Many undescribed options at once, in order.
    pub fn options_plain(self, names: Vec<String>) -> (r: ChoiceBuilder)
        ensures
            r@ == choice_add_all(self@, names@.map_values(|s: String| (s@, None::<Seq<char>>))),
    {
        let ghost items = names@.map_values(|s: String| (s@, None::<Seq<char>>));
        let mut b = self;
        let mut i: usize = 0;
        assert(items.skip(0) =~= items);
        while i < names.len()
            invariant
                i <= names@.len(),
                items == names@.map_values(|s: String| (s@, None::<Seq<char>>)),
                choice_add_all(b@, items.skip(i as int)) == choice_add_all(self@, items),
            decreases names@.len() - i,
        {
            proof {
                assert(items.skip(i as int).drop_first() =~= items.skip(i + 1));
            }
            b.insert(names[i].clone(), None);
            i = i + 1;
        }
        proof {
            assert(items.skip(i as int) =~= Seq::<(Seq<char>, Option<Seq<char>>)>::empty());
        }
        b
    }

    /// Many described options at once, in order.
    pub fn options(self, pairs: Vec<(String, String)>) -> (r: ChoiceBuilder)
        ensures
            r@ == choice_add_all(self@, pairs@.map_values(|p: (String, String)| (p.0@, Some(p.1@)))),
    {
        let ghost items = pairs@.map_values(|p: (String, String)| (p.0@, Some(p.1@)));
        let mut b = self;
        let mut i: usize = 0;
        assert(items.skip(0) =~= items);
        while i < pairs.len()
            invariant
                i <= pairs@.len(),
                items == pairs@.map_values(|p: (String, String)| (p.0@, Some(p.1@))),
                choice_add_all(b@, items.skip(i as int)) == choice_add_all(self@, items),
            decreases pairs@.len() - i,
        {
            proof {
                assert(items.skip(i as int).drop_first() =~= items.skip(i + 1));
            }
            let name = pairs[i].0.clone();
            let description = pairs[i].1.clone();
            b.insert(name, Some(description));
            i = i + 1;
        }
        proof {
            assert(items.skip(i as int) =~= Seq::<(Seq<char>, Option<Seq<char>>)>::empty());
        }
        b
    }

    /// The abstain option (`none_of_the_above`). A Choice always picks something;
    /// this is how the model says nothing in the list fits.
    pub fn none_of_the_above(self, description: &str) -> (r: ChoiceBuilder)
        ensures
            r@ == choice_add(self@, NONE_OF_THE_ABOVE@, Some(description@)),
    {
        self.option(NONE_OF_THE_ABOVE, description)
    }
}

enum State {
    Empty,
    Whole(Value),
    Fields(JsonObject),
}

/// The request state as set so far: nothing, one whole value, or named fields of
/// an object.
pub ghost enum StateView {
    Empty,
    Whole(Value),
    Fields(Map<Seq<char>, Value>),
}

spec fn state_view(s: State) -> StateView {
    match s {
        State::Empty => StateView::Empty,
        State::Whole(v) => StateView::Whole(v),
        State::Fields(m) => StateView::Fields(object_entries(m)),
    }
}

/// A `POST /v1/systemone` call under construction. Created by [`Client::system_one`].
///
/// Set the state once with [`state`](Self::state) or build it field by field with
/// [`field`](Self::field), add questions, then [`prepare`](Self::prepare) it for
/// sending. Errors in the inputs surface from `prepare`, so the chain stays clean.
pub struct SystemOneRequest<'a> {
    client: &'a Client,
    model: Option<String>,
    state: State,
    questions: QuestionMap,
    error: Option<Error>,
}

/// What a request under construction holds.
pub ghost struct RequestView {
    pub client: Client,
    pub model: Option<Seq<char>>,
    pub state: StateView,
    pub questions: Map<Seq<char>, Question>,
    /// The first error met while building, if any.
    pub error: Option<Error>,
}

impl<'a> View for SystemOneRequest<'a> {
    type V = RequestView;

    closed spec fn view(&self) -> RequestView {
        RequestView {
            client: *self.client,
            model: opt_chars(self.model),
            state: state_view(self.state),
            questions: question_entries(self.questions),
            error: self.error,
        }
    }
}

/// The first error is kept: `e` is recorded only when nothing failed before.
pub open spec fn first_error(old: Option<Error>, e: Error) -> Option<Error> {
    match old {
        Some(_) => old,
        None => Some(e),
    }
}

/// `new` records an invalid-request error with `message`, unless `old` already
/// holds an error, which is kept.
pub open spec fn failed_with(old: Option<Error>, new: Option<Error>, message: Seq<char>) -> bool {
    match old {
        Some(_) => new == old,
        None => new matches Some(Error::InvalidRequest(m)) && m@ == message,
    }
}

/// Once a mistake is recorded it stays the request's error: a later mistake
/// never replaces it, so [`SystemOneRequest::prepare`] reports the first one.
pub proof fn law_first_error_kept(old: Option<Error>, new: Option<Error>, e: Error, message: Seq<char>)
    ensures
        first_error(old, e) is Some,
        old is Some ==> first_error(old, e) == old,
        old is Some && failed_with(old, new, message) ==> new == old,
        old is None && failed_with(old, new, message) ==> (new matches Some(Error::InvalidRequest(_))),
{
}

/// The message for a question id given twice.
pub open spec fn duplicate_id_message(id: Seq<char>) -> Seq<char> {
    "duplicate question id `"@ + id + "`"@
}

/// The message for a field added to a state that is not an object.
pub open spec fn not_object_message(name: Seq<char>) -> Seq<char> {
    "cannot add field `"@ + name + "`: state is not an object"@
}

/// The message for a Choice that names an option twice.
pub open spec fn repeated_option_message(id: Seq<char>, option: Seq<char>) -> Seq<char> {
    "choice `"@ + id + "` repeats option `"@ + option + "`"@
}

/// The message for a question the API would reject.
pub open spec fn question_problem_message(id: Seq<char>, problem: Seq<char>) -> Seq<char> {
    "question `"@ + id + "` "@ + problem
}

/// The message for a request without state.
pub open spec fn no_state_message() -> Seq<char> {
    "no state: call `.state(..)` or `.field(..)`"@
}

/// The message for a request without questions.
pub open spec fn no_questions_message() -> Seq<char> {
    "no questions"@
}

/// `new` is `old` with question `q` put under `id`; a repeated id is recorded as an error.
pub open spec fn question_added(old: RequestView, new: RequestView, id: Seq<char>, q: Question) -> bool {
    &&& new.client == old.client
    &&& new.model == old.model
    &&& new.state == old.state
    &&& new.questions == old.questions.insert(id, q)
    &&& if old.questions.contains_key(id) {
        failed_with(old.error, new.error, duplicate_id_message(id))
    } else {
        new.error == old.error
    }
}

/// The state after adding field `name` with `value`, or `None` when the state is a
/// whole value that is not an object.
pub open spec fn with_field(s: StateView, name: Seq<char>, value: Value) -> Option<StateView> {
    match s {
        StateView::Empty => Some(StateView::Fields(Map::empty().insert(name, value))),
        StateView::Fields(m) => Some(StateView::Fields(m.insert(name, value))),
        StateView::Whole(v) => if json_is_object(v) {
            Some(StateView::Fields(json_object_entries(v).insert(name, value)))
        } else {
            None
        },
    }
}

/// Whether question `id` of `qs` is one the API would reject.
pub open spec fn has_problem(qs: Map<Seq<char>, Question>, id: Seq<char>) -> bool {
    qs.contains_key(id) && problem(qs[id]) is Some
}

/// Whether `q` is a Choice with these instructions and options.
pub open spec fn is_choice_with(q: Question, instructions: Value, options: Map<Seq<char>, Option<Seq<char>>>) -> bool {
    match q {
        Question::Choice { instructions: i, criteria } => i == instructions && option_entries(criteria) == options,
        _ => false,
    }
}

/// The empty option set.
pub open spec fn empty_choice_set() -> ChoiceSet {
    ChoiceSet { options: Map::empty(), duplicates: Seq::empty() }
}

/// Whether a request is ready to send: nothing failed while building, a state
/// is set, questions were added, and none of them is one the API would reject.
pub open spec fn ready(v: RequestView) -> bool {
    &&& v.error is None
    &&& v.state != StateView::Empty
    &&& !v.questions.dom().is_empty()
    &&& forall|k: Seq<char>| !has_problem(v.questions, k)
}

/// Whether a request is refused as invalid before anything is sent: a mistake
/// recorded while building (a repeated question id, a repeated option, a field on
/// a state that is no object), or, when nothing was recorded, no state, no
/// questions, or a question the API would reject.
pub open spec fn refused(v: RequestView) -> bool {
    match v.error {
        Some(e) => e is InvalidRequest,
        None => v.state == StateView::Empty || v.questions.dom().is_empty() || exists|k: Seq<char>|
            has_problem(v.questions, k),
    }
}

/// One call of the request builder, by what it hands in.
pub ghost enum Step {
    /// [`SystemOneRequest::model`].
    Model(Seq<char>),
    /// [`SystemOneRequest::state`] with a serialised value.
    State(Value),
    /// [`SystemOneRequest::field`] with a name and a serialised value.
    Field(Seq<char>, Value),
    /// [`SystemOneRequest::state`] or [`SystemOneRequest::field`] with a value that
    /// failed to serialise.
    Unserialisable(JsonError),
    /// [`SystemOneRequest::question`] and the calls built on it: a question under an id.
    AddQuestion(Seq<char>, Question),
    /// [`SystemOneRequest::choice`]: the id, the instructions, the option set the
    /// closure built, and the question made of them.
    AddChoice(Seq<char>, Value, ChoiceSet, Question),
}

/// Whether `new` is what builder call `step` makes of `old`.
pub open spec fn step_made(old: RequestView, step: Step, new: RequestView) -> bool {
    match step {
        Step::Model(m) => new == RequestView { model: Some(m), ..old },
        Step::State(v) => new == RequestView { state: StateView::Whole(v), ..old },
        Step::Unserialisable(e) => new == RequestView {
            error: first_error(old.error, Error::RequestSerialization(e)),
            ..old
        },
        Step::Field(name, v) => {
            &&& new.client == old.client
            &&& new.model == old.model
            &&& new.questions == old.questions
            &&& match with_field(old.state, name, v) {
                Some(st) => new.state == st && new.error == old.error,
                None => new.state == old.state && failed_with(old.error, new.error, not_object_message(name)),
            }
        },
        Step::AddQuestion(id, q) => question_added(old, new, id, q),
        Step::AddChoice(id, instructions, c, q) => if c.duplicates.len() > 0 {
            &&& new.client == old.client
            &&& new.model == old.model
            &&& new.state == old.state
            &&& new.questions == old.questions
            &&& failed_with(old.error, new.error, repeated_option_message(id, c.duplicates[0]))
        } else {
            question_added(old, new, id, q) && is_choice_with(q, instructions, c.options)
        },
    }
}

/// Whether builder call `step` on `v` is a mistake the request records: a field
/// on a state that is no object, a question id given before, or a Choice that
/// repeats an option.
pub open spec fn mistake(v: RequestView, step: Step) -> bool {
    match step {
        Step::Field(name, value) => with_field(v.state, name, value) is None,
        Step::AddQuestion(id, _) => v.questions.contains_key(id),
        Step::AddChoice(id, _, c, _) => c.duplicates.len() > 0 || v.questions.contains_key(id),
        _ => false,
    }
}

/// Whether builder call `step` sets the state (whole, or by a field).
pub open spec fn sets_state(step: Step) -> bool {
    step is State || step is Field
}

/// The question builder call `step` adds, with its id, if any.
pub open spec fn added(step: Step) -> Option<(Seq<char>, Question)> {
    match step {
        Step::AddQuestion(id, q) => Some((id, q)),
        Step::AddChoice(id, _, c, q) => if c.duplicates.len() == 0 {
            Some((id, q))
        } else {
            None
        },
        _ => None,
    }
}

/// The id of the question builder call `step` adds.
pub open spec fn added_id(step: Step) -> Seq<char> {
    added(step).unwrap().0
}

/// The question builder call `step` adds.
pub open spec fn added_question(step: Step) -> Question {
    added(step).unwrap().1
}

/// Whether builder call `step` adds a question the API would reject.
pub open spec fn adds_problem(step: Step) -> bool {
    match added(step) {
        Some(p) => problem(p.1) is Some,
        None => false,
    }
}

/// Whether `views` are the requests a chain of builder calls `steps` passes
/// through: each made of the one before by the call between them.
pub open spec fn chain(views: Seq<RequestView>, steps: Seq<Step>) -> bool {
    &&& views.len() == steps.len() + 1
    &&& forall|i: int| 0 <= i < steps.len() ==> step_made(views[i], #[trigger] steps[i], views[i + 1])
}

/// A request as [`SystemOneRequest::new`] makes it: no error, no state, no questions.
pub open spec fn fresh(v: RequestView) -> bool {
    &&& v.error is None
    &&& v.state == StateView::Empty
    &&& v.questions == Map::<Seq<char>, Question>::empty()
}

proof fn lemma_chain_prefix(views: Seq<RequestView>, steps: Seq<Step>, j: int)
    requires
        chain(views, steps),
        fresh(views[0]),
        forall|i: int| 0 <= i < steps.len() ==> !(#[trigger] steps[i] is Unserialisable),
        0 <= j <= steps.len(),
    ensures
        views[j].error is None <==> forall|i: int| 0 <= i < j ==> !#[trigger] mistake(views[i], steps[i]),
        views[j].error matches Some(e) ==> e is InvalidRequest,
        views[j].state == StateView::Empty <==> forall|i: int| 0 <= i < j ==> !#[trigger] sets_state(steps[i]),
        forall|i: int| 0 <= i < j && #[trigger] added(steps[i]) is Some ==> views[j].questions.contains_key(
            added_id(steps[i]),
        ),
        forall|k: Seq<char>| #[trigger] views[j].questions.contains_key(k) ==> exists|i: int|
            0 <= i < j && #[trigger] added(steps[i]) == Some((k, views[j].questions[k])),
        views[j].error is None ==> forall|i: int| 0 <= i < j && #[trigger] added(steps[i]) is Some
            ==> views[j].questions[added_id(steps[i])] == added_question(steps[i]),
    decreases j,
{
    if j > 0 {
        let i0 = j - 1;
        lemma_chain_prefix(views, steps, i0);
        let old = views[i0];
        let new = views[j];
        let st = steps[i0];
        assert(step_made(old, st, new));
        assert(!(st is Unserialisable));
        // what the step did to the error
        assert(new.error is None <==> (old.error is None && !mistake(old, st)));
        assert(new.error matches Some(e) ==> e is InvalidRequest);
        // the state
        assert(new.state == StateView::Empty <==> (old.state == StateView::Empty && !sets_state(st)));
        // the questions
        assert(new.questions == match added(st) {
            Some(p) => old.questions.insert(p.0, p.1),
            None => old.questions,
        });
        assert(new.error is None <==> forall|i: int| 0 <= i < j ==> !#[trigger] mistake(views[i], steps[i])) by {
            if new.error is None {
                assert forall|i: int| 0 <= i < j implies !#[trigger] mistake(views[i], steps[i]) by {
                    if i < i0 {
                        assert(!mistake(views[i], steps[i]));
                    }
                }
            }
            if forall|i: int| 0 <= i < j ==> !#[trigger] mistake(views[i], steps[i]) {
                assert(!mistake(views[i0], steps[i0]));
                assert forall|i: int| 0 <= i < i0 implies !#[trigger] mistake(views[i], steps[i]) by {
                    assert(!mistake(views[i], steps[i]));
                }
            }
        }
        assert(new.state == StateView::Empty <==> forall|i: int| 0 <= i < j ==> !#[trigger] sets_state(steps[i])) by {
            if forall|i: int| 0 <= i < j ==> !#[trigger] sets_state(steps[i]) {
                assert(!sets_state(steps[i0]));
                assert forall|i: int| 0 <= i < i0 implies !#[trigger] sets_state(steps[i]) by {
                    assert(!sets_state(steps[i]));
                }
            }
        }
        assert forall|i: int| 0 <= i < j && #[trigger] added(steps[i]) is Some implies new.questions.contains_key(
            added_id(steps[i]),
        ) by {
            if i < i0 {
                assert(old.questions.contains_key(added_id(steps[i])));
            }
        }
        assert forall|k: Seq<char>| #[trigger] new.questions.contains_key(k) implies exists|i: int|
            0 <= i < j && #[trigger] added(steps[i]) == Some((k, new.questions[k])) by {
            if added(st) is Some && added_id(st) == k {
                assert(added(steps[i0]) == Some((k, new.questions[k])));
            } else {
                assert(old.questions.contains_key(k));
                assert(new.questions[k] == old.questions[k]);
                let i = choose|i: int| 0 <= i < i0 && #[trigger] added(steps[i]) == Some((k, old.questions[k]));
                assert(added(steps[i]) == Some((k, new.questions[k])));
            }
        }
        if new.error is None {
            assert forall|i: int| 0 <= i < j && #[trigger] added(steps[i]) is Some implies new.questions[added_id(steps[i])] == added_question(steps[i]) by {
                if i < i0 {
                    let k = added_id(steps[i]);
                    assert(old.questions.contains_key(k));
                    assert(old.questions[k] == added_question(steps[i]));
                    if added(st) is Some {
                        assert(!old.questions.contains_key(added_id(st)));
                        assert(k != added_id(st));
                    }
                }
            }
        }
    }
}

/// A request built by any chain of builder calls, none of whose values failed to
/// serialise, is refused as invalid exactly when some call was a mistake (a field
/// on a state that is no object, a repeated question id, a repeated option), or no
/// call set a state, or none added a question, or one added a question the API
/// would reject.
pub proof fn law_refused_iff_mistake(views: Seq<RequestView>, steps: Seq<Step>)
    requires
        chain(views, steps),
        fresh(views[0]),
        forall|i: int| 0 <= i < steps.len() ==> !(#[trigger] steps[i] is Unserialisable),
    ensures
        refused(views.last()) <==> {
            ||| exists|i: int| 0 <= i < steps.len() && #[trigger] mistake(views[i], steps[i])
            ||| forall|i: int| 0 <= i < steps.len() ==> !#[trigger] sets_state(steps[i])
            ||| forall|i: int| 0 <= i < steps.len() ==> #[trigger] added(steps[i]) is None
            ||| exists|i: int| 0 <= i < steps.len() && #[trigger] adds_problem(steps[i])
        },
{
    let n = steps.len() as int;
    lemma_chain_prefix(views, steps, n);
    let last = views[n];
    assert(views.last() == last);
    let any_mistake = exists|i: int| 0 <= i < n && #[trigger] mistake(views[i], steps[i]);
    let no_state = forall|i: int| 0 <= i < n ==> !#[trigger] sets_state(steps[i]);
    let none_added = forall|i: int| 0 <= i < n ==> #[trigger] added(steps[i]) is None;
    let some_problem = exists|i: int| 0 <= i < n && #[trigger] adds_problem(steps[i]);
    assert(last.questions.dom().is_empty() <==> none_added) by {
        if none_added && !last.questions.dom().is_empty() {
            let k = last.questions.dom().choose();
            assert(last.questions.contains_key(k));
            let i = choose|i: int| 0 <= i < n && #[trigger] added(steps[i]) == Some((k, last.questions[k]));
            assert(added(steps[i]) is None);
        }
        if !none_added {
            let i = choose|i: int| 0 <= i < n && !(#[trigger] added(steps[i]) is None);
            assert(last.questions.contains_key(added_id(steps[i])));
        }
    }
    if last.error is None {
        assert((exists|k: Seq<char>| has_problem(last.questions, k)) <==> some_problem) by {
            if exists|k: Seq<char>| has_problem(last.questions, k) {
                let k = choose|k: Seq<char>| has_problem(last.questions, k);
                assert(last.questions.contains_key(k));
                let i = choose|i: int| 0 <= i < n && #[trigger] added(steps[i]) == Some((k, last.questions[k]));
                assert(adds_problem(steps[i]));
            }
            if some_problem {
                let i = choose|i: int| 0 <= i < n && #[trigger] adds_problem(steps[i]);
                assert(added(steps[i]) is Some);
                let k = added_id(steps[i]);
                assert(last.questions.contains_key(k));
                assert(has_problem(last.questions, k));
            }
        }
    }
}

/// A request that passed every check and is ready to send.
pub struct Prepared<'a> {
    /// The client to send it with.
    pub client: &'a Client,
    /// The model for this call: the request's own, else the client's default.
    pub model: String,
    /// The state.
    pub state: Value,
    /// The questions, by id.
    pub questions: QuestionMap,
}

/// Whether `v` is the JSON object of the questions: each under its id, in the
/// form the API expects.
pub open spec fn encodes_questions(v: Value, qs: Map<Seq<char>, Question>) -> bool {
    let e = json_object_entries(v);
    &&& json_is_object(v)
    &&& forall|k: Seq<char>| #[trigger] e.contains_key(k) <==> qs.contains_key(k)
    &&& forall|k: Seq<char>| #[trigger] qs.contains_key(k) ==> question_json(qs[k], e[k])
}

/// Whether `v` is the body of a `POST /v1/systemone` call: the state, the model
/// and the questions.
pub open spec fn request_body(state: Value, model: Seq<char>, qs: Map<Seq<char>, Question>, v: Value) -> bool {
    let e = json_object_entries(v);
    &&& json_is_object(v)
    &&& forall|k: Seq<char>| #[trigger] e.contains_key(k) <==> (k == "state"@ || k == "model"@ || k == "questions"@)
    &&& e["state"@] == state
    &&& json_string(e["model"@]) == Some(model)
    &&& encodes_questions(e["questions"@], qs)
}

/// The JSON object of the questions, each under its id.
pub open spec fn questions_value(qs: Map<Seq<char>, Question>) -> Value {
    json_of_object(qs.map_values(|q: Question| question_value(q)))
}

/// The JSON body of a `POST /v1/systemone` call: `state`, `model` and `questions`.
pub open spec fn body_value(state: Value, model: Seq<char>, qs: Map<Seq<char>, Question>) -> Value {
    json_of_object(
        Map::empty().insert("state"@, state).insert("model"@, json_of_string(model)).insert(
            "questions"@,
            questions_value(qs),
        ),
    )
}

fn questions_json(questions: &QuestionMap) -> (r: Value)
    ensures
        encodes_questions(r, question_entries(*questions)),
        r == questions_value(question_entries(*questions)),
{
    let list = questions_in_order(questions);
    let mut m = new_object();
    let mut i: usize = 0;
    #[verifier::loop_isolation(false)]
    while i < list.len()
        invariant
            i <= list@.len(),
            forall|k: Seq<char>| #[trigger] object_entries(m).contains_key(k) <==> exists|j: int| 0 <= j < i && list@[j].0@ == k,
            forall|j: int| 0 <= j < i ==> question_json(*list@[j].1, object_entries(m)[#[trigger] list@[j].0@]),
            forall|j: int| 0 <= j < i ==> object_entries(m)[#[trigger] list@[j].0@] == question_value(*list@[j].1),
        decreases list@.len() - i,
    {
        let (id, q) = list[i];
        let v = q.to_json();
        let ghost before = object_entries(m);
        object_insert(&mut m, id.clone(), v);
        proof {
            assert forall|j: int| 0 <= j < i + 1 implies question_json(*list@[j].1, object_entries(m)[#[trigger] list@[j].0@]) by {
                if j < i {
                    lemma_key_before_distinct(list@[j].0@, list@[i as int].0@);
                }
            }
            assert forall|j: int| 0 <= j < i + 1 implies object_entries(m)[#[trigger] list@[j].0@] == question_value(*list@[j].1) by {
                if j < i {
                    lemma_key_before_distinct(list@[j].0@, list@[i as int].0@);
                }
            }
            assert forall|k: Seq<char>| #[trigger] object_entries(m).contains_key(k) <==> exists|j: int| 0 <= j < i + 1 && list@[j].0@ == k by {
                if before.contains_key(k) {
                    let j = choose|j: int| 0 <= j < i && list@[j].0@ == k;
                    assert(0 <= j < i + 1 && list@[j].0@ == k);
                }
                if k == list@[i as int].0@ {
                    assert(0 <= i < i + 1 && list@[i as int].0@ == k);
                }
            }
        }
        i = i + 1;
    }
    let r = object_value(m);
    proof {
        assert forall|k: Seq<char>| #[trigger] question_entries(*questions).contains_key(k) implies question_json(question_entries(*questions)[k], json_object_entries(r)[k]) by {
            let j = choose|j: int| 0 <= j < list@.len() && list@[j].0@ == k;
            assert(question_json(*list@[j].1, object_entries(m)[list@[j].0@]));
        }
        assert forall|k: Seq<char>| #[trigger] json_object_entries(r).contains_key(k) <==> question_entries(*questions).contains_key(k) by {
            if question_entries(*questions).contains_key(k) {
                let j = choose|j: int| 0 <= j < list@.len() && list@[j].0@ == k;
                assert(object_entries(m).contains_key(list@[j].0@));
            }
            if object_entries(m).contains_key(k) {
                let j = choose|j: int| 0 <= j < list@.len() && list@[j].0@ == k;
                assert(question_entries(*questions).contains_key(list@[j].0@));
            }
        }
        let want = question_entries(*questions).map_values(|q: Question| question_value(q));
        assert forall|k: Seq<char>| #[trigger] object_entries(m).contains_key(k) implies object_entries(m)[k] == want[k] by {
            let j = choose|j: int| 0 <= j < list@.len() && list@[j].0@ == k;
            assert(object_entries(m)[list@[j].0@] == question_value(*list@[j].1));
        }
        assert(object_entries(m) =~= want);
    }
    r
}

/// The question map that putting `items` in order gives: a later question under
/// an id replaces an earlier one.
pub open spec fn questions_from(items: Seq<(Seq<char>, Question)>) -> Map<Seq<char>, Question>
    decreases items.len(),
{
    if items.len() == 0 {
        Map::empty()
    } else {
        questions_from(items.drop_last()).insert(items.last().0, items.last().1)
    }
}

/// The value a request's state is sent as: the whole value, or the object of
/// its fields.
pub open spec fn state_value(s: StateView) -> Value {
    match s {
        StateView::Whole(v) => v,
        StateView::Fields(m) => json_of_object(m),
        StateView::Empty => json_of_object(Map::empty()),
    }
}

/// The model a request is sent with: its own, else the client's default.
pub open spec fn request_model(v: RequestView) -> Seq<char> {
    match v.model {
        Some(m) => m,
        None => v.client@.model,
    }
}

/// Whether `p` is the call that request `v` makes: its client, model, state and
/// questions.
pub open spec fn prepared_from(v: RequestView, p: Prepared) -> bool {
    &&& *p.client == v.client
    &&& p.model@ == request_model(v)
    &&& p.state == state_value(v.state)
    &&& question_entries(p.questions) == v.questions
}

/// Whether `d` is the direct call of `client` with `model`, `state` and the
/// questions `items` in order (a later one under an id replaces an earlier one).
pub open spec fn direct_call(
    d: Prepared,
    client: Client,
    model: Seq<char>,
    state: Value,
    items: Seq<(Seq<char>, Question)>,
) -> bool {
    &&& *d.client == client
    &&& d.model@ == model
    &&& d.state == state
    &&& question_entries(d.questions) == questions_from(items)
}

/// Sending a ready request is the direct call with the request's client, model,
/// state and questions: both make the same call, so the same body goes out.
pub proof fn law_send_is_direct_call(
    v: RequestView,
    p: Prepared,
    d: Prepared,
    items: Seq<(Seq<char>, Question)>,
)
    requires
        ready(v),
        prepared_from(v, p),
        direct_call(d, v.client, request_model(v), state_value(v.state), items),
        questions_from(items) == v.questions,
    ensures
        *p.client == *d.client,
        p.model@ == d.model@,
        p.state == d.state,
        question_entries(p.questions) == question_entries(d.questions),
        body_value(p.state, p.model@, question_entries(p.questions)) == body_value(
            d.state,
            d.model@,
            question_entries(d.questions),
        ),
{
}

impl<'a> Prepared<'a> {
    /// A call of `client` with `model`, `state` and `questions` as given, unchecked;
    /// a later question under an id replaces an earlier one.
    pub fn from_parts(client: &'a Client, model: &str, state: Value, questions: Vec<(String, Question)>) -> (r: Prepared<'a>)
        ensures
            r.client == client,
            r.model@ == model@,
            r.state == state,
            question_entries(r.questions) == questions_from(questions@.map_values(|p: (String, Question)| (p.0@, p.1))),
            direct_call(r, *client, model@, state, questions@.map_values(|p: (String, Question)| (p.0@, p.1))),
    {
        let ghost items = questions@.map_values(|p: (String, Question)| (p.0@, p.1));
        let mut map = new_question_map();
        for pair in it: questions
            invariant
                items == it.seq().map_values(|p: (String, Question)| (p.0@, p.1)),
                question_entries(map) == questions_from(items.take(it.index() as int)),
        {
            let (id, q) = pair;
            proof {
                assert(items.take(it.index() + 1).drop_last() =~= items.take(it.index() as int));
            }
            let _previous = insert_question(&mut map, id, q);
        }
        proof {
            assert(items.take(items.len() as int) =~= items);
        }
        Prepared { client, model: String::from_str(model), state, questions: map }
    }

    /// The JSON text of the call's body, as it is sent.
    pub fn body_text(&self) -> (r: String)
        ensures
            r@ == json_text(body_value(self.state, self.model@, question_entries(self.questions))),
    {
        let b = self.body();
        to_json_text(&b)
    }

    /// The JSON body of the call: `state`, `model` and `questions`.
    pub fn body(&self) -> (r: Value)
        ensures
            request_body(self.state, self.model@, question_entries(self.questions), r),
            r == body_value(self.state, self.model@, question_entries(self.questions)),
    {
        proof {
            reveal_strlit("state");
            reveal_strlit("model");
            reveal_strlit("questions");
            assert("state"@.len() == 5 && "model"@.len() == 5 && "questions"@.len() == 9);
            assert("state"@ != "model"@) by {
                assert("state"@[0] != "model"@[0]);
            }
        }
        let mut m = new_object();
        object_insert(&mut m, String::from_str("state"), self.state.clone());
        object_insert(&mut m, String::from_str("model"), string_value(self.model.clone()));
        object_insert(&mut m, String::from_str("questions"), questions_json(&self.questions));
        object_value(m)
    }
}

impl<'a> SystemOneRequest<'a> {
    /// An empty request for `client`.
    pub fn new(client: &'a Client) -> (r: SystemOneRequest<'a>)
        ensures
            r@.client == *client,
            r@.model is None,
            r@.state == StateView::Empty,
            r@.questions == Map::<Seq<char>, Question>::empty(),
            r@.error is None,
            fresh(r@),
    {
        SystemOneRequest { client, model: None, state: State::Empty, questions: new_question_map(), error: None }
    }

    fn fail(&mut self, e: Error)
        ensures
            final(self)@ == (RequestView { error: first_error(old(self)@.error, e), ..old(self)@ }),
    {
        if self.error.is_none() {
            self.error = Some(e);
        }
    }

    /// Model for this call only. Defaults to the client's model.
    pub fn model(self, model: &str) -> (r: SystemOneRequest<'a>)
        ensures
            r@ == (RequestView { model: Some(model@), ..self@ }),
            step_made(self@, Step::Model(model@), r@),
    {
        SystemOneRequest { model: Some(String::from_str(model)), ..self }
    }

    /// The whole state, as serialised: a failed serialisation is recorded as the
    /// request's error. Replaces anything set before.
    pub fn state(self, state: Result<Value, JsonError>) -> (r: SystemOneRequest<'a>)
        ensures
            match state {
                Ok(v) => r@ == (RequestView { state: StateView::Whole(v), ..self@ }),
                Err(e) => r@ == (RequestView {
                    error: first_error(self@.error, Error::RequestSerialization(e)),
                    ..self@
                }),
            },
            match state {
                Ok(v) => step_made(self@, Step::State(v), r@),
                Err(e) => step_made(self@, Step::Unserialisable(e), r@),
            },
    {
        let mut req = self;
        match state {
            Ok(v) => {
                req.state = State::Whole(v);
            },
            Err(e) => {
                req.fail(Error::RequestSerialization(e));
            },
        }
        req
    }

    /// One named field of an object state, as serialised. A failed serialisation, or
    /// a state already set to something that is not an object, is recorded as the
    /// request's error and leaves the state as it was.
    pub fn field(self, name: &str, value: Result<Value, JsonError>) -> (r: SystemOneRequest<'a>)
        ensures
            r@.client == self@.client,
            r@.model == self@.model,
            r@.questions == self@.questions,
            match value {
                Err(e) => r@.state == self@.state
                    && r@.error == first_error(self@.error, Error::RequestSerialization(e)),
                Ok(v) => match with_field(self@.state, name@, v) {
                    Some(s) => r@.state == s && r@.error == self@.error,
                    None => r@.state == self@.state
                        && failed_with(self@.error, r@.error, not_object_message(name@)),
                },
            },
            match value {
                Ok(v) => step_made(self@, Step::Field(name@, v), r@),
                Err(e) => step_made(self@, Step::Unserialisable(e), r@),
            },
    {
        let mut req = self;
        let v = match value {
            Ok(v) => v,
            Err(e) => {
                req.fail(Error::RequestSerialization(e));
                return req;
            },
        };
        let key = String::from_str(name);
        let mut old_state = State::Empty;
        std::mem::swap(&mut old_state, &mut req.state);
        match old_state {
            State::Empty => {
                let mut m = new_object();
                object_insert(&mut m, key, v);
                proof {
                    assert(object_entries(m) =~= Map::<Seq<char>, Value>::empty().insert(name@, v));
                }
                req.state = State::Fields(m);
            },
            State::Fields(m) => {
                let mut m = m;
                object_insert(&mut m, key, v);
                req.state = State::Fields(m);
            },
            State::Whole(w) => {
                match into_object(w) {
                    Ok(m) => {
                        let mut m = m;
                        object_insert(&mut m, key, v);
                        req.state = State::Fields(m);
                    },
                    Err(w) => {
                        req.state = State::Whole(w);
                        req.fail(Error::InvalidRequest(concat3("cannot add field `", name, "`: state is not an object")));
                    },
                }
            },
        }
        req
    }

    /// Any question under `id`. Answers come back under the same id. An id given
    /// before is recorded as the request's error (the later question is kept).
    pub fn question(self, id: &str, question: Question) -> (r: SystemOneRequest<'a>)
        ensures
            question_added(self@, r@, id@, question),
            step_made(self@, Step::AddQuestion(id@, question), r@),
    {
        let mut req = self;
        let previous = insert_question(&mut req.questions, String::from_str(id), question);
        if previous.is_some() {
            req.fail(Error::InvalidRequest(concat3("duplicate question id `", id, "`")));
        }
        req
    }

    /// Yes/no question.
    pub fn noul(self, id: &str, instructions: Value) -> (r: SystemOneRequest<'a>)
        ensures
            question_added(self@, r@, id@, Question::Noul { instructions, criteria: None }),
            step_made(self@, Step::AddQuestion(id@, Question::Noul { instructions, criteria: None }), r@),
    {
        let q = Question::noul(instructions);
        self.question(id, q)
    }

    /// Yes/no question with descriptions of what yes and no mean.
    pub fn noul_with_criteria(self, id: &str, instructions: Value, yes: &str, no: &str) -> (r: SystemOneRequest<'a>)
        ensures
            r@.questions.contains_key(id@),
            question_added(self@, r@, id@, r@.questions[id@]),
            step_made(self@, Step::AddQuestion(id@, r@.questions[id@]), r@),
            match r@.questions[id@] {
                Question::Noul { instructions: i, criteria: Some(c) } => i == instructions
                    && opt_chars(c.yes) == Some(yes@) && opt_chars(c.no) == Some(no@),
                _ => false,
            },
    {
        let q = Question::noul_with_criteria(instructions, yes, no);
        self.question(id, q)
    }

    /// Rate along `levels`, lowest first. Fewer than two levels is an error at
    /// [`prepare`](Self::prepare).
    pub fn score(self, id: &str, instructions: Value, levels: Vec<String>) -> (r: SystemOneRequest<'a>)
        ensures
            question_added(self@, r@, id@, Question::Score { instructions, criteria: levels }),
            step_made(self@, Step::AddQuestion(id@, Question::Score { instructions, criteria: levels }), r@),
    {
        let q = Question::score(instructions, levels);
        self.question(id, q)
    }

    /// Pick one option; build the option set in the closure. Repeating an option name
    /// is recorded as the request's error (and the question is not added), as is an
    /// empty set or more than `MAX_CHOICE_OPTIONS` options at [`prepare`](Self::prepare).
    pub fn choice<F: FnOnce(ChoiceBuilder) -> ChoiceBuilder>(self, id: &str, instructions: Value, options: F) -> (r: SystemOneRequest<'a>)
        requires
            forall|b: ChoiceBuilder| options.requires((b,)),
        ensures
            exists|b0: ChoiceBuilder, b1: ChoiceBuilder| #[trigger] options.ensures((b0,), b1) && b0@ == empty_choice_set()
                && step_made(self@, Step::AddChoice(id@, instructions, b1@, r@.questions[id@]), r@)
                && if b1@.duplicates.len() > 0 {
                    &&& r@.client == self@.client
                    &&& r@.model == self@.model
                    &&& r@.state == self@.state
                    &&& r@.questions == self@.questions
                    &&& failed_with(self@.error, r@.error, repeated_option_message(id@, b1@.duplicates[0]))
                } else {
                    &&& r@.questions.contains_key(id@)
                    &&& question_added(self@, r@, id@, r@.questions[id@])
                    &&& is_choice_with(r@.questions[id@], instructions, b1@.options)
                },
    {
        let start = ChoiceBuilder::default();
        assert(start@ == empty_choice_set());
        let built = options(start);
        let mut req = self;
        if built.duplicates.len() > 0 {
            let mut text = String::from_str("choice `");
            text.append(id);
            text.append("` repeats option `");
            text.append(built.duplicates[0].as_str());
            text.append("`");
            req.fail(Error::InvalidRequest(text));
            return req;
        }
        let q = Question::Choice { instructions, criteria: built.options };
        req.question(id, q)
    }

    /// Check the request and hand out what is sent.
    ///
    /// Fails with the first error met while building, if any; else with
    /// [`Error::InvalidRequest`] for a request without state, without questions, or
    /// with a question the API would reject (the first such by id).
    pub fn prepare(self) -> (r: Result<Prepared<'a>, Error>)
        ensures
            self@.error matches Some(e) ==> r == Err::<Prepared<'a>, Error>(e),
            self@.error is None && self@.state == StateView::Empty ==> (r matches Err(Error::InvalidRequest(m))
                && m@ == no_state_message()),
            self@.error is None && self@.state != StateView::Empty && self@.questions.dom().is_empty() ==> (
            r matches Err(Error::InvalidRequest(m)) && m@ == no_questions_message()),
            self@.error is None && self@.state != StateView::Empty && !self@.questions.dom().is_empty() && (exists|k: Seq<char>| has_problem(self@.questions, k)) ==> (
            r matches Err(Error::InvalidRequest(m)) && exists|k: Seq<char>| #[trigger] has_problem(self@.questions, k)
                && m@ == question_problem_message(k, problem(self@.questions[k])->0)
                && forall|k2: Seq<char>| #[trigger] has_problem(self@.questions, k2) ==> k2 == k || key_before(k, k2)),
            self@.error is None && self@.state != StateView::Empty && !self@.questions.dom().is_empty() && (forall|k: Seq<char>| !has_problem(self@.questions, k)) ==> r is Ok,
            r is Ok <==> ready(self@),
            (r matches Err(Error::InvalidRequest(_))) <==> refused(self@),
            r matches Ok(p) ==> prepared_from(self@, p),
            r matches Ok(p) ==> {
                &&& *p.client == self@.client
                &&& p.model@ == match self@.model {
                    Some(m) => m,
                    None => self@.client@.model,
                }
                &&& match self@.state {
                    StateView::Whole(v) => p.state == v,
                    StateView::Fields(m) => json_is_object(p.state) && json_object_entries(p.state) == m,
                    StateView::Empty => false,
                }
                &&& question_entries(p.questions) == self@.questions
            },
    {
        let ghost view = self@;
        let SystemOneRequest { client, model, state, questions, error } = self;
        if let Some(e) = error {
            return Err(e);
        }
        let state = match state {
            State::Empty => {
                return Err(Error::InvalidRequest(String::from_str("no state: call `.state(..)` or `.field(..)`")));
            },
            State::Whole(v) => v,
            State::Fields(m) => object_value(m),
        };
        if no_question_held(&questions) {
            return Err(Error::InvalidRequest(String::from_str("no questions")));
        }
        let list = questions_in_order(&questions);
        let mut i: usize = 0;
        #[verifier::loop_isolation(false)]
        while i < list.len()
            invariant
                i <= list@.len(),
                forall|j: int| 0 <= j < i ==> problem(*#[trigger] list@[j].1) is None,
            decreases list@.len() - i,
        {
            let (id, q) = list[i];
            match q.structural_problem() {
                Some(p) => {
                    let mut text = String::from_str("question `");
                    text.append(id.as_str());
                    text.append("` ");
                    text.append(p.as_str());
                    proof {
                        let k = list@[i as int].0@;
                        assert(*q == *list@[i as int].1);
                        assert(problem(*q) == Some(p@));
                        assert(question_entries(questions).contains_key(k));
                        assert(has_problem(view.questions, k));
                        assert forall|k2: Seq<char>| #[trigger] has_problem(view.questions, k2) implies k2 == k || key_before(k, k2) by {
                            let j = choose|j: int| 0 <= j < list@.len() && list@[j].0@ == k2;
                            assert(question_entries(questions).contains_key(list@[j].0@));
                            if j < i {
                                assert(problem(*list@[j].1) is None);
                            }
                            if j > i {
                                assert(key_before(list@[i as int].0@, list@[j].0@));
                            }
                        }
                    }
                    return Err(Error::InvalidRequest(text));
                },
                None => {},
            }
            i = i + 1;
        }
        proof {
            assert forall|k: Seq<char>| !has_problem(view.questions, k) by {
                if view.questions.contains_key(k) {
                    let j = choose|j: int| 0 <= j < list@.len() && list@[j].0@ == k;
                    assert(question_entries(questions).contains_key(list@[j].0@));
                    assert(problem(*list@[j].1) is None);
                }
            }
        }
        let model = match model {
            Some(m) => m,
            None => String::from_str(client.default_model()),
        };
        Ok(Prepared { client, model, state, questions })
    }
}

} // verus!
