//! Typed questions and the checks that the API applies to them.

use serde_json::Value;

use vstd::prelude::*;
use vstd::string::*;

use crate::json::{
    array_value, json_array, json_is_null, json_is_object, json_object_entries, json_of_array, json_of_object,
    json_of_string, json_string, new_object, null_json, null_value, object_entries, object_insert, object_value,
    string_value,
};
use crate::maps::{
    insert_option, lemma_key_before_distinct, new_option_map, opt_chars, option_count, option_entries,
    options_in_order, OptionMap,
};
use crate::request::{choice_add_all, ChoiceSet};
use crate::text::{decimal, decimal_string};

verus! {

/// Conventional name of the abstain option in a Choice. The model always picks some
/// option, so give it one that means "nothing here fits".
pub const NONE_OF_THE_ABOVE: &'static str = "none_of_the_above";

/// Options one Choice may carry, per the API, counting the abstain option.
pub const MAX_CHOICE_OPTIONS: usize = 255;

/// Optional descriptions of what a "yes" and a "no" mean for a Noul question.
#[derive(Clone, Debug, Default, PartialEq, Eq)]
pub struct NoulCriteria {
    /// What a yes (value near 1) means.
    pub yes: Option<String>,
    /// What a no (value near 0) means.
    pub no: Option<String>,
}

/// A typed question evaluated against the request `state`.
///
/// `instructions` may be a string, object or array. Construct through the associated
/// functions or the request builder; the variants are `#[non_exhaustive]` so fields
/// can follow the API without breaking callers.
#[derive(Clone, Debug, PartialEq)]
#[non_exhaustive]
#[allow(inconsistent_fields)]
pub enum Question {
    /// Yes/no. Answered with the probability of "yes".
    #[non_exhaustive]
    Noul {
        /// The question, referring to the state.
        instructions: Value,
        /// What yes and no mean, when spelled out.
        criteria: Option<NoulCriteria>,
    },
    /// One option out of a defined set (at most `MAX_CHOICE_OPTIONS`). Answered with
    /// the chosen option and the probability of every option.
    #[non_exhaustive]
    Choice {
        /// The question, referring to the state.
        instructions: Value,
        /// Option to optional rubric description.
        criteria: OptionMap,
    },
    /// A position along an ordered rubric of at least two levels.
    #[non_exhaustive]
    Score {
        /// The question, referring to the state.
        instructions: Value,
        /// Level descriptions, lowest first.
        criteria: Vec<String>,
    },
}

/// The option set that adding `items` in order to an empty set gives.
pub open spec fn options_from(items: Seq<(Seq<char>, Option<Seq<char>>)>) -> Map<Seq<char>, Option<Seq<char>>> {
    choice_add_all(ChoiceSet { options: Map::empty(), duplicates: Seq::empty() }, items).options
}

/// Why the API would reject a question, if it would: a Choice without options or
/// with more than `MAX_CHOICE_OPTIONS`, or a Score with fewer than two levels.
pub open spec fn problem(q: Question) -> Option<Seq<char>> {
    match q {
        Question::Choice { criteria, .. } => {
            let n = option_entries(criteria).len();
            if n == 0 {
                Some("has no options"@)
            } else if n > MAX_CHOICE_OPTIONS {
                Some("has "@ + decimal(n) + " options; the API allows at most "@ + decimal(MAX_CHOICE_OPTIONS as nat))
            } else {
                None
            }
        },
        Question::Score { criteria, .. } => {
            if criteria@.len() < 2 {
                Some("needs at least two levels"@)
            } else {
                None
            }
        },
        _ => None,
    }
}

/// A Noul never has a structural problem. A Score has one exactly when it has
/// fewer than two levels, whatever their number beyond that; a Choice exactly when
/// it has no option or more than [`MAX_CHOICE_OPTIONS`].
pub proof fn law_structural_problems(q: Question)
    ensures
        q is Noul ==> problem(q) is None,
        q matches Question::Score { criteria, .. } ==> (problem(q) is None <==> criteria@.len() >= 2),
        q matches Question::Score { criteria, .. } ==> (criteria@.len() < 2 ==> problem(q) == Some(
            "needs at least two levels"@,
        )),
        q matches Question::Choice { criteria, .. } ==> (problem(q) is None <==> 1 <= option_entries(criteria).len()
            <= MAX_CHOICE_OPTIONS),
{
}

/// The characters of each string, in order.
pub open spec fn strings_chars(v: Seq<String>) -> Seq<Seq<char>> {
    v.map_values(|s: String| s@)
}

impl Question {
    /// A yes/no question without criteria descriptions.
    pub fn noul(instructions: Value) -> (r: Question)
        ensures
            r == (Question::Noul { instructions, criteria: None }),
    {
        Question::Noul { instructions, criteria: None }
    }

    /// A yes/no question with descriptions of what yes and no mean.
    pub fn noul_with_criteria(instructions: Value, yes: &str, no: &str) -> (r: Question)
        ensures
            match r {
                Question::Noul { instructions: i, criteria: Some(c) } => i == instructions
                    && opt_chars(c.yes) == Some(yes@) && opt_chars(c.no) == Some(no@),
                _ => false,
            },
    {
        Question::Noul {
            instructions,
            criteria: Some(NoulCriteria { yes: Some(String::from_str(yes)), no: Some(String::from_str(no)) }),
        }
    }

    /// Pick one of `options`, each `(name, optional description)`; a later entry
    /// with the same name replaces an earlier one.
    pub fn choice(instructions: Value, options: Vec<(String, Option<String>)>) -> (r: Question)
        ensures
            r matches Question::Choice { instructions: i, criteria } && i == instructions
                && option_entries(criteria) == options_from(
                    options@.map_values(|p: (String, Option<String>)| (p.0@, opt_chars(p.1))),
                ),
    {
        let ghost items = options@.map_values(|p: (String, Option<String>)| (p.0@, opt_chars(p.1)));
        let ghost start = ChoiceSet { options: Map::empty(), duplicates: Seq::empty() };
        let mut criteria = new_option_map();
        let ghost mut set = start;
        let mut i: usize = 0;
        assert(items.skip(0) =~= items);
        while i < options.len()
            invariant
                i <= options@.len(),
                items == options@.map_values(|p: (String, Option<String>)| (p.0@, opt_chars(p.1))),
                set.options == option_entries(criteria),
                choice_add_all(set, items.skip(i as int)) == choice_add_all(start, items),
            decreases options@.len() - i,
        {
            proof {
                assert(items.skip(i as int).drop_first() =~= items.skip(i + 1));
            }
            let name = options[i].0.clone();
            let description = options[i].1.clone();
            proof {
                set = crate::request::choice_add(set, name@, opt_chars(description));
            }
            let _previous = insert_option(&mut criteria, name, description);
            i = i + 1;
        }
        proof {
            assert(items.skip(i as int) =~= Seq::<(Seq<char>, Option<Seq<char>>)>::empty());
        }
        Question::Choice { instructions, criteria }
    }

    /// Pick one of `options`, none of which carries a description.
    pub fn choice_plain(instructions: Value, options: Vec<String>) -> (r: Question)
        ensures
            r matches Question::Choice { instructions: i, criteria } && i == instructions
                && option_entries(criteria) == options_from(
                    options@.map_values(|s: String| (s@, None::<Seq<char>>)),
                ),
    {
        let mut pairs: Vec<(String, Option<String>)> = Vec::new();
        let mut i: usize = 0;
        while i < options.len()
            invariant
                i <= options@.len(),
                pairs@.len() == i,
                forall|k: int| 0 <= k < i ==> #[trigger] pairs@[k].0@ == options@[k]@ && pairs@[k].1 is None,
            decreases options@.len() - i,
        {
            pairs.push((options[i].clone(), None));
            i = i + 1;
        }
        proof {
            assert(pairs@.map_values(|p: (String, Option<String>)| (p.0@, opt_chars(p.1)))
                =~= options@.map_values(|s: String| (s@, None::<Seq<char>>)));
        }
        Question::choice(instructions, pairs)
    }

    /// Rate along `levels`, ordered from lowest to highest.
    pub fn score(instructions: Value, levels: Vec<String>) -> (r: Question)
        ensures
            r == (Question::Score { instructions, criteria: levels }),
    {
        Question::Score { instructions, criteria: levels }
    }

    /// Why the API would reject this question, if it would. `None` means well-formed.
    pub fn structural_problem(&self) -> (r: Option<String>)
        ensures
            opt_chars(r) == problem(*self),
            match *self {
                Question::Noul { .. } => r is None,
                Question::Score { criteria, .. } => r is None <==> criteria@.len() >= 2,
                Question::Choice { criteria, .. } => r is None <==> 1 <= option_entries(criteria).len()
                    <= MAX_CHOICE_OPTIONS,
            },
    {
        match self {
            Question::Choice { criteria, .. } => {
                let n = option_count(criteria);
                if n == 0 {
                    Some(String::from_str("has no options"))
                } else if n > MAX_CHOICE_OPTIONS {
                    let mut s = String::from_str("has ");
                    let count = decimal_string(n);
                    s.append(count.as_str());
                    s.append(" options; the API allows at most ");
                    let max = decimal_string(MAX_CHOICE_OPTIONS);
                    s.append(max.as_str());
                    Some(s)
                } else {
                    None
                }
            },
            Question::Score { criteria, .. } => {
                if criteria.len() < 2 {
                    Some(String::from_str("needs at least two levels"))
                } else {
                    None
                }
            },
            _ => None,
        }
    }
}

/// Whether `v` is the JSON encoding of an optional description: the string, or `null`.
pub open spec fn encodes_description(v: Value, d: Option<Seq<char>>) -> bool {
    match d {
        Some(s) => json_string(v) == Some(s),
        None => json_is_null(v),
    }
}

/// Whether `v` is the JSON object of yes/no descriptions: `true` and `false` keys,
/// each present only when its description is.
pub open spec fn encodes_noul_criteria(v: Value, c: NoulCriteria) -> bool {
    let e = json_object_entries(v);
    &&& json_is_object(v)
    &&& forall|k: Seq<char>| #[trigger] e.contains_key(k) ==> k == "true"@ || k == "false"@
    &&& (e.contains_key("true"@) <==> c.yes is Some)
    &&& (e.contains_key("false"@) <==> c.no is Some)
    &&& (c.yes matches Some(y) ==> json_string(e["true"@]) == Some(y@))
    &&& (c.no matches Some(n) ==> json_string(e["false"@]) == Some(n@))
}

/// Whether `v` is the JSON object of a Choice's options: name to description or `null`.
pub open spec fn encodes_options(v: Value, options: Map<Seq<char>, Option<Seq<char>>>) -> bool {
    let e = json_object_entries(v);
    &&& json_is_object(v)
    &&& forall|k: Seq<char>| #[trigger] e.contains_key(k) <==> options.contains_key(k)
    &&& forall|k: Seq<char>| #[trigger] options.contains_key(k) ==> encodes_description(e[k], options[k])
}

/// Whether `v` is the JSON array of a Score's levels, in order.
pub open spec fn encodes_levels(v: Value, levels: Seq<String>) -> bool {
    match json_array(v) {
        Some(items) => items.len() == levels.len() && forall|i: int| 0 <= i < items.len()
            ==> json_string(#[trigger] items[i]) == Some(levels[i]@),
        None => false,
    }
}

/// Whether `v` is the JSON form of `q` that the API expects: an object with the
/// question's `type`, its `instructions`, and its `criteria` (left out for a Noul
/// without descriptions).
pub open spec fn question_json(q: Question, v: Value) -> bool {
    let e = json_object_entries(v);
    &&& json_is_object(v)
    &&& match q {
        Question::Noul { instructions, criteria } => {
            &&& json_string(e["type"@]) == Some("noul"@)
            &&& e["instructions"@] == instructions
            &&& forall|k: Seq<char>| #[trigger] e.contains_key(k) <==> (k == "type"@ || k == "instructions"@
                || (criteria is Some && k == "criteria"@))
            &&& (criteria matches Some(c) ==> encodes_noul_criteria(e["criteria"@], c))
        },
        Question::Choice { instructions, criteria } => {
            &&& json_string(e["type"@]) == Some("choice"@)
            &&& e["instructions"@] == instructions
            &&& forall|k: Seq<char>| #[trigger] e.contains_key(k) <==> (k == "type"@ || k == "instructions"@ || k == "criteria"@)
            &&& encodes_options(e["criteria"@], option_entries(criteria))
        },
        Question::Score { instructions, criteria } => {
            &&& json_string(e["type"@]) == Some("score"@)
            &&& e["instructions"@] == instructions
            &&& forall|k: Seq<char>| #[trigger] e.contains_key(k) <==> (k == "type"@ || k == "instructions"@ || k == "criteria"@)
            &&& encodes_levels(e["criteria"@], criteria@)
        },
    }
}

/// The JSON value of an optional description: the string, or `null`.
pub open spec fn description_value(d: Option<Seq<char>>) -> Value {
    match d {
        Some(s) => json_of_string(s),
        None => null_json(),
    }
}

/// The entries of the yes/no descriptions object: `true` and `false`, each only
/// when its description is given.
pub open spec fn noul_criteria_entries(c: NoulCriteria) -> Map<Seq<char>, Value> {
    let with_yes = match c.yes {
        Some(y) => Map::empty().insert("true"@, json_of_string(y@)),
        None => Map::empty(),
    };
    match c.no {
        Some(n) => with_yes.insert("false"@, json_of_string(n@)),
        None => with_yes,
    }
}

/// The JSON object of a Choice's options: name to description or `null`.
pub open spec fn options_value(options: Map<Seq<char>, Option<Seq<char>>>) -> Value {
    json_of_object(options.map_values(|d: Option<Seq<char>>| description_value(d)))
}

/// The JSON array of a Score's levels, in order.
pub open spec fn levels_value(levels: Seq<String>) -> Value {
    json_of_array(levels.map_values(|l: String| json_of_string(l@)))
}

/// The members of the JSON form of `q`: `type`, `instructions`, and `criteria`
/// (left out for a Noul without descriptions).
pub open spec fn question_members(q: Question) -> Map<Seq<char>, Value> {
    match q {
        Question::Noul { instructions, criteria } => {
            let e = Map::empty().insert("type"@, json_of_string("noul"@)).insert("instructions"@, instructions);
            match criteria {
                Some(c) => e.insert("criteria"@, json_of_object(noul_criteria_entries(c))),
                None => e,
            }
        },
        Question::Choice { instructions, criteria } => Map::empty().insert("type"@, json_of_string("choice"@)).insert(
            "instructions"@,
            instructions,
        ).insert("criteria"@, options_value(option_entries(criteria))),
        Question::Score { instructions, criteria } => Map::empty().insert("type"@, json_of_string("score"@)).insert(
            "instructions"@,
            instructions,
        ).insert("criteria"@, levels_value(criteria@)),
    }
}

/// The JSON form of `q` that the API expects.
pub open spec fn question_value(q: Question) -> Value {
    json_of_object(question_members(q))
}

fn noul_criteria_json(c: &NoulCriteria) -> (r: Value)
    ensures
        encodes_noul_criteria(r, *c),
        r == json_of_object(noul_criteria_entries(*c)),
{
    proof {
        reveal_strlit("true");
        reveal_strlit("false");
    }
    let mut m = new_object();
    if let Some(y) = &c.yes {
        object_insert(&mut m, String::from_str("true"), string_value(y.clone()));
    }
    if let Some(n) = &c.no {
        object_insert(&mut m, String::from_str("false"), string_value(n.clone()));
    }
    let r = object_value(m);
    proof {
        let e = json_object_entries(r);
        assert("true"@ != "false"@) by {
            assert("true"@.len() != "false"@.len());
        }
        assert(forall|k: Seq<char>| #[trigger] e.contains_key(k) ==> k == "true"@ || k == "false"@);
        assert(e.contains_key("true"@) <==> c.yes is Some);
        assert(e.contains_key("false"@) <==> c.no is Some);
    }
    r
}

fn options_json(criteria: &OptionMap) -> (r: Value)
    ensures
        encodes_options(r, option_entries(*criteria)),
        r == options_value(option_entries(*criteria)),
{
    let list = options_in_order(criteria);
    let mut m = new_object();
    let mut i: usize = 0;
    #[verifier::loop_isolation(false)]
    while i < list.len()
        invariant
            i <= list@.len(),
            forall|k: Seq<char>| #[trigger] object_entries(m).contains_key(k) <==> exists|j: int| 0 <= j < i && list@[j].0@ == k,
            forall|j: int| 0 <= j < i ==> encodes_description(object_entries(m)[#[trigger] list@[j].0@], opt_chars(*list@[j].1)),
            forall|j: int| 0 <= j < i ==> object_entries(m)[#[trigger] list@[j].0@] == description_value(opt_chars(*list@[j].1)),
        decreases list@.len() - i,
    {
        let (name, description) = list[i];
        let v = match description {
            Some(d) => string_value(d.clone()),
            None => {
                let n = null_value();
                proof {
                    assert(json_is_null(null_json()));
                }
                n
            },
        };
        let ghost before = object_entries(m);
        object_insert(&mut m, name.clone(), v);
        proof {
            assert forall|j: int| 0 <= j < i + 1 implies encodes_description(object_entries(m)[#[trigger] list@[j].0@], opt_chars(*list@[j].1)) by {
                if j < i {
                    lemma_key_before_distinct(list@[j].0@, list@[i as int].0@);
                }
            }
            assert forall|j: int| 0 <= j < i + 1 implies object_entries(m)[#[trigger] list@[j].0@] == description_value(opt_chars(*list@[j].1)) by {
                if j < i {
                    lemma_key_before_distinct(list@[j].0@, list@[i as int].0@);
                }
            }
            assert forall|k: Seq<char>| #[trigger] object_entries(m).contains_key(k) <==> exists|j: int| 0 <= j < i + 1 && list@[j].0@ == k by {
                if before.contains_key(k) {
                    let j = choose|j: int| 0 <= j < i && list@[j].0@ == k;
                    assert(0 <= j < i + 1 && list@[j].0@ == k);
                }
                if k == list@[i as int].0@ {
                    assert(0 <= i < i + 1 && list@[i as int].0@ == k);
                }
            }
        }
        i = i + 1;
    }
    let r = object_value(m);
    proof {
        assert forall|k: Seq<char>| #[trigger] option_entries(*criteria).contains_key(k) implies encodes_description(json_object_entries(r)[k], option_entries(*criteria)[k]) by {
            let j = choose|j: int| 0 <= j < list@.len() && list@[j].0@ == k;
            assert(encodes_description(object_entries(m)[list@[j].0@], opt_chars(*list@[j].1)));
        }
        assert forall|k: Seq<char>| #[trigger] json_object_entries(r).contains_key(k) <==> option_entries(*criteria).contains_key(k) by {
            if option_entries(*criteria).contains_key(k) {
                let j = choose|j: int| 0 <= j < list@.len() && list@[j].0@ == k;
                assert(object_entries(m).contains_key(list@[j].0@));
            }
            if object_entries(m).contains_key(k) {
                let j = choose|j: int| 0 <= j < list@.len() && list@[j].0@ == k;
                assert(option_entries(*criteria).contains_key(list@[j].0@));
            }
        }
        let want = option_entries(*criteria).map_values(|d: Option<Seq<char>>| description_value(d));
        assert forall|k: Seq<char>| #[trigger] object_entries(m).contains_key(k) implies object_entries(m)[k] == want[k] by {
            let j = choose|j: int| 0 <= j < list@.len() && list@[j].0@ == k;
            assert(object_entries(m)[list@[j].0@] == description_value(opt_chars(*list@[j].1)));
        }
        assert(object_entries(m) =~= want);
    }
    r
}

fn levels_json(levels: &Vec<String>) -> (r: Value)
    ensures
        encodes_levels(r, levels@),
        r == levels_value(levels@),
{
    let mut items: Vec<Value> = Vec::new();
    let mut i: usize = 0;
    while i < levels.len()
        invariant
            i <= levels@.len(),
            items@.len() == i,
            forall|j: int| 0 <= j < i ==> json_string(#[trigger] items@[j]) == Some(levels@[j]@),
            forall|j: int| 0 <= j < i ==> #[trigger] items@[j] == json_of_string(levels@[j]@),
        decreases levels@.len() - i,
    {
        items.push(string_value(levels[i].clone()));
        i = i + 1;
    }
    proof {
        assert(items@ =~= levels@.map_values(|l: String| json_of_string(l@)));
    }
    array_value(items)
}

impl Question {
    /// The JSON form of the question that the API expects.
    pub fn to_json(&self) -> (r: Value)
        ensures
            question_json(*self, r),
            r == question_value(*self),
    {
        proof {
            reveal_strlit("type");
            reveal_strlit("instructions");
            reveal_strlit("criteria");
            assert("type"@.len() == 4 && "instructions"@.len() == 12 && "criteria"@.len() == 8);
        }
        let mut m = new_object();
        match self {
            Question::Noul { instructions, criteria } => {
                object_insert(&mut m, String::from_str("type"), string_value(String::from_str("noul")));
                object_insert(&mut m, String::from_str("instructions"), instructions.clone());
                if let Some(c) = criteria {
                    object_insert(&mut m, String::from_str("criteria"), noul_criteria_json(c));
                }
            },
            Question::Choice { instructions, criteria } => {
                object_insert(&mut m, String::from_str("type"), string_value(String::from_str("choice")));
                object_insert(&mut m, String::from_str("instructions"), instructions.clone());
                object_insert(&mut m, String::from_str("criteria"), options_json(criteria));
            },
            Question::Score { instructions, criteria } => {
                object_insert(&mut m, String::from_str("type"), string_value(String::from_str("score")));
                object_insert(&mut m, String::from_str("instructions"), instructions.clone());
                object_insert(&mut m, String::from_str("criteria"), levels_json(criteria));
            },
        }
        object_value(m)
    }
}

} // verus!
