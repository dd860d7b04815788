//! String-keyed ordered maps as the library uses them, seen as maps from the
//! keys' characters to values.

use std::collections::BTreeMap;

use vstd::prelude::*;
use vstd::utf8::encode_utf8;

use crate::question::Question;

verus! {

/// Option name to optional description, ordered by name.
pub type OptionMap = BTreeMap<String, Option<String>>;

/// The characters of an optional string.
pub open spec fn opt_chars(o: Option<String>) -> Option<Seq<char>> {
    match o {
        Some(s) => Some(s@),
        None => None,
    }
}

/// What an option map holds: option name to optional description.
pub uninterp spec fn option_entries(m: OptionMap) -> Map<Seq<char>, Option<Seq<char>>>;

/// The empty option map.
pub open spec fn no_options() -> Map<Seq<char>, Option<Seq<char>>> {
    Map::empty()
}

/// `BTreeMap::new`: an empty map.
#[verifier::external_body]
pub(crate) fn new_option_map() -> (r: OptionMap)
    ensures
        option_entries(r) == no_options(),
{
    BTreeMap::new()
}

/// `BTreeMap::insert`: maps `name` to `description`, replacing an earlier
/// description of the same name, which it hands back.
#[verifier::external_body]
pub(crate) fn insert_option(m: &mut OptionMap, name: String, description: Option<String>) -> (r: Option<Option<String>>)
    ensures
        option_entries(*final(m)) == option_entries(*old(m)).insert(name@, opt_chars(description)),
        r is Some <==> option_entries(*old(m)).contains_key(name@),
        r matches Some(d) ==> opt_chars(d) == option_entries(*old(m))[name@],
{
    m.insert(name, description)
}

/// `BTreeMap::len`: the number of distinct option names.
#[verifier::external_body]
pub(crate) fn option_count(m: &OptionMap) -> (n: usize)
    ensures
        n == option_entries(*m).len(),
{
    m.len()
}

/// `BTreeMap::iter`, collected: every option once, in increasing name order.
#[verifier::external_body]
pub(crate) fn options_in_order(m: &OptionMap) -> (r: Vec<(&String, &Option<String>)>)
    ensures
        forall|i: int| 0 <= i < r@.len() ==> #[trigger] option_entries(*m).contains_key(r@[i].0@)
            && option_entries(*m)[r@[i].0@] == opt_chars(*r@[i].1),
        forall|k: Seq<char>| #[trigger] option_entries(*m).contains_key(k) ==>
            exists|i: int| 0 <= i < r@.len() && r@[i].0@ == k,
        forall|i: int, j: int| 0 <= i < j < r@.len() ==> key_before(#[trigger] r@[i].0@, #[trigger] r@[j].0@),
{
    m.iter().collect()
}

/// Question id to question, ordered by id.
pub type QuestionMap = BTreeMap<String, Question>;

/// What a question map holds: id to question.
pub uninterp spec fn question_entries(m: QuestionMap) -> Map<Seq<char>, Question>;

/// The empty question map.
pub open spec fn no_questions() -> Map<Seq<char>, Question> {
    Map::empty()
}

/// Lexicographic order of byte strings.
pub open spec fn bytes_before(a: Seq<u8>, b: Seq<u8>) -> bool
    decreases a.len(),
{
    if a.len() == 0 {
        b.len() > 0
    } else if b.len() == 0 {
        false
    } else if a[0] != b[0] {
        a[0] < b[0]
    } else {
        bytes_before(a.drop_first(), b.drop_first())
    }
}

/// The order of `String` keys: lexicographic by their UTF-8 bytes.
pub open spec fn key_before(a: Seq<char>, b: Seq<char>) -> bool {
    bytes_before(encode_utf8(a), encode_utf8(b))
}

/// No byte string comes before itself.
pub proof fn lemma_bytes_before_irreflexive(a: Seq<u8>)
    ensures
        !bytes_before(a, a),
    decreases a.len(),
{
    if a.len() > 0 {
        lemma_bytes_before_irreflexive(a.drop_first());
    }
}

/// Keys in increasing order are distinct.
pub proof fn lemma_key_before_distinct(a: Seq<char>, b: Seq<char>)
    requires
        key_before(a, b),
    ensures
        a != b,
{
    lemma_bytes_before_irreflexive(encode_utf8(a));
}

/// `BTreeMap::new`: an empty map.
#[verifier::external_body]
pub(crate) fn new_question_map() -> (r: QuestionMap)
    ensures
        question_entries(r) == no_questions(),
{
    BTreeMap::new()
}

/// `BTreeMap::insert`: puts `q` under `id`, replacing an earlier question with the
/// same id, which it hands back.
#[verifier::external_body]
pub(crate) fn insert_question(m: &mut QuestionMap, id: String, q: Question) -> (r: Option<Question>)
    ensures
        question_entries(*final(m)) == question_entries(*old(m)).insert(id@, q),
        r is Some <==> question_entries(*old(m)).contains_key(id@),
        r matches Some(p) ==> p == question_entries(*old(m))[id@],
{
    m.insert(id, q)
}

/// `BTreeMap::is_empty`: whether no question is held.
#[verifier::external_body]
pub(crate) fn no_question_held(m: &QuestionMap) -> (r: bool)
    ensures
        r == question_entries(*m).dom().is_empty(),
{
    m.is_empty()
}

/// `BTreeMap::iter`, collected: every entry once, in increasing key order.
#[verifier::external_body]
pub(crate) fn questions_in_order(m: &QuestionMap) -> (r: Vec<(&String, &Question)>)
    ensures
        forall|i: int| 0 <= i < r@.len() ==> #[trigger] question_entries(*m).contains_key(r@[i].0@)
            && question_entries(*m)[r@[i].0@] == *r@[i].1,
        forall|k: Seq<char>| #[trigger] question_entries(*m).contains_key(k) ==>
            exists|i: int| 0 <= i < r@.len() && r@[i].0@ == k,
        forall|i: int, j: int| 0 <= i < j < r@.len() ==> key_before(#[trigger] r@[i].0@, #[trigger] r@[j].0@),
{
    m.iter().collect()
}

} // verus!
